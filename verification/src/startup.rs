//! The greeting of a session: pi's version, what pi finds in its directories,
//! and whether a newer version is to be had.

use crate::json;
use crate::json::{Json, JsonView};
use crate::path;
use crate::pi::resolve;
use crate::text;
use vstd::prelude::*;
use vstd::string::*;

verus! {

/// How long the registry of packages has to answer, in milliseconds.
pub const NPM_VIEW_TIMEOUT_MS: u64 = 800;

/// How long pi has to tell its version, in milliseconds.
pub const VERSION_TIMEOUT_MS: u64 = 1_500;

// ---------------------------------------------------------------------------
// Skills
// ---------------------------------------------------------------------------

/// What is found in a directory.
pub enum TreeEntry {
    /// A file.
    File { name: String },
    /// A directory.
    Dir { name: String, entries: Vec<TreeEntry> },
}

/// A directory of skills.
pub struct SkillsRoot {
    /// Its path.
    pub path: String,
    /// What is in it.
    pub entries: Vec<TreeEntry>,
}

/// The files of a directory whose name ends with `.md`, when upper and lower
/// case were made the same.
pub open spec fn direct_skills(entries: Seq<TreeEntry>, dir: Seq<char>, windows: bool) -> Seq<Seq<char>>
    decreases entries.len(),
{
    if entries.len() == 0 {
        Seq::empty()
    } else {
        let before = direct_skills(entries.drop_last(), dir, windows);
        match entries.last() {
            TreeEntry::File { name } => if text::ends(text::lowercased(name@), ".md"@) {
                before.push(path::resolved(dir, name@, windows))
            } else {
                before
            },
            TreeEntry::Dir { .. } => before,
        }
    }
}

/// Whether a directory is searched for skills.
pub open spec fn is_searched(name: Seq<char>) -> bool {
    name != "node_modules"@ && name != ".git"@
}

/// The skills of a directory: its own, then those of its directories, the last
/// of these first.
pub open spec fn skills_in(entries: Seq<TreeEntry>, dir: Seq<char>, windows: bool) -> Seq<Seq<char>>
    decreases entries, 1int,
{
    own_skills(entries, dir, windows) + nested_skills(entries, dir, windows)
}

/// The files of a directory that are called `SKILL.md`.
pub open spec fn own_skills(entries: Seq<TreeEntry>, dir: Seq<char>, windows: bool) -> Seq<Seq<char>>
    decreases entries.len(),
{
    if entries.len() == 0 {
        Seq::empty()
    } else {
        let before = own_skills(entries.drop_last(), dir, windows);
        match entries.last() {
            TreeEntry::File { name } => if name@ == "SKILL.md"@ {
                before.push(path::resolved(dir, name@, windows))
            } else {
                before
            },
            TreeEntry::Dir { .. } => before,
        }
    }
}

/// The skills of the directories of a directory, those of the last one first.
pub open spec fn nested_skills(entries: Seq<TreeEntry>, dir: Seq<char>, windows: bool) -> Seq<Seq<char>>
    decreases entries, 0int,
{
    if entries.len() == 0 {
        Seq::empty()
    } else {
        let rest = nested_skills(entries.subrange(0, entries.len() - 1), dir, windows);
        match entries.last() {
            TreeEntry::Dir { name, entries: inner } => if is_searched(name@) {
                skills_in(entries.last()->entries@, path::resolved(dir, name@, windows), windows) + rest
            } else {
                rest
            },
            TreeEntry::File { .. } => rest,
        }
    }
}

/// The skills of a directory: the texts in it, then those of its directories.
pub open spec fn root_skills(entries: Seq<TreeEntry>, dir: Seq<char>, windows: bool) -> Seq<Seq<char>> {
    direct_skills(entries, dir, windows) + nested_skills(entries, dir, windows)
}

/// The skills of several directories.
pub open spec fn all_skills(roots: Seq<SkillsRoot>, windows: bool) -> Seq<Seq<char>>
    decreases roots.len(),
{
    if roots.len() == 0 {
        Seq::empty()
    } else {
        all_skills(roots.drop_last(), windows) + root_skills(roots.last().entries@, roots.last().path@, windows)
    }
}

fn list_direct_skills(entries: &Vec<TreeEntry>, dir: &str, windows: bool) -> (r: Vec<String>)
    ensures
        text::texts(r@) == direct_skills(entries@, dir@, windows),
{
    let mut r: Vec<String> = Vec::new();
    let mut i: usize = 0;
    assert(entries@.take(0) =~= Seq::empty());
    assert(text::texts(r@) =~= Seq::empty());
    while i < entries.len()
        invariant
            i <= entries@.len(),
            text::texts(r@) == direct_skills(entries@.take(i as int), dir@, windows),
        decreases entries.len() - i,
    {
        proof {
            assert(entries@.take(i + 1).drop_last() =~= entries@.take(i as int));
            assert(entries@.take(i + 1).last() == entries@[i as int]);
        }
        if let TreeEntry::File { name } = &entries[i] {
            if text::ends_with(name.as_str().to_lowercase().as_str(), ".md") {
                let p = path::resolve_path(dir, name.as_str(), windows);
                let ghost before = text::texts(r@);
                r.push(p);
                assert(text::texts(r@) =~= before.push(p@));
            }
        }
        i += 1;
    }
    assert(entries@.take(i as int) =~= entries@);
    r
}

fn list_own_skills(entries: &Vec<TreeEntry>, dir: &str, windows: bool) -> (r: Vec<String>)
    ensures
        text::texts(r@) == own_skills(entries@, dir@, windows),
{
    let mut r: Vec<String> = Vec::new();
    let mut i: usize = 0;
    assert(entries@.take(0) =~= Seq::empty());
    assert(text::texts(r@) =~= Seq::empty());
    while i < entries.len()
        invariant
            i <= entries@.len(),
            text::texts(r@) == own_skills(entries@.take(i as int), dir@, windows),
        decreases entries.len() - i,
    {
        proof {
            assert(entries@.take(i + 1).drop_last() =~= entries@.take(i as int));
            assert(entries@.take(i + 1).last() == entries@[i as int]);
        }
        if let TreeEntry::File { name } = &entries[i] {
            if text::same(name.as_str(), "SKILL.md") {
                let p = path::resolve_path(dir, name.as_str(), windows);
                let ghost before = text::texts(r@);
                r.push(p);
                assert(text::texts(r@) =~= before.push(p@));
            }
        }
        i += 1;
    }
    assert(entries@.take(i as int) =~= entries@);
    r
}

/// Put a list behind another.
fn append_all(a: &mut Vec<String>, b: Vec<String>)
    ensures
        text::texts(final(a)@) == text::texts(old(a)@) + text::texts(b@),
{
    let ghost before = a@;
    let mut b = b;
    let ghost added = b@;
    a.append(&mut b);
    assert(a@ =~= before + added);
    assert(text::texts(a@) =~= text::texts(before) + text::texts(added));
}

fn list_nested_skills(entries: &Vec<TreeEntry>, dir: &str, windows: bool) -> (r: Vec<String>)
    ensures
        text::texts(r@) == nested_skills(entries@, dir@, windows),
    decreases entries,
{
    let mut r: Vec<String> = Vec::new();
    let mut i: usize = entries.len();
    assert(entries@.subrange(0, i as int) =~= entries@);
    assert(text::texts(r@) + nested_skills(entries@, dir@, windows) =~= nested_skills(entries@, dir@, windows));
    while i > 0
        invariant
            i <= entries@.len(),
            nested_skills(entries@, dir@, windows) == text::texts(r@) + nested_skills(
                entries@.subrange(0, i as int),
                dir@,
                windows,
            ),
        decreases i,
    {
        i -= 1;
        proof {
            let part = entries@.subrange(0, i + 1);
            assert(part.subrange(0, part.len() - 1) =~= entries@.subrange(0, i as int));
            assert(part.last() == entries@[i as int]);
        }
        if let TreeEntry::Dir { name, entries: inner } = &entries[i] {
            if !text::same(name.as_str(), "node_modules") && !text::same(name.as_str(), ".git") {
                let p = path::resolve_path(dir, name.as_str(), windows);
                proof {
                    assert(decreases_to!(*entries => entries@[i as int]));
                    assert(decreases_to!(entries@[i as int] => entries@[i as int]->entries));
                }
                let ghost done = text::texts(r@);
                let ghost rest = nested_skills(entries@.subrange(0, i as int), dir@, windows);
                let own = list_own_skills(inner, p.as_str(), windows);
                let nested = list_nested_skills(inner, p.as_str(), windows);
                let ghost found = text::texts(own@) + text::texts(nested@);
                assert(skills_in(inner@, p@, windows) == found);
                assert(nested_skills(entries@.subrange(0, i + 1), dir@, windows) == found + rest);
                append_all(&mut r, own);
                append_all(&mut r, nested);
                assert(done + (found + rest) =~= text::texts(r@) + rest);
            }
        }
    }
    assert(entries@.subrange(0, 0) =~= Seq::empty());
    assert(text::texts(r@) + Seq::<Seq<char>>::empty() =~= text::texts(r@));
    r
}

fn list_all_skills(roots: &Vec<SkillsRoot>, windows: bool) -> (r: Vec<String>)
    ensures
        text::texts(r@) == all_skills(roots@, windows),
{
    let mut r: Vec<String> = Vec::new();
    let mut i: usize = 0;
    assert(roots@.take(0) =~= Seq::empty());
    assert(text::texts(r@) =~= Seq::empty());
    while i < roots.len()
        invariant
            i <= roots@.len(),
            text::texts(r@) == all_skills(roots@.take(i as int), windows),
        decreases roots.len() - i,
    {
        proof {
            assert(roots@.take(i + 1).drop_last() =~= roots@.take(i as int));
            assert(roots@.take(i + 1).last() == roots@[i as int]);
        }
        let ghost before = text::texts(r@);
        let direct = list_direct_skills(&roots[i].entries, roots[i].path.as_str(), windows);
        let nested = list_nested_skills(&roots[i].entries, roots[i].path.as_str(), windows);
        append_all(&mut r, direct);
        append_all(&mut r, nested);
        assert(text::texts(r@) =~= before + root_skills(
            roots@[i as int].entries@,
            roots@[i as int].path@,
            windows,
        ));
        i += 1;
    }
    assert(roots@.take(i as int) =~= roots@);
    r
}

// ---------------------------------------------------------------------------
// Prompts and extensions
// ---------------------------------------------------------------------------

/// A name without the extensions `.md` at its end.
pub open spec fn without_md(name: Seq<char>) -> Seq<char>
    decreases name.len(),
{
    if text::ends(name, ".md"@) && name.len() >= 3 {
        without_md(name.take(name.len() - 3))
    } else {
        name
    }
}

/// The commands of prompt files.
pub open spec fn prompt_names(files: Seq<Seq<char>>) -> Seq<Seq<char>>
    decreases files.len(),
{
    if files.len() == 0 {
        Seq::empty()
    } else {
        let before = prompt_names(files.drop_last());
        if text::ends(files.last(), ".md"@) {
            before.push("/"@ + without_md(files.last()))
        } else {
            before
        }
    }
}

/// The paths of files that are extensions.
pub open spec fn extension_files(files: Seq<Seq<char>>, dir: Seq<char>, windows: bool) -> Seq<Seq<char>>
    decreases files.len(),
{
    if files.len() == 0 {
        Seq::empty()
    } else {
        let before = extension_files(files.drop_last(), dir, windows);
        if text::ends(files.last(), ".ts"@) || text::ends(files.last(), ".js"@) {
            before.push(path::resolved(dir, files.last(), windows))
        } else {
            before
        }
    }
}

/// The packages of settings.
pub open spec fn packages_in(items: Seq<JsonView>) -> Seq<Seq<char>>
    decreases items.len(),
{
    if items.len() == 0 {
        Seq::empty()
    } else {
        let before = packages_in(items.drop_last());
        match json::str_of(items.last()) {
            Some(s) => match text::after_prefix(s, "npm:"@) {
                Some(npm) => before.push(npm + "\n  - index.ts"@),
                None => before.push(s),
            },
            None => before,
        }
    }
}

/// The packages of settings, when they are JSON.
pub open spec fn packages_of(settings: Option<JsonView>) -> Seq<Seq<char>> {
    match settings {
        Some(v) => match json::array_member(v, "packages"@) {
            Some(items) => packages_in(items),
            None => Seq::empty(),
        },
        None => Seq::empty(),
    }
}

/// What a text is as JSON.
pub open spec fn parsed(raw: Option<Seq<char>>) -> Option<JsonView> {
    match raw {
        Some(t) => json::json_in(t),
        None => None,
    }
}

fn strip_md(name: &str) -> (r: String)
    ensures
        r@ == without_md(name@),
    decreases name@.len(),
{
    proof {
        reveal_strlit(".md");
    }
    let n: usize = name.unicode_len();
    if text::ends_with(name, ".md") && n >= 3 {
        assert(name@.subrange(0, n - 3) =~= name@.take(n - 3));
        strip_md(name.substring_char(0, n - 3))
    } else {
        name.to_owned()
    }
}

fn list_prompts(files: &Vec<String>) -> (r: Vec<String>)
    ensures
        text::texts(r@) == prompt_names(text::texts(files@)),
{
    let ghost model = text::texts(files@);
    let mut r: Vec<String> = Vec::new();
    let mut i: usize = 0;
    assert(model.take(0) =~= Seq::empty());
    assert(text::texts(r@) =~= Seq::empty());
    while i < files.len()
        invariant
            i <= files@.len(),
            model == text::texts(files@),
            text::texts(r@) == prompt_names(model.take(i as int)),
        decreases files.len() - i,
    {
        proof {
            assert(model.take(i + 1).drop_last() =~= model.take(i as int));
            assert(model.take(i + 1).last() == files@[i as int]@);
        }
        if text::ends_with(files[i].as_str(), ".md") {
            let stem = strip_md(files[i].as_str());
            let name = text::cat2("/", stem.as_str());
            let ghost before = text::texts(r@);
            r.push(name);
            assert(text::texts(r@) =~= before.push(name@));
        }
        i += 1;
    }
    assert(model.take(i as int) =~= model);
    r
}

fn list_extensions(files: &Vec<String>, dir: &str, windows: bool) -> (r: Vec<String>)
    ensures
        text::texts(r@) == extension_files(text::texts(files@), dir@, windows),
{
    let ghost model = text::texts(files@);
    let mut r: Vec<String> = Vec::new();
    let mut i: usize = 0;
    assert(model.take(0) =~= Seq::empty());
    assert(text::texts(r@) =~= Seq::empty());
    while i < files.len()
        invariant
            i <= files@.len(),
            model == text::texts(files@),
            text::texts(r@) == extension_files(model.take(i as int), dir@, windows),
        decreases files.len() - i,
    {
        proof {
            assert(model.take(i + 1).drop_last() =~= model.take(i as int));
            assert(model.take(i + 1).last() == files@[i as int]@);
        }
        if text::ends_with(files[i].as_str(), ".ts") || text::ends_with(files[i].as_str(), ".js") {
            let p = path::resolve_path(dir, files[i].as_str(), windows);
            let ghost before = text::texts(r@);
            r.push(p);
            assert(text::texts(r@) =~= before.push(p@));
        }
        i += 1;
    }
    assert(model.take(i as int) =~= model);
    r
}

fn list_packages(settings: Option<&Json>) -> (r: Vec<String>)
    ensures
        text::texts(r@) == packages_of(json::opt_ref(settings)),
{
    let mut r: Vec<String> = Vec::new();
    assert(text::texts(r@) =~= Seq::empty());
    let items = match settings {
        Some(v) => v.get_array("packages"),
        None => None,
    };
    if let Some(items) = items {
        let ghost model = json::items_view(items@);
        let mut i: usize = 0;
        assert(model.take(0) =~= Seq::empty());
        while i < items.len()
            invariant
                i <= items@.len(),
                model == json::items_view(items@),
                text::texts(r@) == packages_in(model.take(i as int)),
            decreases items.len() - i,
        {
            proof {
                assert(model.take(i + 1).drop_last() =~= model.take(i as int));
                assert(model.take(i + 1).last() == items@[i as int]@);
            }
            if let Some(s) = items[i].as_str() {
                let item = match text::strip_prefix(s, "npm:") {
                    Some(npm) => text::cat2(npm, "\n  - index.ts"),
                    None => s.to_owned(),
                };
                let ghost before = text::texts(r@);
                r.push(item);
                assert(text::texts(r@) =~= before.push(item@));
            }
            i += 1;
        }
        assert(model.take(i as int) =~= model);
    }
    r
}

// ---------------------------------------------------------------------------
// The greeting
// ---------------------------------------------------------------------------

/// What was found in the directories of pi and of the project.
pub struct StartupFiles {
    /// pi's directory.
    pub agent_dir: String,
    /// The project's directory.
    pub cwd: String,
    /// Whether paths are those of Windows.
    pub windows: bool,
    /// Whether the project has a file `AGENTS.md`.
    pub has_context: bool,
    /// The directories of skills.
    pub skills: Vec<SkillsRoot>,
    /// The names of the files in pi's directory of prompts.
    pub prompts: Vec<String>,
    /// The names of the files in pi's directory of extensions.
    pub extensions: Vec<String>,
    /// The settings for all projects.
    pub global_settings: Option<String>,
    /// The settings of the project.
    pub project_settings: Option<String>,
}

/// A section of the greeting, which is left out when it has no items.
pub open spec fn section(title: Seq<char>, items: Seq<Seq<char>>) -> Seq<Seq<char>> {
    let shown = resolve::trimmed_parts(items);
    if shown.len() == 0 {
        Seq::empty()
    } else {
        seq!["## "@ + title] + shown.map_values(|s: Seq<char>| "- "@ + s) + seq![
            Seq::<char>::empty(),
        ]
    }
}

/// The lines of the greeting, given the settings as JSON.
pub open spec fn greeting_lines(
    f: StartupFiles,
    global: Option<JsonView>,
    project: Option<JsonView>,
    version: Option<Seq<char>>,
    notice: Option<Seq<char>>,
) -> Seq<Seq<char>> {
    let header = match version {
        Some(v) => seq!["pi v"@ + v, "---"@, Seq::<char>::empty()],
        None => Seq::empty(),
    };
    let context = if f.has_context {
        seq![path::resolved(f.cwd@, "AGENTS.md"@, f.windows)]
    } else {
        Seq::empty()
    };
    let extensions = text::ordered(
        extension_files(
            text::texts(f.extensions@),
            path::resolved(f.agent_dir@, "extensions"@, f.windows),
            f.windows,
        ),
    ) + packages_of(global) + packages_of(project);
    let footer = match notice {
        Some(n) => seq!["---"@, n, Seq::<char>::empty()],
        None => Seq::empty(),
    };
    header + section("Context"@, context) + section("Skills"@, all_skills(f.skills@, f.windows)) + section(
        "Prompts"@,
        text::ordered(prompt_names(text::texts(f.prompts@))),
    ) + section("Extensions"@, extensions) + footer
}

/// The greeting, given the settings as JSON.
pub open spec fn greeting(
    f: StartupFiles,
    global: Option<JsonView>,
    project: Option<JsonView>,
    version: Option<Seq<char>>,
    notice: Option<Seq<char>>,
) -> Seq<char> {
    text::trimmed(text::joined(greeting_lines(f, global, project, version, notice), "\n"@)) + "\n"@
}

fn add_section(md: &mut Vec<String>, title: &str, items: &Vec<String>)
    ensures
        text::texts(final(md)@) == text::texts(old(md)@) + section(
            title@,
            text::texts(items@),
        ),
{
    let ghost before = text::texts(md@);
    let shown = resolve::trim_parts(items);
    let ghost model = text::texts(shown@);
    if shown.len() == 0 {
        assert(before + Seq::<Seq<char>>::empty() =~= before);
        return;
    }
    md.push(text::cat2("## ", title));
    let ghost head = before.push("## "@ + title@);
    assert(text::texts(md@) =~= head);
    let ghost lines = model.map_values(|s: Seq<char>| "- "@ + s);
    let mut i: usize = 0;
    assert(head + lines.take(0) =~= head);
    while i < shown.len()
        invariant
            i <= shown@.len(),
            model == text::texts(shown@),
            lines == model.map_values(|s: Seq<char>| "- "@ + s),
            text::texts(md@) == head + lines.take(i as int),
        decreases shown.len() - i,
    {
        let line = text::cat2("- ", shown[i].as_str());
        let ghost so_far = text::texts(md@);
        md.push(line);
        assert(text::texts(md@) =~= so_far.push(line@));
        assert(lines[i as int] == line@);
        assert(head + lines.take(i + 1) =~= (head + lines.take(i as int)).push(line@));
        i += 1;
    }
    assert(lines.take(i as int) =~= lines);
    let empty = String::new();
    md.push(empty);
    proof {
        assert(text::texts(md@) =~= (head + lines).push(Seq::empty()));
        let body = section(title@, text::texts(items@));
        assert(body == seq!["## "@ + title@] + lines + seq![Seq::<char>::empty()]);
        assert((head + lines).push(Seq::empty()) =~= before + body);
    }
}

/// The greeting, given the settings as JSON.
pub fn greeting_from(
    f: &StartupFiles,
    global: Option<&Json>,
    project: Option<&Json>,
    pi_version: Option<&str>,
    update_notice: Option<&str>,
) -> (r: String)
    ensures
        r@ == greeting(
            *f,
            json::opt_ref(global),
            json::opt_ref(project),
            text::opt_str(pi_version),
            text::opt_str(update_notice),
        ),
{
    let mut md: Vec<String> = Vec::new();
    if let Some(v) = pi_version {
        md.push(text::cat2("pi v", v));
        md.push("---".to_owned());
        md.push(String::new());
    }
    let ghost header = match text::opt_str(pi_version) {
        Some(v) => seq!["pi v"@ + v, "---"@, Seq::<char>::empty()],
        None => Seq::empty(),
    };
    assert(text::texts(md@) =~= header);
    let mut context: Vec<String> = Vec::new();
    if f.has_context {
        context.push(path::resolve_path(f.cwd.as_str(), "AGENTS.md", f.windows));
    }
    assert(text::texts(context@) =~= if f.has_context {
        seq![path::resolved(f.cwd@, "AGENTS.md"@, f.windows)]
    } else {
        Seq::empty()
    });
    add_section(&mut md, "Context", &context);
    let skills = list_all_skills(&f.skills, f.windows);
    add_section(&mut md, "Skills", &skills);
    let prompts = text::sort(list_prompts(&f.prompts));
    add_section(&mut md, "Prompts", &prompts);
    let dir = path::resolve_path(f.agent_dir.as_str(), "extensions", f.windows);
    let mut extensions = text::sort(list_extensions(&f.extensions, dir.as_str(), f.windows));
    append_all(&mut extensions, list_packages(global));
    append_all(&mut extensions, list_packages(project));
    add_section(&mut md, "Extensions", &extensions);
    let ghost so_far = text::texts(md@);
    if let Some(n) = update_notice {
        md.push("---".to_owned());
        md.push(n.to_owned());
        md.push(String::new());
    }
    let ghost footer = match text::opt_str(update_notice) {
        Some(n) => seq!["---"@, n, Seq::<char>::empty()],
        None => Seq::empty(),
    };
    assert(text::texts(md@) =~= so_far + footer);
    let all = text::join(&md, "\n");
    text::cat2(text::trim(all.as_str()), "\n")
}

fn parse_optional(raw: &Option<String>) -> (r: Option<Json>)
    ensures
        json::opt_view(r) == parsed(text::opt_text(*raw)),
{
    match raw {
        Some(t) => json::parse(t.as_str()),
        None => None,
    }
}

/// The greeting.
pub fn build_startup_info(
    f: &StartupFiles,
    pi_version: Option<&str>,
    update_notice: Option<&str>,
) -> (r: String)
    ensures
        r@ == greeting(
            *f,
            parsed(text::opt_text(f.global_settings)),
            parsed(text::opt_text(f.project_settings)),
            text::opt_str(pi_version),
            text::opt_str(update_notice),
        ),
{
    let global = parse_optional(&f.global_settings);
    let project = parse_optional(&f.project_settings);
    let g = match &global {
        Some(v) => Some(v),
        None => None,
    };
    let p = match &project {
        Some(v) => Some(v),
        None => None,
    };
    greeting_from(f, g, p, pi_version, update_notice)
}

/// The directories of skills: pi's, the user's and the project's.
pub fn skills_dirs(agent_dir: &str, home: Option<&str>, cwd: &str, windows: bool) -> (r: Vec<String>)
    ensures
        text::texts(r@) == seq![path::resolved(agent_dir@, "skills"@, windows)] + (match text::opt_str(
            home,
        ) {
            Some(h) => seq![path::resolved(path::resolved(h, ".agents"@, windows), "skills"@, windows)],
            None => Seq::empty(),
        }) + seq![path::resolved(path::resolved(cwd@, ".pi"@, windows), "skills"@, windows)],
{
    let mut r: Vec<String> = Vec::new();
    r.push(path::resolve_path(agent_dir, "skills", windows));
    if let Some(h) = home {
        let shared = path::resolve_path(h, ".agents", windows);
        r.push(path::resolve_path(shared.as_str(), "skills", windows));
    }
    r.push(path::resolve_path(path::resolve_path(cwd, ".pi", windows).as_str(), "skills", windows));
    assert(text::texts(r@) =~= seq![path::resolved(agent_dir@, "skills"@, windows)] + (match text::opt_str(
        home,
    ) {
        Some(h) => seq![path::resolved(path::resolved(h, ".agents"@, windows), "skills"@, windows)],
        None => Seq::empty(),
    }) + seq![path::resolved(path::resolved(cwd@, ".pi"@, windows), "skills"@, windows)]);
    r
}

// ---------------------------------------------------------------------------
// Versions
// ---------------------------------------------------------------------------

/// A version without what stands behind its first `-` or `+`.
pub open spec fn core_of(v: Seq<char>) -> Seq<char> {
    let a = text::before(v, '-');
    let b = text::before(v, '+');
    v.take(
        if a < b {
            a as int
        } else {
            b as int
        },
    )
}

/// Whether a text is a version: three numbers with dots between them.
pub open spec fn is_version(v: Seq<char>) -> bool {
    let parts = text::pieces(core_of(text::trimmed(v)), '.');
    parts.len() == 3 && forall|i: int|
        0 <= i < 3 ==> (#[trigger] parts[i]).len() > 0 && text::all_digits(parts[i])
}

/// The numbers of a version.
pub open spec fn numbers_in(parts: Seq<Seq<char>>) -> Seq<nat>
    decreases parts.len(),
{
    if parts.len() == 0 {
        Seq::empty()
    } else {
        let before = numbers_in(parts.drop_last());
        match text::number_in(parts.last(), i64::MAX as nat) {
            Some(n) => before.push(n),
            None => before,
        }
    }
}

/// The number at a position, or zero.
pub open spec fn number_at(v: Seq<nat>, i: int) -> nat {
    if i < v.len() {
        v[i]
    } else {
        0
    }
}

/// How two numbers compare: 1, 0 or -1.
pub open spec fn sign(a: nat, b: nat) -> int {
    if a > b {
        1
    } else if a < b {
        -1
    } else {
        0
    }
}

/// How two versions compare by their first three numbers: 1 when the first is
/// newer, -1 when it is older.
pub open spec fn compared(a: Seq<char>, b: Seq<char>) -> int {
    let x = numbers_in(text::pieces(core_of(a), '.'));
    let y = numbers_in(text::pieces(core_of(b), '.'));
    if number_at(x, 0) != number_at(y, 0) {
        sign(number_at(x, 0), number_at(y, 0))
    } else if number_at(x, 1) != number_at(y, 1) {
        sign(number_at(x, 1), number_at(y, 1))
    } else {
        sign(number_at(x, 2), number_at(y, 2))
    }
}

fn read_core(v: &str) -> (r: String)
    ensures
        r@ == core_of(v@),
{
    let cs = text::chars_of(v);
    assert(v@.skip(0) =~= v@);
    let a = text::find_char(&cs, 0, '-');
    let b = text::find_char(&cs, 0, '+');
    let end: usize = if a < b {
        a
    } else {
        b
    };
    let r = text::string_of(&cs, 0, end);
    assert(r@ =~= v@.take(end as int));
    r
}

fn are_digits(s: &str) -> (r: bool)
    ensures
        r == (s@.len() > 0 && text::all_digits(s@)),
{
    let cs = text::chars_of(s);
    if cs.len() == 0 {
        return false;
    }
    let mut i: usize = 0;
    while i < cs.len()
        invariant
            i <= cs@.len(),
            cs@ == s@,
            forall|k: int| 0 <= k < i ==> text::is_digit(#[trigger] s@[k]),
        decreases cs.len() - i,
    {
        if cs[i] < '0' || '9' < cs[i] {
            assert(!text::is_digit(s@[i as int]));
            return false;
        }
        i += 1;
    }
    true
}

/// Whether a text is a version.
pub fn is_semver(v: &str) -> (r: bool)
    ensures
        r == is_version(v@),
{
    let core = read_core(text::trim(v));
    let parts = text::split_char(core.as_str(), '.');
    let ghost model = text::texts(parts@);
    if parts.len() != 3 {
        return false;
    }
    assert(model[0] == parts@[0]@ && model[1] == parts@[1]@ && model[2] == parts@[2]@);
    are_digits(parts[0].as_str()) && are_digits(parts[1].as_str()) && are_digits(
        parts[2].as_str(),
    )
}

/// The numbers of a list.
pub open spec fn nats(v: Seq<u64>) -> Seq<nat> {
    v.map_values(|n: u64| n as nat)
}

fn read_numbers(v: &str) -> (r: Vec<u64>)
    ensures
        nats(r@) == numbers_in(text::pieces(core_of(v@), '.')),
{
    let core = read_core(v);
    let parts = text::split_char(core.as_str(), '.');
    let ghost model = text::texts(parts@);
    let mut r: Vec<u64> = Vec::new();
    let mut i: usize = 0;
    assert(model.take(0) =~= Seq::empty());
    assert(nats(r@) =~= Seq::empty());
    while i < parts.len()
        invariant
            i <= parts@.len(),
            model == text::texts(parts@),
            nats(r@) == numbers_in(model.take(i as int)),
        decreases parts.len() - i,
    {
        proof {
            assert(model.take(i + 1).drop_last() =~= model.take(i as int));
            assert(model.take(i + 1).last() == parts@[i as int]@);
        }
        if let Some(n) = text::read_number(parts[i].as_str(), i64::MAX as u64) {
            let ghost before = nats(r@);
            r.push(n);
            assert(nats(r@) =~= before.push(n as nat));
        }
        i += 1;
    }
    assert(model.take(i as int) =~= model);
    r
}

fn at_or_zero(v: &Vec<u64>, i: usize) -> (r: u64)
    ensures
        r as nat == number_at(nats(v@), i as int),
{
    if i < v.len() {
        v[i]
    } else {
        0
    }
}

/// How two versions compare: 1 when the first is newer, -1 when it is older.
pub fn compare_semver(a: &str, b: &str) -> (r: i32)
    ensures
        r == compared(a@, b@),
{
    let x = read_numbers(a);
    let y = read_numbers(b);
    let mut i: usize = 0;
    while i < 3
        invariant
            i <= 3,
            nats(x@) == numbers_in(text::pieces(core_of(a@), '.')),
            nats(y@) == numbers_in(text::pieces(core_of(b@), '.')),
            forall|k: int|
                #![trigger number_at(nats(x@), k)]
                0 <= k < i ==> number_at(nats(x@), k) == number_at(nats(y@), k),
        decreases 3 - i,
    {
        let p: u64 = at_or_zero(&x, i);
        let q: u64 = at_or_zero(&y, i);
        proof {
            if i == 1 {
                assert(number_at(nats(x@), 0) == number_at(nats(y@), 0));
            } else if i == 2 {
                assert(number_at(nats(x@), 0) == number_at(nats(y@), 0));
                assert(number_at(nats(x@), 1) == number_at(nats(y@), 1));
            }
        }
        if p > q {
            return 1;
        }
        if p < q {
            return -1;
        }
        i += 1;
    }
    assert(number_at(nats(x@), 0) == number_at(nats(y@), 0));
    assert(number_at(nats(x@), 1) == number_at(nats(y@), 1));
    assert(number_at(nats(x@), 2) == number_at(nats(y@), 2));
    0
}

/// A comparison is the opposite of the reverse one.
pub proof fn comparing_is_antisymmetric(a: Seq<char>, b: Seq<char>)
    ensures
        compared(a, b) == -compared(b, a),
        compared(a, a) == 0,
{
}

/// A text without the letters `v` that it begins with.
pub open spec fn without_v(s: Seq<char>) -> Seq<char>
    decreases s.len(),
{
    if s.len() > 0 && s[0] == 'v' {
        without_v(s.skip(1))
    } else {
        s
    }
}

/// A version as a program prints it.
pub open spec fn printed_version(out: Seq<char>) -> Seq<char> {
    text::trimmed(without_v(text::trimmed(out)))
}

fn strip_v(s: &str) -> (r: String)
    ensures
        r@ == without_v(s@),
    decreases s@.len(),
{
    let n: usize = s.unicode_len();
    if n > 0 && s.get_char(0) == 'v' {
        assert(s@.subrange(1, n as int) =~= s@.skip(1));
        strip_v(s.substring_char(1, n))
    } else {
        s.to_owned()
    }
}

fn read_version(out: &str) -> (r: String)
    ensures
        r@ == printed_version(out@),
{
    let v = strip_v(text::trim(out));
    text::trim(v.as_str()).to_owned()
}

/// The version that pi prints, given its output and its messages.
pub fn pi_version_from(stdout: &str, stderr: &str) -> (r: Option<String>)
    ensures
        ({
            let v = printed_version(
                if stdout@.len() == 0 {
                    stderr@
                } else {
                    stdout@
                },
            );
            text::opt_text(r) == if is_version(v) {
                Some(v)
            } else {
                None
            }
        }),
{
    let v = if stdout.unicode_len() == 0 {
        read_version(stderr)
    } else {
        read_version(stdout)
    };
    if is_semver(v.as_str()) {
        Some(v)
    } else {
        None
    }
}

/// What is told of a newer version, given what is installed and what the
/// registry prints.
pub fn update_notice(installed: &str, registry: &str) -> (r: Option<String>)
    ensures
        ({
            let latest = printed_version(registry@);
            text::opt_text(r) == if is_version(installed@) && is_version(latest) && compared(
                latest,
                installed@,
            ) > 0 {
                Some(
                    "New version available: v"@ + latest + " (installed v"@ + installed@
                        + "). Run: `npm i -g @earendil-works/pi-coding-agent`"@,
                )
            } else {
                None
            }
        }),
{
    let latest = read_version(registry);
    if is_semver(installed) && is_semver(latest.as_str()) && compare_semver(
        latest.as_str(),
        installed,
    ) > 0 {
        Some(
            text::cat5(
                "New version available: v",
                latest.as_str(),
                " (installed v",
                installed,
                "). Run: `npm i -g @earendil-works/pi-coding-agent`",
            ),
        )
    } else {
        None
    }
}

// ---------------------------------------------------------------------------
// Laws of the greeting
// ---------------------------------------------------------------------------

/// A section is its title and one line for each item, in order, with an empty
/// line behind; without items there is none.
pub proof fn a_section_lists_its_items(title: Seq<char>, items: Seq<Seq<char>>, k: int)
    ensures
        resolve::trimmed_parts(items).len() == 0 ==> section(title, items).len() == 0,
        resolve::trimmed_parts(items).len() > 0 ==> {
            let shown = resolve::trimmed_parts(items);
            let lines = section(title, items);
            &&& lines.len() == shown.len() + 2
            &&& lines[0] == "## "@ + title
            &&& 0 <= k < shown.len() ==> lines[k + 1] == "- "@ + shown[k]
            &&& lines.last().len() == 0
        },
        0 <= k < items.len() && text::trimmed(items[k]).len() > 0 ==> section(title, items).contains(
            "- "@ + text::trimmed(items[k]),
        ),
{
    let shown = resolve::trimmed_parts(items);
    let lines = section(title, items);
    if 0 <= k < items.len() && text::trimmed(items[k]).len() > 0 {
        resolve::no_part_is_lost(items, k);
        let i = choose|i: int| 0 <= i < shown.len() && shown[i] == text::trimmed(items[k]);
        assert(lines[i + 1] == "- "@ + shown[i]);
    }
}

/// A line of a section is a line of the greeting.
proof fn sections_are_shown(
    f: StartupFiles,
    global: Option<JsonView>,
    project: Option<JsonView>,
    version: Option<Seq<char>>,
    notice: Option<Seq<char>>,
    line: Seq<char>,
)
    ensures
        ({
            let lines = greeting_lines(f, global, project, version, notice);
            let context = if f.has_context {
                seq![path::resolved(f.cwd@, "AGENTS.md"@, f.windows)]
            } else {
                Seq::empty()
            };
            let files = extension_files(
                text::texts(f.extensions@),
                path::resolved(f.agent_dir@, "extensions"@, f.windows),
                f.windows,
            );
            &&& section("Context"@, context).contains(line) ==> lines.contains(line)
            &&& section("Skills"@, all_skills(f.skills@, f.windows)).contains(line)
                ==> lines.contains(line)
            &&& section("Prompts"@, text::ordered(prompt_names(text::texts(f.prompts@)))).contains(
                line,
            ) ==> lines.contains(line)
            &&& section(
                "Extensions"@,
                text::ordered(files) + packages_of(global) + packages_of(project),
            ).contains(line) ==> lines.contains(line)
            &&& version matches Some(v) ==> lines.len() >= 3 && lines[0] == "pi v"@ + v
            &&& notice matches Some(n) ==> lines.contains(n)
        }),
{
    let lines = greeting_lines(f, global, project, version, notice);
    let header = match version {
        Some(v) => seq!["pi v"@ + v, "---"@, Seq::<char>::empty()],
        None => Seq::empty(),
    };
    let context = if f.has_context {
        seq![path::resolved(f.cwd@, "AGENTS.md"@, f.windows)]
    } else {
        Seq::empty()
    };
    let files = extension_files(
        text::texts(f.extensions@),
        path::resolved(f.agent_dir@, "extensions"@, f.windows),
        f.windows,
    );
    let a = section("Context"@, context);
    let b = section("Skills"@, all_skills(f.skills@, f.windows));
    let c = section("Prompts"@, text::ordered(prompt_names(text::texts(f.prompts@))));
    let d = section(
        "Extensions"@,
        text::ordered(files) + packages_of(global) + packages_of(project),
    );
    let e = match notice {
        Some(n) => seq!["---"@, n, Seq::<char>::empty()],
        None => Seq::empty(),
    };
    one_behind_the_other(header, a, b, c, d, e, line);
    assert(lines == header + a + b + c + d + e);
    if let Some(n) = notice {
        assert(e[1] == n);
        one_behind_the_other(header, a, b, c, d, e, n);
    }
}

proof fn one_behind_the_other(
    h: Seq<Seq<char>>,
    a: Seq<Seq<char>>,
    b: Seq<Seq<char>>,
    c: Seq<Seq<char>>,
    d: Seq<Seq<char>>,
    e: Seq<Seq<char>>,
    line: Seq<char>,
)
    ensures
        a.contains(line) || b.contains(line) || c.contains(line) || d.contains(line) || e.contains(
            line,
        ) ==> (h + a + b + c + d + e).contains(line),
{
    let all = h + a + b + c + d + e;
    if a.contains(line) {
        let i = choose|i: int| 0 <= i < a.len() && a[i] == line;
        assert(all[h.len() + i] == line);
    }
    if b.contains(line) {
        let i = choose|i: int| 0 <= i < b.len() && b[i] == line;
        assert(all[h.len() + a.len() + i] == line);
    }
    if c.contains(line) {
        let i = choose|i: int| 0 <= i < c.len() && c[i] == line;
        assert(all[h.len() + a.len() + b.len() + i] == line);
    }
    if d.contains(line) {
        let i = choose|i: int| 0 <= i < d.len() && d[i] == line;
        assert(all[h.len() + a.len() + b.len() + c.len() + i] == line);
    }
    if e.contains(line) {
        let i = choose|i: int| 0 <= i < e.len() && e[i] == line;
        assert(all[h.len() + a.len() + b.len() + c.len() + d.len() + i] == line);
    }
}

/// The greeting begins with pi's version, and names an update when there is
/// one and the project's instructions when there are some.
pub proof fn the_greeting_names_version_and_context(
    f: StartupFiles,
    global: Option<JsonView>,
    project: Option<JsonView>,
    version: Option<Seq<char>>,
    notice: Option<Seq<char>>,
)
    ensures
        ({
            let lines = greeting_lines(f, global, project, version, notice);
            let at = path::resolved(f.cwd@, "AGENTS.md"@, f.windows);
            &&& version matches Some(v) ==> lines.len() >= 3 && lines[0] == "pi v"@ + v
            &&& notice matches Some(n) ==> lines.contains(n)
            &&& f.has_context && text::trimmed(at).len() > 0 ==> lines.contains(
                "- "@ + text::trimmed(at),
            )
        }),
{
    let at = path::resolved(f.cwd@, "AGENTS.md"@, f.windows);
    sections_are_shown(f, global, project, version, notice, "- "@ + text::trimmed(at));
    a_section_lists_its_items("Context"@, seq![at], 0);
}

/// The greeting lists every skill that was found.
pub proof fn the_greeting_lists_skills(
    f: StartupFiles,
    global: Option<JsonView>,
    project: Option<JsonView>,
    version: Option<Seq<char>>,
    notice: Option<Seq<char>>,
    k: int,
)
    requires
        0 <= k < all_skills(f.skills@, f.windows).len(),
        text::trimmed(all_skills(f.skills@, f.windows)[k]).len() > 0,
    ensures
        greeting_lines(f, global, project, version, notice).contains(
            "- "@ + text::trimmed(all_skills(f.skills@, f.windows)[k]),
        ),
{
    let t = text::trimmed(all_skills(f.skills@, f.windows)[k]);
    sections_are_shown(f, global, project, version, notice, "- "@ + t);
    a_section_lists_its_items("Skills"@, all_skills(f.skills@, f.windows), k);
}

proof fn in_order_contains(v: Seq<Seq<char>>, s: Seq<char>)
    requires
        v.contains(s),
    ensures
        text::ordered(v).contains(s),
{
    broadcast use vstd::seq_lib::group_to_multiset_ensures;

    text::ordered_is_in_order(v);
    assert(v.to_multiset().count(s) > 0);
    assert(text::ordered(v).to_multiset().contains(s));
}

/// The greeting lists the prompts by the names of their commands.
pub proof fn the_greeting_lists_prompts(
    f: StartupFiles,
    global: Option<JsonView>,
    project: Option<JsonView>,
    version: Option<Seq<char>>,
    notice: Option<Seq<char>>,
    k: int,
    name: Seq<char>,
)
    requires
        0 <= k < f.prompts@.len(),
        f.prompts@[k]@ == name + ".md"@,
        !text::ends(name, ".md"@),
        name.len() > 0,
        !text::is_white(name.last()),
    ensures
        greeting_lines(f, global, project, version, notice).contains("- /"@ + name),
{
    reveal_strlit("/");
    reveal_strlit("- ");
    reveal_strlit("- /");
    assert("/"@.len() == 1 && "- "@.len() == 2 && "- /"@.len() == 3);
    assert("/"@[0] == '/' && "- "@[0] == '-' && "- "@[1] == ' ');
    assert("- /"@[0] == '-' && "- /"@[1] == ' ' && "- /"@[2] == '/');
    let files = text::texts(f.prompts@);
    assert(files[k] == name + ".md"@);
    let shown = "/"@ + name;
    prompt_is_named(files, k, name);
    let all = text::ordered(prompt_names(files));
    in_order_contains(prompt_names(files), shown);
    let i = choose|i: int| 0 <= i < all.len() && all[i] == shown;
    assert(shown.last() == name.last());
    text::trimmed_stays(shown);
    sections_are_shown(f, global, project, version, notice, "- "@ + shown);
    a_section_lists_its_items("Prompts"@, all, i);
    assert("- "@ + shown =~= "- /"@ + name);
}

proof fn prompt_is_named(files: Seq<Seq<char>>, k: int, name: Seq<char>)
    requires
        0 <= k < files.len(),
        files[k] == name + ".md"@,
        !text::ends(name, ".md"@),
    ensures
        prompt_names(files).contains("/"@ + name),
    decreases files.len(),
{
    reveal_strlit(".md");
    assert(".md"@.len() == 3);
    let all = prompt_names(files);
    if k < files.len() - 1 {
        prompt_is_named(files.drop_last(), k, name);
        let before = prompt_names(files.drop_last());
        let i = choose|i: int| 0 <= i < before.len() && before[i] == "/"@ + name;
        assert(all[i] == before[i]);
    } else {
        let full = files[k];
        assert(full.subrange(full.len() - 3, full.len() as int) =~= ".md"@);
        assert(full.take(full.len() - 3) =~= name);
        reveal_with_fuel(without_md, 2);
        assert(all[all.len() - 1] == "/"@ + name);
    }
}

/// The greeting lists extensions by their files, and the packages that the
/// settings name.
pub proof fn the_greeting_lists_extensions(
    f: StartupFiles,
    global: Option<JsonView>,
    project: Option<JsonView>,
    version: Option<Seq<char>>,
    notice: Option<Seq<char>>,
    item: Seq<char>,
)
    requires
        text::trimmed(item).len() > 0,
        extension_files(
            text::texts(f.extensions@),
            path::resolved(f.agent_dir@, "extensions"@, f.windows),
            f.windows,
        ).contains(item) || packages_of(global).contains(item) || packages_of(project).contains(
            item,
        ),
    ensures
        greeting_lines(f, global, project, version, notice).contains("- "@ + text::trimmed(item)),
{
    let files = extension_files(
        text::texts(f.extensions@),
        path::resolved(f.agent_dir@, "extensions"@, f.windows),
        f.windows,
    );
    let a = text::ordered(files);
    let b = packages_of(global);
    let c = packages_of(project);
    let all = a + b + c;
    if files.contains(item) {
        in_order_contains(files, item);
        let i = choose|i: int| 0 <= i < a.len() && a[i] == item;
        assert(all[i] == item);
    } else if b.contains(item) {
        let i = choose|i: int| 0 <= i < b.len() && b[i] == item;
        assert(all[a.len() + i] == item);
    } else {
        let i = choose|i: int| 0 <= i < c.len() && c[i] == item;
        assert(all[a.len() + b.len() + i] == item);
    }
    let k = choose|k: int| 0 <= k < all.len() && all[k] == item;
    sections_are_shown(f, global, project, version, notice, "- "@ + text::trimmed(item));
    a_section_lists_its_items("Extensions"@, all, k);
}

/// A file of an extension is one that ends in `.ts` or `.js`, at its place.
pub proof fn an_extension_is_a_script(
    files: Seq<Seq<char>>,
    dir: Seq<char>,
    windows: bool,
    k: int,
)
    requires
        0 <= k < files.len(),
        text::ends(files[k], ".ts"@) || text::ends(files[k], ".js"@),
    ensures
        extension_files(files, dir, windows).contains(path::resolved(dir, files[k], windows)),
    decreases files.len(),
{
    let all = extension_files(files, dir, windows);
    if k < files.len() - 1 {
        let front = files.drop_last();
        an_extension_is_a_script(front, dir, windows, k);
        let before = extension_files(front, dir, windows);
        let i = choose|i: int|
            0 <= i < before.len() && before[i] == path::resolved(dir, files[k], windows);
        assert(all[i] == before[i]);
    } else {
        assert(all[all.len() - 1] == path::resolved(dir, files[k], windows));
    }
}

/// Packages are named as the settings name them; of an npm package the prefix
/// is left out and its entry point named.
pub proof fn packages_are_named(items: Seq<JsonView>, k: int, s: Seq<char>)
    requires
        0 <= k < items.len(),
        items[k] == JsonView::Str(s),
    ensures
        !text::begins(s, "npm:"@) ==> packages_in(items).contains(s),
        text::begins(s, "npm:"@) ==> packages_in(items).contains(
            s.skip("npm:"@.len() as int) + "\n  - index.ts"@,
        ),
    decreases items.len(),
{
    let all = packages_in(items);
    let shown = if text::begins(s, "npm:"@) {
        s.skip("npm:"@.len() as int) + "\n  - index.ts"@
    } else {
        s
    };
    if k < items.len() - 1 {
        let front = items.drop_last();
        packages_are_named(front, k, s);
        let before = packages_in(front);
        let i = choose|i: int| 0 <= i < before.len() && before[i] == shown;
        assert(all[i] == before[i]);
    } else {
        assert(all[all.len() - 1] == shown);
    }
}

/// A skill's own file is found in a directory that is searched.
pub proof fn a_skill_is_found(entries: Seq<TreeEntry>, dir: Seq<char>, windows: bool, k: int)
    requires
        0 <= k < entries.len(),
        entries[k] matches TreeEntry::File { name } && name@ == "SKILL.md"@,
    ensures
        skills_in(entries, dir, windows).contains(path::resolved(dir, "SKILL.md"@, windows)),
{
    own_skill_is_found(entries, dir, windows, k);
    let a = own_skills(entries, dir, windows);
    let i = choose|i: int|
        0 <= i < a.len() && a[i] == path::resolved(dir, "SKILL.md"@, windows);
    assert(skills_in(entries, dir, windows)[i] == a[i]);
}

proof fn own_skill_is_found(entries: Seq<TreeEntry>, dir: Seq<char>, windows: bool, k: int)
    requires
        0 <= k < entries.len(),
        entries[k] matches TreeEntry::File { name } && name@ == "SKILL.md"@,
    ensures
        own_skills(entries, dir, windows).contains(path::resolved(dir, "SKILL.md"@, windows)),
    decreases entries.len(),
{
    let all = own_skills(entries, dir, windows);
    if k < entries.len() - 1 {
        let front = entries.drop_last();
        own_skill_is_found(front, dir, windows, k);
        let before = own_skills(front, dir, windows);
        let i = choose|i: int|
            0 <= i < before.len() && before[i] == path::resolved(dir, "SKILL.md"@, windows);
        assert(all[i] == before[i]);
    } else {
        assert(all[all.len() - 1] == path::resolved(dir, "SKILL.md"@, windows));
    }
}

proof fn three_numbers(a: nat, b: nat, c: nat, rest: Seq<char>)
    requires
        a <= i64::MAX && b <= i64::MAX && c <= i64::MAX,
        rest.len() == 0 || rest[0] == '-' || rest[0] == '+',
    ensures
        ({
            let v = text::decimal(a) + seq!['.'] + text::decimal(b) + seq!['.'] + text::decimal(c)
                + rest;
            numbers_in(text::pieces(core_of(v), '.')) == seq![a, b, c]
        }),
{
    let x = text::decimal(a);
    let y = text::decimal(b);
    let z = text::decimal(c);
    text::decimal_reads_back(a);
    text::decimal_reads_back(b);
    text::decimal_reads_back(c);
    let core = x + seq!['.'] + y + seq!['.'] + z;
    let v = core + rest;
    assert(v =~= x + seq!['.'] + y + seq!['.'] + z + rest);
    assert forall|i: int| 0 <= i < core.len() implies core[i] != '-' && core[i] != '+' by {
        if i < x.len() {
            assert(text::is_digit(x[i]));
        } else if i == x.len() {
        } else if i < x.len() + 1 + y.len() {
            assert(text::is_digit(y[i - x.len() - 1]));
        } else if i > x.len() + 1 + y.len() {
            assert(text::is_digit(z[i - x.len() - 2 - y.len()]));
        }
    }
    core_is(core, rest);
    let tail = y + seq!['.'] + z;
    assert(core =~= x + seq!['.'] + tail);
    assert forall|i: int| 0 <= i < x.len() implies core[i] != '.' by {
        assert(text::is_digit(x[i]));
    }
    text::before_unique(core, '.', x.len() as int);
    assert(core.take(x.len() as int) =~= x);
    assert(core.skip(x.len() as int + 1) =~= tail);
    assert forall|i: int| 0 <= i < y.len() implies tail[i] != '.' by {
        assert(text::is_digit(y[i]));
    }
    text::before_unique(tail, '.', y.len() as int);
    assert(tail.take(y.len() as int) =~= y);
    assert(tail.skip(y.len() as int + 1) =~= z);
    assert forall|i: int| 0 <= i < z.len() implies z[i] != '.' by {
        assert(text::is_digit(z[i]));
    }
    text::before_unique(z, '.', z.len() as int);
    assert(text::pieces(z, '.') == seq![z]);
    assert(text::pieces(tail, '.') =~= seq![y, z]);
    assert(text::pieces(core, '.') =~= seq![x, y, z]);
    let parts = seq![x, y, z];
    reveal_with_fuel(numbers_in, 4);
    assert(parts.drop_last() =~= seq![x, y]);
    assert(seq![x, y].drop_last() =~= seq![x]);
    assert(seq![x].drop_last() =~= Seq::<Seq<char>>::empty());
    assert(numbers_in(parts) =~= seq![a, b, c]);
}

proof fn core_is(core: Seq<char>, rest: Seq<char>)
    requires
        forall|i: int| 0 <= i < core.len() ==> core[i] != '-' && core[i] != '+',
        rest.len() == 0 || rest[0] == '-' || rest[0] == '+',
    ensures
        core_of(core + rest) == core,
{
    let v = core + rest;
    text::before_is_first(v, '-');
    text::before_is_first(v, '+');
    let a = text::before(v, '-') as int;
    let b = text::before(v, '+') as int;
    assert forall|i: int| 0 <= i < core.len() implies v[i] == core[i] by {}
    if a < core.len() {
        assert(v[a] == core[a]);
    }
    if b < core.len() {
        assert(v[b] == core[b]);
    }
    if rest.len() > 0 {
        assert(v[core.len() as int] == rest[0]);
    }
    assert(v.take(core.len() as int) =~= core);
}

/// Versions are compared by their three numbers, the first deciding first;
/// what follows them does not count.
pub proof fn versions_are_compared_by_numbers(
    a: nat,
    b: nat,
    c: nat,
    x: nat,
    y: nat,
    z: nat,
    rest: Seq<char>,
    more: Seq<char>,
)
    requires
        a <= i64::MAX && b <= i64::MAX && c <= i64::MAX,
        x <= i64::MAX && y <= i64::MAX && z <= i64::MAX,
        rest.len() == 0 || rest[0] == '-' || rest[0] == '+',
        more.len() == 0 || more[0] == '-' || more[0] == '+',
    ensures
        ({
            let v = text::decimal(a) + seq!['.'] + text::decimal(b) + seq!['.'] + text::decimal(c)
                + rest;
            let w = text::decimal(x) + seq!['.'] + text::decimal(y) + seq!['.'] + text::decimal(z)
                + more;
            &&& compared(v, w) > 0 <==> a > x || (a == x && (b > y || (b == y && c > z)))
            &&& compared(v, w) == 0 <==> a == x && b == y && c == z
        }),
{
    three_numbers(a, b, c, rest);
    three_numbers(x, y, z, more);
}

} // verus!
