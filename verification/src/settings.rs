//! pi's settings: one JSON file for all projects and one for a project, whose
//! members win.

use crate::glob;
use crate::json;
use crate::json::{Json, JsonMap, JsonView};
use crate::path;
use crate::text;
use vstd::prelude::*;
use vstd::string::*;

verus! {

// ---------------------------------------------------------------------------
// Files
// ---------------------------------------------------------------------------

/// pi's directory: where the environment says, else below the home directory.
pub open spec fn agent_dir_of(
    chosen: Option<Seq<char>>,
    cwd: Option<Seq<char>>,
    home: Option<Seq<char>>,
    windows: bool,
) -> Seq<char> {
    let default = match home {
        Some(h) => path::resolved(path::resolved(h, ".pi"@, windows), "agent"@, windows),
        None => ".pi/agent"@,
    };
    match chosen {
        Some(d) => if d.len() > 0 {
            path::resolved(
                match cwd {
                    Some(c) => c,
                    None => "."@,
                },
                d,
                windows,
            )
        } else {
            default
        },
        None => default,
    }
}

/// pi's directory. `chosen` is the value of `PI_CODING_AGENT_DIR`, `cwd` the
/// current directory and `home` the user's.
pub fn agent_dir(
    chosen: Option<&str>,
    cwd: Option<&str>,
    home: Option<&str>,
    windows: bool,
) -> (r: String)
    ensures
        r@ == agent_dir_of(
            text::opt_str(chosen),
            text::opt_str(cwd),
            text::opt_str(home),
            windows,
        ),
{
    if let Some(d) = chosen {
        if d.unicode_len() > 0 {
            return match cwd {
                Some(c) => path::resolve_path(c, d, windows),
                None => path::resolve_path(".", d, windows),
            };
        }
    }
    match home {
        Some(h) => path::resolve_path(
            path::resolve_path(h, ".pi", windows).as_str(),
            "agent",
            windows,
        ),
        None => ".pi/agent".to_owned(),
    }
}

/// The file of the settings for all projects.
pub fn global_settings_path(agent_dir: &str, windows: bool) -> (r: String)
    ensures
        r@ == path::resolved(agent_dir@, "settings.json"@, windows),
{
    path::resolve_path(agent_dir, "settings.json", windows)
}

/// The file of the settings of the project in `cwd`.
pub fn project_settings_path(cwd: &str, windows: bool) -> (r: String)
    ensures
        r@ == path::resolved(path::resolved(cwd@, ".pi"@, windows), "settings.json"@, windows),
{
    path::resolve_path(path::resolve_path(cwd, ".pi", windows).as_str(), "settings.json", windows)
}

/// The settings that a JSON value is: an object, else none at all.
pub open spec fn settings_in(v: Option<JsonView>) -> JsonView {
    match v {
        Some(JsonView::Object(es)) => JsonView::Object(es),
        _ => JsonView::Object(Seq::empty()),
    }
}

/// The settings that a text is.
pub open spec fn settings_of(raw: Option<Seq<char>>) -> JsonView {
    match raw {
        Some(t) => settings_in(json::json_in(t)),
        None => settings_in(None),
    }
}

/// The settings that a JSON value is.
pub fn settings_from(v: Option<Json>) -> (r: Json)
    ensures
        r@ == settings_in(json::opt_view(v)),
{
    broadcast use json::json_view;

    match v {
        Some(Json::Object(m)) => Json::Object(m),
        _ => Json::Object(JsonMap::new()),
    }
}

/// The settings that a file holds, given its text: no settings when there is
/// no readable file.
pub fn read_json_file(raw: Option<&str>) -> (r: Json)
    ensures
        r@ == settings_of(text::opt_str(raw)),
{
    match raw {
        Some(t) => settings_from(json::parse(t)),
        None => settings_from(None),
    }
}

// ---------------------------------------------------------------------------
// Merging
// ---------------------------------------------------------------------------

/// The value `overlay` on top of the value `base`: objects are merged member by
/// member, anything else is replaced.
pub open spec fn merged(base: JsonView, overlay: JsonView) -> JsonView
    decreases overlay,
{
    match (base, overlay) {
        (JsonView::Object(a), JsonView::Object(b)) => JsonView::Object(
            merged_members(a, overlay->Object_0),
        ),
        _ => overlay,
    }
}

/// The members `b` on top of the members `a`.
pub open spec fn merged_members(
    a: Seq<(Seq<char>, JsonView)>,
    b: Seq<(Seq<char>, JsonView)>,
) -> Seq<(Seq<char>, JsonView)>
    decreases b,
{
    if b.len() == 0 {
        a
    } else {
        let out = merged_members(a, b.subrange(0, b.len() - 1));
        let k = b.last().0;
        json::put(
            out,
            k,
            match json::entry(out, k) {
                Some(x) => merged(x, b.last().1),
                None => b.last().1,
            },
        )
    }
}

/// Merge two JSON values; `overlay` wins.
pub fn deep_merge(base: &Json, overlay: &Json) -> (r: Json)
    ensures
        r@ == merged(base@, overlay@),
    decreases overlay@,
{
    proof {
        json::json_view(*base);
        json::json_view(*overlay);
    }
    match (base, overlay) {
        (Json::Object(a), Json::Object(b)) => {
            let mut out = a.clone();
            let mut i: usize = 0;
            assert(b@.subrange(0, 0) =~= Seq::empty());
            while i < b.len()
                invariant
                    i <= b@.len(),
                    overlay@ == JsonView::Object(b@),
                    out@ == merged_members(a@, b@.subrange(0, i as int)),
                decreases b@.len() - i,
            {
                let name = b.name_at(i);
                let value = b.value_at(i);
                proof {
                    let part = b@.subrange(0, i + 1);
                    assert(part.subrange(0, part.len() - 1) =~= b@.subrange(0, i as int));
                    assert(part.last() == b@[i as int]);
                    assert(decreases_to!(overlay@ => overlay@->Object_0[i as int].1));
                }
                let next = match out.get(name) {
                    Some(x) => deep_merge(x, value),
                    None => value.clone(),
                };
                out = out.with(name, next);
                i += 1;
            }
            assert(b@.subrange(0, i as int) =~= b@);
            let r = Json::Object(out);
            proof {
                json::json_view(r);
            }
            r
        },
        _ => overlay.clone(),
    }
}

/// Settings for a project, given the texts of the two files.
pub fn load_merged_settings(global: Option<&str>, project: Option<&str>) -> (r: Json)
    ensures
        r@ == merged(settings_of(text::opt_str(global)), settings_of(text::opt_str(project))),
{
    let g = read_json_file(global);
    let p = read_json_file(project);
    deep_merge(&g, &p)
}

/// Settings for a project, given the texts of the two files.
pub fn get_merged_settings(global: Option<&str>, project: Option<&str>) -> (r: Json)
    ensures
        r@ == merged(settings_of(text::opt_str(global)), settings_of(text::opt_str(project))),
{
    load_merged_settings(global, project)
}

proof fn merged_entry(
    a: Seq<(Seq<char>, JsonView)>,
    b: Seq<(Seq<char>, JsonView)>,
    k: Seq<char>,
)
    requires
        forall|i: int, j: int| 0 <= i < j < b.len() ==> (#[trigger] b[i]).0 != (#[trigger] b[j]).0,
    ensures
        json::entry(merged_members(a, b), k) == (match (json::entry(a, k), json::entry(b, k)) {
            (Some(x), Some(y)) => Some(merged(x, y)),
            (x, None) => x,
            (None, Some(y)) => Some(y),
        }),
    decreases b.len(),
{
    if b.len() > 0 {
        let before = b.subrange(0, b.len() - 1);
        merged_entry(a, before, k);
        merged_entry(a, before, b.last().0);
        let out = merged_members(a, before);
        entry_of_last(b, k);
        entry_absent(before, b.last().0);
        let v = match json::entry(out, b.last().0) {
            Some(x) => merged(x, b.last().1),
            None => b.last().1,
        };
        if k == b.last().0 {
            json::put_then_entry(out, k, v);
        } else {
            json::put_keeps_others(out, b.last().0, v, k);
        }
    }
}

proof fn entry_absent(es: Seq<(Seq<char>, JsonView)>, k: Seq<char>)
    requires
        forall|i: int| 0 <= i < es.len() ==> (#[trigger] es[i]).0 != k,
    ensures
        json::entry(es, k) is None,
    decreases es.len(),
{
    if es.len() > 0 {
        assert forall|i: int| 0 <= i < es.skip(1).len() implies (#[trigger] es.skip(1)[i]).0
            != k by {
            assert(es.skip(1)[i] == es[i + 1]);
        }
        entry_absent(es.skip(1), k);
    }
}

proof fn entry_of_last(es: Seq<(Seq<char>, JsonView)>, k: Seq<char>)
    requires
        es.len() > 0,
        forall|i: int, j: int|
            0 <= i < j < es.len() ==> (#[trigger] es[i]).0 != (#[trigger] es[j]).0,
    ensures
        json::entry(es, k) == if k == es.last().0 {
            Some(es.last().1)
        } else {
            json::entry(es.subrange(0, es.len() - 1), k)
        },
    decreases es.len(),
{
    reveal_with_fuel(json::entry, 2);
    let before = es.subrange(0, es.len() - 1);
    if es.len() == 1 {
        assert(es.skip(1) =~= Seq::empty());
        assert(before =~= Seq::empty());
    } else {
        let rest = es.skip(1);
        assert forall|i: int, j: int| 0 <= i < j < rest.len() implies (#[trigger] rest[i]).0 != (
        #[trigger] rest[j]).0 by {
            assert(rest[i] == es[i + 1] && rest[j] == es[j + 1]);
        }
        entry_of_last(rest, k);
        assert(before.skip(1) =~= rest.subrange(0, rest.len() - 1));
        assert(before[0] == es[0]);
        assert(es[0].0 != es[es.len() - 1].0);
    }
}

/// What a member of merged settings is: the project's, on top of that for all
/// projects.
pub proof fn a_merged_member(base: JsonView, overlay: JsonView, k: Seq<char>)
    requires
        base is Object,
        overlay is Object,
        forall|i: int, j: int|
            0 <= i < j < overlay->Object_0.len() ==> (#[trigger] overlay->Object_0[i]).0 != (
            #[trigger] overlay->Object_0[j]).0,
    ensures
        json::member(merged(base, overlay), k) == (match (
            json::member(base, k),
            json::member(overlay, k),
        ) {
            (Some(x), Some(y)) => Some(merged(x, y)),
            (x, None) => x,
            (None, Some(y)) => Some(y),
        }),
{
    merged_entry(base->Object_0, overlay->Object_0, k);
}

/// A project without settings leaves those for all projects as they are.
pub proof fn no_project_settings_change_nothing(global: Option<Seq<char>>)
    ensures
        merged(settings_of(global), settings_of(None)) == settings_of(global),
{
    assert(merged_members(settings_of(global)->Object_0, Seq::empty()) == settings_of(
        global,
    )->Object_0);
}

// ---------------------------------------------------------------------------
// Single settings
// ---------------------------------------------------------------------------

/// Whether the session starts without its greeting: `quietStartup`, else the
/// older `quietStart`, else not.
pub open spec fn quiet(v: JsonView) -> bool {
    match json::bool_member(v, "quietStartup"@) {
        Some(b) => b,
        None => match json::bool_member(v, "quietStart"@) {
            Some(b) => b,
            None => false,
        },
    }
}

/// Whether the session starts without its greeting.
pub fn quiet_startup(merged: &Json) -> (r: bool)
    ensures
        r == quiet(merged@),
{
    match merged.get_bool("quietStartup") {
        Some(b) => b,
        None => match merged.get_bool("quietStart") {
            Some(b) => b,
            None => false,
        },
    }
}

/// Whether skills are offered as commands: `enableSkillCommands`, else the
/// older member of `skills`, else yes.
pub open spec fn skill_commands(v: JsonView) -> bool {
    match json::bool_member(v, "enableSkillCommands"@) {
        Some(b) => b,
        None => match json::member(v, "skills"@) {
            Some(s) => match json::bool_member(s, "enableSkillCommands"@) {
                Some(b) => b,
                None => true,
            },
            None => true,
        },
    }
}

/// Whether skills are offered as commands.
pub fn enable_skill_commands(merged: &Json) -> (r: bool)
    ensures
        r == skill_commands(merged@),
{
    match merged.get_bool("enableSkillCommands") {
        Some(b) => b,
        None => match merged.get("skills") {
            Some(s) => match s.get_bool("enableSkillCommands") {
                Some(b) => b,
                None => true,
            },
            None => true,
        },
    }
}

/// The patterns of a list: its strings, trimmed, without the empty ones.
pub open spec fn patterns_in(items: Seq<JsonView>) -> Seq<Seq<char>>
    decreases items.len(),
{
    if items.len() == 0 {
        Seq::empty()
    } else {
        let before = patterns_in(items.drop_last());
        match json::str_of(items.last()) {
            Some(s) => if text::trimmed(s).len() > 0 {
                before.push(text::trimmed(s))
            } else {
                before
            },
            None => before,
        }
    }
}

/// The patterns of the enabled models; `None` when there is no pattern.
pub open spec fn model_patterns(v: JsonView) -> Option<Seq<Seq<char>>> {
    match json::array_member(v, "enabledModels"@) {
        Some(items) => if patterns_in(items).len() > 0 {
            Some(patterns_in(items))
        } else {
            None
        },
        None => None,
    }
}

fn read_patterns(items: &Vec<Json>) -> (r: Vec<String>)
    ensures
        text::texts(r@) == patterns_in(json::items_view(items@)),
{
    let ghost model = json::items_view(items@);
    let mut r: Vec<String> = Vec::new();
    let mut i: usize = 0;
    assert(model.take(0) =~= Seq::empty());
    assert(text::texts(r@) =~= Seq::empty());
    while i < items.len()
        invariant
            i <= items@.len(),
            model == json::items_view(items@),
            text::texts(r@) == patterns_in(model.take(i as int)),
        decreases items.len() - i,
    {
        proof {
            assert(model.take(i + 1).drop_last() =~= model.take(i as int));
            assert(model.take(i + 1).last() == items@[i as int]@);
        }
        if let Some(s) = items[i].as_str() {
            let t = text::trim(s);
            if t.unicode_len() > 0 {
                let ghost before = text::texts(r@);
                let owned = t.to_owned();
                r.push(owned);
                assert(text::texts(r@) =~= before.push(owned@));
            }
        }
        i += 1;
    }
    assert(model.take(i as int) =~= model);
    r
}

/// The patterns of the enabled models; `None` when there is no pattern.
pub fn enabled_models(merged: &Json) -> (r: Option<Vec<String>>)
    ensures
        crate::pi::fields::opt_texts(r) == model_patterns(merged@),
{
    match merged.get_array("enabledModels") {
        Some(items) => {
            let r = read_patterns(items);
            assert(text::texts(r@).len() == r@.len());
            if r.len() > 0 {
                Some(r)
            } else {
                None
            }
        },
        None => None,
    }
}

/// The patterns of the enabled models, given the texts of the two files.
pub fn get_enabled_models(global: Option<&str>, project: Option<&str>) -> (r: Option<Vec<String>>)
    ensures
        crate::pi::fields::opt_texts(r) == model_patterns(
            merged(settings_of(text::opt_str(global)), settings_of(text::opt_str(project))),
        ),
{
    enabled_models(&get_merged_settings(global, project))
}

/// Whether the session starts without its greeting, given the texts of the two
/// files.
pub fn get_quiet_startup(global: Option<&str>, project: Option<&str>) -> (r: bool)
    ensures
        r == quiet(
            merged(settings_of(text::opt_str(global)), settings_of(text::opt_str(project))),
        ),
{
    quiet_startup(&get_merged_settings(global, project))
}

/// Whether skills are offered as commands, given the texts of the two files.
pub fn get_enable_skill_commands(global: Option<&str>, project: Option<&str>) -> (r: bool)
    ensures
        r == skill_commands(
            merged(settings_of(text::opt_str(global)), settings_of(text::opt_str(project))),
        ),
{
    enable_skill_commands(&get_merged_settings(global, project))
}

// ---------------------------------------------------------------------------
// Enabled models
// ---------------------------------------------------------------------------

/// Whether a text is the name of a thinking level, or `thinking`.
pub open spec fn is_level(s: Seq<char>) -> bool {
    let l = text::ascii_lowered(s);
    l == "off"@ || l == "minimal"@ || l == "low"@ || l == "medium"@ || l == "high"@ || l
        == "xhigh"@ || l == "max"@ || l == "thinking"@
}

/// A model without the thinking level behind its last colon.
pub open spec fn without_level(s: Seq<char>) -> Seq<char> {
    match text::last_of(s, ':') {
        Some(i) => if is_level(s.skip(i + 1)) {
            s.take(i)
        } else {
            s
        },
        None => s,
    }
}

/// Whether a pattern stands for a model, when upper and lower case were made
/// the same.
pub open spec fn stands_for(full: Seq<char>, model_id: Seq<char>, pattern: Seq<char>) -> bool {
    glob::globs(pattern, full) || glob::globs(pattern, model_id)
}

/// A text in lower case. ASCII letters are made lower case by themselves, so
/// that their case cannot matter to what the other characters become.
pub open spec fn folded(s: Seq<char>) -> Seq<char> {
    text::lowercased(text::ascii_lowered(s))
}

/// Whether a pattern stands for a model: for its name, or for its provider, a
/// slash and its name. Upper and lower case are the same.
pub open spec fn matches_model(
    provider: Seq<char>,
    model_id: Seq<char>,
    pattern: Seq<char>,
) -> bool {
    let p = text::trimmed(provider);
    let m = without_level(text::trimmed(model_id));
    let g = without_level(text::trimmed(pattern));
    &&& p.len() > 0 && m.len() > 0 && g.len() > 0
    &&& stands_for(
        folded(p + "/"@ + m),
        folded(m),
        folded(g),
    )
}

/// Whether a pattern stands for a model, where all three texts are ASCII: upper
/// and lower case are the same for the letters `a` to `z`.
pub open spec fn matches_ascii(
    provider: Seq<char>,
    model_id: Seq<char>,
    pattern: Seq<char>,
) -> bool {
    let p = text::trimmed(provider);
    let m = without_level(text::trimmed(model_id));
    let g = without_level(text::trimmed(pattern));
    &&& p.len() > 0 && m.len() > 0 && g.len() > 0
    &&& stands_for(
        text::ascii_lowered(p + "/"@ + m),
        text::ascii_lowered(m),
        text::ascii_lowered(g),
    )
}

proof fn trimmed_is_within(s: Seq<char>)
    requires
        text::all_ascii(s),
    ensures
        text::all_ascii(text::trimmed(s)),
{
    start_is_within(s);
    end_is_within(text::trimmed_start(s));
}

proof fn start_is_within(s: Seq<char>)
    requires
        text::all_ascii(s),
    ensures
        text::all_ascii(text::trimmed_start(s)),
    decreases s.len(),
{
    if s.len() > 0 && text::is_white(s[0]) {
        start_is_within(s.skip(1));
    }
}

proof fn end_is_within(s: Seq<char>)
    requires
        text::all_ascii(s),
    ensures
        text::all_ascii(text::trimmed_end(s)),
    decreases s.len(),
{
    if s.len() > 0 && text::is_white(s.last()) {
        end_is_within(s.drop_last());
    }
}

fn names_level(s: &str) -> (r: bool)
    ensures
        r == is_level(s@),
{
    let l = text::to_ascii_lower(s);
    text::same(l.as_str(), "off") || text::same(l.as_str(), "minimal") || text::same(
        l.as_str(),
        "low",
    ) || text::same(l.as_str(), "medium") || text::same(l.as_str(), "high") || text::same(
        l.as_str(),
        "xhigh",
    ) || text::same(l.as_str(), "max") || text::same(l.as_str(), "thinking")
}

/// A model without the thinking level behind its last colon.
pub fn strip_thinking_suffix<'a>(value: &'a str) -> (r: &'a str)
    ensures
        r@ == without_level(value@),
{
    let n: usize = value.unicode_len();
    let cs = text::chars_of(value);
    match text::find_last(&cs, ':') {
        Some(i) => {
            assert(value@.subrange(i + 1, n as int) =~= value@.skip(i + 1));
            if names_level(value.substring_char(i + 1, n)) {
                assert(value@.subrange(0, i as int) =~= value@.take(i as int));
                value.substring_char(0, i)
            } else {
                value
            }
        },
        None => value,
    }
}

fn fold(s: &str) -> (r: String)
    ensures
        r@ == folded(s@),
        text::all_ascii(s@) ==> r@ == text::ascii_lowered(s@),
{
    proof {
        text::lowered_stays(s@);
    }
    text::to_ascii_lower(s).as_str().to_lowercase()
}

/// Whether a pattern stands for a model, when upper and lower case were made
/// the same.
pub fn pattern_stands_for(full: &str, model_id: &str, pattern: &str) -> (r: bool)
    ensures
        r == stands_for(full@, model_id@, pattern@),
{
    let p = text::chars_of(pattern);
    glob::glob_matches_chars(&text::chars_of(full), &p) || glob::glob_matches_chars(
        &text::chars_of(model_id),
        &p,
    )
}

/// Whether a pattern stands for a model.
pub fn model_matches_enabled_pattern(provider: &str, model_id: &str, pattern: &str) -> (r: bool)
    ensures
        r == matches_model(provider@, model_id@, pattern@),
        text::all_ascii(provider@) && text::all_ascii(model_id@) && text::all_ascii(pattern@) ==> r
            == matches_ascii(provider@, model_id@, pattern@),
{
    let p = text::trim(provider);
    let m = strip_thinking_suffix(text::trim(model_id));
    let g = strip_thinking_suffix(text::trim(pattern));
    proof {
        if text::all_ascii(provider@) && text::all_ascii(model_id@) && text::all_ascii(pattern@) {
            trimmed_is_within(provider@);
            trimmed_is_within(model_id@);
            trimmed_is_within(pattern@);
            text::last_of_is_last(text::trimmed(model_id@), ':');
            text::last_of_is_last(text::trimmed(pattern@), ':');
            reveal_strlit("/");
            assert(text::all_ascii(p@ + "/"@ + m@));
        }
    }
    if p.unicode_len() == 0 || m.unicode_len() == 0 || g.unicode_len() == 0 {
        return false;
    }
    let full = text::cat3(p, "/", m);
    pattern_stands_for(
        fold(full.as_str()).as_str(),
        fold(m).as_str(),
        fold(g).as_str(),
    )
}

/// Whether a model is enabled: always when there are no patterns, else when
/// one of them stands for it.
pub open spec fn enabled(
    provider: Seq<char>,
    model_id: Seq<char>,
    patterns: Option<Seq<Seq<char>>>,
) -> bool {
    match patterns {
        Some(ps) => ps.len() == 0 || exists|i: int|
            0 <= i < ps.len() && matches_model(provider, model_id, #[trigger] ps[i]),
        None => true,
    }
}

/// Whether a model is enabled.
pub fn is_model_enabled(provider: &str, model_id: &str, patterns: Option<&Vec<String>>) -> (r: bool)
    ensures
        r == enabled(
            provider@,
            model_id@,
            match patterns {
                Some(ps) => Some(text::texts(ps@)),
                None => None,
            },
        ),
{
    match patterns {
        Some(ps) => {
            if ps.len() == 0 {
                return true;
            }
            let mut i: usize = 0;
            while i < ps.len()
                invariant
                    i <= ps@.len(),
                    patterns == Some(ps),
                    forall|k: int|
                        0 <= k < i ==> !matches_model(
                            provider@,
                            model_id@,
                            #[trigger] text::texts(ps@)[k],
                        ),
                decreases ps.len() - i,
            {
                assert(text::texts(ps@)[i as int] == ps@[i as int]@);
                if model_matches_enabled_pattern(provider, model_id, ps[i].as_str()) {
                    return true;
                }
                i += 1;
            }
            false
        },
        None => true,
    }
}

// ---------------------------------------------------------------------------
// Laws
// ---------------------------------------------------------------------------

/// The name of a level has no colon and is not blank.
proof fn levels_are_words(s: Seq<char>)
    requires
        is_level(s),
    ensures
        s.len() > 0,
        !text::is_white(s.last()),
        forall|i: int| 0 <= i < s.len() ==> s[i] != ':',
{
    let l = text::ascii_lowered(s);
    reveal_strlit("off");
    reveal_strlit("minimal");
    reveal_strlit("low");
    reveal_strlit("medium");
    reveal_strlit("high");
    reveal_strlit("xhigh");
    reveal_strlit("max");
    reveal_strlit("thinking");
    assert(l.len() == s.len());
    assert forall|i: int| 0 <= i < s.len() implies 'a' <= #[trigger] l[i] <= 'z' by {}
    assert forall|i: int| 0 <= i < s.len() implies s[i] != ':' && !text::is_white(s[i]) by {
        assert('a' <= l[i] <= 'z');
    }
}

/// The level behind a model is taken off again.
proof fn level_comes_off(m: Seq<char>, s: Seq<char>)
    requires
        is_level(s),
        m == text::trimmed(m),
    ensures
        without_level(text::trimmed(m + ":"@ + s)) == m,
{
    levels_are_words(s);
    reveal_strlit(":");
    let t = m + ":"@ + s;
    text::trimmed_begins(m);
    assert(t[0] == if m.len() > 0 {
        m[0]
    } else {
        ':'
    });
    assert(t.last() == s.last());
    assert(text::trimmed(t) == t);
    text::last_of_at(t, ':', m.len() as int);
    assert(t.skip(m.len() as int + 1) =~= s);
    assert(t.take(m.len() as int) =~= m);
}

/// A thinking level behind the model or behind the pattern is not part of what
/// is matched.
pub proof fn levels_are_ignored(p: Seq<char>, m: Seq<char>, pattern: Seq<char>, s: Seq<char>)
    requires
        is_level(s),
        m == text::trimmed(m),
        pattern == text::trimmed(pattern),
        without_level(m) == m,
        without_level(pattern) == pattern,
    ensures
        matches_model(p, m + ":"@ + s, pattern) == matches_model(p, m, pattern),
        matches_model(p, m, pattern + ":"@ + s) == matches_model(p, m, pattern),
{
    level_comes_off(m, s);
    level_comes_off(pattern, s);
}

proof fn raised_level(s: Seq<char>)
    ensures
        without_level(text::ascii_raised(s)) == text::ascii_raised(without_level(s)),
{
    let r = text::ascii_raised(s);
    text::last_of_is_last(s, ':');
    match text::last_of(s, ':') {
        Some(i) => {
            assert(r[i] == ':');
            assert forall|j: int| i < j < r.len() implies r[j] != ':' by {
                assert(r[j] == text::raised(s[j]));
            }
            text::last_of_at(r, ':', i);
            assert(r.skip(i + 1) =~= text::ascii_raised(s.skip(i + 1)));
            text::raised_is_lowered(s.skip(i + 1));
            assert(r.take(i) =~= text::ascii_raised(s.take(i)));
        },
        None => {
            text::last_of_is_last(r, ':');
            assert forall|j: int| 0 <= j < r.len() implies r[j] != ':' by {
                assert(r[j] == text::raised(s[j]));
            }
        },
    }
}

/// Matching is the same when all three texts are put in ASCII upper case.
pub proof fn case_is_ignored(p: Seq<char>, m: Seq<char>, pattern: Seq<char>)
    ensures
        matches_model(text::ascii_raised(p), text::ascii_raised(m), text::ascii_raised(pattern))
            == matches_model(p, m, pattern),
{
    text::raised_is_trimmed(p);
    text::raised_is_trimmed(m);
    text::raised_is_trimmed(pattern);
    raised_level(text::trimmed(m));
    raised_level(text::trimmed(pattern));
    let tp = text::trimmed(p);
    let tm = without_level(text::trimmed(m));
    let tg = without_level(text::trimmed(pattern));
    reveal_strlit("/");
    assert(text::ascii_raised(tp) + "/"@ + text::ascii_raised(tm) =~= text::ascii_raised(
        tp + "/"@ + tm,
    ));
    text::raised_is_lowered(tp + "/"@ + tm);
    text::raised_is_lowered(tm);
    text::raised_is_lowered(tg);
}

// ---------------------------------------------------------------------------
// What the settings say
// ---------------------------------------------------------------------------

/// What the project sets counts: a value of the project that is no record, or
/// that replaces one that is none, is taken as it is.
pub proof fn the_project_counts(
    base: JsonView,
    overlay: JsonView,
    k: Seq<char>,
    theirs: JsonView,
)
    requires
        base is Object,
        overlay is Object,
        forall|i: int, j: int|
            0 <= i < j < overlay->Object_0.len() ==> (#[trigger] overlay->Object_0[i]).0 != (
            #[trigger] overlay->Object_0[j]).0,
        json::member(overlay, k) == Some(theirs),
        !(theirs is Object) || !(json::member(base, k) matches Some(JsonView::Object(_))),
    ensures
        json::member(merged(base, overlay), k) == Some(theirs),
{
    a_merged_member(base, overlay, k);
}

/// Settings of which the project says nothing are the user's.
pub proof fn the_users_settings_stay(base: JsonView, overlay: JsonView, k: Seq<char>)
    requires
        base is Object,
        overlay is Object,
        forall|i: int, j: int|
            0 <= i < j < overlay->Object_0.len() ==> (#[trigger] overlay->Object_0[i]).0 != (
            #[trigger] overlay->Object_0[j]).0,
        json::member(overlay, k) is None,
    ensures
        json::member(merged(base, overlay), k) == json::member(base, k),
{
    a_merged_member(base, overlay, k);
}

/// Settings that are no record are as if there were none.
pub proof fn only_records_are_settings(raw: Seq<char>, v: JsonView)
    requires
        json::json_in(raw) == Some(v),
    ensures
        v is Object ==> settings_of(Some(raw)) == v,
        !(v is Object) ==> settings_of(Some(raw)) == JsonView::Object(Seq::empty()),
        settings_of(None) == JsonView::Object(Seq::empty()),
{
}

/// The greeting is left out exactly when the settings say so, under the new
/// name or, where that says nothing, under the old one.
pub proof fn quiet_is_chosen(v: JsonView, b: bool)
    ensures
        json::member(v, "quietStartup"@) == Some(JsonView::Bool(b)) ==> quiet(v) == b,
        json::member(v, "quietStartup"@) is None && json::member(v, "quietStart"@) == Some(
            JsonView::Bool(b),
        ) ==> quiet(v) == b,
        json::member(v, "quietStartup"@) is None && json::member(v, "quietStart"@) is None
            ==> !quiet(v),
{
}

/// Skills are offered as commands unless the settings say otherwise, at the top
/// or, where that says nothing, under the skills.
pub proof fn skills_are_offered_by_default(v: JsonView, inner: JsonView, b: bool)
    ensures
        json::member(v, "enableSkillCommands"@) == Some(JsonView::Bool(b)) ==> skill_commands(v)
            == b,
        json::member(v, "enableSkillCommands"@) is None && json::member(v, "skills"@) == Some(
            inner,
        ) && json::member(inner, "enableSkillCommands"@) == Some(JsonView::Bool(b))
            ==> skill_commands(v) == b,
        json::member(v, "enableSkillCommands"@) is None && json::member(v, "skills"@) is None
            ==> skill_commands(v),
{
}

/// The patterns of the enabled models are those of the settings, without the
/// blanks round them, all of them and in order.
pub proof fn patterns_are_read_in_order(items: Seq<JsonView>, patterns: Seq<Seq<char>>)
    requires
        items.len() == patterns.len(),
        forall|k: int|
            0 <= k < items.len() ==> #[trigger] items[k] == JsonView::Str(patterns[k])
                && text::trimmed(patterns[k]).len() > 0,
    ensures
        patterns_in(items).len() == patterns.len(),
        forall|k: int|
            0 <= k < patterns.len() ==> #[trigger] patterns_in(items)[k] == text::trimmed(
                patterns[k],
            ),
    decreases items.len(),
{
    if items.len() > 0 {
        let front = items.drop_last();
        assert forall|k: int| 0 <= k < front.len() implies #[trigger] front[k] == JsonView::Str(
            patterns.drop_last()[k],
        ) && text::trimmed(patterns.drop_last()[k]).len() > 0 by {
            assert(front[k] == items[k]);
        }
        patterns_are_read_in_order(front, patterns.drop_last());
        assert(items[items.len() - 1] == JsonView::Str(patterns.last()));
        let all = patterns_in(items);
        assert forall|k: int| 0 <= k < patterns.len() implies #[trigger] all[k] == text::trimmed(
            patterns[k],
        ) by {
            if k < front.len() {
                assert(all[k] == patterns_in(front)[k]);
                assert(patterns_in(front)[k] == text::trimmed(patterns.drop_last()[k]));
            }
        }
    }
}

/// Without patterns every model is enabled; with some, a model is enabled when
/// one of them stands for it, and not when none does.
pub proof fn models_are_enabled_by_pattern(
    provider: Seq<char>,
    model_id: Seq<char>,
    patterns: Seq<Seq<char>>,
    k: int,
)
    ensures
        enabled(provider, model_id, None),
        patterns.len() == 0 ==> enabled(provider, model_id, Some(patterns)),
        0 <= k < patterns.len() && matches_model(provider, model_id, patterns[k]) ==> enabled(
            provider,
            model_id,
            Some(patterns),
        ),
        patterns.len() > 0 && (forall|i: int|
            0 <= i < patterns.len() ==> !matches_model(provider, model_id, #[trigger] patterns[i]))
            ==> !enabled(provider, model_id, Some(patterns)),
{
}

/// A pattern without wildcards stands for the model whose name it is, with or
/// without the provider before it, and for no other.
pub proof fn a_plain_pattern_stands_for_its_model(
    full: Seq<char>,
    model_id: Seq<char>,
    pattern: Seq<char>,
)
    requires
        forall|i: int|
            0 <= i < pattern.len() ==> pattern[i] != '*' && pattern[i] != '?' && pattern[i] != '['
                && pattern[i] != '\\',
    ensures
        stands_for(full, model_id, pattern) <==> pattern == full || pattern == model_id,
{
    glob::a_plain_pattern_matches_itself(pattern, full);
    glob::a_plain_pattern_matches_itself(pattern, model_id);
}

/// pi's directory is the chosen one, taken from the working directory unless it
/// is absolute; else it is `.pi/agent` at home.
pub proof fn the_chosen_agent_directory_counts(
    chosen: Seq<char>,
    cwd: Seq<char>,
    home: Seq<char>,
    windows: bool,
)
    ensures
        chosen.len() > 0 ==> agent_dir_of(Some(chosen), Some(cwd), Some(home), windows)
            == path::resolved(cwd, chosen, windows),
        chosen.len() > 0 && path::absolute(chosen, windows) ==> agent_dir_of(
            Some(chosen),
            Some(cwd),
            Some(home),
            windows,
        ) == chosen,
        chosen.len() == 0 ==> agent_dir_of(Some(chosen), Some(cwd), Some(home), windows)
            == agent_dir_of(None, Some(cwd), Some(home), windows),
        agent_dir_of(None, Some(cwd), Some(home), windows) == path::resolved(
            path::resolved(home, ".pi"@, windows),
            "agent"@,
            windows,
        ),
{
    if path::absolute(chosen, windows) {
        path::absolute_stays(cwd, chosen, windows);
    }
}

} // verus!
