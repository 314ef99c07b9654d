//! Slash commands: those of prompt files, those of pi, and the built-in ones.

use crate::json;
use crate::json::{Json, JsonView};
use crate::path;
use crate::table;
use crate::table::Table;
use crate::text;
use crate::translate::bash;
use vstd::prelude::*;
use vstd::string::*;

verus! {

// ---------------------------------------------------------------------------
// Commands as they are offered
// ---------------------------------------------------------------------------

/// What a command takes behind its name.
#[derive(Debug)]
pub struct UnstructuredCommandInput {
    /// What to write there.
    pub hint: String,
}

impl UnstructuredCommandInput {
    /// An input with a hint.
    pub fn new(hint: &str) -> (r: UnstructuredCommandInput)
        ensures
            r.hint@ == hint@,
    {
        UnstructuredCommandInput { hint: hint.to_owned() }
    }
}

/// How a command takes its input.
#[derive(Debug)]
pub enum AvailableCommandInput {
    /// All that stands behind the name.
    Unstructured(UnstructuredCommandInput),
}

/// A command that is offered to the client.
#[derive(Debug)]
pub struct AvailableCommand {
    /// Its name, without the slash.
    pub name: String,
    /// What it does.
    pub description: String,
    /// Its input.
    pub input: Option<AvailableCommandInput>,
}

/// The model of an [`AvailableCommand`].
pub struct CommandView {
    pub name: Seq<char>,
    pub description: Seq<char>,
    pub hint: Option<Seq<char>>,
}

impl View for AvailableCommand {
    type V = CommandView;

    open spec fn view(&self) -> CommandView {
        CommandView {
            name: self.name@,
            description: self.description@,
            hint: match self.input {
                Some(AvailableCommandInput::Unstructured(i)) => Some(i.hint@),
                None => None,
            },
        }
    }
}

impl Clone for AvailableCommand {
    fn clone(&self) -> (r: AvailableCommand)
        ensures
            r@ == self@,
    {
        AvailableCommand {
            name: self.name.clone(),
            description: self.description.clone(),
            input: match &self.input {
                Some(AvailableCommandInput::Unstructured(i)) => Some(
                    AvailableCommandInput::Unstructured(
                        UnstructuredCommandInput { hint: i.hint.clone() },
                    ),
                ),
                None => None,
            },
        }
    }
}

/// A command without input.
pub open spec fn bare(name: Seq<char>, description: Seq<char>) -> CommandView {
    CommandView { name, description, hint: None }
}

/// A command with input.
pub open spec fn hinted(name: Seq<char>, description: Seq<char>, hint: Seq<char>) -> CommandView {
    CommandView { name, description, hint: Some(hint) }
}

impl AvailableCommand {
    /// A command without input.
    pub fn new(name: &str, description: &str) -> (r: AvailableCommand)
        ensures
            r@ == bare(name@, description@),
    {
        AvailableCommand { name: name.to_owned(), description: description.to_owned(), input: None }
    }

    /// The command with an input.
    pub fn input(self, input: AvailableCommandInput) -> (r: AvailableCommand)
        ensures
            r@ == (CommandView {
                hint: match input {
                    AvailableCommandInput::Unstructured(i) => Some(i.hint@),
                },
                ..self@
            }),
    {
        AvailableCommand { name: self.name, description: self.description, input: Some(input) }
    }
}

fn command_with_hint(name: &str, description: &str, hint: &str) -> (r: AvailableCommand)
    ensures
        r@ == hinted(name@, description@, hint@),
{
    AvailableCommand::new(name, description).input(
        AvailableCommandInput::Unstructured(UnstructuredCommandInput::new(hint)),
    )
}

/// The models of a list of commands.
pub open spec fn command_views(v: Seq<AvailableCommand>) -> Seq<CommandView> {
    v.map_values(|c: AvailableCommand| c@)
}

/// Whether a list has a command with a name.
pub open spec fn offers(cs: Seq<CommandView>, name: Seq<char>) -> bool {
    exists|i: int| 0 <= i < cs.len() && (#[trigger] cs[i]).name == name
}

/// A list with the first command of every name, in order.
pub open spec fn unique(cs: Seq<CommandView>) -> Seq<CommandView>
    decreases cs.len(),
{
    if cs.len() == 0 {
        Seq::empty()
    } else {
        let before = unique(cs.drop_last());
        if offers(before, cs.last().name) {
            before
        } else {
            before.push(cs.last())
        }
    }
}

fn is_offered(cs: &Vec<AvailableCommand>, name: &str) -> (r: bool)
    ensures
        r == offers(command_views(cs@), name@),
{
    let mut i: usize = 0;
    while i < cs.len()
        invariant
            i <= cs@.len(),
            forall|k: int| 0 <= k < i ==> (#[trigger] cs@[k]).name@ != name@,
        decreases cs.len() - i,
    {
        if text::same(cs[i].name.as_str(), name) {
            assert(command_views(cs@)[i as int].name == name@);
            return true;
        }
        i += 1;
    }
    assert forall|k: int| 0 <= k < cs@.len() implies (#[trigger] command_views(cs@)[k]).name
        != name@ by {
        assert(cs@[k].name@ != name@);
    }
    false
}

fn add_unique(out: &mut Vec<AvailableCommand>, c: &AvailableCommand, seen: Ghost<Seq<CommandView>>)
    requires
        command_views(old(out)@) == unique(seen@),
    ensures
        command_views(final(out)@) == unique(seen@.push(c@)),
{
    assert(seen@.push(c@).drop_last() =~= seen@);
    if !is_offered(out, c.name.as_str()) {
        let c = c.clone();
        let ghost before = command_views(out@);
        out.push(c);
        assert(command_views(out@) =~= before.push(c@));
    }
}

/// Two lists as one, with the first command of every name.
pub fn merge_commands(a: &Vec<AvailableCommand>, b: &Vec<AvailableCommand>) -> (r: Vec<
    AvailableCommand,
>)
    ensures
        command_views(r@) == unique(command_views(a@) + command_views(b@)),
{
    let ghost x = command_views(a@);
    let ghost y = command_views(b@);
    let mut r: Vec<AvailableCommand> = Vec::new();
    let mut i: usize = 0;
    assert(command_views(r@) =~= Seq::empty());
    assert(x.take(0) =~= Seq::empty());
    while i < a.len()
        invariant
            i <= a@.len(),
            x == command_views(a@),
            command_views(r@) == unique(x.take(i as int)),
        decreases a.len() - i,
    {
        assert(x.take(i + 1) =~= x.take(i as int).push(a@[i as int]@));
        add_unique(&mut r, &a[i], Ghost(x.take(i as int)));
        i += 1;
    }
    i = 0;
    assert(x.take(a@.len() as int) =~= x + y.take(0));
    while i < b.len()
        invariant
            i <= b@.len(),
            y == command_views(b@),
            command_views(r@) == unique(x + y.take(i as int)),
        decreases b.len() - i,
    {
        assert(x + y.take(i + 1) =~= (x + y.take(i as int)).push(b@[i as int]@));
        add_unique(&mut r, &b[i], Ghost(x + y.take(i as int)));
        i += 1;
    }
    assert(y.take(i as int) =~= y);
    r
}

/// A list has every name once, and every name that was in the list before.
pub proof fn unique_keeps_every_name_once(cs: Seq<CommandView>)
    ensures
        forall|i: int, j: int|
            0 <= i < j < unique(cs).len() ==> (#[trigger] unique(cs)[i]).name != (
            #[trigger] unique(cs)[j]).name,
        forall|name: Seq<char>| offers(unique(cs), name) <==> #[trigger] offers(cs, name),
    decreases cs.len(),
{
    if cs.len() > 0 {
        let before = cs.drop_last();
        unique_keeps_every_name_once(before);
        let u = unique(before);
        let r = unique(cs);
        assert forall|i: int, j: int| 0 <= i < j < r.len() implies (#[trigger] r[i]).name != (
        #[trigger] r[j]).name by {
            assert(r[i] == u[i]);
            if j < u.len() {
                assert(r[j] == u[j]);
            }
        }
        assert forall|name: Seq<char>| offers(r, name) <==> #[trigger] offers(cs, name) by {
            if offers(r, name) {
                let i = choose|i: int| 0 <= i < r.len() && (#[trigger] r[i]).name == name;
                if i < u.len() {
                    assert(u[i].name == name);
                    assert(offers(before, name));
                    let k = choose|k: int| 0 <= k < before.len() && (#[trigger] before[k]).name
                        == name;
                    assert(cs[k].name == name);
                } else {
                    assert(cs[cs.len() - 1].name == name);
                }
            }
            if offers(cs, name) {
                let k = choose|k: int| 0 <= k < cs.len() && (#[trigger] cs[k]).name == name;
                if k < before.len() {
                    assert(before[k].name == name);
                    assert(offers(before, name));
                    let i = choose|i: int| 0 <= i < u.len() && (#[trigger] u[i]).name == name;
                    assert(r[i].name == name);
                } else if offers(u, name) {
                    let i = choose|i: int| 0 <= i < u.len() && (#[trigger] u[i]).name == name;
                    assert(r[i].name == name);
                } else {
                    assert(r[r.len() - 1].name == name);
                }
            }
        }
    }
}

/// The built-in commands.
pub open spec fn builtins() -> Seq<CommandView> {
    seq![
        hinted(
            "compact"@,
            "Manually compact the session context"@,
            "optional custom instructions"@,
        ),
        hinted("autocompact"@, "Toggle automatic context compaction"@, "on|off|toggle"@),
        bare("export"@, "Export session to an HTML file in the session cwd"@),
        bare("session"@, "Show session stats (messages, tokens, cost, session file)"@),
        hinted("name"@, "Set session display name"@, "<name>"@),
        hinted(
            "steering"@,
            "Get/set pi steering message delivery mode (how queued steering messages are delivered)"@,
            "(no args to show) all | one-at-a-time"@,
        ),
        hinted(
            "follow-up"@,
            "Get/set pi follow-up message delivery mode (how queued follow-up messages are delivered)"@,
            "(no args to show) all | one-at-a-time"@,
        ),
        bare("changelog"@, "Show pi changelog"@),
    ]
}

/// The built-in commands.
pub fn builtin_available_commands() -> (r: Vec<AvailableCommand>)
    ensures
        command_views(r@) == builtins(),
{
    let mut r: Vec<AvailableCommand> = Vec::new();
    r.push(
        command_with_hint(
            "compact",
            "Manually compact the session context",
            "optional custom instructions",
        ),
    );
    r.push(
        command_with_hint("autocompact", "Toggle automatic context compaction", "on|off|toggle"),
    );
    r.push(AvailableCommand::new("export", "Export session to an HTML file in the session cwd"));
    r.push(
        AvailableCommand::new(
            "session",
            "Show session stats (messages, tokens, cost, session file)",
        ),
    );
    r.push(command_with_hint("name", "Set session display name", "<name>"));
    r.push(
        command_with_hint(
            "steering",
            "Get/set pi steering message delivery mode (how queued steering messages are delivered)",
            "(no args to show) all | one-at-a-time",
        ),
    );
    r.push(
        command_with_hint(
            "follow-up",
            "Get/set pi follow-up message delivery mode (how queued follow-up messages are delivered)",
            "(no args to show) all | one-at-a-time",
        ),
    );
    r.push(AvailableCommand::new("changelog", "Show pi changelog"));
    assert(command_views(r@) =~= builtins());
    r
}

// ---------------------------------------------------------------------------
// Commands of pi
// ---------------------------------------------------------------------------

/// The description of a command that has none: where it comes from.
pub open spec fn fallback_description(source: Seq<char>, location: Seq<char>) -> Seq<char> {
    if source.len() == 0 && location.len() == 0 {
        "(command)"@
    } else if location.len() == 0 {
        "("@ + source + ")"@
    } else if source.len() == 0 {
        "("@ + location + ")"@
    } else {
        "("@ + source + ":"@ + location + ")"@
    }
}

/// The description of a command that has none.
pub fn describe_fallback(source: &str, location: &str) -> (r: String)
    ensures
        r@ == fallback_description(source@, location@),
{
    let s = source.unicode_len() > 0;
    let l = location.unicode_len() > 0;
    if !s && !l {
        "(command)".to_owned()
    } else if !l {
        text::cat3("(", source, ")")
    } else if !s {
        text::cat3("(", location, ")")
    } else {
        text::cat5("(", source, ":", location, ")")
    }
}

/// A text member, or nothing.
pub open spec fn member_or_empty(v: JsonView, name: Seq<char>) -> Seq<char> {
    match json::str_member(v, name) {
        Some(s) => s,
        None => Seq::empty(),
    }
}

fn text_or_empty<'a>(v: &'a Json, name: &str) -> (r: &'a str)
    ensures
        r@ == member_or_empty(v@, name@),
{
    match v.get_str(name) {
        Some(s) => s,
        None => {
            proof {
                reveal_strlit("");
                assert(""@ =~= Seq::empty());
            }
            ""
        },
    }
}

/// The command that an entry of pi's list is, when it is offered.
pub open spec fn pi_command(v: JsonView, skills: bool, extensions: bool) -> Option<CommandView> {
    let name = text::trimmed(member_or_empty(v, "name"@));
    let source = member_or_empty(v, "source"@);
    let description = text::trimmed(member_or_empty(v, "description"@));
    if name.len() == 0 || !extensions && source == "extension"@ || !skills && text::begins(
        name,
        "skill:"@,
    ) {
        None
    } else {
        Some(
            bare(
                name,
                if description.len() == 0 {
                    fallback_description(source, member_or_empty(v, "location"@))
                } else {
                    description
                },
            ),
        )
    }
}

/// The commands of the entries of pi's list.
pub open spec fn pi_commands(items: Seq<JsonView>, skills: bool, extensions: bool) -> Seq<
    CommandView,
>
    decreases items.len(),
{
    if items.len() == 0 {
        Seq::empty()
    } else {
        let before = pi_commands(items.drop_last(), skills, extensions);
        match pi_command(items.last(), skills, extensions) {
            Some(c) => before.push(c),
            None => before,
        }
    }
}

/// The entries of pi's list of commands: those of `commands`, at the top or
/// below `data`.
pub open spec fn listed(data: JsonView) -> Seq<JsonView> {
    match bash::either(
        json::array_member(data, "commands"@),
        match json::member(data, "data"@) {
            Some(d) => json::array_member(d, "commands"@),
            None => None,
        },
    ) {
        Some(items) => items,
        None => Seq::empty(),
    }
}

fn read_pi_command(v: &Json, skills: bool, extensions: bool) -> (r: Option<AvailableCommand>)
    ensures
        match r {
            Some(c) => pi_command(v@, skills, extensions) == Some(c@),
            None => pi_command(v@, skills, extensions) is None,
        },
{
    let name = text::trim(text_or_empty(v, "name"));
    let source = text_or_empty(v, "source");
    if name.unicode_len() == 0 || !extensions && text::same(source, "extension") || !skills
        && text::starts_with(name, "skill:") {
        return None;
    }
    let description = text::trim(text_or_empty(v, "description"));
    if description.unicode_len() == 0 {
        let d = describe_fallback(source, text_or_empty(v, "location"));
        Some(AvailableCommand::new(name, d.as_str()))
    } else {
        Some(AvailableCommand::new(name, description))
    }
}

fn listed_entries<'a>(data: &'a Json) -> (r: Option<&'a Vec<Json>>)
    ensures
        match r {
            Some(items) => json::items_view(items@) == listed(data@),
            None => listed(data@).len() == 0,
        },
{
    match data.get_array("commands") {
        Some(items) => Some(items),
        None => match data.get("data") {
            Some(d) => d.get_array("commands"),
            None => None,
        },
    }
}

/// The commands of pi's list that are offered.
pub fn to_available_commands_from_pi_get_commands(
    data: &Json,
    enable_skill_commands: bool,
    include_extension_commands: bool,
) -> (r: Vec<AvailableCommand>)
    ensures
        command_views(r@) == pi_commands(
            listed(data@),
            enable_skill_commands,
            include_extension_commands,
        ),
{
    let mut r: Vec<AvailableCommand> = Vec::new();
    assert(command_views(r@) =~= Seq::empty());
    match listed_entries(data) {
        Some(items) => {
            let ghost model = json::items_view(items@);
            let mut i: usize = 0;
            assert(model.take(0) =~= Seq::empty());
            while i < items.len()
                invariant
                    i <= items@.len(),
                    model == json::items_view(items@),
                    command_views(r@) == pi_commands(
                        model.take(i as int),
                        enable_skill_commands,
                        include_extension_commands,
                    ),
                decreases items.len() - i,
            {
                proof {
                    assert(model.take(i + 1).drop_last() =~= model.take(i as int));
                    assert(model.take(i + 1).last() == items@[i as int]@);
                }
                if let Some(c) = read_pi_command(
                    &items[i],
                    enable_skill_commands,
                    include_extension_commands,
                ) {
                    let ghost before = command_views(r@);
                    r.push(c);
                    assert(command_views(r@) =~= before.push(c@));
                }
                i += 1;
            }
            assert(model.take(i as int) =~= model);
        },
        None => {},
    }
    r
}

/// The names of the commands that pi's extensions carry out.
pub open spec fn extension_names(items: Seq<JsonView>) -> Seq<Seq<char>>
    decreases items.len(),
{
    if items.len() == 0 {
        Seq::empty()
    } else {
        let before = extension_names(items.drop_last());
        let name = text::trimmed(member_or_empty(items.last(), "name"@));
        if name.len() > 0 && member_or_empty(items.last(), "source"@) == "extension"@ {
            before.push(name)
        } else {
            before
        }
    }
}

/// The names of the commands that pi's extensions carry out.
pub fn extension_command_names(data: &Json) -> (r: Vec<String>)
    ensures
        text::texts(r@) == extension_names(listed(data@)),
{
    let mut r: Vec<String> = Vec::new();
    assert(text::texts(r@) =~= Seq::empty());
    match listed_entries(data) {
        Some(items) => {
            let ghost model = json::items_view(items@);
            let mut i: usize = 0;
            assert(model.take(0) =~= Seq::empty());
            while i < items.len()
                invariant
                    i <= items@.len(),
                    model == json::items_view(items@),
                    text::texts(r@) == extension_names(model.take(i as int)),
                decreases items.len() - i,
            {
                proof {
                    assert(model.take(i + 1).drop_last() =~= model.take(i as int));
                    assert(model.take(i + 1).last() == items@[i as int]@);
                }
                let name = text::trim(text_or_empty(&items[i], "name"));
                if name.unicode_len() > 0 && text::same(
                    text_or_empty(&items[i], "source"),
                    "extension",
                ) {
                    let ghost before = text::texts(r@);
                    let owned = name.to_owned();
                    r.push(owned);
                    assert(text::texts(r@) =~= before.push(owned@));
                }
                i += 1;
            }
            assert(model.take(i as int) =~= model);
        },
        None => {},
    }
    r
}

/// The name and the arguments of a slash command: what stands before and
/// behind the first blank.
pub open spec fn slash_parts(s: Seq<char>) -> Option<(Seq<char>, Seq<char>)> {
    if !text::begins(s, "/"@) {
        None
    } else {
        match text::cut(s.skip(1), ' ') {
            Some((name, args)) => Some((name, args)),
            None => Some((s.skip(1), Seq::empty())),
        }
    }
}

fn read_slash_parts<'a>(s: &'a str) -> (r: Option<(&'a str, &'a str)>)
    ensures
        match r {
            Some((name, args)) => slash_parts(s@) == Some((name@, args@)),
            None => slash_parts(s@) is None,
        },
{
    proof {
        reveal_strlit("/");
    }
    match text::strip_prefix(s, "/") {
        Some(rest) => match text::split_once(rest, ' ') {
            Some((name, args)) => Some((name, args)),
            None => {
                proof {
                    reveal_strlit("");
                    assert(""@ =~= Seq::empty());
                }
                Some((rest, ""))
            },
        },
        None => None,
    }
}

/// The name of the slash command that a prompt is.
pub fn slash_command_name<'a>(s: &'a str) -> (r: Option<&'a str>)
    ensures
        text::opt_str(r) == (match slash_parts(s@) {
            Some((name, _)) => Some(name),
            None => None,
        }),
{
    match read_slash_parts(s) {
        Some((name, _)) => Some(name),
        None => None,
    }
}

/// Whether a prompt is a command that pi's extensions carry out, given their
/// names; not when those could not be had.
pub fn is_extension_command(message: &str, names: Option<&Vec<String>>) -> (r: bool)
    ensures
        r == (match (slash_parts(message@), names) {
            (Some((name, _)), Some(known)) => text::texts(known@).contains(name),
            _ => false,
        }),
{
    match (slash_command_name(message), names) {
        (Some(name), Some(known)) => text::lists(known, name),
        _ => false,
    }
}

// ---------------------------------------------------------------------------
// Prompt files
// ---------------------------------------------------------------------------

/// A command of a prompt file.
#[derive(Debug)]
pub struct FileSlashCommand {
    /// Its name, without the slash.
    pub name: String,
    /// What it does.
    pub description: String,
    /// The prompt that it stands for.
    pub content: String,
    /// Where it comes from.
    pub source: String,
}

/// The model of a [`FileSlashCommand`].
pub struct FileCommandView {
    pub name: Seq<char>,
    pub description: Seq<char>,
    pub content: Seq<char>,
    pub source: Seq<char>,
}

impl View for FileSlashCommand {
    type V = FileCommandView;

    open spec fn view(&self) -> FileCommandView {
        FileCommandView {
            name: self.name@,
            description: self.description@,
            content: self.content@,
            source: self.source@,
        }
    }
}

/// The models of a list of commands.
pub open spec fn file_views(v: Seq<FileSlashCommand>) -> Seq<FileCommandView> {
    v.map_values(|c: FileSlashCommand| c@)
}

/// Whose prompt files they are.
#[derive(Debug, Clone, Copy, PartialEq, Eq, Structural)]
pub enum CommandSource {
    /// The user's.
    User,
    /// The project's.
    Project,
}

/// How it is told where a command comes from.
pub open spec fn source_label(source: CommandSource, subdir: Seq<char>) -> Seq<char> {
    match source {
        CommandSource::User => if subdir.len() == 0 {
            "(user)"@
        } else {
            "(user:"@ + subdir + ")"@
        },
        CommandSource::Project => if subdir.len() == 0 {
            "(project)"@
        } else {
            "(project:"@ + subdir + ")"@
        },
    }
}

impl CommandSource {
    /// How it is told where a command comes from.
    pub fn label(self, subdir: &str) -> (r: String)
        ensures
            r@ == source_label(self, subdir@),
    {
        let top = subdir.unicode_len() == 0;
        match self {
            CommandSource::User => if top {
                "(user)".to_owned()
            } else {
                text::cat3("(user:", subdir, ")")
            },
            CommandSource::Project => if top {
                "(project)".to_owned()
            } else {
                text::cat3("(project:", subdir, ")")
            },
        }
    }
}

/// Whether a text can be the name of an attribute.
pub open spec fn is_key(s: Seq<char>) -> bool {
    s.len() > 0 && forall|i: int| 0 <= i < s.len() ==> is_key_char(#[trigger] s[i])
}

/// Whether a character can be part of the name of an attribute.
pub open spec fn is_key_char(c: char) -> bool {
    'a' <= c <= 'z' || 'A' <= c <= 'Z' || '0' <= c <= '9' || c == '_'
}

/// The attributes on lines of the form `key: value`.
pub open spec fn attributes(lines: Seq<Seq<char>>) -> Map<Seq<char>, Seq<char>>
    decreases lines.len(),
{
    if lines.len() == 0 {
        Map::empty()
    } else {
        let before = attributes(lines.drop_last());
        match text::cut(lines.last(), ':') {
            Some((key, value)) => if is_key(text::trimmed(key)) {
                before.insert(text::trimmed(key), text::trimmed(value))
            } else {
                before
            },
            None => before,
        }
    }
}

/// Where the line that ends the attributes begins, when a file has attributes.
pub open spec fn attributes_end(content: Seq<char>) -> Option<int> {
    if text::begins(content, "---"@) {
        match text::found(content.skip(3), "\n---"@) {
            Some(i) => Some(3 + i),
            None => None,
        }
    } else {
        None
    }
}

/// The lines between those that begin and end the attributes.
pub open spec fn attribute_lines(content: Seq<char>, end: int) -> Seq<Seq<char>> {
    text::lines_of(
        if end < 4 {
            Seq::empty()
        } else {
            content.subrange(4, end)
        },
    )
}

/// The attributes of a file.
pub open spec fn file_attributes(content: Seq<char>) -> Map<Seq<char>, Seq<char>> {
    match attributes_end(content) {
        Some(end) => attributes(attribute_lines(content, end)),
        None => Map::empty(),
    }
}

/// A file without its attributes.
pub open spec fn file_body(content: Seq<char>) -> Seq<char> {
    match attributes_end(content) {
        Some(end) => text::trimmed(content.skip(end + 4)),
        None => content,
    }
}

fn can_be_key(s: &str) -> (r: bool)
    ensures
        r == is_key(s@),
{
    let cs = text::chars_of(s);
    if cs.len() == 0 {
        return false;
    }
    let mut i: usize = 0;
    while i < cs.len()
        invariant
            i <= cs@.len(),
            cs@ == s@,
            forall|k: int| 0 <= k < i ==> is_key_char(#[trigger] s@[k]),
        decreases cs.len() - i,
    {
        let c = cs[i];
        if !('a' <= c && c <= 'z' || 'A' <= c && c <= 'Z' || '0' <= c && c <= '9' || c == '_') {
            assert(!is_key_char(s@[i as int]));
            return false;
        }
        i += 1;
    }
    true
}

fn read_attributes(lines: &Vec<String>) -> (r: Table<String>)
    ensures
        r@ == attributes(text::texts(lines@)),
{
    let ghost model = text::texts(lines@);
    let mut r: Table<String> = Table::new();
    let mut i: usize = 0;
    assert(model.take(0) =~= Seq::empty());
    while i < lines.len()
        invariant
            i <= lines@.len(),
            model == text::texts(lines@),
            r@ == attributes(model.take(i as int)),
        decreases lines.len() - i,
    {
        proof {
            assert(model.take(i + 1).drop_last() =~= model.take(i as int));
            assert(model.take(i + 1).last() == lines@[i as int]@);
        }
        if let Some((key, value)) = text::split_once(lines[i].as_str(), ':') {
            let key = text::trim(key);
            if can_be_key(key) {
                r.set(key, text::trim(value).to_owned());
            }
        }
        i += 1;
    }
    assert(model.take(i as int) =~= model);
    r
}

/// Part a file into its attributes and the rest.
pub fn parse_frontmatter(content: &str) -> (r: (Table<String>, String))
    ensures
        r.0@ == file_attributes(content@),
        r.1@ == file_body(content@),
{
    proof {
        reveal_strlit("---");
        reveal_strlit("\n---");
    }
    if !text::starts_with(content, "---") {
        return (Table::new(), content.to_owned());
    }
    let cs = text::chars_of(content);
    match text::find_text(&cs, 3, "\n---") {
        Some(end) => {
            let block = if end < 4 {
                String::new()
            } else {
                text::string_of(&cs, 4, end)
            };
            let n: usize = cs.len();
            let rest = text::string_of(&cs, end + 4, n);
            assert(rest@ =~= content@.skip(end + 4));
            let lines = text::lines(block.as_str());
            (read_attributes(&lines), text::trim(rest.as_str()).to_owned())
        },
        None => (Table::new(), content.to_owned()),
    }
}

/// What is found in a directory of prompt files.
pub enum PromptEntry {
    /// A file, with its content when it can be read.
    File { name: String, content: Option<String> },
    /// A directory.
    Dir { name: String, entries: Vec<PromptEntry> },
}

/// The first line that is not blank.
pub open spec fn first_filled(lines: Seq<Seq<char>>) -> Option<Seq<char>>
    decreases lines.len(),
{
    if lines.len() == 0 {
        None
    } else if text::trimmed(lines[0]).len() > 0 {
        Some(lines[0])
    } else {
        first_filled(lines.skip(1))
    }
}

/// How long a description made of a prompt is, in characters.
pub const DESCRIPTION_CHARS: usize = 60;

/// The beginning of a prompt.
pub open spec fn summary(body: Seq<char>) -> Seq<char> {
    match first_filled(text::lines_of(body)) {
        Some(line) => if line.len() > DESCRIPTION_CHARS {
            line.take(DESCRIPTION_CHARS as int) + "..."@
        } else {
            line
        },
        None => Seq::empty(),
    }
}

/// What a prompt file does: as it says, else its beginning; and where it comes
/// from.
pub open spec fn description_of(content: Seq<char>, label: Seq<char>) -> Seq<char> {
    let said = match table::lookup(file_attributes(content), "description"@) {
        Some(d) => d,
        None => Seq::empty(),
    };
    let d = if said.len() > 0 {
        said
    } else {
        summary(file_body(content))
    };
    if d.len() > 0 {
        d + " "@ + label
    } else {
        label
    }
}

/// Whether a file name is that of a prompt file.
pub open spec fn names_prompt_file(name: Seq<char>) -> bool {
    name.len() > 3 && text::ends(name, ".md"@)
}

/// The command of a prompt file.
pub open spec fn file_command(
    name: Seq<char>,
    content: Seq<char>,
    source: CommandSource,
    subdir: Seq<char>,
) -> FileCommandView {
    FileCommandView {
        name: name.take(name.len() - 3),
        description: description_of(content, source_label(source, subdir)),
        content: file_body(content),
        source: source_label(source, subdir),
    }
}

/// A directory below a directory.
pub open spec fn below(subdir: Seq<char>, name: Seq<char>) -> Seq<char> {
    if subdir.len() == 0 {
        name
    } else {
        subdir + ":"@ + name
    }
}

/// The commands of an entry.
pub open spec fn entry_commands(
    entry: PromptEntry,
    source: CommandSource,
    subdir: Seq<char>,
) -> Seq<FileCommandView>
    decreases entry,
{
    match entry {
        PromptEntry::File { name, content } => match content {
            Some(c) => if names_prompt_file(name@) {
                seq![file_command(name@, c@, source, subdir)]
            } else {
                Seq::empty()
            },
            None => Seq::empty(),
        },
        PromptEntry::Dir { name, entries } => dir_commands(
            entry->entries@,
            source,
            below(subdir, name@),
        ),
    }
}

/// The commands of the prompt files in a directory, and in those below it.
pub open spec fn dir_commands(
    entries: Seq<PromptEntry>,
    source: CommandSource,
    subdir: Seq<char>,
) -> Seq<FileCommandView>
    decreases entries,
{
    if entries.len() == 0 {
        Seq::empty()
    } else {
        dir_commands(entries.subrange(0, entries.len() - 1), source, subdir) + entry_commands(
            entries.last(),
            source,
            subdir,
        )
    }
}

fn read_first_filled(lines: &Vec<String>) -> (r: Option<String>)
    ensures
        text::opt_text(r) == first_filled(text::texts(lines@)),
{
    let ghost model = text::texts(lines@);
    let mut i: usize = 0;
    assert(model.skip(0) =~= model);
    while i < lines.len()
        invariant
            i <= lines@.len(),
            model == text::texts(lines@),
            first_filled(model) == first_filled(model.skip(i as int)),
        decreases lines.len() - i,
    {
        assert(model.skip(i as int)[0] == lines@[i as int]@);
        if text::trim(lines[i].as_str()).unicode_len() > 0 {
            return Some(lines[i].clone());
        }
        assert(model.skip(i as int).skip(1) =~= model.skip(i + 1));
        i += 1;
    }
    None
}

fn read_summary(body: &str) -> (r: String)
    ensures
        r@ == summary(body@),
{
    let lines = text::lines(body);
    match read_first_filled(&lines) {
        Some(line) => {
            if line.as_str().unicode_len() > DESCRIPTION_CHARS {
                text::cat2(text::take_chars(line.as_str(), DESCRIPTION_CHARS), "...")
            } else {
                line
            }
        },
        None => String::new(),
    }
}

fn read_file_command(name: &str, content: &str, source: CommandSource, subdir: &str) -> (r:
    FileSlashCommand)
    requires
        names_prompt_file(name@),
    ensures
        r@ == file_command(name@, content@, source, subdir@),
{
    let (attributes, body) = parse_frontmatter(content);
    let label = source.label(subdir);
    let said = match attributes.get("description") {
        Some(d) => d.clone(),
        None => String::new(),
    };
    let d = if said.as_str().unicode_len() > 0 {
        said
    } else {
        read_summary(body.as_str())
    };
    let description = if d.as_str().unicode_len() > 0 {
        text::cat3(d.as_str(), " ", label.as_str())
    } else {
        label.clone()
    };
    let n: usize = name.unicode_len();
    assert(name@.subrange(0, n - 3) =~= name@.take(n - 3));
    FileSlashCommand {
        name: name.substring_char(0, n - 3).to_owned(),
        description,
        content: body,
        source: label,
    }
}

fn load_entry(entry: &PromptEntry, source: CommandSource, subdir: &str) -> (r: Vec<
    FileSlashCommand,
>)
    ensures
        file_views(r@) == entry_commands(*entry, source, subdir@),
    decreases entry,
{
    let mut r: Vec<FileSlashCommand> = Vec::new();
    assert(file_views(r@) =~= Seq::empty());
    match entry {
        PromptEntry::File { name, content } => {
            if let Some(c) = content {
                if name.as_str().unicode_len() > 3 && text::ends_with(name.as_str(), ".md") {
                    let command = read_file_command(name.as_str(), c.as_str(), source, subdir);
                    r.push(command);
                    assert(file_views(r@) =~= seq![command@]);
                }
            }
            r
        },
        PromptEntry::Dir { name, entries } => {
            let inner = if subdir.unicode_len() == 0 {
                name.clone()
            } else {
                text::cat3(subdir, ":", name.as_str())
            };
            load_commands_from_dir(entries, source, inner.as_str())
        },
    }
}

/// The commands of the prompt files in a directory, and in those below it.
pub fn load_commands_from_dir(
    entries: &Vec<PromptEntry>,
    source: CommandSource,
    subdir: &str,
) -> (r: Vec<FileSlashCommand>)
    ensures
        file_views(r@) == dir_commands(entries@, source, subdir@),
    decreases entries,
{
    let mut r: Vec<FileSlashCommand> = Vec::new();
    let mut i: usize = 0;
    assert(entries@.subrange(0, 0) =~= Seq::empty());
    assert(file_views(r@) =~= Seq::empty());
    while i < entries.len()
        invariant
            i <= entries@.len(),
            file_views(r@) == dir_commands(entries@.subrange(0, i as int), source, subdir@),
        decreases entries@.len() - i,
    {
        proof {
            let part = entries@.subrange(0, i + 1);
            assert(part.subrange(0, part.len() - 1) =~= entries@.subrange(0, i as int));
            assert(part.last() == entries@[i as int]);
            assert(decreases_to!(*entries => entries@[i as int]));
        }
        let ghost before = r@;
        let mut more = load_entry(&entries[i], source, subdir);
        let ghost added = more@;
        r.append(&mut more);
        assert(r@ =~= before + added);
        assert(file_views(r@) =~= file_views(before) + file_views(added));
        i += 1;
    }
    assert(entries@.subrange(0, i as int) =~= entries@);
    r
}

/// The directory of the user's prompt files.
pub fn user_prompts_dir(agent_dir: &str, windows: bool) -> (r: String)
    ensures
        r@ == path::resolved(agent_dir@, "prompts"@, windows),
{
    path::resolve_path(agent_dir, "prompts", windows)
}

/// The directory of a project's prompt files.
pub fn project_prompts_dir(cwd: &str, windows: bool) -> (r: String)
    ensures
        r@ == path::resolved(path::resolved(cwd@, ".pi"@, windows), "prompts"@, windows),
{
    path::resolve_path(path::resolve_path(cwd, ".pi", windows).as_str(), "prompts", windows)
}

/// The commands of the prompt files, the user's before the project's.
pub fn load_slash_commands_at(user: &Vec<PromptEntry>, project: &Vec<PromptEntry>) -> (r: Vec<
    FileSlashCommand,
>)
    ensures
        file_views(r@) == dir_commands(user@, CommandSource::User, Seq::empty()) + dir_commands(
            project@,
            CommandSource::Project,
            Seq::empty(),
        ),
{
    proof {
        reveal_strlit("");
        assert(""@ =~= Seq::empty());
    }
    let mut r = load_commands_from_dir(user, CommandSource::User, "");
    let ghost before = r@;
    let mut more = load_commands_from_dir(project, CommandSource::Project, "");
    let ghost added = more@;
    r.append(&mut more);
    assert(r@ =~= before + added);
    assert(file_views(r@) =~= file_views(before) + file_views(added));
    r
}

/// The commands of the prompt files, the user's before the project's.
pub fn load_slash_commands(user: &Vec<PromptEntry>, project: &Vec<PromptEntry>) -> (r: Vec<
    FileSlashCommand,
>)
    ensures
        file_views(r@) == dir_commands(user@, CommandSource::User, Seq::empty()) + dir_commands(
            project@,
            CommandSource::Project,
            Seq::empty(),
        ),
{
    load_slash_commands_at(user, project)
}

/// The commands of prompt files as they are offered: the first of every name.
pub fn to_available_commands(file_commands: &Vec<FileSlashCommand>) -> (r: Vec<AvailableCommand>)
    ensures
        command_views(r@) == unique(
            file_views(file_commands@).map_values(
                |c: FileCommandView| bare(c.name, c.description),
            ),
        ),
{
    let ghost model = file_views(file_commands@).map_values(
        |c: FileCommandView| bare(c.name, c.description),
    );
    let mut r: Vec<AvailableCommand> = Vec::new();
    let mut i: usize = 0;
    assert(model.take(0) =~= Seq::empty());
    assert(command_views(r@) =~= Seq::empty());
    while i < file_commands.len()
        invariant
            i <= file_commands@.len(),
            model == file_views(file_commands@).map_values(
                |c: FileCommandView| bare(c.name, c.description),
            ),
            command_views(r@) == unique(model.take(i as int)),
        decreases file_commands.len() - i,
    {
        let c = AvailableCommand::new(
            file_commands[i].name.as_str(),
            file_commands[i].description.as_str(),
        );
        assert(model.take(i + 1) =~= model.take(i as int).push(c@));
        add_unique(&mut r, &c, Ghost(model.take(i as int)));
        i += 1;
    }
    assert(model.take(i as int) =~= model);
    r
}

// ---------------------------------------------------------------------------
// Arguments
// ---------------------------------------------------------------------------

/// Arguments while they are read.
pub struct ArgsView {
    /// The complete ones.
    pub done: Seq<Seq<char>>,
    /// What was read of the next.
    pub current: Seq<char>,
    /// The quotation mark that is open.
    pub quote: Option<char>,
}

impl ArgsView {
    /// One more character. A blank ends an argument unless a quotation mark is
    /// open.
    pub open spec fn step(self, c: char) -> ArgsView {
        match self.quote {
            Some(q) => if c == q {
                ArgsView { quote: None, ..self }
            } else {
                ArgsView { current: self.current.push(c), ..self }
            },
            None => if c == '"' || c == '\'' {
                ArgsView { quote: Some(c), ..self }
            } else if c == ' ' || c == '\t' {
                self.end()
            } else {
                ArgsView { current: self.current.push(c), ..self }
            },
        }
    }

    /// The end of an argument; none ends where none began.
    pub open spec fn end(self) -> ArgsView {
        if self.current.len() == 0 {
            self
        } else {
            ArgsView { done: self.done.push(self.current), current: Seq::empty(), ..self }
        }
    }
}

/// Arguments after some characters.
pub open spec fn args_read(s: Seq<char>) -> ArgsView
    decreases s.len(),
{
    if s.len() == 0 {
        ArgsView { done: Seq::empty(), current: Seq::empty(), quote: None }
    } else {
        args_read(s.drop_last()).step(s.last())
    }
}

/// The arguments that a text is: separated by blanks, with quotation marks
/// round those that hold blanks.
pub open spec fn args_of(s: Seq<char>) -> Seq<Seq<char>> {
    args_read(s).end().done
}

fn end_arg(args: &mut Vec<String>, current: String) -> (r: String)
    ensures
        current@.len() == 0 ==> text::texts(final(args)@) == text::texts(old(args)@)
            && r@ == current@,
        current@.len() > 0 ==> text::texts(final(args)@) == text::texts(old(args)@).push(current@)
            && r@ == Seq::<char>::empty(),
{
    if current.as_str().unicode_len() == 0 {
        current
    } else {
        let ghost before = text::texts(args@);
        args.push(current);
        assert(text::texts(args@) =~= before.push(current@));
        String::new()
    }
}

/// The arguments that a text is.
pub fn parse_command_args(args_string: &str) -> (r: Vec<String>)
    ensures
        text::texts(r@) == args_of(args_string@),
{
    let cs = text::chars_of(args_string);
    let mut args: Vec<String> = Vec::new();
    let mut current = String::new();
    let mut quote: Option<char> = None;
    let mut i: usize = 0;
    assert(args_string@.take(0) =~= Seq::empty());
    assert(text::texts(args@) =~= Seq::empty());
    while i < cs.len()
        invariant
            i <= cs@.len(),
            cs@ == args_string@,
            args_read(args_string@.take(i as int)) == (ArgsView {
                done: text::texts(args@),
                current: current@,
                quote,
            }),
        decreases cs.len() - i,
    {
        proof {
            assert(args_string@.take(i + 1).drop_last() =~= args_string@.take(i as int));
            assert(args_string@.take(i + 1).last() == cs@[i as int]);
        }
        let c = cs[i];
        match quote {
            Some(q) => {
                if c == q {
                    quote = None;
                } else {
                    current.push(c);
                }
            },
            None => {
                if c == '"' || c == '\'' {
                    quote = Some(c);
                } else if c == ' ' || c == '\t' {
                    current = end_arg(&mut args, current);
                } else {
                    current.push(c);
                }
            },
        }
        i += 1;
    }
    assert(args_string@.take(i as int) =~= args_string@);
    let _rest = end_arg(&mut args, current);
    args
}

/// How many digits a text begins with.
pub open spec fn digit_run(s: Seq<char>) -> nat
    decreases s.len(),
{
    if s.len() > 0 && text::is_digit(s[0]) {
        1 + digit_run(s.skip(1))
    } else {
        0
    }
}

/// The digits are part of the text.
pub proof fn digit_run_fits(s: Seq<char>)
    ensures
        digit_run(s) <= s.len(),
    decreases s.len(),
{
    if s.len() > 0 && text::is_digit(s[0]) {
        digit_run_fits(s.skip(1));
    }
}

/// The argument with a number, counted from one; nothing when there is none.
pub open spec fn numbered(digits: Seq<char>, args: Seq<Seq<char>>) -> Seq<char> {
    let n = text::digits_value(digits);
    if 1 <= n <= args.len() {
        args[n - 1]
    } else {
        Seq::empty()
    }
}

/// A text with `$1`, `$2` and so on replaced by the arguments.
pub open spec fn filled(s: Seq<char>, args: Seq<Seq<char>>) -> Seq<char>
    decreases s.len(),
{
    if s.len() == 0 {
        s
    } else if s[0] == '$' && digit_run(s.skip(1)) > 0 {
        let n = digit_run(s.skip(1)) as int;
        proof {
            digit_run_fits(s.skip(1));
        }
        numbered(s.subrange(1, 1 + n), args) + filled(s.skip(1 + n), args)
    } else {
        seq![s[0]] + filled(s.skip(1), args)
    }
}

/// A prompt with `$@` replaced by all arguments, then `$1`, `$2` and so on by
/// single ones.
pub open spec fn substituted(content: Seq<char>, args: Seq<Seq<char>>) -> Seq<char> {
    filled(text::replaced(content, "$@"@, text::joined(args, " "@)), args)
}

fn run_end(cs: &Vec<char>, from: usize) -> (r: usize)
    requires
        from <= cs@.len(),
    ensures
        from <= r <= cs@.len(),
        r - from == digit_run(cs@.skip(from as int)),
        text::all_digits(cs@.subrange(from as int, r as int)),
    decreases cs@.len() - from,
{
    if from < cs.len() && '0' <= cs[from] && cs[from] <= '9' {
        assert(cs@.skip(from as int).skip(1) =~= cs@.skip(from + 1));
        let r = run_end(cs, from + 1);
        proof {
            assert forall|j: int| 0 <= j < r - from implies text::is_digit(
                #[trigger] cs@.subrange(from as int, r as int)[j],
            ) by {
                if j > 0 {
                    assert(text::is_digit(cs@.subrange(from + 1, r as int)[j - 1]));
                } else {
                    assert(text::is_digit(cs@[from as int]));
                }
            }
        }
        r
    } else {
        from
    }
}

fn append_numbered(r: &mut String, digits: &str, args: &Vec<String>)
    requires
        text::all_digits(digits@),
        digits@.len() > 0,
    ensures
        final(r)@ == old(r)@ + numbered(digits@, text::texts(args@)),
{
    let count: usize = args.len();
    match text::read_number(digits, count as u64) {
        Some(n) => {
            if n >= 1 {
                let k: usize = n as usize;
                assert(text::texts(args@)[k - 1] == args@[k - 1]@);
                r.append(args[k - 1].as_str());
            } else {
                assert(old(r)@ + Seq::<char>::empty() =~= old(r)@);
            }
        },
        None => {
            assert(old(r)@ + Seq::<char>::empty() =~= old(r)@);
        },
    }
}

/// Put the arguments of a command into its prompt.
pub fn substitute_args(content: &str, args: &Vec<String>) -> (r: String)
    ensures
        r@ == substituted(content@, text::texts(args@)),
{
    proof {
        reveal_strlit("$@");
    }
    let all = text::join(args, " ");
    let s = text::replace(content, "$@", all.as_str());
    let ghost model = text::texts(args@);
    let cs = text::chars_of(s.as_str());
    let mut r = String::new();
    let mut i: usize = 0;
    assert(s@.skip(0) =~= s@);
    assert(r@ + filled(s@, model) =~= filled(s@, model));
    while i < cs.len()
        invariant
            i <= cs@.len(),
            cs@ == s@,
            model == text::texts(args@),
            filled(s@, model) == r@ + filled(s@.skip(i as int), model),
        decreases cs@.len() - i,
    {
        let ghost rest = s@.skip(i as int);
        let ghost done = r@;
        assert(rest[0] == cs@[i as int]);
        assert(rest.skip(1) =~= s@.skip(i + 1));
        let end: usize = run_end(&cs, i + 1);
        if cs[i] == '$' && end > i + 1 {
            let digits = text::string_of(&cs, i + 1, end);
            append_numbered(&mut r, digits.as_str(), args);
            proof {
                let n = end - i - 1;
                assert(rest.subrange(1, 1 + n) =~= digits@);
                assert(rest.skip(1 + n) =~= s@.skip(end as int));
                assert(done + (numbered(digits@, model) + filled(s@.skip(end as int), model))
                    =~= r@ + filled(s@.skip(end as int), model));
            }
            i = end;
        } else {
            r.push(cs[i]);
            assert(done + (seq![rest[0]] + filled(s@.skip(i + 1), model)) =~= r@ + filled(
                s@.skip(i + 1),
                model,
            ));
            i += 1;
        }
    }
    assert(s@.skip(i as int) =~= Seq::empty());
    assert(r@ + Seq::<char>::empty() =~= r@);
    r
}

/// The first command with a name.
pub open spec fn command_named(cs: Seq<FileCommandView>, name: Seq<char>) -> Option<
    FileCommandView,
>
    decreases cs.len(),
{
    if cs.len() == 0 {
        None
    } else if cs[0].name == name {
        Some(cs[0])
    } else {
        command_named(cs.skip(1), name)
    }
}

/// What a prompt stands for: that of the command it names, with its arguments,
/// else itself.
pub open spec fn expanded(s: Seq<char>, cs: Seq<FileCommandView>) -> Seq<char> {
    match slash_parts(s) {
        Some((name, args)) => match command_named(cs, name) {
            Some(c) => substituted(c.content, args_of(args)),
            None => s,
        },
        None => s,
    }
}

fn find_command<'a>(cs: &'a Vec<FileSlashCommand>, name: &str) -> (r: Option<&'a FileSlashCommand>)
    ensures
        match r {
            Some(c) => command_named(file_views(cs@), name@) == Some(c@),
            None => command_named(file_views(cs@), name@) is None,
        },
{
    let ghost model = file_views(cs@);
    let mut i: usize = 0;
    assert(model.skip(0) =~= model);
    while i < cs.len()
        invariant
            i <= cs@.len(),
            model == file_views(cs@),
            command_named(model, name@) == command_named(model.skip(i as int), name@),
        decreases cs.len() - i,
    {
        assert(model.skip(i as int)[0] == cs@[i as int]@);
        if text::same(cs[i].name.as_str(), name) {
            return Some(&cs[i]);
        }
        assert(model.skip(i as int).skip(1) =~= model.skip(i + 1));
        i += 1;
    }
    None
}

/// Expand a prompt that names a command of a prompt file.
pub fn expand_slash_command(text: &str, file_commands: &Vec<FileSlashCommand>) -> (r: String)
    ensures
        r@ == expanded(text@, file_views(file_commands@)),
{
    match read_slash_parts(text) {
        Some((name, args)) => match find_command(file_commands, name) {
            Some(c) => {
                let parsed = parse_command_args(args);
                substitute_args(c.content.as_str(), &parsed)
            },
            None => text.to_owned(),
        },
        None => text.to_owned(),
    }
}

// ---------------------------------------------------------------------------
// Laws
// ---------------------------------------------------------------------------

/// Of several commands with one name the first is kept, in its place: lists
/// that come later add names and change none.
pub proof fn the_first_of_a_name_is_kept(cs: Seq<CommandView>, more: Seq<CommandView>, k: int)
    requires
        0 <= k < cs.len(),
        forall|j: int| 0 <= j < k ==> (#[trigger] cs[j]).name != cs[k].name,
    ensures
        unique(cs + more).contains(cs[k]),
        unique(cs).is_prefix_of(unique(cs + more)),
    decreases more.len(), cs.len(),
{
    if more.len() == 0 {
        assert(cs + more =~= cs);
        let front = cs.drop_last();
        let before = unique(front);
        if k < cs.len() - 1 {
            assert forall|j: int| 0 <= j < k implies (#[trigger] front[j]).name != front[k].name by {
                assert(front[j] == cs[j]);
            }
            the_first_of_a_name_is_kept(front, Seq::empty(), k);
            assert(front + Seq::<CommandView>::empty() =~= front);
            let i = choose|i: int| 0 <= i < before.len() && before[i] == cs[k];
            assert(unique(cs)[i] == cs[k]);
        } else {
            unique_keeps_every_name_once(front);
            if offers(before, cs.last().name) {
                assert(offers(front, cs.last().name));
                let i = choose|i: int| 0 <= i < front.len() && (#[trigger] front[i]).name
                    == cs.last().name;
                assert(cs[i].name == cs[k].name);
            }
            assert(unique(cs)[unique(cs).len() - 1] == cs[k]);
        }
    } else {
        the_first_of_a_name_is_kept(cs, more.drop_last(), k);
        let all = cs + more;
        assert(all.drop_last() =~= cs + more.drop_last());
        let before = unique(all.drop_last());
        let i = choose|i: int| 0 <= i < before.len() && before[i] == cs[k];
        assert(unique(all)[i] == cs[k]);
    }
}

/// A command of pi is offered under its name, without the blanks round it, with
/// its description; one without a name is not, and neither are those of kinds
/// that are not wanted.
pub proof fn a_command_of_pi_is_offered(
    v: JsonView,
    name: Seq<char>,
    description: Seq<char>,
    source: Seq<char>,
    skills: bool,
    extensions: bool,
)
    requires
        json::member(v, "name"@) == Some(JsonView::Str(name)),
        json::member(v, "description"@) == Some(JsonView::Str(description)),
        json::member(v, "source"@) == Some(JsonView::Str(source)),
    ensures
        text::trimmed(name).len() == 0 ==> pi_command(v, skills, extensions) is None,
        source == "extension"@ && !extensions ==> pi_command(v, skills, extensions) is None,
        text::begins(text::trimmed(name), "skill:"@) && !skills ==> pi_command(
            v,
            skills,
            extensions,
        ) is None,
        text::trimmed(name).len() > 0 && (source != "extension"@ || extensions) && (!text::begins(
            text::trimmed(name),
            "skill:"@,
        ) || skills) ==> (pi_command(v, skills, extensions) matches Some(c) && c.name
            == text::trimmed(name) && c.hint is None && (text::trimmed(description).len() > 0
            ==> c.description == text::trimmed(description))),
{
}

/// The commands of pi are offered in its order, each that is wanted.
pub proof fn commands_of_pi_keep_their_order(
    items: Seq<JsonView>,
    v: JsonView,
    skills: bool,
    extensions: bool,
)
    ensures
        pi_commands(items.push(v), skills, extensions) == (match pi_command(
            v,
            skills,
            extensions,
        ) {
            Some(c) => pi_commands(items, skills, extensions).push(c),
            None => pi_commands(items, skills, extensions),
        }),
        pi_commands(Seq::empty(), skills, extensions).len() == 0,
{
    assert(items.push(v).drop_last() =~= items);
}

/// A slash command is its name, up to the first blank, and what follows the
/// blank. A message that does not begin with a slash is none.
pub proof fn a_slash_command_is_read(name: Seq<char>, args: Seq<char>)
    requires
        forall|j: int| 0 <= j < name.len() ==> #[trigger] name[j] != ' ',
    ensures
        slash_parts(seq!['/'] + name + seq![' '] + args) == Some((name, args)),
        slash_parts(seq!['/'] + name) == Some((name, Seq::<char>::empty())),
        args.len() == 0 || args[0] != '/' ==> slash_parts(args) is None,
{
    reveal_strlit("/");
    assert("/"@.len() == 1 && "/"@[0] == '/');
    let s = seq!['/'] + name + seq![' '] + args;
    assert(s.subrange(0, 1) =~= "/"@);
    let rest = s.skip(1);
    assert(rest =~= name + seq![' '] + args);
    text::before_unique(rest, ' ', name.len() as int);
    assert(rest.take(name.len() as int) =~= name);
    assert(rest.skip(name.len() as int + 1) =~= args);
    let t = seq!['/'] + name;
    assert(t.subrange(0, 1) =~= "/"@);
    assert(t.skip(1) =~= name);
    text::before_unique(name, ' ', name.len() as int);
    if args.len() > 0 && text::begins(args, "/"@) {
        assert(args.subrange(0, 1)[0] == args[0]);
    }
}

/// The state of reading arguments after some more text.
pub open spec fn read_on(state: ArgsView, s: Seq<char>) -> ArgsView
    decreases s.len(),
{
    if s.len() == 0 {
        state
    } else {
        read_on(state, s.drop_last()).step(s.last())
    }
}

proof fn reading_goes_on(a: Seq<char>, b: Seq<char>)
    ensures
        args_read(a + b) == read_on(args_read(a), b),
    decreases b.len(),
{
    if b.len() == 0 {
        assert(a + b =~= a);
    } else {
        reading_goes_on(a, b.drop_last());
        assert((a + b).drop_last() =~= a + b.drop_last());
    }
}

proof fn read_arguments_stay(done: Seq<Seq<char>>, s: Seq<char>)
    ensures
        ({
            let fresh = ArgsView { done: Seq::empty(), current: Seq::empty(), quote: None };
            let a = read_on(ArgsView { done, ..fresh }, s);
            let b = read_on(fresh, s);
            &&& a.done == done + b.done
            &&& a.current == b.current
            &&& a.quote == b.quote
            &&& a.end().done == done + b.end().done
        }),
    decreases s.len(),
{
    let fresh = ArgsView { done: Seq::empty(), current: Seq::empty(), quote: None };
    if s.len() == 0 {
        assert(done + Seq::<Seq<char>>::empty() =~= done);
    } else {
        read_arguments_stay(done, s.drop_last());
        let a = read_on(ArgsView { done, ..fresh }, s.drop_last());
        let b = read_on(fresh, s.drop_last());
        assert(done + b.done.push(b.current) =~= (done + b.done).push(b.current));
    }
    let b = read_on(fresh, s);
    assert(done + b.done.push(b.current) =~= (done + b.done).push(b.current));
}

proof fn a_word_is_read(state: ArgsView, w: Seq<char>)
    requires
        match state.quote {
            Some(q) => forall|j: int| 0 <= j < w.len() ==> #[trigger] w[j] != q,
            None => forall|j: int|
                0 <= j < w.len() ==> #[trigger] w[j] != ' ' && w[j] != '\t' && w[j] != '"' && w[j]
                    != '\'',
        },
    ensures
        read_on(state, w) == (ArgsView { current: state.current + w, ..state }),
    decreases w.len(),
{
    if w.len() == 0 {
        assert(state.current + w =~= state.current);
    } else {
        let front = w.drop_last();
        assert forall|j: int| 0 <= j < front.len() implies #[trigger] front[j] == w[j] by {}
        a_word_is_read(state, front);
        assert(state.current + w =~= (state.current + front).push(w.last()));
        assert(w[w.len() - 1] == w.last());
    }
}

proof fn the_rest_is_read(front: Seq<char>, word: Seq<char>, rest: Seq<char>)
    requires
        args_read(front) == (ArgsView {
            done: Seq::empty(),
            current: word,
            quote: None::<char>,
        }),
        word.len() > 0,
    ensures
        args_of(front) == seq![word],
        args_of(front + seq![' '] + rest) == seq![word] + args_of(rest),
{
    let fresh = ArgsView { done: Seq::empty(), current: Seq::empty(), quote: None };
    assert(Seq::<Seq<char>>::empty().push(word) =~= seq![word]);
    let blank = front + seq![' '];
    assert(blank.drop_last() =~= front);
    assert(args_read(blank) == ArgsView { done: seq![word], ..fresh });
    reading_goes_on(blank, rest);
    reading_goes_on(Seq::empty(), rest);
    assert(Seq::<char>::empty() + rest =~= rest);
    read_arguments_stay(seq![word], rest);
}

/// Arguments are the words between blanks, in order; blanks before them do not
/// count.
pub proof fn arguments_are_words(w: Seq<char>, rest: Seq<char>)
    requires
        w.len() > 0,
        forall|j: int|
            0 <= j < w.len() ==> #[trigger] w[j] != ' ' && w[j] != '\t' && w[j] != '"' && w[j]
                != '\'',
    ensures
        args_of(Seq::empty()).len() == 0,
        args_of(w) == seq![w],
        args_of(w + seq![' '] + rest) == seq![w] + args_of(rest),
        args_of(seq![' '] + rest) == args_of(rest),
{
    let fresh = ArgsView { done: Seq::empty(), current: Seq::empty(), quote: None };
    reading_goes_on(Seq::empty(), w);
    assert(Seq::<char>::empty() + w =~= w);
    a_word_is_read(fresh, w);
    assert(Seq::<char>::empty() + w =~= w);
    the_rest_is_read(w, w, rest);
    let blank = seq![' '];
    assert(blank.drop_last() =~= Seq::<char>::empty());
    assert(args_read(blank) == fresh);
    reading_goes_on(blank, rest);
    reading_goes_on(Seq::empty(), rest);
    assert(Seq::<char>::empty() + rest =~= rest);
}

/// What stands between quotes is one argument, with its blanks and without the
/// quotes.
pub proof fn quotes_keep_blanks(q: char, w: Seq<char>, rest: Seq<char>)
    requires
        q == '"' || q == '\'',
        w.len() > 0,
        forall|j: int| 0 <= j < w.len() ==> #[trigger] w[j] != q,
    ensures
        args_of(seq![q] + w + seq![q]) == seq![w],
        args_of(seq![q] + w + seq![q] + seq![' '] + rest) == seq![w] + args_of(rest),
{
    let open = seq![q];
    assert(open.drop_last() =~= Seq::<char>::empty());
    let state = ArgsView { done: Seq::empty(), current: Seq::empty(), quote: Some(q) };
    assert(args_read(Seq::empty()) == ArgsView { quote: None, ..state });
    assert(args_read(open) == state);
    reading_goes_on(open, w);
    a_word_is_read(state, w);
    assert(Seq::<char>::empty() + w =~= w);
    let front = seq![q] + w + seq![q];
    assert(front.drop_last() =~= open + w);
    assert(args_read(front) == ArgsView { quote: None, current: w, ..state });
    the_rest_is_read(front, w, rest);
}

/// A prompt file without a dollar sign is used as it is.
pub proof fn plain_prompts_stay(content: Seq<char>, args: Seq<Seq<char>>)
    requires
        forall|j: int| 0 <= j < content.len() ==> #[trigger] content[j] != '$',
    ensures
        filled(content, args) == content,
        substituted(content, args) == content,
{
    filling_stays(content, args);
    reveal_strlit("$@");
    assert("$@"@.len() == 2 && "$@"@[0] == '$');
    text::the_first_is_replaced(content, "$@"@, Seq::empty(), text::joined(args, " "@));
}

proof fn filling_stays(content: Seq<char>, args: Seq<Seq<char>>)
    requires
        forall|j: int| 0 <= j < content.len() ==> #[trigger] content[j] != '$',
    ensures
        filled(content, args) == content,
    decreases content.len(),
{
    if content.len() > 0 {
        assert(content[0] != '$');
        let rest = content.skip(1);
        assert forall|j: int| 0 <= j < rest.len() implies #[trigger] rest[j] != '$' by {
            assert(rest[j] == content[j + 1]);
        }
        filling_stays(rest, args);
        assert(seq![content[0]] + rest =~= content);
    }
}

proof fn digits_run(d: Seq<char>, rest: Seq<char>)
    requires
        text::all_digits(d),
        rest.len() == 0 || !text::is_digit(rest[0]),
    ensures
        digit_run(d + rest) == d.len(),
    decreases d.len(),
{
    let s = d + rest;
    if d.len() == 0 {
        assert(s =~= rest);
    } else {
        assert(text::is_digit(d[0]));
        let tail = d.skip(1);
        assert forall|i: int| 0 <= i < tail.len() implies text::is_digit(#[trigger] tail[i]) by {
            assert(tail[i] == d[i + 1]);
        }
        digits_run(tail, rest);
        assert(s.skip(1) =~= tail + rest);
    }
}

/// A dollar sign with a number stands for the argument with that number, the
/// first being 1, and for nothing when there is none. What comes before stays,
/// and what follows is filled in likewise.
pub proof fn numbers_stand_for_arguments(
    front: Seq<char>,
    n: nat,
    rest: Seq<char>,
    args: Seq<Seq<char>>,
)
    requires
        forall|j: int| 0 <= j < front.len() ==> #[trigger] front[j] != '$',
        rest.len() == 0 || !text::is_digit(rest[0]),
    ensures
        filled(front + seq!['$'] + text::decimal(n) + rest, args) == front + (if 1 <= n
            <= args.len() {
            args[n - 1]
        } else {
            Seq::empty()
        }) + filled(rest, args),
    decreases front.len(),
{
    let d = text::decimal(n);
    let s = front + seq!['$'] + d + rest;
    let by = if 1 <= n <= args.len() {
        args[n - 1]
    } else {
        Seq::empty()
    };
    if front.len() == 0 {
        text::decimal_reads_back(n);
        digits_run(d, rest);
        assert(s.skip(1) =~= d + rest);
        assert(s.subrange(1, 1 + d.len() as int) =~= d);
        assert(s.skip(1 + d.len() as int) =~= rest);
        assert(front + by + filled(rest, args) =~= by + filled(rest, args));
    } else {
        assert(front[0] != '$');
        let tail = front.skip(1);
        assert forall|j: int| 0 <= j < tail.len() implies #[trigger] tail[j] != '$' by {
            assert(tail[j] == front[j + 1]);
        }
        numbers_stand_for_arguments(tail, n, rest, args);
        assert(s.skip(1) =~= tail + seq!['$'] + d + rest);
        assert(seq![front[0]] + (tail + by + filled(rest, args)) =~= front + by + filled(
            rest,
            args,
        ));
    }
}

/// `$@` stands for all arguments, with a blank between them.
pub proof fn all_arguments_are_filled_in(
    front: Seq<char>,
    rest: Seq<char>,
    args: Seq<Seq<char>>,
)
    requires
        forall|j: int| 0 <= j < front.len() ==> #[trigger] front[j] != '$',
        forall|j: int| 0 <= j < rest.len() ==> #[trigger] rest[j] != '$',
        forall|j: int|
            0 <= j < text::joined(args, " "@).len() ==> #[trigger] text::joined(args, " "@)[j]
                != '$',
    ensures
        substituted(front + "$@"@ + rest, args) == front + text::joined(args, " "@) + rest,
{
    reveal_strlit("$@");
    assert("$@"@.len() == 2 && "$@"@[0] == '$');
    let all = text::joined(args, " "@);
    text::the_first_is_replaced(front, "$@"@, rest, all);
    text::the_first_is_replaced(rest, "$@"@, Seq::empty(), all);
    let s = front + all + rest;
    assert forall|j: int| 0 <= j < s.len() implies #[trigger] s[j] != '$' by {
        if j < front.len() {
            assert(s[j] == front[j]);
        } else if j < front.len() + all.len() {
            assert(s[j] == all[j - front.len()]);
        } else {
            assert(s[j] == rest[j - front.len() - all.len()]);
        }
    }
    filling_stays(s, args);
}

/// A message that names the command of a prompt file becomes that file's text
/// with the arguments filled in; any other message stays as it is. Of several
/// files with one name the first counts.
pub proof fn a_command_becomes_its_prompt(
    name: Seq<char>,
    args: Seq<char>,
    cs: Seq<FileCommandView>,
    k: int,
    other: Seq<char>,
)
    requires
        forall|j: int| 0 <= j < name.len() ==> #[trigger] name[j] != ' ',
        0 <= k <= cs.len(),
        forall|j: int| 0 <= j < k ==> (#[trigger] cs[j]).name != name,
        k < cs.len() ==> cs[k].name == name,
        other.len() == 0 || other[0] != '/',
    ensures
        ({
            let s = seq!['/'] + name + seq![' '] + args;
            &&& k < cs.len() ==> expanded(s, cs) == substituted(cs[k].content, args_of(args))
            &&& k == cs.len() ==> expanded(s, cs) == s
        }),
        expanded(other, cs) == other,
{
    a_slash_command_is_read(name, args);
    a_slash_command_is_read(name, other);
    the_first_named(cs, name, k);
}

proof fn the_first_named(cs: Seq<FileCommandView>, name: Seq<char>, k: int)
    requires
        0 <= k <= cs.len(),
        forall|j: int| 0 <= j < k ==> (#[trigger] cs[j]).name != name,
        k < cs.len() ==> cs[k].name == name,
    ensures
        command_named(cs, name) == if k < cs.len() {
            Some(cs[k])
        } else {
            None
        },
    decreases k,
{
    if k > 0 {
        let rest = cs.skip(1);
        assert(cs[0].name != name);
        assert forall|j: int| 0 <= j < k - 1 implies (#[trigger] rest[j]).name != name by {
            assert(rest[j] == cs[j + 1]);
        }
        if k < cs.len() {
            assert(rest[k - 1] == cs[k]);
        }
        the_first_named(rest, name, k - 1);
    }
}

/// A prompt file is a command under the file's name without its ending; its
/// text is what follows the attributes.
pub proof fn a_prompt_file_is_a_command(
    name: Seq<char>,
    content: Seq<char>,
    source: CommandSource,
    subdir: Seq<char>,
)
    requires
        name.len() > 0,
    ensures
        names_prompt_file(name + ".md"@),
        file_command(name + ".md"@, content, source, subdir).name == name,
        file_command(name + ".md"@, content, source, subdir).content == file_body(content),
        subdir.len() == 0 && source is User ==> file_command(
            name + ".md"@,
            content,
            source,
            subdir,
        ).source == "(user)"@,
        subdir.len() == 0 && source is Project ==> file_command(
            name + ".md"@,
            content,
            source,
            subdir,
        ).source == "(project)"@,
        subdir.len() > 0 && source is User ==> file_command(
            name + ".md"@,
            content,
            source,
            subdir,
        ).source == "(user:"@ + subdir + ")"@,
        subdir.len() > 0 && source is Project ==> file_command(
            name + ".md"@,
            content,
            source,
            subdir,
        ).source == "(project:"@ + subdir + ")"@,
{
    reveal_strlit(".md");
    assert(".md"@.len() == 3);
    let full = name + ".md"@;
    assert(full.subrange(full.len() - 3, full.len() as int) =~= ".md"@);
    assert(full.take(full.len() - 3) =~= name);
}

/// A file without attributes is all text. With an attribute between two lines
/// of three dashes the attribute is read, and what follows is the text, without
/// the blanks round it.
pub proof fn attributes_are_read(key: Seq<char>, value: Seq<char>, body: Seq<char>)
    requires
        is_key(key),
        forall|j: int| 0 <= j < value.len() ==> #[trigger] value[j] != '\n',
        !text::begins(body, "---"@),
    ensures
        file_body(body) == body,
        file_attributes(body) == Map::<Seq<char>, Seq<char>>::empty(),
        ({
            let content = "---\n"@ + key + ":"@ + value + "\n---"@ + body;
            &&& file_attributes(content).dom().contains(key)
            &&& file_attributes(content)[key] == text::trimmed(value)
            &&& file_body(content) == text::trimmed(body)
        }),
{
    reveal_strlit("---");
    reveal_strlit("---\n");
    reveal_strlit("\n---");
    reveal_strlit(":");
    assert("---"@.len() == 3 && "---\n"@.len() == 4 && "\n---"@.len() == 4 && ":"@.len() == 1);
    assert("---"@[0] == '-' && "---"@[1] == '-' && "---"@[2] == '-');
    assert("---\n"@[0] == '-' && "---\n"@[1] == '-' && "---\n"@[2] == '-' && "---\n"@[3] == '\n');
    assert("\n---"@[0] == '\n' && "\n---"@[1] == '-' && "\n---"@[2] == '-' && "\n---"@[3] == '-');
    assert(":"@[0] == ':');
    let line = key + ":"@ + value;
    let content = "---\n"@ + key + ":"@ + value + "\n---"@ + body;
    assert(content.subrange(0, 3) =~= "---"@);
    let rest = content.skip(3);
    let at = 1 + line.len() as int;
    assert(rest =~= seq!['\n'] + line + "\n---"@ + body);
    assert(rest.subrange(at, at + 4) =~= "\n---"@);
    assert(text::occurs_at(rest, "\n---"@, at));
    assert forall|j: int| 0 <= j < at implies !#[trigger] text::occurs_at(rest, "\n---"@, j) by {
        if text::occurs_at(rest, "\n---"@, j) {
            let cut = rest.subrange(j, j + 4);
            assert(cut[0] == '\n' && cut[1] == '-');
            assert(rest[j] == '\n' && rest[j + 1] == '-');
            if j == 0 {
                assert(is_key_char(key[0]));
                assert(rest[1] == key[0]);
            } else if j - 1 < key.len() {
                assert(is_key_char(key[j - 1]));
            } else if j - 1 > key.len() {
                assert(rest[j] == value[j - 2 - key.len()]);
            }
        }
    }
    text::found_is_first(rest, "\n---"@, at);
    let end = 3 + at;
    assert(content.subrange(4, end) =~= line);
    assert(content.skip(end + 4) =~= body);
    assert forall|j: int| 0 <= j < line.len() implies #[trigger] line[j] != '\n' by {
        if j < key.len() {
            assert(is_key_char(key[j]));
        } else if j > key.len() {
            assert(line[j] == value[j - 1 - key.len()]);
        }
    }
    text::a_line_ends(line, Seq::empty());
    assert(text::lines_of(line) == seq![line]);
    let lines = seq![line];
    assert(lines.drop_last() =~= Seq::<Seq<char>>::empty());
    assert forall|j: int| 0 <= j < key.len() implies line[j] != ':' by {
        assert(is_key_char(key[j]));
    }
    text::before_unique(line, ':', key.len() as int);
    assert(line.take(key.len() as int) =~= key);
    assert(line.skip(key.len() as int + 1) =~= value);
    assert(is_key_char(key[0]) && is_key_char(key.last()));
    text::trimmed_stays(key);
    reveal_with_fuel(attributes, 2);
}

} // verus!
