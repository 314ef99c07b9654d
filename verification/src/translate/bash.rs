//! The bash tool: its command, its output and its terminal metadata.

use crate::json;
use crate::json::{Json, JsonMap, JsonView, NumberView};
use crate::text;
use crate::translate::blocks;
use vstd::prelude::*;
use vstd::string::*;

verus! {

/// Whether a tool name is that of the bash tool, in any letter case.
pub open spec fn names_bash(name: Seq<char>) -> bool {
    text::ascii_lowered(name) == text::ascii_lowered("bash"@)
}

/// Whether a tool name is that of the bash tool, in any letter case.
pub fn is_bash_tool(tool_name: &str) -> (r: bool)
    ensures
        r == names_bash(tool_name@),
{
    text::same_ignoring_ascii_case(tool_name, "bash")
}

// ---------------------------------------------------------------------------
// The command
// ---------------------------------------------------------------------------

/// The string member `name` of a record, when it is not blank.
pub open spec fn filled_member(v: JsonView, name: Seq<char>) -> Option<Seq<char>> {
    match json::str_member(v, name) {
        Some(s) => if text::trimmed(s).len() > 0 {
            Some(s)
        } else {
            None
        },
        None => None,
    }
}

/// The command named in a record: `command`, else `cmd`.
pub open spec fn command_in(v: JsonView) -> Option<Seq<char>> {
    match filled_member(v, "command"@) {
        Some(s) => Some(s),
        None => filled_member(v, "cmd"@),
    }
}

/// The command named in the member `name` of a record.
pub open spec fn command_under(v: JsonView, name: Seq<char>) -> Option<Seq<char>> {
    match json::member(v, name) {
        Some(x) => command_in(x),
        None => None,
    }
}

/// The first of two optional values.
pub open spec fn either<A>(a: Option<A>, b: Option<A>) -> Option<A> {
    match a {
        Some(x) => Some(x),
        None => b,
    }
}

/// The command of a bash call: at the top level, or in the first of the known
/// containers that names one.
pub open spec fn command_of(v: JsonView) -> Option<Seq<char>> {
    either(
        command_in(v),
        either(
            command_under(v, "args"@),
            either(
                command_under(v, "input"@),
                either(
                    command_under(v, "rawInput"@),
                    either(command_under(v, "toolInput"@), command_under(v, "details"@)),
                ),
            ),
        ),
    )
}

fn filled_field<'a>(v: &'a Json, name: &str) -> (r: Option<&'a str>)
    ensures
        text::opt_str(r) == filled_member(v@, name@),
{
    match v.get_str(name) {
        Some(s) => if !text::trim(s).is_empty() {
            Some(s)
        } else {
            None
        },
        None => None,
    }
}

fn command_field<'a>(v: &'a Json) -> (r: Option<&'a str>)
    ensures
        text::opt_str(r) == command_in(v@),
{
    match filled_field(v, "command") {
        Some(s) => Some(s),
        None => filled_field(v, "cmd"),
    }
}

fn command_field_under<'a>(v: &'a Json, name: &str) -> (r: Option<&'a str>)
    ensures
        text::opt_str(r) == command_under(v@, name@),
{
    match v.get(name) {
        Some(x) => command_field(x),
        None => None,
    }
}

/// The command of a bash call, from any of the shapes its arguments take.
pub fn bash_command(value: &Json) -> (r: Option<String>)
    ensures
        text::opt_text(r) == command_of(value@),
{
    if let Some(s) = command_field(value) {
        return Some(s.to_owned());
    }
    if let Some(s) = command_field_under(value, "args") {
        return Some(s.to_owned());
    }
    if let Some(s) = command_field_under(value, "input") {
        return Some(s.to_owned());
    }
    if let Some(s) = command_field_under(value, "rawInput") {
        return Some(s.to_owned());
    }
    if let Some(s) = command_field_under(value, "toolInput") {
        return Some(s.to_owned());
    }
    match command_field_under(value, "details") {
        Some(s) => Some(s.to_owned()),
        None => None,
    }
}

// ---------------------------------------------------------------------------
// The result
// ---------------------------------------------------------------------------

/// The string `name` in a result's `details`, else at its top level.
pub open spec fn detail_text(v: JsonView, name: Seq<char>) -> Option<Seq<char>> {
    either(
        match json::member(v, "details"@) {
            Some(d) => json::str_member(d, name),
            None => None,
        },
        json::str_member(v, name),
    )
}

/// The integer `name` in a result's `details`, else at its top level.
pub open spec fn detail_number(v: JsonView, name: Seq<char>) -> Option<i64> {
    either(
        match json::member(v, "details"@) {
            Some(d) => json::i64_member(d, name),
            None => None,
        },
        json::i64_member(v, name),
    )
}

/// What a result reports as its standard output.
pub open spec fn stdout_of(v: JsonView) -> Option<Seq<char>> {
    either(detail_text(v, "stdout"@), detail_text(v, "output"@))
}

/// What a result reports as its standard error output.
pub open spec fn stderr_of(v: JsonView) -> Option<Seq<char>> {
    detail_text(v, "stderr"@)
}

/// The exit code that a result reports.
pub open spec fn exit_of(v: JsonView) -> Option<i64> {
    either(detail_number(v, "exitCode"@), detail_number(v, "code"@))
}

/// The texts of a result's content blocks.
pub open spec fn content_texts(v: JsonView) -> Seq<Seq<char>> {
    match json::array_member(v, "content"@) {
        Some(items) => blocks::block_texts(items),
        None => Seq::empty(),
    }
}

/// The string `name` in a result's `details`, else at its top level.
pub fn detail_str<'a>(v: &'a Json, name: &str) -> (r: Option<&'a str>)
    ensures
        text::opt_str(r) == detail_text(v@, name@),
{
    if let Some(d) = v.get("details") {
        if let Some(s) = d.get_str(name) {
            return Some(s);
        }
    }
    v.get_str(name)
}

/// The integer `name` in a result's `details`, else at its top level.
pub fn detail_i64(v: &Json, name: &str) -> (r: Option<i64>)
    ensures
        r == detail_number(v@, name@),
{
    if let Some(d) = v.get("details") {
        if let Some(n) = d.get_i64(name) {
            return Some(n);
        }
    }
    v.get_i64(name)
}

/// What a result reports as its standard output.
pub fn stdout_field<'a>(v: &'a Json) -> (r: Option<&'a str>)
    ensures
        text::opt_str(r) == stdout_of(v@),
{
    match detail_str(v, "stdout") {
        Some(s) => Some(s),
        None => detail_str(v, "output"),
    }
}

/// The exit code that a result reports.
pub fn exit_field(v: &Json) -> (r: Option<i64>)
    ensures
        r == exit_of(v@),
{
    match detail_i64(v, "exitCode") {
        Some(n) => Some(n),
        None => detail_i64(v, "code"),
    }
}

/// The texts of a result's content blocks.
pub fn content_block_texts(v: &Json) -> (r: Vec<String>)
    ensures
        text::texts(r@) == content_texts(v@),
{
    match v.get_array("content") {
        Some(items) => blocks::texts_of_blocks(items),
        None => {
            let r: Vec<String> = Vec::new();
            assert(text::texts(r@) =~= Seq::empty());
            r
        },
    }
}

/// The text of an optional part that counts only when it is not empty.
pub open spec fn kept(part: Option<Seq<char>>) -> Seq<Seq<char>> {
    match part {
        Some(s) => if s.len() > 0 {
            seq![s]
        } else {
            Seq::empty()
        },
        None => Seq::empty(),
    }
}

/// What a bash result shows in the terminal: its content blocks when it has
/// text there, its standard output and error output otherwise.
pub open spec fn terminal_text(v: JsonView) -> Seq<char> {
    if content_texts(v).len() > 0 {
        text::joined(content_texts(v), ""@)
    } else {
        text::joined(kept(stdout_of(v)) + kept(stderr_of(v)), "\n"@)
    }
}

fn push_kept(parts: &mut Vec<String>, part: Option<&str>)
    ensures
        text::texts(final(parts)@) == text::texts(old(parts)@) + kept(text::opt_str(part)),
{
    let ghost before = text::texts(parts@);
    match part {
        Some(s) => if !s.is_empty() {
            let s = s.to_owned();
            parts.push(s);
            assert(text::texts(parts@) =~= before + seq![s@]);
        } else {
            assert(before + Seq::empty() =~= before);
        },
        None => {
            assert(before + Seq::empty() =~= before);
        },
    }
}

/// The text a bash result shows in the terminal.
pub fn bash_result_text(result: &Json) -> (r: String)
    ensures
        r@ == terminal_text(result@),
{
    let blocks = content_block_texts(result);
    if blocks.len() > 0 {
        assert(content_texts(result@).len() == blocks@.len());
        return text::join(&blocks, "");
    }
    assert(content_texts(result@).len() == 0);
    let mut parts: Vec<String> = Vec::new();
    assert(text::texts(parts@) =~= Seq::empty());
    push_kept(&mut parts, stdout_field(result));
    push_kept(&mut parts, detail_str(result, "stderr"));
    assert(text::texts(parts@) =~= kept(stdout_of(result@)) + kept(stderr_of(result@)));
    text::join(&parts, "\n")
}

/// The exit code of a bash result: the one it reports (its low 32 bits), else
/// one for an error and zero for success.
pub open spec fn exit_code(v: JsonView, is_error: bool) -> i32 {
    match exit_of(v) {
        Some(n) => n as i32,
        None => if is_error {
            1
        } else {
            0
        },
    }
}

/// The exit code of a bash result.
pub fn bash_exit_code(result: &Json, is_error: bool) -> (r: i32)
    ensures
        r == exit_code(result@, is_error),
{
    match exit_field(result) {
        Some(n) => #[verifier::truncate] (n as i32),
        None => if is_error {
            1
        } else {
            0
        },
    }
}

/// What `next` adds to `previous`: the rest behind that prefix, or all of
/// `next` when the output was reset.
pub open spec fn added(previous: Seq<char>, next: Seq<char>) -> Seq<char> {
    match text::after_prefix(next, previous) {
        Some(rest) => rest,
        None => next,
    }
}

/// The part of `next` that was not shown with `previous`.
pub fn bash_output_delta(previous: &str, next: &str) -> (r: String)
    ensures
        r@ == added(previous@, next@),
{
    match text::strip_prefix(next, previous) {
        Some(rest) => rest.to_owned(),
        None => next.to_owned(),
    }
}

/// Output that only grew is rebuilt by appending what was added.
pub proof fn added_rebuilds_output(previous: Seq<char>, next: Seq<char>)
    requires
        text::begins(next, previous),
    ensures
        previous + added(previous, next) == next,
{
    assert(previous + next.skip(previous.len() as int) =~= next);
}

// ---------------------------------------------------------------------------
// Terminal metadata
// ---------------------------------------------------------------------------

/// The members that announce the terminal of a call.
pub open spec fn info_meta(id: Seq<char>, cwd: Seq<char>) -> Seq<(Seq<char>, JsonView)> {
    json::put(
        Seq::empty(),
        "terminal_info"@,
        JsonView::Object(
            json::put(
                json::put(Seq::empty(), "terminal_id"@, JsonView::Str(id)),
                "cwd"@,
                JsonView::Str(cwd),
            ),
        ),
    )
}

/// The value that carries output to the terminal of a call.
pub open spec fn output_value(id: Seq<char>, data: Seq<char>) -> JsonView {
    JsonView::Object(
        json::put(
            json::put(Seq::empty(), "terminal_id"@, JsonView::Str(id)),
            "data"@,
            JsonView::Str(data),
        ),
    )
}

/// The value that closes the terminal of a call.
pub open spec fn exit_value(id: Seq<char>, code: i32) -> JsonView {
    JsonView::Object(
        json::put(
            json::put(
                json::put(Seq::empty(), "terminal_id"@, JsonView::Str(id)),
                "exit_code"@,
                JsonView::Number(NumberView::Int(code as int)),
            ),
            "signal"@,
            JsonView::Null,
        ),
    )
}

/// The `_meta` that announces the terminal of a call.
pub fn bash_terminal_info_meta(tool_call_id: &str, cwd: &str) -> (r: JsonMap)
    ensures
        r@ == info_meta(tool_call_id@, cwd@),
{
    broadcast use crate::json::json_view;

    let info = JsonMap::new().with("terminal_id", Json::text(tool_call_id)).with(
        "cwd",
        Json::text(cwd),
    );
    JsonMap::new().with("terminal_info", Json::Object(info))
}

/// `meta` with output for the terminal of a call.
pub fn with_terminal_output(meta: JsonMap, tool_call_id: &str, data: &str) -> (r: JsonMap)
    ensures
        r@ == json::put(meta@, "terminal_output"@, output_value(tool_call_id@, data@)),
{
    broadcast use crate::json::json_view;

    let output = JsonMap::new().with("terminal_id", Json::text(tool_call_id)).with(
        "data",
        Json::text(data),
    );
    meta.with("terminal_output", Json::Object(output))
}

/// `meta` with the exit of the terminal of a call.
pub fn with_terminal_exit(meta: JsonMap, tool_call_id: &str, exit_code: i32) -> (r: JsonMap)
    ensures
        r@ == json::put(meta@, "terminal_exit"@, exit_value(tool_call_id@, exit_code)),
{
    broadcast use crate::json::json_view;

    let exit = JsonMap::new().with("terminal_id", Json::text(tool_call_id)).with(
        "exit_code",
        Json::signed(exit_code as i64),
    ).with("signal", Json::Null);
    meta.with("terminal_exit", Json::Object(exit))
}

/// The `_meta` that carries output to the terminal of a call.
pub fn bash_terminal_output_meta(tool_call_id: &str, data: &str) -> (r: JsonMap)
    ensures
        r@ == json::put(Seq::empty(), "terminal_output"@, output_value(tool_call_id@, data@)),
{
    with_terminal_output(JsonMap::new(), tool_call_id, data)
}

/// The `_meta` that closes the terminal of a call with an exit code.
pub fn bash_terminal_exit_meta(tool_call_id: &str, exit_code: i32) -> (r: JsonMap)
    ensures
        r@ == json::put(Seq::empty(), "terminal_exit"@, exit_value(tool_call_id@, exit_code)),
{
    with_terminal_exit(JsonMap::new(), tool_call_id, exit_code)
}

/// The tool content that shows the terminal of a call.
pub open spec fn terminal_content(tool_call_id: Seq<char>) -> Seq<JsonView> {
    seq![
        JsonView::Object(
            json::put(
                json::put(Seq::empty(), "type"@, JsonView::Str("terminal"@)),
                "terminalId"@,
                JsonView::Str(tool_call_id),
            ),
        ),
    ]
}

/// The JSON array of one value.
pub fn one_item(item: Json) -> (r: Json)
    ensures
        r@ == JsonView::Array(seq![item@]),
{
    broadcast use json::json_view;

    let mut items: Vec<Json> = Vec::new();
    items.push(item);
    assert(json::items_view(items@) =~= seq![items@[0]@]);
    Json::Array(items)
}

/// The content that embeds the terminal of a bash call.
pub fn bash_terminal_content(tool_call_id: &str) -> (r: Json)
    ensures
        r@ == JsonView::Array(terminal_content(tool_call_id@)),
{
    broadcast use json::json_view;

    one_item(
        Json::Object(
            JsonMap::new().with("type", Json::text("terminal")).with(
                "terminalId",
                Json::text(tool_call_id),
            ),
        ),
    )
}

// ---------------------------------------------------------------------------
// Laws of results
// ---------------------------------------------------------------------------

/// A terminal shows the text of a result whole: the texts of its blocks, one
/// behind the other.
pub proof fn a_terminal_shows_the_blocks(
    v: JsonView,
    items: Seq<JsonView>,
    texts: Seq<Seq<char>>,
)
    requires
        json::member(v, "content"@) == Some(JsonView::Array(items)),
        items.len() == texts.len(),
        items.len() > 0,
        forall|k: int| 0 <= k < items.len() ==> blocks::is_text(#[trigger] items[k], texts[k]),
    ensures
        terminal_text(v) == text::joined(texts, Seq::empty()),
        texts.len() == 1 ==> terminal_text(v) == texts[0],
{
    blocks::texts_are_read_in_order(items, texts);
    reveal_strlit("");
    assert(""@ =~= Seq::<char>::empty());
}

/// Without text blocks a terminal shows what was printed, the errors on a line
/// behind the rest.
pub proof fn a_terminal_shows_what_was_printed(
    v: JsonView,
    d: JsonView,
    out: Seq<char>,
    err: Seq<char>,
)
    requires
        json::member(v, "content"@) is None,
        json::member(v, "details"@) == Some(d),
        json::member(d, "stdout"@) == Some(JsonView::Str(out)),
        json::member(d, "stderr"@) == Some(JsonView::Str(err)),
    ensures
        out.len() > 0 && err.len() > 0 ==> terminal_text(v) == out + "\n"@ + err,
        err.len() == 0 ==> terminal_text(v) == out,
        out.len() == 0 ==> terminal_text(v) == err,
{
    assert(content_texts(v).len() == 0);
    let parts = kept(stdout_of(v)) + kept(stderr_of(v));
    reveal_with_fuel(text::joined, 3);
    if out.len() > 0 && err.len() > 0 {
        assert(parts =~= seq![out, err]);
        assert(parts.drop_last() =~= seq![out]);
    } else if out.len() > 0 {
        assert(parts =~= seq![out]);
    } else if err.len() > 0 {
        assert(parts =~= seq![err]);
    } else {
        assert(parts =~= Seq::<Seq<char>>::empty());
        assert(out =~= Seq::empty());
        assert(err =~= Seq::empty());
    }
}

/// The exit code is the one that the result names; without one a call that
/// failed exits with 1, any other with 0.
pub proof fn the_exit_code_is_told(v: JsonView, d: JsonView, n: int, is_error: bool)
    requires
        json::member(v, "details"@) == Some(d),
        i32::MIN <= n <= i32::MAX,
    ensures
        json::member(d, "exitCode"@) == Some(JsonView::Number(NumberView::Int(n))) ==> exit_code(
            v,
            is_error,
        ) == n,
        json::member(d, "exitCode"@) is None && json::member(v, "exitCode"@) is None
            && json::member(d, "code"@) is None && json::member(v, "code"@) is None ==> exit_code(
            v,
            is_error,
        ) == if is_error {
            1i32
        } else {
            0i32
        },
{
}

/// The command is the one that the arguments name, when it is not blank.
pub proof fn the_command_is_read(v: JsonView, command: Seq<char>)
    requires
        json::member(v, "command"@) == Some(JsonView::Str(command)),
        text::trimmed(command).len() > 0,
    ensures
        command_of(v) == Some(command),
{
}

/// Nothing is brought twice: what a frame adds to what was shown is what was
/// printed since, and all of it when the output began anew.
pub proof fn only_news_are_added(previous: Seq<char>, more: Seq<char>)
    ensures
        added(previous, previous + more) == more,
        added(Seq::empty(), more) == more,
        !text::begins(more, previous) ==> added(previous, more) == more,
{
    let next = previous + more;
    assert(next.subrange(0, previous.len() as int) =~= previous);
    assert(next.skip(previous.len() as int) =~= more);
    assert(more.subrange(0, 0) =~= Seq::<char>::empty());
    assert(more.skip(0) =~= more);
}

} // verus!
