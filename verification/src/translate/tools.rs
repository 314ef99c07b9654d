//! Tool results as text, and where a tool call touches files.

use crate::json;
use crate::json::{Json, JsonNumber, JsonView, NumberView};
use crate::path;
use crate::session::facts;
use crate::session::facts::{
    ToolCallFact, ToolCallView, ToolKindFact, ToolLocationFact, ToolStatusFact,
};
use crate::text;
use crate::translate::bash;
use vstd::prelude::*;
use vstd::string::*;

verus! {

// ---------------------------------------------------------------------------
// Results as text
// ---------------------------------------------------------------------------

/// Whether a number is zero. A number that is no integer prints as `0.0` or
/// `-0.0` when it is zero.
pub open spec fn is_zero(n: NumberView) -> bool {
    match n {
        NumberView::Int(i) => i == 0,
        NumberView::Real(t) => t == "0.0"@ || t == "-0.0"@,
    }
}

/// Whether a value counts as present: not `null`, `false`, zero or an empty
/// string.
pub open spec fn truthy(v: JsonView) -> bool {
    match v {
        JsonView::Null => false,
        JsonView::Bool(b) => b,
        JsonView::Number(n) => !is_zero(n),
        JsonView::Str(s) => s.len() > 0,
        JsonView::Array(_) => true,
        JsonView::Object(_) => true,
    }
}

/// Whether a value counts as present.
pub fn is_truthy(v: &Json) -> (r: bool)
    ensures
        r == truthy(v@),
{
    broadcast use crate::json::json_view;

    match v {
        Json::Null => false,
        Json::Bool(b) => *b,
        Json::Number(JsonNumber::Unsigned(n)) => *n != 0,
        Json::Number(JsonNumber::Signed(n)) => *n != 0,
        Json::Number(JsonNumber::Real(x)) => {
            !text::same(x.text(), "0.0") && !text::same(x.text(), "-0.0")
        },
        Json::Str(s) => !s.as_str().is_empty(),
        Json::Array(_) => true,
        Json::Object(_) => true,
    }
}

/// The unified diff that a result carries, when it is not blank.
pub open spec fn diff_of(v: JsonView) -> Option<Seq<char>> {
    match json::member(v, "details"@) {
        Some(d) => bash::filled_member(d, "diff"@),
        None => None,
    }
}

/// A part that counts only when it is not blank.
pub open spec fn shown_part(part: Option<Seq<char>>, prefix: Seq<char>) -> Seq<Seq<char>> {
    match part {
        Some(s) => if text::trimmed(s).len() > 0 {
            seq![prefix + s]
        } else {
            Seq::empty()
        },
        None => Seq::empty(),
    }
}

/// The exit code line of a result.
pub open spec fn exit_part(code: Option<i64>) -> Seq<Seq<char>> {
    match code {
        Some(n) => seq!["exit code: "@ + text::integer(n as int)],
        None => Seq::empty(),
    }
}

/// The output, error output and exit code of a result, when there is output.
pub open spec fn output_summary(v: JsonView) -> Option<Seq<char>> {
    let out = shown_part(bash::stdout_of(v), Seq::empty());
    let err = shown_part(bash::stderr_of(v), "stderr:\n"@);
    if out.len() > 0 || err.len() > 0 {
        Some(text::trimmed_end(text::joined(out + err + exit_part(bash::exit_of(v)), "\n\n"@)))
    } else {
        None
    }
}

/// The text that a result itself provides: nothing for a value that does not
/// count as present, else its diff, its content blocks or its output, in that
/// order; `None` when it provides none of them.
pub open spec fn own_text(v: JsonView) -> Option<Seq<char>> {
    if !truthy(v) {
        Some(Seq::empty())
    } else if diff_of(v) is Some {
        diff_of(v)
    } else if bash::content_texts(v).len() > 0 {
        Some(text::joined(bash::content_texts(v), ""@))
    } else {
        output_summary(v)
    }
}

/// A tool result as text: what it provides, else the whole value printed, so
/// that no result is dropped.
pub open spec fn result_text(v: JsonView) -> Seq<char> {
    match own_text(v) {
        Some(s) => s,
        None => json::pretty_json(v),
    }
}

fn push_shown(parts: &mut Vec<String>, part: Option<&str>, prefix: &str)
    ensures
        text::texts(final(parts)@) == text::texts(old(parts)@) + shown_part(
            text::opt_str(part),
            prefix@,
        ),
{
    let ghost before = text::texts(parts@);
    match part {
        Some(s) => if !text::trim(s).is_empty() {
            let line = text::cat2(prefix, s);
            parts.push(line);
            assert(text::texts(parts@) =~= before + seq![line@]);
        } else {
            assert(before + Seq::empty() =~= before);
        },
        None => {
            assert(before + Seq::empty() =~= before);
        },
    }
}

/// The output, error output and exit code of a result, when there is output.
pub fn output_text(result: &Json) -> (r: Option<String>)
    ensures
        text::opt_text(r) == output_summary(result@),
{
    let mut parts: Vec<String> = Vec::new();
    assert(text::texts(parts@) =~= Seq::empty());
    proof {
        reveal_strlit("");
        assert(""@ =~= Seq::<char>::empty());
    }
    push_shown(&mut parts, bash::stdout_field(result), "");
    push_shown(&mut parts, bash::detail_str(result, "stderr"), "stderr:\n");
    let ghost out = shown_part(bash::stdout_of(result@), Seq::empty());
    let ghost err = shown_part(bash::stderr_of(result@), "stderr:\n"@);
    assert(text::texts(parts@) =~= out + err);
    assert(parts@.len() == out.len() + err.len());
    if parts.len() == 0 {
        return None;
    }
    match bash::exit_field(result) {
        Some(n) => {
            let d = text::integer_text(n);
            let line = text::cat2("exit code: ", d.as_str());
            parts.push(line);
            assert(text::texts(parts@) =~= out + err + seq![line@]);
        },
        None => {
            assert(text::texts(parts@) =~= out + err + Seq::<Seq<char>>::empty());
        },
    }
    let all = text::join(&parts, "\n\n");
    Some(text::trim_end(all.as_str()).to_owned())
}

/// The text that a result itself provides.
pub fn tool_result_own_text(result: &Json) -> (r: Option<String>)
    ensures
        text::opt_text(r) == own_text(result@),
{
    if !is_truthy(result) {
        return Some(String::new());
    }
    if let Some(d) = result.get("details") {
        if let Some(diff) = d.get_str("diff") {
            if !text::trim(diff).is_empty() {
                return Some(diff.to_owned());
            }
        }
    }
    assert(diff_of(result@) is None);
    let blocks = bash::content_block_texts(result);
    assert(bash::content_texts(result@).len() == blocks@.len());
    if blocks.len() > 0 {
        return Some(text::join(&blocks, ""));
    }
    output_text(result)
}

/// A tool result as text.
pub fn tool_result_to_text(result: &Json) -> (r: String)
    ensures
        r@ == result_text(result@),
{
    if let Some(s) = tool_result_own_text(result) {
        return s;
    }
    result.pretty()
}

// ---------------------------------------------------------------------------
// Arguments
// ---------------------------------------------------------------------------

/// The string member `name` when it is not empty.
pub open spec fn nonempty_member(v: JsonView, name: Seq<char>) -> Option<Seq<char>> {
    match json::str_member(v, name) {
        Some(s) => if s.len() > 0 {
            Some(s)
        } else {
            None
        },
        None => None,
    }
}

/// The file named in a tool's arguments: `path`, else `file_path`.
pub open spec fn path_of(v: JsonView) -> Option<Seq<char>> {
    bash::either(nonempty_member(v, "path"@), nonempty_member(v, "file_path"@))
}

fn nonempty_field<'a>(v: &'a Json, name: &str) -> (r: Option<&'a str>)
    ensures
        text::opt_str(r) == nonempty_member(v@, name@),
{
    match v.get_str(name) {
        Some(s) => if s.is_empty() {
            None
        } else {
            Some(s)
        },
        None => None,
    }
}

/// The file named in a tool's arguments.
pub fn tool_path(args: &Json) -> (r: Option<String>)
    ensures
        text::opt_text(r) == path_of(args@),
{
    if let Some(s) = nonempty_field(args, "path") {
        return Some(s.to_owned());
    }
    match nonempty_field(args, "file_path") {
        Some(s) => Some(s.to_owned()),
        None => None,
    }
}

/// One replacement of an edit call.
#[derive(Debug, PartialEq, Eq)]
pub struct Edit {
    /// The text to replace.
    pub old_text: String,
    /// The text to put in its place.
    pub new_text: String,
}

/// The models of a list of replacements.
pub open spec fn edit_views(v: Seq<Edit>) -> Seq<(Seq<char>, Seq<char>)> {
    v.map_values(|e: Edit| (e.old_text@, e.new_text@))
}

/// The replacement that a record describes.
pub open spec fn edit_in(v: JsonView) -> Option<(Seq<char>, Seq<char>)> {
    match (json::str_member(v, "oldText"@), json::str_member(v, "newText"@)) {
        (Some(o), Some(n)) => Some((o, n)),
        _ => None,
    }
}

/// The replacements that the records of a list describe, in order.
pub open spec fn edits_in(items: Seq<JsonView>) -> Seq<(Seq<char>, Seq<char>)>
    decreases items.len(),
{
    if items.len() == 0 {
        Seq::empty()
    } else {
        let before = edits_in(items.drop_last());
        match edit_in(items.last()) {
            Some(e) => before.push(e),
            None => before,
        }
    }
}

/// The list of replacements in a tool's arguments: `edits` itself, or the JSON
/// that it holds as a string.
pub open spec fn edits_source(args: JsonView) -> Option<JsonView> {
    match json::str_member(args, "edits"@) {
        Some(s) => match json::json_in(s) {
            Some(v) => Some(v),
            None => json::member(args, "edits"@),
        },
        None => json::member(args, "edits"@),
    }
}

/// The replacements in a tool's arguments, given their list: the one at the
/// top level, then those of the list.
pub open spec fn edits_with(args: JsonView, source: Option<JsonView>) -> Seq<
    (Seq<char>, Seq<char>),
> {
    let top = match edit_in(args) {
        Some(e) => seq![e],
        None => Seq::empty(),
    };
    let listed = match source {
        Some(JsonView::Array(items)) => edits_in(items),
        _ => Seq::empty(),
    };
    top + listed
}

fn read_edit(v: &Json) -> (r: Option<Edit>)
    ensures
        match r {
            Some(e) => edit_in(v@) == Some((e.old_text@, e.new_text@)),
            None => edit_in(v@) is None,
        },
{
    match (v.get_str("oldText"), v.get_str("newText")) {
        (Some(o), Some(n)) => Some(Edit { old_text: o.to_owned(), new_text: n.to_owned() }),
        _ => None,
    }
}

/// The replacements in a tool's arguments, given their list.
pub fn edits_from(args: &Json, source: Option<&Json>) -> (r: Vec<Edit>)
    ensures
        edit_views(r@) == edits_with(args@, json::opt_ref(source)),
{
    let mut r: Vec<Edit> = Vec::new();
    assert(edit_views(r@) =~= Seq::empty());
    if let Some(e) = read_edit(args) {
        r.push(e);
        assert(edit_views(r@) =~= seq![(e.old_text@, e.new_text@)]);
    }
    let ghost top = edit_views(r@);
    if let Some(list) = source {
        if let Some(items) = list.as_array() {
            let ghost model = json::items_view(items@);
            let mut i: usize = 0;
            assert(model.take(0) =~= Seq::empty());
            assert(top + Seq::empty() =~= top);
            while i < items.len()
                invariant
                    i <= items@.len(),
                    model == json::items_view(items@),
                    edit_views(r@) == top + edits_in(model.take(i as int)),
                decreases items.len() - i,
            {
                let ghost before = edit_views(r@);
                proof {
                    assert(model.take(i + 1).drop_last() =~= model.take(i as int));
                    assert(model.take(i + 1).last() == items@[i as int]@);
                }
                if let Some(e) = read_edit(&items[i]) {
                    r.push(e);
                    proof {
                        assert(edit_views(r@) =~= before.push((e.old_text@, e.new_text@)));
                        assert(edit_views(r@) =~= top + edits_in(model.take(i + 1)));
                    }
                }
                i += 1;
            }
            assert(model.take(items@.len() as int) =~= model);
            return r;
        }
    }
    assert(top + Seq::empty() =~= top);
    r
}

/// The list of replacements in a tool's arguments.
fn find_edits_source(args: &Json) -> (r: Option<Json>)
    ensures
        json::opt_view(r) == edits_source(args@),
{
    if let Some(s) = args.get_str("edits") {
        if let Some(v) = json::parse(s) {
            return Some(v);
        }
    }
    match args.get("edits") {
        Some(v) => Some(v.clone()),
        None => None,
    }
}

/// The replacements in a tool's arguments: at the top level, in a list, or in
/// a list that is written as a string.
pub fn parsed_edits(args: &Json) -> (r: Vec<Edit>)
    ensures
        edit_views(r@) == edits_with(args@, edits_source(args@)),
{
    let source = find_edits_source(args);
    edits_from(args, source.as_ref())
}

/// The first occurrences of the texts of a list, in order.
pub open spec fn distinct(s: Seq<Seq<char>>) -> Seq<Seq<char>>
    decreases s.len(),
{
    if s.len() == 0 {
        Seq::empty()
    } else {
        let before = distinct(s.drop_last());
        if before.contains(s.last()) {
            before
        } else {
            before.push(s.last())
        }
    }
}

/// `distinct` keeps every text, and keeps none twice.
pub proof fn distinct_keeps_each_once(s: Seq<Seq<char>>)
    ensures
        distinct(s).no_duplicates(),
        forall|t: Seq<char>| #[trigger] distinct(s).contains(t) <==> s.contains(t),
    decreases s.len(),
{
    if s.len() > 0 {
        let init = s.drop_last();
        distinct_keeps_each_once(init);
        let before = distinct(init);
        assert(s =~= init.push(s.last()));
        assert forall|t: Seq<char>| #[trigger] distinct(s).contains(t) <==> s.contains(t) by {
            assert(s.contains(t) <==> init.contains(t) || t == s.last()) by {
                if init.contains(t) {
                    let i = choose|i: int| 0 <= i < init.len() && init[i] == t;
                    assert(s[i] == t);
                }
                if s.contains(t) && t != s.last() {
                    let i = choose|i: int| 0 <= i < s.len() && s[i] == t;
                    assert(init[i] == t);
                }
            }
            if !before.contains(s.last()) {
                let d = before.push(s.last());
                assert(d.contains(t) <==> before.contains(t) || t == s.last()) by {
                    if before.contains(t) {
                        let i = choose|i: int| 0 <= i < before.len() && before[i] == t;
                        assert(d[i] == t);
                    }
                    assert(d[before.len() as int] == s.last());
                }
            }
        }
    }
}

/// The texts to be replaced that the records of a list name, in order.
pub open spec fn old_texts_in(items: Seq<JsonView>) -> Seq<Seq<char>>
    decreases items.len(),
{
    if items.len() == 0 {
        Seq::empty()
    } else {
        let before = old_texts_in(items.drop_last());
        match json::str_member(items.last(), "oldText"@) {
            Some(t) => before.push(t),
            None => before,
        }
    }
}

/// Every mention of a text to be replaced in a tool's arguments, given the
/// list of replacements and the list written as a string: complete
/// replacements first, then lone texts.
pub open spec fn mentioned_old_texts(
    args: JsonView,
    source: Option<JsonView>,
    written: Option<JsonView>,
) -> Seq<Seq<char>> {
    edits_with(args, source).map_values(|e: (Seq<char>, Seq<char>)| e.0) + (match json::str_member(
        args,
        "oldText"@,
    ) {
        Some(t) => seq![t],
        None => Seq::empty(),
    }) + (match written {
        Some(JsonView::Array(items)) => old_texts_in(items),
        _ => Seq::empty(),
    })
}

/// The list of replacements that is written as a string.
pub open spec fn written_edits(args: JsonView) -> Option<JsonView> {
    match json::str_member(args, "edits"@) {
        Some(s) => json::json_in(s),
        None => None,
    }
}

fn push_distinct(v: &mut Vec<String>, Ghost(all): Ghost<Seq<Seq<char>>>, t: &str)
    requires
        text::texts(old(v)@) == distinct(all),
    ensures
        text::texts(final(v)@) == distinct(all.push(t@)),
{
    let mut i: usize = 0;
    let ghost before = text::texts(v@);
    assert(all.push(t@).drop_last() =~= all);
    while i < v.len()
        invariant
            i <= v@.len(),
            before == text::texts(v@),
            before == distinct(all),
            all.push(t@).drop_last() == all,
            forall|j: int| 0 <= j < i ==> (#[trigger] v@[j])@ != t@,
        decreases v.len() - i,
    {
        if text::same(v[i].as_str(), t) {
            assert(before[i as int] == t@);
            return;
        }
        i += 1;
    }
    assert(!before.contains(t@)) by {
        if before.contains(t@) {
            let j = choose|j: int| 0 <= j < before.len() && before[j] == t@;
            assert(v@[j]@ == t@);
        }
    }
    let s = t.to_owned();
    v.push(s);
    assert(text::texts(v@) =~= before.push(t@));
}

/// The distinct texts to be replaced in a tool's arguments, given the list of
/// replacements and the list written as a string.
pub fn old_texts_from(args: &Json, source: Option<&Json>, written: Option<&Json>) -> (r: Vec<
    String,
>)
    ensures
        text::texts(r@) == distinct(
            mentioned_old_texts(args@, json::opt_ref(source), json::opt_ref(written)),
        ),
{
    let edits = edits_from(args, source);
    let mut r: Vec<String> = Vec::new();
    let ghost mut all = Seq::<Seq<char>>::empty();
    assert(text::texts(r@) =~= Seq::empty());
    let ghost from_edits = edits_with(args@, json::opt_ref(source)).map_values(
        |e: (Seq<char>, Seq<char>)| e.0,
    );
    let mut i: usize = 0;
    assert(from_edits.take(0) =~= Seq::empty());
    while i < edits.len()
        invariant
            i <= edits@.len(),
            from_edits == edit_views(edits@).map_values(|e: (Seq<char>, Seq<char>)| e.0),
            all == from_edits.take(i as int),
            text::texts(r@) == distinct(all),
        decreases edits.len() - i,
    {
        push_distinct(&mut r, Ghost(all), edits[i].old_text.as_str());
        proof {
            all = all.push(edits@[i as int].old_text@);
            assert(from_edits.take(i + 1) =~= from_edits.take(i as int).push(
                edits@[i as int].old_text@,
            ));
        }
        i += 1;
    }
    assert(from_edits.take(edits@.len() as int) =~= from_edits);
    if let Some(t) = args.get_str("oldText") {
        push_distinct(&mut r, Ghost(all), t);
        proof {
            assert(all.push(t@) =~= all + seq![t@]);
            all = all.push(t@);
        }
    } else {
        assert(all + Seq::empty() =~= all);
    }
    let ghost base = all;
    if let Some(list) = written {
        if let Some(items) = list.as_array() {
            let ghost model = json::items_view(items@);
            let mut k: usize = 0;
            assert(model.take(0) =~= Seq::empty());
            assert(base + Seq::empty() =~= base);
            while k < items.len()
                invariant
                    k <= items@.len(),
                    model == json::items_view(items@),
                    all == base + old_texts_in(model.take(k as int)),
                    text::texts(r@) == distinct(all),
                decreases items.len() - k,
            {
                proof {
                    assert(model.take(k + 1).drop_last() =~= model.take(k as int));
                    assert(model.take(k + 1).last() == items@[k as int]@);
                }
                if let Some(t) = items[k].get_str("oldText") {
                    push_distinct(&mut r, Ghost(all), t);
                    proof {
                        assert(all.push(t@) =~= base + old_texts_in(model.take(k + 1)));
                        all = all.push(t@);
                    }
                }
                k += 1;
            }
            assert(model.take(items@.len() as int) =~= model);
            return r;
        }
    }
    assert(base + Seq::empty() =~= base);
    r
}

/// The distinct texts to be replaced in an edit call, in order.
pub fn edit_old_texts(args: &Json) -> (r: Vec<String>)
    ensures
        text::texts(r@) == distinct(
            mentioned_old_texts(args@, edits_source(args@), written_edits(args@)),
        ),
{
    let source = find_edits_source(args);
    let written = match args.get_str("edits") {
        Some(s) => json::parse(s),
        None => None,
    };
    old_texts_from(args, source.as_ref(), written.as_ref())
}

// ---------------------------------------------------------------------------
// Lines
// ---------------------------------------------------------------------------

/// How many line feeds a text holds.
pub open spec fn newlines(s: Seq<char>) -> nat
    decreases s.len(),
{
    if s.len() == 0 {
        0
    } else {
        newlines(s.drop_last()) + (if s.last() == '\n' {
            1nat
        } else {
            0nat
        })
    }
}

/// Whether `p` occurs in `s` at `i` and nowhere else.
pub open spec fn occurs_only_at(s: Seq<char>, p: Seq<char>, i: int) -> bool {
    text::occurs_at(s, p, i) && forall|j: int| #[trigger] text::occurs_at(s, p, j) ==> j == i
}

/// The line of the only occurrence of `p` in `s`, counted from one; `None`
/// when `p` is empty, absent or ambiguous.
pub open spec fn unique_line(s: Seq<char>, p: Seq<char>) -> Option<nat> {
    if p.len() > 0 && exists|i: int| occurs_only_at(s, p, i) {
        let i = choose|i: int| occurs_only_at(s, p, i);
        Some(newlines(s.take(i)) + 1)
    } else {
        None
    }
}

/// The 1-based line of `needle` in `text` when it occurs exactly once, and the
/// line number fits 32 bits.
pub fn find_unique_line_number(text: &str, needle: &str) -> (r: Option<u32>)
    ensures
        r == (match unique_line(text@, needle@) {
            Some(n) => if n <= u32::MAX {
                Some(n as u32)
            } else {
                None
            },
            None => None,
        }),
{
    let cs = text::chars_of(text);
    let ns = text::chars_of(needle);
    if ns.len() == 0 || ns.len() > cs.len() {
        return None;
    }
    let mut found: Option<usize> = None;
    let mut i: usize = 0;
    let last: usize = cs.len() - ns.len();
    loop
        invariant_except_break
            match found {
                Some(f) => text::occurs_at(text@, needle@, f as int) && f < i && forall|j: int|
                    0 <= j < i && #[trigger] text::occurs_at(text@, needle@, j) ==> j == f,
                None => forall|j: int| 0 <= j < i ==> !#[trigger] text::occurs_at(
                    text@,
                    needle@,
                    j,
                ),
            },
        invariant
            cs@ == text@,
            ns@ == needle@,
            ns@.len() > 0,
            last == cs@.len() - ns@.len(),
            i <= last,
        ensures
            match found {
                Some(f) => occurs_only_at(text@, needle@, f as int),
                None => forall|j: int| !#[trigger] text::occurs_at(text@, needle@, j),
            },
        decreases last - i,
    {
        if text::matches_at(&cs, &ns, i) {
            if let Some(f) = found {
                proof {
                    assert forall|k: int| !occurs_only_at(text@, needle@, k) by {
                        assert(text::occurs_at(text@, needle@, f as int));
                        assert(text::occurs_at(text@, needle@, i as int));
                    }
                }
                return None;
            }
            found = Some(i);
        }
        if i == last {
            break;
        }
        i += 1;
    }
    match found {
        None => {
            assert forall|k: int| !occurs_only_at(text@, needle@, k) by {}
            None
        },
        Some(f) => {
            proof {
                assert(occurs_only_at(text@, needle@, f as int));
                let c = choose|i: int| occurs_only_at(text@, needle@, i);
                assert(text::occurs_at(text@, needle@, c));
                assert(c == f);
            }
            let mut count: u64 = 0;
            let mut k: usize = 0;
            assert(text@.take(0) =~= Seq::empty());
            while k < f
                invariant
                    k <= f <= cs@.len(),
                    cs@ == text@,
                    count == newlines(text@.take(k as int)),
                    count <= k,
                decreases f - k,
            {
                proof {
                    assert(text@.take(k + 1).drop_last() =~= text@.take(k as int));
                    assert(text@.take(k + 1).last() == text@[k as int]);
                }
                if cs[k] == '\n' {
                    count += 1;
                }
                k += 1;
            }
            if count < u32::MAX as u64 {
                Some((count + 1) as u32)
            } else {
                None
            }
        },
    }
}

// ---------------------------------------------------------------------------
// Kinds and locations
// ---------------------------------------------------------------------------

/// The kind of work that a tool of pi does.
pub open spec fn tool_kind(name: Seq<char>) -> ToolKindFact {
    if name == "read"@ {
        ToolKindFact::Read
    } else if name == "write"@ || name == "edit"@ {
        ToolKindFact::Edit
    } else if name == "bash"@ {
        ToolKindFact::Execute
    } else {
        ToolKindFact::Other
    }
}

/// The kind of work that a tool of pi does.
pub fn to_tool_kind(tool_name: &str) -> (r: ToolKindFact)
    ensures
        r == tool_kind(tool_name@),
{
    if text::same(tool_name, "read") {
        ToolKindFact::Read
    } else if text::same(tool_name, "write") || text::same(tool_name, "edit") {
        ToolKindFact::Edit
    } else if text::same(tool_name, "bash") {
        ToolKindFact::Execute
    } else {
        ToolKindFact::Other
    }
}

/// The file that a tool's arguments name, seen from the working directory.
pub open spec fn locations_of(
    args: JsonView,
    cwd: Seq<char>,
    line: Option<u32>,
    windows: bool,
) -> Seq<(Seq<char>, Option<u32>)> {
    match path_of(args) {
        Some(p) => seq![(path::resolved(cwd, p, windows), line)],
        None => Seq::empty(),
    }
}

/// The places that a tool call touches.
pub fn to_tool_call_locations(args: &Json, cwd: &str, line: Option<u32>, windows: bool) -> (r: Vec<
    ToolLocationFact,
>)
    ensures
        facts::location_views(r@) == locations_of(args@, cwd@, line, windows),
{
    let mut r: Vec<ToolLocationFact> = Vec::new();
    if let Some(p) = tool_path(args) {
        let path = path::resolve_path(cwd, p.as_str(), windows);
        r.push(ToolLocationFact { path, line });
        assert(facts::location_views(r@) =~= seq![(path@, line)]);
    } else {
        assert(facts::location_views(r@) =~= Seq::empty());
    }
    r
}

/// The frame that opens a call of a tool other than bash.
pub fn tool_call_from_parts(
    session_id: &str,
    tool_call_id: &str,
    title: &str,
    kind: ToolKindFact,
    status: ToolStatusFact,
    locations: Vec<ToolLocationFact>,
    raw_input: Option<Json>,
) -> (r: ToolCallFact)
    ensures
        r@ == (ToolCallView {
            session_id: session_id@,
            tool_call_id: tool_call_id@,
            first: true,
            title: Some(title@),
            kind: Some(kind),
            status: Some(status),
            content: None,
            locations: facts::location_views(locations@),
            raw_input: json::opt_view(raw_input),
            raw_output: None,
            meta: None,
        }),
{
    ToolCallFact {
        session_id: session_id.to_owned(),
        tool_call_id: tool_call_id.to_owned(),
        first: true,
        title: Some(title.to_owned()),
        kind: Some(kind),
        status: Some(status),
        content: None,
        locations,
        raw_input,
        raw_output: None,
        meta: None,
    }
}

// ---------------------------------------------------------------------------
// Laws
// ---------------------------------------------------------------------------

/// The text of a result is its text blocks, one behind the other, when it says
/// nothing of a change.
pub proof fn a_result_shows_its_blocks(
    v: JsonView,
    items: Seq<JsonView>,
    texts: Seq<Seq<char>>,
)
    requires
        json::member(v, "details"@) is None,
        json::member(v, "content"@) == Some(JsonView::Array(items)),
        items.len() == texts.len(),
        items.len() > 0,
        forall|k: int|
            0 <= k < items.len() ==> crate::translate::blocks::is_text(
                #[trigger] items[k],
                texts[k],
            ),
    ensures
        result_text(v) == text::joined(texts, Seq::empty()),
        texts.len() == 1 ==> result_text(v) == texts[0],
{
    crate::translate::blocks::texts_are_read_in_order(items, texts);
    reveal_strlit("");
    assert(""@ =~= Seq::<char>::empty());
    assert(v is Object);
}

/// The text of a result that tells of a change is the change, as it is told.
pub proof fn a_result_shows_its_change(v: JsonView, d: JsonView, diff: Seq<char>)
    requires
        json::member(v, "details"@) == Some(d),
        json::member(d, "diff"@) == Some(JsonView::Str(diff)),
        text::trimmed(diff).len() > 0,
    ensures
        result_text(v) == diff,
{
    assert(v is Object);
}

/// The text of a result without blocks is what was printed, its errors marked
/// as such, and the exit code.
pub proof fn a_result_shows_what_was_printed(
    v: JsonView,
    d: JsonView,
    out: Seq<char>,
    err: Seq<char>,
    code: int,
)
    requires
        json::member(v, "content"@) is None,
        json::member(v, "details"@) == Some(d),
        json::member(d, "diff"@) is None,
        json::member(d, "stdout"@) == Some(JsonView::Str(out)),
        json::member(d, "stderr"@) == Some(JsonView::Str(err)),
        json::member(d, "exitCode"@) == Some(JsonView::Number(NumberView::Int(code))),
        i64::MIN <= code <= i64::MAX,
        text::trimmed(out).len() > 0,
        text::trimmed(err).len() > 0,
    ensures
        result_text(v) == text::trimmed_end(
            out + "\n\n"@ + ("stderr:\n"@ + err) + "\n\n"@ + ("exit code: "@ + text::integer(
                code,
            )),
        ),
{
    assert(v is Object);
    assert(bash::content_texts(v).len() == 0);
    let parts = shown_part(bash::stdout_of(v), Seq::empty()) + shown_part(
        bash::stderr_of(v),
        "stderr:\n"@,
    ) + exit_part(bash::exit_of(v));
    assert(Seq::<char>::empty() + out =~= out);
    let last = "exit code: "@ + text::integer(code);
    assert(parts =~= seq![out, "stderr:\n"@ + err, last]);
    reveal_with_fuel(text::joined, 4);
    assert(parts.drop_last() =~= seq![out, "stderr:\n"@ + err]);
    assert(seq![out, "stderr:\n"@ + err].drop_last() =~= seq![out]);
}

/// A result that says nothing readable is shown as it is, in JSON.
pub proof fn other_results_are_shown_as_they_are(v: JsonView)
    requires
        v is Object,
        json::member(v, "details"@) is None,
        json::member(v, "content"@) is None,
        json::member(v, "stdout"@) is None,
        json::member(v, "output"@) is None,
        json::member(v, "stderr"@) is None,
    ensures
        result_text(v) == json::pretty_json(v),
{
    assert(bash::content_texts(v).len() == 0);
}

/// The file that arguments name is under `path`, else under `file_path`.
pub proof fn the_file_is_read(v: JsonView, p: Seq<char>)
    requires
        p.len() > 0,
    ensures
        json::member(v, "path"@) == Some(JsonView::Str(p)) ==> path_of(v) == Some(p),
        json::member(v, "path"@) is None && json::member(v, "file_path"@) == Some(
            JsonView::Str(p),
        ) ==> path_of(v) == Some(p),
        json::member(v, "path"@) is None && json::member(v, "file_path"@) is None ==> path_of(v)
            is None,
{
}

/// The edits that arguments list are read all, in order, each with the text it
/// replaces and the text it puts there.
pub proof fn edits_are_read_in_order(items: Seq<JsonView>, edits: Seq<(Seq<char>, Seq<char>)>)
    requires
        items.len() == edits.len(),
        forall|k: int|
            0 <= k < items.len() ==> json::member(#[trigger] items[k], "oldText"@) == Some(
                JsonView::Str(edits[k].0),
            ) && json::member(items[k], "newText"@) == Some(JsonView::Str(edits[k].1)),
    ensures
        edits_in(items) == edits,
    decreases items.len(),
{
    if items.len() == 0 {
        assert(edits =~= Seq::empty());
    } else {
        let front = items.drop_last();
        assert forall|k: int| 0 <= k < front.len() implies json::member(
            #[trigger] front[k],
            "oldText"@,
        ) == Some(JsonView::Str(edits.drop_last()[k].0)) && json::member(front[k], "newText"@)
            == Some(JsonView::Str(edits.drop_last()[k].1)) by {
            assert(front[k] == items[k]);
        }
        edits_are_read_in_order(front, edits.drop_last());
        let last = items[items.len() - 1];
        assert(json::member(last, "oldText"@) == Some(JsonView::Str(edits.last().0)));
        assert(edits.drop_last().push(edits.last()) =~= edits);
    }
}

/// The lines before a place are counted by the line ends before it.
pub proof fn newlines_add_up(a: Seq<char>, b: Seq<char>)
    ensures
        newlines(a + b) == newlines(a) + newlines(b),
        newlines(seq!['\n']) == 1,
        newlines(Seq::empty()) == 0,
        (forall|j: int| 0 <= j < a.len() ==> a[j] != '\n') ==> newlines(a) == 0,
    decreases a.len() + b.len(),
{
    reveal_with_fuel(newlines, 2);
    assert(seq!['\n'].drop_last() =~= Seq::<char>::empty());
    if b.len() > 0 {
        newlines_add_up(a, b.drop_last());
        assert((a + b).drop_last() =~= a + b.drop_last());
    } else {
        assert(a + b =~= a);
        if a.len() > 0 {
            newlines_add_up(a.drop_last(), b);
            if forall|j: int| 0 <= j < a.len() ==> a[j] != '\n' {
                assert(forall|j: int|
                    0 <= j < a.drop_last().len() ==> a.drop_last()[j] != '\n') by {
                    assert forall|j: int| 0 <= j < a.drop_last().len() implies a.drop_last()[j]
                        != '\n' by {
                        assert(a.drop_last()[j] == a[j]);
                    }
                }
                assert(a[a.len() - 1] != '\n');
            }
        }
    }
}

} // verus!
