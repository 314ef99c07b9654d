//! Reading the members of a JSON record into typed fields.
//!
//! A required member must be there and have its type; an optional one may be
//! missing or `null`; one with a default may be missing. Anything else makes
//! the record unreadable, which the readers report as `None`.
//!
//! A record may also be a list of its fields in order; those with a default at
//! its end may be missing.

use crate::json;
use crate::json::{Json, JsonMap, JsonNumber, JsonView, NumberView};
use crate::text;
use vstd::prelude::*;
use vstd::string::*;

verus! {

/// The texts of a list of names.
pub open spec fn names_view(names: Seq<&str>) -> Seq<Seq<char>> {
    names.map_values(|n: &str| n@)
}

/// The members `base` with the items of a list under their names.
pub open spec fn spread(
    base: Seq<(Seq<char>, JsonView)>,
    names: Seq<Seq<char>>,
    items: Seq<JsonView>,
) -> Seq<(Seq<char>, JsonView)>
    decreases items.len(),
{
    if items.len() == 0 {
        base
    } else {
        json::put(spread(base, names, items.drop_last()), names[items.len() - 1], items.last())
    }
}

/// The record that a list of fields is, with the members `base` in front;
/// `null` when the list has fewer items than are needed or more than there are
/// fields.
pub open spec fn listed(
    base: Seq<(Seq<char>, JsonView)>,
    names: Seq<Seq<char>>,
    needed: nat,
    items: Seq<JsonView>,
) -> JsonView {
    if needed <= items.len() <= names.len() {
        JsonView::Object(spread(base, names, items))
    } else {
        JsonView::Null
    }
}

/// The record that a value is: a list stands for its fields in order.
pub open spec fn as_record(v: JsonView, names: Seq<Seq<char>>, needed: nat) -> JsonView {
    match v {
        JsonView::Array(items) => listed(Seq::empty(), names, needed, items),
        _ => v,
    }
}

/// Read a list of fields, from the item `from` on.
pub fn read_listed(base: JsonMap, names: &[&str], needed: usize, items: &Vec<Json>, from: usize)
    -> (r: Json)
    requires
        from <= items@.len(),
    ensures
        r@ == listed(
            base@,
            names_view(names@),
            needed as nat,
            json::items_view(items@).skip(from as int),
        ),
{
    broadcast use json::json_view;

    let ghost rest = json::items_view(items@).skip(from as int);
    let len: usize = items.len();
    let n: usize = len - from;
    if n < needed || names.len() < n {
        return Json::Null;
    }
    let mut m = base;
    let mut i: usize = 0;
    assert(rest.take(0) =~= Seq::empty());
    while i < n
        invariant
            i <= n,
            len == items@.len(),
            n == len - from,
            n <= names@.len(),
            from <= len,
            rest == json::items_view(items@).skip(from as int),
            m@ == spread(base@, names_view(names@), rest.take(i as int)),
        decreases n - i,
    {
        proof {
            assert(rest.take(i + 1).drop_last() =~= rest.take(i as int));
            assert(rest.take(i + 1).last() == items@[from + i]@);
            assert(names_view(names@)[i as int] == names@[i as int]@);
        }
        m = m.with(names[i], items[from + i].clone());
        i += 1;
    }
    assert(rest.take(i as int) =~= rest);
    Json::Object(m)
}

/// Read a list of fields as a record; `None` when the value is no list.
pub fn read_record(v: &Json, names: &[&str], needed: usize) -> (r: Option<Json>)
    ensures
        match r {
            Some(x) => v@ is Array && x@ == as_record(v@, names_view(names@), needed as nat)
                && !(x@ is Array),
            None => !(v@ is Array),
        },
{
    broadcast use json::json_view;

    match v {
        Json::Array(items) => {
            assert(json::items_view(items@).skip(0) =~= json::items_view(items@));
            Some(read_listed(JsonMap::new(), names, needed, items, 0))
        },
        _ => None,
    }
}

/// The value that one of several names is: the name, or an object with nothing
/// but `null` under the name.
pub open spec fn choice(v: JsonView) -> Option<Seq<char>> {
    match v {
        JsonView::Str(s) => Some(s),
        JsonView::Object(es) => if es.len() == 1 && es[0].1 is Null {
            Some(es[0].0)
        } else {
            None
        },
        _ => None,
    }
}

/// The value that one of several names is within an event: there the object may
/// also hold an empty object under the name.
pub open spec fn event_choice(v: JsonView) -> Option<Seq<char>> {
    match v {
        JsonView::Object(es) => if es.len() == 1 && es[0].1 == JsonView::Object(Seq::empty()) {
            Some(es[0].0)
        } else {
            choice(v)
        },
        _ => choice(v),
    }
}

/// Read one of several names.
pub fn read_choice(v: &Json) -> (r: Option<&str>)
    ensures
        text::opt_str(r) == choice(v@),
{
    broadcast use json::json_view;

    match v {
        Json::Str(s) => Some(s.as_str()),
        Json::Object(m) => if m.len() == 1 && m.value_at(0).is_null() {
            Some(m.name_at(0))
        } else {
            None
        },
        _ => None,
    }
}

/// Read one of several names within an event.
pub fn read_event_choice(v: &Json) -> (r: Option<&str>)
    ensures
        text::opt_str(r) == event_choice(v@),
{
    broadcast use json::json_view;

    if let Json::Object(m) = v {
        if m.len() == 1 {
            if let Json::Object(inner) = m.value_at(0) {
                if inner.len() == 0 {
                    assert(inner@ =~= Seq::empty());
                    return Some(m.name_at(0));
                }
            }
        }
    }
    read_choice(v)
}

/// The type tag of a record.
pub open spec fn tag(v: JsonView) -> Option<Seq<char>> {
    json::str_member(v, "type"@)
}

/// An optional string member.
pub open spec fn optional_text(v: JsonView, name: Seq<char>) -> Option<Option<Seq<char>>> {
    match json::member(v, name) {
        None => Some(None),
        Some(JsonView::Null) => Some(None),
        Some(JsonView::Str(s)) => Some(Some(s)),
        _ => None,
    }
}

/// A boolean member that is `false` when missing.
pub open spec fn flag(v: JsonView, name: Seq<char>) -> Option<bool> {
    match json::member(v, name) {
        None => Some(false),
        Some(x) => json::bool_of(x),
    }
}

/// An unsigned member that is zero when missing.
pub open spec fn count(v: JsonView, name: Seq<char>) -> Option<u64> {
    match json::member(v, name) {
        None => Some(0u64),
        Some(x) => json::u64_of(x),
    }
}

/// An optional unsigned member.
pub open spec fn optional_count(v: JsonView, name: Seq<char>) -> Option<Option<u64>> {
    match json::member(v, name) {
        None => Some(None),
        Some(JsonView::Null) => Some(None),
        Some(x) => match json::u64_of(x) {
            Some(n) => Some(Some(n)),
            None => None,
        },
    }
}

/// A required unsigned 32-bit member.
pub open spec fn small(v: JsonView, name: Seq<char>) -> Option<u32> {
    match json::u64_member(v, name) {
        Some(n) => if n <= u32::MAX {
            Some(n as u32)
        } else {
            None
        },
        None => None,
    }
}

/// A number member that is zero when missing.
pub open spec fn number(v: JsonView, name: Seq<char>) -> Option<NumberView> {
    match json::member(v, name) {
        None => Some(NumberView::Int(0)),
        Some(JsonView::Number(n)) => Some(n),
        _ => None,
    }
}

/// An array member that is empty when missing.
pub open spec fn list(v: JsonView, name: Seq<char>) -> Option<Seq<JsonView>> {
    match json::member(v, name) {
        None => Some(Seq::empty()),
        Some(x) => json::array_of(x),
    }
}

/// An optional member of any type: `null` counts as missing.
pub open spec fn optional_value(v: JsonView, name: Seq<char>) -> Option<JsonView> {
    match json::member(v, name) {
        None => None,
        Some(JsonView::Null) => None,
        Some(x) => Some(x),
    }
}

/// The texts of a list that holds nothing but strings.
pub open spec fn texts_in(items: Seq<JsonView>) -> Option<Seq<Seq<char>>>
    decreases items.len(),
{
    if items.len() == 0 {
        Some(Seq::empty())
    } else {
        match (texts_in(items.drop_last()), json::str_of(items.last())) {
            (Some(before), Some(s)) => Some(before.push(s)),
            _ => None,
        }
    }
}

/// A required member that is a list of strings.
pub open spec fn text_list(v: JsonView, name: Seq<char>) -> Option<Seq<Seq<char>>> {
    match json::array_member(v, name) {
        Some(items) => texts_in(items),
        None => None,
    }
}

/// An optional member that is a list of strings.
pub open spec fn optional_text_list(v: JsonView, name: Seq<char>) -> Option<
    Option<Seq<Seq<char>>>,
> {
    match json::member(v, name) {
        None => Some(None),
        Some(JsonView::Null) => Some(None),
        Some(JsonView::Array(items)) => match texts_in(items) {
            Some(s) => Some(Some(s)),
            None => None,
        },
        _ => None,
    }
}

/// The view of an optional list of strings.
pub open spec fn opt_texts(v: Option<Vec<String>>) -> Option<Seq<Seq<char>>> {
    match v {
        Some(x) => Some(text::texts(x@)),
        None => None,
    }
}

/// Read a required string member.
pub fn read_text(v: &Json, name: &str) -> (r: Option<String>)
    ensures
        text::opt_text(r) == json::str_member(v@, name@),
{
    match v.get_str(name) {
        Some(s) => Some(s.to_owned()),
        None => None,
    }
}

/// Read a required member of any type.
pub fn read_value(v: &Json, name: &str) -> (r: Option<Json>)
    ensures
        json::opt_view(r) == json::member(v@, name@),
{
    match v.get(name) {
        Some(x) => Some(x.clone()),
        None => None,
    }
}

/// Read an optional member of any type.
pub fn read_optional_value(v: &Json, name: &str) -> (r: Option<Json>)
    ensures
        json::opt_view(r) == optional_value(v@, name@),
{
    match v.get(name) {
        Some(x) => if x.is_null() {
            None
        } else {
            Some(x.clone())
        },
        None => None,
    }
}

/// Read an optional string member.
pub fn read_optional_text(v: &Json, name: &str) -> (r: Option<Option<String>>)
    ensures
        match r {
            Some(o) => optional_text(v@, name@) == Some(text::opt_text(o)),
            None => optional_text(v@, name@) is None,
        },
{
    broadcast use crate::json::json_view;

    match v.get(name) {
        None => Some(None),
        Some(Json::Null) => Some(None),
        Some(Json::Str(s)) => Some(Some(s.clone())),
        Some(_) => None,
    }
}

/// Read a boolean member that is `false` when missing.
pub fn read_flag(v: &Json, name: &str) -> (r: Option<bool>)
    ensures
        r == flag(v@, name@),
{
    match v.get(name) {
        None => Some(false),
        Some(x) => x.as_bool(),
    }
}

/// Read an unsigned member that is zero when missing.
pub fn read_count(v: &Json, name: &str) -> (r: Option<u64>)
    ensures
        r == count(v@, name@),
{
    match v.get(name) {
        None => Some(0),
        Some(x) => x.as_u64(),
    }
}

/// Read an optional unsigned member.
pub fn read_optional_count(v: &Json, name: &str) -> (r: Option<Option<u64>>)
    ensures
        r == optional_count(v@, name@),
{
    match v.get(name) {
        None => Some(None),
        Some(x) => if x.is_null() {
            Some(None)
        } else {
            match x.as_u64() {
                Some(n) => Some(Some(n)),
                None => None,
            }
        },
    }
}

/// Read a required unsigned 32-bit member.
pub fn read_small(v: &Json, name: &str) -> (r: Option<u32>)
    ensures
        r == small(v@, name@),
{
    match v.get_u64(name) {
        Some(n) => if n <= u32::MAX as u64 {
            Some(n as u32)
        } else {
            None
        },
        None => None,
    }
}

/// Read a number member that is zero when missing.
pub fn read_number(v: &Json, name: &str) -> (r: Option<JsonNumber>)
    ensures
        match r {
            Some(n) => number(v@, name@) == Some(n@),
            None => number(v@, name@) is None,
        },
{
    broadcast use crate::json::json_view;

    match v.get(name) {
        None => Some(JsonNumber::Unsigned(0)),
        Some(Json::Number(n)) => Some(n.clone()),
        Some(_) => None,
    }
}

fn clone_items(items: &Vec<Json>) -> (r: Vec<Json>)
    ensures
        json::items_view(r@) == json::items_view(items@),
{
    let mut r: Vec<Json> = Vec::new();
    let mut i: usize = 0;
    while i < items.len()
        invariant
            i <= items@.len(),
            r@.len() == i,
            forall|k: int| 0 <= k < i ==> (#[trigger] r@[k])@ == items@[k]@,
        decreases items.len() - i,
    {
        r.push(items[i].clone());
        i += 1;
    }
    assert(json::items_view(r@) =~= json::items_view(items@));
    r
}

/// Read a required array member.
pub fn read_items(v: &Json, name: &str) -> (r: Option<Vec<Json>>)
    ensures
        match r {
            Some(x) => json::array_member(v@, name@) == Some(json::items_view(x@)),
            None => json::array_member(v@, name@) is None,
        },
{
    match v.get_array(name) {
        Some(items) => Some(clone_items(items)),
        None => None,
    }
}

/// Read an array member that is empty when missing.
pub fn read_list(v: &Json, name: &str) -> (r: Option<Vec<Json>>)
    ensures
        match r {
            Some(x) => list(v@, name@) == Some(json::items_view(x@)),
            None => list(v@, name@) is None,
        },
{
    match v.get(name) {
        None => {
            let r: Vec<Json> = Vec::new();
            assert(json::items_view(r@) =~= Seq::empty());
            Some(r)
        },
        Some(x) => match x.as_array() {
            Some(items) => Some(clone_items(items)),
            None => None,
        },
    }
}

/// An unreadable list stays unreadable when it grows.
proof fn texts_in_prefix(items: Seq<JsonView>, i: int)
    requires
        0 <= i <= items.len(),
        texts_in(items) is Some,
    ensures
        texts_in(items.take(i)) is Some,
    decreases items.len() - i,
{
    if i == items.len() {
        assert(items.take(i) =~= items);
    } else {
        texts_in_prefix(items, i + 1);
        assert(items.take(i + 1).drop_last() =~= items.take(i));
    }
}

fn read_texts(items: &Vec<Json>) -> (r: Option<Vec<String>>)
    ensures
        match r {
            Some(x) => texts_in(json::items_view(items@)) == Some(text::texts(x@)),
            None => texts_in(json::items_view(items@)) is None,
        },
{
    let ghost model = json::items_view(items@);
    let mut r: Vec<String> = Vec::new();
    let mut i: usize = 0;
    assert(model.take(0) =~= Seq::empty());
    assert(text::texts(r@) =~= Seq::empty());
    while i < items.len()
        invariant
            i <= items@.len(),
            model == json::items_view(items@),
            texts_in(model.take(i as int)) == Some(text::texts(r@)),
        decreases items.len() - i,
    {
        proof {
            assert(model.take(i + 1).drop_last() =~= model.take(i as int));
            assert(model.take(i + 1).last() == items@[i as int]@);
        }
        let ghost before = text::texts(r@);
        match items[i].as_str() {
            Some(s) => {
                let s = s.to_owned();
                r.push(s);
                assert(text::texts(r@) =~= before.push(s@));
            },
            None => {
                proof {
                    if texts_in(model) is Some {
                        texts_in_prefix(model, i + 1);
                    }
                }
                return None;
            },
        }
        i += 1;
    }
    assert(model.take(items@.len() as int) =~= model);
    Some(r)
}

/// Read a required member that is a list of strings.
pub fn read_text_list(v: &Json, name: &str) -> (r: Option<Vec<String>>)
    ensures
        opt_texts(r) == text_list(v@, name@),
{
    match v.get_array(name) {
        Some(items) => read_texts(items),
        None => None,
    }
}

/// Read an optional member that is a list of strings.
pub fn read_optional_text_list(v: &Json, name: &str) -> (r: Option<Option<Vec<String>>>)
    ensures
        match r {
            Some(o) => optional_text_list(v@, name@) == Some(opt_texts(o)),
            None => optional_text_list(v@, name@) is None,
        },
{
    broadcast use crate::json::json_view;

    match v.get(name) {
        None => Some(None),
        Some(Json::Null) => Some(None),
        Some(Json::Array(items)) => match read_texts(items) {
            Some(x) => Some(Some(x)),
            None => None,
        },
        Some(_) => None,
    }
}

} // verus!
