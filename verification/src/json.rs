//! JSON values.
//!
//! [`Json`] is the value every decision in this library reads; [`JsonView`] is
//! its mathematical model. Parsing and printing are done by `serde_json`: a
//! [`serde_json::Value`] stands for the [`JsonView`] that [`value_of`] names,
//! and the two types convert into each other without loss.

use crate::text;
use vstd::prelude::*;

verus! {

/// A JSON value.
#[derive(Debug, PartialEq)]
pub enum Json {
    /// `null`.
    Null,
    /// `true` or `false`.
    Bool(bool),
    /// A number.
    Number(JsonNumber),
    /// A string.
    Str(String),
    /// An array.
    Array(Vec<Json>),
    /// An object.
    Object(JsonMap),
}

/// A JSON number: an integer that fits 64 bits, or any other number.
#[derive(Debug, PartialEq)]
pub enum JsonNumber {
    /// An integer in the unsigned range.
    Unsigned(u64),
    /// An integer in the signed range.
    Signed(i64),
    /// A number that is no 64-bit integer.
    Real(JsonReal),
}

/// A number that is no 64-bit integer: its printed form, and the value it was
/// read from.
#[derive(Debug, PartialEq)]
pub struct JsonReal {
    text: String,
    value: serde_json::Value,
}

/// The members of a JSON object, in order, each name at most once.
#[derive(Debug, PartialEq)]
pub struct JsonMap {
    entries: Vec<(String, Json)>,
}

/// The model of a number.
pub enum NumberView {
    /// An integer.
    Int(int),
    /// A number that is no 64-bit integer, by its printed form.
    Real(Seq<char>),
}

/// The model of a JSON value.
pub enum JsonView {
    /// `null`.
    Null,
    /// `true` or `false`.
    Bool(bool),
    /// A number.
    Number(NumberView),
    /// A string.
    Str(Seq<char>),
    /// An array.
    Array(Seq<JsonView>),
    /// An object: its members in order.
    Object(Seq<(Seq<char>, JsonView)>),
}

impl JsonReal {
    #[verifier::type_invariant]
    spec fn matches_value(self) -> bool {
        value_of(self.value) == JsonView::Number(NumberView::Real(self.text@))
    }

    /// The number's printed form.
    pub closed spec fn text_view(self) -> Seq<char> {
        self.text@
    }

    /// The number's printed form.
    pub fn text(&self) -> (r: &str)
        ensures
            r@ == self.text_view(),
    {
        self.text.as_str()
    }
}

impl Clone for JsonReal {
    fn clone(&self) -> (r: JsonReal)
        ensures
            r.text_view() == self.text_view(),
    {
        proof {
            use_type_invariant(self);
        }
        JsonReal { text: self.text.clone(), value: self.value.clone() }
    }
}

impl Clone for JsonNumber {
    fn clone(&self) -> (r: JsonNumber)
        ensures
            r@ == self@,
    {
        match self {
            JsonNumber::Unsigned(n) => JsonNumber::Unsigned(*n),
            JsonNumber::Signed(n) => JsonNumber::Signed(*n),
            JsonNumber::Real(x) => JsonNumber::Real(x.clone()),
        }
    }
}

impl View for JsonNumber {
    type V = NumberView;

    open spec fn view(&self) -> NumberView {
        match self {
            JsonNumber::Unsigned(n) => NumberView::Int(*n as int),
            JsonNumber::Signed(n) => NumberView::Int(*n as int),
            JsonNumber::Real(x) => NumberView::Real(x.text_view()),
        }
    }
}

impl JsonMap {
    #[verifier::type_invariant]
    spec fn distinct(self) -> bool {
        forall|i: int, j: int|
            0 <= i < j < self.entries@.len() ==> (#[trigger] self.entries@[i]).0@ != (
            #[trigger] self.entries@[j]).0@
    }
}

impl View for JsonMap {
    type V = Seq<(Seq<char>, JsonView)>;

    closed spec fn view(&self) -> Seq<(Seq<char>, JsonView)> {
        Seq::new(self.entries@.len(), |i: int| (self.entries@[i].0@, self.entries@[i].1@))
    }
}

impl View for Json {
    type V = JsonView;

    closed spec fn view(&self) -> JsonView
        decreases self,
    {
        match self {
            Json::Null => JsonView::Null,
            Json::Bool(b) => JsonView::Bool(*b),
            Json::Number(n) => JsonView::Number(n@),
            Json::Str(s) => JsonView::Str(s@),
            Json::Array(v) => JsonView::Array(
                Seq::new(
                    v@.len(),
                    |i: int|
                        if 0 <= i < v@.len() {
                            v@[i].view()
                        } else {
                            JsonView::Null
                        },
                ),
            ),
            Json::Object(m) => JsonView::Object(members_view(m.entries@)),
        }
    }
}

/// The model of a list of members.
closed spec fn members_view(es: Seq<(String, Json)>) -> Seq<(Seq<char>, JsonView)>
    decreases es,
{
    if es.len() == 0 {
        Seq::empty()
    } else {
        members_view(es.subrange(0, es.len() - 1)).push((es.last().0@, es.last().1.view()))
    }
}

/// The model of a list of members, position by position.
proof fn members_view_at(es: Seq<(String, Json)>)
    ensures
        members_view(es).len() == es.len(),
        forall|i: int|
            0 <= i < es.len() ==> #[trigger] members_view(es)[i] == (es[i].0@, es[i].1@),
    decreases es.len(),
{
    if es.len() > 0 {
        members_view_at(es.subrange(0, es.len() - 1));
        assert(members_view(es) == members_view(es.subrange(0, es.len() - 1)).push((es.last().0@, es.last().1@)));
    } else {
        assert(members_view(es) == Seq::<(Seq<char>, JsonView)>::empty());
        assert(members_view(es).len() == 0);
    }
}

/// The views of the items of an array.
pub open spec fn items_view(v: Seq<Json>) -> Seq<JsonView> {
    v.map_values(|j: Json| j@)
}

/// What each kind of value is to the model.
pub broadcast proof fn json_view(j: Json)
    ensures
        #[trigger] j@ == (match j {
            Json::Null => JsonView::Null,
            Json::Bool(b) => JsonView::Bool(b),
            Json::Number(n) => JsonView::Number(n@),
            Json::Str(s) => JsonView::Str(s@),
            Json::Array(v) => JsonView::Array(items_view(v@)),
            Json::Object(m) => JsonView::Object(m@),
        }),
{
    match j {
        Json::Array(v) => {
            assert(j@->Array_0 =~= items_view(v@));
        },
        Json::Object(m) => {
            members_view_at(m.entries@);
            assert(j@->Object_0 =~= m@);
        },
        _ => {},
    }
}

// ---------------------------------------------------------------------------
// `serde_json`
// ---------------------------------------------------------------------------

/// `serde_json::Value`: an opaque JSON value.
#[verifier::external_type_specification]
#[verifier::external_body]
pub struct ExValue(serde_json::Value);

/// `serde_json::Error`: why a text is no JSON, or a value could not be printed.
#[verifier::external_type_specification]
#[verifier::external_body]
pub struct ExJsonError(serde_json::Error);

/// The JSON value that a `serde_json::Value` holds.
pub uninterp spec fn value_of(v: serde_json::Value) -> JsonView;

/// What `serde_json::from_str` reads from a text as a `serde_json::Value`;
/// `None` when it reports an error.
pub uninterp spec fn json_in(text: Seq<char>) -> Option<JsonView>;

/// What `serde_json::to_string_pretty` prints for a value.
pub uninterp spec fn pretty_json(v: JsonView) -> Seq<char>;

/// What `serde_json::to_string` prints for a value.
pub uninterp spec fn compact_json(v: JsonView) -> Seq<char>;

/// What the number in a value is shown as once `serde_json::Value::as_f64` has
/// read it; `None` when the value holds no number.
pub uninterp spec fn float_shown(v: JsonView) -> Option<Seq<char>>;

/// One level of a `serde_json::Value`.
enum JsonNode<'a> {
    Null,
    Bool(bool),
    Number { unsigned: Option<u64>, signed: Option<i64>, text: String },
    Str(&'a String),
    Array(&'a Vec<serde_json::Value>),
    Object(Vec<(&'a String, &'a serde_json::Value)>),
}

/// One level of a value that is to become a `serde_json::Value`.
enum JsonShape {
    Null,
    Bool(bool),
    Unsigned(u64),
    Signed(i64),
    Str(String),
    Array(Vec<serde_json::Value>),
    Object(Vec<(String, serde_json::Value)>),
}

/// The values of a list.
spec fn values_view(v: Seq<serde_json::Value>) -> Seq<JsonView> {
    v.map_values(|x: serde_json::Value| value_of(x))
}

/// The model of a number that has these readings.
spec fn number_view(unsigned: Option<u64>, signed: Option<i64>, text: Seq<char>) -> NumberView {
    match (unsigned, signed) {
        (Some(n), _) => NumberView::Int(n as int),
        (None, Some(n)) => NumberView::Int(n as int),
        (None, None) => NumberView::Real(text),
    }
}

spec fn node_view(n: JsonNode<'_>) -> JsonView {
    match n {
        JsonNode::Null => JsonView::Null,
        JsonNode::Bool(b) => JsonView::Bool(b),
        JsonNode::Number { unsigned, signed, text } => JsonView::Number(
            number_view(unsigned, signed, text@),
        ),
        JsonNode::Str(s) => JsonView::Str(s@),
        JsonNode::Array(v) => JsonView::Array(values_view(v@)),
        JsonNode::Object(es) => JsonView::Object(
            es@.map_values(|e: (&String, &serde_json::Value)| (e.0@, value_of(*e.1))),
        ),
    }
}

spec fn shape_view(n: JsonShape) -> JsonView {
    match n {
        JsonShape::Null => JsonView::Null,
        JsonShape::Bool(b) => JsonView::Bool(b),
        JsonShape::Unsigned(n) => JsonView::Number(NumberView::Int(n as int)),
        JsonShape::Signed(n) => JsonView::Number(NumberView::Int(n as int)),
        JsonShape::Str(s) => JsonView::Str(s@),
        JsonShape::Array(v) => JsonView::Array(values_view(v@)),
        JsonShape::Object(es) => JsonView::Object(
            es@.map_values(|e: (String, serde_json::Value)| (e.0@, value_of(e.1))),
        ),
    }
}

/// `serde_json::from_str` reads a text as a `serde_json::Value`: the result is
/// named [`json_in`]. An object whose first member has the name [`raw_name`] is
/// read as the JSON text that this member holds (the crate's `raw_value`
/// feature), so no object that was read begins with such a member.
#[verifier::external_body]
fn parse_value(text: &str) -> (r: Result<serde_json::Value, serde_json::Error>)
    ensures
        match r {
            Ok(v) => json_in(text@) == Some(value_of(v)),
            Err(_) => json_in(text@) is None,
        },
        r is Ok ==> unmarked(value_of(r->Ok_0)),
{
    serde_json::from_str::<serde_json::Value>(text)
}

/// The variants of `serde_json::Value`, with `Number::as_u64`, `as_i64` and the
/// printed form for a number: the node holds what the value holds, and the
/// names of an object's members are distinct.
#[verifier::external_body]
fn open_value<'a>(v: &'a serde_json::Value) -> (r: JsonNode<'a>)
    ensures
        value_of(*v) == node_view(r),
        r matches JsonNode::Object(es) ==> forall|i: int, j: int|
            0 <= i < j < es@.len() ==> (#[trigger] es@[i]).0@ != (#[trigger] es@[j]).0@,
{
    match v {
        serde_json::Value::Null => JsonNode::Null,
        serde_json::Value::Bool(b) => JsonNode::Bool(*b),
        serde_json::Value::Number(n) => JsonNode::Number {
            unsigned: n.as_u64(),
            signed: n.as_i64(),
            text: n.to_string(),
        },
        serde_json::Value::String(s) => JsonNode::Str(s),
        serde_json::Value::Array(a) => JsonNode::Array(a),
        serde_json::Value::Object(m) => JsonNode::Object(m.iter().collect()),
    }
}

/// The constructors of `serde_json::Value`: the value holds what the shape
/// holds. An object keeps its members in the order given (the crate's
/// `preserve_order` feature), provided that no name occurs twice.
#[verifier::external_body]
fn close_shape(n: JsonShape) -> (r: serde_json::Value)
    requires
        n matches JsonShape::Object(es) ==> forall|i: int, j: int|
            0 <= i < j < es@.len() ==> (#[trigger] es@[i]).0@ != (#[trigger] es@[j]).0@,
    ensures
        value_of(r) == shape_view(n),
{
    match n {
        JsonShape::Null => serde_json::Value::Null,
        JsonShape::Bool(b) => serde_json::Value::Bool(b),
        JsonShape::Unsigned(n) => serde_json::Value::from(n),
        JsonShape::Signed(n) => serde_json::Value::from(n),
        JsonShape::Str(s) => serde_json::Value::String(s),
        JsonShape::Array(v) => serde_json::Value::Array(v),
        JsonShape::Object(es) => serde_json::Value::Object(es.into_iter().collect()),
    }
}

/// `Clone` of `serde_json::Value`: the copy holds the same JSON value.
pub assume_specification[ <serde_json::Value as Clone>::clone ](v: &serde_json::Value) -> (r:
    serde_json::Value)
    ensures
        value_of(r) == value_of(*v),
;

/// `serde_json::Value::as_f64`, with the number shown as a text: the text is
/// named [`float_shown`]. Every number can be read, and nothing else.
#[verifier::external_body]
fn print_float(v: &serde_json::Value) -> (r: Option<String>)
    ensures
        text::opt_text(r) == float_shown(value_of(*v)),
        r is Some == (value_of(*v) is Number),
{
    match v.as_f64() {
        Some(x) => Some(format!("{x}")),
        None => None,
    }
}

/// The name of a member that stands for a JSON text of its own where it is the
/// first of its object.
pub open spec fn raw_name() -> Seq<char> {
    "$serde_json::private::RawValue"@
}

/// Whether the first member has the name [`raw_name`].
pub open spec fn marked(es: Seq<(Seq<char>, JsonView)>) -> bool {
    es.len() > 0 && es[0].0 == raw_name()
}

/// Whether no object within a value begins with a member named [`raw_name`].
pub open spec fn unmarked(v: JsonView) -> bool
    decreases v,
{
    match v {
        JsonView::Array(items) => forall|i: int|
            0 <= i < items.len() ==> unmarked(#[trigger] items[i]),
        JsonView::Object(es) => !marked(es) && forall|i: int|
            0 <= i < es.len() ==> unmarked((#[trigger] es[i]).1),
        _ => true,
    }
}

/// Whether a value holds integers only, nests at most so deep, and has no
/// object that begins with a member named [`raw_name`].
pub open spec fn plain_within(v: JsonView, depth: nat) -> bool
    decreases depth,
{
    match v {
        JsonView::Number(NumberView::Real(_)) => false,
        JsonView::Array(items) => depth > 0 && forall|i: int|
            0 <= i < items.len() ==> plain_within(#[trigger] items[i], (depth - 1) as nat),
        JsonView::Object(es) => depth > 0 && !marked(es) && forall|i: int|
            0 <= i < es.len() ==> plain_within((#[trigger] es[i]).1, (depth - 1) as nat),
        _ => true,
    }
}

/// Whether a text reads as a value, alone and as a line.
pub open spec fn reads_as(text: Seq<char>, v: JsonView) -> bool {
    json_in(text) == Some(v) && json_in(text + "\n"@) == Some(v)
}

/// `serde_json::to_string_pretty`: it prints every `serde_json::Value`, since
/// the names of members are strings; the text is named [`pretty_json`], and
/// `serde_json::from_str` reads it back, also with a line feed behind it. The
/// latter is claimed for values without fractions, which may be rounded, that
/// nest no deeper than the parser goes and hold no object that the parser takes
/// for a JSON text of its own.
#[verifier::external_body]
fn print_pretty(v: &serde_json::Value) -> (r: Result<String, serde_json::Error>)
    ensures
        r is Ok,
        r->Ok_0@ == pretty_json(value_of(*v)),
        plain_within(value_of(*v), 127) ==> reads_as(r->Ok_0@, value_of(*v)),
{
    serde_json::to_string_pretty(v)
}

/// `serde_json::to_string`: it prints every `serde_json::Value`; the text is
/// named [`compact_json`] and holds no line feed, and `serde_json::from_str`
/// reads it back, also with a line feed behind it. The latter is claimed for
/// the same values as for the other printer.
#[verifier::external_body]
fn print_compact(v: &serde_json::Value) -> (r: Result<String, serde_json::Error>)
    ensures
        r is Ok,
        r->Ok_0@ == compact_json(value_of(*v)),
        !r->Ok_0@.contains('\n'),
        plain_within(value_of(*v), 127) ==> reads_as(r->Ok_0@, value_of(*v)),
{
    serde_json::to_string(v)
}

/// Read a `serde_json::Value` into a [`Json`].
pub fn from_value(v: &serde_json::Value) -> (r: Json)
    ensures
        r@ == value_of(*v),
    decreases value_of(*v),
{
    broadcast use json_view;

    match open_value(v) {
        JsonNode::Null => Json::Null,
        JsonNode::Bool(b) => Json::Bool(b),
        JsonNode::Number { unsigned, signed, text } => {
            match (unsigned, signed) {
                (Some(n), _) => Json::Number(JsonNumber::Unsigned(n)),
                (None, Some(n)) => Json::Number(JsonNumber::Signed(n)),
                (None, None) => Json::Number(
                    JsonNumber::Real(JsonReal { text, value: v.clone() }),
                ),
            }
        },
        JsonNode::Str(s) => Json::Str(s.clone()),
        JsonNode::Array(items) => {
            let mut out: Vec<Json> = Vec::new();
            let mut i: usize = 0;
            while i < items.len()
                invariant
                    i <= items@.len(),
                    value_of(*v) == JsonView::Array(values_view(items@)),
                    items_view(out@) == values_view(items@).take(i as int),
                decreases items.len() - i,
            {
                proof {
                    let s = value_of(*v)->Array_0;
                    assert(s[i as int] == value_of(items@[i as int]));
                    assert(decreases_to!(value_of(*v) => s));
                    assert(decreases_to!(s => s[i as int]));
                }
                let item = from_value(&items[i]);
                let ghost before = items_view(out@);
                out.push(item);
                proof {
                    assert(items_view(out@) =~= before.push(item@));
                    assert(values_view(items@).take(i + 1) =~= values_view(items@).take(
                        i as int,
                    ).push(value_of(items@[i as int])));
                }
                i += 1;
            }
            proof {
                assert(values_view(items@).take(items@.len() as int) =~= values_view(items@));
            }
            Json::Array(out)
        },
        JsonNode::Object(es) => {
            let mut out: Vec<(String, Json)> = Vec::new();
            let mut i: usize = 0;
            let ghost model = value_of(*v)->Object_0;
            while i < es.len()
                invariant
                    i <= es@.len(),
                    value_of(*v) == JsonView::Object(model),
                    model == es@.map_values(
                        |e: (&String, &serde_json::Value)| (e.0@, value_of(*e.1)),
                    ),
                    out@.len() == i,
                    forall|k: int|
                        0 <= k < i ==> (#[trigger] out@[k]).0@ == model[k].0 && out@[k].1@
                            == model[k].1,
                decreases es.len() - i,
            {
                proof {
                    assert(model[i as int].1 == value_of(*es@[i as int].1));
                    assert(decreases_to!(value_of(*v) => value_of(*v)->Object_0));
                    assert(decreases_to!(model => model[i as int]));
                    assert(decreases_to!(model[i as int] => model[i as int].1));
                }
                let value = from_value(es[i].1);
                let name = es[i].0.clone();
                out.push((name, value));
                i += 1;
            }
            proof {
                assert forall|a: int, b: int| 0 <= a < b < out@.len() implies (
                #[trigger] out@[a]).0@ != (#[trigger] out@[b]).0@ by {
                    assert(es@[a].0@ == model[a].0);
                    assert(es@[b].0@ == model[b].0);
                }
            }
            let map = JsonMap { entries: out };
            assert(map@ =~= model);
            Json::Object(map)
        },
    }
}

/// The `serde_json::Value` that holds what a [`Json`] holds.
pub fn to_value(j: &Json) -> (r: serde_json::Value)
    ensures
        value_of(r) == j@,
    decreases j,
{
    broadcast use json_view;

    match j {
        Json::Null => close_shape(JsonShape::Null),
        Json::Bool(b) => close_shape(JsonShape::Bool(*b)),
        Json::Number(JsonNumber::Unsigned(n)) => close_shape(JsonShape::Unsigned(*n)),
        Json::Number(JsonNumber::Signed(n)) => close_shape(JsonShape::Signed(*n)),
        Json::Number(JsonNumber::Real(x)) => {
            proof {
                use_type_invariant(x);
            }
            x.value.clone()
        },
        Json::Str(s) => close_shape(JsonShape::Str(s.clone())),
        Json::Array(items) => {
            let mut out: Vec<serde_json::Value> = Vec::new();
            let mut i: usize = 0;
            while i < items.len()
                invariant
                    i <= items@.len(),
                    *j == Json::Array(*items),
                    values_view(out@) == items_view(items@).take(i as int),
                decreases items.len() - i,
            {
                assert(decreases_to!(*j => j->Array_0));
                assert(decreases_to!(*items => items@));
                assert(decreases_to!(items@ => items@[i as int]));
                let item = to_value(&items[i]);
                let ghost before = values_view(out@);
                out.push(item);
                proof {
                    assert(values_view(out@) =~= before.push(value_of(item)));
                    assert(items_view(items@).take(i + 1) =~= items_view(items@).take(
                        i as int,
                    ).push(items@[i as int]@));
                }
                i += 1;
            }
            proof {
                assert(items_view(items@).take(items@.len() as int) =~= items_view(items@));
            }
            close_shape(JsonShape::Array(out))
        },
        Json::Object(map) => {
            proof {
                use_type_invariant(map);
            }
            let es = &map.entries;
            let mut out: Vec<(String, serde_json::Value)> = Vec::new();
            let mut i: usize = 0;
            while i < es.len()
                invariant
                    i <= es@.len(),
                    *j == Json::Object(*map),
                    *es == map.entries,
                    out@.len() == i,
                    forall|k: int|
                        0 <= k < i ==> (#[trigger] out@[k]).0@ == es@[k].0@ && value_of(out@[k].1)
                            == es@[k].1@,
                decreases es.len() - i,
            {
                assert(decreases_to!(*j => j->Object_0));
                assert(decreases_to!(*map => map.entries));
                assert(decreases_to!(*es => es@));
                assert(decreases_to!(es@ => es@[i as int]));
                assert(decreases_to!(es@[i as int] => es@[i as int].1));
                let value = to_value(&es[i].1);
                out.push((es[i].0.clone(), value));
                i += 1;
            }
            let shape = JsonShape::Object(out);
            assert(shape_view(shape)->Object_0 =~= map@);
            close_shape(shape)
        },
    }
}

// ---------------------------------------------------------------------------
// Parsing and printing
// ---------------------------------------------------------------------------

/// The view of an optional value.
pub open spec fn opt_view(o: Option<Json>) -> Option<JsonView> {
    match o {
        Some(j) => Some(j@),
        None => None,
    }
}

/// The view of an optional reference to a value.
pub open spec fn opt_ref(o: Option<&Json>) -> Option<JsonView> {
    match o {
        Some(j) => Some(j@),
        None => None,
    }
}

/// Parse a text; `None` when it is no JSON.
pub fn parse(text: &str) -> (r: Option<Json>)
    ensures
        opt_view(r) == json_in(text@),
        r matches Some(v) ==> unmarked(v@),
{
    match parse_value(text) {
        Ok(v) => Some(from_value(&v)),
        Err(_) => None,
    }
}

/// A number as one with a fraction: what its numeral reads as with an exponent.
pub open spec fn as_real(n: NumberView) -> NumberView {
    match n {
        NumberView::Int(i) => match json_in(text::integer(i) + "e0"@) {
            Some(JsonView::Number(x)) => x,
            _ => n,
        },
        NumberView::Real(_) => n,
    }
}

impl JsonNumber {
    /// The number as one with a fraction.
    pub fn to_real(&self) -> (r: JsonNumber)
        ensures
            r@ == as_real(self@),
    {
        broadcast use json_view;

        let numeral = match self {
            JsonNumber::Unsigned(n) => text::decimal_text(*n),
            JsonNumber::Signed(n) => text::integer_text(*n),
            JsonNumber::Real(_) => return self.clone(),
        };
        let read = parse(text::cat2(numeral.as_str(), "e0").as_str());
        match read {
            Some(Json::Number(x)) => x,
            _ => self.clone(),
        }
    }
}

impl Json {
    /// The value printed over several lines.
    pub fn pretty(&self) -> (r: String)
        ensures
            r@ == pretty_json(self@),
            plain_within(self@, 127) ==> reads_as(r@, self@),
    {
        let v = to_value(self);
        match print_pretty(&v) {
            Ok(s) => s,
            Err(_) => String::new(),
        }
    }

    /// The number that the value is, shown as a floating-point number; `None`
    /// when it is no number.
    pub fn shown_as_float(&self) -> (r: Option<String>)
        ensures
            text::opt_text(r) == float_shown(self@),
            r is Some == (self@ is Number),
    {
        let v = to_value(self);
        print_float(&v)
    }

    /// The value printed on one line.
    pub fn compact(&self) -> (r: String)
        ensures
            r@ == compact_json(self@),
            !r@.contains('\n'),
            plain_within(self@, 127) ==> reads_as(r@, self@),
    {
        let v = to_value(self);
        match print_compact(&v) {
            Ok(s) => s,
            Err(_) => String::new(),
        }
    }
}

impl Clone for Json {
    fn clone(&self) -> (r: Json)
        ensures
            r@ == self@,
    {
        let v = to_value(self);
        from_value(&v)
    }
}

// ---------------------------------------------------------------------------
// Reading
// ---------------------------------------------------------------------------

/// The value of the member called `name`.
pub open spec fn entry(es: Seq<(Seq<char>, JsonView)>, name: Seq<char>) -> Option<JsonView>
    decreases es.len(),
{
    if es.len() == 0 {
        None
    } else if es[0].0 == name {
        Some(es[0].1)
    } else {
        entry(es.skip(1), name)
    }
}

/// The member `name` of an object; `None` for other values and for an object
/// without that member.
pub open spec fn member(v: JsonView, name: Seq<char>) -> Option<JsonView> {
    match v {
        JsonView::Object(es) => entry(es, name),
        _ => None,
    }
}

/// The text of a string value.
pub open spec fn str_of(v: JsonView) -> Option<Seq<char>> {
    match v {
        JsonView::Str(s) => Some(s),
        _ => None,
    }
}

/// The items of an array.
pub open spec fn array_of(v: JsonView) -> Option<Seq<JsonView>> {
    match v {
        JsonView::Array(s) => Some(s),
        _ => None,
    }
}

/// The value of a boolean.
pub open spec fn bool_of(v: JsonView) -> Option<bool> {
    match v {
        JsonView::Bool(b) => Some(b),
        _ => None,
    }
}

/// The value of an integer in the unsigned 64-bit range.
pub open spec fn u64_of(v: JsonView) -> Option<u64> {
    match v {
        JsonView::Number(NumberView::Int(n)) => if 0 <= n <= u64::MAX {
            Some(n as u64)
        } else {
            None
        },
        _ => None,
    }
}

/// The value of an integer in the signed 64-bit range.
pub open spec fn i64_of(v: JsonView) -> Option<i64> {
    match v {
        JsonView::Number(NumberView::Int(n)) => if i64::MIN <= n <= i64::MAX {
            Some(n as i64)
        } else {
            None
        },
        _ => None,
    }
}

/// The text of the string member `name`.
pub open spec fn str_member(v: JsonView, name: Seq<char>) -> Option<Seq<char>> {
    match member(v, name) {
        Some(x) => str_of(x),
        None => None,
    }
}

/// The items of the array member `name`.
pub open spec fn array_member(v: JsonView, name: Seq<char>) -> Option<Seq<JsonView>> {
    match member(v, name) {
        Some(x) => array_of(x),
        None => None,
    }
}

/// The value of the boolean member `name`.
pub open spec fn bool_member(v: JsonView, name: Seq<char>) -> Option<bool> {
    match member(v, name) {
        Some(x) => bool_of(x),
        None => None,
    }
}

/// The value of the member `name` when it is an unsigned 64-bit integer.
pub open spec fn u64_member(v: JsonView, name: Seq<char>) -> Option<u64> {
    match member(v, name) {
        Some(x) => u64_of(x),
        None => None,
    }
}

/// The value of the member `name` when it is a signed 64-bit integer.
pub open spec fn i64_member(v: JsonView, name: Seq<char>) -> Option<i64> {
    match member(v, name) {
        Some(x) => i64_of(x),
        None => None,
    }
}

impl JsonMap {
    /// The object without members.
    pub fn new() -> (r: JsonMap)
        ensures
            r@ == Seq::<(Seq<char>, JsonView)>::empty(),
    {
        let r = JsonMap { entries: Vec::new() };
        assert(r@ =~= Seq::<(Seq<char>, JsonView)>::empty());
        r
    }

    /// How many members the object has.
    pub fn len(&self) -> (n: usize)
        ensures
            n == self@.len(),
    {
        self.entries.len()
    }

    /// The name of the member at position `i`.
    pub fn name_at(&self, i: usize) -> (r: &str)
        requires
            i < self@.len(),
        ensures
            r@ == self@[i as int].0,
    {
        self.entries[i].0.as_str()
    }

    /// The value of the member at position `i`.
    pub fn value_at(&self, i: usize) -> (r: &Json)
        requires
            i < self@.len(),
        ensures
            r@ == self@[i as int].1,
    {
        &self.entries[i].1
    }

    /// The value of the member called `name`.
    pub fn get(&self, name: &str) -> (r: Option<&Json>)
        ensures
            opt_ref(r) == entry(self@, name@),
    {
        let mut i: usize = 0;
        assert(self@.skip(0) =~= self@);
        while i < self.entries.len()
            invariant
                i <= self.entries@.len(),
                entry(self@, name@) == entry(self@.skip(i as int), name@),
            decreases self.entries.len() - i,
        {
            assert(self@.skip(i as int)[0] == self@[i as int]);
            if text::same(self.entries[i].0.as_str(), name) {
                return Some(&self.entries[i].1);
            }
            assert(self@.skip(i as int).skip(1) =~= self@.skip(i + 1));
            i += 1;
        }
        None
    }
}

impl Json {
    /// The member `name` of an object.
    pub fn get(&self, name: &str) -> (r: Option<&Json>)
        ensures
            opt_ref(r) == member(self@, name@),
    {
        broadcast use json_view;

        match self {
            Json::Object(m) => m.get(name),
            _ => None,
        }
    }

    /// The text of a string value.
    pub fn as_str(&self) -> (r: Option<&str>)
        ensures
            text::opt_str(r) == str_of(self@),
    {
        broadcast use json_view;

        match self {
            Json::Str(s) => Some(s.as_str()),
            _ => None,
        }
    }

    /// The items of an array.
    pub fn as_array(&self) -> (r: Option<&Vec<Json>>)
        ensures
            match r {
                Some(v) => array_of(self@) == Some(items_view(v@)),
                None => array_of(self@) is None,
            },
    {
        broadcast use json_view;

        match self {
            Json::Array(v) => Some(v),
            _ => None,
        }
    }

    /// The value of a boolean.
    pub fn as_bool(&self) -> (r: Option<bool>)
        ensures
            r == bool_of(self@),
    {
        broadcast use json_view;

        match self {
            Json::Bool(b) => Some(*b),
            _ => None,
        }
    }

    /// The value of an integer in the unsigned 64-bit range.
    pub fn as_u64(&self) -> (r: Option<u64>)
        ensures
            r == u64_of(self@),
    {
        broadcast use json_view;

        match self {
            Json::Number(JsonNumber::Unsigned(n)) => Some(*n),
            Json::Number(JsonNumber::Signed(n)) => if *n >= 0 {
                Some(*n as u64)
            } else {
                None
            },
            _ => None,
        }
    }

    /// The value of an integer in the signed 64-bit range.
    pub fn as_i64(&self) -> (r: Option<i64>)
        ensures
            r == i64_of(self@),
    {
        broadcast use json_view;

        match self {
            Json::Number(JsonNumber::Unsigned(n)) => if *n <= i64::MAX as u64 {
                Some(*n as i64)
            } else {
                None
            },
            Json::Number(JsonNumber::Signed(n)) => Some(*n),
            _ => None,
        }
    }

    /// Whether the value is an object.
    pub fn is_object(&self) -> (r: bool)
        ensures
            r == (self@ is Object),
    {
        broadcast use json_view;

        match self {
            Json::Object(_) => true,
            _ => false,
        }
    }

    /// Whether the value is `null`.
    pub fn is_null(&self) -> (r: bool)
        ensures
            r == (self@ is Null),
    {
        broadcast use json_view;

        match self {
            Json::Null => true,
            _ => false,
        }
    }

    /// The text of the string member `name`.
    pub fn get_str(&self, name: &str) -> (r: Option<&str>)
        ensures
            text::opt_str(r) == str_member(self@, name@),
    {
        match self.get(name) {
            Some(v) => v.as_str(),
            None => None,
        }
    }

    /// The items of the array member `name`.
    pub fn get_array(&self, name: &str) -> (r: Option<&Vec<Json>>)
        ensures
            match r {
                Some(v) => array_member(self@, name@) == Some(items_view(v@)),
                None => array_member(self@, name@) is None,
            },
    {
        match self.get(name) {
            Some(v) => v.as_array(),
            None => None,
        }
    }

    /// The value of the boolean member `name`.
    pub fn get_bool(&self, name: &str) -> (r: Option<bool>)
        ensures
            r == bool_member(self@, name@),
    {
        match self.get(name) {
            Some(v) => v.as_bool(),
            None => None,
        }
    }

    /// The value of the member `name` when it is an unsigned 64-bit integer.
    pub fn get_u64(&self, name: &str) -> (r: Option<u64>)
        ensures
            r == u64_member(self@, name@),
    {
        match self.get(name) {
            Some(v) => v.as_u64(),
            None => None,
        }
    }

    /// The value of the member `name` when it is a signed 64-bit integer.
    pub fn get_i64(&self, name: &str) -> (r: Option<i64>)
        ensures
            r == i64_member(self@, name@),
    {
        match self.get(name) {
            Some(v) => v.as_i64(),
            None => None,
        }
    }
}

// ---------------------------------------------------------------------------
// Building
// ---------------------------------------------------------------------------

/// The members `es` with `name` set to `value`: in place when the name is
/// there, behind the others when it is not.
pub open spec fn put(
    es: Seq<(Seq<char>, JsonView)>,
    name: Seq<char>,
    value: JsonView,
) -> Seq<(Seq<char>, JsonView)>
    decreases es.len(),
{
    if es.len() == 0 {
        seq![(name, value)]
    } else if es[0].0 == name {
        seq![(name, value)] + es.skip(1)
    } else {
        seq![es[0]] + put(es.skip(1), name, value)
    }
}

/// What `put` does, position by position.
proof fn put_at(es: Seq<(Seq<char>, JsonView)>, name: Seq<char>, value: JsonView, i: int)
    requires
        0 <= i <= es.len(),
        i < es.len() ==> es[i].0 == name,
        forall|j: int| 0 <= j < i ==> (#[trigger] es[j]).0 != name,
    ensures
        i < es.len() ==> put(es, name, value) == es.update(i, (name, value)),
        i == es.len() ==> put(es, name, value) == es.push((name, value)),
    decreases es.len(),
{
    if es.len() == 0 {
        assert(put(es, name, value) =~= es.push((name, value)));
    } else if es[0].0 == name {
        assert(i == 0);
        assert(put(es, name, value) =~= es.update(0, (name, value)));
    } else {
        let rest = es.skip(1);
        assert forall|j: int| 0 <= j < i - 1 implies (#[trigger] rest[j]).0 != name by {
            assert(rest[j] == es[j + 1]);
        }
        put_at(rest, name, value, i - 1);
        if i < es.len() {
            assert(seq![es[0]] + rest.update(i - 1, (name, value)) =~= es.update(i, (name, value)));
        } else {
            assert(seq![es[0]] + rest.push((name, value)) =~= es.push((name, value)));
        }
    }
}

/// Whether all values of the members are as [`plain_within`] says.
pub open spec fn members_within(es: Seq<(Seq<char>, JsonView)>, depth: nat) -> bool {
    forall|i: int| 0 <= i < es.len() ==> plain_within((#[trigger] es[i]).1, depth)
}

/// The members of a value that was read are as [`unmarked`] says.
pub proof fn entry_unmarked(es: Seq<(Seq<char>, JsonView)>, name: Seq<char>)
    requires
        forall|i: int| 0 <= i < es.len() ==> unmarked((#[trigger] es[i]).1),
    ensures
        entry(es, name) matches Some(v) ==> unmarked(v),
    decreases es.len(),
{
    if es.len() > 0 {
        let rest = es.skip(1);
        assert forall|i: int| 0 <= i < rest.len() implies unmarked((#[trigger] rest[i]).1) by {
            assert(rest[i] == es[i + 1]);
        }
        entry_unmarked(rest, name);
        assert(unmarked(es[0].1));
    }
}

/// A shorter name is not [`raw_name`].
pub proof fn short_name(name: Seq<char>)
    requires
        name.len() < 30,
    ensures
        name != raw_name(),
{
    reveal_strlit("$serde_json::private::RawValue");
}

/// Setting a member keeps the name of the first.
pub proof fn put_first(es: Seq<(Seq<char>, JsonView)>, name: Seq<char>, value: JsonView)
    ensures
        put(es, name, value).len() > 0,
        put(es, name, value)[0].0 == if es.len() > 0 {
            es[0].0
        } else {
            name
        },
{
}

/// Setting a member keeps the members plain, and the first its name.
pub proof fn put_within(
    es: Seq<(Seq<char>, JsonView)>,
    name: Seq<char>,
    value: JsonView,
    depth: nat,
)
    requires
        members_within(es, depth),
        plain_within(value, depth),
    ensures
        members_within(put(es, name, value), depth),
        put(es, name, value).len() > 0,
        put(es, name, value)[0].0 == if es.len() > 0 {
            es[0].0
        } else {
            name
        },
    decreases es.len(),
{
    if es.len() > 0 {
        let rest = es.skip(1);
        assert(members_within(rest, depth)) by {
            assert forall|i: int| 0 <= i < rest.len() implies plain_within(
                (#[trigger] rest[i]).1,
                depth,
            ) by {
                assert(rest[i] == es[i + 1]);
            }
        }
        put_within(rest, name, value, depth);
        let r = put(es, name, value);
        assert forall|i: int| 0 <= i < r.len() implies plain_within((#[trigger] r[i]).1, depth) by {
            if i > 0 {
                if es[0].0 == name {
                    assert(r[i] == rest[i - 1]);
                } else {
                    assert(r[i] == put(rest, name, value)[i - 1]);
                }
            } else {
                assert(es[0].0 == name ==> r[0] == (name, value));
                assert(es[0].0 != name ==> r[0] == es[0]);
            }
        }
    }
}

/// What nests at most so deep nests at most deeper.
pub proof fn within_more(v: JsonView, small: nat, large: nat)
    requires
        plain_within(v, small),
        small <= large,
    ensures
        plain_within(v, large),
    decreases small,
{
    match v {
        JsonView::Array(items) => {
            assert forall|i: int| 0 <= i < items.len() implies plain_within(
                #[trigger] items[i],
                (large - 1) as nat,
            ) by {
                within_more(items[i], (small - 1) as nat, (large - 1) as nat);
            }
        },
        JsonView::Object(es) => {
            assert forall|i: int| 0 <= i < es.len() implies plain_within(
                (#[trigger] es[i]).1,
                (large - 1) as nat,
            ) by {
                within_more(es[i].1, (small - 1) as nat, (large - 1) as nat);
            }
        },
        _ => {},
    }
}

/// The members `es` with `name` set when there is a value for it.
pub open spec fn put_opt(
    es: Seq<(Seq<char>, JsonView)>,
    name: Seq<char>,
    value: Option<JsonView>,
) -> Seq<(Seq<char>, JsonView)> {
    match value {
        Some(v) => put(es, name, v),
        None => es,
    }
}

/// The string value of a text, when there is one.
pub open spec fn opt_string(o: Option<Seq<char>>) -> Option<JsonView> {
    match o {
        Some(s) => Some(JsonView::Str(s)),
        None => None,
    }
}

/// The object with the given members, when there are some.
pub open spec fn opt_object(o: Option<Seq<(Seq<char>, JsonView)>>) -> Option<JsonView> {
    match o {
        Some(es) => Some(JsonView::Object(es)),
        None => None,
    }
}

impl JsonMap {
    /// The object with the member `name` set when there is a value for it.
    pub fn with_opt(self, name: &str, value: Option<Json>) -> (r: JsonMap)
        ensures
            r@ == put_opt(self@, name@, opt_view(value)),
    {
        match value {
            Some(v) => self.with(name, v),
            None => self,
        }
    }

    /// The object with the member `name` set when there is a text for it.
    pub fn with_text(self, name: &str, value: &Option<String>) -> (r: JsonMap)
        ensures
            r@ == put_opt(self@, name@, opt_string(text::opt_text(*value))),
    {
        match value {
            Some(s) => self.with(name, Json::text(s.as_str())),
            None => self,
        }
    }

    /// The object with the member `name` set to `value`.
    pub fn with(self, name: &str, value: Json) -> (r: JsonMap)
        ensures
            r@ == put(self@, name@, value@),
    {
        proof {
            use_type_invariant(&self);
        }
        let ghost before = self@;
        let mut entries = self.entries;
        let mut i: usize = 0;
        while i < entries.len() && !text::same(entries[i].0.as_str(), name)
            invariant
                i <= entries@.len(),
                forall|j: int| 0 <= j < i ==> (#[trigger] entries@[j]).0@ != name@,
            decreases entries.len() - i,
        {
            i += 1;
        }
        proof {
            assert forall|j: int| 0 <= j < i implies (#[trigger] before[j]).0 != name@ by {
                assert(entries@[j].0@ != name@);
            }
            put_at(before, name@, value@, i as int);
        }
        if i < entries.len() {
            entries.set(i, (name.to_owned(), value));
        } else {
            entries.push((name.to_owned(), value));
        }
        let r = JsonMap { entries };
        assert(r@ =~= put(before, name@, value@));
        r
    }
}

impl Clone for JsonMap {
    fn clone(&self) -> (r: JsonMap)
        ensures
            r@ == self@,
    {
        proof {
            use_type_invariant(self);
        }
        let mut out: Vec<(String, Json)> = Vec::new();
        let mut i: usize = 0;
        while i < self.entries.len()
            invariant
                i <= self.entries@.len(),
                out@.len() == i,
                forall|k: int|
                    0 <= k < i ==> (#[trigger] out@[k]).0@ == self.entries@[k].0@ && out@[k].1@
                        == self.entries@[k].1@,
            decreases self.entries.len() - i,
        {
            out.push((self.entries[i].0.clone(), self.entries[i].1.clone()));
            i += 1;
        }
        let r = JsonMap { entries: out };
        assert(r@ =~= self@);
        r
    }
}

impl Json {
    /// The JSON string with the given text.
    pub fn text(s: &str) -> (r: Json)
        ensures
            r@ == JsonView::Str(s@),
    {
        broadcast use json_view;

        Json::Str(s.to_owned())
    }

    /// The JSON array of the given texts.
    pub fn text_list(v: &Vec<String>) -> (r: Json)
        ensures
            r@ == JsonView::Array(text::texts(v@).map_values(|s: Seq<char>| JsonView::Str(s))),
    {
        broadcast use json_view;

        let mut out: Vec<Json> = Vec::new();
        let mut i: usize = 0;
        while i < v.len()
            invariant
                i <= v@.len(),
                out@.len() == i,
                forall|k: int| 0 <= k < i ==> (#[trigger] out@[k])@ == JsonView::Str(v@[k]@),
            decreases v.len() - i,
        {
            out.push(Json::text(v[i].as_str()));
            i += 1;
        }
        assert(items_view(out@) =~= text::texts(v@).map_values(|s: Seq<char>| JsonView::Str(s)));
        Json::Array(out)
    }

    /// The JSON number of an unsigned integer.
    pub fn unsigned(n: u64) -> (r: Json)
        ensures
            r@ == JsonView::Number(NumberView::Int(n as int)),
    {
        broadcast use json_view;

        Json::Number(JsonNumber::Unsigned(n))
    }

    /// The JSON number of a signed integer.
    pub fn signed(n: i64) -> (r: Json)
        ensures
            r@ == JsonView::Number(NumberView::Int(n as int)),
    {
        broadcast use json_view;

        Json::Number(JsonNumber::Signed(n))
    }
}

// ---------------------------------------------------------------------------
// Laws
// ---------------------------------------------------------------------------

/// A member that is new goes behind the others.
pub proof fn put_new(es: Seq<(Seq<char>, JsonView)>, name: Seq<char>, value: JsonView)
    requires
        forall|j: int| 0 <= j < es.len() ==> (#[trigger] es[j]).0 != name,
    ensures
        put(es, name, value) == es.push((name, value)),
{
    put_at(es, name, value, es.len() as int);
}

/// A member that was set is read back.
pub proof fn put_then_entry(es: Seq<(Seq<char>, JsonView)>, name: Seq<char>, value: JsonView)
    ensures
        entry(put(es, name, value), name) == Some(value),
    decreases es.len(),
{
    if es.len() > 0 {
        let p = put(es, name, value);
        if es[0].0 != name {
            put_then_entry(es.skip(1), name, value);
            assert(p.skip(1) =~= put(es.skip(1), name, value));
        }
    }
}

/// Setting a member leaves every other member as it was.
pub proof fn put_keeps_others(
    es: Seq<(Seq<char>, JsonView)>,
    name: Seq<char>,
    value: JsonView,
    other: Seq<char>,
)
    requires
        other != name,
    ensures
        entry(put(es, name, value), other) == entry(es, other),
    decreases es.len(),
{
    reveal_with_fuel(entry, 2);
    let p = put(es, name, value);
    if es.len() == 0 {
        assert(p.skip(1) =~= Seq::<(Seq<char>, JsonView)>::empty());
    } else if es[0].0 == name {
        assert(p.skip(1) =~= es.skip(1));
    } else {
        put_keeps_others(es.skip(1), name, value, other);
        assert(p.skip(1) =~= put(es.skip(1), name, value));
    }
}

/// What a member holds after one was set: the new value under its name, and
/// what was there under any other.
pub broadcast proof fn entry_of_put(
    es: Seq<(Seq<char>, JsonView)>,
    name: Seq<char>,
    value: JsonView,
    other: Seq<char>,
)
    ensures
        #[trigger] entry(put(es, name, value), other) == (if other == name {
            Some(value)
        } else {
            entry(es, other)
        }),
{
    if other == name {
        put_then_entry(es, name, value);
    } else {
        put_keeps_others(es, name, value, other);
    }
}

/// A member is what its record lists under its name, when the name is listed
/// once; a record without the name has no such member.
pub proof fn a_member_is_what_is_listed(es: Seq<(Seq<char>, JsonView)>, name: Seq<char>, k: int)
    requires
        0 <= k <= es.len(),
        forall|j: int| 0 <= j < k ==> (#[trigger] es[j]).0 != name,
        k < es.len() ==> es[k].0 == name,
    ensures
        k < es.len() ==> member(JsonView::Object(es), name) == Some(es[k].1),
        k == es.len() ==> member(JsonView::Object(es), name) is None,
        k < es.len() ==> (es[k].1 matches JsonView::Str(s) ==> str_member(
            JsonView::Object(es),
            name,
        ) == Some(s)),
    decreases k,
{
    if k > 0 {
        let rest = es.skip(1);
        assert forall|j: int| 0 <= j < k - 1 implies (#[trigger] rest[j]).0 != name by {
            assert(rest[j] == es[j + 1]);
        }
        if k < es.len() {
            assert(rest[k - 1] == es[k]);
        }
        a_member_is_what_is_listed(rest, name, k - 1);
        assert(es[0].0 != name);
    }
}

} // verus!
