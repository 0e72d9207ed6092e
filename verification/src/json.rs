//! JSON values: the tree that documents are read into, how to look into it,
//! and the two conversions between trees and text.

use crate::double;
use crate::float64::Double;
use crate::number;
use crate::text;
use vstd::prelude::*;

verus! {

/// A number in a document: its text, and its value as a whole number and as
/// the bits of a double where it has one.
pub struct JsonNumber {
    pub text: String,
    pub integer: Option<i64>,
    pub bits: Option<u64>,
}

/// A JSON value. An object keeps its fields in a fixed order.
pub enum Json {
    Null,
    Bool(bool),
    Number(JsonNumber),
    Text(String),
    Array(Vec<Json>),
    Object(Vec<(String, Json)>),
}

/// What a JSON value is, with strings and lists as sequences.
#[verifier::ext_equal]
pub enum JsonView {
    Null,
    Bool(bool),
    Number { text: Seq<char>, integer: Option<i64>, bits: Option<u64> },
    Text(Seq<char>),
    Array(Seq<JsonView>),
    Object(Seq<(Seq<char>, JsonView)>),
}

impl Json {
    /// The mathematical value.
    pub open spec fn view(&self) -> JsonView
        decreases self,
    {
        match self {
            Json::Null => JsonView::Null,
            Json::Bool(b) => JsonView::Bool(*b),
            Json::Number(n) => JsonView::Number {
                text: n.text@,
                integer: n.integer,
                bits: n.bits,
            },
            Json::Text(s) => JsonView::Text(s@),
            Json::Array(items) => JsonView::Array(
                Seq::new(
                    items@.len(),
                    |i: int|
                        if 0 <= i < items@.len() {
                            items@[i].view()
                        } else {
                            JsonView::Null
                        },
                ),
            ),
            Json::Object(fields) => JsonView::Object(
                Seq::new(
                    fields@.len(),
                    |i: int|
                        if 0 <= i < fields@.len() {
                            (fields@[i].0@, fields@[i].1.view())
                        } else {
                            (Seq::<char>::empty(), JsonView::Null)
                        },
                ),
            ),
        }
    }
}

/// Whether field `i` is the first one called `key`.
pub open spec fn is_field(
    fields: Seq<(Seq<char>, JsonView)>,
    key: Seq<char>,
    i: int,
) -> bool {
    &&& 0 <= i < fields.len()
    &&& fields[i].0 == key
    &&& forall|j: int| 0 <= j < i ==> (#[trigger] fields[j]).0 != key
}

/// Whether an object has a field called `key`.
pub open spec fn has_field(fields: Seq<(Seq<char>, JsonView)>, key: Seq<char>) -> bool {
    exists|i: int| is_field(fields, key, i)
}

/// The value of an object's field; nothing for other values and for objects
/// without it.
pub open spec fn field(v: JsonView, key: Seq<char>) -> Option<JsonView> {
    match v {
        JsonView::Object(fields) => if has_field(fields, key) {
            Some(fields[choose|i: int| is_field(fields, key, i)].1)
        } else {
            None
        },
        _ => None,
    }
}

/// The object's fields with `key` set to `value`: in its place where the
/// field is there, at the end otherwise.
pub open spec fn with_field(
    fields: Seq<(Seq<char>, JsonView)>,
    key: Seq<char>,
    value: JsonView,
) -> Seq<(Seq<char>, JsonView)> {
    if has_field(fields, key) {
        fields.update(choose|i: int| is_field(fields, key, i), (key, value))
    } else {
        fields.push((key, value))
    }
}

/// The text of a string value.
pub open spec fn string_of(v: JsonView) -> Option<Seq<char>> {
    match v {
        JsonView::Text(s) => Some(s),
        _ => None,
    }
}

/// The text of a field that holds a string.
pub open spec fn string_field(v: JsonView, key: Seq<char>) -> Option<Seq<char>> {
    match field(v, key) {
        Some(found) => string_of(found),
        None => None,
    }
}

/// There is at most one first field of a name.
pub proof fn lemma_field_unique(fields: Seq<(Seq<char>, JsonView)>, key: Seq<char>, i: int, j: int)
    requires
        is_field(fields, key, i),
        is_field(fields, key, j),
    ensures
        i == j,
{
    if i < j {
        assert(fields[i].0 != key);
    }
    if j < i {
        assert(fields[j].0 != key);
    }
}

/// Setting a field makes it readable under its name.
pub proof fn law_set_then_get(fields: Seq<(Seq<char>, JsonView)>, key: Seq<char>, value: JsonView)
    ensures
        field(JsonView::Object(with_field(fields, key, value)), key) == Some(value),
{
    let after = with_field(fields, key, value);
    if has_field(fields, key) {
        let i = choose|i: int| is_field(fields, key, i);
        assert(is_field(after, key, i)) by {
            assert forall|j: int| 0 <= j < i implies (#[trigger] after[j]).0 != key by {
                assert(fields[j].0 != key);
            }
        }
        let k = choose|k: int| is_field(after, key, k);
        lemma_field_unique(after, key, i, k);
    } else {
        let n = fields.len() as int;
        lemma_no_field(fields, key);
        assert(is_field(after, key, n)) by {
            assert forall|j: int| 0 <= j < n implies (#[trigger] after[j]).0 != key by {
                assert(fields[j].0 != key);
            }
        }
        let k = choose|k: int| is_field(after, key, k);
        lemma_field_unique(after, key, n, k);
    }
}

/// Without a first field of a name there is none at all.
pub proof fn lemma_no_field(fields: Seq<(Seq<char>, JsonView)>, key: Seq<char>)
    requires
        !has_field(fields, key),
    ensures
        forall|j: int| 0 <= j < fields.len() ==> (#[trigger] fields[j]).0 != key,
{
    assert forall|j: int| 0 <= j < fields.len() implies (#[trigger] fields[j]).0 != key by {
        lemma_no_field_before(fields, key, j);
    }
}

proof fn lemma_no_field_before(fields: Seq<(Seq<char>, JsonView)>, key: Seq<char>, j: int)
    requires
        !has_field(fields, key),
        0 <= j < fields.len(),
    ensures
        fields[j].0 != key,
    decreases j,
{
    assert forall|k: int| 0 <= k < j implies (#[trigger] fields[k]).0 != key by {
        lemma_no_field_before(fields, key, k);
    }
    if fields[j].0 == key {
        assert(is_field(fields, key, j));
    }
}

/// Setting a field leaves the fields of every other name as they were.
pub proof fn law_set_keeps_others(
    fields: Seq<(Seq<char>, JsonView)>,
    key: Seq<char>,
    value: JsonView,
    other: Seq<char>,
)
    requires
        other != key,
    ensures
        field(JsonView::Object(with_field(fields, key, value)), other) == field(
            JsonView::Object(fields),
            other,
        ),
{
    let after = with_field(fields, key, value);
    let at = choose|i: int| is_field(fields, key, i);
    if has_field(fields, other) {
        let i = choose|i: int| is_field(fields, other, i);
        assert(is_field(after, other, i)) by {
            assert forall|j: int| 0 <= j < i implies (#[trigger] after[j]).0 != other by {
                assert(fields[j].0 != other);
            }
        }
        let k = choose|k: int| is_field(after, other, k);
        lemma_field_unique(after, other, i, k);
    } else if has_field(after, other) {
        lemma_no_field(fields, other);
        let k = choose|k: int| is_field(after, other, k);
        if has_field(fields, key) {
            assert(after[k] == fields[k] || after[k].0 == key);
        } else {
            assert(k < fields.len() ==> after[k] == fields[k]);
        }
    }
}

/// The position of an object's field.
fn position(fields: &Vec<(String, Json)>, key: &str) -> (r: Option<usize>)
    ensures
        match r {
            Some(i) => is_field(Json::Object(*fields).view()->Object_0, key@, i as int),
            None => !has_field(Json::Object(*fields).view()->Object_0, key@),
        },
{
    let ghost view = Json::Object(*fields).view()->Object_0;
    let mut i: usize = 0;
    while i < fields.len()
        invariant
            i <= fields@.len(),
            view == Json::Object(*fields).view()->Object_0,
            view.len() == fields@.len(),
            forall|j: int| 0 <= j < i ==> (#[trigger] view[j]).0 != key@,
        decreases fields@.len() - i,
    {
        assert(view[i as int].0 == fields@[i as int].0@);
        if text::same(&fields[i].0, key) {
            return Some(i);
        }
        i = i + 1;
    }
    None
}

/// The string under `key` that comes first in a document: an object's own
/// field before those further down, and its fields and a list's items in order.
pub open spec fn found_string(v: JsonView, key: Seq<char>) -> Option<Seq<char>>
    decreases v, 1int, 0int,
{
    match v {
        JsonView::Object(fields) => match string_field(v, key) {
            Some(s) => Some(s),
            None => found_among(v, key, 0),
        },
        JsonView::Array(items) => found_among(v, key, 0),
        _ => None,
    }
}

/// The string under `key` that comes first among an object's or a list's
/// members from position `from` on.
pub open spec fn found_among(v: JsonView, key: Seq<char>, from: int) -> Option<Seq<char>>
    decreases v, 0int, member_count(v) - from,
{
    if 0 <= from < member_count(v) {
        let member = member_at(v, from);
        proof {
            match v {
                JsonView::Object(fields) => {
                    assert(decreases_to!(v => fields));
                    assert(decreases_to!(fields => fields[from]));
                    assert(decreases_to!(fields[from] => fields[from].1));
                },
                JsonView::Array(items) => {
                    assert(decreases_to!(v => items));
                    assert(decreases_to!(items => items[from]));
                },
                _ => {},
            }
        }
        match found_string(member, key) {
            Some(s) => Some(s),
            None => found_among(v, key, from + 1),
        }
    } else {
        None
    }
}

/// How many members an object or a list has.
pub open spec fn member_count(v: JsonView) -> int {
    match v {
        JsonView::Object(fields) => fields.len() as int,
        JsonView::Array(items) => items.len() as int,
        _ => 0,
    }
}

/// A member of an object or a list.
pub open spec fn member_at(v: JsonView, i: int) -> JsonView {
    match v {
        JsonView::Object(fields) => fields[i].1,
        JsonView::Array(items) => items[i],
        _ => JsonView::Null,
    }
}

impl Json {
    /// The string under `key` that comes first in the document.
    pub fn find_string(&self, key: &str) -> (r: Option<String>)
        ensures
            text::opt_view(r) == found_string(self.view(), key@),
        decreases self,
    {
        match self {
            Json::Object(fields) => {
                if let Some(s) = self.get_str(key) {
                    return Some(s.clone());
                }
                let mut i: usize = 0;
                while i < fields.len()
                    invariant
                        *self == Json::Object(*fields),
                        i <= fields@.len(),
                        found_string(self.view(), key@) == found_among(self.view(), key@, i as int),
                    decreases fields@.len() - i,
                {
                    assert(decreases_to!(self => fields));
                    assert(decreases_to!(fields => fields@));
                    assert(decreases_to!(fields@ => fields@[i as int]));
                    assert(decreases_to!(fields@[i as int] => fields@[i as int].1));
                    let found = fields[i].1.find_string(key);
                    assert(member_at(self.view(), i as int) == fields@[i as int].1.view());
                    if found.is_some() {
                        return found;
                    }
                    i = i + 1;
                }
                None
            },
            Json::Array(items) => {
                let mut i: usize = 0;
                while i < items.len()
                    invariant
                        *self == Json::Array(*items),
                        i <= items@.len(),
                        found_string(self.view(), key@) == found_among(self.view(), key@, i as int),
                    decreases items@.len() - i,
                {
                    assert(decreases_to!(self => items));
                    assert(decreases_to!(items => items@));
                    assert(decreases_to!(items@ => items@[i as int]));
                    let found = items[i].find_string(key);
                    assert(member_at(self.view(), i as int) == items@[i as int].view());
                    if found.is_some() {
                        return found;
                    }
                    i = i + 1;
                }
                None
            },
            _ => None,
        }
    }

    /// A value of its own with the same contents.
    pub fn copy(&self) -> (r: Json)
        ensures
            r.view() == self.view(),
        decreases self,
    {
        match self {
            Json::Null => Json::Null,
            Json::Bool(b) => Json::Bool(*b),
            Json::Number(n) => Json::Number(
                JsonNumber { text: n.text.clone(), integer: n.integer, bits: n.bits },
            ),
            Json::Text(s) => Json::Text(s.clone()),
            Json::Array(items) => {
                let mut out: Vec<Json> = Vec::new();
                let mut i: usize = 0;
                while i < items.len()
                    invariant
                        *self == Json::Array(*items),
                        i <= items@.len(),
                        out@.len() == i,
                        forall|j: int| 0 <= j < i ==> (#[trigger] out@[j]).view() == items@[j].view(),
                    decreases items@.len() - i,
                {
                    assert(decreases_to!(*self => self->Array_0));
                    assert(decreases_to!(items => items@));
                    assert(decreases_to!(items@ => items@[i as int]));
                    out.push(items[i].copy());
                    i = i + 1;
                }
                let r = Json::Array(out);
                assert(r.view()->Array_0 =~= self.view()->Array_0);
                r
            },
            Json::Object(fields) => {
                let mut out: Vec<(String, Json)> = Vec::new();
                let mut i: usize = 0;
                while i < fields.len()
                    invariant
                        *self == Json::Object(*fields),
                        i <= fields@.len(),
                        out@.len() == i,
                        forall|j: int|
                            0 <= j < i ==> (#[trigger] out@[j]).0@ == fields@[j].0@
                                && out@[j].1.view() == fields@[j].1.view(),
                    decreases fields@.len() - i,
                {
                    assert(decreases_to!(*self => self->Object_0));
                    assert(decreases_to!(fields => fields@));
                    assert(decreases_to!(fields@ => fields@[i as int]));
                    assert(decreases_to!(fields@[i as int] => fields@[i as int].1));
                    out.push((fields[i].0.clone(), fields[i].1.copy()));
                    i = i + 1;
                }
                let r = Json::Object(out);
                assert(r.view()->Object_0 =~= self.view()->Object_0);
                r
            },
        }
    }

    /// The value of an object's field.
    pub fn get(&self, key: &str) -> (r: Option<&Json>)
        ensures
            match r {
                Some(v) => field(self.view(), key@) == Some(v.view()),
                None => field(self.view(), key@) is None,
            },
    {
        match self {
            Json::Object(fields) => {
                match position(fields, key) {
                    Some(i) => {
                        proof {
                            let view = self.view()->Object_0;
                            let k = choose|k: int| is_field(view, key@, k);
                            lemma_field_unique(view, key@, i as int, k);
                        }
                        Some(&fields[i].1)
                    },
                    None => None,
                }
            },
            _ => None,
        }
    }

    /// The text of a string.
    pub fn as_str(&self) -> (r: Option<&String>)
        ensures
            match r {
                Some(s) => string_of(self.view()) == Some(s@),
                None => string_of(self.view()) is None,
            },
    {
        match self {
            Json::Text(s) => Some(s),
            _ => None,
        }
    }

    /// The text of a field that holds a string.
    pub fn get_str(&self, key: &str) -> (r: Option<&String>)
        ensures
            match r {
                Some(s) => string_field(self.view(), key@) == Some(s@),
                None => string_field(self.view(), key@) is None,
            },
    {
        match self.get(key) {
            Some(v) => v.as_str(),
            None => None,
        }
    }
}

/// Whether an object given by its fields has one called `key`.
pub fn contains_field(fields: &Vec<(String, Json)>, key: &str) -> (r: bool)
    ensures
        r == has_field(Json::Object(*fields).view()->Object_0, key@),
{
    position(fields, key).is_some()
}

/// Sets a field of an object given by its fields.
pub fn set_field(fields: &mut Vec<(String, Json)>, key: &str, value: Json)
    ensures
        Json::Object(*final(fields)).view()->Object_0 == with_field(
            Json::Object(*old(fields)).view()->Object_0,
            key@,
            value.view(),
        ),
{
    let ghost before = Json::Object(*old(fields)).view()->Object_0;
    match position(fields, key) {
        Some(i) => {
            proof {
                let k = choose|k: int| is_field(before, key@, k);
                lemma_field_unique(before, key@, i as int, k);
            }
            fields[i] = (key.to_string(), value);
        },
        None => {
            fields.push((key.to_string(), value));
        },
    }
    assert(Json::Object(*fields).view()->Object_0 =~= with_field(before, key@, value.view()));
}

/// A string that holds the given text.
pub fn text_value(s: &str) -> (r: Json)
    ensures
        r.view() == JsonView::Text(s@),
{
    Json::Text(s.to_string())
}

/// A whole number.
pub open spec fn int_json(n: int) -> JsonView {
    JsonView::Number {
        text: number::int_text(n),
        integer: Some(n as i64),
        bits: Some(double::bits_of(double::of_int(n))),
    }
}

/// A whole number.
pub fn int_value(n: i64) -> (r: Json)
    ensures
        r.view() == int_json(n as int),
{
    Json::Number(
        JsonNumber {
            text: number::i64_text(n),
            integer: Some(n),
            bits: Some(Double::from_i64(n).to_bits()),
        },
    )
}

/// A double; null where it is not finite.
pub open spec fn double_json(d: Double) -> JsonView {
    if d is Finite {
        JsonView::Number {
            text: number_text(double::bits_of(d))->0,
            integer: None,
            bits: Some(double::bits_of(d)),
        }
    } else {
        JsonView::Null
    }
}

/// A double; null where it is not finite.
pub fn double_value(d: Double) -> (r: Json)
    requires
        d.wf(),
    ensures
        r.view() == double_json(d),
{
    match d {
        Double::Finite { .. } => match write_double(d.to_exact_text().as_str()) {
            Some(text) => Json::Number(
                JsonNumber { text, integer: None, bits: Some(d.to_bits()) },
            ),
            None => Json::Null,
        },
        _ => Json::Null,
    }
}

/// The fields of an object.
pub open spec fn fields_of(fields: Seq<(String, Json)>) -> Seq<(Seq<char>, JsonView)> {
    fields.map_values(|f: (String, Json)| (f.0@, f.1.view()))
}

/// One field of an object.
pub fn entry(key: &str, value: Json) -> (r: (String, Json))
    ensures
        r.0@ == key@,
        r.1 == value,
{
    (key.to_string(), value)
}

/// An object of the given fields.
pub fn object(fields: Vec<(String, Json)>) -> (r: Json)
    ensures
        r.view() == JsonView::Object(fields_of(fields@)),
{
    let r: Json = Json::Object(fields);
    assert(r.view()->Object_0 =~= fields_of(fields@));
    r
}

/// A list of the given values.
pub fn array(items: Vec<Json>) -> (r: Json)
    ensures
        r.view() == JsonView::Array(items@.map_values(|v: Json| v.view())),
{
    let r: Json = Json::Array(items);
    assert(r.view()->Array_0 =~= items@.map_values(|v: Json| v.view()));
    r
}

/// `serde_json::Value`, carried between the reader, the writer and this
/// module's tree.
#[verifier::external_type_specification]
#[verifier::external_body]
pub struct ExJsonValue(serde_json::Value);

/// What `serde_json` makes of a document's bytes: the tree, or the message of
/// its refusal.
pub uninterp spec fn json_of_bytes(bytes: Seq<u8>) -> Result<JsonView, Seq<char>>;

/// The compact text that `serde_json` writes for a tree.
pub uninterp spec fn json_text(v: JsonView) -> Seq<char>;

/// How `serde_json` writes the double of given bits; nothing where it is not
/// finite.
pub uninterp spec fn number_text(bits: u64) -> Option<Seq<char>>;

/// Takes a `serde_json::Value` apart, variant by variant; a number is given by
/// its own text, `as_i64` and the bits of `as_f64`.
#[verifier::external_body]
fn from_value(value: serde_json::Value) -> (r: Json)
{
    match value {
        serde_json::Value::Null => Json::Null,
        serde_json::Value::Bool(b) => Json::Bool(b),
        serde_json::Value::Number(n) => Json::Number(JsonNumber {
            text: n.to_string(),
            integer: n.as_i64(),
            bits: n.as_f64().map(|v| v.to_bits()),
        }),
        serde_json::Value::String(s) => Json::Text(s),
        serde_json::Value::Array(items) => Json::Array(items.into_iter().map(from_value).collect()),
        serde_json::Value::Object(map) => {
            Json::Object(map.into_iter().map(|(k, v)| (k, from_value(v))).collect())
        },
    }
}

/// Builds the `serde_json::Value` of a number: the signed, the unsigned or the
/// floating one that its text writes.
#[verifier::external_body]
fn to_number(n: &JsonNumber) -> (r: serde_json::Value)
{
    match (n.integer, n.text.parse::<u64>().ok()) {
        (Some(i), _) => i.into(),
        (None, Some(u)) => u.into(),
        (None, None) => n.text.parse().ok().and_then(serde_json::Number::from_f64).into(),
    }
}

/// Builds the `serde_json::Value` of a tree, variant by variant.
#[verifier::external_body]
fn to_value(json: &Json) -> (r: serde_json::Value)
{
    match json {
        Json::Null => serde_json::Value::Null,
        Json::Bool(b) => serde_json::Value::Bool(*b),
        Json::Number(n) => to_number(n),
        Json::Text(s) => serde_json::Value::String(s.clone()),
        Json::Array(items) => serde_json::Value::Array(items.iter().map(to_value).collect()),
        Json::Object(fields) => {
            serde_json::Value::Object(fields.iter().map(|f| (f.0.clone(), to_value(&f.1))).collect())
        },
    }
}

/// `serde_json::from_slice` into a `serde_json::Value`: the tree of a
/// document, or the error's message where the bytes are no JSON. The result
/// depends on the bytes alone.
#[verifier::external_body]
fn read_bytes(bytes: &[u8]) -> (r: Result<Json, String>)
    ensures
        is_reading(r, json_of_bytes(bytes@)),
{
    serde_json::from_slice::<serde_json::Value>(bytes).map(from_value).map_err(|e| e.to_string())
}

/// `serde_json::to_string`: the compact text of a tree, which never fails for
/// a `serde_json::Value`. The result depends on the tree alone.
#[verifier::external_body]
fn write_text(json: &Json) -> (r: String)
    ensures
        r@ == json_text(json.view()),
{
    serde_json::to_string(&to_value(json)).unwrap_or_default()
}

/// `serde_json::Number::from_f64` and the number's text, for the double nearest
/// to what a decimal text writes, as `str::parse` gives it. The result depends
/// on that double alone, and is there exactly where it is finite.
#[verifier::external_body]
fn write_double(decimal: &str) -> (r: Option<String>)
    requires
        double::of_text(decimal@) is Some,
    ensures
        text::opt_view(r) == number_text(double::bits_of(double::of_text(decimal@)->0)),
        r is Some <==> double::of_text(decimal@)->0 is Finite,
{
    decimal.parse().ok().and_then(serde_json::Number::from_f64).map(|n| n.to_string())
}

/// Whether a result of reading is the given one.
pub open spec fn is_reading(r: Result<Json, String>, wanted: Result<JsonView, Seq<char>>) -> bool {
    match (r, wanted) {
        (Ok(v), Ok(w)) => v.view() == w,
        (Err(e), Err(m)) => e@ == m,
        _ => false,
    }
}

/// Reads a document.
pub fn parse(bytes: &[u8]) -> (r: Result<Json, String>)
    ensures
        is_reading(r, json_of_bytes(bytes@)),
{
    read_bytes(bytes)
}

/// Writes a tree as compact text.
pub fn to_text(json: &Json) -> (r: String)
    ensures
        r@ == json_text(json.view()),
{
    write_text(json)
}

/// An object's own string is found before any further down; what has no such
/// string of its own is searched member by member.
pub proof fn law_own_string_is_found_first(v: JsonView, key: Seq<char>, s: Seq<char>)
    ensures
        string_field(v, key) == Some(s) ==> found_string(v, key) == Some(s),
        v is Null || v is Bool || v is Number || v is Text ==> found_string(v, key) is None,
        (v is Object || v is Array) && string_field(v, key) is None && member_count(v) == 0
            ==> found_string(v, key) is None,
        (v is Object || v is Array) && string_field(v, key) is None && member_count(v) > 0
            && found_string(member_at(v, 0), key) is Some ==> found_string(v, key) == found_string(
            member_at(v, 0),
            key,
        ),
{
    reveal_with_fuel(found_among, 2);
}

} // verus!
