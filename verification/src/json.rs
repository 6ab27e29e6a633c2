//! JSON values, as `serde_json` holds them.

use vstd::prelude::*;

verus! {

/// A JSON value: null, true or false, a number, a text, a list or an object.
#[verifier::external_type_specification]
#[verifier::external_body]
pub struct ExValue(serde_json::Value);

/// What a JSON value holds. A number is an unsigned or a negative integer, or the bits of an
/// IEEE 754 double.
pub enum JsonView {
    Null,
    Bool(bool),
    Unsigned(u64),
    Negative(i64),
    Float(u64),
    Text(Seq<char>),
    List(Seq<JsonView>),
    Object(Map<Seq<char>, JsonView>),
}

/// What `v` holds.
pub uninterp spec fn json_view(v: serde_json::Value) -> JsonView;

/// What `serde_json::from_str` makes of a text: a value, or its error in words.
pub uninterp spec fn json_parsed(text: Seq<char>) -> Result<JsonView, Seq<char>>;

/// The compact text of a value.
pub uninterp spec fn json_rendered(v: JsonView) -> Seq<char>;

/// The bits of the double nearest to an integer.
pub uninterp spec fn integer_float_bits(n: int) -> u64;

/// What `str::parse` makes of a text read as a double: the number as a JSON value, which is null
/// where it is not finite, or the error in words.
pub uninterp spec fn coordinate_parsed(text: Seq<char>) -> Result<JsonView, Seq<char>>;

/// Without fractions, and with lists and objects nested at most `depth` deep.
pub open spec fn is_plain(v: JsonView, depth: nat) -> bool
    decreases depth,
{
    match v {
        JsonView::Float(_) => false,
        JsonView::Negative(n) => n < 0,
        JsonView::List(items) => depth > 0 && forall|i: int|
            0 <= i < items.len() ==> is_plain(#[trigger] items[i], (depth - 1) as nat),
        JsonView::Object(m) => depth > 0 && forall|k: Seq<char>|
            m.contains_key(k) ==> is_plain(#[trigger] m[k], (depth - 1) as nat),
        _ => true,
    }
}

/// `serde_json::from_str`: the value that a text spells, or the error in words.
#[verifier::external_body]
pub(crate) fn parse(text: &str) -> (r: Result<serde_json::Value, String>)
    ensures
        match r {
            Ok(v) => json_parsed(text@) == Ok::<JsonView, Seq<char>>(json_view(v)),
            Err(e) => json_parsed(text@) == Err::<JsonView, Seq<char>>(e@),
        },
{
    match serde_json::from_str(text) {
        Ok(v) => Ok(v),
        Err(e) => Err(e.to_string()),
    }
}

/// `to_string` of a JSON value: its compact text. Reading the text back gives the value, where
/// it holds no fraction and is not nested so deeply that the reader gives up.
#[verifier::external_body]
pub(crate) fn render(v: &serde_json::Value) -> (r: String)
    ensures
        r@ == json_rendered(json_view(*v)),
        is_plain(json_view(*v), 100) ==> json_parsed(r@) is Ok && json_parsed(r@)->Ok_0
            == json_view(*v),
{
    v.to_string()
}

/// The member of an object.
pub open spec fn member_of(v: JsonView, key: Seq<char>) -> Option<JsonView> {
    match v {
        JsonView::Object(m) => if m.contains_key(key) {
            Some(m[key])
        } else {
            None
        },
        _ => None,
    }
}

/// `Value::get` with a text: the member of an object under that key.
#[verifier::external_body]
pub(crate) fn member<'a>(v: &'a serde_json::Value, key: &str) -> (r: Option<&'a serde_json::Value>)
    ensures
        match r {
            Some(x) => member_of(json_view(*v), key@) == Some(json_view(*x)),
            None => member_of(json_view(*v), key@) is None,
        },
{
    v.get(key)
}

/// `Value::as_str`: the text, where the value is one.
#[verifier::external_body]
pub(crate) fn as_text(v: &serde_json::Value) -> (r: Option<&str>)
    ensures
        match r {
            Some(s) => json_view(*v) == JsonView::Text(s@),
            None => !(json_view(*v) is Text),
        },
{
    v.as_str()
}

/// `Value::as_u64`: the number, where the value is an unsigned integer.
#[verifier::external_body]
pub(crate) fn as_unsigned(v: &serde_json::Value) -> (r: Option<u64>)
    ensures
        match r {
            Some(n) => json_view(*v) == JsonView::Unsigned(n),
            None => !(json_view(*v) is Unsigned),
        },
{
    v.as_u64()
}

/// `Value::as_bool`: true or false, where the value is one of the two.
#[verifier::external_body]
pub(crate) fn as_bool(v: &serde_json::Value) -> (r: Option<bool>)
    ensures
        match r {
            Some(b) => json_view(*v) == JsonView::Bool(b),
            None => !(json_view(*v) is Bool),
        },
{
    v.as_bool()
}

/// A number as the bits of a double.
pub open spec fn float_bits(v: JsonView) -> Option<u64> {
    match v {
        JsonView::Float(bits) => Some(bits),
        JsonView::Unsigned(n) => Some(integer_float_bits(n as int)),
        JsonView::Negative(n) => Some(integer_float_bits(n as int)),
        _ => None,
    }
}

/// `Value::as_f64`: the number as a double, here by its bits.
#[verifier::external_body]
pub(crate) fn as_float_bits(v: &serde_json::Value) -> (r: Option<u64>)
    ensures
        r == (match json_view(*v) {
            JsonView::Float(bits) => Some(bits),
            JsonView::Unsigned(n) => Some(integer_float_bits(n as int)),
            JsonView::Negative(n) => Some(integer_float_bits(n as int)),
            _ => None,
        }),
{
    v.as_f64().map(|x| x.to_bits())
}

/// An object without members: `Value::Object` of an empty `serde_json::Map`.
#[verifier::external_body]
pub(crate) fn object() -> (r: serde_json::Value)
    ensures
        json_view(r) == JsonView::Object(Map::empty()),
{
    serde_json::Value::Object(serde_json::Map::new())
}

/// The object with one member set; any other value as it is.
pub open spec fn put(v: JsonView, key: Seq<char>, item: JsonView) -> JsonView {
    match v {
        JsonView::Object(m) => JsonView::Object(m.insert(key, item)),
        _ => v,
    }
}

/// `Map::insert` on the members of an object, reached through `Value::as_object_mut`.
#[verifier::external_body]
pub(crate) fn set_member(v: &mut serde_json::Value, key: &str, item: serde_json::Value)
    ensures
        json_view(*final(v)) == put(json_view(*old(v)), key@, json_view(item)),
{
    if let Some(members) = v.as_object_mut() {
        members.insert(key.to_string(), item);
    }
}

/// `Value::from` a text.
#[verifier::external_body]
pub(crate) fn text(s: &str) -> (r: serde_json::Value)
    ensures
        json_view(r) == JsonView::Text(s@),
{
    serde_json::Value::from(s)
}

/// `Value::from` true or false.
#[verifier::external_body]
pub(crate) fn boolean(b: bool) -> (r: serde_json::Value)
    ensures
        json_view(r) == JsonView::Bool(b),
{
    serde_json::Value::from(b)
}

/// `Value::from` an unsigned integer.
#[verifier::external_body]
pub(crate) fn unsigned(n: u64) -> (r: serde_json::Value)
    ensures
        json_view(r) == JsonView::Unsigned(n),
{
    serde_json::Value::from(n)
}

pub open spec fn json_views(v: Seq<serde_json::Value>) -> Seq<JsonView> {
    v.map_values(|x: serde_json::Value| json_view(x))
}

/// `Value::Array` of the items.
#[verifier::external_body]
pub(crate) fn list(items: Vec<serde_json::Value>) -> (r: serde_json::Value)
    ensures
        json_view(r) == JsonView::List(json_views(items@)),
{
    serde_json::Value::Array(items)
}

/// `Value::from` a signed integer.
#[verifier::external_body]
pub(crate) fn signed(n: i64) -> (r: serde_json::Value)
    ensures
        json_view(r) == (if n < 0 {
            JsonView::Negative(n)
        } else {
            JsonView::Unsigned(n as u64)
        }),
{
    serde_json::Value::from(n)
}

/// `Value::Null`.
#[verifier::external_body]
pub(crate) fn null() -> (r: serde_json::Value)
    ensures
        json_view(r) == JsonView::Null,
{
    serde_json::Value::Null
}

/// `clone` of a value.
#[verifier::external_body]
pub(crate) fn copy(v: &serde_json::Value) -> (r: serde_json::Value)
    ensures
        json_view(r) == json_view(*v),
{
    v.clone()
}

/// `str::parse` to a double, and `Number::from_f64` of it: a value that is null where the number
/// is not finite.
#[verifier::external_body]
pub(crate) fn coordinate(text: &str) -> (r: Result<serde_json::Value, String>)
    ensures
        match r {
            Ok(v) => coordinate_parsed(text@) == Ok::<JsonView, Seq<char>>(json_view(v)),
            Err(e) => coordinate_parsed(text@) == Err::<JsonView, Seq<char>>(e@),
        },
        text@ == "0"@ ==> r is Ok && json_view(r->Ok_0) == JsonView::Float(0),
{
    match text.parse() {
        Ok(x) => Ok(serde_json::Number::from_f64(x).map_or(
            serde_json::Value::Null,
            serde_json::Value::Number,
        )),
        Err(e) => Err(std::num::ParseFloatError::to_string(&e)),
    }
}

// ---- members by type -------------------------------------------------------

/// A text member.
pub open spec fn text_member_of(v: JsonView, key: Seq<char>) -> Option<Seq<char>> {
    match member_of(v, key) {
        Some(JsonView::Text(s)) => Some(s),
        _ => None,
    }
}

pub fn text_member(v: &serde_json::Value, key: &str) -> (r: Option<String>)
    ensures
        match r {
            Some(s) => text_member_of(json_view(*v), key@) == Some(s@),
            None => text_member_of(json_view(*v), key@) is None,
        },
{
    match member(v, key) {
        Some(x) => match as_text(x) {
            Some(s) => Some(s.to_owned()),
            None => None,
        },
        None => None,
    }
}

/// A text member, empty where there is none.
pub open spec fn text_or_empty(v: JsonView, key: Seq<char>) -> Seq<char> {
    match text_member_of(v, key) {
        Some(s) => s,
        None => Seq::empty(),
    }
}

pub fn text_member_or_empty(v: &serde_json::Value, key: &str) -> (r: String)
    ensures
        r@ == text_or_empty(json_view(*v), key@),
{
    match text_member(v, key) {
        Some(s) => s,
        None => String::new(),
    }
}

/// An unsigned member.
pub open spec fn unsigned_member_of(v: JsonView, key: Seq<char>) -> Option<u64> {
    match member_of(v, key) {
        Some(JsonView::Unsigned(n)) => Some(n),
        _ => None,
    }
}

pub fn unsigned_member(v: &serde_json::Value, key: &str) -> (r: Option<u64>)
    ensures
        r == unsigned_member_of(json_view(*v), key@),
{
    match member(v, key) {
        Some(x) => as_unsigned(x),
        None => None,
    }
}

/// An unsigned member, zero where there is none.
pub open spec fn unsigned_or_zero(v: JsonView, key: Seq<char>) -> u64 {
    match unsigned_member_of(v, key) {
        Some(n) => n,
        None => 0,
    }
}

pub fn unsigned_member_or_zero(v: &serde_json::Value, key: &str) -> (r: u64)
    ensures
        r == unsigned_or_zero(json_view(*v), key@),
{
    match unsigned_member(v, key) {
        Some(n) => n,
        None => 0,
    }
}

/// The bits of a number member as a double; those of zero where there is none.
pub open spec fn float_bits_or_zero(v: JsonView, key: Seq<char>) -> u64 {
    match member_of(v, key) {
        Some(x) => match float_bits(x) {
            Some(bits) => bits,
            None => 0,
        },
        None => 0,
    }
}

pub fn float_member_or_zero(v: &serde_json::Value, key: &str) -> (r: u64)
    ensures
        r == float_bits_or_zero(json_view(*v), key@),
{
    match member(v, key) {
        Some(x) => match as_float_bits(x) {
            Some(bits) => bits,
            None => 0,
        },
        None => 0,
    }
}

/// A member that is true; false where there is none.
pub open spec fn flag_of(v: JsonView, key: Seq<char>) -> bool {
    member_of(v, key) == Some(JsonView::Bool(true))
}

pub fn flag_member(v: &serde_json::Value, key: &str) -> (r: bool)
    ensures
        r == flag_of(json_view(*v), key@),
{
    match member(v, key) {
        Some(x) => match as_bool(x) {
            Some(b) => b,
            None => false,
        },
        None => false,
    }
}

// ---- members ---------------------------------------------------------------

/// A member is read where it is there and of its kind; what is not counts as empty, zero or false.
pub proof fn law_members_are_read(m: Map<Seq<char>, JsonView>, key: Seq<char>, other: Seq<char>, s: Seq<char>, n: u64, b: bool, v: JsonView)
    ensures
        ({
            let o = JsonView::Object(m);
            let holds = |x: JsonView| m.contains_key(key) && m[key] == x;
            &&& holds(JsonView::Text(s)) ==> text_member_of(o, key) == Some(s) && text_or_empty(
                o,
                key,
            ) == s
            &&& holds(JsonView::Unsigned(n)) ==> unsigned_member_of(o, key) == Some(n)
                && unsigned_or_zero(o, key) == n && text_member_of(o, key) is None
            &&& holds(JsonView::Float(n)) ==> float_bits_or_zero(o, key) == n
            &&& holds(JsonView::Bool(b)) ==> flag_of(o, key) == b
            &&& !m.contains_key(key) ==> member_of(o, key) is None && text_member_of(o, key) is None
                && text_or_empty(o, key).len() == 0 && unsigned_or_zero(o, key) == 0
                && float_bits_or_zero(o, key) == 0 && !flag_of(o, key)
            &&& holds(v) ==> member_of(o, key) == Some(v)
            &&& member_of(put(o, key, v), key) == Some(v)
            &&& other != key ==> member_of(put(o, key, v), other) == member_of(o, other)
        }),
{
}

} // verus!
