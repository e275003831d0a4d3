//! A JSON value model that the library's logic reads and builds, and the two
//! calls into serde_json that turn bytes into such values and back.
use vstd::prelude::*;
use serde_json::Value as SerdeJson;

verus! {

/// A JSON value. Numbers keep serde_json's three kinds apart: an unsigned
/// integer, a negative integer, and any other number as its text.
#[derive(Debug)]
pub enum Json {
    Null,
    Bool(bool),
    UInt(u64),
    Int(i64),
    Real(String),
    Str(String),
    Array(Vec<Json>),
    Object(Vec<(String, Json)>),
}

#[verifier::external_type_specification]
#[verifier::external_body]
pub struct ExSerdeJson(SerdeJson);

/// The values serde_json gives: `Int` holds negative integers only (a
/// non-negative one is `UInt`), at every depth.
pub open spec fn json_wf(j: Json) -> bool
    decreases j,
{
    match j {
        Json::Int(i) => i < 0,
        Json::Array(a) => forall|k: int| 0 <= k < a@.len() ==> json_wf(#[trigger] a@[k]),
        Json::Object(f) => forall|k: int| 0 <= k < f@.len() ==> json_wf(#[trigger] f@[k].1),
        _ => true,
    }
}

/// What serde_json makes of a byte slice: `None` where it is no JSON text.
pub uninterp spec fn json_parse(b: Seq<u8>) -> Option<Json>;

/// The compact text that serde_json writes for a value.
pub uninterp spec fn json_text(j: Json) -> Seq<u8>;

/// Relies on serde_json's `Value` enum: each variant is moved into the
/// variant of `Json` that holds the same data.
#[verifier::external_body]
fn from_serde(v: SerdeJson) -> Json {
    match v {
        serde_json::Value::Null => Json::Null,
        serde_json::Value::Bool(b) => Json::Bool(b),
        serde_json::Value::Number(n) => match (n.as_u64(), n.as_i64()) {
            (Some(u), _) => Json::UInt(u),
            (None, Some(i)) => Json::Int(i),
            (None, None) => Json::Real(n.to_string()),
        },
        serde_json::Value::String(s) => Json::Str(s),
        serde_json::Value::Array(a) => Json::Array(a.into_iter().map(from_serde).collect()),
        serde_json::Value::Object(o) => Json::Object(o.into_iter().map(|(k, v)| (k, from_serde(v))).collect()),
    }
}

/// Relies on serde_json's `Value` enum: each variant of `Json` is moved into
/// the variant of `serde_json::Value` that holds the same data.
#[verifier::external_body]
fn to_serde(j: &Json) -> SerdeJson {
    match j {
        Json::Null => serde_json::Value::Null,
        Json::Bool(b) => serde_json::Value::Bool(*b),
        Json::UInt(u) => serde_json::Value::from(*u),
        Json::Int(i) => serde_json::Value::from(*i),
        Json::Real(s) => s.parse::<serde_json::Number>().map_or(serde_json::Value::Null, serde_json::Value::Number),
        Json::Str(s) => serde_json::Value::String(s.clone()),
        Json::Array(a) => serde_json::Value::Array(a.iter().map(to_serde).collect()),
        Json::Object(o) => serde_json::Value::Object(o.iter().map(|(k, v)| (k.clone(), to_serde(v))).collect()),
    }
}

/// Relies on serde_json::from_slice: whether the bytes are one JSON text,
/// and which value it is, depends on the bytes alone. serde_json keeps a
/// negative integer apart from a non-negative one (`From<i64> for Number`
/// makes `NegInt` only below zero, and `as_u64` answers for `PosInt`), so
/// `Int` comes out negative only.
#[verifier::external_body]
fn serde_parse(b: &[u8]) -> (r: Option<Json>)
    ensures
        r == json_parse(b@),
        r matches Some(j) ==> json_wf(j),
{
    serde_json::from_slice::<SerdeJson>(b).ok().map(from_serde)
}

/// Relies on serde_json::to_vec: the compact writer puts no whitespace
/// between tokens and escapes a line feed inside a string as `\n`, so the
/// text holds no line feed byte.
#[verifier::external_body]
fn serde_write(j: &Json) -> (r: Vec<u8>)
    ensures
        r@ == json_text(*j),
        forall|i: int| 0 <= i < r@.len() ==> r@[i] != 10u8,
{
    serde_json::to_vec(&to_serde(j)).unwrap_or_default()
}

/// The JSON value that the bytes hold, if they are one JSON text.
pub fn parse_json(b: &[u8]) -> (r: Option<Json>)
    ensures
        r == json_parse(b@),
        r matches Some(j) ==> json_wf(j),
{
    serde_parse(b)
}

/// The compact JSON text of a value; it holds no line feed.
pub fn json_to_vec(j: &Json) -> (r: Vec<u8>)
    ensures
        r@ == json_text(*j),
        forall|i: int| 0 <= i < r@.len() ==> r@[i] != 10u8,
{
    serde_write(j)
}

impl Json {
    /// The value stored under `key` in an object; the first such entry.
    pub open spec fn spec_field(&self, key: Seq<char>) -> Option<Json> {
        match self {
            Json::Object(fields) => first_field(fields@, key),
            _ => None,
        }
    }

    /// Looks up `key` in an object; `None` for any other value.
    pub fn field(&self, key: &str) -> (r: Option<&Json>)
        ensures
            r is None <==> self.spec_field(key@) is None,
            r matches Some(v) ==> self.spec_field(key@) == Some(*v),
    {
        match self {
            Json::Object(fields) => find_field(fields, key),
            _ => None,
        }
    }
}

/// The value of the first entry keyed `key`.
pub open spec fn first_field(fields: Seq<(String, Json)>, key: Seq<char>) -> Option<Json>
    decreases fields.len(),
{
    if fields.len() == 0 {
        None
    } else if fields[0].0@ == key {
        Some(fields[0].1)
    } else {
        first_field(fields.drop_first(), key)
    }
}

/// Whether two strings hold the same characters.
pub fn str_eq(a: &str, b: &str) -> (r: bool)
    ensures
        r == (a@ == b@),
{
    let n = a.unicode_len();
    if n != b.unicode_len() {
        return false;
    }
    let mut i: usize = 0;
    while i < n
        invariant
            n == a@.len(),
            n == b@.len(),
            i <= n,
            forall|k: int| 0 <= k < i ==> a@[k] == b@[k],
        decreases n - i,
    {
        if a.get_char(i) != b.get_char(i) {
            return false;
        }
        i = i + 1;
    }
    assert(a@ =~= b@);
    true
}

fn find_field<'a>(fields: &'a Vec<(String, Json)>, key: &str) -> (r: Option<&'a Json>)
    ensures
        r is None <==> first_field(fields@, key@) is None,
        r matches Some(v) ==> first_field(fields@, key@) == Some(*v),
{
    let mut i: usize = 0;
    assert(fields@.skip(0) =~= fields@);
    while i < fields.len()
        invariant
            i <= fields@.len(),
            first_field(fields@, key@) == first_field(fields@.skip(i as int), key@),
        decreases fields@.len() - i,
    {
        assert(fields@.skip(i as int).drop_first() =~= fields@.skip(i + 1));
        if str_eq(fields[i].0.as_str(), key) {
            return Some(&fields[i].1);
        }
        i = i + 1;
    }
    assert(fields@.skip(i as int).len() == 0);
    None
}

} // verus!
