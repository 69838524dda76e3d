//! A library-owned JSON tree, and the trusted bridge that fills it from
//! `serde_json`.
//!
//! Event payloads arrive as JSON text. Parsing is delegated to
//! `serde_json`; everything the crate then does with the parsed value —
//! looking up object keys, reading the record shape — is verified code
//! over the [`Json`] tree below. Numbers that are not unsigned integers
//! are kept only as [`Json::NonUInt`]: the protocol's records read token
//! counts and choice indices, all unsigned, and the crate never looks
//! inside any other number.

use vstd::prelude::*;

verus! {

/// A parsed JSON value. Object fields keep the key order that the parser
/// hands out; keys are unique because the parser's map deduplicates them.
/// Nothing below relies on either fact.
pub enum Json {
    Null,
    Boolean(bool),
    /// A number representable as a `u64`.
    UInt(u64),
    /// Any other number (negative, fractional, or out of `u64` range).
    NonUInt,
    Text(String),
    Array(Vec<Json>),
    Object(Vec<(String, Json)>),
}

/// What `serde_json` parses the given text into, converted to the
/// [`Json`] tree: `None` when the text is not valid JSON. The parse is a
/// function of the characters alone.
pub uninterp spec fn json_of(s: Seq<char>) -> Option<Json>;

#[verifier::external_type_specification]
#[verifier::external_body]
pub struct ExSerdeValue(serde_json::Value);

/// Relies on the shape of `serde_json::Value`: this mirrors its six
/// variants onto [`Json`] one for one, keeping a number only when
/// `Number::as_u64` reads it as an unsigned integer. It is the conversion
/// half of [`parse_json`] and is called from nowhere else.
#[verifier::external_body]
fn value_to_json(v: &serde_json::Value) -> Json {
    match v {
        serde_json::Value::Null => Json::Null,
        serde_json::Value::Bool(b) => Json::Boolean(*b),
        serde_json::Value::Number(n) => match n.as_u64() {
            Some(u) => Json::UInt(u),
            None => Json::NonUInt,
        },
        serde_json::Value::String(s) => Json::Text(s.clone()),
        serde_json::Value::Array(a) => Json::Array(a.iter().map(value_to_json).collect()),
        serde_json::Value::Object(m) => Json::Object(
            m.iter().map(|(k, x)| (k.clone(), value_to_json(x))).collect(),
        ),
    }
}

/// Relies on `serde_json::from_str::<serde_json::Value>`: it returns `Ok`
/// exactly on valid JSON text, and what it returns depends on the text
/// alone, so the converted tree is named by [`json_of`].
#[verifier::external_body]
pub(crate) fn parse_json(s: &str) -> (r: Option<Json>)
    ensures
        r matches Some(j) ==> json_of(s@) == Some(j),
        r is None ==> json_of(s@) is None,
{
    match serde_json::from_str::<serde_json::Value>(s) {
        Ok(v) => Some(value_to_json(&v)),
        Err(_) => None,
    }
}

/// The value under `key` among `fields`, taking the first match.
pub open spec fn spec_lookup(fields: Seq<(String, Json)>, key: Seq<char>) -> Option<Json>
    decreases fields.len(),
{
    if fields.len() == 0 {
        None
    } else if fields[0].0@ == key {
        Some(fields[0].1)
    } else {
        spec_lookup(fields.skip(1), key)
    }
}

/// Are two strings equal, character for character?
pub fn str_eq(a: &str, b: &str) -> (r: bool)
    ensures
        r == (a@ == b@),
{
    let n = a.unicode_len();
    if n != b.unicode_len() {
        proof {
            assert(a@ != b@);
        }
        return false;
    }
    let mut i: usize = 0;
    while i < n
        invariant
            0 <= i <= n,
            n == a@.len(),
            n == b@.len(),
            forall|k: int| 0 <= k < i ==> a@[k] == b@[k],
        decreases n - i,
    {
        if a.get_char(i) != b.get_char(i) {
            return false;
        }
        i = i + 1;
    }
    proof {
        assert(a@ =~= b@);
    }
    true
}

/// Look `key` up among the fields of a parsed object.
pub fn lookup<'a>(fields: &'a Vec<(String, Json)>, key: &str) -> (r: Option<&'a Json>)
    ensures
        match r {
            Some(j) => spec_lookup(fields@, key@) == Some(*j),
            None => spec_lookup(fields@, key@) is None,
        },
{
    let n = fields.len();
    let mut i: usize = 0;
    proof {
        assert(fields@.skip(0) =~= fields@);
    }
    while i < n
        invariant
            0 <= i <= n,
            n == fields@.len(),
            spec_lookup(fields@, key@) == spec_lookup(fields@.skip(i as int), key@),
        decreases n - i,
    {
        proof {
            assert(fields@.skip(i as int)[0] == fields@[i as int]);
            assert(fields@.skip(i as int).skip(1) =~= fields@.skip(i as int + 1));
        }
        if str_eq(fields[i].0.as_str(), key) {
            return Some(&fields[i].1);
        }
        i = i + 1;
    }
    None
}

} // verus!
