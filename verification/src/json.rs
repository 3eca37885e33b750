//! The crate's only window onto serde_json.
//!
//! JSON text travels through the protocol as plain characters; parsing and
//! string escaping are delegated to serde_json behind the trusted items
//! below, and everything built on top of them is verified against their
//! contracts. Each escaping or extraction result is a pure function of the
//! input text, named by an uninterpreted spec function.

use vstd::prelude::*;

verus! {

use vstd::utf8::encode_utf8;

/// What serde_json's string serialization produces for the characters of a
/// string: the quoted, escaped JSON string literal.
pub uninterp spec fn json_escaped(s: Seq<char>) -> Seq<char>;

/// Relies on serde_json::to_string for &str: the JSON string literal (quotes
/// and escapes included) for exactly the given characters. Serializing a
/// string slice writes into memory and cannot fail.
#[verifier::external_body]
pub(crate) fn json_escape(s: &str) -> (r: String)
    ensures
        r@ == json_escaped(s@),
{
    serde_json::to_string(s).unwrap()
}

/// The canonical JSON text of a byte sequence: `Some` exactly when the bytes
/// parse as one JSON document, and then the text serde_json re-serializes
/// that document to (compact, object members ordered by name).
pub uninterp spec fn json_canon(b: Seq<u8>) -> Option<Seq<char>>;

/// A JSON text that serde_json re-serializes to itself.
pub open spec fn is_canonical_json(t: Seq<char>) -> bool {
    json_canon(encode_utf8(t)) == Some(t)
}

/// Relies on serde_json::from_slice and serde_json::to_string for Value:
/// parse one JSON document and print it back. serde_json's own output parses
/// again and prints identically, so the result is a fixed point of this
/// round trip.
#[verifier::external_body]
pub(crate) fn canon_json(b: &[u8]) -> (r: Option<String>)
    ensures
        r is Some <==> json_canon(b@) is Some,
        r matches Some(s) ==> json_canon(b@) == Some(s@) && is_canonical_json(s@),
{
    match serde_json::from_slice::<serde_json::Value>(b) {
        Ok(v) => serde_json::to_string(&v).ok(),
        Err(_) => None,
    }
}

/// The member named `key` of a JSON object text, when that member is a
/// string: its characters.
pub uninterp spec fn json_str_field(t: Seq<char>, key: Seq<char>) -> Option<Seq<char>>;

/// Relies on serde_json::from_str, Value::get and the Value variants: the
/// string member named `key` of the top-level object of `t`; `None` when `t`
/// does not parse, is not an object, has no such member, or the member is
/// not a string.
#[verifier::external_body]
pub(crate) fn get_str_field(t: &str, key: &str) -> (r: Option<String>)
    ensures
        r is Some <==> json_str_field(t@, key@) is Some,
        r matches Some(s) ==> json_str_field(t@, key@) == Some(s@),
{
    match serde_json::from_str::<serde_json::Value>(t) {
        Ok(v) => match v.get(key) {
            Some(serde_json::Value::String(s)) => Some(s.clone()),
            _ => None,
        },
        Err(_) => None,
    }
}

/// The member named `key` of a JSON object text, when that member is an
/// unsigned integer that fits 64 bits.
pub uninterp spec fn json_u64_field(t: Seq<char>, key: Seq<char>) -> Option<u64>;

/// Relies on serde_json::from_str, Value::get and Value::as_u64: the member
/// named `key` read as a u64; `None` when absent or not such a number.
#[verifier::external_body]
pub(crate) fn get_u64_field(t: &str, key: &str) -> (r: Option<u64>)
    ensures
        r == json_u64_field(t@, key@),
{
    match serde_json::from_str::<serde_json::Value>(t) {
        Ok(v) => match v.get(key) {
            Some(x) => x.as_u64(),
            None => None,
        },
        Err(_) => None,
    }
}

/// The member named `key` of a JSON object text, re-serialized to canonical
/// JSON text, whatever its shape.
pub uninterp spec fn json_field_text(t: Seq<char>, key: Seq<char>) -> Option<Seq<char>>;

/// Relies on serde_json::from_str, Value::get and serde_json::to_string: the
/// member named `key`, printed back as JSON text; `None` when `t` does not
/// parse or has no such member.
#[verifier::external_body]
pub(crate) fn get_field_text(t: &str, key: &str) -> (r: Option<String>)
    ensures
        r is Some <==> json_field_text(t@, key@) is Some,
        r matches Some(s) ==> json_field_text(t@, key@) == Some(s@),
{
    match serde_json::from_str::<serde_json::Value>(t) {
        Ok(v) => match v.get(key) {
            Some(x) => serde_json::to_string(x).ok(),
            None => None,
        },
        Err(_) => None,
    }
}

/// The string-valued members of the object member named `key` of a JSON
/// object text, as (name, value) pairs in serde_json's member order.
pub uninterp spec fn json_str_members_field(t: Seq<char>, key: Seq<char>) -> Option<
    Seq<(Seq<char>, Seq<char>)>,
>;

/// Relies on serde_json::from_str, Value::get and the Value variants: the
/// members of the object member named `key` whose values are strings, in the
/// map's member order (sorted by name), members of any other shape skipped;
/// `None` when there is no object member named `key`.
#[verifier::external_body]
pub(crate) fn get_str_members(t: &str, key: &str) -> (r: Option<Vec<(String, String)>>)
    ensures
        r is Some <==> json_str_members_field(t@, key@) is Some,
        r matches Some(v) ==> v.deep_view() == json_str_members_field(t@, key@).unwrap(),
{
    let v = serde_json::from_str::<serde_json::Value>(t).ok()?;
    let obj = match v.get(key) {
        Some(serde_json::Value::Object(m)) => m,
        _ => return None,
    };
    let mut out: Vec<(String, String)> = Vec::new();
    for (name, val) in obj {
        if let serde_json::Value::String(s) = val {
            out.push((name.clone(), s.clone()));
        }
    }
    Some(out)
}

} // verus!
