//! Trusted access to JSON documents through `serde_json`.
//!
//! `serde_json` is deterministic, so what each read yields is a
//! function of the document text alone; every accessor below therefore
//! carries a named result (an uninterpreted function of the text) that
//! its callers' contracts build on. Each wrapper parses the text and
//! walks to one plain value; which documents parse, and what they hold,
//! is decided by `serde_json`, which the verifier does not read — the
//! names record its answers.

use vstd::prelude::*;

verus! {

/// What parsing the document and reading the string member `field` of
/// its root object yields: the string's content, or `None` when the
/// document does not parse, the root is not an object, the field is
/// absent, or the field is not a string.
pub uninterp spec fn json_string_field_of(body: Seq<char>, field: Seq<char>) -> Option<Seq<char>>;

/// As [`json_string_field_of`], for a boolean member.
pub uninterp spec fn json_bool_field_of(body: Seq<char>, field: Seq<char>) -> Option<bool>;

/// What reading the `u64`-representable numeric member `sub` of the
/// object member `field` of the root object yields.
pub uninterp spec fn json_u64_path_of(body: Seq<char>, field: Seq<char>, sub: Seq<char>) -> Option<
    u64,
>;

/// What reading the length of the array member `field` of the root
/// object yields: `None` when the document does not parse or the
/// member is absent or not an array.
pub uninterp spec fn json_array_len_of(body: Seq<char>, field: Seq<char>) -> Option<int>;

/// What reading the string member `sub` of the `i`-th element of the
/// array member `field` yields.
pub uninterp spec fn json_record_string_of(
    body: Seq<char>,
    field: Seq<char>,
    i: int,
    sub: Seq<char>,
) -> Option<Seq<char>>;

/// As [`json_record_string_of`], for a boolean member.
pub uninterp spec fn json_record_bool_of(
    body: Seq<char>,
    field: Seq<char>,
    i: int,
    sub: Seq<char>,
) -> Option<bool>;

/// What reading the length of a document whose root is itself an array
/// yields.
pub uninterp spec fn json_root_len_of(text: Seq<char>) -> Option<int>;

/// What reading the string member `sub` of the `i`-th element of a
/// root-array document yields.
pub uninterp spec fn json_root_string_of(text: Seq<char>, i: int, sub: Seq<char>) -> Option<
    Seq<char>,
>;

/// Relies on `serde_json::from_str`, `Value::get` and `Value::as_str`:
/// the named string member of the document, a function of the text
/// alone.
#[verifier::external_body]
pub fn json_string_field(body: &str, field: &str) -> (r: Option<String>)
    ensures
        (r is None) == (json_string_field_of(body@, field@) is None),
        r matches Some(s) ==> json_string_field_of(body@, field@) == Some(s@),
{
    serde_json::from_str::<serde_json::Value>(body).ok().and_then(
        |v| v.get(field).and_then(|d| d.as_str().map(|s| s.to_owned())),
    )
}

/// Relies on `serde_json::from_str`, `Value::get` and `Value::as_bool`:
/// the named boolean member of the document, a function of the text
/// alone.
#[verifier::external_body]
pub fn json_bool_field(body: &str, field: &str) -> (r: Option<bool>)
    ensures
        r == json_bool_field_of(body@, field@),
{
    serde_json::from_str::<serde_json::Value>(body).ok().and_then(
        |v| v.get(field).and_then(|d| d.as_bool()),
    )
}

/// Relies on `serde_json::from_str`, `Value::get` and `Value::as_u64`:
/// the named numeric member under the named object member, a function
/// of the text alone.
#[verifier::external_body]
pub fn json_u64_path(body: &str, field: &str, sub: &str) -> (r: Option<u64>)
    ensures
        r == json_u64_path_of(body@, field@, sub@),
{
    serde_json::from_str::<serde_json::Value>(body).ok().and_then(
        |v| v.get(field).and_then(|o| o.get(sub)).and_then(|d| d.as_u64()),
    )
}

/// Relies on `serde_json::from_str`, `Value::get` and
/// `Value::as_array`: the length of the named array member, a function
/// of the text alone.
#[verifier::external_body]
pub fn json_array_len_field(body: &str, field: &str) -> (r: Option<usize>)
    ensures
        (r is None) == (json_array_len_of(body@, field@) is None),
        r matches Some(n) ==> json_array_len_of(body@, field@) == Some(n as int),
{
    serde_json::from_str::<serde_json::Value>(body).ok().and_then(
        |v| v.get(field).and_then(|d| d.as_array().map(|a| a.len())),
    )
}

/// Relies on `serde_json::from_str`, `Value::get`, `Value::as_array`
/// and `Value::as_str`: the named string member of one element of the
/// named array member, a function of the text alone.
#[verifier::external_body]
pub fn json_record_string(body: &str, field: &str, i: usize, sub: &str) -> (r: Option<String>)
    ensures
        (r is None) == (json_record_string_of(body@, field@, i as int, sub@) is None),
        r matches Some(s) ==> json_record_string_of(body@, field@, i as int, sub@) == Some(s@),
{
    serde_json::from_str::<serde_json::Value>(body).ok().and_then(
        |v|
            v.get(field).and_then(|d| d.as_array()).and_then(|a| a.get(i)).and_then(
                |el| el.get(sub).and_then(|x| x.as_str().map(|s| s.to_owned())),
            ),
    )
}

/// As [`json_record_string`], for a boolean member; relies on the same
/// `serde_json` functions with `Value::as_bool`.
#[verifier::external_body]
pub fn json_record_bool(body: &str, field: &str, i: usize, sub: &str) -> (r: Option<bool>)
    ensures
        r == json_record_bool_of(body@, field@, i as int, sub@),
{
    serde_json::from_str::<serde_json::Value>(body).ok().and_then(
        |v|
            v.get(field).and_then(|d| d.as_array()).and_then(|a| a.get(i)).and_then(
                |el| el.get(sub).and_then(|x| x.as_bool()),
            ),
    )
}

/// Relies on `serde_json::from_str` and `Value::as_array`: the length
/// of a root-array document, a function of the text alone.
#[verifier::external_body]
pub fn json_root_len(text: &str) -> (r: Option<usize>)
    ensures
        (r is None) == (json_root_len_of(text@) is None),
        r matches Some(n) ==> json_root_len_of(text@) == Some(n as int),
{
    serde_json::from_str::<serde_json::Value>(text).ok().and_then(
        |v| v.as_array().map(|a| a.len()),
    )
}

/// Relies on `serde_json::from_str`, `Value::as_array`, `Value::get`
/// and `Value::as_str`: the named string member of one element of a
/// root-array document, a function of the text alone.
#[verifier::external_body]
pub fn json_root_string(text: &str, i: usize, sub: &str) -> (r: Option<String>)
    ensures
        (r is None) == (json_root_string_of(text@, i as int, sub@) is None),
        r matches Some(s) ==> json_root_string_of(text@, i as int, sub@) == Some(s@),
{
    serde_json::from_str::<serde_json::Value>(text).ok().and_then(
        |v|
            v.as_array().and_then(|a| a.get(i)).and_then(
                |el| el.get(sub).and_then(|x| x.as_str().map(|s| s.to_owned())),
            ),
    )
}

} // verus!
