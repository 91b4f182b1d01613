//! Structured (JSON) payloads are carried as `serde_json::Value`.
//!
//! The value itself is opaque here; what the rest of the crate relies on is
//! its canonical compact serialization, named by [`json_repr`], and whether a
//! given piece of text or byte string parses as structured data.

use vstd::prelude::*;

verus! {

#[verifier::external_type_specification]
#[verifier::external_body]
pub struct ExValue(serde_json::Value);

/// The canonical compact textual serialization of a structured value.
/// It depends on the value alone.
pub uninterp spec fn json_repr(v: serde_json::Value) -> Seq<char>;

/// Whether a piece of text is well-formed structured data, i.e. whether
/// parsing it as JSON succeeds.
pub uninterp spec fn json_text_ok(s: Seq<char>) -> bool;

/// Whether a byte string is well-formed structured data, i.e. whether
/// parsing it as JSON succeeds.
pub uninterp spec fn json_bytes_ok(b: Seq<u8>) -> bool;

/// Relies on serde_json's `Display for Value`: renders the compact
/// serialization of the value, a function of the value alone, and never
/// fails (the writer is an in-memory string).
#[verifier::external_body]
pub(crate) fn to_json_text(v: &serde_json::Value) -> (r: String)
    ensures
        r@ == json_repr(*v),
{
    v.to_string()
}

/// Relies on `serde_json::from_str::<Value>`: returns `Ok` exactly when the
/// input text is well-formed JSON, which depends on the text alone.
#[verifier::external_body]
pub(crate) fn parse_json_text(s: &str) -> (r: Option<serde_json::Value>)
    ensures
        r is Some <==> json_text_ok(s@),
{
    serde_json::from_str::<serde_json::Value>(s).ok()
}

/// Relies on `serde_json::from_slice::<Value>`: returns `Ok` exactly when
/// the input bytes are well-formed JSON, which depends on the bytes alone.
#[verifier::external_body]
pub(crate) fn parse_json_bytes(b: &[u8]) -> (r: Option<serde_json::Value>)
    ensures
        r is Some <==> json_bytes_ok(b@),
{
    serde_json::from_slice::<serde_json::Value>(b).ok()
}

/// Relies on `Clone for serde_json::Value` (derived): a deep copy equal to
/// the original value.
pub assume_specification[ <serde_json::Value as Clone>::clone ](
    v: &serde_json::Value,
) -> (r: serde_json::Value)
    ensures
        r == *v,
;

} // verus!
