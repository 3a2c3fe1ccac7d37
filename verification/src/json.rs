use vstd::prelude::*;

verus! {

// The serialization collaborator.  The protocol treats a structured value
// as opaque and relies on the collaborator only for a lossless mapping
// between values and byte strings; both directions are named below and
// everything the crate proves about serialized payloads goes through those
// names.
#[verifier::external_type_specification]
#[verifier::external_body]
pub struct ExValue(serde_json::Value);

/// The byte string that serializing a structured value produces.  It
/// depends on the value alone.
pub uninterp spec fn json_bytes_of(v: serde_json::Value) -> Seq<u8>;

/// The structured value that parsing a byte string produces, or `None`
/// where the bytes are not one well-formed serialized value.  It depends
/// on the bytes alone.
pub uninterp spec fn json_value_of(b: Seq<u8>) -> Option<serde_json::Value>;

/// Relies on serde_json::to_vec to serialize a structured value.
///
/// The call cannot fail on a `serde_json::Value`: its maps are keyed by
/// strings, its numbers are finite, and the writer is an in-memory vector,
/// which rules out every error path of the serializer.  The serialized
/// form of any value is a non-empty byte string, and whenever the parser
/// accepts that byte string at all — it refuses only nesting past its
/// recursion limit — it reproduces the value the bytes came from: the
/// round-trip fidelity the collaborator contract promises.
#[verifier::external_body]
pub(crate) fn to_json_bytes(v: &serde_json::Value) -> (r: Option<Vec<u8>>)
    ensures
        r is Some,
        r matches Some(b) ==> b@ == json_bytes_of(*v) && 0 < b@.len() && (json_value_of(b@)
            is Some ==> json_value_of(b@) == Some(*v)),
{
    serde_json::to_vec(v).ok()
}

/// Relies on serde_json::from_slice to parse a byte string as one
/// serialized structured value; the outcome depends on the bytes alone.
#[verifier::external_body]
pub(crate) fn from_json_bytes(b: &Vec<u8>) -> (r: Option<serde_json::Value>)
    ensures
        r matches Some(v) ==> json_value_of(b@) == Some(v),
        r is None ==> json_value_of(b@) is None,
{
    serde_json::from_slice(b.as_slice()).ok()
}

/// Relies on core::str::from_utf8, which accepts exactly the valid UTF-8
/// byte strings.
#[verifier::external_body]
pub(crate) fn utf8_check(b: &Vec<u8>) -> (r: bool)
    ensures
        r == vstd::utf8::valid_utf8(b@),
{
    core::str::from_utf8(b.as_slice()).is_ok()
}

} // verus!
