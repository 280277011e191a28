//! JSON documents, checked by serde_json.

use vstd::prelude::*;

verus! {

/// Whether a byte string holds exactly one JSON document.
pub uninterp spec fn json_accepts(b: Seq<u8>) -> bool;

/// Relies on serde_json's `from_slice`, which succeeds exactly on the byte
/// strings that hold one JSON document.
#[verifier::external_body]
pub(crate) fn is_json(b: &[u8]) -> (r: bool)
    ensures
        r == json_accepts(b@),
{
    serde_json::from_slice::<serde_json::Value>(b).is_ok()
}

} // verus!
