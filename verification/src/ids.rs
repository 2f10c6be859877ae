//! Opaque identifiers for sessions, uploads and jobs.

use vstd::prelude::*;

verus! {

/// Shape of a minted id: 36 bytes, each a lowercase hex digit or a hyphen.
pub open spec fn spec_id_wf(s: Seq<u8>) -> bool {
    &&& s.len() == 36
    &&& forall|i: int|
        0 <= i < s.len() ==> (#[trigger] s[i] == 45 || (48 <= s[i] <= 57) || (97 <= s[i]
            <= 102))
}

/// Relies on `uuid::Uuid::new_v4` and its hyphenated lowercase rendering:
/// 36 bytes of lowercase hex digits and hyphens.  The value is random;
/// nothing more is assumed of it, and two calls may differ.
#[verifier::external_body]
pub(crate) fn fresh_id() -> (r: Vec<u8>)
    ensures
        spec_id_wf(r@),
{
    uuid::Uuid::new_v4().to_string().into_bytes()
}

} // verus!
