//! Minting of opaque correlation identifiers for streams and requests.

use vstd::prelude::*;

verus! {

/// Relies on uuid::Uuid::new_v4 and its hyphenated `Display` form: a
/// random identifier rendered as 36 characters (32 hex digits and 4
/// hyphens). Nothing is assumed beyond the length: the value is random.
#[verifier::external_body]
pub(crate) fn fresh_uuid() -> (r: String)
    ensures
        r@.len() == 36,
{
    uuid::Uuid::new_v4().to_string()
}

} // verus!
