//! Shared constants of the evaluation rules.

use vstd::prelude::*;

verus! {

/// The download count a crate without a major release needs for a partial
/// production-readiness outcome.
pub const MAX_DOWNLOAD_FOR_MINOR_VERSION: u64 = 500;

/// The sentinel for a field the resolver could not fill.
pub fn missing_field_placeholder() -> (r: String)
    ensures
        r@ == "N/A"@,
{
    String::from_str("N/A")
}

} // verus!
