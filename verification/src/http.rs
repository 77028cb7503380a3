//! What the library needs to know of HTTP.

use vstd::prelude::*;

verus! {

/// Whether a status reports success: 200 to 299.
pub open spec fn is_success(status: nat) -> bool {
    200 <= status < 300
}

/// Whether a status reports success.
pub fn status_is_success(status: u16) -> (success: bool)
    ensures
        success == is_success(status as nat),
{
    200 <= status && status < 300
}

} // verus!
