//! The wall clock, for the timestamps stored with books, pages and images.

use vstd::prelude::*;

verus! {

/// `chrono::Utc::now().timestamp()`: the current Unix time in seconds. Nothing is
/// claimed of the value, which depends on when the call is made.
#[verifier::external_body]
pub(crate) fn unix_now() -> (t: i64) {
    chrono::Utc::now().timestamp()
}

} // verus!
