//! The wall clock.

use vstd::prelude::*;

verus! {

/// `time::get_time`: the wall-clock time, of which the whole seconds since
/// the epoch are returned. The clock is read anew at each call, so nothing is
/// claimed of the result.
#[verifier::external_body]
pub(crate) fn now_seconds() -> i64 {
    time::get_time().sec
}

} // verus!
