//! The clock.

use vstd::prelude::*;

verus! {

/// `std::time::SystemTime::now` against the epoch, in whole seconds: 0 where the
/// clock is before the epoch, and so never less. Which time the clock shows is
/// left unsaid.
#[verifier::external_body]
pub(crate) fn unix_seconds() -> (r: i64)
    ensures
        r >= 0,
{
    std::time::SystemTime::now().duration_since(std::time::UNIX_EPOCH).map_or(
        0,
        |d| i64::try_from(d.as_secs()).unwrap_or(i64::MAX),
    )
}

} // verus!
