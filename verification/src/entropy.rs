//! The two sources of chance that the game draws on.

use vstd::prelude::*;

verus! {

/// Draws a fresh player identifier: `uuid::Uuid::new_v4`, written out with
/// its `to_string`. Nothing is claimed of the text that comes back; in
/// particular not that it differs from an earlier one.
#[verifier::external_body]
pub(crate) fn fresh_player_id() -> (id: String) {
    uuid::Uuid::new_v4().to_string()
}

/// Draws an integer from `low .. high` with `rand::random_range`, which
/// samples the half-open range from the thread-local generator and panics on
/// an empty range. The contract claims only that the result lies in the range.
#[verifier::external_body]
pub(crate) fn random_between(low: i32, high: i32) -> (drawn: i32)
    requires
        low < high,
    ensures
        low <= drawn < high,
{
    rand::random_range(low..high)
}

} // verus!
