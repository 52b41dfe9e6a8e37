//! The backoff schedule of the pool's spin lock.

use vstd::prelude::*;

verus! {

/// The most times a contending thread yields before retrying.
pub const MAX_BACKOFF: u32 = 16;

/// How many times a thread that failed to take the lock yields next time:
/// the count doubles after each failure, capped at [`MAX_BACKOFF`].
pub fn next_backoff(backoff: u32) -> (next: u32)
    requires
        backoff >= 1,
    ensures
        backoff < MAX_BACKOFF ==> next == 2 * backoff,
        backoff >= MAX_BACKOFF ==> next == backoff,
{
    if backoff < MAX_BACKOFF {
        backoff * 2
    } else {
        backoff
    }
}

} // verus!
