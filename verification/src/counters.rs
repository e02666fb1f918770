//! Event counters that never go down: they count up to the largest `u64` and
//! stay there.

use vstd::prelude::*;

verus! {

/// A counter after one more event.
pub open spec fn spec_bump(counter: u64) -> u64 {
    if counter < u64::MAX {
        (counter + 1) as u64
    } else {
        counter
    }
}

/// A counter after `n` more events.
pub open spec fn spec_count_up(counter: u64, n: nat) -> u64 {
    if counter + n <= u64::MAX {
        (counter + n) as u64
    } else {
        u64::MAX
    }
}

/// Counts one more event.
pub fn bump(counter: u64) -> (next: u64)
    ensures
        next == spec_bump(counter),
        next >= counter,
{
    if counter < u64::MAX {
        counter + 1
    } else {
        counter
    }
}

/// Counting one event after `n` events is counting `n + 1` events.
pub proof fn lemma_bump_counts_up(counter: u64, n: nat)
    ensures
        spec_bump(spec_count_up(counter, n)) == spec_count_up(counter, n + 1),
        spec_count_up(counter, 0) == counter,
        spec_count_up(counter, n) >= counter,
{
}

} // verus!
