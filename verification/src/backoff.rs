//! Exponential backoff, for the deck and for OBS alike.

use vstd::prelude::*;

verus! {

/// The first delay, in seconds.
pub const BACKOFF_INITIAL_SECS: u64 = 2;

/// The longest delay, in seconds.
pub const BACKOFF_MAX_SECS: u64 = 30;

/// The delay that follows another.
pub open spec fn doubled(secs: int) -> int {
    if 2 * secs < BACKOFF_MAX_SECS {
        2 * secs
    } else {
        BACKOFF_MAX_SECS as int
    }
}

/// The delay after `n` failures in a row.
pub open spec fn delay_after(n: nat) -> int
    decreases n,
{
    if n == 0 {
        BACKOFF_INITIAL_SECS as int
    } else {
        doubled(delay_after((n - 1) as nat))
    }
}

/// A growing delay between attempts.
#[derive(Debug, Clone, Copy, PartialEq, Eq, Structural)]
pub struct Backoff {
    pub secs: u64,
}

impl Backoff {
    /// The delay is one that failures in a row lead to.
    pub open spec fn wf(self) -> bool {
        exists|n: nat| self.secs == #[trigger] delay_after(n)
    }

    /// Start at the shortest delay.
    pub fn new() -> (r: Backoff)
        ensures
            r.wf(),
            r.secs == BACKOFF_INITIAL_SECS,
    {
        assert(delay_after(0) == BACKOFF_INITIAL_SECS);
        Backoff { secs: BACKOFF_INITIAL_SECS }
    }

    /// The delay before the next attempt; the one after it doubles, up to the
    /// longest.
    pub fn next(&mut self) -> (r: u64)
        requires
            old(self).wf(),
        ensures
            final(self).wf(),
            r == old(self).secs,
            final(self).secs == doubled(old(self).secs as int),
    {
        proof {
            let n = choose|n: nat| self.secs == #[trigger] delay_after(n);
            delays_are_bounded(n);
            assert(delay_after(n + 1) == doubled(self.secs as int));
        }
        let secs: u64 = self.secs;
        self.secs = if 2 * secs < BACKOFF_MAX_SECS {
            2 * secs
        } else {
            BACKOFF_MAX_SECS
        };
        secs
    }
}

/// Every delay lies between the first and the longest, none is shorter than the
/// one before it, and from the fifth on they are the longest.
pub proof fn delays_are_bounded(n: nat)
    ensures
        BACKOFF_INITIAL_SECS <= delay_after(n) <= BACKOFF_MAX_SECS,
        delay_after(n) <= delay_after(n + 1),
        n >= 4 ==> delay_after(n) == BACKOFF_MAX_SECS,
    decreases n,
{
    if n > 0 {
        delays_are_bounded((n - 1) as nat);
    }
    reveal_with_fuel(delay_after, 6);
}

/// The first delay is two seconds, and each is twice the one before it until that
/// is more than half a minute, where they stay.
pub proof fn delays_double(n: nat)
    ensures
        delay_after(0) == 2,
        2 * delay_after(n) <= 30 ==> delay_after(n + 1) == 2 * delay_after(n),
        2 * delay_after(n) > 30 ==> delay_after(n + 1) == 30,
        doubled(delay_after(n)) == delay_after(n + 1),
{
}

} // verus!
