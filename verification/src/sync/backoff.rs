//! How long an actor waits before it tries its transport again: twice as
//! long after each failure in a row, up to a cap.

use vstd::prelude::*;

verus! {

/// `base` doubled `times` times.
pub open spec fn doubled(base: nat, times: nat) -> nat
    decreases times,
{
    if times == 0 {
        base
    } else {
        2 * doubled(base, (times - 1) as nat)
    }
}

/// The wait after `failures` failures in a row: the base wait doubled once
/// for each failure, but no more than the cap.
pub open spec fn wait_after(base_ms: u64, cap_ms: u64, failures: u32) -> nat {
    let grown = doubled(base_ms as nat, failures as nat);
    if grown < cap_ms {
        grown
    } else {
        cap_ms as nat
    }
}

/// Doubling never shrinks.
pub proof fn lemma_doubled_grows(base: nat, times: nat)
    ensures
        doubled(base, times) <= doubled(base, times + 1),
        base <= doubled(base, times),
    decreases times,
{
    if times > 0 {
        lemma_doubled_grows(base, (times - 1) as nat);
    }
}

/// The retry policy of a transport.
#[derive(Debug, Clone, Copy, PartialEq, Eq, Structural)]
pub struct Backoff {
    /// The wait after a success, in milliseconds.
    pub base_ms: u64,
    /// The longest wait, in milliseconds.
    pub cap_ms: u64,
    /// How many times in a row the transport has failed.
    pub failures: u32,
}

impl Backoff {
    /// A policy with no failure on record.
    pub fn new(base_ms: u64, cap_ms: u64) -> (backoff: Backoff)
        ensures
            backoff == (Backoff { base_ms, cap_ms, failures: 0 }),
    {
        Backoff { base_ms, cap_ms, failures: 0 }
    }

    /// Records a failure. The count stops at the largest number it can
    /// hold.
    pub fn failed(&mut self)
        ensures
            final(self).base_ms == old(self).base_ms,
            final(self).cap_ms == old(self).cap_ms,
            final(self).failures == if old(self).failures < u32::MAX {
                (old(self).failures + 1) as u32
            } else {
                u32::MAX
            },
    {
        if self.failures < u32::MAX {
            self.failures = self.failures + 1;
        }
    }

    /// Records a success: the next wait is the base wait again.
    pub fn succeeded(&mut self)
        ensures
            final(self).base_ms == old(self).base_ms,
            final(self).cap_ms == old(self).cap_ms,
            final(self).failures == 0,
    {
        self.failures = 0;
    }

    /// The wait before the next try, in milliseconds.
    pub fn delay_ms(&self) -> (delay: u64)
        ensures
            delay == wait_after(self.base_ms, self.cap_ms, self.failures),
            delay <= self.cap_ms,
    {
        let mut delay: u64 = if self.base_ms < self.cap_ms {
            self.base_ms
        } else {
            self.cap_ms
        };
        let mut i: u32 = 0;
        while i < self.failures && delay < self.cap_ms
            invariant
                0 <= i <= self.failures,
                delay == wait_after(self.base_ms, self.cap_ms, i),
            decreases self.failures - i,
        {
            if delay > self.cap_ms / 2 {
                delay = self.cap_ms;
            } else {
                delay = delay * 2;
            }
            i = i + 1;
        }
        proof {
            if i < self.failures {
                lemma_capped_stays(self.base_ms, self.cap_ms, i, self.failures);
            }
        }
        delay
    }
}

/// Once the wait has reached the cap, more failures leave it there.
pub proof fn lemma_capped_stays(base_ms: u64, cap_ms: u64, reached: u32, later: u32)
    requires
        reached <= later,
        wait_after(base_ms, cap_ms, reached) == cap_ms,
    ensures
        wait_after(base_ms, cap_ms, later) == cap_ms,
    decreases later - reached,
{
    if reached < later {
        lemma_capped_stays(base_ms, cap_ms, reached, (later - 1) as u32);
        lemma_doubled_grows(base_ms as nat, (later - 1) as nat);
    }
}

} // verus!
