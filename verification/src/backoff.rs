//! Exponential backoff state for one dependency: a delay that doubles
//! on each consecutive failure up to a cap, and resets to its minimum
//! on any success. There is no retry ceiling anywhere in the relay,
//! only a maximum delay.

use vstd::prelude::*;

verus! {

/// A power of two.
pub open spec fn spec_pow2(n: nat) -> nat
    decreases n,
{
    if n == 0 {
        1
    } else {
        2 * spec_pow2((n - 1) as nat)
    }
}

/// Backoff state: the delay to apply before the next attempt, between
/// a minimum it resets to and a cap it never exceeds.
pub struct Backoff {
    /// The delay to apply before the next attempt, in milliseconds.
    pub delay_ms: u64,
    /// The delay after a success, in milliseconds.
    pub min_ms: u64,
    /// The cap consecutive failures approach, in milliseconds.
    pub max_ms: u64,
}

impl Backoff {
    /// The delay stays between the minimum and the cap.
    pub open spec fn wf(&self) -> bool {
        0 < self.min_ms <= self.delay_ms <= self.max_ms
    }

    /// A delay doubled and capped.
    pub open spec fn spec_doubled(delay: u64, max: u64) -> u64 {
        if delay > max / 2 {
            max
        } else {
            (2 * delay) as u64
        }
    }

    /// The state after one more consecutive failure.
    pub open spec fn spec_failed(self) -> Backoff {
        Backoff {
            delay_ms: Self::spec_doubled(self.delay_ms, self.max_ms),
            min_ms: self.min_ms,
            max_ms: self.max_ms,
        }
    }

    /// The state after a success.
    pub open spec fn spec_reset(self) -> Backoff {
        Backoff { delay_ms: self.min_ms, min_ms: self.min_ms, max_ms: self.max_ms }
    }

    /// The state after a run of consecutive failures.
    pub open spec fn spec_after_failures(self, n: nat) -> Backoff
        decreases n,
    {
        if n == 0 {
            self
        } else {
            self.spec_after_failures((n - 1) as nat).spec_failed()
        }
    }

    /// A fresh backoff waits the minimum delay.
    pub fn new(min_ms: u64, max_ms: u64) -> (b: Backoff)
        requires
            0 < min_ms <= max_ms,
        ensures
            b == (Backoff { delay_ms: min_ms, min_ms, max_ms }),
            b.wf(),
    {
        Backoff { delay_ms: min_ms, min_ms, max_ms }
    }

    /// The delay to apply before the attempt now due, in milliseconds.
    pub fn delay_ms(&self) -> (d: u64)
        ensures
            d == self.delay_ms,
    {
        self.delay_ms
    }

    /// Records a failed attempt: the next delay doubles, up to the
    /// cap, which is never exceeded.
    pub fn on_failure(&mut self)
        requires
            old(self).wf(),
        ensures
            *final(self) == old(self).spec_failed(),
            final(self).delay_ms <= final(self).max_ms,
            final(self).wf(),
    {
        if self.delay_ms > self.max_ms / 2 {
            self.delay_ms = self.max_ms;
        } else {
            self.delay_ms = 2 * self.delay_ms;
        }
    }

    /// Records a success: the delay resets to the minimum.
    pub fn on_success(&mut self)
        requires
            old(self).wf(),
        ensures
            *final(self) == old(self).spec_reset(),
            final(self).wf(),
    {
        self.delay_ms = self.min_ms;
    }
}

/// Consecutive failures never drive the delay past the cap, and once
/// enough of them have doubled the minimum up to the cap, the delay is
/// exactly the cap: backoff growth is bounded, not unbounded.
pub proof fn lemma_backoff_reaches_cap(b: Backoff, n: nat)
    requires
        b.wf(),
    ensures
        b.spec_after_failures(n).wf(),
        b.spec_after_failures(n).min_ms == b.min_ms,
        b.spec_after_failures(n).max_ms == b.max_ms,
        b.spec_after_failures(n).delay_ms <= b.max_ms,
        b.min_ms * spec_pow2(n) >= b.max_ms ==> b.spec_after_failures(n).delay_ms == b.max_ms,
{
    if n == 0 {
        assert(spec_pow2(0) == 1);
        if b.min_ms * spec_pow2(0) >= b.max_ms {
            assert(b.min_ms * spec_pow2(0) == b.min_ms) by (nonlinear_arith)
                requires
                    spec_pow2(0) == 1,
            ;
            assert(b.delay_ms == b.max_ms);
        }
    } else {
        lemma_delay_dominates_pow2(b, n);
        let cur = b.spec_after_failures(n);
        if b.min_ms * spec_pow2(n) >= b.max_ms {
            assert(cur.delay_ms == b.max_ms || cur.delay_ms >= b.min_ms * spec_pow2(n));
            assert(cur.delay_ms <= b.max_ms);
        }
    }
}

/// After a run of failures the delay is the cap already, or at least
/// the minimum scaled by two for every failure.
proof fn lemma_delay_dominates_pow2(b: Backoff, n: nat)
    requires
        b.wf(),
    ensures
        b.spec_after_failures(n).wf(),
        b.spec_after_failures(n).min_ms == b.min_ms,
        b.spec_after_failures(n).max_ms == b.max_ms,
        b.spec_after_failures(n).delay_ms == b.max_ms || b.spec_after_failures(n).delay_ms
            >= b.min_ms * spec_pow2(n),
    decreases n,
{
    if n == 0 {
        assert(spec_pow2(0) == 1);
        assert(b.min_ms * spec_pow2(0) == b.min_ms) by (nonlinear_arith)
            requires
                spec_pow2(0) == 1,
        ;
    } else {
        lemma_delay_dominates_pow2(b, (n - 1) as nat);
        let prev = b.spec_after_failures((n - 1) as nat);
        assert(b.spec_after_failures(n) == prev.spec_failed());
        assert(b.min_ms * spec_pow2(n) == 2 * (b.min_ms * spec_pow2((n - 1) as nat)))
            by (nonlinear_arith)
            requires
                spec_pow2(n) == 2 * spec_pow2((n - 1) as nat),
        ;
        if prev.delay_ms == b.max_ms {
            assert(prev.spec_failed().delay_ms == b.max_ms);
        } else {
            assert(prev.delay_ms >= b.min_ms * spec_pow2((n - 1) as nat));
            if prev.delay_ms > prev.max_ms / 2 {
                assert(prev.spec_failed().delay_ms == b.max_ms);
            } else {
                assert(prev.spec_failed().delay_ms == 2 * prev.delay_ms);
                assert(2 * prev.delay_ms >= b.min_ms * spec_pow2(n));
            }
        }
    }
}

} // verus!
