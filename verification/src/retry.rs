//! Waiting longer and longer between attempts.
use vstd::arithmetic::power2::pow2;
use vstd::prelude::*;

verus! {

/// The longest delay, in nanoseconds: 2^64 - 1 seconds and 999,999,999 nanoseconds.
pub const MAX_DELAY_NANOS: u128 = 18_446_744_073_709_551_615_999_999_999;

/// How long to wait.
#[derive(Clone, Copy, PartialEq, Eq, Structural, Debug)]
pub struct Delay {
    nanos: u128,
}

impl Delay {
    #[verifier::type_invariant]
    spec fn in_range(self) -> bool {
        self.nanos <= MAX_DELAY_NANOS
    }

    /// The delay in nanoseconds.
    pub closed spec fn spec_nanos(self) -> u128 {
        self.nanos
    }

    /// The delay in nanoseconds.
    #[verifier::when_used_as_spec(spec_nanos)]
    pub fn nanos(self) -> (nanos: u128)
        ensures
            nanos == self.spec_nanos(),
            nanos <= MAX_DELAY_NANOS,
    {
        proof {
            use_type_invariant(self);
        }
        self.nanos
    }

    /// The delay in whole seconds and the nanoseconds on top of them.
    pub fn parts(self) -> (parts: (u64, u32))
        ensures
            parts.0 == self.nanos() / 1_000_000_000,
            parts.1 == self.nanos() % 1_000_000_000,
    {
        proof {
            use_type_invariant(self);
        }
        ((self.nanos / 1_000_000_000) as u64, (self.nanos % 1_000_000_000) as u32)
    }

    /// A delay in milliseconds.
    pub fn from_millis(millis: u64) -> (delay: Delay)
        ensures
            delay.nanos() == millis * 1_000_000,
    {
        Delay { nanos: millis as u128 * 1_000_000 }
    }

    /// A delay in seconds.
    pub fn from_secs(secs: u64) -> (delay: Delay)
        ensures
            delay.nanos() == secs * 1_000_000_000,
    {
        Delay { nanos: secs as u128 * 1_000_000_000 }
    }

    /// Twice as long, but no longer than `max`.
    pub fn doubled_up_to(self, max: Delay) -> (next: Delay)
        ensures
            next.nanos() == next_delay(self.nanos() as nat, max.nanos() as nat),
    {
        proof {
            use_type_invariant(self);
            use_type_invariant(max);
        }
        if self.nanos * 2 < max.nanos {
            Delay { nanos: self.nanos * 2 }
        } else {
            max
        }
    }
}

/// The delay after this one: twice as long, up to the cap.
pub open spec fn next_delay(nanos: nat, max: nat) -> nat {
    if nanos * 2 < max {
        nanos * 2
    } else {
        max
    }
}

/// The first delay and the longest.
#[derive(Clone, Copy, Debug)]
pub struct Backoff {
    pub initial: Delay,
    pub max: Delay,
}

/// The delay after `failures` earlier ones.
pub open spec fn delay_after(initial: nat, max: nat, failures: nat) -> nat
    decreases failures,
{
    if failures == 0 {
        initial
    } else {
        next_delay(delay_after(initial, max, (failures - 1) as nat), max)
    }
}

/// What to do after an attempt failed.
#[derive(Clone, Copy, PartialEq, Eq, Structural, Debug)]
pub enum Retry {
    /// Give up and hand the error on.
    GiveUp,
    /// Wait and try again.
    After { delay: Delay },
}

/// Attempts that are repeated until one succeeds or an error is not to be retried.
pub struct Attempts {
    backoff: Backoff,
    delay: Delay,
    failures: Ghost<nat>,
}

impl Attempts {
    #[verifier::type_invariant]
    spec fn on_schedule(self) -> bool {
        self.delay.nanos() == delay_after(
            self.backoff.initial.nanos() as nat,
            self.backoff.max.nanos() as nat,
            self.failures@,
        )
    }

    /// How many attempts failed and were retried.
    pub closed spec fn failures(self) -> nat {
        self.failures@
    }

    /// The delays between the attempts.
    pub closed spec fn backoff(self) -> Backoff {
        self.backoff
    }

    /// No attempt has failed yet.
    pub fn new(backoff: Backoff) -> (attempts: Attempts)
        ensures
            attempts.backoff() == backoff,
            attempts.failures() == 0,
    {
        Attempts { backoff, delay: backoff.initial, failures: Ghost(0) }
    }

    /// An attempt failed. The error is handed on unless it is to be retried; then the delay is the
    /// one that is due after the failures so far.
    pub fn failed(&mut self, keep_trying: bool) -> (retry: Retry)
        ensures
            final(self).backoff() == old(self).backoff(),
            !keep_trying ==> retry == Retry::GiveUp && final(self).failures() == old(
                self,
            ).failures(),
            keep_trying ==> {
                &&& retry matches Retry::After { delay } && delay.nanos() == delay_after(
                    old(self).backoff().initial.nanos() as nat,
                    old(self).backoff().max.nanos() as nat,
                    old(self).failures(),
                )
                &&& final(self).failures() == old(self).failures() + 1
            },
    {
        if !keep_trying {
            return Retry::GiveUp;
        }
        proof {
            use_type_invariant(&*self);
        }
        let delay: Delay = self.delay;
        *self = Attempts {
            backoff: self.backoff,
            delay: delay.doubled_up_to(self.backoff.max),
            failures: Ghost(self.failures@ + 1),
        };
        Retry::After { delay }
    }
}

/// With a first delay no longer than the cap, the delays double each time until they reach the cap
/// and stay there.
pub proof fn law_delays_grow_up_to_the_cap(initial: nat, max: nat, failures: nat)
    requires
        initial <= max,
    ensures
        delay_after(initial, max, failures) == if initial * pow2(failures) < max {
            initial * pow2(failures)
        } else {
            max
        },
        delay_after(initial, max, failures) <= delay_after(initial, max, failures + 1) <= max,
    decreases failures,
{
    if failures == 0 {
        vstd::arithmetic::power2::lemma_pow2_unfold(1);
        vstd::arithmetic::power2::lemma2_to64();
        assert(initial * pow2(0) == initial) by (nonlinear_arith)
            requires
                pow2(0) == 1,
        ;
    } else {
        let before = (failures - 1) as nat;
        law_delays_grow_up_to_the_cap(initial, max, before);
        vstd::arithmetic::power2::lemma_pow2_unfold(failures);
        assert(initial * pow2(failures) == 2 * (initial * pow2(before))) by (nonlinear_arith)
            requires
                pow2(failures) == 2 * pow2(before),
        ;
    }
}

/// The first delay is the initial one. Every later one is twice as long as the one before it, but
/// never longer than the cap; so after `failures` earlier ones the delay is the initial one doubled
/// so many times, or the cap where that is less, even where the initial one is above the cap.
pub proof fn law_every_later_delay_is_capped(initial: nat, max: nat, failures: nat)
    ensures
        delay_after(initial, max, 0) == initial,
        failures > 0 ==> delay_after(initial, max, failures) == if initial * pow2(failures) < max {
            initial * pow2(failures)
        } else {
            max
        },
        failures > 0 ==> delay_after(initial, max, failures) <= max,
    decreases failures,
{
    if failures == 1 {
        vstd::arithmetic::power2::lemma_pow2_unfold(1);
        vstd::arithmetic::power2::lemma2_to64();
        assert(delay_after(initial, max, 0) == initial);
        assert(initial * pow2(1) == initial * 2) by (nonlinear_arith)
            requires
                pow2(1) == 2,
        ;
    } else if failures > 1 {
        let before = (failures - 1) as nat;
        law_every_later_delay_is_capped(initial, max, before);
        vstd::arithmetic::power2::lemma_pow2_unfold(failures);
        assert(initial * pow2(failures) == 2 * (initial * pow2(before))) by (nonlinear_arith)
            requires
                pow2(failures) == 2 * pow2(before),
        ;
    }
}

} // verus!
