//! The waiting time between two random Kademlia queries.
use vstd::arithmetic::power2::{lemma2_to64, lemma_pow2_unfold, pow2};
use vstd::prelude::*;

verus! {

/// The first waiting time, in seconds.
pub const FIRST_DELAY_SECS: u64 = 1;

/// The longest waiting time, in seconds.
pub const MAX_DELAY_SECS: u64 = 60;

/// The waiting time that follows one of `secs` seconds: twice as long, but
/// never longer than [`MAX_DELAY_SECS`].
pub open spec fn doubled(secs: nat) -> nat {
    if 2 * secs <= MAX_DELAY_SECS {
        2 * secs
    } else {
        MAX_DELAY_SECS as nat
    }
}

/// The waiting time once the timer has fired `fired` times.
pub open spec fn delay_after(fired: nat) -> nat
    decreases fired,
{
    if fired == 0 {
        FIRST_DELAY_SECS as nat
    } else {
        doubled(delay_after((fired - 1) as nat))
    }
}

/// How long to wait for the next random query.
#[derive(Debug)]
pub struct QueryDelay {
    secs: u64,
}

impl View for QueryDelay {
    type V = nat;

    closed spec fn view(&self) -> nat {
        self.secs as nat
    }
}

impl QueryDelay {
    #[verifier::type_invariant]
    spec fn in_range(self) -> bool {
        FIRST_DELAY_SECS <= self.secs <= MAX_DELAY_SECS
    }

    /// The waiting time before the timer has ever fired.
    pub fn new() -> (delay: Self)
        ensures
            delay@ == delay_after(0),
    {
        QueryDelay { secs: FIRST_DELAY_SECS }
    }

    /// The waiting time in seconds.
    pub fn secs(&self) -> (secs: u64)
        ensures
            secs == self@,
            FIRST_DELAY_SECS <= secs <= MAX_DELAY_SECS,
    {
        proof {
            use_type_invariant(self);
        }
        self.secs
    }

    /// Doubles the waiting time, up to the longest one.
    pub fn advance(&mut self)
        ensures
            final(self)@ == doubled(old(self)@),
    {
        proof {
            use_type_invariant(&*self);
        }
        self.secs = if self.secs * 2 <= MAX_DELAY_SECS {
            self.secs * 2
        } else {
            MAX_DELAY_SECS
        };
    }
}

/// The waiting time doubles each time the timer fires, starting at one second,
/// until it stays at the longest one.
pub proof fn delay_is_capped_power_of_two(fired: nat)
    ensures
        delay_after(fired) == (if pow2(fired) <= MAX_DELAY_SECS {
            pow2(fired)
        } else {
            MAX_DELAY_SECS as nat
        }),
    decreases fired,
{
    if fired == 0 {
        lemma2_to64();
    } else {
        delay_is_capped_power_of_two((fired - 1) as nat);
        lemma_pow2_unfold(fired);
    }
}

/// The waiting time never shrinks, is at least the first one and at most the
/// longest one.
pub proof fn delay_grows_within_bounds(fired: nat, more: nat)
    ensures
        FIRST_DELAY_SECS <= delay_after(fired) <= delay_after(fired + more) <= MAX_DELAY_SECS,
    decreases fired + more,
{
    if more == 0 {
        if fired > 0 {
            delay_grows_within_bounds((fired - 1) as nat, 0);
        }
    } else {
        delay_grows_within_bounds(fired, (more - 1) as nat);
        assert(delay_after(fired + more) == doubled(delay_after((fired + more - 1) as nat)));
    }
}

} // verus!
