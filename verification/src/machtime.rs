//! Kernel ticks, and the ratio that turns them into time.

use crate::time::Duration;
use vstd::prelude::*;

verus! {

/// A count of kernel ticks. It means nothing without a timebase.
#[derive(Debug, Clone, Copy, PartialEq, Eq, Structural, PartialOrd, Ord)]
pub struct MachTicks(pub u64);

/// How many nanoseconds a tick lasts, as a fraction.
#[derive(Debug, Clone, Copy, PartialEq, Eq, Structural)]
pub struct MachTimebase {
    numer: u32,
    denom: u32,
}

impl MachTimebase {
    /// Whether the fraction is one.
    pub closed spec fn wf(self) -> bool {
        self.denom != 0
    }

    /// The nanoseconds above the line.
    pub closed spec fn above(self) -> nat {
        self.numer as nat
    }

    /// The ticks below it.
    pub closed spec fn below(self) -> nat {
        self.denom as nat
    }

    /// `numer` nanoseconds for every `denom` ticks.
    pub fn new(numer: u32, denom: u32) -> (timebase: MachTimebase)
        requires
            denom != 0,
        ensures
            timebase.wf(),
            timebase.above() == numer,
            timebase.below() == denom,
    {
        MachTimebase { numer, denom }
    }

    /// How long a number of ticks lasts, rounded down to whole nanoseconds.
    pub fn duration(&self, ticks: MachTicks) -> (span: Duration)
        requires
            self.wf(),
        ensures
            span.nanos == ticks.0 as nat * self.above() / self.below(),
    {
        assert(ticks.0 * self.numer <= u64::MAX * u32::MAX) by (nonlinear_arith)
            requires
                ticks.0 <= u64::MAX,
                self.numer <= u32::MAX,
        ;
        Duration { nanos: (ticks.0 as u128) * (self.numer as u128) / (self.denom as u128) }
    }
}

/// A timebase is one exactly if there is something below its line.
pub proof fn lemma_is_a_fraction(timebase: MachTimebase)
    ensures
        timebase.wf() <==> timebase.below() > 0,
{
}

/// Reading ticks as nanoseconds understates them by exactly the timebase: where a tick lasts longer
/// than a nanosecond, a duration is never shorter than its tick count.
pub proof fn law_ticks_longer_than_nanoseconds_are_not_lost(ticks: nat, above: nat, below: nat)
    requires
        0 < below <= above,
    ensures
        ticks * above / below >= ticks,
{
    assert(ticks * above >= ticks * below) by (nonlinear_arith)
        requires
            below <= above,
    ;
    assert(ticks * above / below >= ticks) by (nonlinear_arith)
        requires
            below > 0,
            ticks * above >= ticks * below,
    ;
}

} // verus!
