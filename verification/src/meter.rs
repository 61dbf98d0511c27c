//! What the monitor itself costs: its CPU over a trailing window, and what its passes took.
//!
//! A rate is handed out as what was spent and the span it was spent in. Whoever shows it divides.

use crate::collect::{Exchange, World};
use crate::schedule;
use crate::schedule::{Budgets, Completion};
use crate::state::Tier;
use crate::text;
use crate::time::Duration;
use crate::world::{Resources, ResourcesUnavailable};
use vstd::prelude::*;

verus! {

/// How far back a rate looks by default: a minute.
pub open spec fn minute() -> Duration {
    Duration { nanos: 60_000_000_000 }
}

/// A figure, or the reason there is none.
#[derive(Debug, PartialEq, Eq)]
pub struct Measured<T> {
    pub value: Option<T>,
    pub unavailable: Option<String>,
}

impl<T> Measured<T> {
    /// A figure.
    pub fn known(value: T) -> (measured: Measured<T>)
        ensures
            measured == (Measured { value: Some(value), unavailable: None::<String> }),
    {
        Measured { value: Some(value), unavailable: None }
    }

    /// The reason there is none.
    pub fn unavailable(why: String) -> (measured: Measured<T>)
        ensures
            measured == (Measured { value: None::<T>, unavailable: Some(why) }),
    {
        Measured { value: None, unavailable: Some(why) }
    }

    /// Whether it is this figure, or carries this reason.
    pub open spec fn says(self, expected: Result<T, Seq<char>>) -> bool {
        match expected {
            Ok(value) => self.value == Some(value) && self.unavailable is None,
            Err(why) => self.value is None && (self.unavailable matches Some(words) && words@ == why),
        }
    }

    /// What an attempt to measure gave.
    pub open spec fn of(outcome: Result<T, String>) -> Measured<T> {
        match outcome {
            Ok(value) => Measured { value: Some(value), unavailable: None },
            Err(why) => Measured { value: None, unavailable: Some(why) },
        }
    }

    /// What an attempt to measure gave.
    pub fn from(outcome: Result<T, String>) -> (measured: Measured<T>)
        ensures
            measured == Measured::of(outcome),
    {
        match outcome {
            Ok(value) => Measured::known(value),
            Err(why) => Measured::unavailable(why),
        }
    }
}

/// A measurement is either a figure or a reason, never both and never neither.
pub proof fn law_a_figure_or_a_reason<T>(outcome: Result<T, String>)
    ensures
        Measured::of(outcome).value is Some <==> Measured::of(outcome).unavailable is None,
{
}

/// What was spent, of what.
#[derive(Debug, Clone, Copy, PartialEq, Eq, Structural)]
pub struct Share {
    pub spent: Duration,
    pub span: Duration,
}

impl Share {
    /// Whether the share is no more than a hundredth.
    pub open spec fn is_affordable(self) -> bool {
        self.spent.nanos * 100 <= self.span.nanos
    }

    /// Whether the share is no more than a hundredth, which is what the monitor may cost of one core.
    pub fn within_budget(&self) -> (within: bool)
        ensures
            within == self.is_affordable(),
    {
        let most: u128 = self.span.nanos / 100;
        self.spent.nanos <= most
    }
}

/// The monitor's CPU at an instant, counted from the start of its loop.
#[derive(Debug, Clone, Copy, PartialEq, Eq, Structural)]
pub struct CpuSample {
    pub at: Duration,
    pub cpu: Duration,
}

/// One pass of a tier.
#[derive(Debug, Clone, Copy, PartialEq, Eq, Structural)]
pub struct Done {
    pub tier: Tier,
    pub at: Duration,
    pub took: Duration,
    pub completion: Completion,
}

/// What a tier's last pass took, as it is published.
#[derive(Debug, PartialEq, Eq)]
pub struct PassReport {
    pub tier: String,
    pub took_ms: u128,
    pub budget_ms: u128,
    pub overran: Option<String>,
    pub age_ms: u128,
}

/// What the monitor costs, as it is published.
#[derive(Debug, PartialEq, Eq)]
pub struct SelfReport {
    pub own_cpu_ms: Measured<u128>,
    pub window_secs: u128,
    pub duty_cycle: Measured<Share>,
    pub busy_fraction: Measured<Share>,
    pub within_budget: Measured<bool>,
    pub pace: String,
    pub passes: Vec<(String, u64)>,
    pub last_pass: Vec<PassReport>,
}

/// The monitor's own meter.
#[derive(Debug)]
pub struct Meter {
    window: Duration,
    cpu: Vec<CpuSample>,
    passes: Vec<Done>,
    fast: Option<Done>,
    medium: Option<Done>,
    slow: Option<Done>,
    fast_count: u64,
    medium_count: u64,
    slow_count: u64,
}

/// Samples without those that lie wholly before a horizon: the last one at or before it is kept, so
/// that the samples still span the window, and two are always kept.
pub open spec fn recent_samples(samples: Seq<CpuSample>, horizon: Duration) -> Seq<CpuSample>
    decreases samples.len(),
{
    if samples.len() > 2 && samples[1].at.nanos <= horizon.nanos {
        recent_samples(samples.drop_first(), horizon)
    } else {
        samples
    }
}

/// Passes without those that began before a horizon, as far as they stand in front.
pub open spec fn recent_passes(passes: Seq<Done>, horizon: Duration) -> Seq<Done>
    decreases passes.len(),
{
    if passes.len() > 0 && passes[0].at.nanos < horizon.nanos {
        recent_passes(passes.drop_first(), horizon)
    } else {
        passes
    }
}

/// Samples with one more, as far back as a rate looks from it.
pub open spec fn sampled_at(
    samples: Seq<CpuSample>,
    at: Duration,
    cpu: Duration,
    window: Duration,
) -> Seq<CpuSample> {
    recent_samples(samples.push(CpuSample { at, cpu }), at.minus(window))
}

/// Passes with one more, as far back as a rate looks from it.
pub open spec fn with_pass(passes: Seq<Done>, pass: Done, window: Duration) -> Seq<Done> {
    recent_passes(passes.push(pass), pass.at.minus(window))
}

/// What passes took together, and the most a span can hold where that is less.
pub open spec fn busy(passes: Seq<Done>) -> int
    decreases passes.len(),
{
    if passes.len() == 0 {
        0
    } else {
        let sum = busy(passes.drop_last()) + passes.last().took.nanos;
        if sum > u128::MAX {
            u128::MAX as int
        } else {
            sum
        }
    }
}

impl Meter {
    /// How far back rates look.
    pub closed spec fn looks_back(self) -> Duration {
        self.window
    }

    /// The samples a rate is taken from.
    pub closed spec fn samples(self) -> Seq<CpuSample> {
        self.cpu@
    }

    /// The passes of the window.
    pub closed spec fn done(self) -> Seq<Done> {
        self.passes@
    }

    /// The last pass of a tier.
    pub closed spec fn last(self, tier: Tier) -> Option<Done> {
        match tier {
            Tier::Fast => self.fast,
            Tier::Medium => self.medium,
            Tier::Slow => self.slow,
        }
    }

    /// How many passes a tier has completed.
    pub closed spec fn completed_by(self, tier: Tier) -> nat {
        match tier {
            Tier::Fast => self.fast_count as nat,
            Tier::Medium => self.medium_count as nat,
            Tier::Slow => self.slow_count as nat,
        }
    }

    /// Nothing has been measured.
    pub fn new(window: Duration) -> (meter: Meter)
        ensures
            meter.looks_back() == window,
            meter.samples().len() == 0,
            meter.done().len() == 0,
            forall|tier: Tier| meter.last(tier) is None,
            forall|tier: Tier| meter.completed_by(tier) == 0,
    {
        Meter {
            window,
            cpu: Vec::new(),
            passes: Vec::new(),
            fast: None,
            medium: None,
            slow: None,
            fast_count: 0,
            medium_count: 0,
            slow_count: 0,
        }
    }

    /// Records the monitor's CPU at an instant.
    pub fn sampled(&mut self, at: Duration, cpu: Duration)
        ensures
            final(self).samples() == sampled_at(
                old(self).samples(),
                at,
                cpu,
                old(self).looks_back(),
            ),
            final(self).looks_back() == old(self).looks_back(),
            final(self).done() == old(self).done(),
            forall|tier: Tier| final(self).last(tier) == old(self).last(tier),
            forall|tier: Tier| final(self).completed_by(tier) == old(self).completed_by(tier),
    {
        self.cpu.push(CpuSample { at, cpu });
        let horizon: Duration = at.saturating_sub(self.window);
        let ghost all = self.cpu@;
        let ghost before = *self;
        let mut cut: usize = 0;
        assert(all.skip(0) =~= all);
        while self.cpu.len() - cut > 2 && self.cpu[cut + 1].at.nanos <= horizon.nanos
            invariant
                cut <= self.cpu@.len(),
                self.cpu@ == all,
                *self == before,
                recent_samples(all, horizon) == recent_samples(all.skip(cut as int), horizon),
            decreases self.cpu@.len() - cut,
        {
            assert(all.skip(cut as int).drop_first() =~= all.skip(cut + 1));
            cut += 1;
        }
        let kept: Vec<CpuSample> = self.cpu.split_off(cut);
        self.cpu = kept;
        assert(self.cpu@ =~= all.skip(cut as int));
    }

    /// Records that a pass completed.
    pub fn completed(&mut self, tier: Tier, at: Duration, took: Duration, completion: Completion)
        requires
            old(self).completed_by(tier) < u64::MAX,
        ensures
            final(self).done() == with_pass(
                old(self).done(),
                Done { tier, at, took, completion },
                old(self).looks_back(),
            ),
            final(self).last(tier) == Some(Done { tier, at, took, completion }),
            forall|other: Tier| other != tier ==> final(self).last(other) == old(self).last(other),
            final(self).completed_by(tier) == old(self).completed_by(tier) + 1,
            forall|other: Tier|
                other != tier ==> final(self).completed_by(other) == old(self).completed_by(other),
            final(self).looks_back() == old(self).looks_back(),
            final(self).samples() == old(self).samples(),
    {
        let pass = Done { tier, at, took, completion };
        match tier {
            Tier::Fast => {
                self.fast = Some(pass);
                self.fast_count = self.fast_count + 1;
            },
            Tier::Medium => {
                self.medium = Some(pass);
                self.medium_count = self.medium_count + 1;
            },
            Tier::Slow => {
                self.slow = Some(pass);
                self.slow_count = self.slow_count + 1;
            },
        }
        self.passes.push(pass);
        let horizon: Duration = at.saturating_sub(self.window);
        let ghost all = self.passes@;
        let ghost before = *self;
        let mut cut: usize = 0;
        assert(all.skip(0) =~= all);
        while cut < self.passes.len() && self.passes[cut].at.nanos < horizon.nanos
            invariant
                cut <= self.passes@.len(),
                self.passes@ == all,
                *self == before,
                recent_passes(all, horizon) == recent_passes(all.skip(cut as int), horizon),
            decreases self.passes@.len() - cut,
        {
            assert(all.skip(cut as int).drop_first() =~= all.skip(cut + 1));
            cut += 1;
        }
        let kept: Vec<Done> = self.passes.split_off(cut);
        self.passes = kept;
        assert(self.passes@ =~= all.skip(cut as int));
    }

    /// How many passes a tier has completed.
    pub fn count(&self, tier: Tier) -> (total: u64)
        ensures
            total == self.completed_by(tier),
    {
        match tier {
            Tier::Fast => self.fast_count,
            Tier::Medium => self.medium_count,
            Tier::Slow => self.slow_count,
        }
    }

    /// What of one core the monitor used between its first and its last sample, or why that is not
    /// known: there are fewer than two, or they were taken at one instant.
    pub open spec fn rate(self) -> Result<Share, Seq<char>> {
        let samples = self.samples();
        if samples.len() < 2 {
            Err(
                "only "@ + text::decimal(samples.len())
                    + " CPU sample(s) have been taken, and a rate needs two"@,
            )
        } else if samples.last().at.minus(samples.first().at).nanos == 0 {
            Err(
                "the two CPU samples were taken at the same instant, so no rate can be computed from them"@,
            )
        } else {
            Ok(
                Share {
                    spent: samples.last().cpu.minus(samples.first().cpu),
                    span: samples.last().at.minus(samples.first().at),
                },
            )
        }
    }

    /// What of one core the monitor used, or why that is not known.
    pub fn duty_cycle(&self) -> (rate: Result<Share, String>)
        ensures
            match rate {
                Ok(share) => self.rate() == Ok::<Share, Seq<char>>(share) && share.span.nanos > 0,
                Err(why) => self.rate() == Err::<Share, Seq<char>>(why@),
            },
    {
        if self.cpu.len() < 2 {
            return Err(
                String::from_str("only ").concat(text::count_of(self.cpu.len()).as_str()).concat(
                    " CPU sample(s) have been taken, and a rate needs two",
                ),
            );
        }
        let first: CpuSample = self.cpu[0];
        let last: CpuSample = self.cpu[self.cpu.len() - 1];
        let span: Duration = last.at.saturating_sub(first.at);
        if span.nanos == 0 {
            return Err(
                String::from_str(
                    "the two CPU samples were taken at the same instant, so no rate can be computed from them",
                ),
            );
        }
        Ok(Share { spent: last.cpu.saturating_sub(first.cpu), span })
    }

    /// The span a busy fraction is a fraction of: the window, or all the time there was.
    pub open spec fn so_far(self, at: Duration) -> Duration {
        if at.nanos < self.looks_back().nanos {
            at
        } else {
            self.looks_back()
        }
    }

    /// What of the window the passes took, or why that is not known.
    pub fn busy_fraction(&self, at: Duration) -> (fraction: Result<Share, String>)
        ensures
            match fraction {
                Ok(share) => share.span == self.so_far(at) && share.span.nanos > 0
                    && share.spent.nanos == busy(self.done()),
                Err(why) => self.so_far(at).nanos == 0 && why@
                    == "the loop has not been running long enough to have a busy fraction yet"@,
            },
    {
        let span: Duration = if at.nanos < self.window.nanos {
            at
        } else {
            self.window
        };
        if span.nanos == 0 {
            return Err(
                String::from_str(
                    "the loop has not been running long enough to have a busy fraction yet",
                ),
            );
        }
        let mut total: u128 = 0;
        let mut next: usize = 0;
        assert(self.passes@.take(0) =~= Seq::<Done>::empty());
        while next < self.passes.len()
            invariant
                next <= self.passes@.len(),
                total == busy(self.passes@.take(next as int)),
            decreases self.passes@.len() - next,
        {
            assert(self.passes@.take(next + 1).drop_last() =~= self.passes@.take(next as int));
            total = total.saturating_add(self.passes[next].took.nanos);
            next += 1;
        }
        assert(self.passes@.take(next as int) =~= self.passes@);
        Ok(Share { spent: Duration { nanos: total }, span })
    }

    /// Whether a report on a pass is one.
    pub open spec fn is_pass_report(report: PassReport, pass: Done, at: Duration, budgets: Budgets) -> bool {
        &&& report.tier@ == tier_word(pass.tier)
        &&& report.took_ms == pass.took.millis()
        &&& report.budget_ms == match pass.tier {
            Tier::Fast => budgets.fast.millis(),
            Tier::Medium => budgets.medium.millis(),
            Tier::Slow => budgets.slow.millis(),
        }
        &&& match report.overran {
            Some(why) => pass.completion.reason() == Some(why@),
            None => pass.completion.reason() is None,
        }
        &&& report.age_ms == at.minus(pass.at).millis()
    }

    fn pass_report(pass: Done, at: Duration, budgets: &Budgets) -> (report: PassReport)
        ensures
            Meter::is_pass_report(report, pass, at, *budgets),
    {
        PassReport {
            tier: String::from_str(tier_name(pass.tier)),
            took_ms: pass.took.as_millis(),
            budget_ms: budgets.budget(pass.tier).as_millis(),
            overran: pass.completion.why(),
            age_ms: at.saturating_sub(pass.at).as_millis(),
        }
    }

    /// The last passes of the tiers that have run, the most frequent tier first.
    pub open spec fn last_passes(self, upto: int) -> Seq<Done>
        decreases upto,
    {
        if upto <= 0 {
            Seq::empty()
        } else {
            let before = self.last_passes(upto - 1);
            match self.last(seq![Tier::Fast, Tier::Medium, Tier::Slow][upto - 1]) {
                Some(pass) => before.push(pass),
                None => before,
            }
        }
    }

    /// Whether this is what the monitor costs, as it is published.
    pub open spec fn is_report(
        self,
        report: SelfReport,
        at: Duration,
        pace: Seq<char>,
        budgets: Budgets,
    ) -> bool {
        &&& match report.own_cpu_ms.value {
            Some(millis) => self.samples().len() > 0 && millis
                == self.samples().last().cpu.millis() && report.own_cpu_ms.unavailable is None,
            None => self.samples().len() == 0 && report.own_cpu_ms.unavailable is Some
                && report.own_cpu_ms.unavailable->0@ == "no CPU reading has been taken yet"@,
        }
        &&& report.window_secs == self.looks_back().secs()
        &&& match self.rate() {
            Ok(share) => report.duty_cycle == (Measured {
                value: Some(share),
                unavailable: None::<String>,
            }) && report.within_budget == (Measured {
                value: Some(share.is_affordable()),
                unavailable: None::<String>,
            }),
            Err(why) => {
                &&& report.duty_cycle.value is None
                &&& report.duty_cycle.unavailable is Some
                &&& report.duty_cycle.unavailable->0@ == why
                &&& report.within_budget.value is None
                &&& report.within_budget.unavailable is Some
                &&& report.within_budget.unavailable->0@ == why
            },
        }
        &&& match report.busy_fraction.value {
            Some(share) => share.span == self.so_far(at) && share.span.nanos > 0
                && share.spent.nanos == busy(self.done()),
            None => self.so_far(at).nanos == 0 && report.busy_fraction.unavailable is Some
                && report.busy_fraction.unavailable->0@
                == "the loop has not been running long enough to have a busy fraction yet"@,
        }
        &&& report.busy_fraction.value is Some <==> report.busy_fraction.unavailable is None
        &&& report.pace@ == pace
        &&& report.passes@.len() == 3
        &&& forall|i: int|
            0 <= i < 3 ==> (#[trigger] report.passes@[i]).0@ == tier_word(
                seq![Tier::Fast, Tier::Medium, Tier::Slow][i],
            ) && report.passes@[i].1 == self.completed_by(
                seq![Tier::Fast, Tier::Medium, Tier::Slow][i],
            )
        &&& report.last_pass@.len() == self.last_passes(3).len()
        &&& forall|i: int|
            0 <= i < report.last_pass@.len() ==> Meter::is_pass_report(
                #[trigger] report.last_pass@[i],
                self.last_passes(3)[i],
                at,
                budgets,
            )
    }

    /// What the monitor costs, as it is published.
    pub fn report(&self, at: Duration, pace: &str, budgets: &Budgets) -> (report: SelfReport)
        ensures
            self.is_report(report, at, pace@, *budgets),
    {
        let own_cpu_ms: Measured<u128> = if self.cpu.len() > 0 {
            Measured::known(self.cpu[self.cpu.len() - 1].cpu.as_millis())
        } else {
            Measured::unavailable(String::from_str("no CPU reading has been taken yet"))
        };
        let duty: Result<Share, String> = self.duty_cycle();
        let within: Result<bool, String> = match &duty {
            Ok(share) => Ok(share.within_budget()),
            Err(why) => Err(why.clone()),
        };
        let all = schedule::tiers();
        let mut passes: Vec<(String, u64)> = Vec::new();
        let mut last_pass: Vec<PassReport> = Vec::new();
        let mut next: usize = 0;
        while next < 3
            invariant
                next <= 3,
                all@ == seq![Tier::Fast, Tier::Medium, Tier::Slow],
                passes@.len() == next,
                forall|i: int|
                    0 <= i < next ==> (#[trigger] passes@[i]).0@ == tier_word(
                        seq![Tier::Fast, Tier::Medium, Tier::Slow][i],
                    ) && passes@[i].1 == self.completed_by(
                        seq![Tier::Fast, Tier::Medium, Tier::Slow][i],
                    ),
                last_pass@.len() == self.last_passes(next as int).len(),
                forall|i: int|
                    0 <= i < last_pass@.len() ==> Meter::is_pass_report(
                        #[trigger] last_pass@[i],
                        self.last_passes(next as int)[i],
                        at,
                        *budgets,
                    ),
            decreases 3 - next,
        {
            let tier: Tier = all[next];
            passes.push((String::from_str(tier_name(tier)), self.count(tier)));
            let last: Option<Done> = match tier {
                Tier::Fast => self.fast,
                Tier::Medium => self.medium,
                Tier::Slow => self.slow,
            };
            assert(last == self.last(seq![Tier::Fast, Tier::Medium, Tier::Slow][next as int]));
            if let Some(pass) = last {
                last_pass.push(Meter::pass_report(pass, at, budgets));
            }
            next += 1;
        }
        SelfReport {
            own_cpu_ms,
            window_secs: self.window.as_secs(),
            duty_cycle: Measured::from(duty),
            busy_fraction: Measured::from(self.busy_fraction(at)),
            within_budget: Measured::from(within),
            pace: pace.to_owned(),
            passes,
            last_pass,
        }
    }
}

impl Default for Meter {
    fn default() -> (meter: Meter)
        ensures
            meter.looks_back() == minute(),
            meter.samples().len() == 0,
            meter.done().len() == 0,
            forall|tier: Tier| meter.last(tier) is None,
            forall|tier: Tier| meter.completed_by(tier) == 0,
    {
        Meter::new(Duration { nanos: 60_000_000_000 })
    }
}

/// Taking a sample never leaves fewer than two where there were two, and keeps the newest.
pub proof fn law_a_rate_survives_sampling(samples: Seq<CpuSample>, horizon: Duration)
    ensures
        samples.len() >= 2 ==> recent_samples(samples, horizon).len() >= 2,
        samples.len() > 0 ==> recent_samples(samples, horizon).last() == samples.last(),
        recent_samples(samples, horizon).len() > 2 ==> recent_samples(samples, horizon)[1].at.nanos
            > horizon.nanos,
    decreases samples.len(),
{
    if samples.len() > 2 && samples[1].at.nanos <= horizon.nanos {
        law_a_rate_survives_sampling(samples.drop_first(), horizon);
    }
}

/// The word for a tier.
pub open spec fn tier_word(tier: Tier) -> Seq<char> {
    match tier {
        Tier::Fast => "fast"@,
        Tier::Medium => "medium"@,
        Tier::Slow => "slow"@,
    }
}

/// The word for a tier.
pub fn tier_name(tier: Tier) -> (name: &'static str)
    ensures
        name@ == tier_word(tier),
{
    match tier {
        Tier::Fast => "fast",
        Tier::Medium => "medium",
        Tier::Slow => "slow",
    }
}

/// What a process and its children have used, or why that is not known.
pub open spec fn whole_cpu(read: Result<Resources, ResourcesUnavailable>) -> Result<
    int,
    Seq<char>,
> {
    match read {
        Err(why) => Err(
            "the monitor's own resource ledger could not be read: "@ + why.words(),
        ),
        Ok(resources) => match (resources.own_cpu, resources.children_cpu) {
            (Err(why), _) => Err("the monitor's own CPU was not reported: "@ + why.words()),
            (Ok(_), Err(why)) => Err(
                "the monitor's children's CPU was not reported: "@ + why.words(),
            ),
            (Ok(own), Ok(children)) => Ok(own.nanos + children.nanos),
        },
    }
}

/// Whether this is what the monitor itself has used.
pub open spec fn is_own_cpu(
    cpu: Result<Duration, String>,
    read: Result<Resources, ResourcesUnavailable>,
) -> bool {
    match cpu {
        Ok(span) => whole_cpu(read) matches Ok(nanos) && span.nanos == (if nanos > u128::MAX {
            u128::MAX as int
        } else {
            nanos
        }),
        Err(why) => whole_cpu(read) == Err::<int, Seq<char>>(why@),
    }
}

/// What a ledger says a process and its children have used. The most a span can hold where that is
/// less.
pub fn own_cpu_of(read: Result<Resources, ResourcesUnavailable>) -> (cpu: Result<Duration, String>)
    ensures
        is_own_cpu(cpu, read),
{
    match read {
        Err(why) => Err(
            String::from_str("the monitor's own resource ledger could not be read: ").concat(
                why.to_text(),
            ),
        ),
        Ok(resources) => match (resources.own_cpu, resources.children_cpu) {
            (Err(why), _) => Err(
                String::from_str("the monitor's own CPU was not reported: ").concat(why.to_text()),
            ),
            (Ok(_), Err(why)) => Err(
                String::from_str("the monitor's children's CPU was not reported: ").concat(
                    why.to_text(),
                ),
            ),
            (Ok(own), Ok(children)) => Ok(
                Duration { nanos: own.nanos.saturating_add(children.nanos) },
            ),
        },
    }
}

/// What the monitor and its children have used, as the machine answers.
pub fn own_cpu<W: World>(world: &mut W, pid: i32) -> (cpu: Result<Duration, String>)
    ensures
        exists|read: Result<Resources, ResourcesUnavailable>|
            {
                &&& final(world).log() == old(world).log().push(Exchange::Ledger(pid, read))
                &&& match cpu {
                    Ok(span) => #[trigger] whole_cpu(read) matches Ok(nanos) && span.nanos == (
                    if nanos > u128::MAX {
                        u128::MAX as int
                    } else {
                        nanos
                    }),
                    Err(why) => whole_cpu(read) == Err::<int, Seq<char>>(why@),
                }
            },
{
    let read: Result<Resources, ResourcesUnavailable> = world.resources(pid);
    let ghost answer = read;
    let cpu = own_cpu_of(read);
    assert(whole_cpu(answer) == whole_cpu(answer));
    cpu
}

} // verus!
