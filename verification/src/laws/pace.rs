//! Pace: when a tier runs, how much it reads, what it may cost, and what it did cost.

use crate::deliver;
use crate::meter;
use crate::meter::{CpuSample, Done, Meter, PassReport, SelfReport, Share};
use crate::order;
use crate::schedule;
use crate::schedule::{Budgets, Cadence, Completion, Pace, Schedule, Staleness};
use crate::state::Tier;
use crate::text;
use crate::time::{Duration, SystemTime};
use crate::world::{NotifyOutcome, Resources, ResourcesUnavailable};
use vstd::prelude::*;

verus! {

// --- Spans -------------------------------------------------------------------------------------

/// A span's whole seconds and milliseconds are the most that fit into it.
pub proof fn law_whole_seconds_and_milliseconds(span: Duration)
    ensures
        span.secs() * 1_000_000_000 <= span.nanos < (span.secs() + 1) * 1_000_000_000,
        span.millis() * 1_000_000 <= span.nanos < (span.millis() + 1) * 1_000_000,
        span.part() < 1_000_000_000,
        span.secs() <= u64::MAX ==> span.whole() * 1_000_000_000 + span.part() == span.nanos,
{
}

/// A span less another is what has to be added to the other, and nothing where the other is longer.
pub proof fn law_what_is_left_of_a_span(span: Duration, other: Duration)
    ensures
        other.nanos <= span.nanos ==> span.minus(other).nanos + other.nanos == span.nanos,
        other.nanos >= span.nanos ==> span.minus(other).nanos == 0,
{
}

/// The time since an instant is what has to be added to it to come to now; since one that is still to come
/// there is none.
pub proof fn law_the_time_since_an_instant(now: SystemTime, then: SystemTime)
    ensures
        now.since(then) is Some <==> then.nanos <= now.nanos,
        now.since(then) matches Some(span) ==> then.nanos + span.nanos == now.nanos,
{
}

// --- When a tier runs --------------------------------------------------------------------------

/// While a session is live the tiers run every ten seconds, every minute and every two minutes; while none is,
/// each runs a sixth as often.
pub proof fn law_how_often_the_tiers_run(tier: Tier)
    ensures
        Cadence::while_active().every(Tier::Fast).nanos == 10 * 1_000_000_000,
        Cadence::while_active().every(Tier::Medium).nanos == 60 * 1_000_000_000,
        Cadence::while_active().every(Tier::Slow).nanos == 120 * 1_000_000_000,
        Cadence::while_idle().every(tier).nanos == 6 * Cadence::while_active().every(tier).nanos,
{
}

/// The pace is idle exactly while no session is live, and the cadence is the one that goes with the pace.
pub proof fn law_one_live_session_makes_the_pace_active(live: nat)
    ensures
        Pace::with_live(live) == Pace::Idle <==> live == 0,
        Pace::Active.beat() == Cadence::while_active(),
        Pace::Idle.beat() == Cadence::while_idle(),
        Pace::Active.word() != Pace::Idle.word(),
{
    reveal_strlit("active");
    reveal_strlit("idle");
    assert("active"@.len() != "idle"@.len());
}

/// A tier that has run is due exactly from the end of its interval on, counted from when it began.
pub proof fn law_a_tier_is_due_after_its_interval(plan: Schedule, tier: Tier, at: Duration)
    requires
        plan.last(tier) is Some,
        plan.last(tier)->0.nanos <= at.nanos,
    ensures
        plan.calls_for(tier, at) <==> at.nanos >= plan.last(tier)->0.nanos
            + plan.paced().beat().every(tier).nanos,
        plan.until(tier, at).nanos == if plan.calls_for(tier, at) {
            0
        } else {
            plan.last(tier)->0.nanos + plan.paced().beat().every(tier).nanos - at.nanos
        },
{
}

/// While the loop sleeps no tier becomes due; and it sleeps for the fast interval, or until one is.
pub proof fn law_the_loop_sleeps_until_something_is_due(
    plan: Schedule,
    at: Duration,
    span: Duration,
    tier: Tier,
    earlier: Duration,
)
    requires
        plan.sleeps_for(at, span),
        forall|one: Tier| (#[trigger] plan.last(one)) is Some ==> plan.last(one)->0.nanos <= at.nanos,
    ensures
        at.nanos <= earlier.nanos < at.nanos + span.nanos ==> !plan.calls_for(tier, earlier),
        span.nanos <= plan.paced().beat().every(Tier::Fast).nanos,
        span.nanos < plan.paced().beat().every(Tier::Fast).nanos ==> exists|one: Tier|
            (#[trigger] plan.until(one, at)).nanos == span.nanos,
{
    assert(span.nanos <= plan.until(tier, at).nanos);
    if at.nanos <= earlier.nanos < at.nanos + span.nanos {
        plan.law_a_tier_is_due_exactly_when_its_wait_is_over(tier, at, earlier);
    }
}

// --- How much a pass reads ---------------------------------------------------------------------

/// After a pass that overran half as many are read, rounded down and never none.
pub proof fn law_an_overrun_halves_the_slice(previous: int, took: Duration, budget: Duration)
    requires
        previous >= 1,
        took.nanos > budget.nanos,
    ensures
        2 * schedule::next_slice(previous, took, budget) <= previous || schedule::next_slice(
            previous,
            took,
            budget,
        ) == 1,
        2 * schedule::next_slice(previous, took, budget) + 1 >= previous,
        schedule::next_slice(previous, took, budget) >= 1,
{
}

/// After a pass that took half its budget or more, and not more than all of it, as many are read.
pub proof fn law_a_slice_that_suits_stays(previous: int, took: Duration, budget: Duration)
    requires
        previous >= 1,
        took.nanos <= budget.nanos <= 2 * took.nanos,
    ensures
        schedule::next_slice(previous, took, budget) == previous,
{
}

/// After a pass that took less than half its budget a quarter more are read, one at least, and 64 at most.
pub proof fn law_a_cheap_pass_lets_the_slice_grow(previous: int, took: Duration, budget: Duration)
    requires
        1 <= previous <= 64,
        2 * took.nanos < budget.nanos,
    ensures
        schedule::next_slice(previous, took, budget) <= 64,
        schedule::next_slice(previous, took, budget) < 64 ==> {
            let more = schedule::next_slice(previous, took, budget) - previous;
            more >= 1 && (more == 1 || 4 * more <= previous) && 4 * more + 4 > previous
        },
        schedule::next_slice(previous, took, budget) == 64 ==> 5 * previous >= 4 * 63 || previous
            == 63,
{
}

/// A slice is never empty, even where it was.
pub proof fn law_a_slice_is_never_empty(previous: int, took: Duration, budget: Duration)
    ensures
        schedule::next_slice(previous, took, budget) >= 1,
        previous < 1 ==> schedule::next_slice(previous, took, budget) == schedule::next_slice(
            1,
            took,
            budget,
        ),
{
}

/// What has never been read comes before what has; and of two that have, the one that was read longer ago.
pub proof fn law_the_stalest_comes_first(one: Option<Duration>, other: Option<Duration>)
    ensures
        order::Ranked::ranks_before(&(Staleness { age: one }), &(Staleness { age: other })) <==> {
            ||| one is None && other is Some
            ||| one is Some && other is Some && one->0.nanos > other->0.nanos
        },
{
}

/// What is chosen is as many as may be, or all there are; each once; and nothing that is left out is staler
/// than anything that is chosen.
pub proof fn law_nothing_staler_is_left_out(
    age: Seq<Option<Duration>>,
    size: nat,
    chosen: Seq<usize>,
    in_it: int,
    left_out: usize,
)
    requires
        schedule::is_choice(age, size, chosen),
        0 <= in_it < chosen.len(),
        left_out < age.len(),
        !chosen.contains(left_out),
    ensures
        chosen.len() == if size < age.len() {
            size
        } else {
            age.len()
        },
        chosen[in_it] < age.len(),
        chosen[in_it] != left_out,
        age[left_out as int] is None ==> age[chosen[in_it] as int] is None && chosen[in_it] < left_out,
        age[left_out as int] is Some && age[chosen[in_it] as int] is Some
            ==> age[chosen[in_it] as int]->0.nanos >= age[left_out as int]->0.nanos,
{
    let keys = schedule::staleness(age);
    let all = choose|all: Seq<usize>| #[trigger]
        order::is_stable_order(keys, all) && chosen == all.take(
            if size < all.len() {
                size as int
            } else {
                all.len() as int
            },
        );
    assert(all.contains(left_out));
    let place = choose|place: int| 0 <= place < all.len() && all[place] == left_out;
    if place < chosen.len() {
        assert(chosen[place] == left_out);
    }
    assert(all[in_it] == chosen[in_it]);
    assert(order::belongs_before(keys, all[in_it] as int, all[place] as int));
    assert(keys[left_out as int] == Staleness { age: age[left_out as int] });
    assert(keys[chosen[in_it] as int] == Staleness { age: age[chosen[in_it] as int] });
}

// --- What a pass may cost ----------------------------------------------------------------------

/// A pass overran exactly if it took longer than it was allowed, and then says both, in milliseconds.
pub proof fn law_an_overrun_is_admitted(took: Duration, budget: Duration)
    ensures
        Completion::outcome(took, budget) is WithinBudget <==> took.nanos <= budget.nanos,
        Completion::outcome(took, budget).reason() is Some <==> took.nanos > budget.nanos,
        took.nanos > budget.nanos ==> text::contains_text(
            Completion::outcome(took, budget).reason()->0,
            text::decimal(took.nanos as nat / 1_000_000) + " ms against a "@ + text::decimal(
                budget.nanos as nat / 1_000_000,
            ) + " ms budget"@,
        ),
{
    if took.nanos > budget.nanos {
        let (one, other) = (text::decimal(took.millis()), text::decimal(budget.millis()));
        let inner = one + " ms against a "@ + other + " ms budget"@;
        let end = ", so the figures it published are older than the cadence implies"@;
        reveal_strlit(" ms budget");
        reveal_strlit(", so the figures it published are older than the cadence implies");
        reveal_strlit(
            " ms budget, so the figures it published are older than the cadence implies",
        );
        assert(" ms budget, so the figures it published are older than the cadence implies"@
            =~= " ms budget"@ + end);
        crate::laws::text::law_what_stands_in_a_text("the pass took "@, inner, end);
        lemma_six_texts("the pass took "@, one, " ms against a "@, other, " ms budget"@, end);
    }
}

proof fn lemma_six_texts(
    one: Seq<char>,
    two: Seq<char>,
    three: Seq<char>,
    four: Seq<char>,
    five: Seq<char>,
    six: Seq<char>,
)
    ensures
        one + (two + three + four + five) + six == one + two + three + four + (five + six),
{
    assert(one + (two + three + four + five) + six =~= one + two + three + four + (five + six));
}

/// A pass of the fast tier is allowed 150 milliseconds, one of the medium tier 800, and one of the slow 300.
pub proof fn law_what_a_pass_is_allowed()
    ensures
        Budgets::usual().allows(Tier::Fast).nanos == 150 * 1_000_000,
        Budgets::usual().allows(Tier::Medium).nanos == 800 * 1_000_000,
        Budgets::usual().allows(Tier::Slow).nanos == 300 * 1_000_000,
{
}

// --- What the monitor costs --------------------------------------------------------------------

/// The monitor keeps within its budget exactly if it uses no more than a hundredth of one core.
pub proof fn law_a_hundredth_of_a_core_is_affordable(share: Share)
    ensures
        share.is_affordable() <==> 100 * share.spent.nanos <= share.span.nanos,
        meter::minute().nanos == 60 * 1_000_000_000,
{
}

/// The rate is what was used between the first sample and the last, of the time between them; and there is none
/// from fewer than two, nor without any time.
pub proof fn law_a_rate_is_what_was_used_between_two_samples(meter: Meter)
    ensures
        meter.rate() is Ok <==> meter.samples().len() >= 2 && meter.samples().first().at.nanos
            < meter.samples().last().at.nanos,
        meter.rate() matches Ok(share) ==> {
            let (first, last) = (meter.samples().first(), meter.samples().last());
            &&& share.span.nanos == last.at.nanos - first.at.nanos
            &&& first.cpu.nanos <= last.cpu.nanos ==> share.spent.nanos == last.cpu.nanos
                - first.cpu.nanos
        },
{
}

/// Of samples only the oldest are dropped, and only as long as what is left still begins at or before the time
/// that a rate looks back to; the new one is kept.
pub proof fn law_samples_still_span_the_window(
    samples: Seq<CpuSample>,
    at: Duration,
    cpu: Duration,
    window: Duration,
)
    ensures
        ({
            let all = samples.push(CpuSample { at, cpu });
            let kept = meter::sampled_at(samples, at, cpu, window);
            &&& 0 < kept.len() <= all.len()
            &&& kept == all.skip(all.len() - kept.len())
            &&& kept.last() == (CpuSample { at, cpu })
            &&& kept.len() < all.len() ==> kept[0].at.nanos + window.nanos <= at.nanos
                || kept[0].at.nanos == 0
            &&& kept.len() > 2 ==> kept[1].at.nanos + window.nanos > at.nanos || window.nanos
                > at.nanos
        }),
{
    let all = samples.push(CpuSample { at, cpu });
    lemma_recent_samples(all, at.minus(window));
    let kept = meter::sampled_at(samples, at, cpu, window);
    assert(kept.last() == all.last());
}

proof fn lemma_recent_samples(samples: Seq<CpuSample>, horizon: Duration)
    requires
        samples.len() > 0,
    ensures
        0 < meter::recent_samples(samples, horizon).len() <= samples.len(),
        meter::recent_samples(samples, horizon) == samples.skip(
            samples.len() - meter::recent_samples(samples, horizon).len(),
        ),
        meter::recent_samples(samples, horizon).len() < samples.len() ==> meter::recent_samples(
            samples,
            horizon,
        )[0].at.nanos <= horizon.nanos,
        meter::recent_samples(samples, horizon).len() > 2 ==> meter::recent_samples(
            samples,
            horizon,
        )[1].at.nanos > horizon.nanos,
    decreases samples.len(),
{
    if samples.len() > 2 && samples[1].at.nanos <= horizon.nanos {
        let rest = samples.drop_first();
        lemma_recent_samples(rest, horizon);
        let kept = meter::recent_samples(rest, horizon);
        assert(rest.skip(rest.len() - kept.len()) =~= samples.skip(samples.len() - kept.len()));
        assert(rest[0] == samples[1]);
        if kept.len() == rest.len() {
            assert(kept[0] == rest[0]);
        }
    } else {
        assert(samples.skip(0) =~= samples);
    }
}

/// Of passes only those in front are dropped that began before the time that a rate looks back to; what is left
/// begins with one that did not.
pub proof fn law_passes_of_the_window_are_kept(passes: Seq<Done>, pass: Done, window: Duration)
    ensures
        ({
            let all = passes.push(pass);
            let kept = meter::with_pass(passes, pass, window);
            &&& kept.len() <= all.len()
            &&& kept == all.skip(all.len() - kept.len())
            &&& forall|i: int|
                0 <= i < all.len() - kept.len() ==> (#[trigger] all[i]).at.nanos + window.nanos
                    < pass.at.nanos
            &&& kept.len() > 0 ==> kept[0].at.nanos + window.nanos >= pass.at.nanos
        }),
{
    lemma_recent_passes(passes.push(pass), pass.at.minus(window));
}

proof fn lemma_recent_passes(passes: Seq<Done>, horizon: Duration)
    ensures
        meter::recent_passes(passes, horizon).len() <= passes.len(),
        meter::recent_passes(passes, horizon) == passes.skip(
            passes.len() - meter::recent_passes(passes, horizon).len(),
        ),
        forall|i: int|
            0 <= i < passes.len() - meter::recent_passes(passes, horizon).len() ==> (
            #[trigger] passes[i]).at.nanos < horizon.nanos,
        meter::recent_passes(passes, horizon).len() > 0 ==> meter::recent_passes(
            passes,
            horizon,
        )[0].at.nanos >= horizon.nanos,
    decreases passes.len(),
{
    if passes.len() > 0 && passes[0].at.nanos < horizon.nanos {
        let rest = passes.drop_first();
        lemma_recent_passes(rest, horizon);
        let kept = meter::recent_passes(rest, horizon);
        assert(rest.skip(rest.len() - kept.len()) =~= passes.skip(passes.len() - kept.len()));
        assert forall|i: int| 0 <= i < passes.len() - kept.len() implies (
        #[trigger] passes[i]).at.nanos < horizon.nanos by {
            if i > 0 {
                assert(rest[i - 1] == passes[i]);
            }
        }
    } else {
        assert(passes.skip(0) =~= passes);
    }
}

/// What passes took together is what each took, added up.
pub proof fn law_busy_time_is_added_up(passes: Seq<Done>, pass: Done)
    ensures
        meter::busy(Seq::<Done>::empty()) == 0,
        meter::busy(passes) + pass.took.nanos <= u128::MAX ==> meter::busy(passes.push(pass))
            == meter::busy(passes) + pass.took.nanos,
        meter::busy(passes) + pass.took.nanos > u128::MAX ==> meter::busy(passes.push(pass))
            == u128::MAX,
{
    assert(passes.push(pass).drop_last() =~= passes);
}

/// What the monitor publishes of itself is the CPU it had used at its last sample, in milliseconds; its rate, and
/// whether that is no more than a hundredth; what its passes took of the window, or of all the time there was
/// where that is less; and how often each tier has run.
pub proof fn law_what_the_monitor_says_of_itself(
    meter: Meter,
    report: SelfReport,
    at: Duration,
    pace: Seq<char>,
    budgets: Budgets,
)
    requires
        meter.is_report(report, at, pace, budgets),
    ensures
        report.own_cpu_ms.value is Some <==> meter.samples().len() > 0,
        report.own_cpu_ms.value matches Some(millis) ==> millis == meter.samples().last().cpu.nanos
            / 1_000_000,
        report.window_secs == meter.looks_back().nanos / 1_000_000_000,
        report.duty_cycle.value is Some <==> meter.rate() is Ok,
        report.duty_cycle.value is Some <==> report.within_budget.value is Some,
        report.duty_cycle.value matches Some(share) ==> meter.rate() == Ok::<Share, Seq<char>>(
            share,
        ) && report.within_budget.value == Some(100 * share.spent.nanos <= share.span.nanos),
        report.busy_fraction.value is Some <==> at.nanos > 0 && meter.looks_back().nanos > 0,
        report.busy_fraction.value matches Some(share) ==> share.spent.nanos == meter::busy(
            meter.done(),
        ) && share.span.nanos == if at.nanos < meter.looks_back().nanos {
            at.nanos
        } else {
            meter.looks_back().nanos
        },
        report.pace@ == pace,
        report.passes@.len() == 3,
        report.passes@[0].1 == meter.completed_by(Tier::Fast),
        report.passes@[1].1 == meter.completed_by(Tier::Medium),
        report.passes@[2].1 == meter.completed_by(Tier::Slow),
{
}

/// What is published of a pass is what it took and was allowed, and how long ago it began, in milliseconds.
pub proof fn law_what_is_said_of_a_pass(
    report: PassReport,
    pass: Done,
    at: Duration,
    budgets: Budgets,
)
    requires
        Meter::is_pass_report(report, pass, at, budgets),
    ensures
        report.took_ms == pass.took.nanos / 1_000_000,
        report.budget_ms == budgets.allows(pass.tier).nanos / 1_000_000,
        report.overran is Some <==> pass.completion is Overran,
        pass.at.nanos <= at.nanos ==> report.age_ms == (at.nanos - pass.at.nanos) as nat / 1_000_000,
        report.tier@ == meter::tier_word(pass.tier),
{
}

/// The last pass of every tier that has run is published, and of no other.
pub proof fn law_every_tier_that_ran_is_reported(meter: Meter, tier: Tier)
    ensures
        meter.last(tier) matches Some(pass) ==> meter.last_passes(3).contains(pass),
        meter.last_passes(3).len() == (if meter.last(Tier::Fast) is Some {
            1nat
        } else {
            0nat
        }) + (if meter.last(Tier::Medium) is Some {
            1nat
        } else {
            0nat
        }) + (if meter.last(Tier::Slow) is Some {
            1nat
        } else {
            0nat
        }),
{
    let (none, one, two, all) = (
        meter.last_passes(0),
        meter.last_passes(1),
        meter.last_passes(2),
        meter.last_passes(3),
    );
    assert(none.len() == 0);
    if let Some(pass) = meter.last(Tier::Fast) {
        assert(one[0] == pass && two[0] == pass && all[0] == pass);
    }
    if let Some(pass) = meter.last(Tier::Medium) {
        assert(two[one.len() as int] == pass && all[one.len() as int] == pass);
    }
    if let Some(pass) = meter.last(Tier::Slow) {
        assert(all[two.len() as int] == pass);
    }
}

/// What the monitor has used is its own CPU time and its children's together, and nothing is known of it where
/// either is missing.
pub proof fn law_the_monitor_pays_for_its_children(read: Result<Resources, ResourcesUnavailable>)
    ensures
        meter::whole_cpu(read) is Ok <==> read is Ok && read->Ok_0.own_cpu is Ok
            && read->Ok_0.children_cpu is Ok,
        meter::whole_cpu(read) matches Ok(nanos) ==> nanos == read->Ok_0.own_cpu->Ok_0.nanos
            + read->Ok_0.children_cpu->Ok_0.nanos,
{
}

// --- What delivering may cost ------------------------------------------------------------------

/// A batch of alerts has ten seconds.
pub proof fn law_how_long_delivering_may_take()
    ensures
        deliver::budget_of_a_request().nanos == 10 * 1_000_000_000,
{
}

/// What is counted is every outcome that was picked.
pub proof fn law_every_picked_outcome_is_counted(picked: Seq<bool>)
    ensures
        deliver::true_among(picked) == picked.filter(|one: bool| one).len(),
    decreases picked.len(),
{
    reveal(Seq::filter);
    if picked.len() > 0 {
        law_every_picked_outcome_is_counted(picked.drop_last());
    }
}

/// Of several answers for an alert the last counts, and none for another does.
pub proof fn law_the_last_answer_counts(
    answers: Seq<(usize, NotifyOutcome)>,
    one: (usize, NotifyOutcome),
    alert: int,
)
    ensures
        deliver::last_answer(answers.push(one), one.0 as int) == Some(one.1),
        alert != one.0 ==> deliver::last_answer(answers.push(one), alert) == deliver::last_answer(
            answers,
            alert,
        ),
        deliver::last_answer(Seq::empty(), alert) is None,
{
    assert(answers.push(one).drop_last() =~= answers);
}

/// An alert is handed over exactly if the watch shows less than the budget when its turn comes.
pub proof fn law_an_alert_is_handed_over_only_in_time(
    payload: Seq<char>,
    budget: Duration,
    reading: Duration,
    outcome: NotifyOutcome,
)
    ensures
        deliver::handed_in(deliver::steps_for(payload, budget, reading, outcome)).len() == if reading.nanos
            < budget.nanos {
            1nat
        } else {
            0nat
        },
        reading.nanos < budget.nanos ==> deliver::handed_in(
            deliver::steps_for(payload, budget, reading, outcome),
        )[0] == (payload, outcome),
{
    let steps = deliver::steps_for(payload, budget, reading, outcome);
    let read = seq![deliver::Step::Read(reading)];
    assert(read.drop_last() =~= Seq::<deliver::Step>::empty());
    assert(deliver::handed_in(read.drop_last()).len() == 0);
    assert(deliver::handed_in(read).len() == 0);
    if reading.nanos < budget.nanos {
        assert(steps.drop_last() =~= read);
    }
}

} // verus!
