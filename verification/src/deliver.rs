//! Handing alerts to a channel within a budget, and an answer for every one of them.

use crate::time;
use crate::time::Duration;
use crate::world::NotifyOutcome;
use vstd::prelude::*;

verus! {

/// How many alerts are handed over at once.
pub const CONCURRENCY: usize = 8;

/// Ten seconds.
pub open spec fn budget_of_a_request() -> Duration {
    Duration { nanos: 10_000_000_000 }
}

/// What one delivery gets, and what a whole channel gets in one run.
pub fn request_budget() -> (span: Duration)
    ensures
        span == budget_of_a_request(),
{
    Duration { nanos: 10_000_000_000 }
}

/// How much of everything a batch may use.
#[derive(Debug, Clone, Copy, PartialEq, Eq, Structural)]
pub struct Bounds {
    pub workers: usize,
    pub budget: Duration,
}

impl Bounds {
    /// Eight at once, for ten seconds.
    pub fn standard() -> (bounds: Bounds)
        ensures
            bounds == (Bounds { workers: 8, budget: budget_of_a_request() }),
    {
        Bounds { workers: CONCURRENCY, budget: request_budget() }
    }

    /// Whether this is how many workers share so many alerts.
    pub open spec fn employs(self, workers: usize, alerts: usize) -> bool {
        &&& 1 <= workers <= alerts
        &&& self.workers == 0 ==> workers == 1
        &&& 1 <= self.workers <= alerts ==> workers == self.workers
        &&& self.workers > alerts ==> workers == alerts
    }

    /// How many workers a batch of a size keeps busy: what is allowed, at least one, and no more than
    /// there are alerts.
    pub fn workers_for(&self, alerts: usize) -> (workers: usize)
        requires
            alerts > 0,
        ensures
            self.employs(workers, alerts),
    {
        if self.workers < 1 {
            1
        } else if self.workers > alerts {
            alerts
        } else {
            self.workers
        }
    }
}

/// What a channel said about a batch: one outcome for each alert, in the order they were given.
#[derive(Debug, PartialEq, Eq)]
pub struct DeliveryReport {
    pub outcomes: Vec<NotifyOutcome>,
    pub cost: Duration,
}

impl DeliveryReport {
    /// No alerts, no outcomes, no cost.
    pub fn nothing_asked() -> (report: DeliveryReport)
        ensures
            report.outcomes@.len() == 0,
            report.cost == (Duration { nanos: 0 }),
    {
        DeliveryReport { outcomes: Vec::new(), cost: Duration { nanos: 0 } }
    }

    /// How many outcomes are of a kind.
    pub fn count<F: Fn(&NotifyOutcome) -> bool>(&self, matching: F) -> (total: usize)
        requires
            forall|outcome: &NotifyOutcome| #[trigger] call_requires(matching, (outcome,)),
        ensures
            exists|picked: Seq<bool>|
                {
                    &&& picked.len() == self.outcomes@.len()
                    &&& forall|i: int|
                        0 <= i < picked.len() ==> call_ensures(
                            matching,
                            (&self.outcomes@[i],),
                            #[trigger] picked[i],
                        )
                    &&& total == #[trigger] true_among(picked)
                },
    {
        let mut total: usize = 0;
        let mut next: usize = 0;
        let ghost mut picked: Seq<bool> = Seq::empty();
        while next < self.outcomes.len()
            invariant
                next <= self.outcomes@.len(),
                total <= next,
                picked.len() == next,
                total == true_among(picked),
                forall|outcome: &NotifyOutcome| #[trigger] call_requires(matching, (outcome,)),
                forall|i: int|
                    0 <= i < picked.len() ==> call_ensures(
                        matching,
                        (&self.outcomes@[i],),
                        #[trigger] picked[i],
                    ),
            decreases self.outcomes@.len() - next,
        {
            let hit: bool = matching(&self.outcomes[next]);
            proof {
                assert(picked.push(hit).drop_last() =~= picked);
                picked = picked.push(hit);
            }
            if hit {
                total += 1;
            }
            next += 1;
        }
        total
    }
}

/// How many of some answers are yes.
pub open spec fn true_among(picked: Seq<bool>) -> nat
    decreases picked.len(),
{
    if picked.len() == 0 {
        0
    } else {
        true_among(picked.drop_last()) + (if picked.last() {
            1nat
        } else {
            0nat
        })
    }
}

/// What is said of an alert that was left when the budget was gone.
pub open spec fn budget_spent_words(budget: Duration) -> Seq<char> {
    "this run's alerting budget of "@ + time::debug_text(
        budget.whole(),
        budget.part(),
    ) + " for the channel was spent before this alert was dispatched"@
}

/// What is said of an alert that nobody reported back on.
pub open spec fn never_reported_words() -> Seq<char> {
    "no delivery reported back for this alert, so nothing can be said to have arrived"@
}

/// The outcome of an alert that was left when the budget was gone.
pub fn budget_spent(budget: Duration) -> (outcome: NotifyOutcome)
    ensures
        outcome matches NotifyOutcome::NotAttempted(why) && why@ == budget_spent_words(budget),
{
    NotifyOutcome::NotAttempted(
        String::from_str("this run's alerting budget of ").concat(
            budget.to_debug().as_str(),
        ).concat(" for the channel was spent before this alert was dispatched"),
    )
}

fn never_reported() -> (outcome: NotifyOutcome)
    ensures
        outcome matches NotifyOutcome::NotAttempted(why) && why@ == never_reported_words(),
{
    NotifyOutcome::NotAttempted(
        String::from_str(
            "no delivery reported back for this alert, so nothing can be said to have arrived",
        ),
    )
}

/// What is done with a channel: its watch is read, or an alert is handed over and this comes of it.
pub enum Step {
    Read(Duration),
    Handed(Seq<char>, NotifyOutcome),
}

/// What was done with a channel, in order.
pub type Steps = Seq<Step>;

/// A way to hand alerts over, with a watch that runs from when the batch began and never goes back.
pub trait Channel: Sized {
    /// Everything that was done with it so far. It is there for proofs and is never run.
    spec fn steps(&self) -> Steps;

    /// What the watch showed last. It is there for proofs and is never run.
    spec fn latest(&self) -> Duration;

    /// How long ago the batch began.
    fn elapsed(&mut self) -> (spent: Duration)
        ensures
            final(self).steps() == old(self).steps().push(Step::Read(spent)),
            old(self).latest().nanos <= spent.nanos,
            final(self).latest() == spent,
    ;

    /// Hands one alert over, and says what came of it.
    fn hand_over(&mut self, payload: &str) -> (outcome: NotifyOutcome)
        ensures
            final(self).steps() == old(self).steps().push(Step::Handed(payload@, outcome)),
            final(self).latest() == old(self).latest(),
    ;
}

/// A channel made of a watch and of something that delivers. A watch that goes back is taken to have
/// stood still.
pub struct Plain<C: Fn() -> Duration, F: Fn(&str) -> NotifyOutcome> {
    watch: C,
    deliver: F,
    shown: Duration,
    done: Ghost<Steps>,
}

impl<C: Fn() -> Duration, F: Fn(&str) -> NotifyOutcome> Plain<C, F> {
    #[verifier::type_invariant]
    spec fn is_usable(self) -> bool {
        &&& call_requires(self.watch, ())
        &&& forall|payload: &str| #[trigger] call_requires(self.deliver, (payload,))
    }

    /// A channel with which nothing has been done yet.
    pub fn new(watch: C, deliver: F) -> (channel: Plain<C, F>)
        requires
            call_requires(watch, ()),
            forall|payload: &str| #[trigger] call_requires(deliver, (payload,)),
        ensures
            channel.steps() == Seq::<Step>::empty(),
            channel.latest() == (Duration { nanos: 0 }),
    {
        Plain { watch, deliver, shown: Duration { nanos: 0 }, done: Ghost(Seq::empty()) }
    }
}

impl<C: Fn() -> Duration, F: Fn(&str) -> NotifyOutcome> Channel for Plain<C, F> {
    closed spec fn steps(&self) -> Steps {
        self.done@
    }

    closed spec fn latest(&self) -> Duration {
        self.shown
    }

    fn elapsed(&mut self) -> (spent: Duration) {
        proof {
            use_type_invariant(&*self);
        }
        let now: Duration = (self.watch)();
        let spent: Duration = if now.nanos < self.shown.nanos {
            self.shown
        } else {
            now
        };
        self.shown = spent;
        self.done = Ghost(self.done@.push(Step::Read(spent)));
        spent
    }

    fn hand_over(&mut self, payload: &str) -> (outcome: NotifyOutcome) {
        proof {
            use_type_invariant(&*self);
        }
        let outcome: NotifyOutcome = (self.deliver)(payload);
        self.done = Ghost(self.done@.push(Step::Handed(payload@, outcome)));
        outcome
    }
}

/// What is done for one alert: the watch is read, and where it shows that there is time left, the alert is
/// handed over.
pub open spec fn steps_for(
    payload: Seq<char>,
    budget: Duration,
    reading: Duration,
    outcome: NotifyOutcome,
) -> Steps {
    if reading.nanos < budget.nanos {
        seq![Step::Read(reading), Step::Handed(payload, outcome)]
    } else {
        seq![Step::Read(reading)]
    }
}

/// What is done for alerts, one by one in their order.
pub open spec fn steps_of(
    payloads: Seq<String>,
    budget: Duration,
    readings: Seq<Duration>,
    outcomes: Seq<NotifyOutcome>,
) -> Steps
    decreases payloads.len(),
{
    if payloads.len() == 0 {
        Seq::empty()
    } else {
        let last = payloads.len() - 1;
        steps_of(payloads.drop_last(), budget, readings, outcomes) + steps_for(
            payloads.last()@,
            budget,
            readings[last],
            outcomes[last],
        )
    }
}

/// Whether these can be the readings and the outcomes of a batch: one of each for every alert, the
/// readings in order, and the budget's words wherever it was spent.
pub open spec fn is_batch(
    payloads: Seq<String>,
    budget: Duration,
    readings: Seq<Duration>,
    outcomes: Seq<NotifyOutcome>,
) -> bool {
    &&& readings.len() == payloads.len()
    &&& outcomes.len() == payloads.len()
    &&& forall|i: int, j: int|
        0 <= i < j < readings.len() ==> #[trigger] readings[i].nanos <= #[trigger] readings[j].nanos
    &&& forall|i: int|
        0 <= i < readings.len() && (#[trigger] readings[i]).nanos >= budget.nanos
            ==> outcomes[i] is NotAttempted && outcomes[i]->NotAttempted_0@ == budget_spent_words(
            budget,
        )
}

/// Hands alerts over one at a time, in their order, until the budget is spent, and answers for every one of
/// them. The watch is read before each, and once more when all is done.
pub fn sequentially<C: Channel>(payloads: &[String], budget: Duration, channel: &mut C) -> (report:
    DeliveryReport)
    ensures
        exists|readings: Seq<Duration>|
            {
                &&& #[trigger] is_batch(payloads@, budget, readings, report.outcomes@)
                &&& final(channel).steps() == old(channel).steps() + steps_of(
                    payloads@,
                    budget,
                    readings,
                    report.outcomes@,
                ).push(Step::Read(report.cost))
            },
        final(channel).latest() == report.cost,
        old(channel).latest().nanos <= report.cost.nanos,
{
    let mut outcomes: Vec<NotifyOutcome> = Vec::new();
    let ghost mut readings: Seq<Duration> = Seq::empty();
    let ghost begun = *channel;
    let mut next: usize = 0;
    assert(payloads@.take(0) =~= Seq::empty());
    assert(begun.steps() + steps_of(payloads@.take(0), budget, readings, outcomes@)
        =~= begun.steps());
    while next < payloads.len()
        invariant
            next <= payloads@.len(),
            begun.latest().nanos <= channel.latest().nanos,
            forall|i: int|
                0 <= i < readings.len() ==> (#[trigger] readings[i]).nanos
                    <= channel.latest().nanos,
            is_batch(payloads@.take(next as int), budget, readings, outcomes@),
            channel.steps() == begun.steps() + steps_of(
                payloads@.take(next as int),
                budget,
                readings,
                outcomes@,
            ),
        decreases payloads@.len() - next,
    {
        let ghost before = outcomes@;
        let ghost read = readings;
        let spent: Duration = channel.elapsed();
        let outcome: NotifyOutcome = if spent.nanos >= budget.nanos {
            budget_spent(budget)
        } else {
            channel.hand_over(payloads[next].as_str())
        };
        outcomes.push(outcome);
        proof {
            readings = readings.push(spent);
            let done = payloads@.take(next as int);
            let more = payloads@.take(next + 1);
            assert(more.drop_last() =~= done);
            lemma_steps_of_prefix(done, budget, read, before, readings, outcomes@);
            assert(channel.steps() =~= begun.steps() + steps_of(
                more,
                budget,
                readings,
                outcomes@,
            ));
        }
        next += 1;
    }
    assert(payloads@.take(payloads@.len() as int) =~= payloads@);
    let cost: Duration = channel.elapsed();
    let report = DeliveryReport { outcomes, cost };
    assert(is_batch(payloads@, budget, readings, report.outcomes@));
    assert(channel.steps() =~= begun.steps() + steps_of(
        payloads@,
        budget,
        readings,
        report.outcomes@,
    ).push(Step::Read(cost)));
    report
}

proof fn lemma_steps_of_prefix(
    payloads: Seq<String>,
    budget: Duration,
    readings: Seq<Duration>,
    outcomes: Seq<NotifyOutcome>,
    more_readings: Seq<Duration>,
    more_outcomes: Seq<NotifyOutcome>,
)
    requires
        payloads.len() <= readings.len() <= more_readings.len(),
        payloads.len() <= outcomes.len() <= more_outcomes.len(),
        forall|i: int| 0 <= i < readings.len() ==> readings[i] == more_readings[i],
        forall|i: int| 0 <= i < outcomes.len() ==> outcomes[i] == more_outcomes[i],
    ensures
        steps_of(payloads, budget, readings, outcomes) == steps_of(
            payloads,
            budget,
            more_readings,
            more_outcomes,
        ),
    decreases payloads.len(),
{
    if payloads.len() > 0 {
        lemma_steps_of_prefix(
            payloads.drop_last(),
            budget,
            readings,
            outcomes,
            more_readings,
            more_outcomes,
        );
    }
}

/// The alerts that were handed over, and what came of each.
pub open spec fn handed_in(steps: Steps) -> Seq<(Seq<char>, NotifyOutcome)>
    decreases steps.len(),
{
    if steps.len() == 0 {
        Seq::empty()
    } else {
        let before = handed_in(steps.drop_last());
        match steps.last() {
            Step::Read(_) => before,
            Step::Handed(payload, outcome) => before.push((payload, outcome)),
        }
    }
}

/// How many readings come before the budget is spent.
pub open spec fn in_time(readings: Seq<Duration>, budget: Duration) -> nat
    decreases readings.len(),
{
    if readings.len() == 0 {
        0
    } else if readings.last().nanos < budget.nanos {
        readings.len()
    } else {
        in_time(readings.drop_last(), budget)
    }
}

/// Alerts with what came of them.
pub open spec fn answered(
    payloads: Seq<String>,
    outcomes: Seq<NotifyOutcome>,
    count: nat,
) -> Seq<(Seq<char>, NotifyOutcome)> {
    Seq::new(count, |i: int| (payloads[i]@, outcomes[i]))
}

/// What is handed over is the first alerts, each once and in order, and its outcome is what came of it;
/// whatever is left was not attempted; and without any time nothing is handed over.
pub proof fn law_the_first_alerts_are_handed_over(
    payloads: Seq<String>,
    budget: Duration,
    readings: Seq<Duration>,
    outcomes: Seq<NotifyOutcome>,
)
    requires
        is_batch(payloads, budget, readings, outcomes),
    ensures
        in_time(readings, budget) <= payloads.len(),
        handed_in(steps_of(payloads, budget, readings, outcomes)) == answered(
            payloads,
            outcomes,
            in_time(readings, budget),
        ),
        forall|i: int|
            in_time(readings, budget) <= i < outcomes.len() ==> (#[trigger] outcomes[i]) is NotAttempted,
        budget.nanos == 0 ==> in_time(readings, budget) == 0,
    decreases payloads.len(),
{
    if payloads.len() > 0 {
        let last = payloads.len() - 1;
        let shorter = payloads.drop_last();
        let read = readings.drop_last();
        let before = outcomes.drop_last();
        assert forall|i: int|
            0 <= i < read.len() && (#[trigger] read[i]).nanos >= budget.nanos implies before[i] is NotAttempted
            && before[i]->NotAttempted_0@ == budget_spent_words(budget) by {
            assert(readings[i].nanos >= budget.nanos);
        }
        law_the_first_alerts_are_handed_over(shorter, budget, read, before);
        lemma_steps_of_prefix(shorter, budget, read, before, readings, outcomes);
        let done = steps_of(shorter, budget, readings, outcomes);
        let steps = steps_of(payloads, budget, readings, outcomes);
        let first = done.push(Step::Read(readings[last]));
        assert(first.drop_last() =~= done);
        assert(handed_in(first) == handed_in(done));
        if readings[last].nanos < budget.nanos {
            assert(steps =~= first.push(Step::Handed(payloads.last()@, outcomes[last])));
            assert(steps.drop_last() =~= first);
            lemma_all_in_time(read, budget, readings[last]);
            assert(answered(payloads, outcomes, payloads.len()) =~= answered(
                shorter,
                before,
                shorter.len(),
            ).push((payloads.last()@, outcomes[last])));
        } else {
            assert(steps =~= first);
            assert(answered(payloads, outcomes, in_time(read, budget)) =~= answered(
                shorter,
                before,
                in_time(read, budget),
            ));
        }
        assert forall|i: int| in_time(readings, budget) <= i < outcomes.len() implies (
        #[trigger] outcomes[i]) is NotAttempted by {
            if i < last {
                assert(outcomes[i] == before[i]);
            } else {
                assert(readings[i].nanos >= budget.nanos);
            }
        }
    } else {
        assert(answered(payloads, outcomes, 0) =~= Seq::empty());
    }
}

proof fn lemma_all_in_time(readings: Seq<Duration>, budget: Duration, later: Duration)
    requires
        later.nanos < budget.nanos,
        forall|i: int| 0 <= i < readings.len() ==> (#[trigger] readings[i]).nanos <= later.nanos,
    ensures
        in_time(readings, budget) == readings.len(),
{
    if readings.len() > 0 {
        assert(readings[readings.len() - 1].nanos <= later.nanos);
    }
}

/// The last answer given for an alert, if any was.
pub open spec fn last_answer(answers: Seq<(usize, NotifyOutcome)>, alert: int) -> Option<
    NotifyOutcome,
>
    decreases answers.len(),
{
    if answers.len() == 0 {
        None
    } else if answers.last().0 == alert {
        Some(answers.last().1)
    } else {
        last_answer(answers.drop_last(), alert)
    }
}

/// Whether these are the outcomes of alerts, each by its place.
pub open spec fn are_gathered(
    outcomes: Seq<NotifyOutcome>,
    alerts: usize,
    answers: Seq<(usize, NotifyOutcome)>,
) -> bool {
    &&& outcomes.len() == alerts
    &&& forall|i: int|
        0 <= i < alerts ==> match last_answer(answers, i) {
            Some(answer) => (#[trigger] outcomes[i]) == answer,
            None => outcomes[i] is NotAttempted && outcomes[i]->NotAttempted_0@
                == never_reported_words(),
        }
}

/// Puts answers that came in any order where they belong. An alert nobody answered for was never
/// reported on, and an answer for an alert there was not is dropped.
pub fn gathered(alerts: usize, answers: Vec<(usize, NotifyOutcome)>) -> (outcomes: Vec<
    NotifyOutcome,
>)
    ensures
        are_gathered(outcomes@, alerts, answers@),
{
    let mut outcomes: Vec<NotifyOutcome> = Vec::new();
    let mut placed: usize = 0;
    while placed < alerts
        invariant
            placed <= alerts,
            outcomes@.len() == placed,
            forall|i: int|
                0 <= i < placed ==> (#[trigger] outcomes@[i]) is NotAttempted
                    && outcomes@[i]->NotAttempted_0@ == never_reported_words(),
        decreases alerts - placed,
    {
        outcomes.push(never_reported());
        placed += 1;
    }
    for answer in walk: answers
        invariant
            walk.seq() == answers@,
            outcomes@.len() == alerts,
            forall|i: int|
                0 <= i < alerts ==> match last_answer(answers@.take(walk.index() as int), i) {
                    Some(answer) => (#[trigger] outcomes@[i]) == answer,
                    None => outcomes@[i] is NotAttempted && outcomes@[i]->NotAttempted_0@
                        == never_reported_words(),
                },
    {
        let ghost at = walk.index() as int;
        assert(answers@.take(at + 1).drop_last() =~= answers@.take(at));
        let (alert, outcome) = answer;
        if alert < outcomes.len() {
            outcomes.set(alert, outcome);
        }
    }
    assert(answers@.take(answers@.len() as int) =~= answers@);
    outcomes
}

/// An alert counts as delivered only where somebody said so.
pub proof fn law_silence_is_never_delivery(
    answers: Seq<(usize, NotifyOutcome)>,
    outcomes: Seq<NotifyOutcome>,
    alert: int,
)
    requires
        0 <= alert < outcomes.len(),
        forall|i: int|
            0 <= i < outcomes.len() ==> match last_answer(answers, i) {
                Some(answer) => (#[trigger] outcomes[i]) == answer,
                None => outcomes[i] is NotAttempted && outcomes[i]->NotAttempted_0@
                    == never_reported_words(),
            },
        outcomes[alert] is Delivered,
    ensures
        exists|i: int| 0 <= i < answers.len() && #[trigger] answers[i] == (alert as usize, NotifyOutcome::Delivered),
{
    lemma_last_answer_was_given(answers, alert);
}

proof fn lemma_last_answer_was_given(answers: Seq<(usize, NotifyOutcome)>, alert: int)
    ensures
        last_answer(answers, alert) matches Some(answer) ==> exists|i: int|
            0 <= i < answers.len() && #[trigger] answers[i] == (alert as usize, answer),
    decreases answers.len(),
{
    if answers.len() > 0 {
        if answers.last().0 == alert {
            assert(answers[answers.len() - 1] == (alert as usize, answers.last().1));
        } else {
            lemma_last_answer_was_given(answers.drop_last(), alert);
            if let Some(answer) = last_answer(answers, alert) {
                let i = choose|i: int|
                    0 <= i < answers.drop_last().len() && #[trigger] answers.drop_last()[i] == (
                        alert as usize,
                        answer,
                    );
                assert(answers[i] == (alert as usize, answer));
            }
        }
    }
}

} // verus!
