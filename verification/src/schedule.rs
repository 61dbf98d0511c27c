//! Which tier runs when, how much a pass may take on, and what a pass that overran has to say.

use crate::order;
use crate::order::Ranked;
use crate::state::Tier;
use crate::text;
use crate::time::Duration;
use vstd::prelude::*;

verus! {

/// The three tiers, the most frequent first.
pub fn tiers() -> (all: [Tier; 3])
    ensures
        all@ == seq![Tier::Fast, Tier::Medium, Tier::Slow],
{
    [Tier::Fast, Tier::Medium, Tier::Slow]
}

/// How often each tier runs.
#[derive(Debug, Clone, Copy, PartialEq, Eq, Structural)]
pub struct Cadence {
    pub fast: Duration,
    pub medium: Duration,
    pub slow: Duration,
}

impl Cadence {
    /// The cadence while a session is live: ten seconds, a minute, two minutes.
    pub open spec fn while_active() -> Cadence {
        Cadence {
            fast: Duration { nanos: 10_000_000_000 },
            medium: Duration { nanos: 60_000_000_000 },
            slow: Duration { nanos: 120_000_000_000 },
        }
    }

    /// The cadence while none is: six times as slow.
    pub open spec fn while_idle() -> Cadence {
        Cadence {
            fast: Duration { nanos: 60_000_000_000 },
            medium: Duration { nanos: 360_000_000_000 },
            slow: Duration { nanos: 720_000_000_000 },
        }
    }

    /// The cadence while a session is live.
    pub fn active() -> (cadence: Cadence)
        ensures
            cadence == Cadence::while_active(),
    {
        Cadence {
            fast: Duration { nanos: 10_000_000_000 },
            medium: Duration { nanos: 60_000_000_000 },
            slow: Duration { nanos: 120_000_000_000 },
        }
    }

    /// The cadence while no session is live.
    pub fn idle() -> (cadence: Cadence)
        ensures
            cadence == Cadence::while_idle(),
    {
        Cadence {
            fast: Duration { nanos: 60_000_000_000 },
            medium: Duration { nanos: 360_000_000_000 },
            slow: Duration { nanos: 720_000_000_000 },
        }
    }

    /// How long one pass of a tier is from the next.
    pub open spec fn every(self, tier: Tier) -> Duration {
        match tier {
            Tier::Fast => self.fast,
            Tier::Medium => self.medium,
            Tier::Slow => self.slow,
        }
    }

    /// How long one pass of a tier is from the next.
    pub fn interval(&self, tier: Tier) -> (span: Duration)
        ensures
            span == self.every(tier),
    {
        match tier {
            Tier::Fast => self.fast,
            Tier::Medium => self.medium,
            Tier::Slow => self.slow,
        }
    }
}

/// Whether the monitor hurries.
#[derive(Debug, Clone, Copy, PartialEq, Eq, Structural)]
pub enum Pace {
    Active,
    Idle,
}

impl Pace {
    /// The pace while so many sessions are live.
    pub open spec fn with_live(live: nat) -> Pace {
        if live == 0 {
            Pace::Idle
        } else {
            Pace::Active
        }
    }

    /// Idle exactly while no session is live.
    pub fn for_live_sessions(live: usize) -> (pace: Pace)
        ensures
            pace == Pace::with_live(live as nat),
    {
        if live == 0 {
            Pace::Idle
        } else {
            Pace::Active
        }
    }

    /// The cadence that goes with a pace.
    pub open spec fn beat(self) -> Cadence {
        match self {
            Pace::Active => Cadence::while_active(),
            Pace::Idle => Cadence::while_idle(),
        }
    }

    /// The cadence that goes with a pace.
    pub fn cadence(&self) -> (cadence: Cadence)
        ensures
            cadence == self.beat(),
    {
        match self {
            Pace::Active => Cadence::active(),
            Pace::Idle => Cadence::idle(),
        }
    }

    /// The word a pace is published under.
    pub open spec fn word(self) -> Seq<char> {
        match self {
            Pace::Active => "active"@,
            Pace::Idle => "idle"@,
        }
    }

    /// The word a pace is published under.
    pub fn name(&self) -> (name: &'static str)
        ensures
            name@ == self.word(),
    {
        match self {
            Pace::Active => "active",
            Pace::Idle => "idle",
        }
    }

    /// The pace published under a word, if there is one.
    pub fn from_name(name: &str) -> (pace: Option<Pace>)
        ensures
            match pace {
                Some(found) => name@ == found.word(),
                None => name@ != Pace::Active.word() && name@ != Pace::Idle.word(),
            },
    {
        if text::same(name, "active") {
            Some(Pace::Active)
        } else if text::same(name, "idle") {
            Some(Pace::Idle)
        } else {
            None
        }
    }
}

impl Pace {
    /// The two paces are published under different words.
    pub proof fn lemma_paces_are_told_apart()
        ensures
            Pace::Active.word() != Pace::Idle.word(),
    {
        reveal_strlit("active");
        reveal_strlit("idle");
        assert("active"@.len() == 6 && "idle"@.len() == 4);
    }
}

/// How long one pass of each tier may take before it counts as having overrun.
#[derive(Debug, Clone, Copy, PartialEq, Eq, Structural)]
pub struct Budgets {
    pub fast: Duration,
    pub medium: Duration,
    pub slow: Duration,
}

impl Budgets {
    /// 150 ms, 800 ms and 300 ms.
    pub open spec fn usual() -> Budgets {
        Budgets {
            fast: Duration { nanos: 150_000_000 },
            medium: Duration { nanos: 800_000_000 },
            slow: Duration { nanos: 300_000_000 },
        }
    }

    /// 150 ms, 800 ms and 300 ms.
    pub fn standard() -> (budgets: Budgets)
        ensures
            budgets == Budgets::usual(),
    {
        Budgets {
            fast: Duration { nanos: 150_000_000 },
            medium: Duration { nanos: 800_000_000 },
            slow: Duration { nanos: 300_000_000 },
        }
    }

    /// What one pass of a tier may take.
    pub open spec fn allows(self, tier: Tier) -> Duration {
        match tier {
            Tier::Fast => self.fast,
            Tier::Medium => self.medium,
            Tier::Slow => self.slow,
        }
    }

    /// What one pass of a tier may take.
    pub fn budget(&self, tier: Tier) -> (span: Duration)
        ensures
            span == self.allows(tier),
    {
        match tier {
            Tier::Fast => self.fast,
            Tier::Medium => self.medium,
            Tier::Slow => self.slow,
        }
    }
}

/// How a pass ended, against its budget.
#[derive(Debug, Clone, Copy, PartialEq, Eq, Structural)]
pub enum Completion {
    WithinBudget,
    Overran { budget: Duration, took: Duration },
}

impl Completion {
    /// A pass overran exactly if it took longer than its budget.
    pub open spec fn outcome(took: Duration, budget: Duration) -> Completion {
        if took.nanos > budget.nanos {
            Completion::Overran { budget, took }
        } else {
            Completion::WithinBudget
        }
    }

    /// A pass overran exactly if it took longer than its budget.
    pub fn of(took: Duration, budget: Duration) -> (completion: Completion)
        ensures
            completion == Completion::outcome(took, budget),
    {
        if took.nanos > budget.nanos {
            Completion::Overran { budget, took }
        } else {
            Completion::WithinBudget
        }
    }

    /// Whether the pass took longer than it was given.
    pub fn overran(&self) -> (over: bool)
        ensures
            over == (*self is Overran),
    {
        match self {
            Completion::Overran { .. } => true,
            Completion::WithinBudget => false,
        }
    }

    /// What has to be said about the pass: nothing if it kept within its budget.
    pub open spec fn reason(self) -> Option<Seq<char>> {
        match self {
            Completion::WithinBudget => None,
            Completion::Overran { budget, took } => Some(
                "the pass took "@ + text::decimal(took.millis()) + " ms against a "@
                    + text::decimal(budget.millis())
                    + " ms budget, so the figures it published are older than the cadence implies"@,
            ),
        }
    }

    /// What has to be said about the pass: nothing if it kept within its budget.
    pub fn why(&self) -> (words: Option<String>)
        ensures
            match words {
                Some(found) => self.reason() == Some(found@),
                None => self.reason() is None,
            },
    {
        match self {
            Completion::WithinBudget => None,
            Completion::Overran { budget, took } => Some(
                String::from_str("the pass took ").concat(
                    text::decimal_of(took.as_millis()).as_str(),
                ).concat(" ms against a ").concat(
                    text::decimal_of(budget.as_millis()).as_str(),
                ).concat(
                    " ms budget, so the figures it published are older than the cadence implies",
                ),
            ),
        }
    }
}

/// When each tier last began, and at what pace the loop runs. Instants are counted from the start of
/// the loop.
#[derive(Debug)]
pub struct Schedule {
    pace: Pace,
    fast: Option<Duration>,
    medium: Option<Duration>,
    slow: Option<Duration>,
}

impl Default for Schedule {
    fn default() -> (schedule: Schedule)
        ensures
            schedule.paced() == Pace::Active,
            forall|tier: Tier| schedule.last(tier) is None,
    {
        Schedule::new()
    }
}

impl Schedule {
    /// The pace in force.
    pub closed spec fn paced(self) -> Pace {
        self.pace
    }

    /// When a tier last began, if it ever did.
    pub closed spec fn last(self, tier: Tier) -> Option<Duration> {
        match tier {
            Tier::Fast => self.fast,
            Tier::Medium => self.medium,
            Tier::Slow => self.slow,
        }
    }

    /// Whether a tier ought to run now: it never did, or its interval has passed since.
    pub open spec fn calls_for(self, tier: Tier, at: Duration) -> bool {
        match self.last(tier) {
            None => true,
            Some(last) => at.minus(last).nanos >= self.paced().beat().every(tier).nanos,
        }
    }

    /// How long until a tier ought to run.
    pub open spec fn until(self, tier: Tier, at: Duration) -> Duration {
        match self.last(tier) {
            None => Duration { nanos: 0 },
            Some(last) => self.paced().beat().every(tier).minus(at.minus(last)),
        }
    }

    /// Nothing has run, and the pace is active.
    pub fn new() -> (schedule: Schedule)
        ensures
            schedule.paced() == Pace::Active,
            forall|tier: Tier| schedule.last(tier) is None,
    {
        Schedule { pace: Pace::Active, fast: None, medium: None, slow: None }
    }

    /// The pace in force.
    pub fn pace(&self) -> (pace: Pace)
        ensures
            pace == self.paced(),
    {
        self.pace
    }

    /// The cadence in force.
    pub fn cadence(&self) -> (cadence: Cadence)
        ensures
            cadence == self.paced().beat(),
    {
        self.pace.cadence()
    }

    /// Takes on a pace, and says whether that changed anything.
    pub fn adopt(&mut self, pace: Pace) -> (changed: bool)
        ensures
            changed == (old(self).paced() != pace),
            final(self).paced() == pace,
            forall|tier: Tier| final(self).last(tier) == old(self).last(tier),
    {
        let changed: bool = self.pace != pace;
        self.pace = pace;
        changed
    }

    /// When a tier last began.
    pub fn started_at(&self, tier: Tier) -> (at: Option<Duration>)
        ensures
            at == self.last(tier),
    {
        match tier {
            Tier::Fast => self.fast,
            Tier::Medium => self.medium,
            Tier::Slow => self.slow,
        }
    }

    /// Records that a tier began.
    pub fn begun(&mut self, tier: Tier, at: Duration)
        ensures
            final(self).last(tier) == Some(at),
            forall|other: Tier| other != tier ==> final(self).last(other) == old(self).last(other),
            final(self).paced() == old(self).paced(),
    {
        match tier {
            Tier::Fast => {
                self.fast = Some(at);
            },
            Tier::Medium => {
                self.medium = Some(at);
            },
            Tier::Slow => {
                self.slow = Some(at);
            },
        }
    }

    /// Whether a tier ought to run now.
    pub fn is_due(&self, tier: Tier, at: Duration) -> (due: bool)
        ensures
            due == self.calls_for(tier, at),
    {
        match self.started_at(tier) {
            None => true,
            Some(last) => at.saturating_sub(last).nanos >= self.cadence().interval(tier).nanos,
        }
    }

    /// The tiers that ought to run now, the most frequent first.
    pub fn due(&self, at: Duration) -> (found: Vec<Tier>)
        ensures
            found@ == seq![Tier::Fast, Tier::Medium, Tier::Slow].filter(
                |tier: Tier| self.calls_for(tier, at),
            ),
    {
        let mut found: Vec<Tier> = Vec::new();
        let all = tiers();
        let mut next: usize = 0;
        let ghost wanted = |tier: Tier| self.calls_for(tier, at);
        while next < 3
            invariant
                next <= 3,
                all@ == seq![Tier::Fast, Tier::Medium, Tier::Slow],
                wanted == (|tier: Tier| self.calls_for(tier, at)),
                found@ == all@.take(next as int).filter(wanted),
            decreases 3 - next,
        {
            proof {
                reveal(Seq::filter);
                assert(all@.take(next + 1).drop_last() =~= all@.take(next as int));
            }
            if self.is_due(all[next], at) {
                found.push(all[next]);
            }
            next += 1;
        }
        assert(all@.take(3) =~= all@);
        found
    }

    /// Whether the loop sleeps until the first tier ought to run, and never longer than the fast interval.
    pub open spec fn sleeps_for(self, at: Duration, span: Duration) -> bool {
        &&& forall|tier: Tier| span.nanos <= (#[trigger] self.until(tier, at)).nanos
        &&& span.nanos <= self.paced().beat().fast.nanos
        &&& span == self.paced().beat().fast || exists|tier: Tier|
            span == #[trigger] self.until(tier, at)
    }

    /// How long the loop may sleep: until the first tier ought to run, and never longer than the fast
    /// interval.
    pub fn next_wake(&self, at: Duration) -> (span: Duration)
        ensures
            self.sleeps_for(at, span),
    {
        let cadence: Cadence = self.cadence();
        let all = tiers();
        let mut least: Duration = cadence.fast;
        let mut next: usize = 0;
        while next < 3
            invariant
                next <= 3,
                all@ == seq![Tier::Fast, Tier::Medium, Tier::Slow],
                cadence == self.paced().beat(),
                least.nanos <= cadence.fast.nanos,
                least == cadence.fast || exists|tier: Tier| least == #[trigger] self.until(tier, at),
                next > 0 ==> least.nanos <= self.until(Tier::Fast, at).nanos,
                next > 1 ==> least.nanos <= self.until(Tier::Medium, at).nanos,
                next > 2 ==> least.nanos <= self.until(Tier::Slow, at).nanos,
            decreases 3 - next,
        {
            let wait: Duration = match self.started_at(all[next]) {
                None => Duration { nanos: 0 },
                Some(last) => cadence.interval(all[next]).saturating_sub(at.saturating_sub(last)),
            };
            assert(wait == self.until(all@[next as int], at));
            if wait.nanos < least.nanos {
                least = wait;
            }
            next += 1;
        }
        assert forall|tier: Tier| least.nanos <= (#[trigger] self.until(tier, at)).nanos by {
            match tier {
                Tier::Fast => {},
                Tier::Medium => {},
                Tier::Slow => {},
            }
        }
        least
    }

    /// A tier that never ran ought to run, at whatever instant.
    pub proof fn law_what_never_ran_is_due(self, tier: Tier, at: Duration)
        requires
            self.last(tier) is None,
        ensures
            self.calls_for(tier, at),
    {
    }

    /// Sleeping until a tier's wait is over wakes up exactly when it ought to run: at no instant
    /// before, and at that instant it ought to.
    pub proof fn law_a_tier_is_due_exactly_when_its_wait_is_over(
        self,
        tier: Tier,
        at: Duration,
        later: Duration,
    )
        requires
            at.nanos <= later.nanos,
            self.last(tier) matches Some(last) ==> last.nanos <= at.nanos,
        ensures
            self.calls_for(tier, later) <==> later.nanos - at.nanos >= self.until(tier, at).nanos,
    {
    }

    /// Something ought to run now exactly if the loop may not sleep.
    pub proof fn law_no_sleep_exactly_while_something_is_due(self, tier: Tier, at: Duration)
        ensures
            self.calls_for(tier, at) <==> self.until(tier, at).nanos == 0,
    {
    }
}

/// The most workspaces one pass reads.
pub const MAX_SLICE: usize = 64;

/// How many workspaces the next pass reads: half as many after one that overran, a quarter more
/// after one that needed less than half its budget, and otherwise as many. Never none, and grown
/// only up to `MAX_SLICE`.
pub open spec fn next_slice(previous: int, took: Duration, budget: Duration) -> int {
    let previous = if previous < 1 {
        1
    } else {
        previous
    };
    if took.nanos > budget.nanos {
        if previous / 2 < 1 {
            1
        } else {
            previous / 2
        }
    } else if took.nanos * 2 >= budget.nanos {
        previous
    } else {
        let grown = previous + (if previous / 4 < 1 {
            1
        } else {
            previous / 4
        });
        if grown > MAX_SLICE {
            MAX_SLICE as int
        } else {
            grown
        }
    }
}

/// How many workspaces the next pass reads.
pub fn resized_slice(previous: usize, took: Duration, budget: Duration) -> (size: usize)
    ensures
        size == next_slice(previous as int, took, budget),
        size >= 1,
{
    let previous: usize = if previous < 1 {
        1
    } else {
        previous
    };
    if took.nanos > budget.nanos {
        let half: usize = previous / 2;
        return if half < 1 {
            1
        } else {
            half
        };
    }
    if took.nanos >= budget.nanos - took.nanos {
        return previous;
    }
    if previous >= MAX_SLICE {
        return MAX_SLICE;
    }
    let quarter: usize = previous / 4;
    let grown: usize = previous + (if quarter < 1 {
        1
    } else {
        quarter
    });
    if grown > MAX_SLICE {
        MAX_SLICE
    } else {
        grown
    }
}

/// A slice within its bound stays within it, whatever a pass cost.
pub proof fn law_a_slice_stays_within_its_bound(previous: int, took: Duration, budget: Duration)
    requires
        previous <= MAX_SLICE,
    ensures
        1 <= next_slice(previous, took, budget) <= MAX_SLICE,
{
}

/// How long ago a workspace was read, or that it never was.
#[derive(Debug, Clone, Copy, PartialEq, Eq, Structural)]
pub struct Staleness {
    pub age: Option<Duration>,
}

impl Ranked for Staleness {
    /// What was never read comes before what was, and of two that were read the one read longer ago.
    open spec fn ranks_before(&self, other: &Staleness) -> bool {
        match (self.age, other.age) {
            (None, Some(_)) => true,
            (Some(mine), Some(theirs)) => mine.nanos > theirs.nanos,
            _ => false,
        }
    }

    fn precedes(&self, other: &Staleness) -> (before: bool) {
        match (self.age, other.age) {
            (None, Some(_)) => true,
            (Some(mine), Some(theirs)) => mine.nanos > theirs.nanos,
            _ => false,
        }
    }

    proof fn ranks_are_ordered(first: Staleness, second: Staleness, third: Staleness) {
    }
}

/// The ages as ranks.
pub open spec fn staleness(age: Seq<Option<Duration>>) -> Seq<Staleness> {
    age.map_values(|one: Option<Duration>| Staleness { age: one })
}

/// Whether these are the positions to read next.
pub open spec fn is_choice(age: Seq<Option<Duration>>, size: nat, chosen: Seq<usize>) -> bool {
    exists|order: Seq<usize>| #[trigger]
        order::is_stable_order(staleness(age), order) && chosen == order.take(
            if size < order.len() {
                size as int
            } else {
                order.len() as int
            },
        )
}

/// The positions to read next, at most `size` of them: those never read first, then those read
/// longest ago, and of equals the one that stands first.
pub fn stalest_first(age: &[Option<Duration>], size: usize) -> (chosen: Vec<usize>)
    ensures
        is_choice(age@, size as nat, chosen@),
{
    let mut keys: Vec<Staleness> = Vec::new();
    let mut next: usize = 0;
    while next < age.len()
        invariant
            next <= age@.len(),
            keys@ == staleness(age@).take(next as int),
        decreases age@.len() - next,
    {
        keys.push(Staleness { age: age[next] });
        next += 1;
        assert(keys@ =~= staleness(age@).take(next as int));
    }
    assert(keys@ =~= staleness(age@));
    let mut chosen: Vec<usize> = order::stable_order(&keys);
    let ghost order = chosen@;
    chosen.truncate(size);
    proof {
        let keep = if size < order.len() {
            size as int
        } else {
            order.len() as int
        };
        assert(chosen@ =~= order.take(keep));
    }
    chosen
}

/// How much of the workspaces known has been read.
#[derive(Debug, Clone, Copy, PartialEq, Eq, Structural)]
pub struct Coverage {
    pub total: usize,
    pub read: usize,
    pub never_read: usize,
}

impl Default for Coverage {
    fn default() -> (coverage: Coverage)
        ensures
            coverage == (Coverage { total: 0, read: 0, never_read: 0 }),
    {
        Coverage { total: 0, read: 0, never_read: 0 }
    }
}

impl Coverage {
    /// Whether every workspace known has been read at least once.
    pub fn complete(&self) -> (all: bool)
        ensures
            all == (self.never_read == 0),
    {
        self.never_read == 0
    }
}

} // verus!
