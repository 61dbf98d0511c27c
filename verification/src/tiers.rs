//! Collecting in tiers: what each tier last read, and a machine that asks only what one of them reads.

use crate::book::Book;
use crate::collect;
use crate::collect::{CollectError, Exchange, Log, Role, Snapshot, World};
use crate::liveness::Thresholds;
use crate::schedule;
use crate::schedule::{Budgets, Completion, Coverage};
use crate::state::Tier;
use crate::time::{Duration, SystemTime};
use crate::vcs::{Unreadable, VcsFacts};
use crate::world::{
    ActivityUnavailable, CodexSession, LoadAverage, NamespaceResolution, ProcessSnapshot, Resources,
    ResourcesUnavailable, Sweep, WorldError,
};
use self::machine::{Gathered, Part, TieredWorld};
use vstd::prelude::*;

pub mod machine;
pub mod payload;

verus! {

/// What a tier read, and when.
#[derive(Debug, PartialEq, Eq)]
pub struct Stamped<T> {
    pub facts: T,
    pub observed_at: SystemTime,
    pub at: Duration,
    pub took: Duration,
    pub sequence: u64,
    pub load: Result<LoadAverage, String>,
}

/// What the fast tier reads: the processes, what the agents among them use, and the names that
/// transcripts are recorded under.
#[derive(Debug, PartialEq, Eq)]
pub struct FastFacts {
    pub snapshot: Result<ProcessSnapshot, WorldError>,
    pub resources: Book<i32, Result<Resources, ResourcesUnavailable>>,
    pub namespaces: Result<Vec<String>, WorldError>,
}

/// What the medium tier reads: the directories behind recorded names, when their transcripts changed,
/// and the repositories there are.
#[derive(Debug, PartialEq, Eq)]
pub struct MediumFacts {
    pub resolutions: Book<String, NamespaceResolution>,
    pub sweep: Option<(Vec<String>, Sweep)>,
    pub activity: Book<String, Result<SystemTime, ActivityUnavailable>>,
}

/// What version control said of a workspace, and when.
#[derive(Debug, PartialEq, Eq)]
pub struct ReadVcs {
    pub facts: Result<VcsFacts, Unreadable>,
    pub observed_at: SystemTime,
    pub at: Duration,
}

impl Clone for ReadVcs {
    fn clone(&self) -> (copy: ReadVcs)
        ensures
            copy == *self,
    {
        ReadVcs {
            facts: match &self.facts {
                Ok(facts) => Ok(facts.clone()),
                Err(why) => Err(why.clone()),
            },
            observed_at: self.observed_at,
            at: self.at,
        }
    }
}

/// What the slow tier reads: Codex's index, and what version control says of the workspaces, a slice
/// of them at a time.
#[derive(Debug, PartialEq, Eq)]
pub struct SlowFacts {
    pub codex: Option<Result<Vec<CodexSession>, WorldError>>,
    pub vcs: Book<String, ReadVcs>,
    pub coverage: Coverage,
    pub slice: usize,
}

/// How many repositories the first slow pass reads.
pub const FIRST_SLICE: usize = 4;

/// What every tier last read.
#[derive(Debug, PartialEq, Eq)]
pub struct Observed {
    pub fast: Option<Stamped<FastFacts>>,
    pub medium: Option<Stamped<MediumFacts>>,
    pub slow: Option<Stamped<SlowFacts>>,
}

impl Observed {
    /// Nothing has been read yet.
    pub fn nothing() -> (observed: Observed)
        ensures
            observed.fast is None,
            observed.medium is None,
            observed.slow is None,
    {
        Observed { fast: None, medium: None, slow: None }
    }

    /// Whether every tier has read at least once.
    pub open spec fn is_whole(self) -> bool {
        self.fast is Some && self.medium is Some && self.slow is Some
    }

    /// Whether every tier has read at least once.
    pub fn every_tier_has_run(&self) -> (whole: bool)
        ensures
            whole == self.is_whole(),
    {
        self.fast.is_some() && self.medium.is_some() && self.slow.is_some()
    }

    /// Whether this is the role that the next pass is made in.
    pub open spec fn acts_as(self, role: Role) -> bool {
        &&& role == Role::Monitor <==> self.is_whole()
        &&& role == Role::Display <==> !self.is_whole()
    }

    /// The role that the next pass is made in: nothing is announced and nothing is stored before every tier
    /// has read at least once.
    pub fn role(&self) -> (role: Role)
        ensures
            self.acts_as(role),
    {
        if self.every_tier_has_run() {
            Role::Monitor
        } else {
            Role::Display
        }
    }

    /// When a tier last read.
    pub open spec fn read_at(self, tier: Tier) -> Option<SystemTime> {
        match tier {
            Tier::Fast => match self.fast {
                Some(stamped) => Some(stamped.observed_at),
                None => None,
            },
            Tier::Medium => match self.medium {
                Some(stamped) => Some(stamped.observed_at),
                None => None,
            },
            Tier::Slow => match self.slow {
                Some(stamped) => Some(stamped.observed_at),
                None => None,
            },
        }
    }

    /// When a tier last read.
    pub fn stamp(&self, tier: Tier) -> (stamp: Option<SystemTime>)
        ensures
            stamp == self.read_at(tier),
    {
        match tier {
            Tier::Fast => match &self.fast {
                Some(stamped) => Some(stamped.observed_at),
                None => None,
            },
            Tier::Medium => match &self.medium {
                Some(stamped) => Some(stamped.observed_at),
                None => None,
            },
            Tier::Slow => match &self.slow {
                Some(stamped) => Some(stamped.observed_at),
                None => None,
            },
        }
    }

    /// How many repositories the next slow pass reads.
    pub open spec fn next_slice(self) -> usize {
        match self.slow {
            Some(slow) => if slow.facts.slice < 1 {
                1
            } else {
                slow.facts.slice
            },
            None => FIRST_SLICE,
        }
    }

    /// How many repositories the next slow pass reads.
    pub fn slice(&self) -> (slice: usize)
        ensures
            slice == self.next_slice(),
    {
        match &self.slow {
            Some(slow) => if slow.facts.slice < 1 {
                1
            } else {
                slow.facts.slice
            },
            None => FIRST_SLICE,
        }
    }
}

/// What one pass of a tier came to.
#[derive(Debug, PartialEq, Eq)]
pub struct Pass {
    pub tier: Tier,
    pub snapshot: Result<Snapshot, CollectError>,
    pub observed_at: SystemTime,
    pub at: Duration,
    pub took: Duration,
    pub completion: Completion,
    pub load: Result<LoadAverage, String>,
    pub role: Role,
}

/// What a pass read.
#[derive(Debug, PartialEq, Eq)]
pub enum TierFacts {
    Fast(FastFacts),
    Medium(MediumFacts),
    Slow(SlowFacts),
}

impl TierFacts {
    /// The tier that reads these.
    pub open spec fn of_tier(self) -> Tier {
        match self {
            TierFacts::Fast(_) => Tier::Fast,
            TierFacts::Medium(_) => Tier::Medium,
            TierFacts::Slow(_) => Tier::Slow,
        }
    }
}

/// The course of a pass: what its collection was told, how it came by each answer, what it gathered, and
/// what the clock showed before and after.
pub struct Course {
    pub told: Log,
    pub parts: Seq<Part>,
    pub gathered: Gathered,
    pub begun: Duration,
    pub ended: Duration,
}

/// Whether a pass took this course: the load is read, and then the clock; the collection asks what its
/// tier reads; and the clock is read again.
pub open spec fn is_course(
    course: Course,
    pass: Pass,
    facts: TierFacts,
    observed: Observed,
    thresholds: Thresholds,
    budgets: Budgets,
    before: Log,
    after: Log,
) -> bool {
    let slice = observed.next_slice();
    &&& collect::is_timed(
        before.push(Exchange::Load(pass.load)),
        after,
        course.begun,
        machine::asked_in(course.parts),
        course.ended,
    )
    &&& pass.took == course.ended.minus(course.begun)
    &&& collect::is_outcome(
        pass.snapshot,
        course.told,
        pass.observed_at,
        thresholds,
        pass.role,
    )
    &&& machine::are_tiered(
        course.told,
        course.parts,
        observed,
        pass.tier,
        slice,
        pass.observed_at,
        pass.at,
    )
    &&& machine::is_gathered(course.gathered, course.told, course.parts, pass.tier, slice)
    &&& machine::are_facts(
        facts,
        course.gathered,
        pass.tier,
        schedule::next_slice(slice as int, pass.took, budgets.slow) as usize,
    )
}

/// Runs one pass of a tier: a collection in which only what this tier reads is asked of the machine,
/// and everything else is what its own tier last read. The clock is read before the collection and once
/// it is over, and the machine is handed back.
pub fn run_pass<W: World>(
    tier: Tier,
    observed: &Observed,
    world: W,
    now: SystemTime,
    at: Duration,
    thresholds: &Thresholds,
    role: Role,
    budgets: &Budgets,
) -> (ran: (Pass, TierFacts, W))
    ensures
        ran.0.tier == tier,
        ran.0.observed_at == now,
        ran.0.at == at,
        ran.0.role == role,
        ran.0.completion == Completion::outcome(ran.0.took, budgets.allows(tier)),
        ran.1.of_tier() == tier,
        ran.1 matches TierFacts::Slow(facts) ==> facts.slice == schedule::next_slice(
            observed.next_slice() as int,
            ran.0.took,
            budgets.slow,
        ),
        forall|past: W| #[trigger] world.grew_from(&past) ==> ran.2.grew_from(&past),
        exists|course: Course| #[trigger]
            is_course(
                course,
                ran.0,
                ran.1,
                *observed,
                *thresholds,
                *budgets,
                world.log(),
                ran.2.log(),
            ),
{
    let slice: usize = observed.slice();
    let mut before: W = world;
    let load: Result<LoadAverage, String> = before.load_average();
    let started: Duration = before.clock();
    let mut tiered = TieredWorld::new(observed, before, tier, now, at, slice);
    let ghost begun = tiered;
    assert(tiered.grew_from(&begun));
    let snapshot: Result<Snapshot, CollectError> = collect::collect_as(
        &mut tiered,
        now,
        thresholds,
        role,
    );
    let ghost told = tiered.log();
    let ghost parts = tiered.parts@;
    let ghost gathered = tiered.gathered;
    assert(tiered.grew_from(&begun));
    assert(collect::is_outcome(snapshot, told, now, *thresholds, role)) by {
        let asked = choose|asked: Seq<Exchange>| #[trigger]
            collect::goes_on(begun.log(), told, asked) && collect::is_outcome(
                snapshot,
                asked,
                now,
                *thresholds,
                role,
            );
        assert(asked =~= told);
    }
    let TieredWorld { delegate, gathered: read, .. } = tiered;
    let mut after: W = delegate;
    let ended: Duration = after.clock();
    let took: Duration = ended.saturating_sub(started);
    let facts: TierFacts = read.into_facts(
        tier,
        schedule::resized_slice(slice, took, budgets.slow),
    );
    let completion: Completion = Completion::of(took, budgets.budget(tier));
    let pass = Pass { tier, snapshot, observed_at: now, at, took, completion, load, role };
    let ghost course = Course { told, parts, gathered, begun: started, ended };
    assert(after.log() =~= world.log().push(Exchange::Load(load)).push(Exchange::Clock(started))
        + machine::asked_in(parts).push(Exchange::Clock(ended)));
    let ran: (Pass, TierFacts, W) = (pass, facts, after);
    assert(is_course(
        course,
        ran.0,
        ran.1,
        *observed,
        *thresholds,
        *budgets,
        world.log(),
        ran.2.log(),
    ));
    ran
}

fn load_again(load: &Result<LoadAverage, String>) -> (copy: Result<LoadAverage, String>)
    ensures
        copy == *load,
{
    match load {
        Ok(load) => Ok(*load),
        Err(why) => Err(why.clone()),
    }
}

/// Whether a tier's facts bear the stamp of a pass.
pub open spec fn is_stamped<T>(stamped: Stamped<T>, pass: Pass, sequence: u64) -> bool {
    &&& stamped.observed_at == pass.observed_at
    &&& stamped.at == pass.at
    &&& stamped.took == pass.took
    &&& stamped.sequence == sequence
    &&& stamped.load == pass.load
}

/// What is kept of the medium tier: a pass that ended before it searched keeps what the last one found,
/// and of the rest whatever it did read.
pub open spec fn kept_medium(facts: MediumFacts, previous: Option<Stamped<MediumFacts>>) -> MediumFacts {
    match (previous, facts.sweep) {
        (Some(before), None) => MediumFacts {
            resolutions: if facts.resolutions@ == Map::<Seq<char>, NamespaceResolution>::empty() {
                before.facts.resolutions
            } else {
                facts.resolutions
            },
            sweep: before.facts.sweep,
            activity: if facts.activity@ == Map::<
                Seq<char>,
                Result<SystemTime, ActivityUnavailable>,
            >::empty() {
                before.facts.activity
            } else {
                facts.activity
            },
        },
        _ => facts,
    }
}

/// What is kept of the slow tier: a pass that read nothing keeps what the last one read, and one that
/// did not get to Codex's index keeps the last reading of that.
pub open spec fn kept_slow(facts: SlowFacts, previous: Option<Stamped<SlowFacts>>) -> SlowFacts {
    match previous {
        Some(before) => if facts.vcs@ == Map::<Seq<char>, ReadVcs>::empty() && facts.codex is None {
            before.facts
        } else if facts.codex is None {
            SlowFacts { codex: before.facts.codex, ..facts }
        } else {
            facts
        },
        None => facts,
    }
}

/// Whether what a pass read was taken in, under its stamp.
pub open spec fn has_absorbed(
    after: Observed,
    before: Observed,
    pass: Pass,
    facts: TierFacts,
    sequence: u64,
) -> bool {
    match facts {
        TierFacts::Fast(read) => {
            &&& after.fast matches Some(stamped)
            &&& stamped.facts == read
            &&& is_stamped(stamped, pass, sequence)
            &&& after.medium == before.medium
            &&& after.slow == before.slow
        },
        TierFacts::Medium(read) => {
            &&& after.medium matches Some(stamped)
            &&& stamped.facts == kept_medium(read, before.medium)
            &&& is_stamped(stamped, pass, sequence)
            &&& after.fast == before.fast
            &&& after.slow == before.slow
        },
        TierFacts::Slow(read) => {
            &&& after.slow matches Some(stamped)
            &&& stamped.facts == kept_slow(read, before.slow)
            &&& is_stamped(stamped, pass, sequence)
            &&& after.fast == before.fast
            &&& after.medium == before.medium
        },
    }
}

impl Observed {
    /// Takes in what a pass read, under its stamp. The other tiers stay as they were.
    pub fn absorb(&mut self, pass: &Pass, facts: TierFacts, sequence: u64)
        ensures
            has_absorbed(*final(self), *old(self), *pass, facts, sequence),
    {
        let load: Result<LoadAverage, String> = load_again(&pass.load);
        match facts {
            TierFacts::Fast(facts) => {
                self.fast = Some(
                    Stamped {
                        facts,
                        observed_at: pass.observed_at,
                        at: pass.at,
                        took: pass.took,
                        sequence,
                        load,
                    },
                );
            },
            TierFacts::Medium(facts) => {
                let previous: Option<Stamped<MediumFacts>> = self.medium.take();
                let kept: MediumFacts = match (previous, facts.sweep.is_none()) {
                    (Some(before), true) => MediumFacts {
                        resolutions: if facts.resolutions.is_empty() {
                            before.facts.resolutions
                        } else {
                            facts.resolutions
                        },
                        sweep: before.facts.sweep,
                        activity: if facts.activity.is_empty() {
                            before.facts.activity
                        } else {
                            facts.activity
                        },
                    },
                    _ => facts,
                };
                self.medium = Some(
                    Stamped {
                        facts: kept,
                        observed_at: pass.observed_at,
                        at: pass.at,
                        took: pass.took,
                        sequence,
                        load,
                    },
                );
            },
            TierFacts::Slow(facts) => {
                let previous: Option<Stamped<SlowFacts>> = self.slow.take();
                let kept: SlowFacts = match previous {
                    Some(before) => if facts.vcs.is_empty() && facts.codex.is_none() {
                        before.facts
                    } else if facts.codex.is_none() {
                        SlowFacts {
                            codex: before.facts.codex,
                            vcs: facts.vcs,
                            coverage: facts.coverage,
                            slice: facts.slice,
                        }
                    } else {
                        facts
                    },
                    None => facts,
                };
                self.slow = Some(
                    Stamped {
                        facts: kept,
                        observed_at: pass.observed_at,
                        at: pass.at,
                        took: pass.took,
                        sequence,
                        load,
                    },
                );
            },
        }
    }
}

/// A pass that failed before it read anything leaves what its tier knew as it was.
pub proof fn law_a_failed_pass_forgets_nothing(
    medium: MediumFacts,
    slow: SlowFacts,
    searched: Stamped<MediumFacts>,
    read: Stamped<SlowFacts>,
)
    requires
        medium.sweep is None,
        medium.resolutions@ == Map::<Seq<char>, NamespaceResolution>::empty(),
        medium.activity@ == Map::<Seq<char>, Result<SystemTime, ActivityUnavailable>>::empty(),
        slow.codex is None,
        slow.vcs@ == Map::<Seq<char>, ReadVcs>::empty(),
    ensures
        kept_medium(medium, Some(searched)) == searched.facts,
        kept_slow(slow, Some(read)) == read.facts,
{
}

} // verus!
