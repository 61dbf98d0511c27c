//! What the display makes of what the monitor published: how old it is, whether to believe it, and what
//! to say about it.

use crate::collect;
use crate::collect::{CollectError, Exchange, Role, Session, Snapshot, World};
use crate::isotime;
use crate::liveness::Thresholds;
use crate::meter;
use crate::meter::Share;
use crate::order;
use crate::order::Ranked;
use crate::render::lines;
use crate::schedule::{Cadence, Pace};
use crate::starts::Examined;
use crate::state::{Tier, TieredState};
use crate::text;
use crate::tiers::payload;
use crate::tiers::payload::{
    FastPayload, MediumPayload, Published, PublishedMeters, SessionRow, SlowPayload, WorkspaceRow,
};
use crate::time::{Duration, SystemTime};
use crate::world::Unmeasured;
use vstd::prelude::*;

verus! {

/// How often the display looks at the state file.
pub open spec fn polls_every() -> Duration {
    Duration { nanos: 1_000_000_000 }
}

/// How often the display looks at the state file.
pub fn poll_interval() -> (span: Duration)
    ensures
        span == polls_every(),
{
    Duration { nanos: 1_000_000_000 }
}

// --- Looking at the file -----------------------------------------------------------------------

/// What looking at the state file gave.
#[derive(Debug, PartialEq, Eq)]
pub enum Stat {
    At(SystemTime),
    Absent,
    Failed(String),
}

impl Clone for Stat {
    fn clone(&self) -> (copy: Stat)
        ensures
            copy == *self,
    {
        match self {
            Stat::At(time) => Stat::At(*time),
            Stat::Absent => Stat::Absent,
            Stat::Failed(why) => Stat::Failed(why.clone()),
        }
    }
}

impl Stat {
    /// Whether two looks gave the same.
    pub open spec fn is_same(self, other: Stat) -> bool {
        match (self, other) {
            (Stat::At(one), Stat::At(two)) => one == two,
            (Stat::Absent, Stat::Absent) => true,
            (Stat::Failed(one), Stat::Failed(two)) => one@ == two@,
            _ => false,
        }
    }

    fn same(&self, other: &Stat) -> (same: bool)
        ensures
            same == self.is_same(*other),
    {
        match (self, other) {
            (Stat::At(one), Stat::At(two)) => one.nanos == two.nanos,
            (Stat::Absent, Stat::Absent) => true,
            (Stat::Failed(one), Stat::Failed(two)) => text::same(one.as_str(), two.as_str()),
            _ => false,
        }
    }
}

/// Whether this is what looking at the state file gave.
pub open spec fn is_stat(stat: Stat, path: Seq<char>, examined: Examined) -> bool {
    match examined {
        Examined::Modified(at) => stat == Stat::At(at),
        Examined::NotFound => stat is Absent,
        Examined::WithoutTime(why) => stat matches Stat::Failed(said) && said@ == path
            + " has no readable modification time: "@ + why@,
        Examined::Failed(why) => stat matches Stat::Failed(said) && said@ == path
            + " could not be checked: "@ + why@,
    }
}

/// What looking at the state file gave, given what examining it came to.
pub fn stat_state_file(path: &str, examined: Examined) -> (stat: Stat)
    ensures
        is_stat(stat, path@, examined),
{
    match examined {
        Examined::Modified(at) => Stat::At(at),
        Examined::NotFound => Stat::Absent,
        Examined::WithoutTime(why) => Stat::Failed(
            String::from_str(path).concat(" has no readable modification time: ").concat(
                why.as_str(),
            ),
        ),
        Examined::Failed(why) => Stat::Failed(
            String::from_str(path).concat(" could not be checked: ").concat(why.as_str()),
        ),
    }
}

/// What a look at the state file calls for.
#[derive(Debug, PartialEq, Eq)]
pub enum Poll {
    Reread,
    Unchanged,
    Absent,
    Unstattable(String),
}

/// Whether this is what a look at the state file calls for, and what is remembered of it.
pub open spec fn is_poll(poll: Poll, before: Option<Stat>, stat: Stat, after: Option<Stat>) -> bool {
    if before is Some && before->0.is_same(stat) {
        poll is Unchanged && after == before
    } else {
        &&& after == Some(stat)
        &&& poll == match stat {
            Stat::At(_) => Poll::Reread,
            Stat::Absent => Poll::Absent,
            Stat::Failed(why) => Poll::Unstattable(why),
        }
    }
}

/// Remembers what the last look at the state file gave.
#[derive(Debug)]
pub struct Poller {
    previous: Option<Stat>,
}

impl Poller {
    /// What the last look gave.
    pub closed spec fn last(self) -> Option<Stat> {
        self.previous
    }

    /// One that has not looked yet.
    pub fn new() -> (poller: Poller)
        ensures
            poller.last() is None,
    {
        Poller { previous: None }
    }

    /// Takes in a look: one that gave what the last one gave calls for nothing.
    pub fn observe(&mut self, stat: Stat) -> (poll: Poll)
        ensures
            is_poll(poll, old(self).last(), stat, final(self).last()),
    {
        if let Some(previous) = &self.previous {
            if previous.same(&stat) {
                return Poll::Unchanged;
            }
        }
        let poll: Poll = match &stat {
            Stat::At(_) => Poll::Reread,
            Stat::Absent => Poll::Absent,
            Stat::Failed(why) => Poll::Unstattable(why.clone()),
        };
        self.previous = Some(stat);
        poll
    }
}

// --- What was published ------------------------------------------------------------------------

/// What the monitor published, as far as it can be drawn.
#[derive(Debug, PartialEq, Eq)]
pub struct PublishedReading {
    pub writer_pid: u32,
    pub fast: FastPayload,
    pub fast_stamp: SystemTime,
    pub medium: Option<(MediumPayload, SystemTime)>,
    pub slow: Option<(SlowPayload, SystemTime)>,
    pub meters: PublishedMeters,
}

/// What the state file gave.
#[derive(Debug, PartialEq, Eq)]
pub enum StateReading {
    Absent,
    Published(PublishedReading),
    Unrenderable { writer_pid: u32, why: String },
    Unusable(String),
}

impl PublishedReading {
    /// The workspaces that were published.
    pub fn workspaces(&self) -> (rows: &[WorkspaceRow])
        ensures
            rows@ == match self.slow {
                Some(slow) => slow.0.workspaces@,
                None => Seq::empty(),
            },
    {
        match &self.slow {
            Some(slow) => slow.0.workspaces.as_slice(),
            None => {
                let none: &[WorkspaceRow] = &[];
                assert(none@ =~= Seq::empty());
                none
            },
        }
    }
}

/// What stands in an entry of the state file, by tier.
pub open spec fn tier_at(i: int) -> Tier {
    if i == 0 {
        Tier::Fast
    } else if i == 1 {
        Tier::Medium
    } else {
        Tier::Slow
    }
}

/// The last fast payload among what was published.
pub open spec fn fast_among(entries: Seq<Option<(Published, SystemTime)>>) -> Option<
    (FastPayload, SystemTime),
>
    decreases entries.len(),
{
    if entries.len() == 0 {
        None
    } else {
        match entries.last() {
            Some((Published::Fast(payload), stamp)) => Some((payload, stamp)),
            _ => fast_among(entries.drop_last()),
        }
    }
}

/// The last medium payload among what was published.
pub open spec fn medium_among(entries: Seq<Option<(Published, SystemTime)>>) -> Option<
    (MediumPayload, SystemTime),
>
    decreases entries.len(),
{
    if entries.len() == 0 {
        None
    } else {
        match entries.last() {
            Some((Published::Medium(payload), stamp)) => Some((payload, stamp)),
            _ => medium_among(entries.drop_last()),
        }
    }
}

/// The last slow payload among what was published.
pub open spec fn slow_among(entries: Seq<Option<(Published, SystemTime)>>) -> Option<
    (SlowPayload, SystemTime),
>
    decreases entries.len(),
{
    if entries.len() == 0 {
        None
    } else {
        match entries.last() {
            Some((Published::Slow(payload), stamp)) => Some((payload, stamp)),
            _ => slow_among(entries.drop_last()),
        }
    }
}

/// What is said of a monitor that has published nothing that can be drawn.
pub open spec fn undrawable(tiers: nat) -> Seq<char> {
    if tiers == 0 {
        "it holds the writer role and has completed no pass yet, so it has published no tier to draw from"@
    } else {
        "it published "@ + text::decimal(tiers)
            + " tier(s) but no fast pass, and the sessions and its own cost are both in the fast tier"@
    }
}

/// Whether this is what the entries of a state file come to. Without the fast tier there is nothing to
/// draw.
pub open spec fn is_drawn_from(
    reading: StateReading,
    state: TieredState,
    entries: Seq<Option<(Published, SystemTime)>>,
) -> bool {
    match fast_among(entries) {
        Some(fast) => {
            &&& reading matches StateReading::Published(published)
            &&& published.writer_pid == state.written_by()
            &&& published.fast == fast.0
            &&& published.fast_stamp == fast.1
            &&& published.medium == medium_among(entries)
            &&& published.slow == slow_among(entries)
            &&& payload::are_meters(published.meters, fast.0, fast.1)
        },
        None => {
            &&& reading matches StateReading::Unrenderable { writer_pid, why }
            &&& writer_pid == state.written_by()
            &&& why@ == undrawable(state@.dom().len())
        },
    }
}

/// Whether this is what a state file gives. Half of it is not believed: a payload that cannot be read
/// makes the whole file unusable, and the first such one is the reason.
pub open spec fn is_state_reading<F: Fn(Tier, &serde_json::Value) -> Result<Published, String>>(
    reading: StateReading,
    state: TieredState,
    decode: F,
) -> bool {
    exists|found: Seq<Result<Option<(Published, SystemTime)>, String>>|
        {
            &&& #[trigger] found.len() <= 3
            &&& forall|i: int|
                0 <= i < found.len() ==> payload::is_published(
                    #[trigger] found[i],
                    state,
                    tier_at(i),
                    decode,
                )
            &&& forall|i: int| 0 <= i < found.len() - 1 ==> (#[trigger] found[i]) is Ok
            &&& if found.len() > 0 && found.last() is Err {
                reading == StateReading::Unusable(found.last()->Err_0)
            } else {
                found.len() == 3 && is_drawn_from(
                    reading,
                    state,
                    Seq::new(3, |i: int| found[i]->Ok_0),
                )
            }
        }
}

/// What a state file gives.
pub fn reading_of<F: Fn(Tier, &serde_json::Value) -> Result<Published, String>>(
    state: &TieredState,
    decode: &F,
) -> (reading: StateReading)
    requires
        forall|tier: Tier, data: &serde_json::Value| #[trigger] call_requires(*decode, (tier, data)),
    ensures
        is_state_reading(reading, *state, *decode),
{
    let ghost mut found: Seq<Result<Option<(Published, SystemTime)>, String>> = Seq::empty();
    let first: Result<Option<(Published, SystemTime)>, String> = payload::published(
        state,
        Tier::Fast,
        decode,
    );
    proof {
        found = found.push(first);
    }
    let first: Option<(Published, SystemTime)> = match first {
        Ok(entry) => entry,
        Err(why) => {
            assert(found.len() <= 3);
            return StateReading::Unusable(why);
        },
    };
    let second: Result<Option<(Published, SystemTime)>, String> = payload::published(
        state,
        Tier::Medium,
        decode,
    );
    proof {
        found = found.push(second);
    }
    let second: Option<(Published, SystemTime)> = match second {
        Ok(entry) => entry,
        Err(why) => {
            assert(found.len() <= 3);
            return StateReading::Unusable(why);
        },
    };
    let third: Result<Option<(Published, SystemTime)>, String> = payload::published(
        state,
        Tier::Slow,
        decode,
    );
    proof {
        found = found.push(third);
    }
    let third: Option<(Published, SystemTime)> = match third {
        Ok(entry) => entry,
        Err(why) => {
            assert(found.len() <= 3);
            return StateReading::Unusable(why);
        },
    };
    let mut entries: Vec<Option<(Published, SystemTime)>> = Vec::new();
    entries.push(first);
    entries.push(second);
    entries.push(third);
    assert(entries@ =~= Seq::new(3, |i: int| found[i]->Ok_0));
    assert(found.len() <= 3);
    drawn_from(state, entries)
}

fn drawn_from(state: &TieredState, entries: Vec<Option<(Published, SystemTime)>>) -> (reading:
    StateReading)
    ensures
        is_drawn_from(reading, *state, entries@),
{
    let ghost all = entries@;
    let mut fast: Option<(FastPayload, SystemTime)> = None;
    let mut medium: Option<(MediumPayload, SystemTime)> = None;
    let mut slow: Option<(SlowPayload, SystemTime)> = None;
    assert(all.take(0) =~= Seq::empty());
    for entry in walk: entries
        invariant
            walk.seq() == all,
            fast == fast_among(all.take(walk.index())),
            medium == medium_among(all.take(walk.index())),
            slow == slow_among(all.take(walk.index())),
    {
        let ghost at = walk.index();
        assert(all.take(at + 1).drop_last() =~= all.take(at));
        assert(all.take(at + 1).last() == entry);
        match entry {
            Some((Published::Fast(payload), stamp)) => {
                fast = Some((payload, stamp));
            },
            Some((Published::Medium(payload), stamp)) => {
                medium = Some((payload, stamp));
            },
            Some((Published::Slow(payload), stamp)) => {
                slow = Some((payload, stamp));
            },
            None => {},
        }
    }
    assert(all.take(all.len() as int) =~= all);
    match fast {
        Some((payload, stamp)) => {
            let meters: PublishedMeters = payload::meters_of(&payload, stamp);
            StateReading::Published(
                PublishedReading {
                    writer_pid: state.writer_pid(),
                    fast: payload,
                    fast_stamp: stamp,
                    medium,
                    slow,
                    meters,
                },
            )
        },
        None => {
            let tiers: usize = state.tier_count();
            StateReading::Unrenderable {
                writer_pid: state.writer_pid(),
                why: if tiers == 0 {
                    String::from_str(
                        "it holds the writer role and has completed no pass yet, so it has published no tier to draw from",
                    )
                } else {
                    String::from_str("it published ").concat(
                        text::count_of(tiers).as_str(),
                    ).concat(
                        " tier(s) but no fast pass, and the sessions and its own cost are both in the fast tier",
                    )
                },
            }
        },
    }
}

/// What the state file gives, given what reading it came to.
pub fn read_state_file<F: Fn(Tier, &serde_json::Value) -> Result<Published, String>>(
    read: Result<Option<TieredState>, String>,
    decode: &F,
) -> (reading: StateReading)
    requires
        forall|tier: Tier, data: &serde_json::Value| #[trigger] call_requires(*decode, (tier, data)),
    ensures
        match read {
            Ok(None) => reading is Absent,
            Ok(Some(state)) => is_state_reading(reading, state, *decode),
            Err(why) => reading == StateReading::Unusable(why),
        },
{
    match read {
        Ok(None) => StateReading::Absent,
        Ok(Some(state)) => reading_of(&state, decode),
        Err(why) => StateReading::Unusable(why),
    }
}

/// Whether the process that wrote the state is there.
#[derive(Debug, Clone, Copy, PartialEq, Eq, Structural)]
pub enum Writer {
    Alive,
    Gone,
}

impl Writer {
    /// How the process of a number is, where something of that number is there.
    pub open spec fn judged(pid: u32, there: bool) -> Writer {
        if pid != 0 && there {
            Writer::Alive
        } else {
            Writer::Gone
        }
    }

    /// Whether the process that wrote the state is there: no process has the number zero.
    pub fn of(pid: u32, there: bool) -> (writer: Writer)
        ensures
            writer == Writer::judged(pid, there),
    {
        if pid == 0 {
            return Writer::Gone;
        }
        if there {
            Writer::Alive
        } else {
            Writer::Gone
        }
    }
}

// --- Ages --------------------------------------------------------------------------------------

/// How many intervals of silence mean that a pass was missed.
pub const MISSED_A_PASS: u32 = 2;

/// How old what a tier published is.
#[derive(Debug, PartialEq, Eq)]
pub struct TierAge {
    pub tier: Tier,
    pub name: &'static str,
    /// Since its last pass ran.
    pub since_pass: Result<Duration, String>,
    /// Since the oldest of what it published was read.
    pub since_evidence: Result<Duration, String>,
    pub interval: Duration,
    /// Why it should have published again by now, where it should have.
    pub overdue: Option<String>,
}

/// How old everything on the screen is.
#[derive(Debug, PartialEq, Eq)]
pub struct Ages {
    pub now: SystemTime,
    pub tiers: Vec<TierAge>,
    pub pace: String,
    pub cadence: Cadence,
    pub pace_unknown: bool,
    pub warming_up: bool,
}

/// The greatest age among some tiers' evidence.
pub open spec fn greatest(tiers: Seq<TierAge>) -> Option<Duration>
    decreases tiers.len(),
{
    if tiers.len() == 0 {
        None
    } else {
        let before = greatest(tiers.drop_last());
        match (before, tiers.last().since_evidence) {
            (Some(most), Ok(age)) => if age.nanos >= most.nanos {
                Some(age)
            } else {
                Some(most)
            },
            (None, Ok(age)) => Some(age),
            (before, Err(_)) => before,
        }
    }
}

/// The tiers that are overdue.
pub open spec fn late(tiers: Seq<TierAge>) -> Seq<TierAge>
    decreases tiers.len(),
{
    if tiers.len() == 0 {
        Seq::empty()
    } else if tiers.last().overdue is Some {
        late(tiers.drop_last()).push(tiers.last())
    } else {
        late(tiers.drop_last())
    }
}

/// Ages of one tier.
pub open spec fn of_tier(tier: Tier) -> spec_fn(TierAge) -> bool {
    |age: TierAge| age.tier == tier
}

impl Ages {
    /// The greatest age of anything on the screen.
    pub fn oldest_evidence(&self) -> (age: Option<Duration>)
        ensures
            age == greatest(self.tiers@),
    {
        let ghost all = self.tiers@;
        let mut most: Option<Duration> = None;
        let mut next: usize = 0;
        assert(all.take(0) =~= Seq::empty());
        while next < self.tiers.len()
            invariant
                next <= all.len(),
                all == self.tiers@,
                most == greatest(all.take(next as int)),
            decreases all.len() - next,
        {
            assert(all.take(next + 1).drop_last() =~= all.take(next as int));
            if let Ok(age) = &self.tiers[next].since_evidence {
                most = match most {
                    Some(so_far) => if age.nanos >= so_far.nanos {
                        Some(*age)
                    } else {
                        Some(so_far)
                    },
                    None => Some(*age),
                };
            }
            next += 1;
        }
        assert(all.take(all.len() as int) =~= all);
        most
    }

    /// How old what a tier published is.
    pub fn of(&self, tier: Tier) -> (age: Option<&TierAge>)
        ensures
            match order::first_where(self.tiers@, of_tier(tier)) {
                Some(at) => age matches Some(found) && *found == self.tiers@[at],
                None => age is None,
            },
    {
        let ghost all = self.tiers@;
        let ghost wanted = of_tier(tier);
        let mut next: usize = 0;
        while next < self.tiers.len()
            invariant
                next <= all.len(),
                all == self.tiers@,
                wanted == of_tier(tier),
                forall|i: int| 0 <= i < next ==> !wanted(#[trigger] all[i]),
            decreases all.len() - next,
        {
            if self.tiers[next].tier == tier {
                proof {
                    order::lemma_is_first(all, wanted, next as int);
                }
                return Some(&self.tiers[next]);
            }
            next += 1;
        }
        proof {
            order::lemma_is_nowhere(all, wanted);
        }
        None
    }

    /// The tiers that are overdue.
    pub fn overdue(&self) -> (found: Vec<&TierAge>)
        ensures
            found@.len() == late(self.tiers@).len(),
            forall|i: int| 0 <= i < found@.len() ==> *(#[trigger] found@[i]) == late(self.tiers@)[i],
    {
        let ghost all = self.tiers@;
        let mut found: Vec<&TierAge> = Vec::new();
        let mut next: usize = 0;
        assert(all.take(0) =~= Seq::empty());
        while next < self.tiers.len()
            invariant
                next <= all.len(),
                all == self.tiers@,
                found@.len() == late(all.take(next as int)).len(),
                forall|i: int|
                    0 <= i < found@.len() ==> *(#[trigger] found@[i]) == late(
                        all.take(next as int),
                    )[i],
            decreases all.len() - next,
        {
            assert(all.take(next + 1).drop_last() =~= all.take(next as int));
            if self.tiers[next].overdue.is_some() {
                found.push(&self.tiers[next]);
            }
            next += 1;
        }
        assert(all.take(all.len() as int) =~= all);
        found
    }
}

/// What is said of a stamp in the future.
pub open spec fn future_words() -> Seq<char> {
    "stamped in the future — the clock moved backwards between the write and this read, so nothing here has a knowable age"@
}

/// How long ago an instant was, or that it was not.
pub open spec fn age_since(now: SystemTime, past: SystemTime) -> Result<Duration, Seq<char>> {
    match now.since(past) {
        Some(age) => Ok(age),
        None => Err(future_words()),
    }
}

/// Whether an age is this one, or is unknown for this reason.
pub open spec fn is_age(age: Result<Duration, String>, expected: Result<Duration, Seq<char>>) -> bool {
    match (age, expected) {
        (Ok(one), Ok(two)) => one == two,
        (Err(why), Err(words)) => why@ == words,
        _ => false,
    }
}

fn age_of(now: SystemTime, past: SystemTime) -> (age: Result<Duration, String>)
    ensures
        is_age(age, age_since(now, past)),
{
    match now.duration_since(past) {
        Some(age) => Ok(age),
        None => Err(
            String::from_str(
                "stamped in the future — the clock moved backwards between the write and this read, so nothing here has a knowable age",
            ),
        ),
    }
}

/// What is said of a tier without an age.
pub open spec fn unpublished(tier: Tier) -> Seq<char> {
    "the "@ + meter::tier_word(tier) + " tier has published nothing, so it has no age"@
}

/// When a tier's pass began, as it published it.
pub open spec fn began(reading: PublishedReading, tier: Tier) -> Option<Seq<char>> {
    match tier {
        Tier::Fast => Some(reading.fast.pass.started_at@),
        Tier::Medium => match reading.medium {
            Some(medium) => Some(medium.0.pass.started_at@),
            None => None,
        },
        Tier::Slow => match reading.slow {
            Some(slow) => Some(slow.0.pass.started_at@),
            None => None,
        },
    }
}

/// The stamp under which a tier published.
pub open spec fn stamp(reading: PublishedReading, tier: Tier) -> Option<SystemTime> {
    match tier {
        Tier::Fast => Some(reading.fast_stamp),
        Tier::Medium => match reading.medium {
            Some(medium) => Some(medium.1),
            None => None,
        },
        Tier::Slow => match reading.slow {
            Some(slow) => Some(slow.1),
            None => None,
        },
    }
}

/// The instant that a timestamp names, if it names one that can be counted.
pub open spec fn readable(text: Seq<char>) -> Option<SystemTime> {
    match isotime::instant(text) {
        Some(seconds) => if i64::MIN <= seconds <= i64::MAX {
            Some(SystemTime { nanos: (seconds * 1_000_000_000) as i128 })
        } else {
            None
        },
        None => None,
    }
}

/// How long ago a tier's pass ran.
pub open spec fn pass_age(reading: PublishedReading, tier: Tier, now: SystemTime) -> Result<
    Duration,
    Seq<char>,
> {
    match began(reading, tier) {
        Some(text) => match readable(text) {
            Some(at) => age_since(now, at),
            None => Err(
                "the "@ + meter::tier_word(tier) + " tier's pass is stamped "@ + text::quoted(text)
                    + ", which cannot be read as a time: "@ + isotime::malformed(text),
            ),
        },
        None => Err(unpublished(tier)),
    }
}

/// How long ago the oldest of what a tier published was read.
pub open spec fn evidence_age(reading: PublishedReading, tier: Tier, now: SystemTime) -> Result<
    Duration,
    Seq<char>,
> {
    match stamp(reading, tier) {
        Some(at) => age_since(now, at),
        None => Err(unpublished(tier)),
    }
}

/// Why a tier should have published again by now, if it should have: its last pass is more than two
/// intervals old, or it has published nothing though every tier has run.
pub open spec fn lateness(
    reading: PublishedReading,
    tier: Tier,
    now: SystemTime,
    interval: Duration,
) -> Option<Seq<char>> {
    match pass_age(reading, tier, now) {
        Ok(age) => if age.nanos > interval.nanos * MISSED_A_PASS {
            Some(
                "the "@ + meter::tier_word(tier) + " tier last ran "@ + lines::age_words(age)
                    + " ago against a "@ + text::decimal(interval.secs())
                    + " s interval, so it has missed at least one whole pass"@,
            )
        } else {
            None
        },
        Err(_) => if reading.fast.pass.every_tier_has_run && began(reading, tier) is None {
            Some(
                "the "@ + meter::tier_word(tier)
                    + " tier has published nothing, and the monitor reports having completed a round of every tier — so this tier's facts are missing rather than pending"@,
            )
        } else {
            None
        },
    }
}

/// Whether this is how old what a tier published is.
pub open spec fn is_tier_age(
    age: TierAge,
    tier: Tier,
    reading: PublishedReading,
    now: SystemTime,
    cadence: Cadence,
) -> bool {
    &&& age.tier == tier
    &&& age.name@ == meter::tier_word(tier)
    &&& age.interval == cadence.every(tier)
    &&& is_age(age.since_pass, pass_age(reading, tier, now))
    &&& is_age(age.since_evidence, evidence_age(reading, tier, now))
    &&& match age.overdue {
        Some(words) => lateness(reading, tier, now, cadence.every(tier)) == Some(words@),
        None => lateness(reading, tier, now, cadence.every(tier)) is None,
    }
}

/// The pace that a monitor's word for it names. A word that is not known must not make anything look
/// overdue, so the slower pace stands for it.
pub open spec fn judged_by(pace: Seq<char>) -> Pace {
    if pace == Pace::Active.word() {
        Pace::Active
    } else {
        Pace::Idle
    }
}

/// Whether these are the ages of what was published.
pub open spec fn are_ages(ages: Ages, reading: PublishedReading, now: SystemTime) -> bool {
    let pace = reading.fast.monitor.pace@;
    &&& ages.now == now
    &&& ages.pace@ == pace
    &&& ages.cadence == judged_by(pace).beat()
    &&& ages.pace_unknown == (pace != Pace::Active.word() && pace != Pace::Idle.word())
    &&& ages.warming_up == !reading.fast.pass.every_tier_has_run
    &&& ages.tiers@.len() == 3
    &&& forall|i: int|
        0 <= i < 3 ==> is_tier_age(
            #[trigger] ages.tiers@[i],
            tier_at(i),
            reading,
            now,
            ages.cadence,
        )
}

fn tier_age(
    tier: Tier,
    started_at: Option<&str>,
    stamped: Option<SystemTime>,
    now: SystemTime,
    cadence: &Cadence,
    warming_up: bool,
) -> (age: TierAge)
    requires
        cadence.every(tier).nanos <= 720_000_000_000,
    ensures
        age.tier == tier,
        age.name@ == meter::tier_word(tier),
        age.interval == cadence.every(tier),
        match started_at {
            Some(text) => match readable(text@) {
                Some(at) => is_age(age.since_pass, age_since(now, at)),
                None => age.since_pass matches Err(why) && why@ == "the "@ + meter::tier_word(tier)
                    + " tier's pass is stamped "@ + text::quoted(text@)
                    + ", which cannot be read as a time: "@ + isotime::malformed(text@),
            },
            None => age.since_pass matches Err(why) && why@ == unpublished(tier),
        },
        match stamped {
            Some(at) => is_age(age.since_evidence, age_since(now, at)),
            None => age.since_evidence matches Err(why) && why@ == unpublished(tier),
        },
        match age.since_pass {
            Ok(since) => if since.nanos > cadence.every(tier).nanos * MISSED_A_PASS {
                age.overdue matches Some(words) && words@ == "the "@ + meter::tier_word(tier)
                    + " tier last ran "@ + lines::age_words(since) + " ago against a "@
                    + text::decimal(cadence.every(tier).secs())
                    + " s interval, so it has missed at least one whole pass"@
            } else {
                age.overdue is None
            },
            Err(_) => if !warming_up && started_at is None {
                age.overdue matches Some(words) && words@ == "the "@ + meter::tier_word(tier)
                    + " tier has published nothing, and the monitor reports having completed a round of every tier — so this tier's facts are missing rather than pending"@
            } else {
                age.overdue is None
            },
        },
{
    let interval: Duration = cadence.interval(tier);
    let name: &'static str = meter::tier_name(tier);
    let since_pass: Result<Duration, String> = match started_at {
        Some(text) => match isotime::checked_unix_seconds(text) {
            Ok(seconds) => age_of(now, isotime::time_from_unix_seconds(seconds)),
            Err(why) => Err(
                String::from_str("the ").concat(name).concat(" tier's pass is stamped ").concat(
                    text::quote(text).as_str(),
                ).concat(", which cannot be read as a time: ").concat(why.as_str()),
            ),
        },
        None => Err(
            String::from_str("the ").concat(name).concat(
                " tier has published nothing, so it has no age",
            ),
        ),
    };
    let since_evidence: Result<Duration, String> = match stamped {
        Some(at) => age_of(now, at),
        None => Err(
            String::from_str("the ").concat(name).concat(
                " tier has published nothing, so it has no age",
            ),
        ),
    };
    let overdue: Option<String> = match &since_pass {
        Ok(since) => if since.nanos > interval.nanos * (MISSED_A_PASS as u128) {
            Some(
                String::from_str("the ").concat(name).concat(" tier last ran ").concat(
                    lines::format_age(*since).as_str(),
                ).concat(" ago against a ").concat(
                    text::decimal_of(interval.as_secs()).as_str(),
                ).concat(" s interval, so it has missed at least one whole pass"),
            )
        } else {
            None
        },
        Err(_) => if !warming_up && started_at.is_none() {
            Some(
                String::from_str("the ").concat(name).concat(
                    " tier has published nothing, and the monitor reports having completed a round of every tier — so this tier's facts are missing rather than pending",
                ),
            )
        } else {
            None
        },
    };
    TierAge { tier, name, since_pass, since_evidence, interval, overdue }
}

/// The ages of what was published.
pub fn ages_of(reading: &PublishedReading, now: SystemTime) -> (ages: Ages)
    ensures
        are_ages(ages, *reading, now),
{
    let pace: String = reading.fast.monitor.pace.clone();
    let understood: Option<Pace> = Pace::from_name(pace.as_str());
    proof {
        Pace::lemma_paces_are_told_apart();
    }
    let cadence: Cadence = match understood {
        Some(pace) => pace.cadence(),
        None => Pace::Idle.cadence(),
    };
    let warming_up: bool = !reading.fast.pass.every_tier_has_run;
    let mut tiers: Vec<TierAge> = Vec::new();
    tiers.push(
        tier_age(
            Tier::Fast,
            Some(reading.fast.pass.started_at.as_str()),
            Some(reading.fast_stamp),
            now,
            &cadence,
            warming_up,
        ),
    );
    tiers.push(
        match &reading.medium {
            Some(medium) => tier_age(
                Tier::Medium,
                Some(medium.0.pass.started_at.as_str()),
                Some(medium.1),
                now,
                &cadence,
                warming_up,
            ),
            None => tier_age(Tier::Medium, None, None, now, &cadence, warming_up),
        },
    );
    tiers.push(
        match &reading.slow {
            Some(slow) => tier_age(
                Tier::Slow,
                Some(slow.0.pass.started_at.as_str()),
                Some(slow.1),
                now,
                &cadence,
                warming_up,
            ),
            None => tier_age(Tier::Slow, None, None, now, &cadence, warming_up),
        },
    );
    assert(is_tier_age(tiers@[0], Tier::Fast, *reading, now, cadence));
    assert(is_tier_age(tiers@[1], Tier::Medium, *reading, now, cadence));
    assert(is_tier_age(tiers@[2], Tier::Slow, *reading, now, cadence));
    Ages { now, tiers, pace, cadence, pace_unknown: understood.is_none(), warming_up }
}

/// A monitor that is warming up is late with nothing that it has not published yet.
pub proof fn law_what_is_pending_is_not_late(
    reading: PublishedReading,
    tier: Tier,
    now: SystemTime,
    interval: Duration,
)
    requires
        !reading.fast.pass.every_tier_has_run,
        began(reading, tier) is None,
    ensures
        lateness(reading, tier, now, interval) is None,
{
}

// --- Whether to believe it ---------------------------------------------------------------------

/// Why there are no monitor's facts to show.
#[derive(Debug, PartialEq, Eq)]
pub enum Absence {
    NoStateFile,
    NothingPublished { writer_pid: u32, why: String },
    Unbelievable(String),
}

/// How the monitor is.
#[derive(Debug, PartialEq, Eq)]
#[allow(inconsistent_fields)]
pub enum Presence {
    Fresh { writer_pid: u32, ages: Ages },
    Stale { writer_pid: u32, ages: Ages },
    Dead { writer_pid: u32, ages: Option<Ages> },
    Absent(Absence),
}

impl Presence {
    /// How the monitor is, in one word.
    pub open spec fn word(self) -> Seq<char> {
        match self {
            Presence::Fresh { .. } => "FRESH"@,
            Presence::Stale { .. } => "STALE"@,
            Presence::Dead { .. } => "DEAD"@,
            Presence::Absent(_) => "ABSENT"@,
        }
    }

    /// How the monitor is, in one word.
    pub fn label(&self) -> (label: &'static str)
        ensures
            label@ == self.word(),
    {
        match self {
            Presence::Fresh { .. } => "FRESH",
            Presence::Stale { .. } => "STALE",
            Presence::Dead { .. } => "DEAD",
            Presence::Absent(_) => "ABSENT",
        }
    }

    /// What that rests on.
    pub open spec fn grounds(self) -> Seq<char> {
        match self {
            Presence::Fresh { .. } =>
                "the writer pid still exists and every tier published inside its own cadence"@,
            Presence::Stale { .. } =>
                "the tier stamps in the file, against the cadence the monitor published — the writer pid does still exist"@,
            Presence::Dead { .. } =>
                "asking the kernel about the writer pid the file records, not on the age of the file"@,
            Presence::Absent(_) => "there being no monitor's facts to age"@,
        }
    }

    /// What that rests on.
    pub fn rests_on(&self) -> (words: &'static str)
        ensures
            words@ == self.grounds(),
    {
        match self {
            Presence::Fresh { .. } => {
                "the writer pid still exists and every tier published inside its own cadence"
            },
            Presence::Stale { .. } => {
                "the tier stamps in the file, against the cadence the monitor published — the writer pid does still exist"
            },
            Presence::Dead { .. } => {
                "asking the kernel about the writer pid the file records, not on the age of the file"
            },
            Presence::Absent(_) => "there being no monitor's facts to age",
        }
    }

    /// The ages it was judged by, where there were any.
    pub open spec fn aged(self) -> Option<Ages> {
        match self {
            Presence::Fresh { ages, .. } => Some(ages),
            Presence::Stale { ages, .. } => Some(ages),
            Presence::Dead { ages, .. } => ages,
            Presence::Absent(_) => None,
        }
    }

    /// The ages it was judged by, where there were any.
    pub fn ages(&self) -> (ages: Option<&Ages>)
        ensures
            match ages {
                Some(found) => self.aged() == Some(*found),
                None => self.aged() is None,
            },
    {
        match self {
            Presence::Fresh { ages, .. } => Some(ages),
            Presence::Stale { ages, .. } => Some(ages),
            Presence::Dead { ages, .. } => match ages {
                Some(ages) => Some(ages),
                None => None,
            },
            Presence::Absent(_) => None,
        }
    }

    /// Whether the screen shows the machine as it is: from a monitor that is fresh, or read for itself.
    pub open spec fn is_current(self) -> bool {
        self is Fresh || self is Absent
    }

    /// Whether what is on the screen describes the machine now.
    pub fn trustworthy(&self) -> (trustworthy: bool)
        ensures
            trustworthy == self.is_current(),
    {
        match self {
            Presence::Fresh { .. } | Presence::Absent(_) => true,
            Presence::Stale { .. } | Presence::Dead { .. } => false,
        }
    }
}

/// Whether this is how the monitor is.
pub open spec fn is_presence(
    presence: Presence,
    reading: StateReading,
    now: SystemTime,
    writer: Writer,
) -> bool {
    match reading {
        StateReading::Absent => presence == Presence::Absent(Absence::NoStateFile),
        StateReading::Unusable(why) => presence == Presence::Absent(Absence::Unbelievable(why)),
        StateReading::Unrenderable { writer_pid, why } => presence == match writer {
            Writer::Gone => Presence::Dead { writer_pid, ages: None },
            Writer::Alive => Presence::Absent(Absence::NothingPublished { writer_pid, why }),
        },
        StateReading::Published(published) => match writer {
            Writer::Gone => presence matches Presence::Dead { writer_pid, ages: Some(ages) }
                && writer_pid == published.writer_pid && are_ages(ages, published, now),
            Writer::Alive => match presence {
                Presence::Fresh { writer_pid, ages } => writer_pid == published.writer_pid
                    && are_ages(ages, published, now) && late(ages.tiers@).len() == 0,
                Presence::Stale { writer_pid, ages } => writer_pid == published.writer_pid
                    && are_ages(ages, published, now) && late(ages.tiers@).len() > 0,
                _ => false,
            },
        },
    }
}

/// How the monitor is: dead where its process is gone, however young its file; stale where a tier is
/// overdue; fresh where none is.
pub fn presence_of(reading: &StateReading, now: SystemTime, writer: Writer) -> (presence: Presence)
    ensures
        is_presence(presence, *reading, now, writer),
{
    match reading {
        StateReading::Absent => Presence::Absent(Absence::NoStateFile),
        StateReading::Unusable(why) => Presence::Absent(Absence::Unbelievable(why.clone())),
        StateReading::Unrenderable { writer_pid, why } => match writer {
            Writer::Gone => Presence::Dead { writer_pid: *writer_pid, ages: None },
            Writer::Alive => Presence::Absent(
                Absence::NothingPublished { writer_pid: *writer_pid, why: why.clone() },
            ),
        },
        StateReading::Published(published) => {
            let ages: Ages = ages_of(published, now);
            let writer_pid: u32 = published.writer_pid;
            match writer {
                Writer::Gone => Presence::Dead { writer_pid, ages: Some(ages) },
                Writer::Alive => {
                    let late: usize = ages.overdue().len();
                    if late == 0 {
                        Presence::Fresh { writer_pid, ages }
                    } else {
                        Presence::Stale { writer_pid, ages }
                    }
                },
            }
        },
    }
}

/// A monitor whose process is gone is never called fresh, nor only stale, however young its file.
pub proof fn law_the_dead_are_never_fresh(
    presence: Presence,
    reading: StateReading,
    now: SystemTime,
)
    requires
        is_presence(presence, reading, now, Writer::Gone),
    ensures
        !(presence is Fresh) && !(presence is Stale),
        reading is Published ==> presence is Dead,
{
}

// --- What sessions cost ------------------------------------------------------------------------

/// What a session's children cost.
#[derive(Debug, PartialEq, Eq)]
pub enum Cost {
    Measured(Duration),
    Unmeasurable(String),
}

/// What a session's children cost, or why that is not known.
pub open spec fn child_cost(session: Session) -> Result<Duration, Seq<char>> {
    match payload::ledger(session) {
        Ok(resources) => match resources.children_cpu {
            Ok(cpu) => Ok(cpu),
            Err(why) => Err(why.words()),
        },
        Err(why) => Err(why),
    }
}

impl Cost {
    /// Whether it is this cost, or unknown for this reason.
    pub open spec fn says(self, expected: Result<Duration, Seq<char>>) -> bool {
        match (self, expected) {
            (Cost::Measured(one), Ok(two)) => one == two,
            (Cost::Unmeasurable(why), Err(words)) => why@ == words,
            _ => false,
        }
    }
}

fn cost_from(figure: &Result<Duration, Unmeasured>) -> (cost: Cost)
    ensures
        cost.says(
            match *figure {
                Ok(cpu) => Ok(cpu),
                Err(why) => Err(why.words()),
            },
        ),
{
    match figure {
        Ok(cpu) => Cost::Measured(*cpu),
        Err(why) => Cost::Unmeasurable(String::from_str(why.to_text())),
    }
}

/// What a session's children cost: now, or when that was last read.
pub fn cost_of(session: &Session) -> (cost: Cost)
    ensures
        cost.says(child_cost(*session)),
{
    match (&session.resources, &session.last_reading) {
        (Ok(resources), _) => cost_from(&resources.children_cpu),
        (Err(_), Some(reading)) => cost_from(&reading.resources.children_cpu),
        (Err(why), None) => Cost::Unmeasurable(String::from_str(why.to_text())),
    }
}

/// Where a session stands among others: those without a figure first, then the costliest.
#[derive(Debug, Clone, Copy, PartialEq, Eq, Structural)]
pub struct CostRank {
    pub measured: Option<Duration>,
}

impl Ranked for CostRank {
    /// An absent cost comes before any, for it is not a small one, and a greater cost before a smaller.
    open spec fn ranks_before(&self, other: &CostRank) -> bool {
        match (self.measured, other.measured) {
            (None, Some(_)) => true,
            (Some(mine), Some(theirs)) => mine.nanos > theirs.nanos,
            _ => false,
        }
    }

    fn precedes(&self, other: &CostRank) -> (before: bool) {
        match (self.measured, other.measured) {
            (None, Some(_)) => true,
            (Some(mine), Some(theirs)) => mine.nanos > theirs.nanos,
            _ => false,
        }
    }

    proof fn ranks_are_ordered(first: CostRank, second: CostRank, third: CostRank) {
    }
}

/// The rank of a cost.
pub open spec fn rank(cost: Result<Duration, Seq<char>>) -> CostRank {
    CostRank {
        measured: match cost {
            Ok(span) => Some(span),
            Err(_) => None,
        },
    }
}

/// The ranks of sessions.
pub open spec fn ranks(sessions: Seq<Session>) -> Seq<CostRank> {
    sessions.map_values(|session: Session| rank(child_cost(session)))
}

fn rank_of(cost: &Cost) -> (ranked: CostRank)
    ensures
        forall|expected: Result<Duration, Seq<char>>| #[trigger]
            cost.says(expected) ==> ranked == rank(expected),
{
    match cost {
        Cost::Measured(span) => CostRank { measured: Some(*span) },
        Cost::Unmeasurable(_) => CostRank { measured: None },
    }
}

/// Whether these are the items, in the order of their ranks.
pub open spec fn in_order<T>(placed: Seq<&T>, items: Seq<T>, ranks: Seq<CostRank>) -> bool {
    exists|order: Seq<usize>|
        {
            &&& #[trigger] order::is_stable_order(ranks, order)
            &&& placed.len() == items.len()
            &&& forall|i: int|
                0 <= i < placed.len() ==> *(#[trigger] placed[i]) == items[order[i] as int]
        }
}

fn placed_by<'a, T>(items: &'a [T], ranks: &Vec<CostRank>) -> (placed: Vec<&'a T>)
    requires
        ranks@.len() == items@.len(),
    ensures
        in_order(placed@, items@, ranks@),
{
    let order: Vec<usize> = order::stable_order(ranks);
    let mut placed: Vec<&'a T> = Vec::new();
    let mut next: usize = 0;
    while next < order.len()
        invariant
            next <= order@.len(),
            order::is_stable_order(ranks@, order@),
            ranks@.len() == items@.len(),
            order@.len() == items@.len(),
            placed@.len() == next,
            forall|i: int|
                0 <= i < placed@.len() ==> *(#[trigger] placed@[i]) == items@[order@[i] as int],
        decreases order@.len() - next,
    {
        assert(order@[next as int] < items@.len());
        placed.push(&items[order[next]]);
        next += 1;
    }
    placed
}

/// The sessions, the costliest first and those without a figure before them.
pub fn in_cost_order(sessions: &[Session]) -> (placed: Vec<&Session>)
    ensures
        in_order(placed@, sessions@, ranks(sessions@)),
{
    let ghost all = ranks(sessions@);
    let mut keys: Vec<CostRank> = Vec::new();
    let mut next: usize = 0;
    while next < sessions.len()
        invariant
            next <= sessions@.len(),
            all == ranks(sessions@),
            keys@ == all.take(next as int),
        decreases sessions@.len() - next,
    {
        keys.push(rank_of(&cost_of(&sessions[next])));
        next += 1;
        assert(keys@ =~= all.take(next as int));
    }
    assert(keys@ =~= all);
    placed_by(sessions, &keys)
}

/// In cost order no session is left out, one without a figure comes before every one with one, and of two
/// with figures the costlier comes first.
pub proof fn law_the_costliest_come_first(placed: Seq<&Session>, sessions: Seq<Session>, i: int, j: int)
    requires
        in_order(placed, sessions, ranks(sessions)),
        0 <= i < j < placed.len(),
    ensures
        placed.len() == sessions.len(),
        child_cost(*placed[i]) is Ok ==> child_cost(*placed[j]) is Ok && child_cost(
            *placed[i],
        )->Ok_0.nanos >= child_cost(*placed[j])->Ok_0.nanos,
{
    let order = choose|order: Seq<usize>|
        {
            &&& #[trigger] order::is_stable_order(ranks(sessions), order)
            &&& placed.len() == sessions.len()
            &&& forall|i: int|
                0 <= i < placed.len() ==> *(#[trigger] placed[i]) == sessions[order[i] as int]
        };
    assert(*placed[i] == sessions[order[i] as int]);
    assert(*placed[j] == sessions[order[j] as int]);
    assert(order::belongs_before(ranks(sessions), order[i] as int, order[j] as int));
}

/// What a published session's children cost, or why that is not known.
pub open spec fn published_cost(row: SessionRow) -> Result<Duration, Seq<char>> {
    match (row.children_cpu_ms.value, row.children_cpu_ms.unavailable) {
        (Some(millis), _) => Ok(payload::from_millis(millis)),
        (None, Some(why)) => Err(why@),
        (None, None) => Err(
            "the monitor published neither a child-CPU figure nor a reason for its absence"@,
        ),
    }
}

/// What a published session's children cost.
pub fn published_cost_of(row: &SessionRow) -> (cost: Cost)
    ensures
        cost.says(published_cost(*row)),
{
    match (&row.children_cpu_ms.value, &row.children_cpu_ms.unavailable) {
        (Some(millis), _) => Cost::Measured(payload::span_of(*millis)),
        (None, Some(why)) => Cost::Unmeasurable(why.clone()),
        (None, None) => Cost::Unmeasurable(
            String::from_str(
                "the monitor published neither a child-CPU figure nor a reason for its absence",
            ),
        ),
    }
}

/// The ranks of published sessions.
pub open spec fn published_ranks(rows: Seq<SessionRow>) -> Seq<CostRank> {
    rows.map_values(|row: SessionRow| rank(published_cost(row)))
}

/// The published sessions, the costliest first and those without a figure before them.
pub fn published_in_cost_order(rows: &[SessionRow]) -> (placed: Vec<&SessionRow>)
    ensures
        in_order(placed@, rows@, published_ranks(rows@)),
{
    let ghost all = published_ranks(rows@);
    let mut keys: Vec<CostRank> = Vec::new();
    let mut next: usize = 0;
    while next < rows.len()
        invariant
            next <= rows@.len(),
            all == published_ranks(rows@),
            keys@ == all.take(next as int),
        decreases rows@.len() - next,
    {
        keys.push(rank_of(&published_cost_of(&rows[next])));
        next += 1;
        assert(keys@ =~= all.take(next as int));
    }
    assert(keys@ =~= all);
    placed_by(rows, &keys)
}

/// How many of these have no cost.
pub open spec fn costless(ranks: Seq<CostRank>) -> nat
    decreases ranks.len(),
{
    if ranks.len() == 0 {
        0
    } else {
        costless(ranks.drop_last()) + if ranks.last().measured is None {
            1nat
        } else {
            0nat
        }
    }
}

/// How many published sessions have no cost.
pub fn published_sessions_without_a_cost(rows: &[SessionRow]) -> (count: usize)
    ensures
        count == costless(published_ranks(rows@)),
{
    let ghost all = published_ranks(rows@);
    let mut count: usize = 0;
    let mut next: usize = 0;
    assert(all.take(0) =~= Seq::empty());
    while next < rows.len()
        invariant
            next <= rows@.len(),
            all == published_ranks(rows@),
            count <= next,
            count == costless(all.take(next as int)),
        decreases rows@.len() - next,
    {
        assert(all.take(next + 1).drop_last() =~= all.take(next as int));
        match published_cost_of(&rows[next]) {
            Cost::Unmeasurable(_) => {
                count += 1;
            },
            Cost::Measured(_) => {},
        }
        next += 1;
    }
    assert(all.take(all.len() as int) =~= all);
    count
}

/// How many sessions have no cost.
pub fn sessions_without_a_cost(sessions: &[Session]) -> (count: usize)
    ensures
        count == costless(ranks(sessions@)),
{
    let ghost all = ranks(sessions@);
    let mut count: usize = 0;
    let mut next: usize = 0;
    assert(all.take(0) =~= Seq::empty());
    while next < sessions.len()
        invariant
            next <= sessions@.len(),
            all == ranks(sessions@),
            count <= next,
            count == costless(all.take(next as int)),
        decreases sessions@.len() - next,
    {
        assert(all.take(next + 1).drop_last() =~= all.take(next as int));
        match cost_of(&sessions[next]) {
            Cost::Unmeasurable(_) => {
                count += 1;
            },
            Cost::Measured(_) => {},
        }
        next += 1;
    }
    assert(all.take(all.len() as int) =~= all);
    count
}

// --- What the monitor costs --------------------------------------------------------------------

/// Why a figure of the monitor's own cost is missing.
#[derive(Debug, PartialEq, Eq)]
pub enum Unmetered {
    NoMonitor,
    NothingPublishedYet,
    Unreadable,
    Reported(String),
}

impl Unmetered {
    /// The reason in words.
    pub open spec fn words(self) -> Seq<char> {
        match self {
            Unmetered::NoMonitor => "no monitor is recording, so there is none to meter"@,
            Unmetered::NothingPublishedYet =>
                "the monitor has not published a pass carrying this figure yet"@,
            Unmetered::Unreadable =>
                "the state file could not be believed, so nothing was taken from it"@,
            Unmetered::Reported(why) => why@,
        }
    }

    /// The reason in words.
    pub fn to_text(&self) -> (words: String)
        ensures
            words@ == self.words(),
    {
        match self {
            Unmetered::NoMonitor => String::from_str(
                "no monitor is recording, so there is none to meter",
            ),
            Unmetered::NothingPublishedYet => String::from_str(
                "the monitor has not published a pass carrying this figure yet",
            ),
            Unmetered::Unreadable => String::from_str(
                "the state file could not be believed, so nothing was taken from it",
            ),
            Unmetered::Reported(why) => why.clone(),
        }
    }
}

/// The figures of the meter row.
#[derive(Debug, PartialEq, Eq)]
pub struct Meters {
    pub overhead: Result<Duration, Unmetered>,
    pub duty_cycle: Result<Share, Unmetered>,
    pub taken_at: SystemTime,
}

/// Whether these are the figures of a display that collected for itself.
pub open spec fn are_own_meters(
    meters: Meters,
    absence: Absence,
    overhead: Duration,
    taken_at: SystemTime,
) -> bool {
    &&& meters.overhead == Ok::<Duration, Unmetered>(overhead)
    &&& meters.duty_cycle == Err::<Share, Unmetered>(
        match absence {
            Absence::NoStateFile => Unmetered::NoMonitor,
            Absence::NothingPublished { .. } => Unmetered::NothingPublishedYet,
            Absence::Unbelievable(_) => Unmetered::Unreadable,
        },
    )
    &&& meters.taken_at == taken_at
}

/// Whether these are the figures that a monitor published.
pub open spec fn are_published_meters(meters: Meters, published: PublishedMeters) -> bool {
    &&& meters.overhead == match published.overhead {
        Ok(overhead) => Ok(overhead),
        Err(why) => Err(Unmetered::Reported(why)),
    }
    &&& meters.duty_cycle == match published.duty_cycle {
        Ok(share) => Ok(share),
        Err(why) => Err(Unmetered::Reported(why)),
    }
    &&& meters.taken_at == published.taken_at
}

impl Meters {
    /// The figures where the display collected for itself: its own overhead, and why there is no
    /// monitor's.
    pub fn for_own_collection(absence: &Absence, overhead: Duration, taken_at: SystemTime) -> (
        meters: Meters)
        ensures
            are_own_meters(meters, *absence, overhead, taken_at),
    {
        Meters {
            overhead: Ok(overhead),
            duty_cycle: Err(
                match absence {
                    Absence::NoStateFile => Unmetered::NoMonitor,
                    Absence::NothingPublished { .. } => Unmetered::NothingPublishedYet,
                    Absence::Unbelievable(_) => Unmetered::Unreadable,
                },
            ),
            taken_at,
        }
    }

    /// The figures that the monitor published.
    pub fn from_published(published: &PublishedMeters) -> (meters: Meters)
        ensures
            are_published_meters(meters, *published),
    {
        Meters {
            overhead: match &published.overhead {
                Ok(overhead) => Ok(*overhead),
                Err(why) => Err(Unmetered::Reported(why.clone())),
            },
            duty_cycle: match &published.duty_cycle {
                Ok(share) => Ok(*share),
                Err(why) => Err(Unmetered::Reported(why.clone())),
            },
            taken_at: published.taken_at,
        }
    }
}

// --- The screen --------------------------------------------------------------------------------

/// Whose figures are on the screen.
#[derive(Debug, PartialEq, Eq)]
pub enum Facts {
    Own(Snapshot),
    Monitor(PublishedReading),
    Missing(String),
}

impl Facts {
    /// Whether there are none.
    pub fn are_absent(&self) -> (absent: bool)
        ensures
            absent == self is Missing,
    {
        match self {
            Facts::Missing(_) => true,
            Facts::Own(_) | Facts::Monitor(_) => false,
        }
    }
}

/// Everything on the screen.
#[derive(Debug, PartialEq, Eq)]
pub struct Screen {
    pub notices: Vec<String>,
    pub presence: Presence,
    pub facts: Facts,
    pub meters: Meters,
}

/// The notice that the display only reads.
pub open spec fn read_only_notice() -> Seq<char> {
    "This display is read-only: it wrote nothing and announced nothing (F26)."@
}

fn read_only_text() -> (words: String)
    ensures
        words@ == read_only_notice(),
{
    String::from_str("This display is read-only: it wrote nothing and announced nothing (F26).")
}

/// What is said of a display that collected for itself.
pub open spec fn own_words(presence: Presence, mine: Seq<char>) -> Seq<char> {
    match presence {
        Presence::Absent(Absence::NoStateFile) =>
            "NO MONITOR IS RECORDING. There is no state file, so nothing is being recorded and nothing will be announced. "@
            + mine,
        Presence::Absent(Absence::NothingPublished { writer_pid, why }) => "the monitor at pid "@
            + text::decimal(writer_pid as nat) + " is not being drawn: "@ + why@
            + ". Nothing it has measured is on this screen. "@ + mine,
        Presence::Absent(Absence::Unbelievable(reason)) =>
            "THE STATE FILE COULD NOT BE BELIEVED: "@ + reason@
            + ". Nothing was taken from it — not one row — because half of a state file renders as a short session list and a short at-risk panel, which is the shape of a healthy screen. "@
            + mine,
        Presence::Dead { writer_pid, .. } => "THE MONITOR IS DEAD: pid "@ + text::decimal(
            writer_pid as nat,
        )
            + " wrote the state file and no longer exists, and it published no facts before it went — so nothing is being recorded and nothing will be announced. Under a KeepAlive LaunchAgent a monitor that dies before its first pass is a crash loop, not a machine nobody set up. "@
            + mine,
        _ =>
            "this screen was assembled from this display's own read while the monitor was classified as it is above, which is a fault in this build rather than in the file. "@
            + mine,
    }
}

fn own_text(presence: &Presence, mine: &str) -> (words: String)
    ensures
        words@ == own_words(*presence, mine@),
{
    match presence {
        Presence::Absent(Absence::NoStateFile) => String::from_str(
            "NO MONITOR IS RECORDING. There is no state file, so nothing is being recorded and nothing will be announced. ",
        ).concat(mine),
        Presence::Absent(Absence::NothingPublished { writer_pid, why }) => String::from_str(
            "the monitor at pid ",
        ).concat(text::decimal_of(*writer_pid as u128).as_str()).concat(
            " is not being drawn: ",
        ).concat(why.as_str()).concat(". Nothing it has measured is on this screen. ").concat(mine),
        Presence::Absent(Absence::Unbelievable(reason)) => String::from_str(
            "THE STATE FILE COULD NOT BE BELIEVED: ",
        ).concat(reason.as_str()).concat(
            ". Nothing was taken from it — not one row — because half of a state file renders as a short session list and a short at-risk panel, which is the shape of a healthy screen. ",
        ).concat(mine),
        Presence::Dead { writer_pid, .. } => String::from_str("THE MONITOR IS DEAD: pid ").concat(
            text::decimal_of(*writer_pid as u128).as_str(),
        ).concat(
            " wrote the state file and no longer exists, and it published no facts before it went — so nothing is being recorded and nothing will be announced. Under a KeepAlive LaunchAgent a monitor that dies before its first pass is a crash loop, not a machine nobody set up. ",
        ).concat(mine),
        Presence::Fresh { .. } | Presence::Stale { .. } => String::from_str(
            "this screen was assembled from this display's own read while the monitor was classified as it is above, which is a fault in this build rather than in the file. ",
        ).concat(mine),
    }
}

/// How old the oldest of these ages is, in words.
pub open spec fn oldest_words(ages: Option<Ages>) -> Seq<char> {
    match ages {
        Some(ages) => match greatest(ages.tiers@) {
            Some(age) => lines::age_words(age) + " old"@,
            None => "of no knowable age"@,
        },
        None => "of no knowable age"@,
    }
}

fn oldest_text(ages: Option<&Ages>) -> (words: String)
    ensures
        words@ == oldest_words(
            match ages {
                Some(found) => Some(*found),
                None => None,
            },
        ),
{
    match ages {
        Some(ages) => match ages.oldest_evidence() {
            Some(age) => lines::format_age(age).concat(" old"),
            None => String::from_str("of no knowable age"),
        },
        None => String::from_str("of no knowable age"),
    }
}

/// Why tiers are overdue, one reason after another.
pub open spec fn reasons(late: Seq<TierAge>) -> Seq<Seq<char>> {
    late.map_values(|age: TierAge| age.overdue->0@)
}

fn reasons_text(ages: &Ages) -> (words: String)
    ensures
        words@ == text::joined(reasons(late(ages.tiers@)), "; and "@),
{
    let overdue: Vec<&TierAge> = ages.overdue();
    let ghost all = late(ages.tiers@);
    let mut parts: Vec<String> = Vec::new();
    let mut next: usize = 0;
    proof {
        lemma_late_are_late(ages.tiers@);
    }
    assert(text::texts(parts@) =~= reasons(all).take(0));
    while next < overdue.len()
        invariant
            next <= overdue@.len(),
            overdue@.len() == all.len(),
            forall|i: int| 0 <= i < all.len() ==> (#[trigger] all[i]).overdue is Some,
            forall|i: int| 0 <= i < overdue@.len() ==> *(#[trigger] overdue@[i]) == all[i],
            text::texts(parts@) == reasons(all).take(next as int),
        decreases overdue@.len() - next,
    {
        let ghost before = parts@;
        assert(*overdue@[next as int] == all[next as int]);
        if let Some(words) = &overdue[next].overdue {
            parts.push(words.clone());
            assert(text::texts(parts@) =~= text::texts(before).push(words@));
            assert(reasons(all)[next as int] == words@);
        }
        assert(reasons(all).take(next as int).push(reasons(all)[next as int]) =~= reasons(
            all,
        ).take(next + 1));
        next += 1;
    }
    assert(reasons(all).take(all.len() as int) =~= reasons(all));
    text::join(&parts, "; and ")
}

proof fn lemma_late_are_late(tiers: Seq<TierAge>)
    ensures
        forall|i: int| 0 <= i < late(tiers).len() ==> (#[trigger] late(tiers)[i]).overdue is Some,
    decreases tiers.len(),
{
    if tiers.len() > 0 {
        lemma_late_are_late(tiers.drop_last());
    }
}

/// What is said of a monitor whose figures are on the screen.
pub open spec fn monitor_words(presence: Presence, writer: u32) -> Seq<char> {
    match presence {
        Presence::Fresh { writer_pid, ages } => "FRESH — the monitor at pid "@ + text::decimal(
            writer_pid as nat,
        ) + " is running at the "@ + ages.pace@
            + " cadence and every tier has published inside its own interval. The figures below are the monitor's, not this display's; the oldest of them is "@
            + oldest_words(Some(ages)) + ". Verdict rests on "@ + presence.grounds() + "."@,
        Presence::Stale { writer_pid, ages } =>
            "STALE — THIS WHOLE SCREEN IS STALE. The monitor at pid "@ + text::decimal(
            writer_pid as nat,
        ) + " still exists, but "@ + text::joined(reasons(late(ages.tiers@)), "; and "@)
            + ". Nothing below has been re-verified: the oldest fact on this screen is "@
            + oldest_words(Some(ages))
            + ", and every row is as old as its tier says rather than as old as this screen. The monitor may yet catch up — it is alive — but until it publishes again nothing here describes the machine now. Verdict rests on "@
            + presence.grounds() + "."@,
        Presence::Dead { writer_pid, ages } =>
            "DEAD — THE MONITOR IS DEAD AND EVERY FIGURE BELOW IS A CORPSE. Pid "@ + text::decimal(
            writer_pid as nat,
        )
            + " wrote this file and no longer exists, so nothing here will ever be refreshed, nothing is being recorded, and nothing will be announced — the oldest fact on this screen is "@
            + oldest_words(ages)
            + " and it will only get older. This display will not restart it: the tool observes and never acts, and a monitor holding a lock has to be looked at by a human. Verdict rests on "@
            + presence.grounds() + "."@,
        Presence::Absent(_) => "ABSENT — the monitor at pid "@ + text::decimal(writer as nat)
            + " published these figures and this display classified it as ABSENT, which is a fault in this build rather than in the file."@,
    }
}

fn monitor_notice(presence: &Presence, writer: u32) -> (words: String)
    ensures
        words@ == monitor_words(*presence, writer),
{
    match presence {
        Presence::Fresh { writer_pid, ages } => String::from_str(
            "FRESH — the monitor at pid ",
        ).concat(text::decimal_of(*writer_pid as u128).as_str()).concat(
            " is running at the ",
        ).concat(ages.pace.as_str()).concat(
            " cadence and every tier has published inside its own interval. The figures below are the monitor's, not this display's; the oldest of them is ",
        ).concat(oldest_text(Some(ages)).as_str()).concat(". Verdict rests on ").concat(
            presence.rests_on(),
        ).concat("."),
        Presence::Stale { writer_pid, ages } => String::from_str(
            "STALE — THIS WHOLE SCREEN IS STALE. The monitor at pid ",
        ).concat(text::decimal_of(*writer_pid as u128).as_str()).concat(
            " still exists, but ",
        ).concat(reasons_text(ages).as_str()).concat(
            ". Nothing below has been re-verified: the oldest fact on this screen is ",
        ).concat(oldest_text(Some(ages)).as_str()).concat(
            ", and every row is as old as its tier says rather than as old as this screen. The monitor may yet catch up — it is alive — but until it publishes again nothing here describes the machine now. Verdict rests on ",
        ).concat(presence.rests_on()).concat("."),
        Presence::Dead { writer_pid, ages } => {
            let age: String = match ages {
                Some(ages) => oldest_text(Some(ages)),
                None => oldest_text(None),
            };
            String::from_str(
                "DEAD — THE MONITOR IS DEAD AND EVERY FIGURE BELOW IS A CORPSE. Pid ",
            ).concat(text::decimal_of(*writer_pid as u128).as_str()).concat(
                " wrote this file and no longer exists, so nothing here will ever be refreshed, nothing is being recorded, and nothing will be announced — the oldest fact on this screen is ",
            ).concat(age.as_str()).concat(
                " and it will only get older. This display will not restart it: the tool observes and never acts, and a monitor holding a lock has to be looked at by a human. Verdict rests on ",
            ).concat(presence.rests_on()).concat(".")
        },
        Presence::Absent(_) => String::from_str("ABSENT — the monitor at pid ").concat(
            text::decimal_of(writer as u128).as_str(),
        ).concat(
            " published these figures and this display classified it as ABSENT, which is a fault in this build rather than in the file.",
        ),
    }
}

/// What is said of the pace and of a monitor that is warming up.
pub open spec fn pace_words(presence: Presence) -> Seq<Seq<char>> {
    match presence.aged() {
        Some(ages) => {
            let first = if ages.pace_unknown {
                seq![
                    "The monitor published its cadence as "@ + text::quoted(ages.pace@)
                        + ", which this build does not know. Every age below was judged against the idle cadence, which is the slower one — an unknown word must not manufacture a staleness warning, and it must not be silent either."@,
                ]
            } else {
                Seq::empty()
            };
            if ages.warming_up {
                first.push(
                    "The monitor reports that it has not yet completed a round of every tier, so it is warming up: a tier with no age below is pending rather than missing, and the monitor is not announcing anything yet."@,
                )
            } else {
                first
            }
        },
        None => Seq::empty(),
    }
}

fn push_notice(notices: &mut Vec<String>, words: String)
    ensures
        text::texts(final(notices)@) == text::texts(old(notices)@).push(words@),
{
    let ghost before = notices@;
    notices.push(words);
    assert(text::texts(notices@) =~= text::texts(before).push(words@));
}

fn push_pace_notices(notices: &mut Vec<String>, presence: &Presence)
    ensures
        text::texts(final(notices)@) == text::texts(old(notices)@) + pace_words(*presence),
{
    let ghost first = text::texts(notices@);
    match presence.ages() {
        Some(ages) => {
            if ages.pace_unknown {
                push_notice(
                    notices,
                    String::from_str("The monitor published its cadence as ").concat(
                        text::quote(ages.pace.as_str()).as_str(),
                    ).concat(
                        ", which this build does not know. Every age below was judged against the idle cadence, which is the slower one — an unknown word must not manufacture a staleness warning, and it must not be silent either.",
                    ),
                );
            }
            if ages.warming_up {
                push_notice(
                    notices,
                    String::from_str(
                        "The monitor reports that it has not yet completed a round of every tier, so it is warming up: a tier with no age below is pending rather than missing, and the monitor is not announcing anything yet.",
                    ),
                );
            }
        },
        None => {},
    }
    assert(text::texts(notices@) =~= first + pace_words(*presence));
}

/// Whether this is the screen of a display that collected for itself.
pub open spec fn is_own_screen(
    screen: Screen,
    presence: Presence,
    facts: Result<Snapshot, String>,
    overhead: Duration,
    taken_at: SystemTime,
) -> bool {
    &&& screen.presence == presence
    &&& screen.facts == match facts {
        Ok(snapshot) => Facts::Own(snapshot),
        Err(why) => Facts::Missing(why),
    }
    &&& screen.meters.overhead == Ok::<Duration, Unmetered>(overhead)
    &&& screen.meters.taken_at == taken_at
    &&& screen.meters.duty_cycle == Err::<Share, Unmetered>(
        match presence {
            Presence::Absent(Absence::NoStateFile) => Unmetered::NoMonitor,
            Presence::Absent(Absence::Unbelievable(_)) => Unmetered::Unreadable,
            _ => Unmetered::NothingPublishedYet,
        },
    )
    &&& exists|stamp: Seq<char>|
        {
            &&& #[trigger] isotime::is_stamp(stamp, isotime::whole_seconds(taken_at))
            &&& text::texts(screen.notices@) == seq![
                presence.word() + " — "@ + own_words(
                    presence,
                    "These figures are one read this display took for itself at "@ + stamp
                        + "."@,
                ),
                read_only_notice(),
            ]
        }
}

/// Whether this is the screen of what a monitor published.
pub open spec fn is_monitors_screen(screen: Screen, presence: Presence, reading: PublishedReading) -> bool {
    &&& screen.presence == presence
    &&& screen.facts == Facts::Monitor(reading)
    &&& text::texts(screen.notices@) == (seq![monitor_words(presence, reading.writer_pid)]
        + pace_words(presence)).push(read_only_notice())
    &&& screen.meters.taken_at == reading.meters.taken_at
    &&& screen.meters.overhead == match reading.meters.overhead {
        Ok(overhead) => Ok(overhead),
        Err(why) => Err(Unmetered::Reported(why)),
    }
    &&& screen.meters.duty_cycle == match reading.meters.duty_cycle {
        Ok(share) => Ok(share),
        Err(why) => Err(Unmetered::Reported(why)),
    }
}

impl Screen {
    /// The screen of a display that collected for itself: why it did, its figures or why there are
    /// none, and its own overhead.
    pub fn from_own_collection(
        presence: Presence,
        facts: Result<Snapshot, String>,
        overhead: Duration,
        taken_at: SystemTime,
    ) -> (screen: Screen)
        ensures
            is_own_screen(screen, presence, facts, overhead, taken_at),
    {
        let stamp: String = isotime::timestamp(taken_at);
        let mine: String = String::from_str(
            "These figures are one read this display took for itself at ",
        ).concat(stamp.as_str()).concat(".");
        let said: String = String::from_str(presence.label()).concat(" — ").concat(
            own_text(&presence, mine.as_str()).as_str(),
        );
        let mut notices: Vec<String> = Vec::new();
        assert(text::texts(notices@) =~= Seq::empty());
        push_notice(&mut notices, said);
        push_notice(&mut notices, read_only_text());
        assert(text::texts(notices@) =~= seq![said@, read_only_notice()]);
        let meters: Meters = match &presence {
            Presence::Absent(absence) => Meters::for_own_collection(absence, overhead, taken_at),
            Presence::Fresh { .. } | Presence::Stale { .. } | Presence::Dead { .. } => {
                let absence = Absence::NothingPublished {
                    writer_pid: 0,
                    why: String::from_str("it published no drawable tier"),
                };
                Meters::for_own_collection(&absence, overhead, taken_at)
            },
        };
        let facts: Facts = match facts {
            Ok(snapshot) => Facts::Own(snapshot),
            Err(why) => Facts::Missing(why),
        };
        assert(isotime::is_stamp(stamp@, isotime::whole_seconds(taken_at)));
        Screen { notices, presence, facts, meters }
    }

    /// The screen of what the monitor published.
    pub fn from_published(presence: Presence, reading: PublishedReading) -> (screen: Screen)
        ensures
            is_monitors_screen(screen, presence, reading),
    {
        let mut notices: Vec<String> = Vec::new();
        assert(text::texts(notices@) =~= Seq::empty());
        push_notice(&mut notices, monitor_notice(&presence, reading.writer_pid));
        assert(text::texts(notices@) =~= seq![monitor_words(presence, reading.writer_pid)]);
        push_pace_notices(&mut notices, &presence);
        push_notice(&mut notices, read_only_text());
        let meters: Meters = Meters::from_published(&reading.meters);
        Screen { notices, presence, facts: Facts::Monitor(reading), meters }
    }
}

/// One collection of the display's own, and what it took by the clock, which is read before it and once
/// it is over. Nothing is announced and nothing is stored.
pub fn own_collection<W: World>(world: &mut W, now: SystemTime, thresholds: &Thresholds) -> (collected:
    (Result<Snapshot, String>, Duration))
    ensures
        exists|
            outcome: Result<Snapshot, CollectError>,
            asked: Seq<Exchange>,
            begun: Duration,
            ended: Duration,
        |
            {
                &&& #[trigger] collect::is_timed(
                    old(world).log(),
                    final(world).log(),
                    begun,
                    asked,
                    ended,
                )
                &&& collected.1 == ended.minus(begun)
                &&& #[trigger] collect::is_outcome(
                    outcome,
                    asked,
                    now,
                    *thresholds,
                    Role::Display,
                )
                &&& match outcome {
                    Ok(snapshot) => collected.0 == Ok::<Snapshot, String>(snapshot),
                    Err(error) => collected.0 matches Err(why) && why@ == error.words(),
                }
            },
{
    let ghost before = world.log();
    let begun: Duration = world.clock();
    let ghost started = world.log();
    let outcome: Result<Snapshot, CollectError> = collect::collect_as(
        world,
        now,
        thresholds,
        Role::Display,
    );
    let ghost collected_log = world.log();
    let ghost asked = choose|asked: Seq<Exchange>| #[trigger]
        collect::goes_on(started, collected_log, asked) && collect::is_outcome(
            outcome,
            asked,
            now,
            *thresholds,
            Role::Display,
        );
    let ended: Duration = world.clock();
    assert(world.log() =~= before.push(Exchange::Clock(begun)) + asked.push(
        Exchange::Clock(ended),
    ));
    assert(collect::is_timed(before, world.log(), begun, asked, ended));
    let overhead: Duration = ended.saturating_sub(begun);
    let facts: Result<Snapshot, String> = match outcome {
        Ok(snapshot) => Ok(snapshot),
        Err(error) => {
            let words: String = error.to_text();
            assert(error.words() == words@);
            Err(words)
        },
    };
    (facts, overhead)
}

// --- The keyboard ------------------------------------------------------------------------------

/// A key.
#[derive(Debug, Clone, Copy, PartialEq, Eq, Structural)]
pub enum Key {
    Character(char),
    Escape,
    Other,
}

/// What the terminal reports.
#[derive(Debug, Clone, Copy, PartialEq, Eq, Structural)]
pub enum TerminalEvent {
    Resized,
    /// A key, with the control key held or not, and whether it went down just now.
    Key { key: Key, control: bool, pressed: bool },
    Other,
}

/// What the display does about it.
#[derive(Debug, Clone, Copy, PartialEq, Eq, Structural)]
pub enum Command {
    Quit,
    Redraw,
    Ignore,
}

/// What the terminal's report asks of the display.
pub open spec fn asked_for(event: TerminalEvent) -> Command {
    match event {
        TerminalEvent::Resized => Command::Redraw,
        TerminalEvent::Key { key, control, pressed } => if pressed && (key == Key::Escape || key
            == Key::Character('q') || key == Key::Character('Q') || (control && (key
            == Key::Character('c') || key == Key::Character('d')))) {
            Command::Quit
        } else {
            Command::Ignore
        },
        TerminalEvent::Other => Command::Ignore,
    }
}

/// What the display does about what the terminal reports: there are no keys but those that leave, and
/// they leave when they go down.
pub fn command_for(event: &TerminalEvent) -> (command: Command)
    ensures
        command == asked_for(*event),
{
    match event {
        TerminalEvent::Resized => Command::Redraw,
        TerminalEvent::Key { pressed: false, .. } => Command::Ignore,
        TerminalEvent::Key { key, control, pressed: true } => match key {
            Key::Escape => Command::Quit,
            Key::Character(letter) => if *letter == 'q' || *letter == 'Q' {
                Command::Quit
            } else if *control && (*letter == 'c' || *letter == 'd') {
                Command::Quit
            } else {
                Command::Ignore
            },
            Key::Other => Command::Ignore,
        },
        TerminalEvent::Other => Command::Ignore,
    }
}

} // verus!
