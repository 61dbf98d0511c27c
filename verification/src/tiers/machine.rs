//! The machine as one tier sees it: what the tier reads is asked, and everything else is remembered.

use crate::book::Book;
use crate::collect;
use crate::collect::{CollectError, Exchange, Log, Role, Snapshot, World};
use crate::deliver::DeliveryReport;
use crate::liveness::Thresholds;
use crate::memory::{MemoryRead, StateFile};
use crate::meter;
use crate::notify::{NotifiedFile, NotifiedRead};
use crate::order;
use crate::schedule;
use crate::schedule::Coverage;
use crate::state::Tier;
use crate::text;
use crate::tiers::{FastFacts, MediumFacts, Observed, ReadVcs, SlowFacts, Stamped, TierFacts};
use crate::time::{Duration, SystemTime};
use crate::vcs::{Unreadable, VcsFacts};
use crate::world::{
    ActivityUnavailable, CodexSession, DetectorConfig, LoadAverage, NamespaceResolution,
    NotifyConfig, ProcessSnapshot, Resources, ResourcesUnavailable, Sweep, WorldError,
};
use vstd::prelude::*;

verus! {

/// What a pass has read so far.
#[derive(Debug, PartialEq, Eq)]
pub struct Gathered {
    pub snapshot: Option<Result<ProcessSnapshot, WorldError>>,
    pub resources: Book<i32, Result<Resources, ResourcesUnavailable>>,
    pub namespaces: Option<Result<Vec<String>, WorldError>>,
    pub activity: Book<String, Result<SystemTime, ActivityUnavailable>>,
    pub resolutions: Book<String, NamespaceResolution>,
    pub sweep: Option<(Vec<String>, Sweep)>,
    pub codex: Option<Result<Vec<CodexSession>, WorldError>>,
    pub vcs: Book<String, ReadVcs>,
    pub coverage: Coverage,
}

impl Gathered {
    /// Nothing yet.
    pub fn nothing() -> (gathered: Gathered)
        ensures
            gathered.snapshot is None,
            gathered.resources@ == Map::<i32, Result<Resources, ResourcesUnavailable>>::empty(),
            gathered.namespaces is None,
            gathered.activity@ == Map::<
                Seq<char>,
                Result<SystemTime, ActivityUnavailable>,
            >::empty(),
            gathered.resolutions@ == Map::<Seq<char>, NamespaceResolution>::empty(),
            gathered.sweep is None,
            gathered.codex is None,
            gathered.vcs@ == Map::<Seq<char>, ReadVcs>::empty(),
            gathered.coverage == (Coverage { total: 0, read: 0, never_read: 0 }),
    {
        Gathered {
            snapshot: None,
            resources: Book::new(),
            namespaces: None,
            activity: Book::new(),
            resolutions: Book::new(),
            sweep: None,
            codex: None,
            vcs: Book::new(),
            coverage: Coverage { total: 0, read: 0, never_read: 0 },
        }
    }

    /// The facts of a tier, out of what its pass read. What the fast tier always has is missing for a
    /// reason where the pass ended before it was read.
    pub fn into_facts(self, tier: Tier, slice: usize) -> (facts: TierFacts)
        ensures
            are_facts(facts, self, tier, slice),
    {
        match tier {
            Tier::Fast => TierFacts::Fast(
                FastFacts {
                    snapshot: match self.snapshot {
                        Some(snapshot) => snapshot,
                        None => Err(
                            WorldError::ProcessEnumeration(
                                String::from_str(
                                    "the pass ended before the process table was read",
                                ),
                            ),
                        ),
                    },
                    resources: self.resources,
                    namespaces: match self.namespaces {
                        Some(namespaces) => namespaces,
                        None => Err(
                            WorldError::NamespaceListing(
                                String::from_str(
                                    "the pass ended before the transcript stores were listed",
                                ),
                            ),
                        ),
                    },
                },
            ),
            Tier::Medium => TierFacts::Medium(
                MediumFacts {
                    resolutions: self.resolutions,
                    sweep: self.sweep,
                    activity: self.activity,
                },
            ),
            Tier::Slow => TierFacts::Slow(
                SlowFacts { codex: self.codex, vcs: self.vcs, coverage: self.coverage, slice },
            ),
        }
    }
}

/// Whether these are the facts of a tier, out of what its pass read.
pub open spec fn are_facts(facts: TierFacts, gathered: Gathered, tier: Tier, slice: usize) -> bool {
    match tier {
        Tier::Fast => {
            &&& facts matches TierFacts::Fast(fast)
            &&& fast.resources == gathered.resources
            &&& match gathered.snapshot {
                Some(snapshot) => fast.snapshot == snapshot,
                None => fast.snapshot matches Err(WorldError::ProcessEnumeration(why)) && why@
                    == "the pass ended before the process table was read"@,
            }
            &&& match gathered.namespaces {
                Some(namespaces) => fast.namespaces == namespaces,
                None => fast.namespaces matches Err(WorldError::NamespaceListing(why)) && why@
                    == "the pass ended before the transcript stores were listed"@,
            }
        },
        Tier::Medium => facts == TierFacts::Medium(
            MediumFacts {
                resolutions: gathered.resolutions,
                sweep: gathered.sweep,
                activity: gathered.activity,
            },
        ),
        Tier::Slow => facts == TierFacts::Slow(
            SlowFacts {
                codex: gathered.codex,
                vcs: gathered.vcs,
                coverage: gathered.coverage,
                slice,
            },
        ),
    }
}

/// How a tier came by an answer: what it asked of the machine for it, and, where it was asked what
/// version control says, the order it took the workspaces in, which of them lie in a repository, what
/// the machine said of those it chose, and what is now known of each.
pub struct Part {
    pub asked: Log,
    pub order: Seq<usize>,
    pub roots: Seq<Option<(String, bool)>>,
    pub fresh: Seq<Result<VcsFacts, Unreadable>>,
    pub reads: Seq<Option<ReadVcs>>,
}

impl Part {
    /// An answer for which this was asked.
    pub open spec fn of(asked: Log) -> Part {
        Part {
            asked,
            order: Seq::empty(),
            roots: Seq::empty(),
            fresh: Seq::empty(),
            reads: Seq::empty(),
        }
    }

    /// Which of the workspaces lie in a repository, in the order they were taken in.
    pub open spec fn repository(self) -> Seq<bool> {
        self.roots.map_values(|root: Option<(String, bool)>| root is Some)
    }

    /// The workspaces that were chosen.
    pub open spec fn picked(self, slice: usize) -> Seq<usize> {
        chosen(self.order, self.repository(), slice as int)
    }
}

/// Everything that was asked for several answers, in order.
pub open spec fn asked_in(parts: Seq<Part>) -> Log
    decreases parts.len(),
{
    if parts.len() == 0 {
        Seq::empty()
    } else {
        asked_in(parts.drop_last()) + parts.last().asked
    }
}

/// The machine as one tier sees it.
pub struct TieredWorld<'a, W: World> {
    pub observed: &'a Observed,
    pub delegate: W,
    pub live: Tier,
    pub now: SystemTime,
    pub at: Duration,
    pub slice: usize,
    pub gathered: Gathered,
    /// Everything that was asked through it, with the answers.
    pub told: Ghost<Log>,
    /// How it came by each of the answers.
    pub parts: Ghost<Seq<Part>>,
    /// What the machine had been asked before.
    pub begun: Ghost<Log>,
}

/// What is said of what no pass has read yet.
pub open spec fn not_yet_words(tier: Tier, what: Seq<char>) -> Seq<char> {
    "no "@ + meter::tier_word(tier) + " pass has read "@ + what
        + " yet, so this is not known rather than absent"@
}

fn not_yet(tier: Tier, what: &str) -> (words: String)
    ensures
        words@ == not_yet_words(tier, what@),
{
    String::from_str("no ").concat(meter::tier_name(tier)).concat(" pass has read ").concat(
        what,
    ).concat(" yet, so this is not known rather than absent")
}

// --- What is remembered ------------------------------------------------------------------------

/// Whether two readings of the processes are the same.
pub open spec fn same_processes(
    one: Result<ProcessSnapshot, WorldError>,
    other: Result<ProcessSnapshot, WorldError>,
) -> bool {
    match (one, other) {
        (Ok(a), Ok(b)) => a.shows(b),
        (Err(a), Err(b)) => a == b,
        _ => false,
    }
}

/// Whether two readings of a list are the same.
pub open spec fn same_list<T>(
    one: Result<Vec<T>, WorldError>,
    other: Result<Vec<T>, WorldError>,
) -> bool {
    match (one, other) {
        (Ok(a), Ok(b)) => a@ == b@,
        (Err(a), Err(b)) => a == b,
        _ => false,
    }
}

fn processes_again(read: &Result<ProcessSnapshot, WorldError>) -> (copy: Result<
    ProcessSnapshot,
    WorldError,
>)
    ensures
        same_processes(copy, *read),
{
    match read {
        Ok(snapshot) => Ok(snapshot.again()),
        Err(why) => Err(why.clone()),
    }
}

fn names_again(read: &Result<Vec<String>, WorldError>) -> (copy: Result<Vec<String>, WorldError>)
    ensures
        same_list(copy, *read),
{
    match read {
        Ok(names) => Ok(text::copies(names)),
        Err(why) => Err(why.clone()),
    }
}

fn codex_again(read: &Result<Vec<CodexSession>, WorldError>) -> (copy: Result<
    Vec<CodexSession>,
    WorldError,
>)
    ensures
        same_list(copy, *read),
{
    match read {
        Ok(sessions) => {
            let mut copies: Vec<CodexSession> = Vec::new();
            let mut next: usize = 0;
            while next < sessions.len()
                invariant
                    next <= sessions@.len(),
                    copies@ == sessions@.take(next as int),
                decreases sessions@.len() - next,
            {
                copies.push(sessions[next].clone());
                next += 1;
                assert(copies@ =~= sessions@.take(next as int));
            }
            assert(copies@ =~= sessions@);
            Ok(copies)
        },
        Err(why) => Err(why.clone()),
    }
}

fn ledger_again(read: &Result<Resources, ResourcesUnavailable>) -> (copy: Result<
    Resources,
    ResourcesUnavailable,
>)
    ensures
        copy == *read,
{
    match read {
        Ok(resources) => Ok(*resources),
        Err(why) => Err(why.clone()),
    }
}

fn activity_again(read: &Result<SystemTime, ActivityUnavailable>) -> (copy: Result<
    SystemTime,
    ActivityUnavailable,
>)
    ensures
        copy == *read,
{
    match read {
        Ok(time) => Ok(*time),
        Err(why) => Err(why.clone()),
    }
}

fn facts_again(read: &Result<VcsFacts, Unreadable>) -> (copy: Result<VcsFacts, Unreadable>)
    ensures
        copy == *read,
{
    match read {
        Ok(facts) => Ok(facts.clone()),
        Err(why) => Err(why.clone()),
    }
}

/// Whether this is what the fast tier remembers of the processes.
pub open spec fn remembers_processes(
    answer: Result<ProcessSnapshot, WorldError>,
    observed: Observed,
) -> bool {
    match observed.fast {
        Some(fast) => same_processes(answer, fast.facts.snapshot),
        None => answer matches Err(WorldError::ProcessEnumeration(why)) && why@ == not_yet_words(
            Tier::Fast,
            "the process table"@,
        ),
    }
}

/// Whether this is what the fast tier remembers of a process's ledger.
pub open spec fn remembers_ledger(
    answer: Result<Resources, ResourcesUnavailable>,
    observed: Observed,
    pid: i32,
) -> bool {
    if observed.fast is Some && observed.fast->0.facts.resources@.contains_key(pid) {
        answer == observed.fast->0.facts.resources@[pid]
    } else {
        answer matches Err(ResourcesUnavailable::AllReadersFailed(why)) && why@ == not_yet_words(
            Tier::Fast,
            "pid "@ + text::signed_decimal(pid as int) + "'s resource ledger"@,
        )
    }
}

/// Whether this is what the fast tier remembers of the recorded names.
pub open spec fn remembers_names(answer: Result<Vec<String>, WorldError>, observed: Observed) -> bool {
    match observed.fast {
        Some(fast) => same_list(answer, fast.facts.namespaces),
        None => answer matches Err(WorldError::NamespaceListing(why)) && why@ == not_yet_words(
            Tier::Fast,
            "the transcript stores"@,
        ),
    }
}

/// Whether this is what the medium tier remembers of when a transcript changed.
pub open spec fn remembers_activity(
    answer: Result<SystemTime, ActivityUnavailable>,
    observed: Observed,
    namespace: Seq<char>,
) -> bool {
    if observed.medium is Some && observed.medium->0.facts.activity@.contains_key(namespace) {
        answer == observed.medium->0.facts.activity@[namespace]
    } else {
        answer matches Err(ActivityUnavailable::Unreadable(why)) && why@ == not_yet_words(
            Tier::Medium,
            "namespace "@ + namespace,
        )
    }
}

/// Whether this is what the medium tier remembers of the directory behind a name.
pub open spec fn remembers_resolution(
    answer: NamespaceResolution,
    observed: Observed,
    namespace: Seq<char>,
) -> bool {
    if observed.medium is Some && observed.medium->0.facts.resolutions@.contains_key(namespace) {
        answer.agrees(observed.medium->0.facts.resolutions@[namespace])
    } else {
        answer is SearchExhausted
    }
}

/// Whether this is what the medium tier remembers of its search.
pub open spec fn remembers_sweep(answer: Sweep, observed: Observed) -> bool {
    if observed.medium is Some && observed.medium->0.facts.sweep is Some {
        answer.finds((observed.medium->0.facts.sweep->0).1)
    } else {
        answer.repositories@.len() == 0 && !answer.complete && answer.directories_visited == 0
    }
}

/// Whether this is what the slow tier remembers of Codex's index.
pub open spec fn remembers_codex(
    answer: Result<Vec<CodexSession>, WorldError>,
    observed: Observed,
) -> bool {
    if observed.slow is Some && observed.slow->0.facts.codex is Some {
        same_list(answer, observed.slow->0.facts.codex->0)
    } else {
        answer matches Err(WorldError::CodexIndex(why)) && why@ == not_yet_words(
            Tier::Slow,
            "the Codex session index"@,
        )
    }
}

/// What the slow tier remembers of a workspace. Its path is looked up whatever its case.
pub open spec fn carried(observed: Observed, path: Seq<char>) -> Option<ReadVcs> {
    if observed.slow is Some && observed.slow->0.facts.vcs@.contains_key(text::lowercased(path)) {
        Some(observed.slow->0.facts.vcs@[text::lowercased(path)])
    } else {
        None
    }
}

/// The answer that a reading gives, or that there is none yet.
pub open spec fn answer_of(read: Option<ReadVcs>) -> Result<VcsFacts, Unreadable> {
    match read {
        Some(read) => read.facts,
        None => Err(Unreadable::NotYetRead),
    }
}

pub(crate) fn carried_reading(observed: &Observed, path: &str) -> (read: Option<ReadVcs>)
    ensures
        read == carried(*observed, path@),
{
    match &observed.slow {
        Some(slow) => match slow.facts.vcs.get(&text::lowercase(path)) {
            Some(read) => Some(read.clone()),
            None => None,
        },
        None => None,
    }
}

// --- Which workspaces a slow pass reads --------------------------------------------------------

/// How many of these are repositories.
pub open spec fn repositories_among(repository: Seq<bool>) -> int
    decreases repository.len(),
{
    if repository.len() == 0 {
        0
    } else {
        repositories_among(repository.drop_last()) + if repository.last() {
            1int
        } else {
            0int
        }
    }
}

/// What is read, of workspaces in an order: all that are no repository, which cost nothing to read, and
/// the first of those that are one, as many as the slice allows.
pub open spec fn chosen(order: Seq<usize>, repository: Seq<bool>, slice: int) -> Seq<usize>
    decreases order.len(),
{
    if order.len() == 0 {
        Seq::empty()
    } else {
        let before = chosen(order.drop_last(), repository, slice);
        let last = order.len() - 1;
        if !repository[last] || repositories_among(repository.take(last)) < slice {
            before.push(order.last())
        } else {
            before
        }
    }
}

/// How long ago each workspace was read, where it ever was.
pub open spec fn ages(observed: Observed, paths: Seq<String>, at: Duration) -> Seq<Option<Duration>> {
    Seq::new(
        paths.len(),
        |i: int|
            match carried(observed, paths[i]@) {
                Some(read) => Some(at.minus(read.at)),
                None => None,
            },
    )
}

/// What is said of a workspace that a batch was asked about and left out.
pub open spec fn left_out(asked: nat, answered: nat) -> Seq<char> {
    "the batch was asked about "@ + text::decimal(asked) + " workspaces and answered about "@
        + text::decimal(answered)
}

/// Whether this is the fresh answer about one of the workspaces asked about.
pub open spec fn is_fresh(
    answer: Result<VcsFacts, Unreadable>,
    fresh: Seq<Result<VcsFacts, Unreadable>>,
    place: int,
    asked: nat,
) -> bool {
    if place < fresh.len() {
        answer == fresh[place]
    } else {
        answer matches Err(Unreadable::QueryFailed(why)) && why@ == left_out(asked, fresh.len())
    }
}

/// Whether this is what a pass knows of a workspace: what it just read, where it chose it, and what is
/// remembered otherwise.
pub open spec fn is_reading(
    read: Option<ReadVcs>,
    index: int,
    picked: Seq<usize>,
    fresh: Seq<Result<VcsFacts, Unreadable>>,
    remembered: Option<ReadVcs>,
    now: SystemTime,
    at: Duration,
) -> bool {
    if exists|place: int| 0 <= place < picked.len() && #[trigger] picked[place] == index {
        &&& read matches Some(found)
        &&& found.observed_at == now
        &&& found.at == at
        &&& exists|place: int|
            {
                &&& 0 <= place < picked.len()
                &&& #[trigger] picked[place] == index
                &&& is_fresh(found.facts, fresh, place, picked.len())
            }
    } else {
        read == remembered
    }
}

/// What is known of the workspaces once a pass is over.
pub open spec fn filed(
    paths: Seq<String>,
    reads: Seq<Option<ReadVcs>>,
    known: Map<Seq<char>, ReadVcs>,
) -> Map<Seq<char>, ReadVcs>
    decreases paths.len(),
{
    if paths.len() == 0 {
        known
    } else {
        let before = filed(paths.drop_last(), reads, known);
        match reads[paths.len() - 1] {
            Some(read) => before.insert(text::lowercased(paths.last()@), read),
            None => before,
        }
    }
}

/// How many of these have never been read.
pub open spec fn unread(reads: Seq<Option<ReadVcs>>) -> nat
    decreases reads.len(),
{
    if reads.len() == 0 {
        0
    } else {
        unread(reads.drop_last()) + if reads.last() is None {
            1nat
        } else {
            0nat
        }
    }
}

/// The paths of the workspaces that were chosen.
pub open spec fn paths_picked(picked: Seq<usize>, paths: Seq<String>) -> Seq<String> {
    picked.map_values(|index: usize| paths[index as int])
}

/// The questions after the repositories that workspaces lie in, in an order, with the answers.
pub open spec fn roots_looked_up(
    order: Seq<usize>,
    paths: Seq<String>,
    roots: Seq<Option<(String, bool)>>,
) -> Log {
    Seq::new(order.len(), |i: int| Exchange::Root(paths[order[i] as int]@, roots[i]))
}

/// Whether a slow pass read the workspaces the way it must: the stalest first, no more repositories
/// than its slice, and everything else from what is remembered. The machine is asked which of them lie
/// in a repository, and what version control says of the chosen ones.
pub open spec fn is_slow_batch(
    part: Part,
    observed: Observed,
    paths: Seq<String>,
    slice: usize,
    now: SystemTime,
    at: Duration,
) -> bool {
    &&& order::is_stable_order(schedule::staleness(ages(observed, paths, at)), part.order)
    &&& part.roots.len() == paths.len()
    &&& part.asked == roots_looked_up(part.order, paths, part.roots).push(
        Exchange::Facts(paths_picked(part.picked(slice), paths), part.fresh),
    )
    &&& part.reads.len() == paths.len()
    &&& forall|i: int|
        0 <= i < part.reads.len() ==> is_reading(
            #[trigger] part.reads[i],
            i,
            part.picked(slice),
            part.fresh,
            carried(observed, paths[i]@),
            now,
            at,
        )
}

/// A slow pass reads no more repositories than its slice allows.
pub proof fn law_no_pass_reads_more_than_its_slice(
    order: Seq<usize>,
    repository: Seq<bool>,
    slice: int,
)
    requires
        order.len() == repository.len(),
        0 <= slice,
    ensures
        chosen(order, repository, slice).len() <= order.len() - repositories_among(repository) + (
        if repositories_among(repository) < slice {
            repositories_among(repository)
        } else {
            slice
        }),
        0 <= repositories_among(repository) <= repository.len(),
    decreases order.len(),
{
    if order.len() > 0 {
        let last = order.len() - 1;
        law_no_pass_reads_more_than_its_slice(order.drop_last(), repository.drop_last(), slice);
        assert(repository.drop_last() =~= repository.take(last));
        lemma_chosen_of_prefix(order.drop_last(), repository, repository.drop_last(), slice);
    }
}

proof fn lemma_chosen_of_prefix(
    order: Seq<usize>,
    repository: Seq<bool>,
    shorter: Seq<bool>,
    slice: int,
)
    requires
        order.len() <= shorter.len() <= repository.len(),
        forall|i: int| 0 <= i < shorter.len() ==> shorter[i] == repository[i],
    ensures
        chosen(order, repository, slice) == chosen(order, shorter, slice),
    decreases order.len(),
{
    if order.len() > 0 {
        let last = order.len() - 1;
        lemma_chosen_of_prefix(order.drop_last(), repository, shorter, slice);
        assert(repository.take(last) =~= shorter.take(last));
    }
}

/// A workspace that no pass has read stays counted until one does, and is never answered for.
pub proof fn law_the_unread_are_counted(reads: Seq<Option<ReadVcs>>, i: int)
    requires
        0 <= i < reads.len(),
        reads[i] is None,
    ensures
        unread(reads) >= 1,
        answer_of(reads[i]) == Err::<VcsFacts, Unreadable>(Unreadable::NotYetRead),
    decreases reads.len(),
{
    if i < reads.len() - 1 {
        law_the_unread_are_counted(reads.drop_last(), i);
    }
}

impl<'a, W: World> TieredWorld<'a, W> {
    /// The machine as a tier sees it, with nothing read yet.
    pub fn new(
        observed: &'a Observed,
        delegate: W,
        live: Tier,
        now: SystemTime,
        at: Duration,
        slice: usize,
    ) -> (tiered: TieredWorld<'a, W>)
        ensures
            *tiered.observed == *observed,
            tiered.live == live,
            tiered.now == now,
            tiered.at == at,
            tiered.slice == slice,
            tiered.gathered.snapshot is None,
            tiered.gathered.vcs@ == Map::<Seq<char>, ReadVcs>::empty(),
            tiered.delegate == delegate,
            tiered.told@.len() == 0,
            tiered.parts@.len() == 0,
            tiered.begun@ == delegate.log(),
            tiered.is_faithful(),
    {
        let ghost before = delegate.log();
        let tiered = TieredWorld {
            observed,
            delegate,
            live,
            now,
            at,
            slice,
            gathered: Gathered::nothing(),
            told: Ghost(Seq::empty()),
            parts: Ghost(Seq::empty()),
            begun: Ghost(before),
        };
        assert(before + asked_in(Seq::<Part>::empty()) =~= before);
        tiered
    }

    /// Whether the machine was asked this in the meantime, and nothing else.
    pub open spec fn asked_since(self, before: TieredWorld<'a, W>, asked: Log) -> bool {
        &&& self.delegate.log() =~= before.delegate.log() + asked
        &&& forall|past: W| #[trigger]
            before.delegate.grew_from(&past) ==> self.delegate.grew_from(&past)
    }

    /// Whether only the machine and what was gathered from it may differ.
    pub open spec fn same_setting(self, other: TieredWorld<'a, W>) -> bool {
        &&& self.told@ == other.told@
        &&& self.parts@ == other.parts@
        &&& self.begun@ == other.begun@
        &&& *self.observed == *other.observed
        &&& self.live == other.live
        &&& self.now == other.now
        &&& self.at == other.at
        &&& self.slice == other.slice
    }

    /// How long ago each workspace was read.
    fn ages_of(&self, paths: &Vec<String>) -> (found: Vec<Option<Duration>>)
        ensures
            found@ == ages(*self.observed, paths@, self.at),
    {
        let ghost all = ages(*self.observed, paths@, self.at);
        let mut found: Vec<Option<Duration>> = Vec::new();
        let mut next: usize = 0;
        while next < paths.len()
            invariant
                next <= paths@.len(),
                all == ages(*self.observed, paths@, self.at),
                found@ == all.take(next as int),
            decreases paths@.len() - next,
        {
            found.push(
                match carried_reading(self.observed, paths[next].as_str()) {
                    Some(read) => Some(self.at.saturating_sub(read.at)),
                    None => None,
                },
            );
            next += 1;
            assert(found@ =~= all.take(next as int));
        }
        assert(found@ =~= all);
        found
    }

    /// Asks which workspaces are repositories, in an order, and chooses those to read.
    fn choose_from(&mut self, order: &Vec<usize>, paths: &Vec<String>) -> (picked: (
        Vec<usize>,
        Ghost<Seq<Option<(String, bool)>>>,
    ))
        requires
            forall|i: int| 0 <= i < order@.len() ==> #[trigger] order@[i] < paths@.len(),
        ensures
            final(self).same_setting(*old(self)),
            final(self).gathered == old(self).gathered,
            final(self).asked_since(*old(self), roots_looked_up(order@, paths@, picked.1@)),
            picked.1@.len() == order@.len(),
            picked.0@ == chosen(
                order@,
                picked.1@.map_values(|root: Option<(String, bool)>| root is Some),
                old(self).slice as int,
            ),
    {
        let mut found: Vec<usize> = Vec::new();
        let mut expensive: usize = 0;
        let ghost mut roots: Seq<Option<(String, bool)>> = Seq::empty();
        let ghost mut repository: Seq<bool> = Seq::empty();
        let slice: usize = self.slice;
        let ghost begun = *self;
        let mut next: usize = 0;
        assert(order@.take(0) =~= Seq::empty());
        assert(begun.delegate.log() + roots_looked_up(order@.take(0), paths@, roots)
            =~= begun.delegate.log());
        while next < order.len()
            invariant
                next <= order@.len(),
                forall|i: int| 0 <= i < order@.len() ==> #[trigger] order@[i] < paths@.len(),
                repository.len() == next,
                roots.len() == next,
                repository == roots.map_values(|root: Option<(String, bool)>| root is Some),
                self.asked_since(begun, roots_looked_up(order@.take(next as int), paths@, roots)),
                slice == begun.slice,
                self.same_setting(begun),
                self.gathered == begun.gathered,
                expensive <= slice,
                expensive == (if repositories_among(repository) < slice {
                    repositories_among(repository)
                } else {
                    slice as int
                }),
                0 <= repositories_among(repository),
                found@ == chosen(order@.take(next as int), repository, slice as int),
            decreases order@.len() - next,
        {
            let index: usize = order[next];
            let ghost before = repository;
            let ghost roots_before = roots;
            let root: Option<(String, bool)> = self.delegate.repository_root(
                paths[index].as_str(),
            );
            let expensive_one: bool = root.is_some();
            proof {
                roots = roots.push(root);
                assert(roots_looked_up(order@.take(next + 1), paths@, roots) =~= roots_looked_up(
                    order@.take(next as int),
                    paths@,
                    roots_before,
                ).push(Exchange::Root(paths@[index as int]@, root)));
                assert(self.delegate.log() =~= begun.delegate.log() + roots_looked_up(
                    order@.take(next + 1),
                    paths@,
                    roots,
                ));
                repository = repository.push(expensive_one);
                assert(repository =~= roots.map_values(
                    |root: Option<(String, bool)>| root is Some,
                ));
                assert(repository.drop_last() =~= before);
                assert(repository.take(next as int) =~= before);
                assert(order@.take(next + 1).drop_last() =~= order@.take(next as int));
                lemma_chosen_of_prefix(
                    order@.take(next as int),
                    repository,
                    before,
                    slice as int,
                );
            }
            if expensive_one {
                if expensive < slice {
                    expensive += 1;
                    found.push(index);
                }
            } else {
                found.push(index);
            }
            next += 1;
        }
        assert(order@.take(order@.len() as int) =~= order@);
        (found, Ghost(roots))
    }
}

// --- What a pass comes to ----------------------------------------------------------------------

/// Whether an answer is the one that a tier gives, and this is how it came by it: what the tier itself
/// reads, it asks of the machine; what another tier reads is what that tier last read; of what version
/// control says, only a slice is new; and everything else is asked of the machine by every tier.
pub open spec fn is_tiered(
    exchange: Exchange,
    part: Part,
    observed: Observed,
    live: Tier,
    slice: usize,
    now: SystemTime,
    at: Duration,
) -> bool {
    match exchange {
        Exchange::Facts(paths, answers) => if live == Tier::Slow {
            is_slow_batch(part, observed, paths, slice, now, at) && are_known(answers, part.reads)
        } else {
            part == Part::of(Seq::empty()) && are_carried(answers, observed, paths)
        },
        _ => if reads(live, exchange) {
            part == Part::of(seq![exchange])
        } else {
            part == Part::of(Seq::empty()) && is_remembered(exchange, observed)
        },
    }
}

/// Whether a tier asks this of the machine itself.
pub open spec fn reads(live: Tier, exchange: Exchange) -> bool {
    match exchange {
        Exchange::Processes(_) | Exchange::Ledger(_, _) | Exchange::Names(_) => live == Tier::Fast,
        Exchange::Activity(_, _) | Exchange::Resolution(_, _) | Exchange::Swept(_, _) => live
            == Tier::Medium,
        Exchange::Codex(_) => live == Tier::Slow,
        _ => true,
    }
}

/// Whether an answer is what the tier that reads it last read.
pub open spec fn is_remembered(exchange: Exchange, observed: Observed) -> bool {
    match exchange {
        Exchange::Processes(answer) => remembers_processes(answer, observed),
        Exchange::Ledger(pid, answer) => remembers_ledger(answer, observed, pid),
        Exchange::Names(answer) => remembers_names(answer, observed),
        Exchange::Activity(name, answer) => remembers_activity(answer, observed, name),
        Exchange::Resolution(name, answer) => remembers_resolution(answer, observed, name),
        Exchange::Swept(_, answer) => remembers_sweep(answer, observed),
        Exchange::Codex(answer) => remembers_codex(answer, observed),
        _ => false,
    }
}

/// Whether all answers are those that a tier gives, and this is how it came by each.
pub open spec fn are_tiered(
    told: Log,
    parts: Seq<Part>,
    observed: Observed,
    live: Tier,
    slice: usize,
    now: SystemTime,
    at: Duration,
) -> bool {
    &&& parts.len() == told.len()
    &&& forall|i: int|
        0 <= i < told.len() ==> is_tiered(
            #[trigger] told[i],
            parts[i],
            observed,
            live,
            slice,
            now,
            at,
        )
}

/// Whether these are the answers that the slow tier last read.
pub open spec fn are_carried(
    answers: Seq<Result<VcsFacts, Unreadable>>,
    observed: Observed,
    paths: Seq<String>,
) -> bool {
    answers.len() == paths.len() && forall|i: int|
        0 <= i < paths.len() ==> #[trigger] answers[i] == answer_of(carried(observed, paths[i]@))
}

/// Whether these are the answers that readings give.
pub open spec fn are_known(
    answers: Seq<Result<VcsFacts, Unreadable>>,
    reads: Seq<Option<ReadVcs>>,
) -> bool {
    answers.len() == reads.len() && forall|i: int|
        0 <= i < answers.len() ==> #[trigger] answers[i] == answer_of(reads[i])
}

/// The first reading of the processes.
pub open spec fn first_processes(told: Seq<Exchange>) -> Option<Result<ProcessSnapshot, WorldError>>
    decreases told.len(),
{
    if told.len() == 0 {
        None
    } else {
        match (first_processes(told.drop_last()), told.last()) {
            (Some(first), _) => Some(first),
            (None, Exchange::Processes(answer)) => Some(answer),
            _ => None,
        }
    }
}

/// The first listing of the recorded names.
pub open spec fn first_names(told: Seq<Exchange>) -> Option<Result<Vec<String>, WorldError>>
    decreases told.len(),
{
    if told.len() == 0 {
        None
    } else {
        match (first_names(told.drop_last()), told.last()) {
            (Some(first), _) => Some(first),
            (None, Exchange::Names(answer)) => Some(answer),
            _ => None,
        }
    }
}

/// The first reading of Codex's index.
pub open spec fn first_codex(told: Seq<Exchange>) -> Option<Result<Vec<CodexSession>, WorldError>>
    decreases told.len(),
{
    if told.len() == 0 {
        None
    } else {
        match (first_codex(told.drop_last()), told.last()) {
            (Some(first), _) => Some(first),
            (None, Exchange::Codex(answer)) => Some(answer),
            _ => None,
        }
    }
}

/// The first search, and where it was made.
pub open spec fn first_sweep(told: Seq<Exchange>) -> Option<(Seq<String>, Sweep)>
    decreases told.len(),
{
    if told.len() == 0 {
        None
    } else {
        match (first_sweep(told.drop_last()), told.last()) {
            (Some(first), _) => Some(first),
            (None, Exchange::Swept(roots, answer)) => Some((roots, answer)),
            _ => None,
        }
    }
}

/// What each process had used when it was last asked about.
pub open spec fn ledgers_in(told: Seq<Exchange>) -> Map<i32, Result<Resources, ResourcesUnavailable>>
    decreases told.len(),
{
    if told.len() == 0 {
        Map::empty()
    } else {
        let before = ledgers_in(told.drop_last());
        match told.last() {
            Exchange::Ledger(pid, answer) => before.insert(pid, answer),
            _ => before,
        }
    }
}

/// When each transcript had changed when it was last asked about.
pub open spec fn activities_in(told: Seq<Exchange>) -> Map<
    Seq<char>,
    Result<SystemTime, ActivityUnavailable>,
>
    decreases told.len(),
{
    if told.len() == 0 {
        Map::empty()
    } else {
        let before = activities_in(told.drop_last());
        match told.last() {
            Exchange::Activity(name, answer) => before.insert(name, answer),
            _ => before,
        }
    }
}

/// What was behind each name when it was last asked about.
pub open spec fn resolutions_in(told: Seq<Exchange>) -> Map<Seq<char>, NamespaceResolution>
    decreases told.len(),
{
    if told.len() == 0 {
        Map::empty()
    } else {
        let before = resolutions_in(told.drop_last());
        match told.last() {
            Exchange::Resolution(name, answer) => before.insert(name, answer),
            _ => before,
        }
    }
}

/// What is known of the workspaces that were asked about.
pub open spec fn known_in(told: Log, parts: Seq<Part>) -> Map<Seq<char>, ReadVcs>
    decreases told.len(),
{
    if told.len() == 0 {
        Map::empty()
    } else {
        let before = known_in(told.drop_last(), parts.drop_last());
        match told.last() {
            Exchange::Facts(paths, _) => filed(paths, parts.last().reads, before),
            _ => before,
        }
    }
}

/// How much of what was last asked about is known.
pub open spec fn coverage_in(told: Log, parts: Seq<Part>, slice: usize) -> Coverage
    decreases told.len(),
{
    if told.len() == 0 {
        Coverage { total: 0, read: 0, never_read: 0 }
    } else {
        match told.last() {
            Exchange::Facts(paths, _) => covered(paths, parts.last(), slice),
            _ => coverage_in(told.drop_last(), parts.drop_last(), slice),
        }
    }
}

/// How much is known of the workspaces once a slice of them was read.
pub open spec fn covered(paths: Seq<String>, part: Part, slice: usize) -> Coverage {
    Coverage {
        total: paths.len() as usize,
        read: part.picked(slice).len() as usize,
        never_read: unread(part.reads) as usize,
    }
}

/// Whether two records of what is behind names agree.
pub open spec fn resolutions_agree(
    kept: Map<Seq<char>, NamespaceResolution>,
    told: Map<Seq<char>, NamespaceResolution>,
) -> bool {
    &&& kept.dom() == told.dom()
    &&& forall|name: Seq<char>| #[trigger] kept.contains_key(name) ==> kept[name].agrees(told[name])
}

/// Whether what a tier gathered is what it was told: of what is read once, the first answer, and of what is
/// read by name, the last.
pub open spec fn is_gathered(
    gathered: Gathered,
    told: Log,
    parts: Seq<Part>,
    live: Tier,
    slice: usize,
) -> bool {
    match live {
        Tier::Fast => {
            &&& match first_processes(told) {
                Some(answer) => gathered.snapshot is Some && same_processes(
                    gathered.snapshot->0,
                    answer,
                ),
                None => gathered.snapshot is None,
            }
            &&& match first_names(told) {
                Some(answer) => gathered.namespaces is Some && same_list(
                    gathered.namespaces->0,
                    answer,
                ),
                None => gathered.namespaces is None,
            }
            &&& gathered.resources@ == ledgers_in(told)
        },
        Tier::Medium => {
            &&& match first_sweep(told) {
                Some(answer) => gathered.sweep is Some && (gathered.sweep->0).0@ == answer.0
                    && (gathered.sweep->0).1.finds(answer.1),
                None => gathered.sweep is None,
            }
            &&& gathered.activity@ == activities_in(told)
            &&& resolutions_agree(gathered.resolutions@, resolutions_in(told))
        },
        Tier::Slow => {
            &&& match first_codex(told) {
                Some(answer) => gathered.codex is Some && same_list(gathered.codex->0, answer),
                None => gathered.codex is None,
            }
            &&& gathered.vcs@ == known_in(told, parts)
            &&& gathered.coverage == coverage_in(told, parts, slice)
        },
    }
}

impl<'a, W: World> TieredWorld<'a, W> {
    /// Whether everything that was told is what this tier tells, what was gathered is what was told, and
    /// the machine was asked for nothing else.
    pub open spec fn is_faithful(self) -> bool {
        &&& are_tiered(
            self.told@,
            self.parts@,
            *self.observed,
            self.live,
            self.slice,
            self.now,
            self.at,
        )
        &&& is_gathered(self.gathered, self.told@, self.parts@, self.live, self.slice)
        &&& self.delegate.log() == self.begun@ + asked_in(self.parts@)
    }

    /// Whether this tier is still the one that it was, and faithful if it was.
    pub open spec fn continues(self, before: TieredWorld<'a, W>) -> bool {
        &&& *self.observed == *before.observed
        &&& self.live == before.live
        &&& self.now == before.now
        &&& self.at == before.at
        &&& self.slice == before.slice
        &&& self.begun@ == before.begun@
        &&& forall|past: W| #[trigger]
            before.delegate.grew_from(&past) ==> self.delegate.grew_from(&past)
        &&& before.is_faithful() ==> self.is_faithful()
    }

    proof fn lemma_continues(self, after: TieredWorld<'a, W>, exchange: Exchange, part: Part)
        requires
            *self.observed == *after.observed,
            self.live == after.live,
            self.now == after.now,
            self.at == after.at,
            self.slice == after.slice,
            self.begun@ == after.begun@,
            after.told@ == self.told@.push(exchange),
            after.parts@ == self.parts@.push(part),
            after.asked_since(self, part.asked),
            is_tiered(exchange, part, *self.observed, self.live, self.slice, self.now, self.at),
            self.parts@.len() == self.told@.len() && is_gathered(
                self.gathered,
                self.told@,
                self.parts@,
                self.live,
                self.slice,
            ) ==> is_gathered(after.gathered, after.told@, after.parts@, self.live, self.slice),
        ensures
            forall|past: TieredWorld<'a, W>| #[trigger]
                self.continues(past) ==> after.continues(past),
    {
        assert forall|past: TieredWorld<'a, W>| #[trigger] self.continues(past) implies after.continues(
            past,
        ) by {
            if past.is_faithful() {
                assert(after.parts@.drop_last() =~= self.parts@);
                assert(after.delegate.log() =~= after.begun@ + asked_in(after.parts@));
                assert forall|i: int| 0 <= i < after.told@.len() implies is_tiered(
                    #[trigger] after.told@[i],
                    after.parts@[i],
                    *after.observed,
                    after.live,
                    after.slice,
                    after.now,
                    after.at,
                ) by {
                    if i < self.told@.len() {
                        assert(after.told@[i] == self.told@[i]);
                        assert(after.parts@[i] == self.parts@[i]);
                    }
                }
            }
        }
    }
}

/// Whether a workspace has the fresh answer that it was given at a place in the batch.
spec fn answered_at(
    answers: Seq<Option<Result<VcsFacts, Unreadable>>>,
    index: int,
    fresh: Seq<Result<VcsFacts, Unreadable>>,
    place: int,
    asked: nat,
) -> bool {
    answers[index] is Some && is_fresh(answers[index]->0, fresh, place, asked)
}

/// The answers about the workspaces chosen, each at the position of its workspace.
fn placed(
    picked: &Vec<usize>,
    fresh: &Vec<Result<VcsFacts, Unreadable>>,
    count: usize,
) -> (answers: Vec<Option<Result<VcsFacts, Unreadable>>>)
    requires
        forall|i: int| 0 <= i < picked@.len() ==> #[trigger] picked@[i] < count,
        forall|i: int, j: int| 0 <= i < j < picked@.len() ==> picked@[i] != picked@[j],
    ensures
        answers@.len() == count,
        forall|place: int|
            0 <= place < picked@.len() ==> answered_at(
                answers@,
                #[trigger] picked@[place] as int,
                fresh@,
                place,
                picked@.len(),
            ),
        forall|i: int|
            0 <= i < count && (#[trigger] answers@[i]) is Some ==> exists|place: int|
                0 <= place < picked@.len() && #[trigger] picked@[place] == i,
{
    let mut answers: Vec<Option<Result<VcsFacts, Unreadable>>> = Vec::new();
    let mut next: usize = 0;
    while next < count
        invariant
            next <= count,
            answers@.len() == next,
            forall|i: int| 0 <= i < next ==> (#[trigger] answers@[i]) is None,
        decreases count - next,
    {
        answers.push(None);
        next += 1;
    }
    let mut place: usize = 0;
    while place < picked.len()
        invariant
            place <= picked@.len(),
            answers@.len() == count,
            forall|i: int| 0 <= i < picked@.len() ==> #[trigger] picked@[i] < count,
            forall|i: int, j: int| 0 <= i < j < picked@.len() ==> picked@[i] != picked@[j],
            forall|p: int|
                0 <= p < place ==> answered_at(
                    answers@,
                    #[trigger] picked@[p] as int,
                    fresh@,
                    p,
                    picked@.len(),
                ),
            forall|i: int|
                0 <= i < count && (#[trigger] answers@[i]) is Some ==> exists|p: int|
                    0 <= p < place && #[trigger] picked@[p] == i,
        decreases picked@.len() - place,
    {
        let answer: Result<VcsFacts, Unreadable> = if place < fresh.len() {
            facts_again(&fresh[place])
        } else {
            Err(
                Unreadable::QueryFailed(
                    String::from_str("the batch was asked about ").concat(
                        text::count_of(picked.len()).as_str(),
                    ).concat(" workspaces and answered about ").concat(
                        text::count_of(fresh.len()).as_str(),
                    ),
                ),
            )
        };
        let ghost before = answers@;
        answers.set(picked[place], Some(answer));
        proof {
            assert forall|i: int|
                0 <= i < count && (#[trigger] answers@[i]) is Some implies exists|p: int|
                0 <= p < place + 1 && #[trigger] picked@[p] == i by {
                if i == picked@[place as int] {
                    assert(picked@[place as int] == i);
                } else {
                    assert(before[i] is Some);
                    let p = choose|p: int| 0 <= p < place && #[trigger] picked@[p] == i;
                    assert(picked@[p] == i);
                }
            }
        }
        place += 1;
    }
    answers
}

spec fn is_among(order: Seq<usize>, upto: int, value: usize) -> bool {
    exists|k: int| 0 <= k < upto && #[trigger] order[k] == value
}

proof fn lemma_chosen_are_apart(order: Seq<usize>, repository: Seq<bool>, slice: int, count: int)
    requires
        order::is_arrangement(order, count),
    ensures
        forall|i: int|
            0 <= i < chosen(order, repository, slice).len() ==> #[trigger] chosen(
                order,
                repository,
                slice,
            )[i] < count,
        forall|i: int, j: int|
            0 <= i < j < chosen(order, repository, slice).len() ==> chosen(
                order,
                repository,
                slice,
            )[i] != chosen(order, repository, slice)[j],
{
    lemma_chosen_from(order, repository, slice, order.len() as int);
    let picked = chosen(order, repository, slice);
    assert(order.take(order.len() as int) =~= order);
    assert forall|i: int| 0 <= i < picked.len() implies #[trigger] picked[i] < count by {
        assert(is_among(order, order.len() as int, picked[i]));
        let k = choose|k: int| 0 <= k < order.len() && #[trigger] order[k] == picked[i];
        assert(order[k] < count);
    }
}

proof fn lemma_chosen_from(order: Seq<usize>, repository: Seq<bool>, slice: int, upto: int)
    requires
        0 <= upto <= order.len(),
        forall|i: int, j: int| 0 <= i < j < order.len() ==> order[i] != order[j],
    ensures
        forall|i: int|
            0 <= i < chosen(order.take(upto), repository, slice).len() ==> is_among(
                order,
                upto,
                #[trigger] chosen(order.take(upto), repository, slice)[i],
            ),
        forall|i: int, j: int|
            0 <= i < j < chosen(order.take(upto), repository, slice).len() ==> chosen(
                order.take(upto),
                repository,
                slice,
            )[i] != chosen(order.take(upto), repository, slice)[j],
    decreases upto,
{
    if upto > 0 {
        lemma_chosen_from(order, repository, slice, upto - 1);
        let shorter = order.take(upto - 1);
        assert(order.take(upto).drop_last() =~= shorter);
        assert(order.take(upto).last() == order[upto - 1]);
        let before = chosen(shorter, repository, slice);
        let picked = chosen(order.take(upto), repository, slice);
        assert forall|i: int| 0 <= i < picked.len() implies is_among(
            order,
            upto,
            #[trigger] picked[i],
        ) by {
            if i < before.len() {
                assert(picked[i] == before[i]);
                assert(is_among(order, upto - 1, before[i]));
                let k = choose|k: int| 0 <= k < upto - 1 && #[trigger] order[k] == before[i];
                assert(order[k] == picked[i]);
            } else {
                assert(order[upto - 1] == picked[i]);
            }
        }
        assert forall|i: int, j: int| 0 <= i < j < picked.len() implies picked[i] != picked[j] by {
            assert(picked[i] == before[i]);
            if j < before.len() {
                assert(picked[j] == before[j]);
            } else {
                assert(is_among(order, upto - 1, before[i]));
                let k = choose|k: int| 0 <= k < upto - 1 && #[trigger] order[k] == before[i];
                assert(order[k] != order[upto - 1]);
                assert(picked[j] == order[upto - 1]);
            }
        }
    }
}

impl<'a, W: World> TieredWorld<'a, W> {
    /// The processes: asked by the fast tier, remembered by the others.
    pub fn process_snapshot(&mut self) -> (answer: Result<ProcessSnapshot, WorldError>)
        ensures
            final(self).same_setting(*old(self)),
            final(self).gathered == (Gathered {
                snapshot: final(self).gathered.snapshot,
                ..old(self).gathered
            }),
            old(self).live != Tier::Fast ==> *final(self) == *old(self) && remembers_processes(
                answer,
                *old(self).observed,
            ),
            old(self).live == Tier::Fast ==> final(self).asked_since(
                *old(self),
                seq![Exchange::Processes(answer)],
            ),
            old(self).live == Tier::Fast ==> match old(self).gathered.snapshot {
                Some(first) => final(self).gathered.snapshot == Some(first),
                None => final(self).gathered.snapshot matches Some(kept) && same_processes(
                    kept,
                    answer,
                ),
            },
    {
        if self.live == Tier::Fast {
            let answer: Result<ProcessSnapshot, WorldError> = self.delegate.process_snapshot();
            if self.gathered.snapshot.is_none() {
                self.gathered.snapshot = Some(processes_again(&answer));
            }
            return answer;
        }
        match &self.observed.fast {
            Some(fast) => processes_again(&fast.facts.snapshot),
            None => Err(WorldError::ProcessEnumeration(not_yet(Tier::Fast, "the process table"))),
        }
    }

    /// What a process has used: asked by the fast tier, remembered by the others.
    pub fn resources(&mut self, pid: i32) -> (answer: Result<Resources, ResourcesUnavailable>)
        ensures
            final(self).same_setting(*old(self)),
            final(self).gathered == (Gathered {
                resources: final(self).gathered.resources,
                ..old(self).gathered
            }),
            old(self).live != Tier::Fast ==> *final(self) == *old(self) && remembers_ledger(
                answer,
                *old(self).observed,
                pid,
            ),
            old(self).live == Tier::Fast ==> final(self).asked_since(
                *old(self),
                seq![Exchange::Ledger(pid, answer)],
            ),
            old(self).live == Tier::Fast ==> final(self).gathered.resources@
                == old(self).gathered.resources@.insert(pid, answer),
    {
        if self.live == Tier::Fast {
            let answer: Result<Resources, ResourcesUnavailable> = self.delegate.resources(pid);
            self.gathered.resources.insert(pid, ledger_again(&answer));
            return answer;
        }
        if let Some(fast) = &self.observed.fast {
            if let Some(read) = fast.facts.resources.get(&pid) {
                return ledger_again(read);
            }
        }
        let what: String = String::from_str("pid ").concat(
            text::signed_decimal_of(pid as i64).as_str(),
        ).concat("'s resource ledger");
        Err(ResourcesUnavailable::AllReadersFailed(not_yet(Tier::Fast, what.as_str())))
    }

    /// The CLI whose transcripts are filed by directory: asked by every tier.
    pub fn filing_cli(&mut self) -> (answer: String)
        ensures
            final(self).same_setting(*old(self)),
            final(self).gathered == old(self).gathered,
            final(self).asked_since(*old(self), seq![Exchange::FilingCli(answer)]),
    {
        self.delegate.filing_cli()
    }

    /// The recorded names: asked by the fast tier, remembered by the others.
    pub fn recorded_namespaces(&mut self) -> (answer: Result<Vec<String>, WorldError>)
        ensures
            final(self).same_setting(*old(self)),
            final(self).gathered == (Gathered {
                namespaces: final(self).gathered.namespaces,
                ..old(self).gathered
            }),
            old(self).live != Tier::Fast ==> *final(self) == *old(self) && remembers_names(
                answer,
                *old(self).observed,
            ),
            old(self).live == Tier::Fast ==> final(self).asked_since(
                *old(self),
                seq![Exchange::Names(answer)],
            ),
            old(self).live == Tier::Fast ==> match old(self).gathered.namespaces {
                Some(first) => final(self).gathered.namespaces == Some(first),
                None => final(self).gathered.namespaces matches Some(kept) && same_list(
                    kept,
                    answer,
                ),
            },
    {
        if self.live == Tier::Fast {
            let answer: Result<Vec<String>, WorldError> = self.delegate.recorded_namespaces();
            if self.gathered.namespaces.is_none() {
                self.gathered.namespaces = Some(names_again(&answer));
            }
            return answer;
        }
        match &self.observed.fast {
            Some(fast) => names_again(&fast.facts.namespaces),
            None => Err(
                WorldError::NamespaceListing(not_yet(Tier::Fast, "the transcript stores")),
            ),
        }
    }

    /// When a transcript changed: asked by the medium tier, remembered by the others.
    pub fn namespace_activity(&mut self, namespace: &str) -> (answer: Result<
        SystemTime,
        ActivityUnavailable,
    >)
        ensures
            final(self).same_setting(*old(self)),
            final(self).gathered == (Gathered {
                activity: final(self).gathered.activity,
                ..old(self).gathered
            }),
            old(self).live != Tier::Medium ==> *final(self) == *old(self) && remembers_activity(
                answer,
                *old(self).observed,
                namespace@,
            ),
            old(self).live == Tier::Medium ==> final(self).asked_since(
                *old(self),
                seq![Exchange::Activity(namespace@, answer)],
            ),
            old(self).live == Tier::Medium ==> final(self).gathered.activity@
                == old(self).gathered.activity@.insert(namespace@, answer),
    {
        if self.live == Tier::Medium {
            let answer: Result<SystemTime, ActivityUnavailable> = self.delegate.namespace_activity(
                namespace,
            );
            self.gathered.activity.insert(String::from_str(namespace), activity_again(&answer));
            return answer;
        }
        if let Some(medium) = &self.observed.medium {
            if let Some(read) = medium.facts.activity.get(&String::from_str(namespace)) {
                return activity_again(read);
            }
        }
        let what: String = String::from_str("namespace ").concat(namespace);
        Err(ActivityUnavailable::Unreadable(not_yet(Tier::Medium, what.as_str())))
    }

    /// The directory behind a name: asked by the medium tier, remembered by the others.
    pub fn resolve_namespace(&mut self, namespace: &str) -> (answer: NamespaceResolution)
        ensures
            final(self).same_setting(*old(self)),
            final(self).gathered == (Gathered {
                resolutions: final(self).gathered.resolutions,
                ..old(self).gathered
            }),
            old(self).live != Tier::Medium ==> *final(self) == *old(self) && remembers_resolution(
                answer,
                *old(self).observed,
                namespace@,
            ),
            old(self).live == Tier::Medium ==> final(self).asked_since(
                *old(self),
                seq![Exchange::Resolution(namespace@, answer)],
            ),
            old(self).live == Tier::Medium ==> exists|kept: NamespaceResolution|
                #[trigger] kept.agrees(answer) && final(self).gathered.resolutions@
                    == old(self).gathered.resolutions@.insert(namespace@, kept),
    {
        if self.live == Tier::Medium {
            let answer: NamespaceResolution = self.delegate.resolve_namespace(namespace);
            let kept: NamespaceResolution = answer.again();
            self.gathered.resolutions.insert(String::from_str(namespace), kept);
            assert(kept.agrees(answer));
            return answer;
        }
        if let Some(medium) = &self.observed.medium {
            if let Some(resolved) = medium.facts.resolutions.get(&String::from_str(namespace)) {
                return resolved.again();
            }
        }
        NamespaceResolution::SearchExhausted
    }

    /// The repositories there are: asked by the medium tier, remembered by the others.
    pub fn sweep_for_repositories(&mut self, roots: &Vec<String>) -> (answer: Sweep)
        ensures
            final(self).same_setting(*old(self)),
            final(self).gathered == (Gathered {
                sweep: final(self).gathered.sweep,
                ..old(self).gathered
            }),
            old(self).live != Tier::Medium ==> *final(self) == *old(self) && remembers_sweep(
                answer,
                *old(self).observed,
            ),
            old(self).live == Tier::Medium ==> final(self).asked_since(
                *old(self),
                seq![Exchange::Swept(roots@, answer)],
            ),
            old(self).live == Tier::Medium ==> match old(self).gathered.sweep {
                Some(first) => final(self).gathered.sweep == Some(first),
                None => final(self).gathered.sweep matches Some(kept) && kept.0@ == roots@
                    && kept.1.finds(answer),
            },
    {
        if self.live == Tier::Medium {
            let answer: Sweep = self.delegate.sweep_for_repositories(roots);
            if self.gathered.sweep.is_none() {
                self.gathered.sweep = Some((text::copies(roots), answer.again()));
            }
            return answer;
        }
        if let Some(medium) = &self.observed.medium {
            if let Some(swept) = &medium.facts.sweep {
                return swept.1.again();
            }
        }
        Sweep { repositories: Vec::new(), complete: false, directories_visited: 0 }
    }

    /// Codex's index: asked by the slow tier, remembered by the others.
    pub fn codex_sessions(&mut self) -> (answer: Result<Vec<CodexSession>, WorldError>)
        ensures
            final(self).same_setting(*old(self)),
            final(self).gathered == (Gathered {
                codex: final(self).gathered.codex,
                ..old(self).gathered
            }),
            old(self).live != Tier::Slow ==> *final(self) == *old(self) && remembers_codex(
                answer,
                *old(self).observed,
            ),
            old(self).live == Tier::Slow ==> final(self).asked_since(
                *old(self),
                seq![Exchange::Codex(answer)],
            ),
            old(self).live == Tier::Slow ==> match old(self).gathered.codex {
                Some(first) => final(self).gathered.codex == Some(first),
                None => final(self).gathered.codex matches Some(kept) && same_list(kept, answer),
            },
    {
        if self.live == Tier::Slow {
            let answer: Result<Vec<CodexSession>, WorldError> = self.delegate.codex_sessions();
            if self.gathered.codex.is_none() {
                self.gathered.codex = Some(codex_again(&answer));
            }
            return answer;
        }
        if let Some(slow) = &self.observed.slow {
            if let Some(read) = &slow.facts.codex {
                return codex_again(read);
            }
        }
        Err(WorldError::CodexIndex(not_yet(Tier::Slow, "the Codex session index")))
    }

    /// What version control says: a slice of it asked by the slow tier, and the rest remembered.
    pub fn vcs_facts_batch(&mut self, paths: &Vec<String>) -> (answers: Vec<
        Result<VcsFacts, Unreadable>,
    >)
        ensures
            final(self).same_setting(*old(self)),
            final(self).gathered == (Gathered {
                vcs: final(self).gathered.vcs,
                coverage: final(self).gathered.coverage,
                ..old(self).gathered
            }),
            answers@.len() == paths@.len(),
            old(self).live != Tier::Slow ==> *final(self) == *old(self) && forall|i: int|
                0 <= i < paths@.len() ==> #[trigger] answers@[i] == answer_of(
                    carried(*old(self).observed, paths@[i]@),
                ),
            old(self).live == Tier::Slow ==> exists|part: Part|
                {
                    &&& #[trigger] is_slow_batch(
                        part,
                        *old(self).observed,
                        paths@,
                        old(self).slice,
                        old(self).now,
                        old(self).at,
                    )
                    &&& final(self).asked_since(*old(self), part.asked)
                    &&& are_known(answers@, part.reads)
                    &&& final(self).gathered.vcs@ == filed(
                        paths@,
                        part.reads,
                        old(self).gathered.vcs@,
                    )
                    &&& final(self).gathered.coverage == covered(paths@, part, old(self).slice)
                },
    {
        let mut answers: Vec<Result<VcsFacts, Unreadable>> = Vec::new();
        if self.live != Tier::Slow {
            let mut next: usize = 0;
            while next < paths.len()
                invariant
                    next <= paths@.len(),
                    answers@.len() == next,
                    forall|i: int|
                        0 <= i < next ==> #[trigger] answers@[i] == answer_of(
                            carried(*self.observed, paths@[i]@),
                        ),
                decreases paths@.len() - next,
            {
                answers.push(
                    match carried_reading(self.observed, paths[next].as_str()) {
                        Some(read) => read.facts,
                        None => Err(Unreadable::NotYetRead),
                    },
                );
                next += 1;
            }
            return answers;
        }
        let ghost begun = *self;
        let found: Vec<Option<Duration>> = self.ages_of(paths);
        let order: Vec<usize> = schedule::stalest_first(found.as_slice(), paths.len());
        let ghost ranks = schedule::staleness(ages(*begun.observed, paths@, begun.at));
        proof {
            let whole = choose|order: Seq<usize>| #[trigger]
                order::is_stable_order(schedule::staleness(found@), order);
            let full = choose|full: Seq<usize>|
                #![trigger order::is_stable_order(schedule::staleness(found@), full)]
                order::is_stable_order(schedule::staleness(found@), full) && order@ == full.take(
                    if paths@.len() < full.len() {
                        paths@.len() as int
                    } else {
                        full.len() as int
                    },
                );
            assert(full.take(full.len() as int) =~= full);
            assert(order@ == full);
            assert(order::is_stable_order(ranks, order@));
        }
        let (picked, Ghost(roots)) = self.choose_from(&order, paths);
        let ghost repository = roots.map_values(|root: Option<(String, bool)>| root is Some);
        proof {
            lemma_chosen_are_apart(order@, repository, begun.slice as int, paths@.len() as int);
        }
        let asked: Vec<String> = picked_paths(&picked, paths);
        let fresh: Vec<Result<VcsFacts, Unreadable>> = self.delegate.vcs_facts_batch(&asked);
        let ghost questions = roots_looked_up(order@, paths@, roots).push(
            Exchange::Facts(paths_picked(picked@, paths@), fresh@),
        );
        assert(asked@ =~= paths_picked(picked@, paths@));
        assert(self.delegate.log() =~= begun.delegate.log() + questions);
        assert(self.asked_since(begun, questions));
        let fresh_answers: Vec<Option<Result<VcsFacts, Unreadable>>> = placed(
            &picked,
            &fresh,
            paths.len(),
        );
        let ghost placed_answers = fresh_answers@;
        let ghost mut reads: Seq<Option<ReadVcs>> = Seq::empty();
        let ghost known = begun.gathered.vcs@;
        let count: usize = paths.len();
        let mut never_read: usize = 0;
        let mut next: usize = 0;
        assert(paths@.take(0) =~= Seq::empty());
        for taken in walk: fresh_answers
            invariant
                next == walk.index(),
                walk.seq() == placed_answers,
                count == paths@.len(),
                next <= count,
                self.same_setting(begun),
                self.asked_since(begun, questions),
                self.gathered == (Gathered { vcs: self.gathered.vcs, ..begun.gathered }),
                begun.live == Tier::Slow,
                placed_answers.len() == paths@.len(),
                forall|place: int|
                    0 <= place < picked@.len() ==> answered_at(
                        placed_answers,
                        #[trigger] picked@[place] as int,
                        fresh@,
                        place,
                        picked@.len(),
                    ),
                forall|i: int|
                    0 <= i < paths@.len() && (#[trigger] placed_answers[i]) is Some ==> exists|
                        place: int,
                    |
                        0 <= place < picked@.len() && #[trigger] picked@[place] == i,
                answers@.len() == next,
                reads.len() == next,
                never_read == unread(reads),
                never_read <= next,
                self.gathered.vcs@ == filed(paths@.take(next as int), reads, known),
                forall|i: int|
                    0 <= i < next ==> is_reading(
                        #[trigger] reads[i],
                        i,
                        picked@,
                        fresh@,
                        carried(*begun.observed, paths@[i]@),
                        begun.now,
                        begun.at,
                    ),
                forall|i: int| 0 <= i < next ==> #[trigger] answers@[i] == answer_of(reads[i]),
        {
            let ghost before = reads;
            let ghost answered = taken;
            let read: Option<ReadVcs> = match taken {
                Some(facts) => Some(ReadVcs { facts, observed_at: self.now, at: self.at }),
                None => carried_reading(self.observed, paths[next].as_str()),
            };
            proof {
                reads = reads.push(read);
                assert(reads.drop_last() =~= before);
                assert(paths@.take(next + 1).drop_last() =~= paths@.take(next as int));
                lemma_filed_of_prefix(paths@.take(next as int), before, reads, known);
                assert(answered == placed_answers[next as int]);
                if answered is Some {
                    let place = choose|place: int|
                        0 <= place < picked@.len() && #[trigger] picked@[place] == next as int;
                    assert(picked@[place] == next as int);
                    assert(is_fresh(answered->0, fresh@, place, picked@.len()));
                }
                assert(is_reading(
                    reads[next as int],
                    next as int,
                    picked@,
                    fresh@,
                    carried(*begun.observed, paths@[next as int]@),
                    begun.now,
                    begun.at,
                ));
            }
            match read {
                Some(read) => {
                    answers.push(facts_again(&read.facts));
                    self.gathered.vcs.insert(text::lowercase(paths[next].as_str()), read);
                },
                None => {
                    never_read += 1;
                    answers.push(Err(Unreadable::NotYetRead));
                },
            }
            next += 1;
        }
        assert(paths@.take(paths@.len() as int) =~= paths@);
        self.gathered.coverage = Coverage {
            total: paths.len(),
            read: picked.len(),
            never_read,
        };
        let ghost part = Part { asked: questions, order: order@, roots, fresh: fresh@, reads };
        assert(part.repository() =~= repository);
        assert(is_slow_batch(part, *begun.observed, paths@, begun.slice, begun.now, begun.at));
        answers
    }

    /// The repository a path lies in: asked by every tier.
    pub fn repository_root(&mut self, path: &str) -> (root: Option<(String, bool)>)
        ensures
            final(self).same_setting(*old(self)),
            final(self).gathered == old(self).gathered,
            final(self).asked_since(*old(self), seq![Exchange::Root(path@, root)]),
    {
        self.delegate.repository_root(path)
    }

    /// What earlier runs stored: asked by every tier.
    pub fn read_state(&mut self) -> (read: MemoryRead)
        ensures
            final(self).same_setting(*old(self)),
            final(self).gathered == old(self).gathered,
            final(self).asked_since(*old(self), seq![Exchange::Stored(read)]),
    {
        self.delegate.read_state()
    }

    /// What earlier runs announced: asked by every tier.
    pub fn read_notified(&mut self) -> (read: NotifiedRead)
        ensures
            final(self).same_setting(*old(self)),
            final(self).gathered == old(self).gathered,
            final(self).asked_since(*old(self), seq![Exchange::Recorded(read)]),
    {
        self.delegate.read_notified()
    }

    /// How agents are recognised: asked by every tier.
    pub fn read_detector_config(&mut self) -> (config: DetectorConfig)
        ensures
            final(self).same_setting(*old(self)),
            final(self).gathered == old(self).gathered,
            final(self).asked_since(*old(self), seq![Exchange::Detectors(config)]),
    {
        self.delegate.read_detector_config()
    }

    /// Where alerts go: asked by every tier.
    pub fn read_notify_config(&mut self) -> (config: NotifyConfig)
        ensures
            final(self).same_setting(*old(self)),
            final(self).gathered == old(self).gathered,
            final(self).asked_since(*old(self), seq![Exchange::Channels(config)]),
    {
        self.delegate.read_notify_config()
    }

    /// Hands alerts to a local command.
    pub fn notify_local_batch(&mut self, command: &str, payloads: &Vec<String>) -> (report:
        DeliveryReport)
        ensures
            final(self).same_setting(*old(self)),
            final(self).gathered == old(self).gathered,
            final(self).asked_since(
                *old(self),
                seq![Exchange::Local(command@, text::texts(payloads@), report)],
            ),
    {
        self.delegate.notify_local_batch(command, payloads)
    }

    /// Hands alerts to a remote service.
    pub fn notify_remote_batch(&mut self, url: &str, payloads: &Vec<String>) -> (report: DeliveryReport)
        ensures
            final(self).same_setting(*old(self)),
            final(self).gathered == old(self).gathered,
            final(self).asked_since(
                *old(self),
                seq![Exchange::Remote(url@, text::texts(payloads@), report)],
            ),
    {
        self.delegate.notify_remote_batch(url, payloads)
    }

    /// Stores what the next run need not announce again.
    pub fn write_notified(&mut self, file: &NotifiedFile) -> (written: Result<(), String>)
        ensures
            final(self).same_setting(*old(self)),
            final(self).gathered == old(self).gathered,
            final(self).asked_since(*old(self), seq![Exchange::Noted(*file, written)]),
    {
        self.delegate.write_notified(file)
    }

    /// Stores what the next run begins with.
    pub fn write_state(&mut self, file: &StateFile) -> (written: Result<(), String>)
        ensures
            final(self).same_setting(*old(self)),
            final(self).gathered == old(self).gathered,
            final(self).asked_since(*old(self), seq![Exchange::Wrote(*file, written)]),
    {
        self.delegate.write_state(file)
    }

    /// How loaded the machine is: asked by every tier.
    pub fn load_average(&mut self) -> (load: Result<LoadAverage, String>)
        ensures
            final(self).same_setting(*old(self)),
            final(self).gathered == old(self).gathered,
            final(self).asked_since(*old(self), seq![Exchange::Load(load)]),
    {
        self.delegate.load_average()
    }

    /// What the clock shows: asked by every tier.
    pub fn clock(&mut self) -> (shown: Duration)
        ensures
            final(self).same_setting(*old(self)),
            final(self).gathered == old(self).gathered,
            final(self).asked_since(*old(self), seq![Exchange::Clock(shown)]),
    {
        self.delegate.clock()
    }
}

impl<'a, W: World> TieredWorld<'a, W> {
    /// Puts an exchange on record, and how its answer was come by.
    fn record(&mut self, Ghost(exchange): Ghost<Exchange>, Ghost(part): Ghost<Part>)
        ensures
            *final(self) == (TieredWorld {
                told: final(self).told,
                parts: final(self).parts,
                ..*old(self)
            }),
            final(self).told@ == old(self).told@.push(exchange),
            final(self).parts@ == old(self).parts@.push(part),
            final(self).told@.drop_last() == old(self).told@,
            final(self).parts@.drop_last() == old(self).parts@,
    {
        self.told = Ghost(self.told@.push(exchange));
        self.parts = Ghost(self.parts@.push(part));
        assert(self.told@.drop_last() =~= old(self).told@);
        assert(self.parts@.drop_last() =~= old(self).parts@);
    }
}

impl<'a, W: World> World for TieredWorld<'a, W> {
    open spec fn log(&self) -> Log {
        self.told@
    }

    open spec fn grew_from(&self, begun: &TieredWorld<'a, W>) -> bool {
        self.continues(*begun)
    }

    fn process_snapshot(&mut self) -> (answer: Result<ProcessSnapshot, WorldError>) {
        let ghost before = *self;
        let answer: Result<ProcessSnapshot, WorldError> = TieredWorld::<'a, W>::process_snapshot(
            self,
        );
        let ghost exchange = Exchange::Processes(answer);
        let ghost part = if before.live == Tier::Fast {
            Part::of(seq![exchange])
        } else {
            Part::of(Seq::empty())
        };
        self.record(Ghost(exchange), Ghost(part));
        proof {
            before.lemma_continues(*self, exchange, part);
        }
        answer
    }

    fn read_state(&mut self) -> (answer: MemoryRead) {
        let ghost before = *self;
        let answer: MemoryRead = TieredWorld::<'a, W>::read_state(self);
        let ghost exchange = Exchange::Stored(answer);
        let ghost part = Part::of(seq![exchange]);
        self.record(Ghost(exchange), Ghost(part));
        proof {
            before.lemma_continues(*self, exchange, part);
        }
        answer
    }

    fn read_notified(&mut self) -> (answer: NotifiedRead) {
        let ghost before = *self;
        let answer: NotifiedRead = TieredWorld::<'a, W>::read_notified(self);
        let ghost exchange = Exchange::Recorded(answer);
        let ghost part = Part::of(seq![exchange]);
        self.record(Ghost(exchange), Ghost(part));
        proof {
            before.lemma_continues(*self, exchange, part);
        }
        answer
    }

    fn read_detector_config(&mut self) -> (answer: DetectorConfig) {
        let ghost before = *self;
        let answer: DetectorConfig = TieredWorld::<'a, W>::read_detector_config(self);
        let ghost exchange = Exchange::Detectors(answer);
        let ghost part = Part::of(seq![exchange]);
        self.record(Ghost(exchange), Ghost(part));
        proof {
            before.lemma_continues(*self, exchange, part);
        }
        answer
    }

    fn filing_cli(&mut self) -> (answer: String) {
        let ghost before = *self;
        let answer: String = TieredWorld::<'a, W>::filing_cli(self);
        let ghost exchange = Exchange::FilingCli(answer);
        let ghost part = Part::of(seq![exchange]);
        self.record(Ghost(exchange), Ghost(part));
        proof {
            before.lemma_continues(*self, exchange, part);
        }
        answer
    }

    fn recorded_namespaces(&mut self) -> (answer: Result<Vec<String>, WorldError>) {
        let ghost before = *self;
        let answer: Result<Vec<String>, WorldError> = TieredWorld::<'a, W>::recorded_namespaces(
            self,
        );
        let ghost exchange = Exchange::Names(answer);
        let ghost part = if before.live == Tier::Fast {
            Part::of(seq![exchange])
        } else {
            Part::of(Seq::empty())
        };
        self.record(Ghost(exchange), Ghost(part));
        proof {
            before.lemma_continues(*self, exchange, part);
        }
        answer
    }

    fn codex_sessions(&mut self) -> (answer: Result<Vec<CodexSession>, WorldError>) {
        let ghost before = *self;
        let answer: Result<Vec<CodexSession>, WorldError> = TieredWorld::<'a, W>::codex_sessions(
            self,
        );
        let ghost exchange = Exchange::Codex(answer);
        let ghost part = if before.live == Tier::Slow {
            Part::of(seq![exchange])
        } else {
            Part::of(Seq::empty())
        };
        self.record(Ghost(exchange), Ghost(part));
        proof {
            before.lemma_continues(*self, exchange, part);
        }
        answer
    }

    fn namespace_activity(&mut self, namespace: &str) -> (answer: Result<
        SystemTime,
        ActivityUnavailable,
    >) {
        let ghost before = *self;
        let answer: Result<SystemTime, ActivityUnavailable> = TieredWorld::<'a, W>::namespace_activity(
            self,
            namespace,
        );
        let ghost exchange = Exchange::Activity(namespace@, answer);
        let ghost part = if before.live == Tier::Medium {
            Part::of(seq![exchange])
        } else {
            Part::of(Seq::empty())
        };
        self.record(Ghost(exchange), Ghost(part));
        proof {
            before.lemma_continues(*self, exchange, part);
        }
        answer
    }

    fn resolve_namespace(&mut self, namespace: &str) -> (answer: NamespaceResolution) {
        let ghost before = *self;
        let answer: NamespaceResolution = TieredWorld::<'a, W>::resolve_namespace(self, namespace);
        let ghost exchange = Exchange::Resolution(namespace@, answer);
        let ghost part = if before.live == Tier::Medium {
            Part::of(seq![exchange])
        } else {
            Part::of(Seq::empty())
        };
        self.record(Ghost(exchange), Ghost(part));
        proof {
            before.lemma_continues(*self, exchange, part);
        }
        answer
    }

    fn resources(&mut self, pid: i32) -> (answer: Result<Resources, ResourcesUnavailable>) {
        let ghost before = *self;
        let answer: Result<Resources, ResourcesUnavailable> = TieredWorld::<'a, W>::resources(
            self,
            pid,
        );
        let ghost exchange = Exchange::Ledger(pid, answer);
        let ghost part = if before.live == Tier::Fast {
            Part::of(seq![exchange])
        } else {
            Part::of(Seq::empty())
        };
        self.record(Ghost(exchange), Ghost(part));
        proof {
            before.lemma_continues(*self, exchange, part);
        }
        answer
    }

    fn repository_root(&mut self, path: &str) -> (answer: Option<(String, bool)>) {
        let ghost before = *self;
        let answer: Option<(String, bool)> = TieredWorld::<'a, W>::repository_root(self, path);
        let ghost exchange = Exchange::Root(path@, answer);
        let ghost part = Part::of(seq![exchange]);
        self.record(Ghost(exchange), Ghost(part));
        proof {
            before.lemma_continues(*self, exchange, part);
        }
        answer
    }

    fn sweep_for_repositories(&mut self, roots: &Vec<String>) -> (answer: Sweep) {
        let ghost before = *self;
        let answer: Sweep = TieredWorld::<'a, W>::sweep_for_repositories(self, roots);
        let ghost exchange = Exchange::Swept(roots@, answer);
        let ghost part = if before.live == Tier::Medium {
            Part::of(seq![exchange])
        } else {
            Part::of(Seq::empty())
        };
        self.record(Ghost(exchange), Ghost(part));
        proof {
            before.lemma_continues(*self, exchange, part);
        }
        answer
    }

    fn vcs_facts_batch(&mut self, paths: &Vec<String>) -> (answer: Vec<Result<VcsFacts, Unreadable>>) {
        let ghost before = *self;
        let answer: Vec<Result<VcsFacts, Unreadable>> = TieredWorld::<'a, W>::vcs_facts_batch(
            self,
            paths,
        );
        let ghost exchange = Exchange::Facts(paths@, answer@);
        let ghost part = if before.live == Tier::Slow {
            choose|part: Part| {
                &&& #[trigger] is_slow_batch(
                    part,
                    *before.observed,
                    paths@,
                    before.slice,
                    before.now,
                    before.at,
                )
                &&& self.asked_since(before, part.asked)
                &&& are_known(answer@, part.reads)
                &&& self.gathered.vcs@ == filed(paths@, part.reads, before.gathered.vcs@)
                &&& self.gathered.coverage == covered(paths@, part, before.slice)
            }
        } else {
            Part::of(Seq::empty())
        };
        self.record(Ghost(exchange), Ghost(part));
        proof {
            before.lemma_continues(*self, exchange, part);
        }
        answer
    }

    fn read_notify_config(&mut self) -> (answer: NotifyConfig) {
        let ghost before = *self;
        let answer: NotifyConfig = TieredWorld::<'a, W>::read_notify_config(self);
        let ghost exchange = Exchange::Channels(answer);
        let ghost part = Part::of(seq![exchange]);
        self.record(Ghost(exchange), Ghost(part));
        proof {
            before.lemma_continues(*self, exchange, part);
        }
        answer
    }

    fn notify_local_batch(&mut self, command: &str, payloads: &Vec<String>) -> (answer: DeliveryReport) {
        let ghost before = *self;
        let answer: DeliveryReport = TieredWorld::<'a, W>::notify_local_batch(
            self,
            command,
            payloads,
        );
        let ghost exchange = Exchange::Local(command@, text::texts(payloads@), answer);
        let ghost part = Part::of(seq![exchange]);
        self.record(Ghost(exchange), Ghost(part));
        proof {
            before.lemma_continues(*self, exchange, part);
        }
        answer
    }

    fn notify_remote_batch(&mut self, url: &str, payloads: &Vec<String>) -> (answer: DeliveryReport) {
        let ghost before = *self;
        let answer: DeliveryReport = TieredWorld::<'a, W>::notify_remote_batch(self, url, payloads);
        let ghost exchange = Exchange::Remote(url@, text::texts(payloads@), answer);
        let ghost part = Part::of(seq![exchange]);
        self.record(Ghost(exchange), Ghost(part));
        proof {
            before.lemma_continues(*self, exchange, part);
        }
        answer
    }

    fn write_notified(&mut self, file: &NotifiedFile) -> (answer: Result<(), String>) {
        let ghost before = *self;
        let answer: Result<(), String> = TieredWorld::<'a, W>::write_notified(self, file);
        let ghost exchange = Exchange::Noted(*file, answer);
        let ghost part = Part::of(seq![exchange]);
        self.record(Ghost(exchange), Ghost(part));
        proof {
            before.lemma_continues(*self, exchange, part);
        }
        answer
    }

    fn write_state(&mut self, file: &StateFile) -> (answer: Result<(), String>) {
        let ghost before = *self;
        let answer: Result<(), String> = TieredWorld::<'a, W>::write_state(self, file);
        let ghost exchange = Exchange::Wrote(*file, answer);
        let ghost part = Part::of(seq![exchange]);
        self.record(Ghost(exchange), Ghost(part));
        proof {
            before.lemma_continues(*self, exchange, part);
        }
        answer
    }

    fn load_average(&mut self) -> (answer: Result<LoadAverage, String>) {
        let ghost before = *self;
        let answer: Result<LoadAverage, String> = TieredWorld::<'a, W>::load_average(self);
        let ghost exchange = Exchange::Load(answer);
        let ghost part = Part::of(seq![exchange]);
        self.record(Ghost(exchange), Ghost(part));
        proof {
            before.lemma_continues(*self, exchange, part);
        }
        answer
    }

    fn clock(&mut self) -> (answer: Duration) {
        let ghost before = *self;
        let answer: Duration = TieredWorld::<'a, W>::clock(self);
        let ghost exchange = Exchange::Clock(answer);
        let ghost part = Part::of(seq![exchange]);
        self.record(Ghost(exchange), Ghost(part));
        proof {
            before.lemma_continues(*self, exchange, part);
        }
        answer
    }
}

// --- What holds of every pass ------------------------------------------------------------------

/// Whether a pass of a tier may put this question to the machine.
pub open spec fn may_ask(live: Tier, exchange: Exchange) -> bool {
    if exchange is Facts {
        live == Tier::Slow
    } else {
        reads(live, exchange)
    }
}

/// A pass asks the machine only for what its tier reads, and for what every tier does: the processes, the
/// transcripts, the search and version control are each left alone by the tiers that do not read them.
pub proof fn law_a_pass_asks_only_for_its_own(
    told: Log,
    parts: Seq<Part>,
    observed: Observed,
    live: Tier,
    slice: usize,
    now: SystemTime,
    at: Duration,
    i: int,
)
    requires
        are_tiered(told, parts, observed, live, slice, now, at),
        0 <= i < asked_in(parts).len(),
    ensures
        may_ask(live, asked_in(parts)[i]),
    decreases told.len(),
{
    let before = asked_in(parts.drop_last());
    if i < before.len() {
        assert forall|j: int| 0 <= j < told.drop_last().len() implies is_tiered(
            #[trigger] told.drop_last()[j],
            parts.drop_last()[j],
            observed,
            live,
            slice,
            now,
            at,
        ) by {
            assert(told.drop_last()[j] == told[j]);
        }
        law_a_pass_asks_only_for_its_own(
            told.drop_last(),
            parts.drop_last(),
            observed,
            live,
            slice,
            now,
            at,
            i,
        );
    } else {
        assert(is_tiered(
            told[told.len() - 1],
            parts[told.len() - 1],
            observed,
            live,
            slice,
            now,
            at,
        ));
    }
}

/// A pass made for a display, as every pass is before all tiers have run, changes nothing on the machine:
/// it alerts nobody and stores nothing.
pub proof fn law_a_pass_for_a_display_is_read_only(
    snapshot: Result<Snapshot, CollectError>,
    told: Log,
    parts: Seq<Part>,
    thresholds: Thresholds,
    observed: Observed,
    live: Tier,
    slice: usize,
    now: SystemTime,
    at: Duration,
    i: int,
)
    requires
        collect::is_outcome(snapshot, told, now, thresholds, Role::Display),
        are_tiered(told, parts, observed, live, slice, now, at),
        0 <= i < asked_in(parts).len(),
    ensures
        !collect::changes_something(asked_in(parts)[i]),
{
    assert forall|j: int| 0 <= j < told.len() implies !collect::changes_something(
        #[trigger] told[j],
    ) by {
        collect::law_a_display_is_read_only(snapshot, told, now, thresholds, j);
    }
    lemma_only_what_is_told_changes(told, parts, observed, live, slice, now, at, i);
}

proof fn lemma_only_what_is_told_changes(
    told: Log,
    parts: Seq<Part>,
    observed: Observed,
    live: Tier,
    slice: usize,
    now: SystemTime,
    at: Duration,
    i: int,
)
    requires
        are_tiered(told, parts, observed, live, slice, now, at),
        forall|j: int| 0 <= j < told.len() ==> !collect::changes_something(#[trigger] told[j]),
        0 <= i < asked_in(parts).len(),
    ensures
        !collect::changes_something(asked_in(parts)[i]),
    decreases told.len(),
{
    let before = asked_in(parts.drop_last());
    if i < before.len() {
        assert forall|j: int| 0 <= j < told.drop_last().len() implies is_tiered(
            #[trigger] told.drop_last()[j],
            parts.drop_last()[j],
            observed,
            live,
            slice,
            now,
            at,
        ) by {
            assert(told.drop_last()[j] == told[j]);
        }
        lemma_only_what_is_told_changes(
            told.drop_last(),
            parts.drop_last(),
            observed,
            live,
            slice,
            now,
            at,
            i,
        );
    } else {
        let last = told[told.len() - 1];
        assert(is_tiered(last, parts[told.len() - 1], observed, live, slice, now, at));
        assert(!collect::changes_something(last));
    }
}

proof fn lemma_filed_of_prefix(
    paths: Seq<String>,
    reads: Seq<Option<ReadVcs>>,
    more: Seq<Option<ReadVcs>>,
    known: Map<Seq<char>, ReadVcs>,
)
    requires
        paths.len() <= reads.len() <= more.len(),
        forall|i: int| 0 <= i < reads.len() ==> reads[i] == more[i],
    ensures
        filed(paths, reads, known) == filed(paths, more, known),
    decreases paths.len(),
{
    if paths.len() > 0 {
        lemma_filed_of_prefix(paths.drop_last(), reads, more, known);
    }
}

fn picked_paths(picked: &Vec<usize>, paths: &Vec<String>) -> (asked: Vec<String>)
    requires
        forall|i: int| 0 <= i < picked@.len() ==> #[trigger] picked@[i] < paths@.len(),
    ensures
        asked@.len() == picked@.len(),
        forall|i: int|
            0 <= i < asked@.len() ==> #[trigger] asked@[i] == paths@[picked@[i] as int],
{
    let mut asked: Vec<String> = Vec::new();
    let mut next: usize = 0;
    while next < picked.len()
        invariant
            next <= picked@.len(),
            asked@.len() == next,
            forall|i: int| 0 <= i < picked@.len() ==> #[trigger] picked@[i] < paths@.len(),
            forall|i: int|
                0 <= i < asked@.len() ==> #[trigger] asked@[i] == paths@[picked@[i] as int],
        decreases picked@.len() - next,
    {
        asked.push(paths[picked[next]].clone());
        next += 1;
    }
    asked
}

} // verus!
