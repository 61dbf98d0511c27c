//! The tiers: what a pass reads afresh, what it carries over, and what it publishes.

use crate::collect;
use crate::collect::{Answers, Exchange, Identity, Log, Role, Session, Snapshot, WorkspaceReport};
use crate::isotime;
use crate::liveness::Thresholds;
use crate::meter::{Measured, SelfReport, Share};
use crate::order;
use crate::schedule;
use crate::schedule::Budgets;
use crate::starts::Launch;
use crate::state::Tier;
use crate::text;
use crate::tiers;
use crate::tiers::machine;
use crate::tiers::machine::{Gathered, Part};
use crate::tiers::payload;
use crate::tiers::payload::{
    FastPayload, MediumPayload, NotifyRow, PassEnvelope, PublishedMeters, SessionRow, SlowPayload,
    WorkspaceRow,
};
use crate::tiers::{Course, MediumFacts, Observed, Pass, ReadVcs, SlowFacts, Stamped, TierFacts};
use crate::time::{Duration, SystemTime};
use crate::vcs::{Unreadable, VcsFacts, WorkspaceState};
use crate::world::{
    ActivityUnavailable, NamespaceResolution, Resources, ResourcesUnavailable, Unmeasured,
};
use vstd::prelude::*;

verus! {

// --- What a tier reads itself ------------------------------------------------------------------

/// The fast tier reads the processes, what they cost and the recorded names; the medium tier when transcripts
/// changed, where names lead, and the repositories there are; the slow tier Codex's index. Each leaves what
/// the others read to them.
pub proof fn law_every_question_has_its_tier(live: Tier, exchange: Exchange)
    ensures
        exchange is Processes || exchange is Ledger || exchange is Names ==> (machine::reads(
            live,
            exchange,
        ) <==> live == Tier::Fast),
        exchange is Activity || exchange is Resolution || exchange is Swept ==> (machine::reads(
            live,
            exchange,
        ) <==> live == Tier::Medium),
        exchange is Codex ==> (machine::reads(live, exchange) <==> live == Tier::Slow),
        exchange is Root || exchange is Stored || exchange is Local || exchange is Remote
            || exchange is Wrote || exchange is Clock || exchange is Load ==> machine::reads(
            live,
            exchange,
        ),
        exchange is Facts ==> (machine::may_ask(live, exchange) <==> live == Tier::Slow),
{
}

/// What version control says is new to the slow tier alone: to every other pass the answers are those that the
/// slow tier last read, whatever case a path is written in, and a workspace that it never read is not yet
/// read.
pub proof fn law_only_the_slow_tier_asks_version_control(
    paths: Seq<String>,
    answers: Seq<Result<VcsFacts, Unreadable>>,
    part: Part,
    observed: Observed,
    live: Tier,
    slice: usize,
    now: SystemTime,
    at: Duration,
    i: int,
)
    requires
        live != Tier::Slow,
        machine::is_tiered(Exchange::Facts(paths, answers), part, observed, live, slice, now, at),
        0 <= i < paths.len(),
    ensures
        part.asked.len() == 0,
        answers.len() == paths.len(),
        observed.slow is None ==> answers[i] == Err::<VcsFacts, Unreadable>(
            Unreadable::NotYetRead,
        ),
        observed.slow is Some ==> ({
            let known = observed.slow->0.facts.vcs@;
            let key = text::lowercased(paths[i]@);
            &&& known.contains_key(key) ==> answers[i] == known[key].facts
            &&& !known.contains_key(key) ==> answers[i] == Err::<VcsFacts, Unreadable>(
                Unreadable::NotYetRead,
            )
        }),
{
    assert(answers[i] == machine::answer_of(machine::carried(observed, paths[i]@)));
}

/// A question that a tier does not read is answered without asking the machine, and one that it reads is
/// asked of it once.
pub proof fn law_the_machine_is_asked_once_or_not_at_all(
    exchange: Exchange,
    part: Part,
    observed: Observed,
    live: Tier,
    slice: usize,
    now: SystemTime,
    at: Duration,
)
    requires
        machine::is_tiered(exchange, part, observed, live, slice, now, at),
        !(exchange is Facts),
    ensures
        machine::reads(live, exchange) ==> part.asked == seq![exchange],
        !machine::reads(live, exchange) ==> part.asked.len() == 0,
{
}

// --- Which workspaces a slow pass reads --------------------------------------------------------

/// Repositories are counted one by one.
pub proof fn law_repositories_are_counted(one: Seq<bool>, other: Seq<bool>, single: bool)
    ensures
        machine::repositories_among(one + other) == machine::repositories_among(one)
            + machine::repositories_among(other),
        machine::repositories_among(seq![single]) == if single {
            1int
        } else {
            0int
        },
    decreases other.len(),
{
    if other.len() == 0 {
        assert(one + other =~= one);
        assert(machine::repositories_among(other) == 0);
    } else {
        law_repositories_are_counted(one, other.drop_last(), single);
        assert((one + other).drop_last() =~= one + other.drop_last());
    }
    assert(seq![single].drop_last() =~= Seq::<bool>::empty());
    assert(machine::repositories_among(seq![single].drop_last()) == 0);
}

/// The workspaces that a pass reads are in the order they were taken in. The next one is read if it is no
/// repository, or if fewer repositories came before it than the slice allows; and only then.
pub proof fn law_the_first_of_the_repositories_are_read(
    order: Seq<usize>,
    repository: Seq<bool>,
    next: usize,
    is_repository: bool,
    slice: int,
)
    requires
        order.len() == repository.len(),
    ensures
        machine::chosen(order.push(next), repository.push(is_repository), slice)
            == machine::chosen(order, repository, slice) + if !is_repository
            || machine::repositories_among(repository) < slice {
            seq![next]
        } else {
            Seq::empty()
        },
        machine::chosen(Seq::empty(), repository, slice).len() == 0,
{
    let longer = repository.push(is_repository);
    assert(order.push(next).drop_last() =~= order);
    assert(longer.take(order.len() as int) =~= repository);
    lemma_chosen_reads_no_further(order, longer, repository, slice);
    assert(machine::chosen(order.push(next), longer, slice) =~= machine::chosen(
        order,
        repository,
        slice,
    ) + if !is_repository || machine::repositories_among(repository) < slice {
        seq![next]
    } else {
        Seq::empty()
    });
}

/// What is chosen of some workspaces depends on those alone.
proof fn lemma_chosen_reads_no_further(
    order: Seq<usize>,
    longer: Seq<bool>,
    repository: Seq<bool>,
    slice: int,
)
    requires
        order.len() <= repository.len() <= longer.len(),
        longer.take(repository.len() as int) == repository,
    ensures
        machine::chosen(order, longer, slice) == machine::chosen(order, repository, slice),
    decreases order.len(),
{
    if order.len() > 0 {
        lemma_chosen_reads_no_further(order.drop_last(), longer, repository, slice);
        let last = order.len() - 1;
        assert(longer[last] == longer.take(repository.len() as int)[last]);
        assert(longer.take(last) =~= repository.take(last));
    }
}

/// With room for all, all are read, in the order they were taken in.
pub proof fn law_a_wide_slice_reads_everything(order: Seq<usize>, repository: Seq<bool>, slice: int)
    requires
        order.len() == repository.len(),
        slice >= order.len(),
    ensures
        machine::chosen(order, repository, slice) == order,
{
    lemma_a_wide_slice_reads_everything(order, repository, slice);
}

proof fn lemma_a_wide_slice_reads_everything(order: Seq<usize>, repository: Seq<bool>, slice: int)
    requires
        order.len() <= repository.len(),
        slice >= order.len(),
    ensures
        machine::chosen(order, repository, slice) == order,
    decreases order.len(),
{
    if order.len() > 0 {
        lemma_a_wide_slice_reads_everything(order.drop_last(), repository, slice);
        let last = order.len() - 1;
        lemma_no_more_than_all(repository.take(last));
        assert(order =~= order.drop_last().push(order.last()));
    } else {
        assert(machine::chosen(order, repository, slice) =~= order);
    }
}

proof fn lemma_no_more_than_all(repository: Seq<bool>)
    ensures
        0 <= machine::repositories_among(repository) <= repository.len(),
    decreases repository.len(),
{
    if repository.len() > 0 {
        lemma_no_more_than_all(repository.drop_last());
    }
}

/// What a pass chose it knows as of now, from the batch's answer at the place it chose it; what it did not
/// choose it knows as it was remembered, with the time it was read.
pub proof fn law_only_what_was_chosen_is_new(
    read: Option<ReadVcs>,
    index: int,
    picked: Seq<usize>,
    fresh: Seq<Result<VcsFacts, Unreadable>>,
    remembered: Option<ReadVcs>,
    now: SystemTime,
    at: Duration,
    place: int,
)
    requires
        machine::is_reading(read, index, picked, fresh, remembered, now, at),
        forall|i: int, j: int| 0 <= i < j < picked.len() ==> picked[i] != picked[j],
    ensures
        0 <= place < picked.len() && picked[place] == index ==> {
            &&& read is Some
            &&& read->0.observed_at == now
            &&& read->0.at == at
            &&& place < fresh.len() ==> read->0.facts == fresh[place]
            &&& place >= fresh.len() ==> read->0.facts is Err && read->0.facts->Err_0
                is QueryFailed
        },
        (forall|i: int| 0 <= i < picked.len() ==> #[trigger] picked[i] != index) ==> read
            == remembered,
{
    if 0 <= place < picked.len() && picked[place] == index {
        assert(picked[place] == index);
    }
}

/// How long ago a workspace was read is the time on the clock since then.
pub proof fn law_a_reading_ages_with_the_clock(
    observed: Observed,
    paths: Seq<String>,
    at: Duration,
    i: int,
)
    requires
        0 <= i < paths.len(),
    ensures
        machine::ages(observed, paths, at).len() == paths.len(),
        machine::carried(observed, paths[i]@) is None ==> machine::ages(observed, paths, at)[i]
            is None,
        machine::carried(observed, paths[i]@) matches Some(read) ==> machine::ages(
            observed,
            paths,
            at,
        )[i] matches Some(age) && (read.at.nanos <= at.nanos ==> age.nanos + read.at.nanos
            == at.nanos),
{
}

/// What is known of a workspace once a pass is over is what the pass knows of it, filed by its path in lower
/// case; where the pass knows nothing of it, what was known before; and nothing else changes.
pub proof fn law_a_reading_is_filed_under_its_path(
    paths: Seq<String>,
    reads: Seq<Option<ReadVcs>>,
    known: Map<Seq<char>, ReadVcs>,
    path: String,
    read: Option<ReadVcs>,
    other: Seq<char>,
)
    requires
        paths.len() == reads.len(),
    ensures
        machine::filed(Seq::empty(), reads, known) == known,
        read matches Some(found) ==> machine::filed(paths.push(path), reads.push(read), known)
            == machine::filed(paths, reads, known).insert(text::lowercased(path@), found),
        read is None ==> machine::filed(paths.push(path), reads.push(read), known)
            == machine::filed(paths, reads, known),
{
    assert(paths.push(path).drop_last() =~= paths);
    lemma_filed_reads_no_further(paths, reads.push(read), reads, known);
}

proof fn lemma_filed_reads_no_further(
    paths: Seq<String>,
    longer: Seq<Option<ReadVcs>>,
    reads: Seq<Option<ReadVcs>>,
    known: Map<Seq<char>, ReadVcs>,
)
    requires
        paths.len() <= reads.len() <= longer.len(),
        longer.take(reads.len() as int) =~= reads,
    ensures
        machine::filed(paths, longer, known) == machine::filed(paths, reads, known),
    decreases paths.len(),
{
    if paths.len() > 0 {
        lemma_filed_reads_no_further(paths.drop_last(), longer, reads, known);
        assert(longer[paths.len() - 1] == longer.take(reads.len() as int)[paths.len() - 1]);
    }
}

/// The unread are counted one by one.
pub proof fn law_every_unread_workspace_counts_once(
    one: Seq<Option<ReadVcs>>,
    other: Seq<Option<ReadVcs>>,
    single: Option<ReadVcs>,
)
    ensures
        machine::unread(one + other) == machine::unread(one) + machine::unread(other),
        machine::unread(seq![single]) == if single is None {
            1nat
        } else {
            0nat
        },
    decreases other.len(),
{
    if other.len() == 0 {
        assert(one + other =~= one);
        assert(machine::unread(other) == 0);
    } else {
        law_every_unread_workspace_counts_once(one, other.drop_last(), single);
        assert((one + other).drop_last() =~= one + other.drop_last());
    }
    assert(seq![single].drop_last() =~= Seq::<Option<ReadVcs>>::empty());
    assert(machine::unread(seq![single].drop_last()) == 0);
}

/// The coverage is of what was asked about last: how many workspaces, how many of them were chosen, and how
/// many nobody has ever read.
pub proof fn law_what_is_covered(told: Log, parts: Seq<Part>, paths: Seq<String>, answers: Seq<
    Result<VcsFacts, Unreadable>,
>, part: Part, other: Exchange, slice: usize)
    requires
        told.len() == parts.len(),
        !(other is Facts),
        paths.len() <= usize::MAX,
        part.reads.len() <= usize::MAX,
        part.picked(slice).len() <= usize::MAX,
    ensures
        ({
            let coverage = machine::coverage_in(
                told.push(Exchange::Facts(paths, answers)),
                parts.push(part),
                slice,
            );
            &&& coverage.total == paths.len()
            &&& coverage.read == part.picked(slice).len()
            &&& coverage.never_read == machine::unread(part.reads)
        }),
        machine::coverage_in(told.push(other), parts.push(part), slice) == machine::coverage_in(
            told,
            parts,
            slice,
        ),
{
    assert(told.push(other).drop_last() =~= told);
    assert(parts.push(part).drop_last() =~= parts);
    lemma_unread_is_no_more_than_all(part.reads);
}

proof fn lemma_unread_is_no_more_than_all(reads: Seq<Option<ReadVcs>>)
    ensures
        machine::unread(reads) <= reads.len(),
    decreases reads.len(),
{
    if reads.len() > 0 {
        lemma_unread_is_no_more_than_all(reads.drop_last());
    }
}

// --- What a pass gathers -----------------------------------------------------------------------

/// Of what is read once, the first answer is kept, whatever is told later.
pub proof fn law_the_first_answer_is_kept(told: Log, later: Exchange)
    ensures
        machine::first_processes(told) is Some ==> machine::first_processes(told.push(later))
            == machine::first_processes(told),
        machine::first_names(told) is Some ==> machine::first_names(told.push(later))
            == machine::first_names(told),
        machine::first_codex(told) is Some ==> machine::first_codex(told.push(later))
            == machine::first_codex(told),
        machine::first_sweep(told) is Some ==> machine::first_sweep(told.push(later))
            == machine::first_sweep(told),
        machine::first_processes(told) is None ==> machine::first_processes(told.push(later))
            == match later {
            Exchange::Processes(answer) => Some(answer),
            _ => None,
        },
        machine::first_names(told) is None ==> machine::first_names(told.push(later)) == match later {
            Exchange::Names(answer) => Some(answer),
            _ => None,
        },
        machine::first_codex(told) is None ==> machine::first_codex(told.push(later)) == match later {
            Exchange::Codex(answer) => Some(answer),
            _ => None,
        },
        machine::first_sweep(told) is None ==> machine::first_sweep(told.push(later)) == match later {
            Exchange::Swept(roots, answer) => Some((roots, answer)),
            _ => None,
        },
{
    assert(told.push(later).drop_last() =~= told);
}

/// Of what is read by name, the last answer is kept, and an answer about one thing leaves every other as it
/// was.
pub proof fn law_the_last_answer_by_name_is_kept(told: Log, later: Exchange, pid: i32, name: Seq<char>)
    ensures
        later matches Exchange::Ledger(asked, answer) ==> {
            &&& machine::ledgers_in(told.push(later)).contains_key(asked)
            &&& machine::ledgers_in(told.push(later))[asked] == answer
            &&& pid != asked ==> (machine::ledgers_in(told.push(later)).contains_key(pid)
                <==> machine::ledgers_in(told).contains_key(pid)) && machine::ledgers_in(
                told.push(later),
            )[pid] == machine::ledgers_in(told)[pid]
        },
        later matches Exchange::Activity(asked, answer) ==> {
            &&& machine::activities_in(told.push(later)).contains_key(asked)
            &&& machine::activities_in(told.push(later))[asked] == answer
            &&& name != asked ==> (machine::activities_in(told.push(later)).contains_key(name)
                <==> machine::activities_in(told).contains_key(name)) && machine::activities_in(
                told.push(later),
            )[name] == machine::activities_in(told)[name]
        },
        later matches Exchange::Resolution(asked, answer) ==> {
            &&& machine::resolutions_in(told.push(later)).contains_key(asked)
            &&& machine::resolutions_in(told.push(later))[asked] == answer
            &&& name != asked ==> (machine::resolutions_in(told.push(later)).contains_key(name)
                <==> machine::resolutions_in(told).contains_key(name)) && machine::resolutions_in(
                told.push(later),
            )[name] == machine::resolutions_in(told)[name]
        },
        !(later is Ledger) ==> machine::ledgers_in(told.push(later)) == machine::ledgers_in(told),
        !(later is Activity) ==> machine::activities_in(told.push(later)) == machine::activities_in(
            told,
        ),
        !(later is Resolution) ==> machine::resolutions_in(told.push(later))
            == machine::resolutions_in(told),
{
    assert(told.push(later).drop_last() =~= told);
}

/// A tier's facts are what its pass gathered, each in its own place.
pub proof fn law_a_tiers_facts_are_what_it_gathered(
    facts: TierFacts,
    gathered: Gathered,
    tier: Tier,
    slice: usize,
)
    requires
        machine::are_facts(facts, gathered, tier, slice),
    ensures
        facts.of_tier() == tier,
        facts matches TierFacts::Fast(fast) ==> {
            &&& fast.resources == gathered.resources
            &&& gathered.snapshot matches Some(snapshot) ==> fast.snapshot == snapshot
            &&& gathered.snapshot is None ==> fast.snapshot is Err
            &&& gathered.namespaces matches Some(names) ==> fast.namespaces == names
            &&& gathered.namespaces is None ==> fast.namespaces is Err
        },
        facts matches TierFacts::Medium(medium) ==> medium.sweep == gathered.sweep
            && medium.activity == gathered.activity && medium.resolutions == gathered.resolutions,
        facts matches TierFacts::Slow(slow) ==> slow.codex == gathered.codex && slow.vcs
            == gathered.vcs && slow.coverage == gathered.coverage && slow.slice == slice,
{
}

/// A pass takes as long as the clock says between its beginning and its end; what it asked lies between; and
/// its facts are its tier's.
pub proof fn law_the_course_of_a_pass(
    course: Course,
    pass: Pass,
    facts: TierFacts,
    observed: Observed,
    thresholds: Thresholds,
    budgets: Budgets,
    before: Log,
    after: Log,
)
    requires
        tiers::is_course(course, pass, facts, observed, thresholds, budgets, before, after),
    ensures
        course.begun.nanos <= course.ended.nanos ==> course.begun.nanos + pass.took.nanos
            == course.ended.nanos,
        after.len() == before.len() + machine::asked_in(course.parts).len() + 3,
        after[before.len() as int] == Exchange::Load(pass.load),
        after[before.len() as int + 1] == Exchange::Clock(course.begun),
        after.last() == Exchange::Clock(course.ended),
        facts.of_tier() == pass.tier,
        course.told.len() == course.parts.len(),
        pass.snapshot matches Ok(snapshot) ==> snapshot.taken_at == pass.observed_at,
{
    if let Ok(snapshot) = pass.snapshot {
        let answers = choose|answers: Answers| #[trigger]
            collect::is_snapshot(
                snapshot,
                answers,
                pass.observed_at,
                thresholds,
                pass.role,
            ) && course.told == collect::conversation(snapshot, answers);
        assert(snapshot.taken_at == pass.observed_at);
    }
}

/// A slow pass takes workspaces in by how long ago they were read, those never read first, and asks version
/// control of the chosen ones alone, in one question at the end.
pub proof fn law_the_stalest_are_read_first(
    part: Part,
    observed: Observed,
    paths: Seq<String>,
    slice: usize,
    now: SystemTime,
    at: Duration,
    i: int,
    j: int,
)
    requires
        machine::is_slow_batch(part, observed, paths, slice, now, at),
        0 <= i < j < paths.len(),
    ensures
        part.order.len() == paths.len(),
        part.reads.len() == paths.len(),
        part.asked.len() == paths.len() + 1,
        part.asked.last() is Facts,
        part.asked.last()->Facts_0.len() == part.picked(slice).len(),
        machine::carried(observed, paths[part.order[i] as int]@) is Some ==> machine::carried(
            observed,
            paths[part.order[j] as int]@,
        ) is Some,
        machine::carried(observed, paths[part.order[i] as int]@) is Some && machine::carried(
            observed,
            paths[part.order[i] as int]@,
        )->0.at.nanos <= at.nanos && machine::carried(
            observed,
            paths[part.order[j] as int]@,
        )->0.at.nanos <= at.nanos ==> machine::carried(
            observed,
            paths[part.order[i] as int]@,
        )->0.at.nanos <= machine::carried(observed, paths[part.order[j] as int]@)->0.at.nanos,
{
    let ages = machine::ages(observed, paths, at);
    let keys = schedule::staleness(ages);
    assert(order::belongs_before(keys, part.order[i] as int, part.order[j] as int));
    assert(keys[part.order[i] as int] == schedule::Staleness { age: ages[part.order[i] as int] });
    assert(keys[part.order[j] as int] == schedule::Staleness { age: ages[part.order[j] as int] });
}

// --- What is carried over ----------------------------------------------------------------------

/// A pass leaves the tiers that it is not of as they were, and puts its own under its stamp.
pub proof fn law_a_pass_changes_its_own_tier_alone(
    after: Observed,
    before: Observed,
    pass: Pass,
    facts: TierFacts,
    sequence: u64,
    other: Tier,
)
    requires
        tiers::has_absorbed(after, before, pass, facts, sequence),
    ensures
        after.read_at(facts.of_tier()) == Some(pass.observed_at),
        other != facts.of_tier() ==> after.read_at(other) == before.read_at(other),
        !(facts is Fast) ==> after.fast == before.fast,
        !(facts is Medium) ==> after.medium == before.medium,
        !(facts is Slow) ==> after.slow == before.slow,
        facts matches TierFacts::Fast(read) ==> after.fast->0.facts == read && after.fast->0.sequence
            == sequence && after.fast->0.took == pass.took && after.fast->0.at == pass.at,
        facts is Medium ==> after.medium->0.sequence == sequence && after.medium->0.took == pass.took
            && after.medium->0.at == pass.at,
        facts is Slow ==> after.slow->0.sequence == sequence && after.slow->0.took == pass.took
            && after.slow->0.at == pass.at,
{
}

/// When a tier last read is when the last pass of it was made, by tier.
pub proof fn law_a_tier_was_read_when_its_pass_was(observed: Observed)
    ensures
        observed.fast matches Some(fast) ==> observed.read_at(Tier::Fast) == Some(fast.observed_at),
        observed.medium matches Some(medium) ==> observed.read_at(Tier::Medium) == Some(
            medium.observed_at,
        ),
        observed.slow matches Some(slow) ==> observed.read_at(Tier::Slow) == Some(slow.observed_at),
        observed.is_whole() <==> forall|tier: Tier| #[trigger] observed.read_at(tier) is Some,
{
    if forall|tier: Tier| #[trigger] observed.read_at(tier) is Some {
        assert(observed.read_at(Tier::Fast) is Some);
        assert(observed.read_at(Tier::Medium) is Some);
        assert(observed.read_at(Tier::Slow) is Some);
    }
}

/// Nothing is announced, and nothing stored, before every tier has read at least once.
pub proof fn law_the_first_round_only_looks(observed: Observed, role: Role)
    requires
        observed.acts_as(role),
    ensures
        role == Role::Monitor <==> observed.fast is Some && observed.medium is Some && observed.slow
            is Some,
        role != Role::Monitor ==> role == Role::Display,
{
}

/// What is kept of the medium tier is what its pass read, where it searched; where it did not, the last
/// search stays.
pub proof fn law_a_search_is_kept_until_the_next(
    facts: MediumFacts,
    previous: Stamped<MediumFacts>,
)
    ensures
        tiers::kept_medium(facts, None) == facts,
        facts.sweep is Some ==> tiers::kept_medium(facts, Some(previous)) == facts,
        facts.sweep is None ==> tiers::kept_medium(facts, Some(previous)).sweep
            == previous.facts.sweep,
        facts.sweep is None && facts.activity@.dom().len() > 0 ==> tiers::kept_medium(
            facts,
            Some(previous),
        ).activity == facts.activity,
        facts.sweep is None && facts.resolutions@.dom().len() > 0 ==> tiers::kept_medium(
            facts,
            Some(previous),
        ).resolutions == facts.resolutions,
{
    assert(Map::<Seq<char>, NamespaceResolution>::empty().dom() =~= Set::empty());
    assert(Map::<
        Seq<char>,
        Result<SystemTime, ActivityUnavailable>,
    >::empty().dom() =~= Set::empty());
}

/// What is kept of the slow tier is what its pass read; a pass that did not get to Codex's index keeps the
/// last reading of it.
pub proof fn law_the_index_is_kept_until_it_is_read_again(
    facts: SlowFacts,
    previous: Stamped<SlowFacts>,
)
    ensures
        tiers::kept_slow(facts, None) == facts,
        facts.codex is Some ==> tiers::kept_slow(facts, Some(previous)) == facts,
        facts.codex is None ==> tiers::kept_slow(facts, Some(previous)).codex
            == previous.facts.codex,
        facts.codex is None && facts.vcs@.dom().len() > 0 ==> tiers::kept_slow(
            facts,
            Some(previous),
        ).vcs == facts.vcs && tiers::kept_slow(facts, Some(previous)).slice == facts.slice,
{
    assert(Map::<Seq<char>, ReadVcs>::empty().dom() =~= Set::empty());
}

/// A slow pass reads at least one repository: as many as the last one left it to, and four where there was
/// none.
pub proof fn law_the_next_slice(observed: Observed)
    ensures
        observed.next_slice() >= 1,
        observed.slow matches Some(slow) ==> slow.facts.slice >= 1 ==> observed.next_slice()
            == slow.facts.slice,
        observed.slow is None ==> observed.next_slice() == 4,
{
}

// --- What is published -------------------------------------------------------------------------

/// Every pass is published with the tier it was of, its number, when it was made, what it took and what it
/// was allowed, in milliseconds, and whether it announced.
pub proof fn law_what_is_published_of_a_pass(
    envelope: PassEnvelope,
    pass: Pass,
    sequence: u64,
    observed: Observed,
)
    requires
        payload::is_envelope(envelope, pass, sequence, observed),
    ensures
        envelope.tier@ == match pass.tier {
            Tier::Fast => "fast"@,
            Tier::Medium => "medium"@,
            Tier::Slow => "slow"@,
        },
        envelope.sequence == sequence,
        isotime::is_stamp(envelope.started_at@, isotime::whole_seconds(pass.observed_at)),
        envelope.took_ms * 1_000_000 <= pass.took.nanos < (envelope.took_ms + 1) * 1_000_000,
        envelope.budget_ms * 1_000_000 <= Budgets::usual().allows(pass.tier).nanos < (
        envelope.budget_ms + 1) * 1_000_000,
        envelope.overran is Some <==> pass.completion.reason() is Some,
        envelope.load.value is Some <==> pass.load is Ok,
        envelope.every_tier_has_run <==> observed.fast is Some && observed.medium is Some
            && observed.slow is Some,
        envelope.announcing <==> pass.role == Role::Monitor,
{
}

/// The figures of a session are this run's where it has any; an earlier run's, with the time it took them,
/// where only that has; and otherwise none.
pub proof fn law_whose_figures_are_shown(session: Session)
    ensures
        session.resources matches Ok(own) ==> payload::ledger(session) == Ok::<Resources, Seq<char>>(
            own,
        ) && payload::taken_earlier(session) is None,
        session.resources is Err ==> (session.last_reading matches Some(reading)
            ==> payload::ledger(session) == Ok::<Resources, Seq<char>>(reading.resources)
            && payload::taken_earlier(session) == Some(reading.taken_at)),
        session.resources is Err && session.last_reading is None ==> payload::ledger(session) is Err
            && payload::taken_earlier(session) is None,
{
}

/// A row of a session has the session's own figures, each in its own column: times in whole milliseconds,
/// memory and what was written in bytes.
pub proof fn law_every_figure_is_in_its_own_column(row: SessionRow, session: Session, own: Resources)
    requires
        payload::is_session_row(row, session),
        session.resources == Ok::<Resources, ResourcesUnavailable>(own),
    ensures
        own.own_cpu matches Ok(span) ==> row.own_cpu_ms.value is Some
            && row.own_cpu_ms.value->0 == span.millis(),
        own.children_cpu matches Ok(span)
            ==> row.children_cpu_ms.value is Some && row.children_cpu_ms.value->0 == span.millis(),
        own.current_memory matches Ok(bytes) ==> row.current_memory_bytes.value == Some(bytes),
        own.peak_memory matches Ok(bytes) ==> row.peak_memory_bytes.value == Some(bytes),
        own.bytes_written matches Ok(bytes) ==> row.bytes_written.value == Some(bytes),
        own.own_cpu is Err <==> row.own_cpu_ms.value is None,
        own.children_cpu is Err <==> row.children_cpu_ms.value is None,
        own.current_memory is Err <==> row.current_memory_bytes.value is None,
        own.peak_memory is Err <==> row.peak_memory_bytes.value is None,
        own.bytes_written is Err <==> row.bytes_written.value is None,
        row.remembered_at is None,
{
    let figures = payload::ledger(session);
    let pick_own = |r: Resources| payload::in_millis(r.own_cpu);
    let pick_children = |r: Resources| payload::in_millis(r.children_cpu);
    let pick_current = |r: Resources| r.current_memory;
    let pick_peak = |r: Resources| r.peak_memory;
    let pick_bytes = |r: Resources| r.bytes_written;
    assert(row.own_cpu_ms.says(payload::figure(figures, pick_own)));
    assert(row.children_cpu_ms.says(payload::figure(figures, pick_children)));
    assert(row.current_memory_bytes.says(payload::figure(figures, pick_current)));
    assert(row.peak_memory_bytes.says(payload::figure(figures, pick_peak)));
    assert(row.bytes_written.says(payload::figure(figures, pick_bytes)));
}

/// A row says who the session is, what state it is in, and where it works: by pid or by recorded name, never
/// both.
pub proof fn law_a_row_names_its_session(row: SessionRow, session: Session)
    requires
        payload::is_session_row(row, session),
    ensures
        session.identity matches Identity::Process { pid } ==> row.pid == Some(pid)
            && row.recorded_as is None,
        session.identity matches Identity::Transcript { recorded_as } ==> row.pid is None
            && row.recorded_as == Some(recorded_as),
        row.cli == session.cli,
        row.state@ == session.liveness.state.word(),
        row.method@ == session.liveness.method.words(),
        session.workspace matches Ok(place) ==> row.workspace.value == Some(place.path),
        session.workspace is Err ==> row.workspace.value is None && row.workspace.unavailable
            is Some,
        row.unknown_why is Some <==> session.doubt() is Some,
        row.inferred ==> session.liveness.method is ProcessResidentButSilent
            || session.liveness.method is WorkRunningInWorkspace,
{
}

/// What came of announcing is what came of it on both channels together.
pub proof fn law_both_channels_are_added_up(row: NotifyRow, snapshot: Snapshot)
    requires
        payload::is_notify_row(row, snapshot),
    ensures
        ({
            let health = snapshot.remembered.notify_health;
            &&& row.delivered + row.failed + row.not_attempted == (health.local_delivered
                + health.local_failed + health.local_not_attempted) + (health.remote_delivered
                + health.remote_failed + health.remote_not_attempted)
            &&& row.delivered - health.remote_delivered == health.local_delivered
            &&& row.failed - health.local_failed == health.remote_failed
            &&& row.notable == health.notable
            &&& row.reason == health.not_attempted_reason
            &&& row.read_only == health.read_only
        }),
{
}

/// The fast tier publishes a row for every session, in their order; a collection that failed publishes none
/// and counts no alert.
pub proof fn law_what_the_fast_tier_publishes(
    published: FastPayload,
    pass: Pass,
    sequence: u64,
    observed: Observed,
    monitor: SelfReport,
    launch: Launch,
    i: int,
)
    requires
        payload::is_fast_payload(published, pass, sequence, observed, monitor, launch),
    ensures
        published.pass.sequence == sequence,
        published.monitor == monitor,
        published.launch == launch.record,
        published.launch_not_recorded == launch.not_recorded,
        published.silence_read_by@ == "medium"@,
        pass.snapshot matches Ok(snapshot) ==> published.sessions@.len() == snapshot.sessions@.len()
            && (0 <= i < snapshot.sessions@.len() ==> payload::is_session_row(
            published.sessions@[i],
            snapshot.sessions@[i],
        )) && published.notify.delivered == snapshot.remembered.notify_health.local_delivered
            + snapshot.remembered.notify_health.remote_delivered,
        pass.snapshot is Err ==> published.sessions@.len() == 0 && published.notify.notable == 0
            && published.notify.delivered == 0 && published.notify.failed == 0
            && published.notify.not_attempted == 0 && published.notify.reason is Some,
{
}

/// The medium tier publishes how far its last search got and every name that leads nowhere, in their order.
pub proof fn law_what_the_medium_tier_publishes(
    published: MediumPayload,
    pass: Pass,
    sequence: u64,
    observed: Observed,
    i: int,
)
    requires
        payload::is_medium_payload(published, pass, sequence, observed),
    ensures
        published.pass.sequence == sequence,
        observed.medium is None ==> published.directories_visited == 0
            && published.repositories_found == 0,
        observed.medium matches Some(medium) ==> (medium.facts.sweep matches Some(swept)
            ==> published.directories_visited == swept.1.directories_visited
            && published.repositories_found == swept.1.repositories@.len()),
        pass.snapshot matches Ok(snapshot) ==> published.sweep_complete == snapshot.sweep_complete
            && published.unlocated@.len() == snapshot.unlocated@.len() && (0 <= i
            < snapshot.unlocated@.len() ==> published.unlocated@[i].0 == snapshot.unlocated@[i].0
            && published.unlocated@[i].1@ == snapshot.unlocated@[i].1.words()),
        pass.snapshot is Err ==> !published.sweep_complete && published.unlocated@.len() == 0,
{
}

/// The slow tier publishes a row for every workspace, in their order, how many are at risk, how many it read
/// and has never read, and how many it reads next.
pub proof fn law_what_the_slow_tier_publishes(
    published: SlowPayload,
    pass: Pass,
    sequence: u64,
    observed: Observed,
    i: int,
)
    requires
        payload::is_slow_payload(published, pass, sequence, observed),
    ensures
        published.pass.sequence == sequence,
        pass.snapshot matches Ok(snapshot) ==> published.workspaces@.len()
            == snapshot.workspaces@.len() && published.at_risk == payload::risks(
            snapshot.workspaces@,
        ) && (0 <= i < snapshot.workspaces@.len() ==> payload::is_workspace_row(
            published.workspaces@[i],
            snapshot.workspaces@[i],
            observed,
        )),
        pass.snapshot is Err ==> published.workspaces@.len() == 0 && published.at_risk == 0,
        observed.slow matches Some(slow) ==> published.read_this_pass == slow.facts.coverage.read
            && published.never_read == slow.facts.coverage.never_read,
        published.next_slice >= 1,
        published.next_slice == observed.next_slice(),
{
}

/// A row of a workspace says where it is, what state it is in, whether work may be lost there, and when that
/// was read.
pub proof fn law_a_row_tells_of_its_workspace(
    row: WorkspaceRow,
    workspace: WorkspaceReport,
    observed: Observed,
)
    requires
        payload::is_workspace_row(row, workspace, observed),
    ensures
        row.path == workspace.path,
        row.state@ == workspace.state.word(),
        row.at_risk <==> workspace.state is DirtyStranded || (workspace.state
            matches WorkspaceState::Unknown(why) && (why is QueryFailed || why is TimedOut)),
        row.unknown_why is Some <==> workspace.state is Unknown,
        row.uncommitted_entries == workspace.uncommitted_entries,
        row.linked_worktree == workspace.linked_worktree,
        row.observed_at is Some <==> machine::carried(observed, workspace.path@) is Some,
        machine::carried(observed, workspace.path@) matches Some(read) ==> isotime::is_stamp(
            row.observed_at->0@,
            isotime::whole_seconds(read.observed_at),
        ),
{
}

/// Workspaces at risk are counted one by one.
pub proof fn law_every_risk_counts_once(
    one: Seq<WorkspaceReport>,
    other: Seq<WorkspaceReport>,
    single: WorkspaceReport,
)
    ensures
        payload::risks(one + other) == payload::risks(one) + payload::risks(other),
        payload::risks(seq![single]) == if single.state.risky() {
            1nat
        } else {
            0nat
        },
    decreases other.len(),
{
    if other.len() == 0 {
        assert(one + other =~= one);
        assert(payload::risks(other) == 0);
    } else {
        law_every_risk_counts_once(one, other.drop_last(), single);
        assert((one + other).drop_last() =~= one + other.drop_last());
    }
    assert(seq![single].drop_last() =~= Seq::<WorkspaceReport>::empty());
    assert(payload::risks(seq![single].drop_last()) == 0);
}

/// Sessions with a process are counted one by one.
pub proof fn law_every_live_session_counts_once(
    one: Seq<Session>,
    other: Seq<Session>,
    single: Session,
)
    ensures
        payload::running(one + other) == payload::running(one) + payload::running(other),
        payload::running(seq![single]) == if single.identity is Process {
            1nat
        } else {
            0nat
        },
    decreases other.len(),
{
    if other.len() == 0 {
        assert(one + other =~= one);
        assert(payload::running(other) == 0);
    } else {
        law_every_live_session_counts_once(one, other.drop_last(), single);
        assert((one + other).drop_last() =~= one + other.drop_last());
    }
    assert(seq![single].drop_last() =~= Seq::<Session>::empty());
    assert(payload::running(seq![single].drop_last()) == 0);
}

/// The stamp of readings is that of the oldest of them: it is one of theirs, and none is older.
pub proof fn law_the_oldest_reading_stamps_them_all(reads: Seq<ReadVcs>)
    ensures
        match payload::oldest(reads) {
            Some(stamp) => {
                &&& exists|i: int| 0 <= i < reads.len() && (#[trigger] reads[i]).observed_at == stamp
                &&& forall|i: int|
                    0 <= i < reads.len() ==> stamp.nanos <= (#[trigger] reads[i]).observed_at.nanos
            },
            None => reads.len() == 0,
        },
    decreases reads.len(),
{
    if reads.len() > 0 {
        let fewer = reads.drop_last();
        law_the_oldest_reading_stamps_them_all(fewer);
        assert forall|i: int| 0 <= i < fewer.len() implies #[trigger] reads[i] == fewer[i] by {
        }
        assert(reads[reads.len() - 1] == reads.last());
        if let Some(before) = payload::oldest(fewer) {
            let i = choose|i: int|
                0 <= i < fewer.len() && (#[trigger] fewer[i]).observed_at == before;
            assert(reads[i].observed_at == before);
        }
    }
}

/// The fast and the medium tier publish under the time of their pass, and so does the slow tier where it has
/// read nothing.
pub proof fn law_a_tier_publishes_under_its_pass(tier: Tier, observed_at: SystemTime, observed: Observed)
    ensures
        tier != Tier::Slow ==> payload::stamp_of(tier, observed_at, observed) == observed_at,
        observed.slow is None ==> payload::stamp_of(tier, observed_at, observed) == observed_at,
        observed.slow matches Some(slow) ==> slow.facts.vcs.values().len() == 0 ==> payload::stamp_of(
            tier,
            observed_at,
            observed,
        ) == observed_at,
        observed.slow matches Some(slow) ==> slow.facts.vcs.values().len() > 0 && tier == Tier::Slow
            ==> Some(payload::stamp_of(tier, observed_at, observed)) == payload::oldest(
            slow.facts.vcs.values(),
        ),
{
    if observed.slow is Some {
        law_the_oldest_reading_stamps_them_all(observed.slow->0.facts.vcs.values());
    }
}

/// What a monitor costs is what its first fast pass on record took, in milliseconds, and what each pass took
/// and how long ago it was is shown by tier.
pub proof fn law_what_a_monitor_costs(
    meters: PublishedMeters,
    published: FastPayload,
    stamp: SystemTime,
    at: int,
)
    requires
        payload::are_meters(meters, published, stamp),
        0 <= at < published.monitor.last_pass@.len(),
        published.monitor.last_pass@[at].took_ms <= u64::MAX,
        published.monitor.last_pass@[at].age_ms <= u64::MAX,
    ensures
        ({
            let passes = published.monitor.last_pass@;
            &&& meters.taken_at == stamp
            &&& meters.per_tier@.len() == passes.len()
            &&& meters.per_tier@[at].0 == passes[at].tier
            &&& meters.per_tier@[at].1.nanos == passes[at].took_ms * 1_000_000
            &&& meters.per_tier@[at].2.nanos == passes[at].age_ms * 1_000_000
            &&& (passes[at].tier@ == "fast"@ && forall|i: int|
                0 <= i < at ==> (#[trigger] passes[i]).tier@ != "fast"@) ==> (
            meters.overhead matches Ok(overhead) && overhead.nanos == passes[at].took_ms * 1_000_000)
            &&& published.monitor.duty_cycle.value matches Some(value) ==> meters.duty_cycle
                == Ok::<Share, String>(value)
            &&& published.monitor.duty_cycle.value is None ==> meters.duty_cycle is Err
        }),
{
    let passes = published.monitor.last_pass@;
    assert(meters.per_tier@[at] == (
        passes[at].tier,
        payload::from_millis(passes[at].took_ms),
        payload::from_millis(passes[at].age_ms),
    ));
    if passes[at].tier@ == "fast"@ && forall|i: int|
        0 <= i < at ==> (#[trigger] passes[i]).tier@ != "fast"@ {
        order::lemma_is_first(passes, payload::is_fast_pass(), at);
    }
}

/// A figure or a reason: what was measured is published as it was, and what was not with why.
pub proof fn law_a_figure_or_a_reason(span: Duration, why: Unmeasured, bytes: u64, measured: Measured<u64>)
    ensures
        payload::in_millis(Ok(span)) matches Ok(millis) && millis == span.millis(),
        payload::in_millis(Err(why)) == Err::<u128, Unmeasured>(why),
        measured.says(Ok(bytes)) ==> measured.value == Some(bytes) && measured.unavailable is None,
        measured.says(Err(why.words())) ==> measured.value is None && measured.unavailable->0@
            == why.words(),
        Measured::of(Ok::<u64, String>(bytes)).value == Some(bytes),
{
}

} // verus!
