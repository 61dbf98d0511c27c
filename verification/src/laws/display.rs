//! What is shown: how old it is, whether the monitor that wrote it is there, and what costs most.

use crate::collect::Snapshot;
use crate::display;
use crate::display::{
    Absence, Ages, Command, CostRank, Facts, Key, Meters, Poll, Presence, PublishedReading, Screen,
    Stat, StateReading, TerminalEvent, TierAge, Unmetered, Writer,
};
use crate::isotime;
use crate::meter::Share;
use crate::order;
use crate::order::Ranked;
use crate::schedule::Cadence;
use crate::starts::Examined;
use crate::state::{Tier, TieredState};
use crate::text;
use crate::tiers::payload::{Published, PublishedMeters, SessionRow};
use crate::time::{Duration, SystemTime};
use vstd::prelude::*;

verus! {

// --- How old it is -----------------------------------------------------------------------------

/// An age is the time from a stamp to now, to the nanosecond, and is known exactly where the stamp is not
/// in the future.
pub proof fn law_an_age_is_the_time_since(now: SystemTime, past: SystemTime)
    ensures
        match display::age_since(now, past) {
            Ok(age) => past.nanos <= now.nanos && age.nanos == now.nanos - past.nanos,
            Err(why) => past.nanos > now.nanos && why == display::future_words(),
        },
{
}

/// What a tier published is stamped by the tier's own entry: the fast tier by the fast one, and so on; a tier
/// that published nothing has no stamp and no pass.
pub proof fn law_every_tier_is_aged_by_its_own_stamp(reading: PublishedReading)
    ensures
        display::stamp(reading, Tier::Fast) == Some(reading.fast_stamp),
        display::began(reading, Tier::Fast) == Some(reading.fast.pass.started_at@),
        reading.medium matches Some(medium) ==> display::stamp(reading, Tier::Medium) == Some(medium.1)
            && display::began(reading, Tier::Medium) == Some(medium.0.pass.started_at@),
        reading.slow matches Some(slow) ==> display::stamp(reading, Tier::Slow) == Some(slow.1)
            && display::began(reading, Tier::Slow) == Some(slow.0.pass.started_at@),
        reading.medium is None ==> display::stamp(reading, Tier::Medium) is None
            && display::began(reading, Tier::Medium) is None,
        reading.slow is None ==> display::stamp(reading, Tier::Slow) is None && display::began(
            reading,
            Tier::Slow,
        ) is None,
{
}

/// A tier is overdue from the nanosecond after two of its intervals have gone by since its last pass, and
/// not before.
pub proof fn law_a_tier_is_late_after_two_intervals(
    reading: PublishedReading,
    tier: Tier,
    now: SystemTime,
    interval: Duration,
    seconds: int,
)
    requires
        display::began(reading, tier) is Some,
        isotime::instant(display::began(reading, tier)->0) == Some(seconds),
        i64::MIN <= seconds <= i64::MAX,
        seconds * 1_000_000_000 <= now.nanos,
    ensures
        display::pass_age(reading, tier, now) matches Ok(age) && age.nanos == now.nanos - seconds
            * 1_000_000_000,
        display::lateness(reading, tier, now, interval) is Some <==> now.nanos - seconds
            * 1_000_000_000 > interval.nanos + interval.nanos,
{
}

/// A tier whose stamp is in the future, or cannot be read, is not overdue; one that published nothing is
/// overdue exactly if every tier has run.
pub proof fn law_only_a_known_age_or_a_missing_tier_is_late(
    reading: PublishedReading,
    tier: Tier,
    now: SystemTime,
    interval: Duration,
)
    ensures
        display::began(reading, tier) is Some && display::pass_age(reading, tier, now) is Err
            ==> display::lateness(reading, tier, now, interval) is None,
        display::began(reading, tier) is None ==> (display::lateness(reading, tier, now, interval)
            is Some <==> reading.fast.pass.every_tier_has_run),
{
}

/// The ages on a screen are those of the three tiers in their order, each judged by the interval it has at
/// the pace that the monitor published, or at the slower one where that word is not known.
pub proof fn law_what_is_aged(ages: Ages, reading: PublishedReading, now: SystemTime, i: int)
    requires
        display::are_ages(ages, reading, now),
        0 <= i < 3,
    ensures
        ages.now == now,
        ages.tiers@.len() == 3,
        ages.tiers@[i].tier == if i == 0 {
            Tier::Fast
        } else if i == 1 {
            Tier::Medium
        } else {
            Tier::Slow
        },
        ages.tiers@[i].interval == ages.cadence.every(ages.tiers@[i].tier),
        ages.cadence == if reading.fast.monitor.pace@ == "active"@ {
            Cadence::while_active()
        } else {
            Cadence::while_idle()
        },
        ages.pace_unknown <==> reading.fast.monitor.pace@ != "active"@
            && reading.fast.monitor.pace@ != "idle"@,
        ages.warming_up <==> !reading.fast.pass.every_tier_has_run,
        ages.tiers@[i].overdue is Some <==> display::lateness(
            reading,
            ages.tiers@[i].tier,
            now,
            ages.tiers@[i].interval,
        ) is Some,
        ages.tiers@[i].since_evidence matches Ok(age) ==> display::stamp(
            reading,
            ages.tiers@[i].tier,
        ) matches Some(at) && age.nanos == now.nanos - at.nanos,
{
    assert(display::is_tier_age(
        ages.tiers@[i],
        display::tier_at(i),
        reading,
        now,
        ages.cadence,
    ));
}

/// The greatest age is that of some tier, and no tier's evidence is older; there is none exactly if no tier
/// has an age.
pub proof fn law_nothing_is_older_than_the_oldest(tiers: Seq<TierAge>)
    ensures
        match display::greatest(tiers) {
            Some(most) => {
                &&& exists|i: int|
                    0 <= i < tiers.len() && (#[trigger] tiers[i]).since_evidence == Ok::<
                        Duration,
                        String,
                    >(most)
                &&& forall|i: int|
                    0 <= i < tiers.len() && (#[trigger] tiers[i]).since_evidence is Ok
                        ==> tiers[i].since_evidence->Ok_0.nanos <= most.nanos
            },
            None => forall|i: int|
                0 <= i < tiers.len() ==> (#[trigger] tiers[i]).since_evidence is Err,
        },
    decreases tiers.len(),
{
    if tiers.len() > 0 {
        let fewer = tiers.drop_last();
        law_nothing_is_older_than_the_oldest(fewer);
        assert forall|i: int| 0 <= i < tiers.len() implies (#[trigger] tiers[i]) == if i
            < fewer.len() {
            fewer[i]
        } else {
            tiers.last()
        } by {
        }
        if let Some(before) = display::greatest(fewer) {
            let i = choose|i: int|
                0 <= i < fewer.len() && (#[trigger] fewer[i]).since_evidence == Ok::<Duration, String>(
                    before,
                );
            assert(tiers[i].since_evidence == Ok::<Duration, String>(before));
        }
        assert(tiers[tiers.len() - 1] == tiers.last());
        assert forall|i: int| 0 <= i < fewer.len() implies tiers[i] == #[trigger] fewer[i] by {
        }
    }
}

/// The tiers that are late are those that are overdue, in their order, and no others.
pub proof fn law_the_late_are_the_overdue(one: Seq<TierAge>, other: Seq<TierAge>, single: TierAge)
    ensures
        display::late(one + other) == display::late(one) + display::late(other),
        display::late(seq![single]) == if single.overdue is Some {
            seq![single]
        } else {
            Seq::empty()
        },
    decreases other.len(),
{
    if other.len() == 0 {
        assert(one + other =~= one);
        assert(display::late(other) =~= Seq::<TierAge>::empty());
    } else {
        law_the_late_are_the_overdue(one, other.drop_last(), single);
        assert((one + other).drop_last() =~= one + other.drop_last());
    }
    assert(display::late(one + other) =~= display::late(one) + display::late(other));
    assert(seq![single].drop_last() =~= Seq::<TierAge>::empty());
    assert(display::late(seq![single].drop_last()) =~= Seq::<TierAge>::empty());
}

/// There is a late tier exactly if some tier is overdue.
pub proof fn law_one_overdue_tier_is_enough(tiers: Seq<TierAge>)
    ensures
        display::late(tiers).len() > 0 <==> exists|i: int|
            0 <= i < tiers.len() && (#[trigger] tiers[i]).overdue is Some,
    decreases tiers.len(),
{
    if tiers.len() > 0 {
        let fewer = tiers.drop_last();
        law_one_overdue_tier_is_enough(fewer);
        assert forall|i: int| 0 <= i < fewer.len() implies #[trigger] tiers[i] == fewer[i] by {
        }
        assert(tiers[tiers.len() - 1] == tiers.last());
        if display::late(fewer).len() > 0 {
            let i = choose|i: int|
                0 <= i < fewer.len() && (#[trigger] fewer[i]).overdue is Some;
            assert(tiers[i].overdue is Some);
        }
    }
}

// --- Whether the monitor is there --------------------------------------------------------------

/// A writer is alive exactly if its number is not zero and a process of that number is there.
pub proof fn law_the_writer_is_there_or_gone(pid: u32, there: bool)
    ensures
        Writer::judged(pid, there) == Writer::Alive <==> there && pid > 0,
        Writer::judged(pid, there) == Writer::Gone <==> !there || pid == 0,
{
}

/// A monitor is fresh exactly if its writer is alive and all three tiers that it published are in time, and
/// stale exactly if its writer is alive and one of them is overdue.
pub proof fn law_fresh_is_alive_and_in_time(
    presence: Presence,
    reading: StateReading,
    now: SystemTime,
    writer: Writer,
)
    requires
        display::is_presence(presence, reading, now, writer),
    ensures
        presence is Fresh || presence is Stale <==> reading is Published && writer
            == Writer::Alive,
        presence matches Presence::Fresh { writer_pid, ages } ==> {
            &&& writer_pid == reading->Published_0.writer_pid
            &&& ages.now == now
            &&& forall|i: int| 0 <= i < 3 ==> (#[trigger] ages.tiers@[i]).overdue is None
        },
        presence matches Presence::Stale { writer_pid, ages } ==> {
            &&& writer_pid == reading->Published_0.writer_pid
            &&& ages.now == now
            &&& exists|i: int| 0 <= i < 3 && (#[trigger] ages.tiers@[i]).overdue is Some
        },
{
    if let Presence::Fresh { writer_pid, ages } = presence {
        law_one_overdue_tier_is_enough(ages.tiers@);
    }
    if let Presence::Stale { writer_pid, ages } = presence {
        law_one_overdue_tier_is_enough(ages.tiers@);
    }
}

/// A monitor is dead exactly if it left a state file that can be read and its writer is gone; it is absent
/// exactly if there is no state file, if it cannot be believed, or if its writer lives and has published
/// nothing to draw.
pub proof fn law_dead_is_gone_and_absent_is_nothing_to_draw(
    presence: Presence,
    reading: StateReading,
    now: SystemTime,
    writer: Writer,
)
    requires
        display::is_presence(presence, reading, now, writer),
    ensures
        presence is Dead <==> writer == Writer::Gone && (reading is Published || reading
            is Unrenderable),
        presence is Absent <==> reading is Absent || reading is Unusable || reading is Unrenderable
            && writer == Writer::Alive,
        presence == Presence::Absent(Absence::NoStateFile) <==> reading is Absent,
        presence matches Presence::Absent(Absence::Unbelievable(why)) ==> reading
            == StateReading::Unusable(why),
        presence matches Presence::Absent(Absence::NothingPublished { writer_pid, why }) ==> reading
            == (StateReading::Unrenderable { writer_pid, why }),
        presence matches Presence::Dead { writer_pid, ages } ==> ages is Some == reading is Published
            && (reading matches StateReading::Published(published) ==> published.writer_pid
            == writer_pid) && (reading matches StateReading::Unrenderable { writer_pid: left, .. }
            ==> left == writer_pid),
{
}

/// A screen is trusted unless what it shows is a monitor's that is stale or dead.
pub proof fn law_the_stale_and_the_dead_are_not_trusted(presence: Presence)
    ensures
        !presence.is_current() <==> presence is Stale || presence is Dead,
        presence.aged() is None ==> presence is Dead || presence is Absent,
        presence is Absent ==> presence.aged() is None,
{
}

/// The four words for a monitor are four different words.
pub proof fn law_a_presence_is_told_by_its_word(one: Presence, other: Presence)
    ensures
        one.word() == other.word() ==> {
            &&& one is Fresh <==> other is Fresh
            &&& one is Stale <==> other is Stale
            &&& one is Dead <==> other is Dead
            &&& one is Absent <==> other is Absent
        },
        one is Dead <==> one.word() == "DEAD"@,
        one is Stale <==> one.word() == "STALE"@,
        one is Fresh <==> one.word() == "FRESH"@,
        one is Absent <==> one.word() == "ABSENT"@,
{
    reveal_strlit("FRESH");
    reveal_strlit("STALE");
    reveal_strlit("DEAD");
    reveal_strlit("ABSENT");
    assert("FRESH"@[0] == 'F' && "STALE"@[0] == 'S' && "DEAD"@[0] == 'D' && "ABSENT"@[0] == 'A');
}

/// A look at the state file calls for reading it again exactly if it was changed since the last look, or
/// was never looked at; and the next look is held against the last that gave something new.
pub proof fn law_only_a_change_is_read(
    poll: Poll,
    before: Option<Stat>,
    stat: Stat,
    after: Option<Stat>,
)
    requires
        display::is_poll(poll, before, stat, after),
    ensures
        poll is Reread <==> stat is At && before != Some(stat),
        before is None ==> !(poll is Unchanged),
        after is Some && after->0.is_same(stat),
        poll matches Poll::Unstattable(why) ==> stat == Stat::Failed(why),
        poll is Absent ==> stat is Absent,
        poll is Unchanged ==> after == before,
{
}

/// Two looks gave the same if and only if both found the file changed at one instant, both found none, or
/// both failed in the same words.
pub proof fn law_the_same_look(at: SystemTime, other: SystemTime, one: String, two: String)
    ensures
        Stat::At(at).is_same(Stat::At(other)) <==> at.nanos == other.nanos,
        Stat::Failed(one).is_same(Stat::Failed(two)) <==> one@ == two@,
        Stat::Absent.is_same(Stat::Absent),
        !Stat::At(at).is_same(Stat::Absent) && !Stat::Absent.is_same(Stat::At(at)),
        !Stat::At(at).is_same(Stat::Failed(one)) && !Stat::Failed(one).is_same(Stat::At(at)),
        !Stat::Absent.is_same(Stat::Failed(one)) && !Stat::Failed(one).is_same(Stat::Absent),
{
}

/// The display looks once a second.
pub proof fn law_a_look_every_second()
    ensures
        display::polls_every().nanos == 1_000 * 1_000_000,
{
}

// --- What was published ------------------------------------------------------------------------

/// What a tier last published is what is drawn of it, whatever the other tiers published after it; and
/// nothing is where it published nothing.
pub proof fn law_the_last_of_a_tier_is_drawn(
    entries: Seq<Option<(Published, SystemTime)>>,
    entry: Option<(Published, SystemTime)>,
)
    ensures
        entry matches Some((Published::Fast(payload), stamp)) ==> display::fast_among(
            entries.push(entry),
        ) == Some((payload, stamp)),
        entry matches Some((Published::Medium(payload), stamp)) ==> display::medium_among(
            entries.push(entry),
        ) == Some((payload, stamp)),
        entry matches Some((Published::Slow(payload), stamp)) ==> display::slow_among(
            entries.push(entry),
        ) == Some((payload, stamp)),
        entry is None || !((entry->0).0 is Fast) ==> display::fast_among(entries.push(entry))
            == display::fast_among(entries),
        entry is None || !((entry->0).0 is Medium) ==> display::medium_among(entries.push(entry))
            == display::medium_among(entries),
        entry is None || !((entry->0).0 is Slow) ==> display::slow_among(entries.push(entry))
            == display::slow_among(entries),
        display::fast_among(Seq::empty()) is None,
        display::medium_among(Seq::empty()) is None,
        display::slow_among(Seq::empty()) is None,
{
    assert(entries.push(entry).drop_last() =~= entries);
}

/// Nothing is drawn without the fast tier, and with it everything that was published is, under the writer
/// that published it.
pub proof fn law_without_the_fast_tier_nothing_is_drawn(
    reading: StateReading,
    state: TieredState,
    entries: Seq<Option<(Published, SystemTime)>>,
)
    requires
        display::is_drawn_from(reading, state, entries),
    ensures
        reading is Published || reading is Unrenderable,
        reading is Published <==> exists|i: int|
            0 <= i < entries.len() && (#[trigger] entries[i]) is Some && (entries[i]->0).0 is Fast,
        reading matches StateReading::Published(published) ==> published.writer_pid
            == state.written_by() && Some((published.fast, published.fast_stamp))
            == display::fast_among(entries) && published.medium == display::medium_among(entries)
            && published.slow == display::slow_among(entries),
        reading matches StateReading::Unrenderable { writer_pid, .. } ==> writer_pid
            == state.written_by(),
{
    lemma_fast_is_found(entries);
}

proof fn lemma_fast_is_found(entries: Seq<Option<(Published, SystemTime)>>)
    ensures
        display::fast_among(entries) is Some <==> exists|i: int|
            0 <= i < entries.len() && (#[trigger] entries[i]) is Some && (entries[i]->0).0 is Fast,
    decreases entries.len(),
{
    if entries.len() > 0 {
        let fewer = entries.drop_last();
        lemma_fast_is_found(fewer);
        assert forall|i: int| 0 <= i < fewer.len() implies #[trigger] entries[i] == fewer[i] by {
        }
        assert(entries[entries.len() - 1] == entries.last());
        if display::fast_among(fewer) is Some {
            let i = choose|i: int|
                0 <= i < fewer.len() && (#[trigger] fewer[i]) is Some && (fewer[i]->0).0 is Fast;
            assert(entries[i] is Some);
        }
    }
}

// --- What costs most ---------------------------------------------------------------------------

/// A published cost is in milliseconds; without a figure it is the reason that was published.
pub proof fn law_a_published_cost_is_in_milliseconds(row: SessionRow)
    ensures
        row.children_cpu_ms.value matches Some(millis) ==> (millis <= u64::MAX ==> (
        display::published_cost(row) matches Ok(span) && span.nanos == millis * 1_000_000)),
        row.children_cpu_ms.value is None ==> display::published_cost(row) is Err,
        row.children_cpu_ms.value is None && row.children_cpu_ms.unavailable is Some
            ==> display::published_cost(row) == Err::<Duration, Seq<char>>(
            row.children_cpu_ms.unavailable->0@,
        ),
{
}

/// A cost that is not known ranks before every one that is, and of two that are the greater ranks first.
pub proof fn law_the_unknown_and_the_great_rank_first(small: Duration, great: Duration, why: Seq<char>)
    requires
        small.nanos < great.nanos,
    ensures
        display::rank(Ok(great)).ranks_before(&display::rank(Ok(small))),
        !display::rank(Ok(small)).ranks_before(&display::rank(Ok(great))),
        !display::rank(Ok(small)).ranks_before(&display::rank(Ok(small))),
        display::rank(Err(why)).ranks_before(&display::rank(Ok(great))),
        !display::rank(Ok(great)).ranks_before(&display::rank(Err(why))),
        !display::rank(Err(why)).ranks_before(&display::rank(Err(why))),
{
}

/// As many are without a cost as there are costs that are not known.
pub proof fn law_the_costless_are_counted(one: Seq<CostRank>, other: Seq<CostRank>, single: CostRank)
    ensures
        display::costless(one + other) == display::costless(one) + display::costless(other),
        display::costless(seq![single]) == if single.measured is None {
            1nat
        } else {
            0nat
        },
    decreases other.len(),
{
    if other.len() == 0 {
        assert(one + other =~= one);
        assert(display::costless(other) == 0);
    } else {
        law_the_costless_are_counted(one, other.drop_last(), single);
        assert((one + other).drop_last() =~= one + other.drop_last());
    }
    assert(seq![single].drop_last() =~= Seq::<CostRank>::empty());
    assert(display::costless(seq![single].drop_last()) == 0);
}

/// A published session is listed behind every one without a figure and every one that costs more.
pub proof fn law_the_published_costliest_come_first(
    placed: Seq<&SessionRow>,
    rows: Seq<SessionRow>,
    i: int,
    j: int,
)
    requires
        display::in_order(placed, rows, display::published_ranks(rows)),
        0 <= i < j < placed.len(),
    ensures
        placed.len() == rows.len(),
        display::published_cost(*placed[i]) is Ok ==> display::published_cost(*placed[j]) is Ok
            && display::published_cost(*placed[i])->Ok_0.nanos >= display::published_cost(
            *placed[j],
        )->Ok_0.nanos,
{
    let ranks = display::published_ranks(rows);
    let order = choose|order: Seq<usize>|
        {
            &&& #[trigger] order::is_stable_order(ranks, order)
            &&& placed.len() == rows.len()
            &&& forall|i: int|
                0 <= i < placed.len() ==> *(#[trigger] placed[i]) == rows[order[i] as int]
        };
    assert(order::belongs_before(ranks, order[i] as int, order[j] as int));
    assert(ranks[order[i] as int] == display::rank(display::published_cost(*placed[i])));
    assert(ranks[order[j] as int] == display::rank(display::published_cost(*placed[j])));
}

// --- The screen --------------------------------------------------------------------------------

/// A look at the state file gives when it was changed, that it is not there, or what went wrong.
pub proof fn law_what_a_look_gives(stat: Stat, path: Seq<char>, examined: Examined)
    requires
        display::is_stat(stat, path, examined),
    ensures
        stat is Absent <==> examined is NotFound,
        stat matches Stat::At(at) ==> examined == Examined::Modified(at),
        examined is Modified ==> stat is At,
        stat is Failed <==> examined is WithoutTime || examined is Failed,
{
}

/// A display that collected for itself shows its own overhead, and of the duty cycle why there is none.
pub proof fn law_a_display_shows_its_own_overhead(
    meters: Meters,
    absence: Absence,
    overhead: Duration,
    taken_at: SystemTime,
)
    requires
        display::are_own_meters(meters, absence, overhead, taken_at),
    ensures
        meters.overhead == Ok::<Duration, Unmetered>(overhead),
        meters.taken_at == taken_at,
        meters.duty_cycle is Err,
        meters.duty_cycle->Err_0 == Unmetered::NoMonitor <==> absence is NoStateFile,
        meters.duty_cycle->Err_0 == Unmetered::NothingPublishedYet <==> absence is NothingPublished,
        meters.duty_cycle->Err_0 == Unmetered::Unreadable <==> absence is Unbelievable,
{
}

/// A monitor's figures are shown as it published them, and a missing one with the reason it published.
pub proof fn law_a_monitors_figures_are_shown_as_they_are(meters: Meters, published: PublishedMeters)
    requires
        display::are_published_meters(meters, published),
    ensures
        meters.taken_at == published.taken_at,
        published.overhead matches Ok(overhead) ==> meters.overhead == Ok::<Duration, Unmetered>(
            overhead,
        ),
        published.duty_cycle matches Ok(share) ==> meters.duty_cycle == Ok::<Share, Unmetered>(share),
        published.overhead matches Err(why) ==> meters.overhead == Err::<Duration, Unmetered>(
            Unmetered::Reported(why),
        ),
        published.duty_cycle matches Err(why) ==> meters.duty_cycle == Err::<Share, Unmetered>(
            Unmetered::Reported(why),
        ),
{
}

/// A display that collected for itself shows what it collected, or why it could not; it says how the monitor
/// is first, and last that it changed nothing.
pub proof fn law_what_a_display_of_its_own_shows(
    shown: Screen,
    presence: Presence,
    facts: Result<Snapshot, String>,
    overhead: Duration,
    taken_at: SystemTime,
)
    requires
        display::is_own_screen(shown, presence, facts, overhead, taken_at),
    ensures
        shown.presence == presence,
        facts matches Ok(snapshot) ==> shown.facts == Facts::Own(snapshot),
        facts matches Err(why) ==> shown.facts == Facts::Missing(why),
        shown.meters.overhead == Ok::<Duration, Unmetered>(overhead),
        shown.meters.taken_at == taken_at,
        text::texts(shown.notices@).len() == 2,
        text::begins_with(text::texts(shown.notices@)[0], presence.word()),
        text::texts(shown.notices@)[1] == display::read_only_notice(),
{
    let first = text::texts(shown.notices@)[0];
    let word = presence.word();
    assert(first.subrange(0, word.len() as int) =~= word);
}

/// A monitor's screen shows what it published, says how the monitor is first, and last that nothing was
/// changed.
pub proof fn law_what_a_monitors_screen_shows(
    shown: Screen,
    presence: Presence,
    reading: PublishedReading,
)
    requires
        display::is_monitors_screen(shown, presence, reading),
    ensures
        shown.presence == presence,
        shown.facts == Facts::Monitor(reading),
        shown.meters.taken_at == reading.meters.taken_at,
        reading.meters.overhead matches Ok(overhead) ==> shown.meters.overhead == Ok::<
            Duration,
            Unmetered,
        >(overhead),
        reading.meters.duty_cycle matches Ok(share) ==> shown.meters.duty_cycle == Ok::<
            Share,
            Unmetered,
        >(share),
        text::texts(shown.notices@).len() >= 2,
        text::texts(shown.notices@)[0] == display::monitor_words(presence, reading.writer_pid),
        text::texts(shown.notices@).last() == display::read_only_notice(),
        text::texts(shown.notices@).subrange(1, text::texts(shown.notices@).len() - 1)
            == display::pace_words(presence),
{
    let notices = text::texts(shown.notices@);
    assert(notices.subrange(1, notices.len() - 1) =~= display::pace_words(presence));
}

/// An unknown pace and a monitor that is warming up are each owned up to, and nothing else is.
pub proof fn law_an_unknown_pace_is_owned_up_to(presence: Presence)
    ensures
        presence.aged() is None ==> display::pace_words(presence).len() == 0,
        presence.aged() matches Some(ages) ==> display::pace_words(presence).len() == (
        if ages.pace_unknown {
            1int
        } else {
            0
        }) + (if ages.warming_up {
            1int
        } else {
            0
        }),
{
}

// --- Keys --------------------------------------------------------------------------------------

/// The display is left by `q`, `Q`, escape, and by control with `c` or `d`, as they go down; nothing else
/// leaves it, a change of size draws it again, and nothing else does.
pub proof fn law_which_keys_leave(letter: char, control: bool, pressed: bool, event: TerminalEvent)
    ensures
        display::asked_for(TerminalEvent::Key { key: Key::Character(letter), control, pressed })
            == Command::Quit <==> pressed && (letter == 'q' || letter == 'Q' || (control && (letter
            == 'c' || letter == 'd'))),
        display::asked_for(TerminalEvent::Key { key: Key::Escape, control, pressed })
            == Command::Quit <==> pressed,
        display::asked_for(TerminalEvent::Key { key: Key::Other, control, pressed })
            == Command::Ignore,
        display::asked_for(event) == Command::Redraw <==> event is Resized,
        display::asked_for(event) == Command::Quit ==> event is Key,
{
}

} // verus!
