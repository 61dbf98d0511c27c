//! What is carried over: what is remembered of workspaces and sessions, and what is forgotten.

use crate::collect::{Identity, Session};
use crate::memory;
use crate::memory::{
    Degraded, Forgotten, Memory, MemoryRead, RememberedSession, RememberedWorkspace, Sighting,
};
use crate::text;
use crate::time::{Duration, SystemTime};
use crate::vcs::{Unreadable, WorkspaceState};
use vstd::prelude::*;

verus! {

/// A workspace is settled exactly if nobody drives it and it is clean, under no version control, or gone.
pub proof fn law_what_is_settled(state: WorkspaceState, driven: bool)
    ensures
        Sighting::is_settled(state, driven) <==> !driven && (state is Clean || state
            == WorkspaceState::Unknown(Unreadable::NotVersionControlled) || state
            == WorkspaceState::Unknown(Unreadable::PathGone)),
{
}

/// A workspace that is seen is remembered under the path it was seen at, as seen now; first seen when it first
/// was; and settled since it first was in a row, which begins now where it was not settled before, or was not
/// known.
pub proof fn law_what_is_remembered_of_a_sighting(
    sighting: Sighting,
    known: Seq<RememberedWorkspace>,
    now: SystemTime,
    at: int,
)
    requires
        0 <= at < known.len(),
        text::same_but_case(known[at].path@, sighting.path@),
        forall|i: int|
            0 <= i < at ==> !text::same_but_case((#[trigger] known[i]).path@, sighting.path@),
    ensures
        memory::sighted(sighting, known, now) == (RememberedWorkspace {
            path: sighting.path,
            first_seen: known[at].first_seen,
            last_seen: now,
            settled_since: if !sighting.settled {
                None
            } else if known[at].settled_since is Some {
                known[at].settled_since
            } else {
                Some(now)
            },
        }),
{
    crate::order::lemma_is_first(known, memory::is_workspace(sighting.path@), at);
}

/// A workspace that was not known is first seen now, and settled from now on if it is.
pub proof fn law_what_is_remembered_of_a_discovery(
    sighting: Sighting,
    known: Seq<RememberedWorkspace>,
    now: SystemTime,
)
    requires
        forall|i: int|
            0 <= i < known.len() ==> !text::same_but_case(
                (#[trigger] known[i]).path@,
                sighting.path@,
            ),
    ensures
        memory::sighted(sighting, known, now) == (RememberedWorkspace {
            path: sighting.path,
            first_seen: now,
            last_seen: now,
            settled_since: if sighting.settled {
                Some(now)
            } else {
                None
            },
        }),
{
    crate::order::lemma_is_nowhere(known, memory::is_workspace(sighting.path@));
}

/// Every sighting is remembered, each in its place.
pub proof fn law_every_sighting_is_remembered(
    sightings: Seq<Sighting>,
    known: Seq<RememberedWorkspace>,
    now: SystemTime,
    at: int,
)
    requires
        0 <= at < sightings.len(),
    ensures
        memory::all_sighted(sightings, known, now).len() == sightings.len(),
        memory::all_sighted(sightings, known, now)[at].path == sightings[at].path,
        memory::all_sighted(sightings, known, now)[at].last_seen == now,
        memory::all_sighted(sightings, known, now)[at].settled_since is Some
            <==> sightings[at].settled,
{
}

/// What was seen comes first; and a workspace that was known and is not among it, nor stood further in front,
/// stays as it was.
pub proof fn law_what_was_not_seen_stays_as_it_was(
    seen: Seq<RememberedWorkspace>,
    known: Seq<RememberedWorkspace>,
    at: int,
)
    requires
        0 <= at < known.len(),
        forall|i: int|
            0 <= i < seen.len() ==> !text::same_but_case(
                (#[trigger] seen[i]).path@,
                known[at].path@,
            ),
        forall|i: int|
            0 <= i < at ==> !text::same_but_case((#[trigger] known[i]).path@, known[at].path@),
    ensures
        seen.is_prefix_of(memory::with_unseen(seen, known)),
        memory::with_unseen(seen, known).contains(known[at]),
    decreases known.len(),
{
    lemma_seen_comes_first(seen, known);
    let shorter = known.drop_last();
    let before = memory::with_unseen(seen, shorter);
    let all = memory::with_unseen(seen, known);
    if at < known.len() - 1 {
        assert forall|i: int| 0 <= i < at implies !text::same_but_case(
            (#[trigger] shorter[i]).path@,
            shorter[at].path@,
        ) by {
            assert(shorter[i] == known[i]);
        }
        law_what_was_not_seen_stays_as_it_was(seen, shorter, at);
        let k = choose|k: int| 0 <= k < before.len() && before[k] == known[at];
        assert(all[k] == known[at]);
    } else {
        assert forall|i: int| 0 <= i < before.len() implies !(memory::is_workspace(
            known[at].path@,
        ))(#[trigger] before[i]) by {
            lemma_from_seen_or_known(seen, shorter, i);
            if !(exists|k: int| 0 <= k < seen.len() && #[trigger] seen[k] == before[i]) {
                let k = choose|k: int| 0 <= k < shorter.len() && #[trigger] shorter[k] == before[i];
                assert(shorter[k] == known[k]);
            }
        }
        crate::order::lemma_is_nowhere(before, memory::is_workspace(known[at].path@));
        assert(all[before.len() as int] == known[at]);
    }
}

proof fn lemma_seen_comes_first(seen: Seq<RememberedWorkspace>, known: Seq<RememberedWorkspace>)
    ensures
        seen.is_prefix_of(memory::with_unseen(seen, known)),
    decreases known.len(),
{
    if known.len() > 0 {
        lemma_seen_comes_first(seen, known.drop_last());
        let before = memory::with_unseen(seen, known.drop_last());
        let all = memory::with_unseen(seen, known);
        assert(all.take(seen.len() as int) =~= before.take(seen.len() as int));
    }
}

proof fn lemma_from_seen_or_known(
    seen: Seq<RememberedWorkspace>,
    known: Seq<RememberedWorkspace>,
    at: int,
)
    requires
        0 <= at < memory::with_unseen(seen, known).len(),
    ensures
        (exists|k: int|
            0 <= k < seen.len() && #[trigger] seen[k] == memory::with_unseen(seen, known)[at]) || (
        exists|k: int|
            0 <= k < known.len() && #[trigger] known[k] == memory::with_unseen(seen, known)[at]),
    decreases known.len(),
{
    let all = memory::with_unseen(seen, known);
    if known.len() == 0 {
        assert(seen[at] == all[at]);
    } else {
        let shorter = known.drop_last();
        let before = memory::with_unseen(seen, shorter);
        if at < before.len() {
            lemma_from_seen_or_known(seen, shorter, at);
            if !(exists|k: int| 0 <= k < seen.len() && #[trigger] seen[k] == all[at]) {
                let k = choose|k: int| 0 <= k < shorter.len() && #[trigger] shorter[k] == before[at];
                assert(known[k] == all[at]);
            }
        } else {
            assert(known[known.len() - 1] == all[at]);
        }
    }
}

/// Nothing is remembered that was neither seen nor known.
pub proof fn law_nothing_is_made_up(
    seen: Seq<RememberedWorkspace>,
    known: Seq<RememberedWorkspace>,
    one: RememberedWorkspace,
)
    requires
        memory::with_unseen(seen, known).contains(one),
    ensures
        seen.contains(one) || known.contains(one),
{
    let all = memory::with_unseen(seen, known);
    let at = choose|at: int| 0 <= at < all.len() && all[at] == one;
    lemma_from_seen_or_known(seen, known, at);
}

// --- Sessions ----------------------------------------------------------------------------------

/// A session is named by its transcript where its process is gone, and by the name of its workspace where it
/// is there.
pub proof fn law_what_a_session_is_recorded_as(session: Session)
    ensures
        session.identity matches Identity::Transcript { recorded_as } ==> memory::recorded_name(
            session,
        ) == Some(recorded_as),
        session.identity is Process ==> (memory::recorded_name(session) matches Some(name)
            <==> session.workspace is Ok && session.workspace->Ok_0.namespace is Ok) && (
        memory::recorded_name(session) is Some ==> session.workspace->Ok_0.namespace
            == Ok::<String, crate::world::NamespaceUnmatched>(memory::recorded_name(session)->0)),
{
}

/// A reading that was taken is kept with the instant it was taken at; where none could be taken, the last one
/// is kept as it was, with its own instant, and none is where there never was one.
pub proof fn law_a_reading_keeps_its_instant(
    session: Session,
    name: String,
    known: Seq<RememberedSession>,
    now: SystemTime,
)
    ensures
        ({
            let after = memory::session_seen(session, name, known, now);
            &&& after.cli == session.cli
            &&& after.recorded_as == name
            &&& after.last_seen == now
            &&& session.resources is Ok ==> (after.last_reading matches Some(reading)
                && reading.taken_at == now && reading.resources == session.resources->Ok_0)
            &&& session.resources is Err && after.last_reading is Some ==> exists|i: int|
                {
                    &&& 0 <= i < known.len()
                    &&& (#[trigger] known[i]).cli@ == session.cli@
                    &&& known[i].recorded_as@ == name@
                    &&& known[i].last_reading == after.last_reading
                    &&& known[i].first_seen == after.first_seen
                }
            &&& (forall|i: int|
                0 <= i < known.len() ==> (#[trigger] known[i]).cli@ != session.cli@
                    || known[i].recorded_as@ != name@) ==> after.first_seen == now && (
            session.resources is Err ==> after.last_reading is None)
        }),
{
    let wanted = memory::is_session(session.cli@, name@);
    crate::order::lemma_first_where(known, wanted);
    if forall|i: int|
        0 <= i < known.len() ==> (#[trigger] known[i]).cli@ != session.cli@ || known[i].recorded_as@
            != name@ {
        crate::order::lemma_is_nowhere(known, wanted);
    }
}

/// A session that was known keeps the instant it was first seen at, and what was last read of it.
pub proof fn law_a_known_session_keeps_its_history(
    session: Session,
    name: String,
    known: Seq<RememberedSession>,
    now: SystemTime,
    at: int,
)
    requires
        0 <= at < known.len(),
        known[at].cli@ == session.cli@ && known[at].recorded_as@ == name@,
        forall|i: int|
            0 <= i < at ==> (#[trigger] known[i]).cli@ != session.cli@ || known[i].recorded_as@
                != name@,
    ensures
        memory::session_seen(session, name, known, now).first_seen == known[at].first_seen,
        session.resources is Err ==> memory::session_seen(session, name, known, now).last_reading
            == known[at].last_reading,
{
    crate::order::lemma_is_first(known, memory::is_session(session.cli@, name@), at);
}

/// What was read of a session is found by its CLI and its name, and nothing is found for another.
pub proof fn law_a_reading_is_found_by_its_session(
    remembered: Memory,
    cli: Seq<char>,
    name: Seq<char>,
    at: int,
)
    ensures
        0 <= at < remembered.sessions@.len() && remembered.sessions@[at].cli@ == cli
            && remembered.sessions@[at].recorded_as@ == name && (forall|i: int|
            0 <= i < at ==> (#[trigger] remembered.sessions@[i]).cli@ != cli
                || remembered.sessions@[i].recorded_as@ != name) ==> remembered.recalled(cli, name)
            == remembered.sessions@[at].last_reading,
        (forall|i: int|
            0 <= i < remembered.sessions@.len() ==> (#[trigger] remembered.sessions@[i]).cli@ != cli
                || remembered.sessions@[i].recorded_as@ != name) ==> remembered.recalled(cli, name)
            is None,
{
    let wanted = memory::is_session(cli, name);
    if 0 <= at < remembered.sessions@.len() && remembered.sessions@[at].cli@ == cli
        && remembered.sessions@[at].recorded_as@ == name && (forall|i: int|
        0 <= i < at ==> (#[trigger] remembered.sessions@[i]).cli@ != cli
            || remembered.sessions@[i].recorded_as@ != name) {
        crate::order::lemma_is_first(remembered.sessions@, wanted, at);
    }
    if forall|i: int|
        0 <= i < remembered.sessions@.len() ==> (#[trigger] remembered.sessions@[i]).cli@ != cli
            || remembered.sessions@[i].recorded_as@ != name {
        crate::order::lemma_is_nowhere(remembered.sessions@, wanted);
    }
}

/// Sessions are remembered one after the other, each that can be named once, and none that cannot be.
pub proof fn law_sessions_are_remembered_one_by_one(
    one: Seq<Session>,
    other: Seq<Session>,
    single: Session,
    known: Seq<RememberedSession>,
    now: SystemTime,
)
    ensures
        memory::sessions_seen(one + other, known, now)
            == memory::sessions_seen(one, known, now) + memory::sessions_seen(other, known, now),
        memory::sessions_seen(seq![single], known, now).len() == if memory::recorded_name(
            single,
        ) is Some {
            1nat
        } else {
            0nat
        },
        memory::recorded_name(single) matches Some(name) ==> memory::sessions_seen(
            seq![single],
            known,
            now,
        )[0] == memory::session_seen(single, name, known, now),
    decreases other.len(),
{
    if other.len() == 0 {
        assert(one + other =~= one);
        assert(memory::sessions_seen(other, known, now) =~= Seq::<RememberedSession>::empty());
    } else {
        law_sessions_are_remembered_one_by_one(one, other.drop_last(), single, known, now);
        assert((one + other).drop_last() =~= one + other.drop_last());
    }
    assert(memory::sessions_seen(one + other, known, now)
        =~= memory::sessions_seen(one, known, now) + memory::sessions_seen(other, known, now));
    assert(seq![single].drop_last() =~= Seq::<Session>::empty());
    assert(memory::sessions_seen(seq![single].drop_last(), known, now) =~= Seq::<RememberedSession>::empty());
}

// --- Forgetting --------------------------------------------------------------------------------

/// A workspace is forgotten exactly if it has been settled for longer than it is remembered; one that settled
/// in the future has been settled for no time.
pub proof fn law_what_is_forgotten(
    workspace: RememberedWorkspace,
    now: SystemTime,
    retention: Duration,
)
    ensures
        memory::outlived(workspace, now, retention) <==> (workspace.settled_since matches Some(since)
            && now.nanos - since.nanos > retention.nanos),
        memory::settled_for(workspace, now) is Some <==> workspace.settled_since is Some,
        workspace.settled_since matches Some(since) ==> memory::settled_for(workspace, now)->0.nanos
            == if since.nanos <= now.nanos {
            now.nanos - since.nanos
        } else {
            0
        },
{
}

/// Workspaces are kept one after the other: each that has not been settled for longer than it is remembered,
/// as it is, and no other.
pub proof fn law_what_is_kept_is_kept_one_by_one(
    one: Seq<RememberedWorkspace>,
    other: Seq<RememberedWorkspace>,
    single: RememberedWorkspace,
    now: SystemTime,
    retention: Duration,
)
    ensures
        memory::still_known(one + other, now, retention)
            == memory::still_known(one, now, retention) + memory::still_known(other, now, retention),
        memory::still_known(seq![single], now, retention) == if single.settled_since is Some
            && now.nanos - single.settled_since->0.nanos > retention.nanos {
            Seq::<RememberedWorkspace>::empty()
        } else {
            seq![single]
        },
    decreases other.len(),
{
    if other.len() == 0 {
        assert(one + other =~= one);
        assert(memory::still_known(other, now, retention) =~= Seq::<RememberedWorkspace>::empty());
    } else {
        law_what_is_kept_is_kept_one_by_one(one, other.drop_last(), single, now, retention);
        assert((one + other).drop_last() =~= one + other.drop_last());
    }
    assert(memory::still_known(one + other, now, retention)
        =~= memory::still_known(one, now, retention) + memory::still_known(other, now, retention));
    assert(seq![single].drop_last() =~= Seq::<RememberedWorkspace>::empty());
    assert(memory::still_known(seq![single].drop_last(), now, retention)
        =~= Seq::<RememberedWorkspace>::empty());
    assert(memory::still_known(seq![single], now, retention) =~= if single.settled_since is Some
        && now.nanos - single.settled_since->0.nanos > retention.nanos {
        Seq::<RememberedWorkspace>::empty()
    } else {
        seq![single]
    });
}
/// Workspaces are let go one after the other, each named with how long it was settled.
pub proof fn law_what_is_let_go_is_named_one_by_one(
    one: Seq<RememberedWorkspace>,
    other: Seq<RememberedWorkspace>,
    single: RememberedWorkspace,
    now: SystemTime,
    retention: Duration,
)
    ensures
        memory::let_go(one + other, now, retention)
            == memory::let_go(one, now, retention) + memory::let_go(other, now, retention),
        memory::let_go(seq![single], now, retention).len() == if single.settled_since is Some
            && now.nanos - single.settled_since->0.nanos > retention.nanos {
            1nat
        } else {
            0nat
        },
        memory::let_go(seq![single], now, retention).len() == 1 ==> {
            &&& memory::let_go(seq![single], now, retention)[0].path == single.path
            &&& memory::let_go(seq![single], now, retention)[0].settled_for.nanos == now.nanos
                - single.settled_since->0.nanos
        },
    decreases other.len(),
{
    if other.len() == 0 {
        assert(one + other =~= one);
        assert(memory::let_go(other, now, retention) =~= Seq::<Forgotten>::empty());
    } else {
        law_what_is_let_go_is_named_one_by_one(one, other.drop_last(), single, now, retention);
        assert((one + other).drop_last() =~= one + other.drop_last());
    }
    assert(memory::let_go(one + other, now, retention)
        =~= memory::let_go(one, now, retention) + memory::let_go(other, now, retention));
    assert(seq![single].drop_last() =~= Seq::<RememberedWorkspace>::empty());
    assert(memory::let_go(seq![single].drop_last(), now, retention) =~= Seq::<Forgotten>::empty());
}

// --- Files -------------------------------------------------------------------------------------

/// A history that is of the first version is taken whole; any other, and one that cannot be decoded or read,
/// is taken not at all, with the reason; one that is not there yet is no fault.
pub proof fn law_a_history_is_taken_whole_or_not_at_all(
    read: MemoryRead,
    begun: (Memory, Option<Degraded>),
)
    requires
        memory::is_recalled(read, begun),
    ensures
        match read {
            MemoryRead::Found(Ok(file)) => if file.version == 1 {
                begun.0 == file.memory && begun.1 is None
            } else {
                &&& begun.0.workspaces@.len() == 0
                &&& begun.0.sessions@.len() == 0
                &&& begun.1 == Some(Degraded::UnknownVersion { found: file.version, understood: 1 })
            },
            MemoryRead::Found(Err(why)) => begun.0.workspaces@.len() == 0
                && begun.0.sessions@.len() == 0 && begun.1 == Some(Degraded::Unparsable(why)),
            MemoryRead::Absent => begun.0.workspaces@.len() == 0 && begun.0.sessions@.len() == 0
                && begun.1 is None,
            MemoryRead::Unreadable(why) => begun.0.workspaces@.len() == 0
                && begun.0.sessions@.len() == 0 && begun.1 == Some(Degraded::Unreadable(why)),
        },
{
}

/// What went wrong with a history is said with the reason.
pub proof fn law_a_lost_history_gives_its_reason(why: String, found: u32, understood: u32)
    ensures
        text::contains_text(Degraded::Unreadable(why).words(), why@),
        text::contains_text(Degraded::Unparsable(why).words(), why@),
        text::contains_text(
            Degraded::UnknownVersion { found, understood }.words(),
            text::decimal(found as nat),
        ),
        text::ends_in(
            Degraded::UnknownVersion { found, understood }.words(),
            text::decimal(understood as nat),
        ),
{
    crate::laws::text::law_what_stands_in_a_text(
        "remembered state could not be read ("@,
        why@,
        ")"@,
    );
    crate::laws::text::law_what_stands_in_a_text(
        "remembered state could not be understood ("@,
        why@,
        ")"@,
    );
    let front = "remembered state is schema version "@;
    let number = text::decimal(found as nat);
    let middle = ", and this acmon understands "@;
    let end = text::decimal(understood as nat);
    crate::laws::text::law_what_stands_in_a_text(front, number, middle + end);
    assert(front + number + (middle + end) =~= front + number + middle + end);
    crate::laws::text::law_what_stands_in_a_text(front + number + middle, end, Seq::empty());
}

} // verus!
