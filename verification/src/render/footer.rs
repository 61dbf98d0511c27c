//! The lines under the panel: what the figures leave out, and what went wrong.

use crate::collect::{Identity, NotifyHealth, Persistence, Remembered, Session, Snapshot};
use crate::display;
use crate::notify::Rebuilt;
use crate::render::lines;
use crate::text;
use crate::time::SystemTime;
use vstd::prelude::*;

verus! {

/// Which session a line speaks of.
pub open spec fn identified(session: Session) -> Seq<char> {
    match session.identity {
        Identity::Process { pid } => text::signed_decimal(pid as int) + " "@ + session.cli@,
        Identity::Transcript { recorded_as } => recorded_as@ + " "@ + session.cli@,
    }
}

/// Which session a line speaks of.
pub fn identify(session: &Session) -> (words: String)
    ensures
        words@ == identified(*session),
{
    match &session.identity {
        Identity::Process { pid } => text::signed_decimal_of(*pid as i64).concat(" ").concat(
            session.cli.as_str(),
        ),
        Identity::Transcript { recorded_as } => recorded_as.clone().concat(" ").concat(
            session.cli.as_str(),
        ),
    }
}

/// Whether a session's state was inferred from silence.
pub open spec fn inferred(session: Session) -> bool {
    session.liveness.method is ProcessResidentButSilent
        || session.liveness.method is WorkRunningInWorkspace
}

// --- What the figures leave out ----------------------------------------------------------------

/// How old the last reading of a session is.
pub open spec fn reading_age(taken_at: SystemTime, read_at: SystemTime) -> Seq<char> {
    match taken_at.since(read_at) {
        Some(age) => lines::age_words(age) + " ago"@,
        None => "at an unknown time — the clock moved backwards"@,
    }
}

/// The lines about sessions whose figures were read before their process exited.
pub open spec fn stale_lines(sessions: Seq<Session>, taken_at: SystemTime, width: u16) -> Seq<
    Seq<char>,
>
    decreases sessions.len(),
{
    if sessions.len() == 0 {
        Seq::empty()
    } else {
        let before = stale_lines(sessions.drop_last(), taken_at, width);
        match sessions.last().last_reading {
            Some(reading) => before + lines::wrapped(
                "  * "@ + identified(sessions.last()) + ": last read "@ + reading_age(
                    taken_at,
                    reading.taken_at,
                ),
                width,
            ),
            None => before,
        }
    }
}

/// The lines about figures that are not current.
pub open spec fn stale_part(sessions: Seq<Session>, taken_at: SystemTime, width: u16) -> Seq<
    Seq<char>,
> {
    if exists|i: int| 0 <= i < sessions.len() && (#[trigger] sessions[i]).last_reading is Some {
        lines::wrapped(
            "A figure marked * is the last reading taken before that session's process exited, not a current one."@,
            width,
        ) + stale_lines(sessions, taken_at, width)
    } else {
        Seq::empty()
    }
}

/// The lines about states that were inferred.
pub open spec fn inference_part(sessions: Seq<Session>, width: u16) -> Seq<Seq<char>> {
    if exists|i: int| 0 <= i < sessions.len() && inferred(#[trigger] sessions[i]) {
        lines::wrapped(
            "A state marked ? was inferred from silence, not observed directly."@,
            width,
        )
    } else {
        Seq::empty()
    }
}

fn any_inferred(sessions: &Vec<Session>) -> (any: bool)
    ensures
        any == (exists|i: int| 0 <= i < sessions@.len() && inferred(#[trigger] sessions@[i])),
{
    let mut next: usize = 0;
    while next < sessions.len()
        invariant
            next <= sessions@.len(),
            forall|i: int| 0 <= i < next ==> !inferred(#[trigger] sessions@[i]),
        decreases sessions@.len() - next,
    {
        if sessions[next].liveness.method.is_inferred() {
            assert(inferred(sessions@[next as int]));
            return true;
        }
        next += 1;
    }
    false
}

fn add_inference(found: &mut Vec<String>, sessions: &Vec<Session>, width: u16)
    ensures
        text::texts(final(found)@) == text::texts(old(found)@) + inference_part(sessions@, width),
{
    let ghost begun = text::texts(found@);
    if any_inferred(sessions) {
        lines::add_wrapped(
            found,
            "A state marked ? was inferred from silence, not observed directly.",
            width,
        );
    } else {
        assert(begun + Seq::<Seq<char>>::empty() =~= begun);
    }
}

fn any_reading(sessions: &Vec<Session>) -> (any: bool)
    ensures
        any == (exists|i: int|
            0 <= i < sessions@.len() && (#[trigger] sessions@[i]).last_reading is Some),
{
    let mut next: usize = 0;
    while next < sessions.len()
        invariant
            next <= sessions@.len(),
            forall|i: int| 0 <= i < next ==> (#[trigger] sessions@[i]).last_reading is None,
        decreases sessions@.len() - next,
    {
        if sessions[next].last_reading.is_some() {
            assert(sessions@[next as int].last_reading is Some);
            return true;
        }
        next += 1;
    }
    false
}

fn add_stale(found: &mut Vec<String>, snapshot: &Snapshot, width: u16)
    ensures
        text::texts(final(found)@) == text::texts(old(found)@) + stale_part(
            snapshot.sessions@,
            snapshot.taken_at,
            width,
        ),
{
    let ghost begun = text::texts(found@);
    let ghost all = snapshot.sessions@;
    if !any_reading(&snapshot.sessions) {
        assert(begun + Seq::<Seq<char>>::empty() =~= begun);
        return;
    }
    lines::add_wrapped(
        found,
        "A figure marked * is the last reading taken before that session's process exited, not a current one.",
        width,
    );
    let ghost headed = text::texts(found@);
    let mut next: usize = 0;
    assert(all.take(0) =~= Seq::empty());
    assert(headed + Seq::<Seq<char>>::empty() =~= headed);
    while next < snapshot.sessions.len()
        invariant
            next <= all.len(),
            all == snapshot.sessions@,
            text::texts(found@) == headed + stale_lines(
                all.take(next as int),
                snapshot.taken_at,
                width,
            ),
        decreases all.len() - next,
    {
        let ghost so_far = stale_lines(all.take(next as int), snapshot.taken_at, width);
        assert(all.take(next + 1).drop_last() =~= all.take(next as int));
        let session: &Session = &snapshot.sessions[next];
        if let Some(reading) = &session.last_reading {
            let age: String = match snapshot.taken_at.duration_since(reading.taken_at) {
                Some(age) => lines::format_age(age).concat(" ago"),
                None => String::from_str("at an unknown time — the clock moved backwards"),
            };
            let words: String = String::from_str("  * ").concat(
                identify(session).as_str(),
            ).concat(": last read ").concat(age.as_str());
            lines::add_wrapped(found, words.as_str(), width);
            assert(headed + so_far + lines::wrapped(words@, width) =~= headed + (so_far
                + lines::wrapped(words@, width)));
        }
        next += 1;
    }
    assert(all.take(all.len() as int) =~= all);
    assert(text::texts(found@) =~= begun + stale_part(all, snapshot.taken_at, width));
}

/// The lines about the order of the rows.
pub open spec fn order_part(sessions: Seq<Session>, width: u16) -> Seq<Seq<char>> {
    let unmeasured = display::costless(display::ranks(sessions));
    if unmeasured == 0 {
        Seq::empty()
    } else {
        lines::wrapped(
            "Rows are ordered by child CPU, descending. "@ + text::decimal(unmeasured)
                + " session(s) have no child-CPU figure at all, so they are listed FIRST rather than last: an absent cost is not a small one, and the bottom of this table is what a terminal too short drops."@,
            width,
        )
    }
}

fn add_order(found: &mut Vec<String>, sessions: &Vec<Session>, width: u16)
    ensures
        text::texts(final(found)@) == text::texts(old(found)@) + order_part(sessions@, width),
{
    let ghost begun = text::texts(found@);
    let unmeasured: usize = display::sessions_without_a_cost(sessions.as_slice());
    if unmeasured == 0 {
        assert(begun + Seq::<Seq<char>>::empty() =~= begun);
        return;
    }
    let words: String = String::from_str("Rows are ordered by child CPU, descending. ").concat(
        text::count_of(unmeasured).as_str(),
    ).concat(
        " session(s) have no child-CPU figure at all, so they are listed FIRST rather than last: an absent cost is not a small one, and the bottom of this table is what a terminal too short drops.",
    );
    lines::add_wrapped(found, words.as_str(), width);
}

/// The lines about sessions whose state could not be determined.
pub open spec fn doubt_lines(sessions: Seq<Session>, width: u16) -> Seq<Seq<char>>
    decreases sessions.len(),
{
    if sessions.len() == 0 {
        Seq::empty()
    } else {
        let before = doubt_lines(sessions.drop_last(), width);
        match sessions.last().doubt() {
            Some(doubt) => before + lines::wrapped(
                "  "@ + (if doubt.0 {
                    "! "@
                } else {
                    ""@
                }) + identified(sessions.last()) + ": "@ + doubt.1 + "."@,
                width,
            ),
            None => before,
        }
    }
}

/// Whether no later run will determine a session's state either.
pub open spec fn hopeless(session: Session) -> bool {
    session.doubt() matches Some(doubt) && doubt.0
}

/// The lines about states that could not be determined.
pub open spec fn doubt_part(sessions: Seq<Session>, width: u16) -> Seq<Seq<char>> {
    let limits = if exists|i: int| 0 <= i < sessions.len() && hopeless(#[trigger] sessions[i]) {
        lines::wrapped(
            "A state marked ! could not be determined at all, and will not be on any later run either — such a session is monitored but is never announced."@,
            width,
        )
    } else {
        Seq::empty()
    };
    limits + doubt_lines(sessions, width)
}

fn any_hopeless(sessions: &Vec<Session>) -> (any: bool)
    ensures
        any == (exists|i: int| 0 <= i < sessions@.len() && hopeless(#[trigger] sessions@[i])),
{
    let mut next: usize = 0;
    while next < sessions.len()
        invariant
            next <= sessions@.len(),
            forall|i: int| 0 <= i < next ==> !hopeless(#[trigger] sessions@[i]),
        decreases sessions@.len() - next,
    {
        let structural: bool = match sessions[next].liveness_unknown() {
            Some(why) => why.is_structural(),
            None => false,
        };
        if structural {
            assert(hopeless(sessions@[next as int]));
            return true;
        }
        next += 1;
    }
    false
}

fn add_doubts(found: &mut Vec<String>, sessions: &Vec<Session>, width: u16)
    ensures
        text::texts(final(found)@) == text::texts(old(found)@) + doubt_part(sessions@, width),
{
    let ghost begun = text::texts(found@);
    let ghost all = sessions@;
    if any_hopeless(sessions) {
        lines::add_wrapped(
            found,
            "A state marked ! could not be determined at all, and will not be on any later run either — such a session is monitored but is never announced.",
            width,
        );
    } else {
        assert(begun + Seq::<Seq<char>>::empty() =~= begun);
    }
    let ghost headed = text::texts(found@);
    let mut next: usize = 0;
    assert(all.take(0) =~= Seq::empty());
    assert(headed + Seq::<Seq<char>>::empty() =~= headed);
    while next < sessions.len()
        invariant
            next <= all.len(),
            all == sessions@,
            text::texts(found@) == headed + doubt_lines(all.take(next as int), width),
        decreases all.len() - next,
    {
        let ghost so_far = doubt_lines(all.take(next as int), width);
        assert(all.take(next + 1).drop_last() =~= all.take(next as int));
        if let Some(why) = sessions[next].liveness_unknown() {
            let words: String = String::from_str("  ").concat(
                if why.is_structural() {
                    "! "
                } else {
                    ""
                },
            ).concat(identify(&sessions[next]).as_str()).concat(": ").concat(
                why.to_text().as_str(),
            ).concat(".");
            lines::add_wrapped(found, words.as_str(), width);
            assert(headed + so_far + lines::wrapped(words@, width) =~= headed + (so_far
                + lines::wrapped(words@, width)));
        }
        next += 1;
    }
    assert(all.take(all.len() as int) =~= all);
    assert(text::texts(found@) =~= begun + doubt_part(all, width));
}

// --- What went wrong ---------------------------------------------------------------------------

/// A line where there is something to say, and none where there is not.
pub open spec fn said(words: Option<Seq<char>>, width: u16) -> Seq<Seq<char>> {
    match words {
        Some(text) => lines::wrapped(text, width),
        None => Seq::empty(),
    }
}

/// What is said of a run that began without a history.
pub open spec fn unusable_words(remembered: Remembered) -> Option<Seq<char>> {
    match remembered.unusable {
        Some(why) => Some(
            "WARNING: "@ + why.words()
                + " — this run started with no history, so a workspace whose session has already exited may be missing from the list above."@,
        ),
        None => None,
    }
}

/// What is said of what was stored.
pub open spec fn persisted_words(remembered: Remembered) -> Option<Seq<char>> {
    match remembered.persisted {
        Persistence::Stored => None,
        Persistence::Failed(why) => Some(
            "WARNING: "@ + why@ + " — the next run will start with no history."@,
        ),
        Persistence::NotAttempted { because } => Some("Nothing was written: "@ + because@ + "."@),
    }
}

/// What is said of workspaces that are no longer watched.
pub open spec fn forgotten_words(remembered: Remembered) -> Option<Seq<char>> {
    if remembered.forgotten@.len() == 0 {
        None
    } else {
        Some(
            "Stopped watching "@ + text::decimal(remembered.forgotten@.len())
                + " workspace(s) that had been clean and quiet for over "@ + lines::age_words(
                remembered.retention,
            ) + "."@,
        )
    }
}

/// What is said of the detectors.
pub open spec fn detector_words(remembered: Remembered) -> Option<Seq<char>> {
    match remembered.detector_config.unusable {
        Some(why) => Some(
            "WARNING: detector configuration is unusable — sessions from user-configured CLIs will not be recognised ("@
                + why@ + ")."@,
        ),
        None => None,
    }
}

/// How many conditions are on record as announced.
pub open spec fn on_record(remembered: Remembered) -> nat {
    remembered.notified.record.sessions@.len() + remembered.notified.record.workspaces@.len()
}

/// What is said of a record of announcements that had to be begun anew.
pub open spec fn rebuilt_words(remembered: Remembered) -> Option<Seq<char>> {
    match remembered.notified.rebuilt {
        Some(rebuilt) => if !(rebuilt is NothingRecorded) {
            Some(
                "WARNING: "@ + rebuilt.words()
                    + " — so NOTHING was deduped this run: no condition was suppressed as already announced."@,
            )
        } else if on_record(remembered) > 0 {
            Some(
                rebuilt.words() + " — so "@ + text::decimal(on_record(remembered))
                    + " condition(s) still true were announced again rather than deduped. Nothing changed on the machine to cause that."@,
            )
        } else {
            None
        },
        None => None,
    }
}

/// What is said of a record of announcements that could not be stored.
pub open spec fn unrecorded_words(remembered: Remembered) -> Option<Seq<char>> {
    match remembered.notified.persisted {
        Persistence::Failed(why) => if remembered.notify_health.notable > 0 || on_record(remembered)
            > 0 {
            Some(
                "WARNING: "@ + why@
                    + " — the next run will announce every condition still true, including the ones announced this run."@,
            )
        } else {
            None
        },
        _ => None,
    }
}

/// What is said of a run that announces nothing at all.
pub open spec fn read_only_words(health: NotifyHealth) -> Option<Seq<char>> {
    match health.read_only {
        Some(because) => Some(
            "Nothing was announced: "@ + because@ + ". "@ + text::decimal(health.notable as nat)
                + " condition(s) on this screen would be announced by a running monitor."@,
        ),
        None => None,
    }
}

/// What is said of a configuration that could not be understood.
pub open spec fn config_words(health: NotifyHealth) -> Option<Seq<char>> {
    match health.config.unusable {
        Some(why) => Some(
            "WARNING: notification configuration is unusable, so NOTHING WAS ANNOUNCED this run ("@
                + why@ + ")."@,
        ),
        None => None,
    }
}

/// A count for a channel, where there is one.
pub open spec fn tally(channel: Seq<char>, count: usize, rest: Seq<char>) -> Seq<Seq<char>> {
    if count > 0 {
        seq![channel + text::decimal(count as nat) + rest]
    } else {
        Seq::empty()
    }
}

/// What is said of the channels.
pub open spec fn channel_words(health: NotifyHealth) -> Option<Seq<char>> {
    if !health.config.reaches_anyone() {
        if health.config.unusable is None && health.notable > 0 {
            Some(
                "WARNING: No notification channels configured — notable states were observed but not announced."@,
            )
        } else {
            None
        }
    } else if health.local_failed > 0 || health.remote_failed > 0 {
        Some(
            "WARNING: Notification delivery failures ("@ + text::joined(
                tally("local: "@, health.local_failed, " failed"@) + tally(
                    "remote: "@,
                    health.remote_failed,
                    " failed"@,
                ),
                ", "@,
            ) + ") — these alerts will be re-announced on the next run."@,
        )
    } else {
        None
    }
}

/// What is said of alerts that were never sent.
pub open spec fn unsent_words(health: NotifyHealth) -> Option<Seq<char>> {
    let unsent = health.local_not_attempted + health.remote_not_attempted;
    if unsent > 0 {
        Some(
            "WARNING: "@ + text::decimal(unsent as nat) + " alert(s) were NOT SENT at all ("@
                + text::joined(
                tally("local: "@, health.local_not_attempted, ""@) + tally(
                    "remote: "@,
                    health.remote_not_attempted,
                    ""@,
                ),
                ", "@,
            ) + ") — "@ + (match health.not_attempted_reason {
                Some(why) => why@,
                None =>
                    "and no reason was reported for it, which is itself a fault in this tool"@,
            })
                + ". They are not recorded as announced, and will be re-announced on the next run."@,
        )
    } else {
        None
    }
}

/// The lines about what was remembered and what was announced. A run that announces nothing at all
/// says that, and nothing of channels.
pub open spec fn memory_part(remembered: Remembered, width: u16) -> Seq<Seq<char>> {
    let health = remembered.notify_health;
    let first = said(unusable_words(remembered), width) + said(persisted_words(remembered), width)
        + said(forgotten_words(remembered), width) + said(detector_words(remembered), width) + said(
        rebuilt_words(remembered),
        width,
    ) + said(unrecorded_words(remembered), width);
    if health.read_only is Some {
        first + said(read_only_words(health), width)
    } else {
        first + said(config_words(health), width) + said(channel_words(health), width) + said(
            unsent_words(health),
            width,
        )
    }
}

fn add_said(found: &mut Vec<String>, words: Option<String>, width: u16)
    ensures
        text::texts(final(found)@) == text::texts(old(found)@) + said(
            match words {
                Some(text) => Some(text@),
                None => None,
            },
            width,
        ),
{
    let ghost begun = text::texts(found@);
    match words {
        Some(text) => {
            lines::add_wrapped(found, text.as_str(), width);
        },
        None => {
            assert(begun + Seq::<Seq<char>>::empty() =~= begun);
        },
    }
}

/// What an optional text holds.
pub open spec fn held(words: Option<String>) -> Option<Seq<char>> {
    match words {
        Some(text) => Some(text@),
        None => None,
    }
}

fn unusable_text(remembered: &Remembered) -> (words: Option<String>)
    ensures
        held(words) == unusable_words(*remembered),
{
    match &remembered.unusable {
        Some(why) => Some(
            String::from_str("WARNING: ").concat(why.to_text().as_str()).concat(
                " — this run started with no history, so a workspace whose session has already exited may be missing from the list above.",
            ),
        ),
        None => None,
    }
}

fn persisted_text(remembered: &Remembered) -> (words: Option<String>)
    ensures
        held(words) == persisted_words(*remembered),
{
    match &remembered.persisted {
        Persistence::Stored => None,
        Persistence::Failed(why) => Some(
            String::from_str("WARNING: ").concat(why.as_str()).concat(
                " — the next run will start with no history.",
            ),
        ),
        Persistence::NotAttempted { because } => Some(
            String::from_str("Nothing was written: ").concat(because.as_str()).concat("."),
        ),
    }
}

fn forgotten_text(remembered: &Remembered) -> (words: Option<String>)
    ensures
        held(words) == forgotten_words(*remembered),
{
    if remembered.forgotten.len() == 0 {
        None
    } else {
        Some(
            String::from_str("Stopped watching ").concat(
                text::count_of(remembered.forgotten.len()).as_str(),
            ).concat(" workspace(s) that had been clean and quiet for over ").concat(
                lines::format_age(remembered.retention).as_str(),
            ).concat("."),
        )
    }
}

fn detector_text(remembered: &Remembered) -> (words: Option<String>)
    ensures
        held(words) == detector_words(*remembered),
{
    match &remembered.detector_config.unusable {
        Some(why) => Some(
            String::from_str(
                "WARNING: detector configuration is unusable — sessions from user-configured CLIs will not be recognised (",
            ).concat(why.as_str()).concat(")."),
        ),
        None => None,
    }
}

fn recorded(remembered: &Remembered) -> (count: u128)
    ensures
        count == on_record(*remembered),
{
    let sessions: usize = remembered.notified.record.sessions.len();
    let workspaces: usize = remembered.notified.record.workspaces.len();
    sessions as u128 + workspaces as u128
}

fn rebuilt_text(remembered: &Remembered) -> (words: Option<String>)
    ensures
        held(words) == rebuilt_words(*remembered),
{
    match &remembered.notified.rebuilt {
        Some(rebuilt) => match rebuilt {
            Rebuilt::NothingRecorded => {
                let count: u128 = recorded(remembered);
                if count > 0 {
                    Some(
                        rebuilt.to_text().concat(" — so ").concat(
                            text::decimal_of(count).as_str(),
                        ).concat(
                            " condition(s) still true were announced again rather than deduped. Nothing changed on the machine to cause that.",
                        ),
                    )
                } else {
                    None
                }
            },
            Rebuilt::Unreadable(_) | Rebuilt::Unparsable(_) | Rebuilt::UnknownVersion { .. } => {
                Some(
                    String::from_str("WARNING: ").concat(rebuilt.to_text().as_str()).concat(
                        " — so NOTHING was deduped this run: no condition was suppressed as already announced.",
                    ),
                )
            },
        },
        None => None,
    }
}

fn unrecorded_text(remembered: &Remembered) -> (words: Option<String>)
    ensures
        held(words) == unrecorded_words(*remembered),
{
    match &remembered.notified.persisted {
        Persistence::Failed(why) => if remembered.notify_health.notable > 0 || recorded(remembered)
            > 0 {
            Some(
                String::from_str("WARNING: ").concat(why.as_str()).concat(
                    " — the next run will announce every condition still true, including the ones announced this run.",
                ),
            )
        } else {
            None
        },
        Persistence::Stored | Persistence::NotAttempted { .. } => None,
    }
}

fn read_only_text(health: &NotifyHealth) -> (words: Option<String>)
    ensures
        held(words) == read_only_words(*health),
{
    match &health.read_only {
        Some(because) => Some(
            String::from_str("Nothing was announced: ").concat(because.as_str()).concat(
                ". ",
            ).concat(text::count_of(health.notable).as_str()).concat(
                " condition(s) on this screen would be announced by a running monitor.",
            ),
        ),
        None => None,
    }
}

fn config_text(health: &NotifyHealth) -> (words: Option<String>)
    ensures
        held(words) == config_words(*health),
{
    match &health.config.unusable {
        Some(why) => Some(
            String::from_str(
                "WARNING: notification configuration is unusable, so NOTHING WAS ANNOUNCED this run (",
            ).concat(why.as_str()).concat(")."),
        ),
        None => None,
    }
}

fn tallies(local: usize, remote: usize, rest: &str) -> (words: String)
    ensures
        words@ == text::joined(
            tally("local: "@, local, rest@) + tally("remote: "@, remote, rest@),
            ", "@,
        ),
{
    let mut parts: Vec<String> = Vec::new();
    if local > 0 {
        parts.push(
            String::from_str("local: ").concat(text::count_of(local).as_str()).concat(rest),
        );
    }
    assert(text::texts(parts@) =~= tally("local: "@, local, rest@));
    let ghost before = parts@;
    if remote > 0 {
        parts.push(
            String::from_str("remote: ").concat(text::count_of(remote).as_str()).concat(rest),
        );
    }
    assert(text::texts(parts@) =~= text::texts(before) + tally("remote: "@, remote, rest@));
    text::join(&parts, ", ")
}

fn channel_text(health: &NotifyHealth) -> (words: Option<String>)
    ensures
        held(words) == channel_words(*health),
{
    if !health.config.has_any() {
        if health.config.unusable.is_none() && health.notable > 0 {
            Some(
                String::from_str(
                    "WARNING: No notification channels configured — notable states were observed but not announced.",
                ),
            )
        } else {
            None
        }
    } else if health.has_failures() {
        Some(
            String::from_str("WARNING: Notification delivery failures (").concat(
                tallies(health.local_failed, health.remote_failed, " failed").as_str(),
            ).concat(") — these alerts will be re-announced on the next run."),
        )
    } else {
        None
    }
}

fn unsent_text(health: &NotifyHealth) -> (words: Option<String>)
    ensures
        held(words) == unsent_words(*health),
{
    if !health.has_unattempted() {
        return None;
    }
    let unsent: u128 = health.local_not_attempted as u128 + health.remote_not_attempted as u128;
    let why: &str = match &health.not_attempted_reason {
        Some(why) => why.as_str(),
        None => "and no reason was reported for it, which is itself a fault in this tool",
    };
    Some(
        String::from_str("WARNING: ").concat(text::decimal_of(unsent).as_str()).concat(
            " alert(s) were NOT SENT at all (",
        ).concat(
            tallies(health.local_not_attempted, health.remote_not_attempted, "").as_str(),
        ).concat(") — ").concat(why).concat(
            ". They are not recorded as announced, and will be re-announced on the next run.",
        ),
    )
}

/// The lines about what was remembered and what was announced.
pub fn memory_lines(remembered: &Remembered, width: u16) -> (found: Vec<String>)
    ensures
        text::texts(found@) == memory_part(*remembered, width),
{
    let health: &NotifyHealth = &remembered.notify_health;
    let mut found: Vec<String> = Vec::new();
    assert(text::texts(found@) =~= Seq::empty());
    add_said(&mut found, unusable_text(remembered), width);
    assert(text::texts(found@) =~= said(unusable_words(*remembered), width));
    add_said(&mut found, persisted_text(remembered), width);
    add_said(&mut found, forgotten_text(remembered), width);
    add_said(&mut found, detector_text(remembered), width);
    add_said(&mut found, rebuilt_text(remembered), width);
    add_said(&mut found, unrecorded_text(remembered), width);
    if health.read_only.is_some() {
        add_said(&mut found, read_only_text(health), width);
        return found;
    }
    add_said(&mut found, config_text(health), width);
    add_said(&mut found, channel_text(health), width);
    add_said(&mut found, unsent_text(health), width);
    found
}

/// The lines under the panel.
pub open spec fn footer(snapshot: Snapshot, width: u16) -> Seq<Seq<char>> {
    lines::wrapped(
        "Child CPU omits detached and orphaned work, so these are floors, not totals."@,
        width,
    ) + inference_part(snapshot.sessions@, width) + stale_part(
        snapshot.sessions@,
        snapshot.taken_at,
        width,
    ) + order_part(snapshot.sessions@, width) + doubt_part(snapshot.sessions@, width) + memory_part(
        snapshot.remembered,
        width,
    )
}

/// The lines under the panel.
pub fn footer_lines(snapshot: &Snapshot, width: u16) -> (found: Vec<String>)
    ensures
        text::texts(found@) == footer(*snapshot, width),
{
    let mut found: Vec<String> = lines::wrap_words(
        "Child CPU omits detached and orphaned work, so these are floors, not totals.",
        width,
    );
    add_inference(&mut found, &snapshot.sessions, width);
    add_stale(&mut found, snapshot, width);
    add_order(&mut found, &snapshot.sessions, width);
    add_doubts(&mut found, &snapshot.sessions, width);
    lines::add_lines(&mut found, memory_lines(&snapshot.remembered, width));
    found
}

/// A run whose alerts went unsent says so, whatever else it says.
pub proof fn law_unsent_alerts_are_admitted(remembered: Remembered, width: u16)
    requires
        remembered.notify_health.read_only is None,
        remembered.notify_health.local_not_attempted + remembered.notify_health.remote_not_attempted
            > 0,
    ensures
        unsent_words(remembered.notify_health) is Some,
        text::ends_in_lines(
            memory_part(remembered, width),
            lines::wrapped(unsent_words(remembered.notify_health)->0, width),
        ),
{
    let health = remembered.notify_health;
    let last = said(unsent_words(health), width);
    let all = memory_part(remembered, width);
    assert(all.skip(all.len() - last.len()) =~= last);
}

} // verus!
