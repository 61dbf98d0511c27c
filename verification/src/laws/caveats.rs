//! What stands under the panel: what is owned up to, and when.

use crate::collect::{Identity, NotifyHealth, Persistence, Remembered, Session};
use crate::display;
use crate::render::footer;
use crate::render::lines;
use crate::text;
use crate::time::SystemTime;
use vstd::prelude::*;

verus! {

/// A session is spoken of by its pid or its recorded name, and its CLI.
pub proof fn law_how_a_session_is_spoken_of(session: Session)
    ensures
        session.identity matches Identity::Process { pid } ==> footer::identified(session)
            == text::signed_decimal(pid as int) + " "@ + session.cli@,
        session.identity matches Identity::Transcript { recorded_as } ==> footer::identified(session)
            == recorded_as@ + " "@ + session.cli@,
{
}

/// A reading is as old as the time since it was taken.
pub proof fn law_how_old_a_reading_is(taken_at: SystemTime, read_at: SystemTime)
    ensures
        read_at.nanos <= taken_at.nanos ==> footer::reading_age(taken_at, read_at)
            == lines::age_words(taken_at.since(read_at)->0) + " ago"@ && taken_at.since(
            read_at,
        )->0.nanos == taken_at.nanos - read_at.nanos,
        read_at.nanos > taken_at.nanos ==> footer::reading_age(taken_at, read_at)
            == "at an unknown time — the clock moved backwards"@,
{
}

/// Every session with an earlier reading is named with its age, in their order, and no other is.
pub proof fn law_every_earlier_reading_is_named(
    one: Seq<Session>,
    other: Seq<Session>,
    single: Session,
    taken_at: SystemTime,
    width: u16,
)
    ensures
        footer::stale_lines(one + other, taken_at, width) == footer::stale_lines(
            one,
            taken_at,
            width,
        ) + footer::stale_lines(other, taken_at, width),
        single.last_reading is None ==> footer::stale_lines(seq![single], taken_at, width).len()
            == 0,
        single.last_reading matches Some(reading) ==> footer::stale_lines(
            seq![single],
            taken_at,
            width,
        ) == lines::wrapped(
            "  * "@ + footer::identified(single) + ": last read "@ + footer::reading_age(
                taken_at,
                reading.taken_at,
            ),
            width,
        ),
    decreases other.len(),
{
    if other.len() == 0 {
        assert(one + other =~= one);
        assert(footer::stale_lines(other, taken_at, width) =~= Seq::<Seq<char>>::empty());
    } else {
        law_every_earlier_reading_is_named(one, other.drop_last(), single, taken_at, width);
        assert((one + other).drop_last() =~= one + other.drop_last());
    }
    assert(footer::stale_lines(one + other, taken_at, width) =~= footer::stale_lines(
        one,
        taken_at,
        width,
    ) + footer::stale_lines(other, taken_at, width));
    let nothing = seq![single].drop_last();
    assert(nothing =~= Seq::<Session>::empty());
    let none = footer::stale_lines(nothing, taken_at, width);
    assert(none =~= Seq::<Seq<char>>::empty());
    if let Some(reading) = single.last_reading {
        let line = lines::wrapped(
            "  * "@ + footer::identified(single) + ": last read "@ + footer::reading_age(
                taken_at,
                reading.taken_at,
            ),
            width,
        );
        assert(none + line =~= line);
    }
}

/// Every session in doubt is named with why, in their order, and no other is.
pub proof fn law_every_doubt_is_named(
    one: Seq<Session>,
    other: Seq<Session>,
    single: Session,
    width: u16,
)
    ensures
        footer::doubt_lines(one + other, width) == footer::doubt_lines(one, width)
            + footer::doubt_lines(other, width),
        single.doubt() is None ==> footer::doubt_lines(seq![single], width).len() == 0,
        single.doubt() matches Some(doubt) ==> footer::doubt_lines(seq![single], width)
            == lines::wrapped(
            "  "@ + (if doubt.0 {
                "! "@
            } else {
                ""@
            }) + footer::identified(single) + ": "@ + doubt.1 + "."@,
            width,
        ),
    decreases other.len(),
{
    if other.len() == 0 {
        assert(one + other =~= one);
        assert(footer::doubt_lines(other, width) =~= Seq::<Seq<char>>::empty());
    } else {
        law_every_doubt_is_named(one, other.drop_last(), single, width);
        assert((one + other).drop_last() =~= one + other.drop_last());
    }
    assert(footer::doubt_lines(one + other, width) =~= footer::doubt_lines(one, width)
        + footer::doubt_lines(other, width));
    let nothing = seq![single].drop_last();
    assert(nothing =~= Seq::<Session>::empty());
    let none = footer::doubt_lines(nothing, width);
    assert(none =~= Seq::<Seq<char>>::empty());
    if let Some(doubt) = single.doubt() {
        let line = lines::wrapped(
            "  "@ + (if doubt.0 {
                "! "@
            } else {
                ""@
            }) + footer::identified(single) + ": "@ + doubt.1 + "."@,
            width,
        );
        assert(none + line =~= line);
    }
}

/// The marks are explained exactly where one is on the screen.
pub proof fn law_a_mark_is_explained_where_it_stands(
    sessions: Seq<Session>,
    taken_at: SystemTime,
    width: u16,
)
    ensures
        (forall|i: int| 0 <= i < sessions.len() ==> !footer::inferred(#[trigger] sessions[i]))
            ==> footer::inference_part(sessions, width).len() == 0,
        (exists|i: int| 0 <= i < sessions.len() && footer::inferred(#[trigger] sessions[i]))
            ==> footer::inference_part(sessions, width) == lines::wrapped(
            "A state marked ? was inferred from silence, not observed directly."@,
            width,
        ),
        (forall|i: int| 0 <= i < sessions.len() ==> (#[trigger] sessions[i]).last_reading is None)
            ==> footer::stale_part(sessions, taken_at, width).len() == 0,
        (forall|i: int| 0 <= i < sessions.len() ==> !footer::hopeless(#[trigger] sessions[i]))
            ==> footer::doubt_part(sessions, width) == footer::doubt_lines(sessions, width),
        display::costless(display::ranks(sessions)) == 0 ==> footer::order_part(
            sessions,
            width,
        ).len() == 0,
        display::costless(display::ranks(sessions)) > 0 ==> footer::order_part(sessions, width)
            == lines::wrapped(
            "Rows are ordered by child CPU, descending. "@ + text::decimal(
                display::costless(display::ranks(sessions)),
            )
                + " session(s) have no child-CPU figure at all, so they are listed FIRST rather than last: an absent cost is not a small one, and the bottom of this table is what a terminal too short drops."@,
            width,
        ),
{
    if forall|i: int| 0 <= i < sessions.len() ==> !footer::hopeless(#[trigger] sessions[i]) {
        assert(footer::doubt_part(sessions, width) =~= footer::doubt_lines(sessions, width));
    }
}

/// What was not stored is owned up to, and what was is not spoken of.
pub proof fn law_storing_is_owned_up_to(remembered: Remembered)
    ensures
        footer::persisted_words(remembered) is None <==> remembered.persisted is Stored,
        remembered.persisted matches Persistence::Failed(why) ==> footer::persisted_words(remembered)
            == Some("WARNING: "@ + why@ + " — the next run will start with no history."@),
        remembered.persisted matches Persistence::NotAttempted { because }
            ==> footer::persisted_words(remembered) == Some(
            "Nothing was written: "@ + because@ + "."@,
        ),
        footer::unusable_words(remembered) is Some <==> remembered.unusable is Some,
        footer::detector_words(remembered) is Some <==> remembered.detector_config.unusable is Some,
        footer::forgotten_words(remembered) is Some <==> remembered.forgotten@.len() > 0,
{
}

/// A record that had to be begun anew is spoken of, unless there was none before and nothing is on it; one
/// that could not be stored is, where it holds anything or anything was to be told.
pub proof fn law_a_lost_record_is_owned_up_to(remembered: Remembered)
    ensures
        footer::on_record(remembered) == remembered.notified.record.sessions@.len()
            + remembered.notified.record.workspaces@.len(),
        footer::rebuilt_words(remembered) is Some <==> (remembered.notified.rebuilt matches Some(
            rebuilt,
        ) && (!(rebuilt is NothingRecorded) || footer::on_record(remembered) > 0)),
        footer::unrecorded_words(remembered) is Some <==> remembered.notified.persisted is Failed && (
        remembered.notify_health.notable > 0 || footer::on_record(remembered) > 0),
{
}

/// Whatever was not announced is owned up to: because this run does not, because the configuration cannot be
/// used, because there is no channel, because a channel failed, or because nothing was offered to one.
pub proof fn law_what_was_not_announced_is_owned_up_to(health: NotifyHealth)
    ensures
        footer::read_only_words(health) is Some <==> health.read_only is Some,
        footer::config_words(health) is Some <==> health.config.unusable is Some,
        footer::channel_words(health) is Some <==> (if health.config.local_command is Some
            || health.config.remote_url is Some {
            health.local_failed > 0 || health.remote_failed > 0
        } else {
            health.config.unusable is None && health.notable > 0
        }),
        footer::unsent_words(health) is Some <==> health.local_not_attempted > 0
            || health.remote_not_attempted > 0,
{
}

/// A channel is counted where there is something to count.
pub proof fn law_a_channels_count(channel: Seq<char>, count: usize, rest: Seq<char>)
    ensures
        footer::tally(channel, 0, rest).len() == 0,
        count > 0 ==> footer::tally(channel, count, rest) == seq![
            channel + text::decimal(count as nat) + rest,
        ],
{
}

/// What is said is put on lines, and nothing where nothing is said.
pub proof fn law_what_is_said_is_wrapped(words: Seq<char>, width: u16)
    ensures
        footer::said(Some(words), width) == lines::wrapped(words, width),
        footer::said(None, width).len() == 0,
{
}

/// A run that announces nothing says so, and nothing of channels; any other says what became of them.
pub proof fn law_a_reader_says_nothing_of_channels(remembered: Remembered, width: u16)
    ensures
        ({
            let health = remembered.notify_health;
            let first = footer::said(footer::unusable_words(remembered), width) + footer::said(
                footer::persisted_words(remembered),
                width,
            ) + footer::said(footer::forgotten_words(remembered), width) + footer::said(
                footer::detector_words(remembered),
                width,
            ) + footer::said(footer::rebuilt_words(remembered), width) + footer::said(
                footer::unrecorded_words(remembered),
                width,
            );
            &&& health.read_only is Some ==> footer::memory_part(remembered, width) == first
                + footer::said(footer::read_only_words(health), width)
            &&& health.read_only is None ==> footer::memory_part(remembered, width) == first
                + footer::said(footer::config_words(health), width) + footer::said(
                footer::channel_words(health),
                width,
            ) + footer::said(footer::unsent_words(health), width)
        }),
{
}

} // verus!
