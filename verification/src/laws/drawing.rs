//! What is drawn: lines, the table, and the panel of workspaces at risk.

use crate::collect::{Identity, Session, Snapshot, WorkspaceReport};
use crate::liveness::State;
use crate::order;
use crate::render::lines;
use crate::render::lines::Cell;
use crate::render::panel;
use crate::render::panel::{Kind, Miss};
use crate::render::table;
use crate::text;
use crate::time::Duration;
use crate::vcs::{Unreadable, WorkspaceState};
use crate::world::{NamespaceResolution, Resources};
use vstd::prelude::*;

verus! {

// --- Lines -------------------------------------------------------------------------------------

/// A part goes onto the line that is being filled if it fits there with what comes between, and otherwise
/// onto the next; the first part begins a line.
pub proof fn law_a_line_is_filled_as_far_as_it_goes(
    parts: Seq<Seq<char>>,
    part: Seq<char>,
    between: Seq<char>,
    width: int,
)
    ensures
        ({
            let before = lines::filled(parts, between, width);
            let after = lines::filled(parts.push(part), between, width);
            &&& before.1.len() == 0 ==> after.0 == before.0 && after.1 == part
            &&& before.1.len() > 0 && (before.1 + between + part).len() <= width ==> after.0
                == before.0 && after.1 == before.1 + between + part
            &&& before.1.len() > 0 && (before.1 + between + part).len() > width ==> after.0
                == before.0.push(before.1) && after.1 == part
        }),
        lines::filled(Seq::empty(), between, width).0.len() == 0,
        lines::filled(Seq::empty(), between, width).1.len() == 0,
{
    assert(parts.push(part).drop_last() =~= parts);
}

/// The lines that parts fill are the full ones and the one that is left, where anything is on it; and the
/// width is never less than one column.
pub proof fn law_the_last_line_counts(parts: Seq<Seq<char>>, between: Seq<char>, width: u16)
    ensures
        ({
            let done = lines::filled(parts, between, lines::columns(width));
            &&& done.1.len() == 0 ==> lines::packed(parts, between, width) == done.0
            &&& done.1.len() > 0 ==> lines::packed(parts, between, width) == done.0 + seq![done.1]
        }),
        lines::columns(width) >= 1,
        width >= 1 ==> lines::columns(width) == width,
{
    let done = lines::filled(parts, between, lines::columns(width));
    assert(done.0.push(done.1) =~= done.0 + seq![done.1]);
}

/// A text that is cut short keeps its beginning, and one that is cut off keeps its end, with a mark where
/// the rest was.
pub proof fn law_what_is_kept_of_a_cut_text(text: Seq<char>, width: u16, i: int)
    requires
        0 < width < text.len(),
        0 <= i < width - 1,
    ensures
        lines::cut_short(text, width).len() == width,
        lines::cut_short(text, width)[i] == text[i],
        lines::cut_short(text, width)[width - 1] == '…',
        lines::cut_off(text, width).len() == width,
        lines::cut_off(text, width)[0] == '…',
        lines::cut_off(text, width)[i + 1] == text[text.len() - (width - 1) + i],
{
    reveal_strlit("…");
}

/// An age is told in days from two days on, and below in hours and minutes, minutes and seconds, or seconds.
pub proof fn law_how_an_age_is_told(
    days: nat,
    hours: nat,
    minutes: nat,
    seconds: nat,
    span: Duration,
)
    requires
        hours < 24,
        minutes < 60,
        seconds < 60,
        span.secs() == ((days * 24 + hours) * 60 + minutes) * 60 + seconds,
    ensures
        lines::age_words(span) == if days > 1 {
            text::decimal(days) + " days"@
        } else if days == 1 {
            "1 day"@
        } else if hours > 0 {
            text::decimal(hours) + "h"@ + text::padded_decimal(minutes as int, 2) + "m"@
        } else if minutes > 0 {
            text::decimal(minutes) + "m"@ + text::padded_decimal(seconds as int, 2) + "s"@
        } else {
            text::decimal(seconds) + "s"@
        },
{
    let all = span.secs();
    assert(all / 86_400 == days);
    assert((all % 3_600) / 60 == minutes);
    assert(all % 60 == seconds);
    if days == 0 {
        assert(all / 3_600 == hours);
        if hours == 0 {
            assert(all / 60 == minutes);
        }
    }
}

/// A CPU time is told in hours and minutes, minutes and seconds, or seconds and tenths.
pub proof fn law_how_a_cpu_time_is_told(hours: nat, minutes: nat, seconds: nat, span: Duration)
    requires
        minutes < 60,
        seconds < 60,
        span.secs() == (hours * 60 + minutes) * 60 + seconds,
    ensures
        lines::cpu_words(span) == if hours > 0 {
            text::decimal(hours) + "h"@ + text::padded_decimal(minutes as int, 2) + "m"@
        } else if minutes > 0 {
            text::decimal(minutes) + "m"@ + text::padded_decimal(seconds as int, 2) + "s"@
        } else {
            span.tenths() + "s"@
        },
{
    let all = span.secs();
    assert(all / 3_600 == hours);
    assert((all % 3_600) / 60 == minutes);
    assert(all % 60 == seconds);
    if hours == 0 {
        assert(all / 60 == minutes);
    }
}

/// A number of bytes is told in the greatest unit that it fills, rounded down, with a mark where it is not
/// current.
pub proof fn law_how_bytes_are_told(cell: Cell, bytes: u64, whole: nat, rest: nat)
    requires
        lines::is_bytes_cell(cell, bytes, false),
    ensures
        bytes >= 1_000_000_000 <==> cell is Gigabytes,
        bytes < 1_000 ==> cell->Text_0@ == text::decimal(bytes as nat) + " B"@ + ""@,
        bytes == whole * 1_000 + rest && rest < 1_000 && 1 <= whole < 1_000 ==> cell->Text_0@
            == text::decimal(whole) + " kB"@ + ""@,
        bytes == whole * 1_000_000 + rest && rest < 1_000_000 && 1 <= whole < 1_000
            ==> cell->Text_0@ == text::decimal(whole) + " MB"@ + ""@,
{
    if bytes == whole * 1_000 + rest && rest < 1_000 {
        assert(bytes as nat / 1_000 == whole);
    }
    if bytes == whole * 1_000_000 + rest && rest < 1_000_000 {
        assert(bytes as nat / 1_000_000 == whole);
    }
}

// --- The table ---------------------------------------------------------------------------------

/// The columns are as wide as they are together, the workspace gets what they leave, and never less than
/// sixteen.
pub proof fn law_how_wide_the_table_is(total: u16)
    ensures
        table::taken() == 81,
        table::least_width() == 97,
        total >= 97 ==> table::left_for_workspace(total) == total - 81,
        total <= 97 ==> table::left_for_workspace(total) == 16,
        table::columns().len() == 8,
{
    lemma_columns_together();
}

proof fn lemma_columns_together()
    ensures
        table::widths(table::columns()) == 71,
{
    let all = table::columns();
    reveal_with_fuel(table::widths, 9);
    assert(all.drop_last().drop_last() == all.take(6));
    assert(all.drop_last() =~= all.take(7));
    assert(all.take(7).drop_last() =~= all.take(6));
    assert(all.take(6).drop_last() =~= all.take(5));
    assert(all.take(5).drop_last() =~= all.take(4));
    assert(all.take(4).drop_last() =~= all.take(3));
    assert(all.take(3).drop_last() =~= all.take(2));
    assert(all.take(2).drop_last() =~= all.take(1));
    assert(all.take(1).drop_last() =~= all.take(0));
}

/// A session's state is shown by its word, with a question mark where it was inferred, and an exclamation mark
/// where it was not and can never be known.
pub proof fn law_how_a_state_is_shown(session: Session)
    ensures
        ({
            let word = match session.liveness.state {
                State::Active => "ACTIVE"@,
                State::Waiting => "WAITING"@,
                State::Stalled => "STALLED"@,
                State::Unknown => "UNKNOWN"@,
            };
            let inferred = session.liveness.method is ProcessResidentButSilent
                || session.liveness.method is WorkRunningInWorkspace;
            &&& inferred ==> table::state_words(session) == word + "?"@
            &&& !inferred && session.doubt() is Some && (session.doubt()->0).0
                ==> table::state_words(session) == word + "!"@
            &&& !inferred && (session.doubt() is None || !(session.doubt()->0).0)
                ==> table::state_words(session) == word
        }),
{
}

/// A row of the table has the pid, the CLI, the state, the five figures in their order, and the workspace.
pub proof fn law_what_stands_in_a_row(cells: Seq<Cell>, session: Session, width: u16, own: Resources)
    requires
        table::is_row(cells, session, width),
    ensures
        cells.len() == 9,
        session.identity matches Identity::Process { pid } ==> table::is_text(
            cells[0],
            text::signed_decimal(pid as int),
        ),
        session.identity is Transcript ==> table::is_text(cells[0], "gone"@),
        session.cli@.len() <= 12 ==> table::is_text(cells[1], session.cli@),
        table::is_text(cells[2], table::state_words(session)),
        session.resources == Ok::<Resources, crate::world::ResourcesUnavailable>(own) ==> {
            &&& table::is_cpu_cell(cells[3], own.own_cpu, false)
            &&& table::is_cpu_cell(cells[4], own.children_cpu, false)
            &&& table::is_size_cell(cells[5], own.current_memory, false)
            &&& table::is_size_cell(cells[6], own.peak_memory, false)
            &&& table::is_size_cell(cells[7], own.bytes_written, false)
        },
        session.workspace matches Ok(place) ==> table::is_text(
            cells[8],
            lines::cut_off(place.path@, width),
        ),
{
    let figures = cells.subrange(3, 8);
    assert(figures[0] == cells[3]);
    assert(figures[1] == cells[4]);
    assert(figures[2] == cells[5]);
    assert(figures[3] == cells[6]);
    assert(figures[4] == cells[7]);
}

/// A figure that was measured is shown, and one that was not is replaced by the reason.
pub proof fn law_a_cell_shows_a_figure_or_a_reason(
    cell: Cell,
    span: Duration,
    bytes: u64,
    why: crate::world::Unmeasured,
)
    ensures
        table::is_cpu_cell(cell, Ok(span), false) <==> table::is_text(
            cell,
            lines::cpu_words(span) + ""@,
        ),
        table::is_cpu_cell(cell, Ok(span), true) <==> table::is_text(
            cell,
            lines::cpu_words(span) + "*"@,
        ),
        table::is_cpu_cell(cell, Err(why), false) <==> table::is_text(cell, why.words()),
        table::is_size_cell(cell, Err(why), false) <==> table::is_text(cell, why.words()),
        table::is_size_cell(cell, Ok(bytes), false) <==> lines::is_bytes_cell(cell, bytes, false),
{
}

// --- The panel ---------------------------------------------------------------------------------

/// A path in the panel gets what the columns before it leave, and never less than sixteen.
pub proof fn law_how_wide_a_path_is_shown(total: u16)
    ensures
        total >= 58 ==> panel::path_width(total) == total - 42,
        total <= 58 ==> panel::path_width(total) == 16,
{
}

/// Every workspace is of one kind: stranded, driven, clean, unreadable where a query failed or timed out,
/// under no version control, gone, or not yet read.
pub proof fn law_of_which_kind_a_workspace_is(state: WorkspaceState, why: String)
    ensures
        panel::kind_of(WorkspaceState::DirtyStranded) == Kind::Stranded,
        panel::kind_of(WorkspaceState::DirtyDriven) == Kind::Driven,
        panel::kind_of(WorkspaceState::Clean) == Kind::Clean,
        panel::kind_of(WorkspaceState::Unknown(Unreadable::QueryFailed(why))) == Kind::Unreadable,
        panel::kind_of(WorkspaceState::Unknown(Unreadable::TimedOut)) == Kind::Unreadable,
        panel::kind_of(WorkspaceState::Unknown(Unreadable::NotVersionControlled))
            == Kind::NotVersionControlled,
        panel::kind_of(WorkspaceState::Unknown(Unreadable::PathGone)) == Kind::Gone,
        panel::kind_of(WorkspaceState::Unknown(Unreadable::NotYetRead)) == Kind::NotYetRead,
        state.risky() <==> panel::kind_of(state) == Kind::Stranded || panel::kind_of(state)
            == Kind::Unreadable,
{
}

/// The workspaces of a kind are all of that kind, as they stand.
pub proof fn law_workspaces_are_sorted_out_by_kind(
    one: Seq<WorkspaceReport>,
    other: Seq<WorkspaceReport>,
    single: WorkspaceReport,
    wanted: Kind,
)
    ensures
        panel::of_kind(one + other, wanted) == panel::of_kind(one, wanted) + panel::of_kind(
            other,
            wanted,
        ),
        panel::of_kind(seq![single], wanted) == if panel::kind_of(single.state) == wanted {
            seq![single]
        } else {
            Seq::empty()
        },
    decreases other.len(),
{
    if other.len() == 0 {
        assert(one + other =~= one);
        assert(panel::of_kind(other, wanted) =~= Seq::<WorkspaceReport>::empty());
    } else {
        law_workspaces_are_sorted_out_by_kind(one, other.drop_last(), single, wanted);
        assert((one + other).drop_last() =~= one + other.drop_last());
    }
    assert(panel::of_kind(one + other, wanted) =~= panel::of_kind(one, wanted) + panel::of_kind(
        other,
        wanted,
    ));
    assert(seq![single].drop_last() =~= Seq::<WorkspaceReport>::empty());
    assert(panel::of_kind(seq![single].drop_last(), wanted) =~= Seq::<WorkspaceReport>::empty());
    assert(panel::of_kind(seq![single], wanted) =~= if panel::kind_of(single.state) == wanted {
        seq![single]
    } else {
        Seq::empty()
    });
}

/// Of an unknown workspace the reason is shown, and of any other how much is uncommitted.
pub proof fn law_a_count_or_the_reason_for_none(workspace: WorkspaceReport, entries: usize)
    ensures
        workspace.state matches WorkspaceState::Unknown(why) ==> panel::count_or_reason(workspace)
            == why.words(),
        !(workspace.state is Unknown) && workspace.uncommitted_entries == Some(entries)
            ==> panel::count_or_reason(workspace) == text::decimal(entries as nat),
{
}

/// A row of the panel has the state, the count, the kind of worktree and the path, in their columns.
pub proof fn law_what_stands_in_a_row_of_the_panel(workspace: WorkspaceReport, width: u16)
    ensures
        text::begins_with(
            panel::row_words(workspace, width),
            text::filled_right(workspace.state.word(), 14),
        ),
        text::ends_in(
            panel::row_words(workspace, width),
            lines::cut_off(workspace.path@, width),
        ),
        text::contains_text(
            panel::row_words(workspace, width),
            text::filled_right(panel::count_or_reason(workspace), 15),
        ),
        workspace.linked_worktree ==> text::contains_text(
            panel::row_words(workspace, width),
            text::filled_right("worktree"@, 8),
        ),
        !workspace.linked_worktree ==> text::contains_text(
            panel::row_words(workspace, width),
            text::filled_right("primary"@, 8),
        ),
{
    let state = text::filled_right(workspace.state.word(), 14);
    let count = text::filled_right(panel::count_or_reason(workspace), 15);
    let kind = text::filled_right(
        if workspace.linked_worktree {
            "worktree"@
        } else {
            "primary"@
        },
        8,
    );
    let path = lines::cut_off(workspace.path@, width);
    let row = panel::row_words(workspace, width);
    lemma_four_columns(row, state, count, kind, path);
}

proof fn lemma_four_columns(
    row: Seq<char>,
    one: Seq<char>,
    two: Seq<char>,
    three: Seq<char>,
    four: Seq<char>,
)
    requires
        row == one + " "@ + two + " "@ + three + " "@ + four,
    ensures
        text::begins_with(row, one),
        text::contains_text(row, two),
        text::contains_text(row, three),
        text::ends_in(row, four),
{
    let space = " "@;
    assert(row =~= one + (space + two + space + three + space + four));
    super::text::law_what_stands_in_a_text(
        Seq::empty(),
        one,
        space + two + space + three + space + four,
    );
    assert(row =~= (one + space) + two + (space + three + space + four));
    super::text::law_what_stands_in_a_text(one + space, two, space + three + space + four);
    assert(row =~= (one + space + two + space) + three + (space + four));
    super::text::law_what_stands_in_a_text(one + space + two + space, three, space + four);
    assert(row =~= (one + space + two + space + three + space) + four);
    super::text::law_what_stands_in_a_text(
        one + space + two + space + three + space,
        four,
        Seq::empty(),
    );
}

/// The panel has a row for every stranded workspace, the most to lose first, then for every unreadable one, then
/// for every driven one, and no others.
pub proof fn law_the_order_of_the_panel(
    rows: Seq<Seq<char>>,
    workspaces: Seq<WorkspaceReport>,
    width: u16,
    i: int,
)
    requires
        panel::are_panel_rows(rows, workspaces, width),
    ensures
        ({
            let stranded = panel::count(workspaces, Kind::Stranded);
            let unreadable = panel::count(workspaces, Kind::Unreadable);
            let driven = panel::count(workspaces, Kind::Driven);
            &&& rows.len() == stranded + unreadable + driven
            &&& 0 <= i < unreadable ==> rows[stranded + i] == panel::row_words(
                panel::of_kind(workspaces, Kind::Unreadable)[i],
                panel::path_width(width),
            )
            &&& 0 <= i < driven ==> rows[stranded + unreadable + i] == panel::row_words(
                panel::of_kind(workspaces, Kind::Driven)[i],
                panel::path_width(width),
            )
            &&& 0 <= i < stranded ==> exists|k: int|
                0 <= k < stranded && rows[i] == panel::row_words(
                    #[trigger] panel::of_kind(workspaces, Kind::Stranded)[k],
                    panel::path_width(width),
                )
        }),
{
    let stranded = panel::of_kind(workspaces, Kind::Stranded);
    let order = choose|order: Seq<usize>|
        {
            &&& #[trigger] order::is_stable_order(panel::losses(stranded), order)
            &&& rows == panel::rows_of(order::arranged(stranded, order), panel::path_width(width))
                + panel::rows_of(
                panel::of_kind(workspaces, Kind::Unreadable),
                panel::path_width(width),
            ) + panel::rows_of(
                panel::of_kind(workspaces, Kind::Driven),
                panel::path_width(width),
            )
        };
    if 0 <= i < stranded.len() {
        let k = order[i] as int;
        assert(rows[i] == panel::row_words(stranded[k], panel::path_width(width)));
    }
}

/// Of two stranded workspaces the one with more to lose comes first.
pub proof fn law_the_most_to_lose_comes_first(
    stranded: Seq<WorkspaceReport>,
    order: Seq<usize>,
    i: int,
    j: int,
    more: usize,
    less: usize,
)
    requires
        order::is_stable_order(panel::losses(stranded), order),
        0 <= i < j < order.len(),
        stranded[order[i] as int].uncommitted_entries == Some(less),
        stranded[order[j] as int].uncommitted_entries == Some(more),
    ensures
        more <= less,
{
    let keys = panel::losses(stranded);
    assert(order::belongs_before(keys, order[i] as int, order[j] as int));
    assert(keys[order[i] as int].entries == less);
    assert(keys[order[j] as int].entries == more);
}

/// Recorded names that led nowhere are counted one by one, each as what it is.
pub proof fn law_every_miss_counts_once(
    one: Seq<(String, NamespaceResolution)>,
    other: Seq<(String, NamespaceResolution)>,
    single: (String, NamespaceResolution),
    wanted: Miss,
)
    ensures
        panel::misses(one + other, wanted) == panel::misses(one, wanted) + panel::misses(
            other,
            wanted,
        ),
        panel::misses(seq![single], Miss::NoLongerExists) == if single.1 is NoLongerExists {
            1nat
        } else {
            0nat
        },
        panel::misses(seq![single], Miss::Ambiguous) == if single.1 is Ambiguous {
            1nat
        } else {
            0nat
        },
        panel::misses(seq![single], Miss::SearchExhausted) == if single.1 is SearchExhausted {
            1nat
        } else {
            0nat
        },
        panel::misses(seq![single], Miss::Misfiled) == if single.1 is Resolved {
            1nat
        } else {
            0nat
        },
    decreases other.len(),
{
    if other.len() == 0 {
        assert(one + other =~= one);
        assert(panel::misses(other, wanted) == 0);
    } else {
        law_every_miss_counts_once(one, other.drop_last(), single, wanted);
        assert((one + other).drop_last() =~= one + other.drop_last());
    }
    let nothing = seq![single].drop_last();
    assert(nothing =~= Seq::<(String, NamespaceResolution)>::empty());
    assert(panel::misses(nothing, Miss::NoLongerExists) == 0);
    assert(panel::misses(nothing, Miss::Ambiguous) == 0);
    assert(panel::misses(nothing, Miss::SearchExhausted) == 0);
    assert(panel::misses(nothing, Miss::Misfiled) == 0);
}

/// A count is told where there is anything to count, and a list where there is anything on it.
pub proof fn law_nothing_is_told_of_nothing(count: nat, what: Seq<char>, parts: Seq<Seq<char>>)
    ensures
        panel::tally(0, what).len() == 0,
        count > 0 ==> panel::tally(count, what) == seq![text::decimal(count) + what],
        panel::listed(what, Seq::empty()).len() == 0,
        parts.len() > 0 ==> panel::listed(what, parts) == seq![
            what + text::joined(parts, ", "@) + "."@,
        ],
{
}

/// That nothing is at risk is said exactly where nothing is; and never of a machine on which nothing was
/// found.
pub proof fn law_a_clear_result_is_not_an_empty_one(workspaces: Seq<WorkspaceReport>)
    ensures
        panel::verdict(workspaces).len() == 0 <==> panel::at_risk(workspaces) > 0,
        workspaces.len() == 0 ==> panel::verdict(workspaces) == seq![
            "No workspaces were located, so NOTHING WAS CHECKED — this is not a clear result."@,
        ],
        workspaces.len() > 0 && panel::at_risk(workspaces) == 0 && panel::count(
            workspaces,
            Kind::Driven,
        ) > 0 ==> panel::verdict(workspaces) == seq![
            "No workspaces at risk — all dirty workspaces have active sessions."@,
        ],
        workspaces.len() > 0 && panel::at_risk(workspaces) == 0 && panel::count(
            workspaces,
            Kind::Driven,
        ) == 0 ==> panel::verdict(workspaces) == seq![
            "No workspaces at risk — all checked workspaces are clean."@,
        ],
        panel::at_risk(workspaces) == panel::count(workspaces, Kind::Stranded) + panel::count(
            workspaces,
            Kind::Unreadable,
        ),
{
}

/// A search that was not completed is always owned up to, in the last line of the summary.
pub proof fn law_a_partial_search_is_owned_up_to(snapshot: Snapshot)
    ensures
        !snapshot.sweep_complete ==> panel::summary(snapshot).len() > 0 && panel::summary(
            snapshot,
        ).last()
            == "WARNING: Directory sweep incomplete — this list is partial, not exhaustive."@,
{
}

} // verus!
