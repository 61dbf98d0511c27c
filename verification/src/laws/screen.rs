//! The whole screen: gauges, heights, and what is dropped where it does not fit.

use crate::collect::{Session, Snapshot};
use crate::display;
use crate::display::{Facts, Meters, Screen};
use crate::meter::Share;
use crate::order;
use crate::render::body;
use crate::render::body::{Body, Drawing, Parts};
use crate::render::footer;
use crate::render::lines;
use crate::render::lines::Cell;
use crate::render::panel;
use crate::render::panel::Kind;
use crate::render::screen;
use crate::render::screen::{Fit, Level};
use crate::render::table;
use crate::text;
use crate::time::Duration;
use vstd::prelude::*;

verus! {

/// A bar has ten columns: as many bars as it is full and spaces for the rest; nine bars and a mark where it
/// is past its scale; and ten question marks where there is no figure.
pub proof fn law_what_a_bar_looks_like(columns: usize, i: int)
    requires
        0 <= i < 10,
    ensures
        screen::bar(Level::Filled(columns)).len() == 10,
        screen::bar(Level::Filled(columns))[i] == if i < columns {
            '|'
        } else {
            ' '
        },
        screen::bar(Level::PastScale).len() == 10,
        screen::bar(Level::PastScale)[i] == if i < 9 {
            '|'
        } else {
            '>'
        },
        screen::bar(Level::NoFigure).len() == 10,
        screen::bar(Level::NoFigure)[i] == '?',
{
    reveal_strlit(">");
}

/// A bar is as full as the share comes nearest to in tenths: no column more or less would be nearer, but
/// that something is never shown as nothing.
pub proof fn law_a_bar_is_as_full_as_its_share(share: Share, columns: usize)
    requires
        screen::level(share) == Level::Filled(columns),
    ensures
        share.span.nanos > 0,
        share.spent.nanos <= share.span.nanos,
        columns <= 10,
        20 * share.spent.nanos < (2 * columns + 1) * share.span.nanos,
        columns > 1 ==> 20 * share.spent.nanos >= (2 * columns - 1) * share.span.nanos,
        columns == 0 <==> share.spent.nanos == 0,
        share.spent.nanos == share.span.nanos ==> columns == 10,
{
    let spent = share.spent.nanos as int;
    let span = share.span.nanos as int;
    let tenths = screen::nearest(spent as nat, span as nat) as int;
    let whole = 20 * spent + span;
    let twice = 2 * span;
    vstd::arithmetic::div_mod::lemma_fundamental_div_mod(whole, twice);
    vstd::arithmetic::div_mod::lemma_mod_bound(whole, twice);
    assert(tenths == whole / twice);
    assert(twice * tenths <= whole < twice * tenths + twice);
    assert(twice * tenths == 2 * (tenths * span)) by (nonlinear_arith)
        requires
            twice == 2 * span,
    ;
    assert(tenths <= 10) by (nonlinear_arith)
        requires
            twice * tenths <= whole,
            whole == 20 * spent + span,
            twice == 2 * span,
            spent <= span,
            span > 0,
    ;
    assert((2 * tenths + 1) * span == 2 * (tenths * span) + span) by (nonlinear_arith);
    assert((2 * tenths - 1) * span == 2 * (tenths * span) - span) by (nonlinear_arith);
    if spent == span {
        assert(tenths >= 10) by (nonlinear_arith)
            requires
                whole < twice * tenths + twice,
                whole == 20 * spent + span,
                twice == 2 * span,
                spent == span,
                span > 0,
        ;
    }
    if spent == 0 {
        assert(tenths == 0) by (nonlinear_arith)
            requires
                twice * tenths <= whole,
                whole == 20 * spent + span,
                twice == 2 * span,
                spent == 0,
                span > 0,
                tenths >= 0,
        ;
    }
    if tenths == 0 && spent > 0 {
        assert(twice * tenths == 0) by (nonlinear_arith)
            requires
                tenths == 0,
        ;
        assert((2 * 1 + 1) * span == 3 * span) by (nonlinear_arith);
        assert(20 * spent < span);
    }
}

/// The overhead is shown against a second, and the duty cycle against its own span; what is missing is shown
/// with its reason.
pub proof fn law_what_the_gauges_show(meters: Meters, percentage: Seq<char>)
    ensures
        meters.overhead matches Ok(cost) ==> screen::overhead_reading(meters) == Ok::<
            (Seq<char>, Level),
            Seq<char>,
        >(
            (
                lines::cpu_words(cost),
                screen::level(Share { spent: cost, span: Duration { nanos: 1_000_000_000 } }),
            ),
        ),
        meters.duty_cycle matches Ok(share) ==> screen::duty_reading(meters, percentage) == Ok::<
            (Seq<char>, Level),
            Seq<char>,
        >((percentage, screen::level(share))),
        meters.overhead matches Err(why) ==> screen::overhead_reading(meters) == Err::<
            (Seq<char>, Level),
            Seq<char>,
        >(why.words()),
        meters.duty_cycle matches Err(why) ==> screen::duty_reading(meters, percentage) == Err::<
            (Seq<char>, Level),
            Seq<char>,
        >(why.words()),
{
}

/// A gauge has a label, a bar and a figure; without a figure it says that there is none, and why.
pub proof fn law_what_a_gauge_looks_like(
    label: Seq<char>,
    figure: Seq<char>,
    level: Level,
    why: Seq<char>,
    width: u16,
)
    ensures
        screen::gauge_cell_words(label, Ok((figure, level))) == text::filled_right(label, 19) + "["@
            + screen::bar(level) + text::filled_left(figure, 8) + "]"@,
        screen::gauge_cell_words(label, Err(why)) == text::filled_right(label, 19) + "["@
            + screen::bar(Level::NoFigure) + text::filled_left("absent"@, 8) + "]"@,
        screen::plain_gauge(label, Ok((figure, level))) == label + ": "@ + figure,
        screen::plain_gauge(label, Err(why)) == label + ": "@ + "absent"@,
        screen::gauge_excuse(label, Ok((figure, level)), width).len() == 0,
        screen::gauge_excuse(label, Err(why), width) == lines::wrapped(
            "  "@ + label + ": "@ + why,
            width,
        ),
{
}

/// Notices are put on lines one after the other.
pub proof fn law_notices_come_one_after_the_other(
    one: Seq<Seq<char>>,
    other: Seq<Seq<char>>,
    single: Seq<char>,
    width: u16,
)
    ensures
        screen::notice_lines(one + other, width) == screen::notice_lines(one, width)
            + screen::notice_lines(other, width),
        screen::notice_lines(seq![single], width) == lines::wrapped(single, width),
    decreases other.len(),
{
    if other.len() == 0 {
        assert(one + other =~= one);
        assert(screen::notice_lines(other, width) =~= Seq::<Seq<char>>::empty());
    } else {
        law_notices_come_one_after_the_other(one, other.drop_last(), single, width);
        assert((one + other).drop_last() =~= one + other.drop_last());
    }
    assert(screen::notice_lines(one + other, width) =~= screen::notice_lines(one, width)
        + screen::notice_lines(other, width));
    let nothing = seq![single].drop_last();
    assert(nothing =~= Seq::<Seq<char>>::empty());
    assert(screen::notice_lines(nothing, width) =~= Seq::<Seq<char>>::empty());
    assert(screen::notice_lines(seq![single], width) =~= lines::wrapped(single, width));
}

/// A number of rows is what it is, as far as a terminal counts.
pub proof fn law_rows_are_counted_as_far_as_a_terminal_counts(rows: int)
    requires
        rows >= 0,
    ensures
        rows <= 65_535 ==> screen::capped(rows) == rows,
        rows >= 65_535 ==> screen::capped(rows) == 65_535,
{
}

/// The panel is as high as its rows, its summary, and its three lines of frame; the body as high as the rows
/// of the table, its frame, the panel, and what is under it.
pub proof fn law_how_high_the_parts_are(snapshot: Snapshot, width: u16)
    ensures
        screen::panel_rows(snapshot) == 3 + panel::count(snapshot.workspaces@, Kind::Stranded)
            + panel::count(snapshot.workspaces@, Kind::Unreadable) + panel::count(
            snapshot.workspaces@,
            Kind::Driven,
        ) + panel::summary(snapshot).len(),
        width >= 97 ==> screen::body_rows(snapshot, width) == snapshot.sessions@.len() + 3
            + screen::panel_rows(snapshot) + footer::footer(snapshot, width).len(),
        width < 97 ==> screen::body_rows(snapshot, width) == lines::wrapped(
            table::too_narrow(width),
            width,
        ).len(),
        screen::facts_rows(Facts::Own(snapshot), width) == screen::body_rows(snapshot, width),
{
    super::drawing::law_how_wide_the_table_is(width);
}

/// As many rows are drawn as fit: that many fit, and not one more does.
pub proof fn law_as_many_rows_as_fit(
    upto: int,
    total: int,
    around: nat,
    needs: u16,
    width: u16,
    height: u16,
    more: int,
)
    ensures
        ({
            let most = screen::most_that_fit(upto, total, around, needs, width, height);
            &&& 0 <= most
            &&& upto >= 0 ==> most <= upto
            &&& most > 0 ==> screen::rows_fit(most, total, around, needs, width, height)
            &&& most < more <= upto ==> !screen::rows_fit(
                more,
                total,
                around,
                needs,
                width,
                height,
            )
        }),
    decreases upto,
{
    if upto > 0 && !screen::rows_fit(upto, total, around, needs, width, height) {
        law_as_many_rows_as_fit(upto - 1, total, around, needs, width, height, more);
    }
}

/// Rows fit where what is round them, the table's frame, the rows and the notice are no higher than the
/// screen.
pub proof fn law_when_rows_fit(
    shown: int,
    total: int,
    around: nat,
    needs: u16,
    width: u16,
    height: u16,
)
    ensures
        screen::rows_fit(shown, total, around, needs, width, height) <==> around + 3 + shown
            + lines::wrapped(
            screen::shortfall((total - shown) as nat, true, false, needs, height),
            width,
        ).len() <= height,
{
}

/// Everything is drawn where the screen is high enough; where it is not, so many rows as fit, and the rest
/// is counted.
pub proof fn law_what_is_drawn_of_the_table(
    fit: Fit,
    header: nat,
    needs: u16,
    snapshot: Snapshot,
    width: u16,
    height: u16,
)
    requires
        screen::is_fit(fit, header, needs, snapshot, width, height),
    ensures
        height >= needs ==> fit.table && fit.shown == snapshot.sessions@.len() && fit.hidden == 0
            && fit.notice@.len() == 0,
        fit.shown + fit.hidden == snapshot.sessions@.len(),
        fit.hidden > 0 && fit.table ==> screen::rows_fit(
            fit.shown as int,
            snapshot.sessions@.len() as int,
            screen::around_the_table(header, snapshot, width),
            needs,
            width,
            height,
        ),
        !fit.table ==> fit.shown == 0 && height < needs,
{
    let total = snapshot.sessions@.len() as int;
    law_as_many_rows_as_fit(
        total,
        total,
        screen::around_the_table(header, snapshot, width),
        needs,
        width,
        height,
        total,
    );
}

/// Whether sessions are ranked by cost: all of them, each once, those without a figure first, and of two with
/// figures the costlier before the other.
pub open spec fn are_ranked_by_cost(ranked: Seq<usize>, sessions: Seq<Session>) -> bool {
    &&& order::is_arrangement(ranked, sessions.len() as int)
    &&& forall|i: int, j: int|
        #![trigger ranked[i], ranked[j]]
        0 <= i < j < ranked.len() && display::child_cost(sessions[ranked[i] as int]) is Ok
            ==> display::child_cost(sessions[ranked[j] as int]) is Ok && display::child_cost(
            sessions[ranked[i] as int],
        )->Ok_0.nanos >= display::child_cost(sessions[ranked[j] as int])->Ok_0.nanos
}

/// The rows of the table are those of the costliest sessions, the costliest first.
pub proof fn law_the_costliest_are_shown(
    rows: Seq<Vec<Cell>>,
    sessions: Seq<Session>,
    shown: nat,
    width: u16,
)
    requires
        body::are_rows(rows, sessions, shown, width),
    ensures
        shown >= sessions.len() ==> rows.len() == sessions.len(),
        shown < sessions.len() ==> rows.len() == shown,
        exists|ranked: Seq<usize>|
            {
                &&& #[trigger] are_ranked_by_cost(ranked, sessions)
                &&& forall|i: int|
                    0 <= i < rows.len() ==> table::is_row(
                        (#[trigger] rows[i])@,
                        sessions[ranked[i] as int],
                        table::left_for_workspace(width),
                    )
            },
{
    let ranks = display::ranks(sessions);
    let ranked = choose|ranked: Seq<usize>|
        {
            &&& #[trigger] order::is_stable_order(ranks, ranked)
            &&& rows.len() == if shown < sessions.len() {
                shown
            } else {
                sessions.len()
            }
            &&& forall|i: int|
                0 <= i < rows.len() ==> table::is_row(
                    (#[trigger] rows[i])@,
                    sessions[ranked[i] as int],
                    table::left_for_workspace(width),
                )
        };
    assert forall|i: int, j: int|
        #![trigger ranked[i], ranked[j]]
        0 <= i < j < ranked.len() && display::child_cost(
            sessions[ranked[i] as int],
        ) is Ok implies display::child_cost(sessions[ranked[j] as int]) is Ok && display::child_cost(
        sessions[ranked[i] as int],
    )->Ok_0.nanos >= display::child_cost(sessions[ranked[j] as int])->Ok_0.nanos by {
        assert(order::belongs_before(ranks, ranked[i] as int, ranked[j] as int));
        assert(ranks[ranked[i] as int] == display::rank(
            display::child_cost(sessions[ranked[i] as int]),
        ));
        assert(ranks[ranked[j] as int] == display::rank(
            display::child_cost(sessions[ranked[j] as int]),
        ));
    }
    assert(are_ranked_by_cost(ranked, sessions));
}

/// In the panel a blank line parts the rows from the summary where there are both.
pub proof fn law_a_blank_line_parts_rows_and_summary(
    rows: Seq<Seq<char>>,
    summary: Seq<Seq<char>>,
)
    ensures
        rows.len() > 0 && summary.len() > 0 ==> body::panel_lines(rows, summary) == rows + seq![""@]
            + summary,
        rows.len() == 0 ==> body::panel_lines(rows, summary) == summary,
        summary.len() == 0 ==> body::panel_lines(rows, summary) == rows,
{
    assert(rows.push(""@) =~= rows + seq![""@]);
    assert(rows.len() == 0 ==> rows + summary =~= summary);
    assert(summary.len() == 0 ==> rows + summary =~= rows);
}

/// A screen that is too narrow says so in place of everything else, and any other has the panel, the caveats
/// and, where any of it fits, the table.
pub proof fn law_what_stands_under_the_header(body: Body, snapshot: Snapshot, fit: Fit, width: u16)
    requires
        body::is_body(body, snapshot, fit, width),
    ensures
        body is Message <==> width < 97,
        body matches Body::Parts(parts) ==> {
            &&& parts.table is Some <==> fit.table
            &&& parts.panel_title@ == panel::title(snapshot.workspaces@)
            &&& text::texts(parts.caveats@) == footer::footer(snapshot, width)
            &&& !fit.table ==> parts.table_height == 0
            &&& fit.table && fit.shown <= 65_000 ==> parts.table_height == fit.shown + 3
            &&& fit.table ==> parts.table->0.title@ == table::title(
                snapshot.sessions@.len(),
                fit.shown as nat,
                fit.hidden as nat,
            )
        },
{
    super::drawing::law_how_wide_the_table_is(width);
}

/// A screen without facts of its own says why; one with some draws them as far as they fit.
pub proof fn law_what_stands_on_a_screen(
    drawing: Drawing,
    shown: Screen,
    percentage: Seq<char>,
    width: u16,
    height: u16,
)
    requires
        body::is_drawing(drawing, shown, percentage, width, height),
    ensures
        shown.facts matches Facts::Missing(reason) ==> drawing.notice@.len() == 0 && drawing.body
            is Message && text::texts(drawing.body->Message_0@) == lines::wrapped(
            screen::no_facts(reason@),
            width,
        ),
        shown.facts is Own && width >= 97 ==> drawing.body is Parts,
        drawing.header@.len() <= 65_535 ==> drawing.header_height == drawing.header@.len(),
        drawing.notice@.len() <= 65_535 ==> drawing.notice_height == drawing.notice@.len(),
{
    super::drawing::law_how_wide_the_table_is(width);
}

} // verus!
