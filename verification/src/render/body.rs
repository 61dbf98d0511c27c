//! Everything that stands on the screen and how high each part of it is, so that whoever draws it has
//! nothing left to decide.

use crate::collect::{Session, Snapshot};
use crate::display;
use crate::display::{Facts, Screen};
use crate::order;
use crate::render::footer;
use crate::render::lines;
use crate::render::lines::Cell;
use crate::render::panel;
use crate::render::screen;
use crate::render::screen::Fit;
use crate::render::table;
use crate::text;
use vstd::prelude::*;

verus! {

/// The table of sessions.
#[derive(Debug, PartialEq, Eq)]
pub struct TablePart {
    pub title: String,
    pub headings: Vec<&'static str>,
    pub widths: Vec<u16>,
    pub rows: Vec<Vec<Cell>>,
}

/// What stands under the header.
#[derive(Debug, PartialEq, Eq)]
pub struct Parts {
    pub table: Option<TablePart>,
    pub table_height: u16,
    pub panel_title: String,
    pub panel: Vec<String>,
    pub panel_height: u16,
    pub caveats: Vec<String>,
    pub caveats_height: u16,
}

/// What stands under the header, or one message in its place.
#[derive(Debug, PartialEq, Eq)]
pub enum Body {
    Message(Vec<String>),
    Parts(Parts),
}

/// Whether these are the rows of the table: those of the costliest sessions, so many of them.
pub open spec fn are_rows(
    rows: Seq<Vec<Cell>>,
    sessions: Seq<Session>,
    shown: nat,
    width: u16,
) -> bool {
    exists|ranked: Seq<usize>|
        {
            &&& #[trigger] order::is_stable_order(display::ranks(sessions), ranked)
            &&& rows.len() == if shown < sessions.len() {
                shown
            } else {
                sessions.len()
            }
            &&& forall|i: int|
                0 <= i < rows.len() ==> table::is_row(
                    (#[trigger] rows[i])@,
                    sessions[ranked[i] as int],
                    table::left_for_workspace(width),
                )
        }
}

/// Whether this is the table.
pub open spec fn is_table(part: TablePart, snapshot: Snapshot, fit: Fit, width: u16) -> bool {
    &&& part.title@ == table::title(
        snapshot.sessions@.len(),
        fit.shown as nat,
        fit.hidden as nat,
    )
    &&& part.headings@ == table::columns().map_values(|one: (&'static str, u16)| one.0).push(
        table::WORKSPACE_HEADER,
    )
    &&& part.widths@ == table::columns().map_values(|one: (&'static str, u16)| one.1).push(
        table::left_for_workspace(width),
    )
    &&& are_rows(part.rows@, snapshot.sessions@, fit.shown as nat, width)
}

/// The panel's rows and what is under them, with a blank line between where there are both.
pub open spec fn panel_lines(rows: Seq<Seq<char>>, summary: Seq<Seq<char>>) -> Seq<Seq<char>> {
    if rows.len() > 0 && summary.len() > 0 {
        rows.push(""@) + summary
    } else {
        rows + summary
    }
}

/// Whether this is the panel.
pub open spec fn is_panel(parts: Parts, snapshot: Snapshot, width: u16) -> bool {
    &&& parts.panel_title@ == panel::title(snapshot.workspaces@)
    &&& exists|rows: Seq<Seq<char>>| #[trigger]
        panel::are_panel_rows(rows, snapshot.workspaces@, width) && text::texts(parts.panel@)
            == panel_lines(rows, panel::summary(snapshot))
    &&& parts.panel_height == screen::capped(screen::panel_rows(snapshot) as int)
}

/// Whether this is what stands under the header.
pub open spec fn is_body(body: Body, snapshot: Snapshot, fit: Fit, width: u16) -> bool {
    if width < table::least_width() {
        body matches Body::Message(found) && text::texts(found@) == lines::wrapped(
            table::too_narrow(width),
            width,
        )
    } else {
        body is Parts && are_parts(body->Parts_0, snapshot, fit, width)
    }
}

/// Whether these are the parts that stand under the header.
pub open spec fn are_parts(parts: Parts, snapshot: Snapshot, fit: Fit, width: u16) -> bool {
    &&& parts.table is Some == fit.table
    &&& fit.table ==> is_table(parts.table->0, snapshot, fit, width)
    &&& parts.table_height == if fit.table {
        screen::capped(table::TABLE_CHROME + fit.shown)
    } else {
        0
    }
    &&& is_panel(parts, snapshot, width)
    &&& text::texts(parts.caveats@) == footer::footer(snapshot, width)
    &&& parts.caveats_height == screen::capped(footer::footer(snapshot, width).len() as int)
}

fn table_of(snapshot: &Snapshot, fit: &Fit, width: u16) -> (part: TablePart)
    ensures
        is_table(part, *snapshot, *fit, width),
{
    let left: u16 = table::workspace_width(width);
    let columns: [(&'static str, u16); 8] = table::fixed_columns();
    let mut headings: Vec<&'static str> = Vec::new();
    let mut widths: Vec<u16> = Vec::new();
    let ghost names = table::columns().map_values(|one: (&'static str, u16)| one.0);
    let ghost sizes = table::columns().map_values(|one: (&'static str, u16)| one.1);
    let mut next: usize = 0;
    while next < 8
        invariant
            next <= 8,
            columns@ == table::columns(),
            columns@.len() == 8,
            names == table::columns().map_values(|one: (&'static str, u16)| one.0),
            sizes == table::columns().map_values(|one: (&'static str, u16)| one.1),
            headings@ == names.take(next as int),
            widths@ == sizes.take(next as int),
        decreases 8 - next,
    {
        headings.push(columns[next].0);
        widths.push(columns[next].1);
        next += 1;
        assert(headings@ =~= names.take(next as int));
        assert(widths@ =~= sizes.take(next as int));
    }
    assert(names.take(8) =~= names);
    assert(sizes.take(8) =~= sizes);
    headings.push(table::WORKSPACE_HEADER);
    widths.push(left);
    let placed: Vec<&Session> = display::in_cost_order(snapshot.sessions.as_slice());
    let ghost ranked = choose|ranked: Seq<usize>|
        {
            &&& #[trigger] order::is_stable_order(display::ranks(snapshot.sessions@), ranked)
            &&& placed@.len() == snapshot.sessions@.len()
            &&& forall|i: int|
                0 <= i < placed@.len() ==> *(#[trigger] placed@[i])
                    == snapshot.sessions@[ranked[i] as int]
        };
    let mut rows: Vec<Vec<Cell>> = Vec::new();
    let mut row: usize = 0;
    while row < placed.len() && row < fit.shown
        invariant
            row <= placed@.len(),
            row <= fit.shown,
            left == table::left_for_workspace(width),
            placed@.len() == snapshot.sessions@.len(),
            forall|i: int|
                0 <= i < placed@.len() ==> *(#[trigger] placed@[i])
                    == snapshot.sessions@[ranked[i] as int],
            rows@.len() == row,
            forall|i: int|
                0 <= i < rows@.len() ==> table::is_row(
                    (#[trigger] rows@[i])@,
                    snapshot.sessions@[ranked[i] as int],
                    left,
                ),
        decreases placed@.len() - row,
    {
        assert(*placed@[row as int] == snapshot.sessions@[ranked[row as int] as int]);
        rows.push(table::row_for(placed[row], left));
        row += 1;
    }
    TablePart {
        title: table::table_title(snapshot.sessions.len(), fit.shown, fit.hidden),
        headings,
        widths,
        rows,
    }
}

fn joined_panel(rows: Vec<String>, summary: Vec<String>) -> (found: Vec<String>)
    ensures
        text::texts(found@) == panel_lines(text::texts(rows@), text::texts(summary@)),
{
    let ghost begun = text::texts(rows@);
    let mut found: Vec<String> = rows;
    if found.len() > 0 && summary.len() > 0 {
        let ghost before = found@;
        found.push(String::from_str(""));
        assert(text::texts(found@) =~= text::texts(before).push(""@));
    }
    lines::add_lines(&mut found, summary);
    found
}

/// What stands under the header.
pub fn body_of(snapshot: &Snapshot, fit: &Fit, width: u16) -> (body: Body)
    ensures
        is_body(body, *snapshot, *fit, width),
{
    if width < table::minimum_width() {
        return Body::Message(
            lines::wrap_words(table::too_narrow_message(width).as_str(), width),
        );
    }
    let (panel_title, rows, summary) = panel::at_risk_panel_content(snapshot, width);
    let ghost shown_rows = text::texts(rows@);
    let panel: Vec<String> = joined_panel(rows, summary);
    assert(panel::are_panel_rows(shown_rows, snapshot.workspaces@, width));
    let caveats: Vec<String> = footer::footer_lines(snapshot, width);
    let under: usize = caveats.len();
    assert(under == text::texts(caveats@).len());
    let shown: usize = fit.shown;
    let table_height: u16 = if fit.table {
        screen::capped_rows(table::TABLE_CHROME as u128 + shown as u128)
    } else {
        0
    };
    let table: Option<TablePart> = if fit.table {
        Some(table_of(snapshot, fit, width))
    } else {
        None
    };
    Body::Parts(
        Parts {
            table,
            table_height,
            panel_title,
            panel,
            panel_height: screen::capped_rows(screen::panel_height(snapshot, width)),
            caveats,
            caveats_height: screen::capped_rows(under as u128),
        },
    )
}

/// Everything that stands on the screen.
#[derive(Debug, PartialEq, Eq)]
pub struct Drawing {
    pub notice: Vec<String>,
    pub notice_height: u16,
    pub header: Vec<String>,
    pub header_height: u16,
    pub body: Body,
}

/// Whether this is what stands on a screen of this size.
pub open spec fn is_drawing(
    drawing: Drawing,
    screen: Screen,
    percentage: Seq<char>,
    width: u16,
    height: u16,
) -> bool {
    &&& screen::is_header(text::texts(drawing.header@), screen, percentage, width)
    &&& drawing.header_height == screen::capped(drawing.header@.len() as int)
    &&& drawing.notice_height == screen::capped(drawing.notice@.len() as int)
    &&& match screen.facts {
        Facts::Own(snapshot) => exists|fit: Fit|
            {
                &&& #[trigger] is_fitted(fit, screen, snapshot, percentage, width, height)
                &&& drawing.notice == fit.notice
                &&& is_body(drawing.body, snapshot, fit, width)
            },
        Facts::Missing(reason) => drawing.notice@.len() == 0 && drawing.body is Message
            && text::texts(drawing.body->Message_0@) == lines::wrapped(
            screen::no_facts(reason@),
            width,
        ),
        Facts::Monitor(_) => true,
    }
}

/// Whether this is what of the table is drawn on a screen of this size.
pub open spec fn is_fitted(
    fit: Fit,
    screen: Screen,
    snapshot: Snapshot,
    percentage: Seq<char>,
    width: u16,
    height: u16,
) -> bool {
    exists|header: Seq<Seq<char>>, needs: u16|
        {
            &&& #[trigger] screen::is_header(header, screen, percentage, width)
            &&& #[trigger] screen::is_screen_height(needs, screen, percentage, width)
            &&& screen::is_fit(fit, header.len(), needs, snapshot, width, height)
        }
}

/// Everything that stands on a screen of this size.
pub fn drawing_of(screen: &Screen, percentage: &str, width: u16, height: u16) -> (drawing: Drawing)
    requires
        screen::is_drawable(screen.facts),
    ensures
        is_drawing(drawing, *screen, percentage@, width, height),
{
    let header: Vec<String> = screen::screen_header(screen, percentage, width);
    let above: usize = header.len();
    let header_height: u16 = screen::capped_rows(above as u128);
    match &screen.facts {
        Facts::Own(snapshot) => {
            let fit: Fit = screen::fit(screen, snapshot, percentage, width, height);
            assert(is_fitted(fit, *screen, *snapshot, percentage@, width, height));
            let body: Body = body_of(snapshot, &fit, width);
            let said: usize = fit.notice.len();
            Drawing {
                notice: fit.notice,
                notice_height: screen::capped_rows(said as u128),
                header,
                header_height,
                body,
            }
        },
        Facts::Missing(reason) => Drawing {
            notice: Vec::new(),
            notice_height: 0,
            header,
            header_height,
            body: Body::Message(
                lines::wrap_words(screen::no_facts_message(reason.as_str()).as_str(), width),
            ),
        },
        Facts::Monitor(_) => Drawing {
            notice: Vec::new(),
            notice_height: 0,
            header,
            header_height,
            body: Body::Message(Vec::new()),
        },
    }
}

/// The panel is on every screen that is wide enough, whatever is left out of the table.
pub proof fn law_the_panel_is_never_left_out(body: Body, snapshot: Snapshot, fit: Fit, width: u16)
    requires
        is_body(body, snapshot, fit, width),
        width >= table::least_width(),
    ensures
        body is Parts,
        is_panel(body->Parts_0, snapshot, width),
        text::texts(body->Parts_0.caveats@) == footer::footer(snapshot, width),
{
}

} // verus!
