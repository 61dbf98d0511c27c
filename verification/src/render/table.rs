//! The table of sessions: its columns, and a row for each session.

use crate::collect::{Identity, Session};
use crate::liveness::State;
use crate::render::lines;
use crate::render::lines::Cell;
use crate::text;
use crate::time::Duration;
use crate::world::{Resources, Unmeasured};
use vstd::prelude::*;

verus! {

/// How wide the CLI's name is shown.
pub const CLI_WIDTH: u16 = 12;

/// How narrow the workspace may get.
pub const WORKSPACE_MIN: u16 = 16;

/// The space between two columns.
pub const COLUMN_SPACING: u16 = 1;

/// What the borders and the headings of the table take.
pub const TABLE_CHROME: u16 = 3;

/// The heading of the last column.
pub const WORKSPACE_HEADER: &'static str = "WORKSPACE";

/// The columns whose width never changes.
pub open spec fn columns() -> Seq<(&'static str, u16)> {
    seq![
        ("PID", 6),
        ("CLI", 12),
        ("STATE", 8),
        ("OWN CPU", 9),
        ("CHILD CPU", 9),
        ("MEM", 9),
        ("PEAK", 9),
        ("WRITTEN", 9),
    ]
}

/// The columns whose width never changes.
pub fn fixed_columns() -> (all: [(&'static str, u16); 8])
    ensures
        all@ == columns(),
{
    [
        ("PID", 6),
        ("CLI", 12),
        ("STATE", 8),
        ("OWN CPU", 9),
        ("CHILD CPU", 9),
        ("MEM", 9),
        ("PEAK", 9),
        ("WRITTEN", 9),
    ]
}

/// How wide some columns are together.
pub open spec fn widths(columns: Seq<(&'static str, u16)>) -> int
    decreases columns.len(),
{
    if columns.len() == 0 {
        0
    } else {
        widths(columns.drop_last()) + columns.last().1
    }
}

/// What everything but the workspace takes: the columns, the spaces between, and the borders.
pub open spec fn taken() -> int {
    widths(columns()) + COLUMN_SPACING * columns().len() + 2
}

fn fixed_width() -> (width: u16)
    ensures
        width == taken(),
        width == 81,
{
    let all = fixed_columns();
    let ghost listed = columns();
    let mut width: u16 = 0;
    let mut next: usize = 0;
    assert(listed.take(0) =~= Seq::empty());
    while next < 8
        invariant
            next <= 8,
            all@ == listed,
            listed == columns(),
            listed.len() == 8,
            width == widths(listed.take(next as int)),
            width <= 12 * next,
        decreases 8 - next,
    {
        assert(listed.take(next + 1).drop_last() =~= listed.take(next as int));
        width += all[next].1;
        next += 1;
    }
    assert(listed.take(8) =~= listed);
    proof {
        lemma_fixed_width();
    }
    width + 8 * COLUMN_SPACING + 2
}

proof fn lemma_fixed_width()
    ensures
        widths(columns()) == 71,
{
    let all = columns();
    reveal_with_fuel(widths, 9);
    assert(widths(all) == 71);
}

/// The width below which no figure is shown at all.
pub open spec fn least_width() -> u16 {
    (taken() + WORKSPACE_MIN) as u16
}

/// The width below which no figure is shown at all.
pub fn minimum_width() -> (width: u16)
    ensures
        width == least_width(),
        width == 97,
{
    fixed_width() + WORKSPACE_MIN
}

/// How wide the workspace is shown: what the rest leaves.
pub open spec fn left_for_workspace(total: u16) -> u16 {
    if total - taken() < WORKSPACE_MIN {
        WORKSPACE_MIN
    } else {
        (total - taken()) as u16
    }
}

/// How wide the workspace is shown.
pub fn workspace_width(total: u16) -> (width: u16)
    ensures
        width == left_for_workspace(total),
{
    let others: u16 = fixed_width();
    if total < others || total - others < WORKSPACE_MIN {
        WORKSPACE_MIN
    } else {
        total - others
    }
}

/// What is said in place of the screen where it is too narrow.
pub open spec fn too_narrow(width: u16) -> Seq<char> {
    "acmon needs "@ + text::decimal(least_width() as nat)
        + " columns to print these numbers without truncating them; this terminal has "@
        + text::decimal(width as nat)
        + ". Widen it — a truncated CPU total is a plausible wrong answer, so none is printed."@
}

/// What is said in place of the screen where it is too narrow.
pub fn too_narrow_message(width: u16) -> (words: String)
    ensures
        words@ == too_narrow(width),
{
    String::from_str("acmon needs ").concat(
        text::decimal_of(minimum_width() as u128).as_str(),
    ).concat(
        " columns to print these numbers without truncating them; this terminal has ",
    ).concat(text::decimal_of(width as u128).as_str()).concat(
        ". Widen it — a truncated CPU total is a plausible wrong answer, so none is printed.",
    )
}

// --- A row -------------------------------------------------------------------------------------

/// The state of a session, with a mark where it was inferred and another where it will never be known.
pub open spec fn state_words(session: Session) -> Seq<char> {
    let state = match session.liveness.state {
        State::Active => "ACTIVE"@,
        State::Waiting => "WAITING"@,
        State::Stalled => "STALLED"@,
        State::Unknown => "UNKNOWN"@,
    };
    if session.liveness.method is ProcessResidentButSilent
        || session.liveness.method is WorkRunningInWorkspace {
        state + "?"@
    } else if session.doubt() is Some && (session.doubt()->0).0 {
        state + "!"@
    } else {
        state
    }
}

/// The state of a session, with its mark.
pub fn state_cell(session: &Session) -> (words: String)
    ensures
        words@ == state_words(*session),
{
    let state: &str = match session.liveness.state {
        State::Active => "ACTIVE",
        State::Waiting => "WAITING",
        State::Stalled => "STALLED",
        State::Unknown => "UNKNOWN",
    };
    if session.liveness.method.is_inferred() {
        return String::from_str(state).concat("?");
    }
    let structural: bool = match session.liveness_unknown() {
        Some(why) => why.is_structural(),
        None => false,
    };
    if structural {
        String::from_str(state).concat("!")
    } else {
        String::from_str(state)
    }
}

/// Whether this is the cell of a CPU time.
pub open spec fn is_cpu_cell(cell: Cell, figure: Result<Duration, Unmeasured>, marked: bool) -> bool {
    match figure {
        Ok(span) => cell matches Cell::Text(words) && words@ == lines::cpu_words(span) + (
        if marked {
            "*"@
        } else {
            ""@
        }),
        Err(why) => cell matches Cell::Text(words) && words@ == why.words(),
    }
}

/// Whether this is the cell of a number of bytes that may be missing.
pub open spec fn is_size_cell(cell: Cell, figure: Result<u64, Unmeasured>, marked: bool) -> bool {
    match figure {
        Ok(bytes) => lines::is_bytes_cell(cell, bytes, marked),
        Err(why) => cell matches Cell::Text(words) && words@ == why.words(),
    }
}

/// Whether these are the cells of what a process used, marked where they are not current.
pub open spec fn are_figures(cells: Seq<Cell>, resources: Resources, marked: bool) -> bool {
    &&& cells.len() == 5
    &&& is_cpu_cell(cells[0], resources.own_cpu, marked)
    &&& is_cpu_cell(cells[1], resources.children_cpu, marked)
    &&& is_size_cell(cells[2], resources.current_memory, marked)
    &&& is_size_cell(cells[3], resources.peak_memory, marked)
    &&& is_size_cell(cells[4], resources.bytes_written, marked)
}

fn cpu_cell(figure: &Result<Duration, Unmeasured>, marked: bool) -> (cell: Cell)
    ensures
        is_cpu_cell(cell, *figure, marked),
{
    match figure {
        Ok(span) => Cell::Text(
            lines::format_cpu(span).concat(
                if marked {
                    "*"
                } else {
                    ""
                },
            ),
        ),
        Err(why) => Cell::Text(String::from_str(why.to_text())),
    }
}

fn size_cell(figure: &Result<u64, Unmeasured>, marked: bool) -> (cell: Cell)
    ensures
        is_size_cell(cell, *figure, marked),
{
    match figure {
        Ok(bytes) => lines::format_bytes(*bytes, marked),
        Err(why) => Cell::Text(String::from_str(why.to_text())),
    }
}

/// Whether these are the five figures of a session: current, or the last reading with a mark, or five
/// times why there is none.
pub open spec fn are_session_figures(cells: Seq<Cell>, session: Session) -> bool {
    match session.resources {
        Ok(resources) => are_figures(cells, resources, false),
        Err(why) => match session.last_reading {
            Some(reading) => are_figures(cells, reading.resources, true),
            None => cells.len() == 5 && forall|i: int|
                0 <= i < 5 ==> is_text(#[trigger] cells[i], why.words()),
        },
    }
}

/// Whether a cell holds a text.
pub open spec fn is_text(cell: Cell, words: Seq<char>) -> bool {
    cell matches Cell::Text(found) && found@ == words
}

/// What is shown of where a session works.
pub open spec fn workspace_words(session: Session, width: u16) -> Seq<char> {
    match session.workspace {
        Ok(workspace) => lines::cut_off(workspace.path@, width),
        Err(why) => match session.identity {
            Identity::Transcript { recorded_as } => lines::cut_off(
                why.words() + ": "@ + recorded_as@,
                width,
            ),
            Identity::Process { .. } => why.words(),
        },
    }
}

/// Whether this is the row of a session.
pub open spec fn is_row(cells: Seq<Cell>, session: Session, width: u16) -> bool {
    &&& cells.len() == 9
    &&& is_text(
        cells[0],
        match session.identity {
            Identity::Process { pid } => text::signed_decimal(pid as int),
            Identity::Transcript { .. } => "gone"@,
        },
    )
    &&& is_text(cells[1], lines::cut_short(session.cli@, CLI_WIDTH))
    &&& is_text(cells[2], state_words(session))
    &&& are_session_figures(cells.subrange(3, 8), session)
    &&& is_text(cells[8], workspace_words(session, width))
}

fn add_figures(cells: &mut Vec<Cell>, resources: &Resources, marked: bool)
    ensures
        final(cells)@.len() == old(cells)@.len() + 5,
        forall|i: int| 0 <= i < old(cells)@.len() ==> final(cells)@[i] == old(cells)@[i],
        are_figures(
            final(cells)@.subrange(old(cells)@.len() as int, old(cells)@.len() as int + 5),
            *resources,
            marked,
        ),
{
    cells.push(cpu_cell(&resources.own_cpu, marked));
    cells.push(cpu_cell(&resources.children_cpu, marked));
    cells.push(size_cell(&resources.current_memory, marked));
    cells.push(size_cell(&resources.peak_memory, marked));
    cells.push(size_cell(&resources.bytes_written, marked));
}

/// The row of a session.
pub fn row_for(session: &Session, width: u16) -> (cells: Vec<Cell>)
    ensures
        is_row(cells@, *session, width),
{
    let mut cells: Vec<Cell> = Vec::new();
    cells.push(
        Cell::Text(
            match &session.identity {
                Identity::Process { pid } => text::signed_decimal_of(*pid as i64),
                Identity::Transcript { .. } => String::from_str("gone"),
            },
        ),
    );
    cells.push(Cell::Text(lines::shorten_with_a_mark(session.cli.as_str(), CLI_WIDTH)));
    cells.push(Cell::Text(state_cell(session)));
    match (&session.resources, &session.last_reading) {
        (Ok(resources), _) => {
            add_figures(&mut cells, resources, false);
        },
        (Err(_), Some(reading)) => {
            add_figures(&mut cells, &reading.resources, true);
        },
        (Err(why), None) => {
            cells.push(Cell::Text(String::from_str(why.to_text())));
            cells.push(Cell::Text(String::from_str(why.to_text())));
            cells.push(Cell::Text(String::from_str(why.to_text())));
            cells.push(Cell::Text(String::from_str(why.to_text())));
            cells.push(Cell::Text(String::from_str(why.to_text())));
        },
    }
    let ghost so_far = cells@;
    assert(are_session_figures(so_far.subrange(3, 8), *session));
    let workspace: String = match &session.workspace {
        Ok(workspace) => lines::shorten_from_the_left(workspace.path.as_str(), width),
        Err(why) => match &session.identity {
            Identity::Transcript { recorded_as } => lines::shorten_from_the_left(
                why.to_text().concat(": ").concat(recorded_as.as_str()).as_str(),
                width,
            ),
            Identity::Process { .. } => why.to_text(),
        },
    };
    cells.push(Cell::Text(workspace));
    assert(cells@.subrange(3, 8) =~= so_far.subrange(3, 8));
    cells
}

/// Whether a cell bears the mark of a figure that is not current.
pub open spec fn bears_mark(cell: Cell) -> bool {
    match cell {
        Cell::Text(words) => words@.len() > 0 && words@.last() == '*',
        Cell::Gigabytes { marked, .. } => marked,
    }
}

/// Every figure that an earlier run took bears the mark.
pub proof fn law_borrowed_figures_are_marked(cells: Seq<Cell>, session: Session)
    requires
        are_session_figures(cells, session),
        session.resources is Err,
        session.last_reading is Some,
    ensures
        ({
            let resources = session.last_reading->0.resources;
            &&& resources.own_cpu is Ok ==> bears_mark(cells[0])
            &&& resources.children_cpu is Ok ==> bears_mark(cells[1])
            &&& resources.current_memory is Ok ==> bears_mark(cells[2])
            &&& resources.peak_memory is Ok ==> bears_mark(cells[3])
            &&& resources.bytes_written is Ok ==> bears_mark(cells[4])
        }),
{
    reveal_strlit("*");
    assert("*"@.len() == 1 && "*"@[0] == '*');
    assert forall|words: Seq<char>| #[trigger] (words + "*"@).last() == '*' by {
        assert((words + "*"@)[words.len() as int] == '*');
    }
}

/// The table's title.
pub open spec fn title(sessions: nat, shown: nat, hidden: nat) -> Seq<char> {
    " acmon — "@ + text::decimal(sessions) + " agent session(s), most child CPU first "@ + (
    if hidden > 0 {
        "— "@ + text::decimal(shown) + " shown "@
    } else {
        ""@
    })
}

/// The table's title.
pub fn table_title(sessions: usize, shown: usize, hidden: usize) -> (words: String)
    ensures
        words@ == title(sessions as nat, shown as nat, hidden as nat),
{
    let start: String = String::from_str(" acmon — ").concat(
        text::count_of(sessions).as_str(),
    ).concat(" agent session(s), most child CPU first ");
    if hidden > 0 {
        let rest: String = String::from_str("— ").concat(text::count_of(shown).as_str()).concat(
            " shown ",
        );
        start.concat(rest.as_str())
    } else {
        start.concat("")
    }
}

} // verus!
