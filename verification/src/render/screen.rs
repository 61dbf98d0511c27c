//! The whole screen: the meters and notices above the table, how high it all is, and what is left out
//! where it is higher than the terminal.

use crate::collect::Snapshot;
use crate::display;
use crate::display::{Facts, Meters, Screen};
use crate::isotime;
use crate::meter::Share;
use crate::render::footer;
use crate::render::lines;
use crate::render::panel;
use crate::render::panel::Kind;
use crate::render::table;
use crate::text;
use vstd::prelude::*;

verus! {

// --- The meters --------------------------------------------------------------------------------

/// How wide a gauge's label is shown.
pub const LABEL_WIDTH: usize = 19;

/// How wide a gauge's bar is.
pub const BAR_WIDTH: usize = 10;

/// How wide a gauge's figure is shown at least.
pub const FIGURE_WIDTH: usize = 8;

/// How full a bar is.
#[derive(Debug, Clone, Copy, PartialEq, Eq, Structural)]
pub enum Level {
    /// So many of its columns.
    Filled(usize),
    /// Past the end of its scale.
    PastScale,
    /// It has no level that could be shown.
    NoFigure,
}

/// A bar.
pub open spec fn bar(level: Level) -> Seq<char> {
    match level {
        Level::Filled(columns) => if columns >= BAR_WIDTH {
            text::repeated('|', BAR_WIDTH as nat)
        } else {
            text::repeated('|', columns as nat) + text::repeated(' ', (BAR_WIDTH - columns) as nat)
        },
        Level::PastScale => text::repeated('|', (BAR_WIDTH - 1) as nat) + ">"@,
        Level::NoFigure => text::repeated('?', BAR_WIDTH as nat),
    }
}

/// A bar.
pub fn bar_of(level: Level) -> (shown: String)
    ensures
        shown@ == bar(level),
{
    match level {
        Level::Filled(columns) => if columns >= BAR_WIDTH {
            text::repeat('|', BAR_WIDTH)
        } else {
            text::repeat('|', columns).concat(text::repeat(' ', BAR_WIDTH - columns).as_str())
        },
        Level::PastScale => text::repeat('|', BAR_WIDTH - 1).concat(">"),
        Level::NoFigure => text::repeat('?', BAR_WIDTH),
    }
}

/// Every bar is as wide as any other, and one without a figure looks like none with one.
pub proof fn law_bars_are_of_one_width(one: Level, other: Level)
    ensures
        bar(one).len() == BAR_WIDTH,
        one is NoFigure && !(other is NoFigure) ==> bar(one) != bar(other),
{
    reveal_strlit(">");
    assert(">"@.len() == 1);
    if one is NoFigure && !(other is NoFigure) {
        assert(bar(one)[0] == '?');
        match other {
            Level::Filled(columns) => {
                if columns == 0 {
                    assert(bar(other)[0] == ' ');
                } else {
                    assert(bar(other)[0] == '|');
                }
            },
            Level::PastScale => {
                assert(bar(other)[0] == '|');
            },
            Level::NoFigure => {},
        }
    }
}

/// The number of columns that a share comes nearest to.
pub open spec fn nearest(spent: nat, span: nat) -> nat {
    (2 * BAR_WIDTH as nat * spent + span) / (2 * span)
}

/// How full a bar is that shows a share: so many of its columns, but at least one where there is anything
/// to show.
pub open spec fn level(share: Share) -> Level {
    let (spent, span) = (share.spent.nanos as nat, share.span.nanos as nat);
    if span == 0 {
        Level::NoFigure
    } else if spent > span {
        Level::PastScale
    } else if spent > 0 && nearest(spent, span) == 0 {
        Level::Filled(1)
    } else {
        Level::Filled(nearest(spent, span) as usize)
    }
}

proof fn lemma_nearest(columns: nat, spent: nat, span: nat)
    requires
        span > 0,
    ensures
        columns <= nearest(spent, span) <==> 20 * spent >= (2 * columns - 1) * span,
{
    let whole = 20 * spent + span;
    assert(columns <= whole / (2 * span) <==> columns * (2 * span) <= whole) by (nonlinear_arith)
        requires
            span > 0,
    ;
    assert(columns * (2 * span) == (2 * columns - 1) * span + span) by (nonlinear_arith);
}

proof fn lemma_within_the_bar(spent: nat, span: nat)
    requires
        spent <= span,
        span > 0,
    ensures
        nearest(spent, span) <= BAR_WIDTH,
{
    lemma_nearest(11, spent, span);
    assert((2 * 11 - 1) * span == 21 * span) by (nonlinear_arith);
}

/// Whether a share fills so many columns, halves counted as whole.
fn fills(columns: u128, spent: u128, span: u128) -> (filled: bool)
    requires
        1 <= columns <= BAR_WIDTH,
    ensures
        filled == (20 * spent >= (2 * columns - 1) * span),
{
    let odd: u128 = 2 * columns - 1;
    let part: u128 = span / 20;
    let rest: u128 = span % 20;
    assert(odd * part <= 19 * part) by (nonlinear_arith)
        requires
            odd <= 19,
    ;
    assert(odd * rest <= 19 * 19) by (nonlinear_arith)
        requires
            odd <= 19,
            rest <= 19,
    ;
    assert(odd * span == 20 * (odd * part) + odd * rest) by (nonlinear_arith)
        requires
            span == 20 * part + rest,
    ;
    spent >= odd * part + (odd * rest + 19) / 20
}

/// How full a bar is that shows a share.
pub fn level_of(share: &Share) -> (found: Level)
    ensures
        found == level(*share),
{
    let spent: u128 = share.spent.nanos;
    let span: u128 = share.span.nanos;
    if span == 0 {
        return Level::NoFigure;
    }
    if spent > span {
        return Level::PastScale;
    }
    let mut columns: usize = 0;
    proof {
        lemma_within_the_bar(spent as nat, span as nat);
    }
    while columns < BAR_WIDTH && fills(columns as u128 + 1, spent, span)
        invariant
            columns <= BAR_WIDTH,
            0 < span,
            columns <= nearest(spent as nat, span as nat) <= 10,
        decreases BAR_WIDTH - columns,
    {
        proof {
            lemma_nearest((columns + 1) as nat, spent as nat, span as nat);
        }
        columns += 1;
    }
    proof {
        lemma_nearest((columns + 1) as nat, spent as nat, span as nat);
    }
    assert(columns == nearest(spent as nat, span as nat));
    if spent > 0 && columns == 0 {
        Level::Filled(1)
    } else {
        Level::Filled(columns)
    }
}

/// Something is never shown as nothing, and only what exceeds its scale is shown to.
pub proof fn law_something_is_never_shown_as_nothing(share: Share)
    ensures
        share.spent.nanos > 0 && share.span.nanos > 0 ==> level(share) != Level::Filled(0),
        level(share) is PastScale <==> share.span.nanos > 0 && share.spent.nanos > share.span.nanos,
        share.span.nanos == 0 <==> level(share) is NoFigure,
{
    let (spent, span) = (share.spent.nanos as nat, share.span.nanos as nat);
    if 0 < spent <= span {
        lemma_within_the_bar(spent, span);
    }
}

/// A gauge's figure and level, or why it has none.
pub open spec fn gauge_cell_words(label: Seq<char>, reading: Result<(Seq<char>, Level), Seq<char>>) -> Seq<
    char,
> {
    match reading {
        Ok(found) => text::filled_right(label, LABEL_WIDTH as nat) + "["@ + bar(found.1)
            + text::filled_left(found.0, FIGURE_WIDTH as nat) + "]"@,
        Err(_) => text::filled_right(label, LABEL_WIDTH as nat) + "["@ + bar(Level::NoFigure)
            + text::filled_left("absent"@, FIGURE_WIDTH as nat) + "]"@,
    }
}

/// What the overhead gauge shows.
pub open spec fn overhead_reading(meters: Meters) -> Result<
    (Seq<char>, Level),
    Seq<char>,
> {
    match meters.overhead {
        Ok(cost) => Ok((
                lines::cpu_words(cost),
                level(Share { spent: cost, span: display::polls_every() }),
            )),
        Err(why) => Err(why.words()),
    }
}

/// What the duty-cycle gauge shows.
pub open spec fn duty_reading(meters: Meters, percentage: Seq<char>) -> Result<
    (Seq<char>, Level),
    Seq<char>,
> {
    match meters.duty_cycle {
        Ok(share) => Ok((percentage, level(share))),
        Err(why) => Err(why.words()),
    }
}

/// A gauge without its bar.
pub open spec fn plain_gauge(label: Seq<char>, reading: Result<(Seq<char>, Level), Seq<char>>) -> Seq<
    char,
> {
    label + ": "@ + match reading {
        Ok(found) => found.0,
        Err(_) => "absent"@,
    }
}

/// Why a gauge has no figure, where it has none.
pub open spec fn gauge_excuse(
    label: Seq<char>,
    reading: Result<(Seq<char>, Level), Seq<char>>,
    width: u16,
) -> Seq<Seq<char>> {
    match reading {
        Ok(_) => Seq::empty(),
        Err(why) => lines::wrapped("  "@ + label + ": "@ + why, width),
    }
}

/// How the gauges are read.
pub open spec fn legend() -> Seq<char> {
    "Gauges: the overhead bar is a fraction of the "@ + lines::age_words(display::polls_every())
        + " refresh interval, the duty-cycle bar a fraction of wall time. A bar of ? is no figure at all rather than a zero, and one ending > is past the end of its scale."@
}

/// The two gauges, on lines: with their bars where both fit, and without where one does not.
pub open spec fn gauge_lines(meters: Meters, percentage: Seq<char>, width: u16) -> Seq<Seq<char>> {
    let overhead = overhead_reading(meters);
    let duty = duty_reading(meters, percentage);
    let first = gauge_cell_words("collection overhead"@, overhead);
    let second = gauge_cell_words("amon duty cycle"@, duty);
    if first.len() <= width && second.len() <= width {
        lines::packed(seq![first, second], "  "@, width)
    } else {
        lines::wrapped(plain_gauge("collection overhead"@, overhead), width) + lines::wrapped(
            plain_gauge("amon duty cycle"@, duty),
            width,
        )
    }
}

/// The meters under a timestamp.
pub open spec fn meters_at(stamp: Seq<char>, meters: Meters, percentage: Seq<char>, width: u16) -> Seq<
    Seq<char>,
> {
    lines::wrapped("METERS  as of "@ + stamp, width) + gauge_lines(meters, percentage, width)
        + gauge_excuse("collection overhead"@, overhead_reading(meters), width)
        + gauge_excuse("amon duty cycle"@, duty_reading(meters, percentage), width) + lines::wrapped(
        legend(),
        width,
    )
}

/// Whether these are the meters.
pub open spec fn are_meters(found: Seq<Seq<char>>, meters: Meters, percentage: Seq<char>, width: u16) -> bool {
    exists|stamp: Seq<char>| #[trigger]
        isotime::is_stamp(stamp, isotime::whole_seconds(meters.taken_at)) && found == meters_at(
            stamp,
            meters,
            percentage,
            width,
        )
}

/// A reading as it is shown.
spec fn shown(reading: Result<(String, Level), String>) -> Result<(Seq<char>, Level), Seq<char>> {
    match reading {
        Ok(found) => Ok((found.0@, found.1)),
        Err(why) => Err(why@),
    }
}

fn gauge_cell(label: &str, reading: &Result<(String, Level), String>) -> (cell: String)
    ensures
        cell@ == gauge_cell_words(label@, shown(*reading)),
{
    let start: String = text::pad_right(label, LABEL_WIDTH).concat("[");
    match reading {
        Ok(found) => start.concat(bar_of(found.1).as_str()).concat(
            text::pad_left(found.0.as_str(), FIGURE_WIDTH).as_str(),
        ).concat("]"),
        Err(_) => start.concat(bar_of(Level::NoFigure).as_str()).concat(
            text::pad_left("absent", FIGURE_WIDTH).as_str(),
        ).concat("]"),
    }
}

fn plain_gauge_text(label: &str, reading: &Result<(String, Level), String>) -> (words: String)
    ensures
        words@ == plain_gauge(label@, shown(*reading)),
{
    let start: String = String::from_str(label).concat(": ");
    match reading {
        Ok(found) => start.concat(found.0.as_str()),
        Err(_) => start.concat("absent"),
    }
}

fn add_excuse(
    found: &mut Vec<String>,
    label: &str,
    reading: &Result<(String, Level), String>,
    width: u16,
)
    ensures
        text::texts(final(found)@) == text::texts(old(found)@) + gauge_excuse(
            label@,
            shown(*reading),
            width,
        ),
{
    let ghost begun = text::texts(found@);
    match reading {
        Ok(_) => {
            assert(begun + Seq::<Seq<char>>::empty() =~= begun);
        },
        Err(why) => {
            let words: String = String::from_str("  ").concat(label).concat(": ").concat(
                why.as_str(),
            );
            lines::add_wrapped(found, words.as_str(), width);
        },
    }
}

/// The meters: when they were taken, the gauges, why one of them is empty, and how to read them.
pub fn meter_row(meters: &Meters, percentage: &str, width: u16) -> (found: Vec<String>)
    ensures
        are_meters(text::texts(found@), *meters, percentage@, width),
{
    let overhead: Result<(String, Level), String> = match &meters.overhead {
        Ok(cost) => {
            let share = Share { spent: *cost, span: display::poll_interval() };
            Ok((lines::format_cpu(cost), level_of(&share)))
        },
        Err(why) => Err(why.to_text()),
    };
    let duty: Result<(String, Level), String> = match &meters.duty_cycle {
        Ok(share) => Ok((String::from_str(percentage), level_of(share))),
        Err(why) => Err(why.to_text()),
    };
    let stamp: String = isotime::timestamp(meters.taken_at);
    let mut found: Vec<String> = lines::wrap_words(
        String::from_str("METERS  as of ").concat(stamp.as_str()).as_str(),
        width,
    );
    let first: String = gauge_cell("collection overhead", &overhead);
    let second: String = gauge_cell("amon duty cycle", &duty);
    if first.as_str().unicode_len() <= width as usize && second.as_str().unicode_len()
        <= width as usize {
        let mut cells: Vec<String> = Vec::new();
        cells.push(first);
        cells.push(second);
        assert(text::texts(cells@) =~= seq![first@, second@]);
        lines::add_lines(&mut found, lines::pack_parts(&cells, "  ", width));
    } else {
        let ghost begun = text::texts(found@);
        lines::add_wrapped(
            &mut found,
            plain_gauge_text("collection overhead", &overhead).as_str(),
            width,
        );
        lines::add_wrapped(
            &mut found,
            plain_gauge_text("amon duty cycle", &duty).as_str(),
            width,
        );
        assert(text::texts(found@) =~= begun + gauge_lines(*meters, percentage@, width));
    }
    add_excuse(&mut found, "collection overhead", &overhead, width);
    add_excuse(&mut found, "amon duty cycle", &duty, width);
    let key: String = String::from_str("Gauges: the overhead bar is a fraction of the ").concat(
        lines::format_age(display::poll_interval()).as_str(),
    ).concat(
        " refresh interval, the duty-cycle bar a fraction of wall time. A bar of ? is no figure at all rather than a zero, and one ending > is past the end of its scale.",
    );
    lines::add_wrapped(&mut found, key.as_str(), width);
    assert(isotime::is_stamp(stamp@, isotime::whole_seconds(meters.taken_at)));
    found
}

// --- Above the table ---------------------------------------------------------------------------

/// Notices on lines.
pub open spec fn notice_lines(notices: Seq<Seq<char>>, width: u16) -> Seq<Seq<char>>
    decreases notices.len(),
{
    if notices.len() == 0 {
        Seq::empty()
    } else {
        notice_lines(notices.drop_last(), width) + lines::wrapped(notices.last(), width)
    }
}

/// Whether this is what stands above the table.
pub open spec fn is_header(found: Seq<Seq<char>>, screen: Screen, percentage: Seq<char>, width: u16) -> bool {
    exists|meters: Seq<Seq<char>>| #[trigger]
        are_meters(meters, screen.meters, percentage, width) && found == meters + notice_lines(
            text::texts(screen.notices@),
            width,
        )
}

/// What stands above the table: the meters, and the notices.
pub fn screen_header(screen: &Screen, percentage: &str, width: u16) -> (found: Vec<String>)
    ensures
        is_header(text::texts(found@), *screen, percentage@, width),
{
    let mut found: Vec<String> = meter_row(&screen.meters, percentage, width);
    let ghost meters = text::texts(found@);
    let ghost all = text::texts(screen.notices@);
    let mut next: usize = 0;
    assert(all.take(0) =~= Seq::empty());
    assert(meters + Seq::<Seq<char>>::empty() =~= meters);
    while next < screen.notices.len()
        invariant
            next <= screen.notices@.len(),
            all == text::texts(screen.notices@),
            text::texts(found@) == meters + notice_lines(all.take(next as int), width),
        decreases screen.notices@.len() - next,
    {
        let ghost so_far = notice_lines(all.take(next as int), width);
        assert(all.take(next + 1).drop_last() =~= all.take(next as int));
        lines::add_wrapped(&mut found, screen.notices[next].as_str(), width);
        assert(meters + so_far + lines::wrapped(all[next as int], width) =~= meters + (so_far
            + lines::wrapped(all[next as int], width)));
        next += 1;
    }
    assert(all.take(all.len() as int) =~= all);
    assert(are_meters(meters, screen.meters, percentage@, width));
    found
}

/// What is said where there are no figures.
pub open spec fn no_facts(reason: Seq<char>) -> Seq<char> {
    "NO FIGURES: "@ + reason
        + ". Nothing is drawn in their place — an empty table is indistinguishable from a machine with no agents running on it, and that is the plausible wrong answer this tool exists to remove."@
}

/// What is said where there are no figures.
pub fn no_facts_message(reason: &str) -> (words: String)
    ensures
        words@ == no_facts(reason@),
{
    String::from_str("NO FIGURES: ").concat(reason).concat(
        ". Nothing is drawn in their place — an empty table is indistinguishable from a machine with no agents running on it, and that is the plausible wrong answer this tool exists to remove.",
    )
}

// --- Heights -----------------------------------------------------------------------------------

/// What the borders of the panel and the line between its two parts take.
pub const PANEL_CHROME: u16 = 3;

/// A number of rows, as far as a terminal counts them.
pub open spec fn capped(rows: int) -> u16 {
    if rows > u16::MAX {
        u16::MAX
    } else {
        rows as u16
    }
}

pub(crate) fn capped_rows(rows: u128) -> (count: u16)
    ensures
        count == capped(rows as int),
{
    if rows > u16::MAX as u128 {
        u16::MAX
    } else {
        rows as u16
    }
}

/// How high the panel is.
pub open spec fn panel_rows(snapshot: Snapshot) -> nat {
    PANEL_CHROME as nat + panel::count(snapshot.workspaces@, Kind::Stranded) + panel::count(
        snapshot.workspaces@,
        Kind::Unreadable,
    ) + panel::count(snapshot.workspaces@, Kind::Driven) + panel::summary(snapshot).len()
}

pub(crate) fn panel_height(snapshot: &Snapshot, width: u16) -> (rows: u128)
    ensures
        rows == panel_rows(*snapshot),
        rows <= PANEL_CHROME + 2 * usize::MAX,
{
    let (_, rows, summary) = panel::at_risk_panel_content(snapshot, width);
    let listed: usize = rows.len();
    let under: usize = summary.len();
    assert(listed == text::texts(rows@).len());
    assert(under == text::texts(summary@).len());
    PANEL_CHROME as u128 + listed as u128 + under as u128
}

/// How high everything below the header is.
pub open spec fn body_rows(snapshot: Snapshot, width: u16) -> nat {
    if width < table::least_width() {
        lines::wrapped(table::too_narrow(width), width).len()
    } else {
        snapshot.sessions@.len() + table::TABLE_CHROME as nat + panel_rows(snapshot)
            + footer::footer(snapshot, width).len()
    }
}

fn body_height(snapshot: &Snapshot, width: u16) -> (rows: u128)
    ensures
        rows == body_rows(*snapshot, width),
        rows <= PANEL_CHROME + table::TABLE_CHROME + 4 * usize::MAX,
{
    if width < table::minimum_width() {
        let message: Vec<String> = lines::wrap_words(
            table::too_narrow_message(width).as_str(),
            width,
        );
        let count: usize = message.len();
        assert(count == text::texts(message@).len());
        return count as u128;
    }
    let under: Vec<String> = footer::footer_lines(snapshot, width);
    let caveats: usize = under.len();
    assert(caveats == text::texts(under@).len());
    let sessions: usize = snapshot.sessions.len();
    sessions as u128 + table::TABLE_CHROME as u128 + panel_height(snapshot, width) + caveats as u128
}

/// How high a collection is drawn.
pub fn required_height(snapshot: &Snapshot, width: u16) -> (rows: u16)
    ensures
        rows == capped(body_rows(*snapshot, width) as int),
{
    capped_rows(body_height(snapshot, width))
}

/// Whether there is something of the display's own to draw, or a reason why not.
pub open spec fn is_drawable(facts: Facts) -> bool {
    !(facts is Monitor)
}

/// How high the facts are drawn.
pub open spec fn facts_rows(facts: Facts, width: u16) -> nat {
    match facts {
        Facts::Own(snapshot) => body_rows(snapshot, width),
        Facts::Missing(reason) => lines::wrapped(no_facts(reason@), width).len(),
        Facts::Monitor(_) => 0,
    }
}

/// Whether this is how high a screen is.
pub open spec fn is_screen_height(rows: u16, screen: Screen, percentage: Seq<char>, width: u16) -> bool {
    exists|header: Seq<Seq<char>>| #[trigger]
        is_header(header, screen, percentage, width) && rows == capped(
            (header.len() + facts_rows(screen.facts, width)) as int,
        )
}

/// How high a screen is.
pub fn screen_height(screen: &Screen, percentage: &str, width: u16) -> (rows: u16)
    requires
        is_drawable(screen.facts),
    ensures
        is_screen_height(rows, *screen, percentage@, width),
{
    let header: Vec<String> = screen_header(screen, percentage, width);
    let above: usize = header.len();
    assert(above == text::texts(header@).len());
    let below: u128 = match &screen.facts {
        Facts::Own(snapshot) => body_height(snapshot, width),
        Facts::Missing(reason) => {
            let message: Vec<String> = lines::wrap_words(
                no_facts_message(reason.as_str()).as_str(),
                width,
            );
            let count: usize = message.len();
            assert(count == text::texts(message@).len());
            count as u128
        },
        Facts::Monitor(_) => 0,
    };
    assert(is_header(text::texts(header@), *screen, percentage@, width));
    capped_rows(above as u128 + below)
}

// --- What does not fit -------------------------------------------------------------------------

/// What of the table is drawn.
#[derive(Debug, PartialEq, Eq)]
pub struct Fit {
    pub table: bool,
    pub shown: usize,
    pub hidden: usize,
    pub notice: Vec<String>,
}

impl Fit {
    /// All of it.
    pub fn everything(sessions: usize) -> (fit: Fit)
        ensures
            fit.table,
            fit.shown == sessions,
            fit.hidden == 0,
            fit.notice@.len() == 0,
    {
        Fit { table: true, shown: sessions, hidden: 0, notice: Vec::new() }
    }
}

/// What is said of a screen that does not fit.
#[verifier::opaque]
pub open spec fn shortfall(
    hidden: nat,
    table_kept: bool,
    bottom_cut: bool,
    needs: u16,
    has: u16,
) -> Seq<char> {
    (if bottom_cut {
        "THIS TERMINAL IS TOO SHORT AND ITS BOTTOM IS CUT: the whole screen needs "@ + text::decimal(
            needs as nat,
        ) + " rows and this one has "@ + text::decimal(has as nat)
            + ", so the at-risk panel and the warnings under it are below the fold. Lengthen the terminal. "@
    } else {
        (if hidden > 0 {
            "+"@ + text::decimal(hidden) + " sessions not shown. "@
        } else {
            ""@
        }) + "THIS TERMINAL IS TOO SHORT: the whole screen needs "@ + text::decimal(needs as nat)
            + " rows and this one has "@ + text::decimal(has as nat) + ". "@
    }) + (if table_kept {
        "The session rows with the least child CPU were dropped, so the ones on screen are the costliest. "@
    } else if hidden > 0 {
        "+"@ + text::decimal(hidden)
            + " sessions not shown: not one row fits, so the table is not drawn at all — column headings with nothing under them read as a machine with no agents on it. "@
    } else {
        "There are no sessions to show, and the table's own headings do not fit either. "@
    }) + (if bottom_cut {
        ""@
    } else {
        "Nothing else was dropped: the at-risk panel is whole and every warning under it is still on screen."@
    })
}

/// What is said of a screen that does not fit, on lines.
pub fn shortfall_lines(
    hidden: usize,
    table_kept: bool,
    bottom_cut: bool,
    needs: u16,
    has: u16,
    width: u16,
) -> (found: Vec<String>)
    ensures
        text::texts(found@) == lines::wrapped(
            shortfall(hidden as nat, table_kept, bottom_cut, needs, has),
            width,
        ),
{
    proof {
        reveal(shortfall);
    }
    let start: String = if bottom_cut {
        String::from_str(
            "THIS TERMINAL IS TOO SHORT AND ITS BOTTOM IS CUT: the whole screen needs ",
        ).concat(text::decimal_of(needs as u128).as_str()).concat(" rows and this one has ").concat(
            text::decimal_of(has as u128).as_str(),
        ).concat(
            ", so the at-risk panel and the warnings under it are below the fold. Lengthen the terminal. ",
        )
    } else {
        let dropped: String = if hidden > 0 {
            String::from_str("+").concat(text::count_of(hidden).as_str()).concat(
                " sessions not shown. ",
            )
        } else {
            String::from_str("")
        };
        dropped.concat("THIS TERMINAL IS TOO SHORT: the whole screen needs ").concat(
            text::decimal_of(needs as u128).as_str(),
        ).concat(" rows and this one has ").concat(text::decimal_of(has as u128).as_str()).concat(
            ". ",
        )
    };
    let middle: String = if table_kept {
        String::from_str(
            "The session rows with the least child CPU were dropped, so the ones on screen are the costliest. ",
        )
    } else if hidden > 0 {
        String::from_str("+").concat(text::count_of(hidden).as_str()).concat(
            " sessions not shown: not one row fits, so the table is not drawn at all — column headings with nothing under them read as a machine with no agents on it. ",
        )
    } else {
        String::from_str(
            "There are no sessions to show, and the table's own headings do not fit either. ",
        )
    };
    let end: &str = if bottom_cut {
        ""
    } else {
        "Nothing else was dropped: the at-risk panel is whole and every warning under it is still on screen."
    };
    lines::wrap_words(start.concat(middle.as_str()).concat(end).as_str(), width)
}

/// What everything but the table takes.
pub open spec fn around_the_table(header: nat, snapshot: Snapshot, width: u16) -> nat {
    header + panel_rows(snapshot) + footer::footer(snapshot, width).len()
}

/// Whether so many rows fit, with the notice about the rest.
pub open spec fn rows_fit(
    shown: int,
    total: int,
    around: nat,
    needs: u16,
    width: u16,
    height: u16,
) -> bool {
    around + table::TABLE_CHROME + shown + lines::wrapped(
        shortfall((total - shown) as nat, true, false, needs, height),
        width,
    ).len() <= height
}

/// The most rows that fit, if any do.
pub open spec fn most_that_fit(
    upto: int,
    total: int,
    around: nat,
    needs: u16,
    width: u16,
    height: u16,
) -> int
    decreases upto,
{
    if upto <= 0 {
        0
    } else if rows_fit(upto, total, around, needs, width, height) {
        upto
    } else {
        most_that_fit(upto - 1, total, around, needs, width, height)
    }
}

/// Whether this is what of the table is drawn: all of it where the screen fits, or is too narrow for any
/// of it; as many rows as fit, where any do; and no table where none does. The panel and what is under
/// it are never dropped for the table's sake.
pub open spec fn is_fit(
    fit: Fit,
    header: nat,
    needs: u16,
    snapshot: Snapshot,
    width: u16,
    height: u16,
) -> bool {
    let total = snapshot.sessions@.len() as int;
    let around = around_the_table(header, snapshot, width);
    let most = most_that_fit(total, total, around, needs, width, height);
    if height >= needs || width < table::least_width() {
        fit.table && fit.shown == total && fit.hidden == 0 && fit.notice@.len() == 0
    } else if most > 0 {
        fit.table && fit.shown == most && fit.hidden == total - most && text::texts(fit.notice@)
            == lines::wrapped(shortfall((total - most) as nat, true, false, needs, height), width)
    } else {
        let whole = lines::wrapped(shortfall(total as nat, false, false, needs, height), width);
        &&& !fit.table
        &&& fit.shown == 0
        &&& fit.hidden == total
        &&& text::texts(fit.notice@) == if around + whole.len() > height {
            lines::wrapped(shortfall(total as nat, false, true, needs, height), width)
        } else {
            whole
        }
    }
}

fn fit_under(header: usize, needs: u16, snapshot: &Snapshot, width: u16, height: u16) -> (fit: Fit)
    ensures
        is_fit(fit, header as nat, needs, *snapshot, width, height),
{
    let total: usize = snapshot.sessions.len();
    if height >= needs || width < table::minimum_width() {
        return Fit::everything(total);
    }
    let under: Vec<String> = footer::footer_lines(snapshot, width);
    let caveats: usize = under.len();
    assert(caveats == text::texts(under@).len());
    let around: u128 = header as u128 + panel_height(snapshot, width) + caveats as u128;
    let ghost spare = around_the_table(header as nat, *snapshot, width);
    assert(around == spare);
    let mut shown: usize = total;
    while shown >= 1
        invariant
            shown <= total,
            total == snapshot.sessions@.len(),
            around == spare,
            around <= PANEL_CHROME + 4 * usize::MAX,
            spare == around_the_table(header as nat, *snapshot, width),
            height < needs,
            width >= table::least_width(),
            most_that_fit(total as int, total as int, spare, needs, width, height)
                == most_that_fit(shown as int, total as int, spare, needs, width, height),
        decreases shown,
    {
        let hidden: usize = total - shown;
        let notice: Vec<String> = shortfall_lines(hidden, true, false, needs, height, width);
        let said: usize = notice.len();
        assert(said == text::texts(notice@).len());
        if around + table::TABLE_CHROME as u128 + shown as u128 + said as u128 <= height as u128 {
            return Fit { table: true, shown, hidden, notice };
        }
        shown -= 1;
    }
    let whole: Vec<String> = shortfall_lines(total, false, false, needs, height, width);
    let said: usize = whole.len();
    assert(said == text::texts(whole@).len());
    let notice: Vec<String> = if around + said as u128 > height as u128 {
        shortfall_lines(total, false, true, needs, height, width)
    } else {
        whole
    };
    Fit { table: false, shown: 0, hidden: total, notice }
}

/// What of the table is drawn in a terminal of this size.
pub fn fit(screen: &Screen, snapshot: &Snapshot, percentage: &str, width: u16, height: u16) -> (fit: Fit)
    requires
        screen.facts == Facts::Own(*snapshot),
    ensures
        exists|header: Seq<Seq<char>>, needs: u16|
            {
                &&& #[trigger] is_header(header, *screen, percentage@, width)
                &&& #[trigger] is_screen_height(needs, *screen, percentage@, width)
                &&& is_fit(fit, header.len(), needs, *snapshot, width, height)
            },
{
    let needs: u16 = screen_height(screen, percentage, width);
    let header: Vec<String> = screen_header(screen, percentage, width);
    let above: usize = header.len();
    let ghost shown_header = text::texts(header@);
    assert(above == shown_header.len());
    let fit: Fit = fit_under(above, needs, snapshot, width, height);
    assert(is_header(shown_header, *screen, percentage@, width));
    assert(is_screen_height(needs, *screen, percentage@, width));
    fit
}

proof fn lemma_most_that_fit(
    upto: int,
    total: int,
    around: nat,
    needs: u16,
    width: u16,
    height: u16,
)
    ensures
        0 <= most_that_fit(upto, total, around, needs, width, height),
        0 <= upto ==> most_that_fit(upto, total, around, needs, width, height) <= upto,
        most_that_fit(upto, total, around, needs, width, height) > 0 ==> rows_fit(
            most_that_fit(upto, total, around, needs, width, height),
            total,
            around,
            needs,
            width,
            height,
        ),
        forall|more: int|
            most_that_fit(upto, total, around, needs, width, height) < more <= upto
                ==> !#[trigger] rows_fit(more, total, around, needs, width, height),
    decreases upto,
{
    if upto > 0 && !rows_fit(upto, total, around, needs, width, height) {
        lemma_most_that_fit(upto - 1, total, around, needs, width, height);
    }
}

/// No session is dropped silently: what is not shown is counted, the rows that are shown fit together
/// with everything round them and the notice, and not one more would.
pub proof fn law_no_session_is_dropped_silently(
    fit: Fit,
    header: nat,
    needs: u16,
    snapshot: Snapshot,
    width: u16,
    height: u16,
)
    requires
        is_fit(fit, header, needs, snapshot, width, height),
    ensures
        fit.shown + fit.hidden == snapshot.sessions@.len(),
        fit.hidden > 0 && fit.table ==> around_the_table(header, snapshot, width)
            + table::TABLE_CHROME + fit.shown + fit.notice@.len() <= height,
        fit.hidden > 0 && fit.table ==> forall|more: int|
            fit.shown < more <= snapshot.sessions@.len() ==> !#[trigger] rows_fit(
                more,
                snapshot.sessions@.len() as int,
                around_the_table(header, snapshot, width),
                needs,
                width,
                height,
            ),
{
    let total = snapshot.sessions@.len() as int;
    let around = around_the_table(header, snapshot, width);
    lemma_most_that_fit(total, total, around, needs, width, height);
    assert(fit.notice@.len() == text::texts(fit.notice@).len());
}

} // verus!
