//! The panel of workspaces: those at risk first, and an account of the rest.

use crate::collect::{Snapshot, WorkspaceReport};
use crate::order;
use crate::order::Ranked;
use crate::render::lines;
use crate::text;
use crate::vcs::{Unreadable, WorkspaceState};
use crate::world::NamespaceResolution;
use vstd::prelude::*;

verus! {

/// How wide the state of a workspace is shown.
pub const STATE_WIDTH: u16 = 14;

/// How wide its count is shown, or the reason that stands in its place.
pub const COUNT_WIDTH: u16 = 15;

/// How wide its kind is shown.
pub const KIND_WIDTH: u16 = 8;

/// How narrow a path may get.
pub const PATH_MIN: u16 = 16;

/// How wide a path is shown: what the three columns before it, the spaces between and the borders
/// leave.
pub open spec fn path_width(total: u16) -> u16 {
    if total - 42 < PATH_MIN {
        PATH_MIN
    } else {
        (total - 42) as u16
    }
}

/// How wide a path is shown.
pub fn panel_path_width(total: u16) -> (width: u16)
    ensures
        width == path_width(total),
{
    let taken: u16 = STATE_WIDTH + COUNT_WIDTH + KIND_WIDTH + 3 + 2;
    if total < taken || total - taken < PATH_MIN {
        PATH_MIN
    } else {
        total - taken
    }
}

/// What is shown of how much in a workspace is uncommitted, or why that is not known.
pub open spec fn count_or_reason(workspace: WorkspaceReport) -> Seq<char> {
    match workspace.state {
        WorkspaceState::Unknown(why) => why.words(),
        _ => match workspace.uncommitted_entries {
            Some(count) => text::decimal(count as nat),
            None => "—"@,
        },
    }
}

/// The row of a workspace.
pub open spec fn row_words(workspace: WorkspaceReport, width: u16) -> Seq<char> {
    text::filled_right(workspace.state.word(), STATE_WIDTH as nat) + " "@ + text::filled_right(
        count_or_reason(workspace),
        COUNT_WIDTH as nat,
    ) + " "@ + text::filled_right(
        if workspace.linked_worktree {
            "worktree"@
        } else {
            "primary"@
        },
        KIND_WIDTH as nat,
    ) + " "@ + lines::cut_off(workspace.path@, width)
}

/// The row of a workspace.
pub fn workspace_row(workspace: &WorkspaceReport, width: u16) -> (row: String)
    ensures
        row@ == row_words(*workspace, width),
{
    let count: String = match &workspace.state {
        WorkspaceState::Unknown(why) => String::from_str(why.to_text()),
        WorkspaceState::Clean
        | WorkspaceState::DirtyDriven
        | WorkspaceState::DirtyStranded => match workspace.uncommitted_entries {
            Some(count) => text::count_of(count),
            None => String::from_str("—"),
        },
    };
    let kind: &str = if workspace.linked_worktree {
        "worktree"
    } else {
        "primary"
    };
    text::pad_right(workspace.state.to_text(), STATE_WIDTH as usize).concat(" ").concat(
        text::pad_right(count.as_str(), COUNT_WIDTH as usize).as_str(),
    ).concat(" ").concat(text::pad_right(kind, KIND_WIDTH as usize).as_str()).concat(" ").concat(
        lines::shorten_from_the_left(workspace.path.as_str(), width).as_str(),
    )
}

// --- What kind of workspace it is --------------------------------------------------------------

/// What a workspace counts as.
#[derive(Debug, Clone, Copy, PartialEq, Eq, Structural)]
pub enum Kind {
    Stranded,
    Unreadable,
    Driven,
    Clean,
    NotVersionControlled,
    Gone,
    NotYetRead,
}

/// What a workspace counts as.
pub open spec fn kind_of(state: WorkspaceState) -> Kind {
    match state {
        WorkspaceState::DirtyStranded => Kind::Stranded,
        WorkspaceState::DirtyDriven => Kind::Driven,
        WorkspaceState::Clean => Kind::Clean,
        WorkspaceState::Unknown(Unreadable::QueryFailed(_)) => Kind::Unreadable,
        WorkspaceState::Unknown(Unreadable::TimedOut) => Kind::Unreadable,
        WorkspaceState::Unknown(Unreadable::NotVersionControlled) => Kind::NotVersionControlled,
        WorkspaceState::Unknown(Unreadable::PathGone) => Kind::Gone,
        WorkspaceState::Unknown(Unreadable::NotYetRead) => Kind::NotYetRead,
    }
}

fn kind(state: &WorkspaceState) -> (kind: Kind)
    ensures
        kind == kind_of(*state),
{
    match state {
        WorkspaceState::DirtyStranded => Kind::Stranded,
        WorkspaceState::DirtyDriven => Kind::Driven,
        WorkspaceState::Clean => Kind::Clean,
        WorkspaceState::Unknown(Unreadable::QueryFailed(_)) => Kind::Unreadable,
        WorkspaceState::Unknown(Unreadable::TimedOut) => Kind::Unreadable,
        WorkspaceState::Unknown(Unreadable::NotVersionControlled) => Kind::NotVersionControlled,
        WorkspaceState::Unknown(Unreadable::PathGone) => Kind::Gone,
        WorkspaceState::Unknown(Unreadable::NotYetRead) => Kind::NotYetRead,
    }
}

/// The workspaces of a kind, as they stand.
pub open spec fn of_kind(workspaces: Seq<WorkspaceReport>, wanted: Kind) -> Seq<WorkspaceReport>
    decreases workspaces.len(),
{
    if workspaces.len() == 0 {
        Seq::empty()
    } else if kind_of(workspaces.last().state) == wanted {
        of_kind(workspaces.drop_last(), wanted).push(workspaces.last())
    } else {
        of_kind(workspaces.drop_last(), wanted)
    }
}

fn these<'a>(workspaces: &'a Vec<WorkspaceReport>, wanted: Kind) -> (found: Vec<&'a WorkspaceReport>)
    ensures
        found@.len() == of_kind(workspaces@, wanted).len(),
        forall|i: int|
            0 <= i < found@.len() ==> *(#[trigger] found@[i]) == of_kind(workspaces@, wanted)[i],
{
    let ghost all = workspaces@;
    let mut found: Vec<&'a WorkspaceReport> = Vec::new();
    let mut next: usize = 0;
    assert(all.take(0) =~= Seq::empty());
    while next < workspaces.len()
        invariant
            next <= all.len(),
            all == workspaces@,
            found@.len() == of_kind(all.take(next as int), wanted).len(),
            forall|i: int|
                0 <= i < found@.len() ==> *(#[trigger] found@[i]) == of_kind(
                    all.take(next as int),
                    wanted,
                )[i],
        decreases all.len() - next,
    {
        assert(all.take(next + 1).drop_last() =~= all.take(next as int));
        if kind(&workspaces[next].state) == wanted {
            found.push(&workspaces[next]);
        }
        next += 1;
    }
    assert(all.take(all.len() as int) =~= all);
    found
}

/// Where a stranded workspace stands: the one with the most to lose first.
#[derive(Debug, Clone, Copy, PartialEq, Eq, Structural)]
pub struct Loss {
    pub entries: usize,
}

impl Ranked for Loss {
    open spec fn ranks_before(&self, other: &Loss) -> bool {
        self.entries > other.entries
    }

    fn precedes(&self, other: &Loss) -> (before: bool) {
        self.entries > other.entries
    }

    proof fn ranks_are_ordered(first: Loss, second: Loss, third: Loss) {
    }
}

/// What there is to lose in each workspace.
pub open spec fn losses(workspaces: Seq<WorkspaceReport>) -> Seq<Loss> {
    workspaces.map_values(
        |workspace: WorkspaceReport|
            Loss {
                entries: match workspace.uncommitted_entries {
                    Some(count) => count,
                    None => 0,
                },
            },
    )
}

/// The rows of workspaces.
pub open spec fn rows_of(workspaces: Seq<WorkspaceReport>, width: u16) -> Seq<Seq<char>> {
    workspaces.map_values(|workspace: WorkspaceReport| row_words(workspace, width))
}

/// Whether these are the rows of the panel: the stranded workspaces, those with the most to lose first,
/// then those that could not be read, then those that a session drives.
pub open spec fn are_panel_rows(rows: Seq<Seq<char>>, workspaces: Seq<WorkspaceReport>, width: u16) -> bool {
    let stranded = of_kind(workspaces, Kind::Stranded);
    exists|order: Seq<usize>|
        {
            &&& #[trigger] order::is_stable_order(losses(stranded), order)
            &&& rows == rows_of(order::arranged(stranded, order), path_width(width)) + rows_of(
                of_kind(workspaces, Kind::Unreadable),
                path_width(width),
            ) + rows_of(of_kind(workspaces, Kind::Driven), path_width(width))
        }
}

fn add_rows(rows: &mut Vec<String>, workspaces: &Vec<&WorkspaceReport>, Ghost(all): Ghost<
    Seq<WorkspaceReport>,
>, width: u16)
    requires
        workspaces@.len() == all.len(),
        forall|i: int| 0 <= i < workspaces@.len() ==> *(#[trigger] workspaces@[i]) == all[i],
    ensures
        text::texts(final(rows)@) == text::texts(old(rows)@) + rows_of(all, width),
{
    let ghost begun = text::texts(rows@);
    let ghost more = rows_of(all, width);
    let mut next: usize = 0;
    assert(begun + more.take(0) =~= begun);
    while next < workspaces.len()
        invariant
            next <= workspaces@.len(),
            workspaces@.len() == all.len(),
            more == rows_of(all, width),
            forall|i: int| 0 <= i < workspaces@.len() ==> *(#[trigger] workspaces@[i]) == all[i],
            text::texts(rows@) == begun + more.take(next as int),
        decreases workspaces@.len() - next,
    {
        let ghost before = rows@;
        assert(*workspaces@[next as int] == all[next as int]);
        rows.push(workspace_row(workspaces[next], width));
        assert(text::texts(rows@) =~= text::texts(before).push(more[next as int]));
        assert((begun + more.take(next as int)).push(more[next as int]) =~= begun + more.take(
            next + 1,
        ));
        next += 1;
    }
    assert(more.take(all.len() as int) =~= more);
}

fn panel_rows(workspaces: &Vec<WorkspaceReport>, width: u16) -> (rows: Vec<String>)
    ensures
        are_panel_rows(text::texts(rows@), workspaces@, width),
{
    let column: u16 = panel_path_width(width);
    let stranded: Vec<&WorkspaceReport> = these(workspaces, Kind::Stranded);
    let ghost all = of_kind(workspaces@, Kind::Stranded);
    let mut keys: Vec<Loss> = Vec::new();
    let mut next: usize = 0;
    while next < stranded.len()
        invariant
            next <= stranded@.len(),
            stranded@.len() == all.len(),
            forall|i: int| 0 <= i < stranded@.len() ==> *(#[trigger] stranded@[i]) == all[i],
            keys@ == losses(all).take(next as int),
        decreases stranded@.len() - next,
    {
        assert(*stranded@[next as int] == all[next as int]);
        keys.push(
            Loss {
                entries: match stranded[next].uncommitted_entries {
                    Some(count) => count,
                    None => 0,
                },
            },
        );
        next += 1;
        assert(keys@ =~= losses(all).take(next as int));
    }
    assert(keys@ =~= losses(all));
    let order: Vec<usize> = order::stable_order(&keys);
    let ghost placed_all = order::arranged(all, order@);
    let mut placed: Vec<&WorkspaceReport> = Vec::new();
    next = 0;
    while next < order.len()
        invariant
            next <= order@.len(),
            stranded@.len() == all.len(),
            order::is_stable_order(losses(all), order@),
            order@.len() == all.len(),
            placed_all == order::arranged(all, order@),
            forall|i: int| 0 <= i < stranded@.len() ==> *(#[trigger] stranded@[i]) == all[i],
            placed@.len() == next,
            forall|i: int| 0 <= i < placed@.len() ==> *(#[trigger] placed@[i]) == placed_all[i],
        decreases order@.len() - next,
    {
        assert(order@[next as int] < all.len());
        assert(*stranded@[order@[next as int] as int] == all[order@[next as int] as int]);
        placed.push(stranded[order[next]]);
        next += 1;
    }
    let mut rows: Vec<String> = Vec::new();
    assert(text::texts(rows@) =~= Seq::empty());
    add_rows(&mut rows, &placed, Ghost(placed_all), column);
    assert(text::texts(rows@) =~= rows_of(placed_all, column));
    add_rows(
        &mut rows,
        &these(workspaces, Kind::Unreadable),
        Ghost(of_kind(workspaces@, Kind::Unreadable)),
        column,
    );
    add_rows(
        &mut rows,
        &these(workspaces, Kind::Driven),
        Ghost(of_kind(workspaces@, Kind::Driven)),
        column,
    );
    rows
}

// --- The account of the rest -------------------------------------------------------------------

/// How many workspaces are of a kind.
pub open spec fn count(workspaces: Seq<WorkspaceReport>, wanted: Kind) -> nat {
    of_kind(workspaces, wanted).len()
}

/// How many workspaces are at risk.
pub open spec fn at_risk(workspaces: Seq<WorkspaceReport>) -> nat {
    count(workspaces, Kind::Stranded) + count(workspaces, Kind::Unreadable)
}

/// What a resolution that gave no one directory counts as.
#[derive(Debug, Clone, Copy, PartialEq, Eq, Structural)]
pub enum Miss {
    NoLongerExists,
    Ambiguous,
    SearchExhausted,
    Misfiled,
}

/// What a resolution counts as.
pub open spec fn miss_of(resolution: NamespaceResolution) -> Miss {
    match resolution {
        NamespaceResolution::NoLongerExists => Miss::NoLongerExists,
        NamespaceResolution::Ambiguous(_) => Miss::Ambiguous,
        NamespaceResolution::SearchExhausted => Miss::SearchExhausted,
        NamespaceResolution::Resolved(_) => Miss::Misfiled,
    }
}

/// How many recorded names count as this.
pub open spec fn misses(unlocated: Seq<(String, NamespaceResolution)>, wanted: Miss) -> nat
    decreases unlocated.len(),
{
    if unlocated.len() == 0 {
        0
    } else {
        misses(unlocated.drop_last(), wanted) + if miss_of(unlocated.last().1) == wanted {
            1nat
        } else {
            0nat
        }
    }
}

fn count_misses(unlocated: &Vec<(String, NamespaceResolution)>, wanted: Miss) -> (count: usize)
    ensures
        count == misses(unlocated@, wanted),
{
    let ghost all = unlocated@;
    let mut count: usize = 0;
    let mut next: usize = 0;
    assert(all.take(0) =~= Seq::empty());
    while next < unlocated.len()
        invariant
            next <= all.len(),
            all == unlocated@,
            count <= next,
            count == misses(all.take(next as int), wanted),
        decreases all.len() - next,
    {
        assert(all.take(next + 1).drop_last() =~= all.take(next as int));
        let miss: Miss = match &unlocated[next].1 {
            NamespaceResolution::NoLongerExists => Miss::NoLongerExists,
            NamespaceResolution::Ambiguous(_) => Miss::Ambiguous,
            NamespaceResolution::SearchExhausted => Miss::SearchExhausted,
            NamespaceResolution::Resolved(_) => Miss::Misfiled,
        };
        if miss == wanted {
            count += 1;
        }
        next += 1;
    }
    assert(all.take(all.len() as int) =~= all);
    count
}

/// A count and what is counted, where there is any.
pub open spec fn tally(count: nat, what: Seq<char>) -> Seq<Seq<char>> {
    if count > 0 {
        seq![text::decimal(count) + what]
    } else {
        Seq::empty()
    }
}

/// What is said where nothing is at risk.
pub open spec fn verdict(workspaces: Seq<WorkspaceReport>) -> Seq<Seq<char>> {
    if at_risk(workspaces) > 0 {
        Seq::empty()
    } else if workspaces.len() == 0 {
        seq![
            "No workspaces were located, so NOTHING WAS CHECKED — this is not a clear result."@,
        ]
    } else if count(workspaces, Kind::Driven) > 0 {
        seq!["No workspaces at risk — all dirty workspaces have active sessions."@]
    } else {
        seq!["No workspaces at risk — all checked workspaces are clean."@]
    }
}

/// The workspaces that are not rows, or are rows without being at risk, kind by kind.
pub open spec fn accounted(workspaces: Seq<WorkspaceReport>) -> Seq<Seq<char>> {
    tally(count(workspaces, Kind::Clean), " clean"@) + (if at_risk(workspaces) > 0 {
        tally(count(workspaces, Kind::Driven), " dirty-driven"@)
    } else {
        Seq::empty()
    }) + tally(count(workspaces, Kind::NotVersionControlled), " not version-controlled"@) + tally(
        count(workspaces, Kind::Gone),
        " path gone"@,
    ) + tally(count(workspaces, Kind::NotYetRead), " not read yet"@)
}

/// The recorded names that led nowhere, kind by kind.
pub open spec fn unlocated_parts(unlocated: Seq<(String, NamespaceResolution)>) -> Seq<Seq<char>> {
    tally(misses(unlocated, Miss::NoLongerExists), " no longer exist"@) + tally(
        misses(unlocated, Miss::Ambiguous),
        " ambiguous"@,
    ) + tally(misses(unlocated, Miss::SearchExhausted), " search incomplete"@)
}

/// A line of parts, where there are any.
pub open spec fn listed(start: Seq<char>, parts: Seq<Seq<char>>) -> Seq<Seq<char>> {
    if parts.len() > 0 {
        seq![start + text::joined(parts, ", "@) + "."@]
    } else {
        Seq::empty()
    }
}

/// The lines under the rows.
pub open spec fn summary(snapshot: Snapshot) -> Seq<Seq<char>> {
    let workspaces = snapshot.workspaces@;
    let misfiled = misses(snapshot.unlocated@, Miss::Misfiled);
    verdict(workspaces) + listed("Also found: "@, accounted(workspaces)) + listed(
        "Recorded namespaces not located: "@,
        unlocated_parts(snapshot.unlocated@),
    ) + (if misfiled > 0 {
        seq![
            "BUG: "@ + text::decimal(misfiled)
                + " namespace(s) reported as unlocated already have a path."@,
        ]
    } else {
        Seq::empty()
    }) + (if snapshot.sweep_complete {
        Seq::empty()
    } else {
        seq![
            "WARNING: Directory sweep incomplete — this list is partial, not exhaustive."@,
        ]
    })
}

/// The panel's title.
pub open spec fn title(workspaces: Seq<WorkspaceReport>) -> Seq<char> {
    " at risk — "@ + text::decimal(at_risk(workspaces)) + " of "@ + text::decimal(workspaces.len())
        + " workspaces "@
}

fn add_line(found: &mut Vec<String>, line: String)
    ensures
        text::texts(final(found)@) == text::texts(old(found)@) + seq![line@],
{
    let ghost before = found@;
    found.push(line);
    assert(text::texts(found@) =~= text::texts(before) + seq![line@]);
}

fn add_tally(found: &mut Vec<String>, count: usize, what: &str)
    ensures
        text::texts(final(found)@) == text::texts(old(found)@) + tally(count as nat, what@),
{
    let ghost begun = text::texts(found@);
    if count > 0 {
        add_line(found, text::count_of(count).concat(what));
    } else {
        assert(begun + Seq::<Seq<char>>::empty() =~= begun);
    }
}

fn add_listed(found: &mut Vec<String>, start: &str, parts: &Vec<String>)
    ensures
        text::texts(final(found)@) == text::texts(old(found)@) + listed(
            start@,
            text::texts(parts@),
        ),
{
    let ghost begun = text::texts(found@);
    if parts.len() > 0 {
        add_line(
            found,
            String::from_str(start).concat(text::join(parts, ", ").as_str()).concat("."),
        );
    } else {
        assert(begun + Seq::<Seq<char>>::empty() =~= begun);
    }
}

/// The panel: its title, its rows and the lines under them.
pub fn at_risk_panel_content(snapshot: &Snapshot, width: u16) -> (panel: (
    String,
    Vec<String>,
    Vec<String>,
))
    ensures
        panel.0@ == title(snapshot.workspaces@),
        are_panel_rows(text::texts(panel.1@), snapshot.workspaces@, width),
        text::texts(panel.2@) == summary(*snapshot),
{
    let workspaces: &Vec<WorkspaceReport> = &snapshot.workspaces;
    let stranded: usize = these(workspaces, Kind::Stranded).len();
    let unreadable: usize = these(workspaces, Kind::Unreadable).len();
    let driven: usize = these(workspaces, Kind::Driven).len();
    let risks: u128 = stranded as u128 + unreadable as u128;
    let heading: String = String::from_str(" at risk — ").concat(
        text::decimal_of(risks).as_str(),
    ).concat(" of ").concat(text::count_of(workspaces.len()).as_str()).concat(" workspaces ");
    let rows: Vec<String> = panel_rows(workspaces, width);
    let mut under: Vec<String> = Vec::new();
    assert(text::texts(under@) =~= Seq::empty());
    if risks == 0 {
        add_line(
            &mut under,
            String::from_str(
                if workspaces.len() == 0 {
                    "No workspaces were located, so NOTHING WAS CHECKED — this is not a clear result."
                } else if driven > 0 {
                    "No workspaces at risk — all dirty workspaces have active sessions."
                } else {
                    "No workspaces at risk — all checked workspaces are clean."
                },
            ),
        );
    }
    assert(text::texts(under@) =~= verdict(workspaces@));
    let mut rest: Vec<String> = Vec::new();
    assert(text::texts(rest@) =~= Seq::empty());
    add_tally(&mut rest, these(workspaces, Kind::Clean).len(), " clean");
    assert(text::texts(rest@) =~= tally(count(workspaces@, Kind::Clean), " clean"@));
    if risks > 0 {
        add_tally(&mut rest, driven, " dirty-driven");
    } else {
        assert(text::texts(rest@) + Seq::<Seq<char>>::empty() =~= text::texts(rest@));
    }
    add_tally(
        &mut rest,
        these(workspaces, Kind::NotVersionControlled).len(),
        " not version-controlled",
    );
    add_tally(&mut rest, these(workspaces, Kind::Gone).len(), " path gone");
    add_tally(&mut rest, these(workspaces, Kind::NotYetRead).len(), " not read yet");
    assert(text::texts(rest@) == accounted(workspaces@));
    add_listed(&mut under, "Also found: ", &rest);
    let mut nowhere: Vec<String> = Vec::new();
    assert(text::texts(nowhere@) =~= Seq::empty());
    add_tally(
        &mut nowhere,
        count_misses(&snapshot.unlocated, Miss::NoLongerExists),
        " no longer exist",
    );
    assert(text::texts(nowhere@) =~= tally(
        misses(snapshot.unlocated@, Miss::NoLongerExists),
        " no longer exist"@,
    ));
    add_tally(&mut nowhere, count_misses(&snapshot.unlocated, Miss::Ambiguous), " ambiguous");
    add_tally(
        &mut nowhere,
        count_misses(&snapshot.unlocated, Miss::SearchExhausted),
        " search incomplete",
    );
    add_listed(&mut under, "Recorded namespaces not located: ", &nowhere);
    let misfiled: usize = count_misses(&snapshot.unlocated, Miss::Misfiled);
    if misfiled > 0 {
        add_line(
            &mut under,
            String::from_str("BUG: ").concat(text::count_of(misfiled).as_str()).concat(
                " namespace(s) reported as unlocated already have a path.",
            ),
        );
    } else {
        assert(text::texts(under@) + Seq::<Seq<char>>::empty() =~= text::texts(under@));
    }
    if !snapshot.sweep_complete {
        add_line(
            &mut under,
            String::from_str(
                "WARNING: Directory sweep incomplete — this list is partial, not exhaustive.",
            ),
        );
    } else {
        assert(text::texts(under@) + Seq::<Seq<char>>::empty() =~= text::texts(under@));
    }
    (heading, rows, under)
}

proof fn lemma_kinds_are_risks(workspaces: Seq<WorkspaceReport>)
    ensures
        at_risk(workspaces) == crate::tiers::payload::risks(workspaces),
    decreases workspaces.len(),
{
    if workspaces.len() > 0 {
        lemma_kinds_are_risks(workspaces.drop_last());
    }
}

/// The number in the panel's title is the number of workspaces at risk, and nothing at risk is left out
/// of the rows.
pub proof fn law_the_panel_shows_every_risk(
    rows: Seq<Seq<char>>,
    workspaces: Seq<WorkspaceReport>,
    width: u16,
    at: int,
)
    requires
        are_panel_rows(rows, workspaces, width),
        0 <= at < workspaces.len() <= usize::MAX,
        workspaces[at].state.risky(),
    ensures
        rows.contains(row_words(workspaces[at], path_width(width))),
        at_risk(workspaces) == crate::tiers::payload::risks(workspaces),
        at_risk(workspaces) >= 1,
{
    lemma_kinds_are_risks(workspaces);
    let report = workspaces[at];
    let stranded = of_kind(workspaces, Kind::Stranded);
    let unreadable = of_kind(workspaces, Kind::Unreadable);
    let column = path_width(width);
    let order = choose|order: Seq<usize>|
        {
            &&& #[trigger] order::is_stable_order(losses(stranded), order)
            &&& rows == rows_of(order::arranged(stranded, order), column) + rows_of(
                unreadable,
                column,
            ) + rows_of(of_kind(workspaces, Kind::Driven), column)
        };
    let first = rows_of(order::arranged(stranded, order), column);
    let second = rows_of(unreadable, column);
    lemma_of_kind_has(workspaces, at);
    lemma_of_kind_is_no_longer(workspaces, Kind::Stranded);
    if report.state is DirtyStranded {
        let k = choose|k: int| 0 <= k < stranded.len() && stranded[k] == report;
        assert(order.contains(k as usize));
        let i = choose|i: int| 0 <= i < order.len() && order[i] == k as usize;
        assert(first[i] == row_words(report, column));
        assert(rows[i] == first[i]);
    } else {
        let k = choose|k: int| 0 <= k < unreadable.len() && unreadable[k] == report;
        assert(second[k] == row_words(report, column));
        assert(rows[first.len() + k] == second[k]);
    }
}

proof fn lemma_of_kind_is_no_longer(workspaces: Seq<WorkspaceReport>, wanted: Kind)
    ensures
        of_kind(workspaces, wanted).len() <= workspaces.len(),
    decreases workspaces.len(),
{
    if workspaces.len() > 0 {
        lemma_of_kind_is_no_longer(workspaces.drop_last(), wanted);
    }
}

proof fn lemma_of_kind_has(workspaces: Seq<WorkspaceReport>, at: int)
    requires
        0 <= at < workspaces.len(),
    ensures
        of_kind(workspaces, kind_of(workspaces[at].state)).contains(workspaces[at]),
    decreases workspaces.len(),
{
    let wanted = kind_of(workspaces[at].state);
    let before = of_kind(workspaces.drop_last(), wanted);
    let after = of_kind(workspaces, wanted);
    if at == workspaces.len() - 1 {
        assert(after[before.len() as int] == workspaces[at]);
    } else {
        lemma_of_kind_has(workspaces.drop_last(), at);
        assert(workspaces.drop_last()[at] == workspaces[at]);
        let i = choose|i: int| 0 <= i < before.len() && before[i] == workspaces[at];
        assert(after[i] == workspaces[at]);
    }
}

} // verus!
