//! Workspaces: where repositories are, what git says of them, and which hold work that may be lost.

use crate::collect::workspaces;
use crate::collect::Session;
use crate::collect::attribution;
use crate::collect::sessions::Evidence;
use crate::real_world::repositories;
use crate::real_world::repositories::{
    Followed, Glance, Waited, Walk, SWEEP_BUDGET, SWEEP_MAX_DEPTH,
};
use crate::text;
use crate::time::Duration;
use crate::vcs;
use crate::vcs::{Unreadable, VcsFacts, WorkspaceState};
use crate::world::NamespaceResolution;
use vstd::prelude::*;

verus! {

// --- What git says -----------------------------------------------------------------------------

/// Whether a line holds a character that is not white space.
pub open spec fn says_something() -> spec_fn(Seq<char>) -> bool {
    |line: Seq<char>| exists|i: int| 0 <= i < line.len() && !text::is_white(#[trigger] line[i])
}

/// Every line that git prints is an uncommitted entry, whatever it begins with, if there is anything in it
/// but white space; no other line is.
pub proof fn law_every_line_that_says_something_is_an_entry(lines: Seq<Seq<char>>)
    ensures
        repositories::entries(lines) == lines.filter(says_something()).len(),
        repositories::entries(lines) == 0 <==> forall|i: int|
            0 <= i < lines.len() ==> !says_something()(#[trigger] lines[i]),
    decreases lines.len(),
{
    reveal(Seq::filter);
    if lines.len() > 0 {
        let shorter = lines.drop_last();
        law_every_line_that_says_something_is_an_entry(shorter);
        crate::laws::text::law_nothing_is_left_of_blanks_alone(lines.last());
        assert(says_something()(lines.last()) <==> !crate::laws::text::is_blank(lines.last()));
        assert forall|i: int| 0 <= i < shorter.len() implies shorter[i] == #[trigger] lines[i] by {
        }
        if forall|i: int| 0 <= i < lines.len() ==> !says_something()(#[trigger] lines[i]) {
            assert(!says_something()(lines[lines.len() - 1]));
            assert forall|i: int| 0 <= i < shorter.len() implies !says_something()(
                #[trigger] shorter[i],
            ) by {
                assert(!says_something()(lines[i]));
            }
        }
        if repositories::entries(lines) == 0 {
            assert forall|i: int| 0 <= i < lines.len() implies !says_something()(
                #[trigger] lines[i],
            ) by {
                if i < shorter.len() {
                    assert(!says_something()(shorter[i]));
                }
            }
        }
    }
}

/// One line more, in front of what else was printed, is one entry more if there is anything in it but white
/// space, and none otherwise.
pub proof fn law_a_printed_line_counts_once(line: Seq<char>, rest: Seq<char>)
    requires
        !crate::laws::text::holds(line, '\n'),
        line.len() > 0 ==> line.last() != '\r',
    ensures
        repositories::entries(text::line_list(line.push('\n') + rest)) == repositories::entries(
            text::line_list(rest),
        ) + (if says_something()(line) {
            1nat
        } else {
            0nat
        }),
        repositories::entries(text::line_list(Seq::<char>::empty())) == 0,
{
    crate::laws::text::law_lines_end_at_line_feeds(line, rest);
    let all = seq![line] + text::line_list(rest);
    lemma_entries_in_front(line, text::line_list(rest));
}

proof fn lemma_entries_in_front(line: Seq<char>, rest: Seq<Seq<char>>)
    ensures
        repositories::entries(seq![line] + rest) == repositories::entries(rest) + (if says_something()(
            line,
        ) {
            1nat
        } else {
            0nat
        }),
    decreases rest.len(),
{
    let all = seq![line] + rest;
    if rest.len() == 0 {
        assert(all =~= seq![line]);
        assert(all.drop_last() =~= Seq::<Seq<char>>::empty());
        assert(repositories::entries(all.drop_last()) == 0);
        assert(repositories::entries(rest) == 0);
        crate::laws::text::law_nothing_is_left_of_blanks_alone(line);
        assert(says_something()(line) <==> !crate::laws::text::is_blank(line));
    } else {
        lemma_entries_in_front(line, rest.drop_last());
        assert(all.drop_last() =~= seq![line] + rest.drop_last());
        assert(all.last() == rest.last());
    }
}

/// There are facts of a repository only where git ran to its end and succeeded, and they are the entries that
/// it printed; where it failed, would not start or was lost, the query failed; and a query that is still
/// running is stopped as timed out once it has had more than five seconds, and not before.
pub proof fn law_only_an_answer_of_git_is_an_answer(
    followed: Followed,
    waited: Waited,
    elapsed: Duration,
    root: Seq<char>,
    linked: bool,
)
    requires
        repositories::follows(followed, waited, elapsed, root, linked),
    ensures
        (followed matches Followed::Answered(Ok(_))) <==> waited is Succeeded,
        followed matches Followed::Answered(Ok(facts)) ==> {
            &&& facts.root@ == root
            &&& facts.linked_worktree == linked
            &&& facts.uncommitted_entries == text::line_list(waited->Succeeded_0@).filter(
                says_something(),
            ).len()
        },
        waited is NotStarted || waited is Failed ==> (followed matches Followed::Answered(Err(why))
            && why is QueryFailed),
        waited is Lost ==> (followed matches Followed::Stop(why) && why is QueryFailed),
        waited is StillRunning ==> (followed == Followed::Stop(Unreadable::TimedOut) <==> elapsed.nanos
            > 5 * 1_000_000_000) && (followed is Wait <==> elapsed.nanos <= 5 * 1_000_000_000),
{
    if waited is Succeeded {
        law_every_line_that_says_something_is_an_entry(text::line_list(waited->Succeeded_0@));
    }
}

/// What git was asked is the state of the repository at its root, everything that is not tracked with it,
/// and nothing that would change it.
pub proof fn law_git_is_asked_for_everything_uncommitted(root: Seq<char>)
    ensures
        repositories::question(root).contains("status"@),
        repositories::question(root).contains("--porcelain"@),
        repositories::question(root).contains("--untracked-files=normal"@),
        repositories::question(root).contains("--no-optional-locks"@),
        exists|i: int|
            0 < i < repositories::question(root).len() && #[trigger] repositories::question(root)[i]
                == root && repositories::question(root)[i - 1] == "-C"@,
{
    let asked = repositories::question(root);
    assert(asked[7] == "status"@);
    assert(asked[8] == "--porcelain"@);
    assert(asked[9] == "--untracked-files=normal"@);
    assert(asked[0] == "--no-optional-locks"@);
    assert(asked[6] == root && asked[5] == "-C"@);
}

// --- What may be lost --------------------------------------------------------------------------

/// A workspace is clean exactly if git answered that nothing is uncommitted; with something uncommitted it is
/// driven or stranded as a session drives it or not; and without an answer it is unknown for the reason that
/// there is none.
pub proof fn law_uncommitted_work_nobody_drives_is_stranded(
    facts: Result<VcsFacts, Unreadable>,
    driving: bool,
)
    ensures
        vcs::state_of(facts, driving) is Clean <==> (facts matches Ok(found)
            && found.uncommitted_entries == 0),
        vcs::state_of(facts, driving) is DirtyDriven <==> driving && (facts matches Ok(found)
            && found.uncommitted_entries > 0),
        vcs::state_of(facts, driving) is DirtyStranded <==> !driving && (facts matches Ok(found)
            && found.uncommitted_entries > 0),
        facts matches Err(why) ==> vcs::state_of(facts, driving) == WorkspaceState::Unknown(why),
{
}

/// Work may be lost exactly where it is stranded, or where git was asked and gave no answer.
pub proof fn law_what_may_be_lost(state: WorkspaceState)
    ensures
        state.risky() <==> match state {
            WorkspaceState::Clean => false,
            WorkspaceState::DirtyDriven => false,
            WorkspaceState::DirtyStranded => true,
            WorkspaceState::Unknown(why) => match why {
                Unreadable::NotVersionControlled => false,
                Unreadable::PathGone => false,
                Unreadable::QueryFailed(_) => true,
                Unreadable::TimedOut => true,
                Unreadable::NotYetRead => false,
            },
        },
{
}

/// A session drives a workspace exactly if its process is there and where it works lies inside; a transcript
/// without a process drives nothing.
pub proof fn law_only_a_process_drives(all: Seq<Session>, path: Seq<char>)
    ensures
        workspaces::driven(all, path) <==> exists|i: int|
            {
                &&& 0 <= i < all.len()
                &&& (#[trigger] all[i]).identity is Process
                &&& all[i].workspace is Ok
                &&& attribution::lies_inside(all[i].workspace->Ok_0.path@, path)
            },
{
    if workspaces::driven(all, path) {
        let i = choose|i: int| 0 <= i < all.len() && workspaces::drives(#[trigger] all[i], path);
        assert(all[i].identity is Process);
    }
    if exists|i: int|
        {
            &&& 0 <= i < all.len()
            &&& (#[trigger] all[i]).identity is Process
            &&& all[i].workspace is Ok
            &&& attribution::lies_inside(all[i].workspace->Ok_0.path@, path)
        } {
        let i = choose|i: int|
            {
                &&& 0 <= i < all.len()
                &&& (#[trigger] all[i]).identity is Process
                &&& all[i].workspace is Ok
                &&& attribution::lies_inside(all[i].workspace->Ok_0.path@, path)
            };
        assert(workspaces::drives(all[i], path));
    }
}

/// What is reported of a workspace is its own: the state that its own answer makes, with the entries that git
/// counted, and no count where git gave none.
pub proof fn law_a_report_is_of_its_own_workspace(
    homes: Seq<(String, bool)>,
    facts: Seq<Result<VcsFacts, Unreadable>>,
    all: Seq<Session>,
    at: int,
)
    requires
        homes.len() == facts.len(),
        0 <= at < homes.len(),
    ensures
        workspaces::reports(homes, facts, all).len() == homes.len(),
        workspaces::sightings(homes, facts, all).len() == homes.len(),
        ({
            let report = workspaces::reports(homes, facts, all)[at];
            let seen = workspaces::sightings(homes, facts, all)[at];
            &&& report.path == homes[at].0
            &&& seen.path == homes[at].0
            &&& match facts[at] {
                Ok(found) => {
                    &&& report.uncommitted_entries == Some(found.uncommitted_entries)
                    &&& report.linked_worktree == found.linked_worktree
                    &&& report.state is DirtyStranded <==> found.uncommitted_entries > 0
                        && !workspaces::driven(all, homes[at].0@)
                    &&& report.state is Clean <==> found.uncommitted_entries == 0
                    &&& seen.settled <==> found.uncommitted_entries == 0 && !workspaces::driven(
                        all,
                        homes[at].0@,
                    )
                },
                Err(why) => {
                    &&& report.uncommitted_entries is None
                    &&& report.linked_worktree == homes[at].1
                    &&& report.state == WorkspaceState::Unknown(why)
                    &&& seen.settled <==> (why is NotVersionControlled || why is PathGone)
                        && !workspaces::driven(all, homes[at].0@)
                },
            }
        }),
{
}

// --- Where workspaces may be -------------------------------------------------------------------

proof fn lemma_picked<T>(items: Seq<T>, pick: spec_fn(T) -> Option<String>, path: String)
    ensures
        workspaces::picked(items, pick).contains(path) <==> exists|i: int|
            0 <= i < items.len() && pick(#[trigger] items[i]) == Some(path),
    decreases items.len(),
{
    let all = workspaces::picked(items, pick);
    if items.len() > 0 {
        let shorter = items.drop_last();
        lemma_picked(shorter, pick, path);
        let before = workspaces::picked(shorter, pick);
        assert forall|i: int| 0 <= i < shorter.len() implies shorter[i] == #[trigger] items[i] by {
        }
        if all.contains(path) {
            let k = choose|k: int| 0 <= k < all.len() && all[k] == path;
            if k < before.len() {
                assert(before[k] == path);
                let i = choose|i: int|
                    0 <= i < shorter.len() && pick(#[trigger] shorter[i]) == Some(path);
                assert(pick(items[i]) == Some(path));
            } else {
                assert(pick(items[items.len() - 1]) == Some(path));
            }
        }
        if exists|i: int| 0 <= i < items.len() && pick(#[trigger] items[i]) == Some(path) {
            let i = choose|i: int| 0 <= i < items.len() && pick(#[trigger] items[i]) == Some(path);
            if i < shorter.len() {
                assert(pick(shorter[i]) == Some(path));
                let k = choose|k: int| 0 <= k < before.len() && before[k] == path;
                assert(all[k] == path);
            } else {
                assert(all[before.len() as int] == path);
            }
        }
    }
}

/// A workspace may be where a session works, where any process works, where a recorded name leads, and where
/// Codex's index says; and nowhere else without a search.
pub proof fn law_where_a_workspace_may_be(all: Seq<Session>, evidence: Evidence, path: String)
    ensures
        workspaces::candidates(all, evidence).contains(path) <==> {
            ||| exists|i: int|
                0 <= i < all.len() && (#[trigger] all[i]).workspace is Ok && all[i].workspace->Ok_0.path
                    == path
            ||| exists|i: int|
                0 <= i < evidence.records@.len() && (#[trigger] evidence.records@[i]).cwd is Ok
                    && evidence.records@[i].cwd->Ok_0 == path
            ||| exists|i: int|
                0 <= i < evidence.resolutions@.len() && #[trigger] evidence.resolutions@[i]
                    == NamespaceResolution::Resolved(path)
            ||| exists|i: int|
                0 <= i < evidence.sources.indexed().len() && (
                #[trigger] evidence.sources.indexed()[i]).workspace == path
        },
{
    let one = workspaces::picked(all, workspaces::session_path());
    let two = workspaces::picked(evidence.records@, workspaces::process_path());
    let three = workspaces::picked(evidence.resolutions@, workspaces::resolved_path());
    let four = workspaces::picked(evidence.sources.indexed(), workspaces::entry_path());
    lemma_picked(all, workspaces::session_path(), path);
    lemma_picked(evidence.records@, workspaces::process_path(), path);
    lemma_picked(evidence.resolutions@, workspaces::resolved_path(), path);
    lemma_picked(evidence.sources.indexed(), workspaces::entry_path(), path);
    lemma_contains_either(one, two, path);
    lemma_contains_either(one + two, three, path);
    lemma_contains_either(one + two + three, four, path);
    assert(one.contains(path) <==> exists|i: int|
        0 <= i < all.len() && (#[trigger] all[i]).workspace is Ok && all[i].workspace->Ok_0.path
            == path) by {
        assert forall|i: int| 0 <= i < all.len() implies (workspaces::session_path()(
            #[trigger] all[i],
        ) == Some(path) <==> (all[i].workspace is Ok && all[i].workspace->Ok_0.path == path)) by {
        }
    }
    assert(two.contains(path) <==> exists|i: int|
        0 <= i < evidence.records@.len() && (#[trigger] evidence.records@[i]).cwd is Ok
            && evidence.records@[i].cwd->Ok_0 == path) by {
        assert forall|i: int| 0 <= i < evidence.records@.len() implies (workspaces::process_path()(
            #[trigger] evidence.records@[i],
        ) == Some(path) <==> (evidence.records@[i].cwd is Ok && evidence.records@[i].cwd->Ok_0
            == path)) by {
        }
    }
    assert(three.contains(path) <==> exists|i: int|
        0 <= i < evidence.resolutions@.len() && #[trigger] evidence.resolutions@[i]
            == NamespaceResolution::Resolved(path)) by {
        assert forall|i: int| 0 <= i < evidence.resolutions@.len() implies (
        workspaces::resolved_path()(#[trigger] evidence.resolutions@[i]) == Some(path)
            <==> evidence.resolutions@[i] == NamespaceResolution::Resolved(path)) by {
        }
    }
    assert(four.contains(path) <==> exists|i: int|
        0 <= i < evidence.sources.indexed().len() && (
        #[trigger] evidence.sources.indexed()[i]).workspace == path) by {
        assert forall|i: int| 0 <= i < evidence.sources.indexed().len() implies (
        workspaces::entry_path()(#[trigger] evidence.sources.indexed()[i]) == Some(path)
            <==> evidence.sources.indexed()[i].workspace == path) by {
        }
    }
}

proof fn lemma_contains_either(one: Seq<String>, other: Seq<String>, path: String)
    ensures
        (one + other).contains(path) <==> one.contains(path) || other.contains(path),
{
    let all = one + other;
    if all.contains(path) {
        let k = choose|k: int| 0 <= k < all.len() && all[k] == path;
        if k < one.len() {
            assert(one[k] == path);
        } else {
            assert(other[k - one.len()] == path);
        }
    }
    if one.contains(path) {
        let k = choose|k: int| 0 <= k < one.len() && one[k] == path;
        assert(all[k] == path);
    }
    if other.contains(path) {
        let k = choose|k: int| 0 <= k < other.len() && other[k] == path;
        assert(all[one.len() + k] == path);
    }
}

/// Searched is the directory that a repository stands in, unless that is nothing or the root of everything.
pub proof fn law_neighbours_of_a_repository_are_searched(root: Option<(String, bool)>)
    ensures
        match workspaces::searchable(root) {
            Some(parent) => {
                &&& root is Some
                &&& text::parent_path((root->0).0@) == Some(parent)
                &&& parent.len() > 0
                &&& parent != seq!['/']
            },
            None => root is None || text::parent_path((root->0).0@) is None || text::parent_path(
                (root->0).0@,
            )->0.len() == 0 || text::parent_path((root->0).0@)->0 == seq!['/'],
        },
{
    reveal_strlit("/");
    assert("/"@ =~= seq!['/']);
}

/// Of paths that are the same but for case the first is kept, and no place is lost: a path is kept as it is
/// if none before it is the same, and otherwise the one before it stands for it.
pub proof fn law_of_one_place_the_first_path_is_kept(paths: Seq<String>, at: int)
    requires
        0 <= at < paths.len(),
    ensures
        workspaces::has_path(workspaces::distinct(paths), paths[at]@),
        (forall|j: int|
            0 <= j < at ==> text::lowercased((#[trigger] paths[j])@) != text::lowercased(
                paths[at]@,
            )) ==> workspaces::distinct(paths).contains(paths[at]),
    decreases paths.len(),
{
    let shorter = paths.drop_last();
    let before = workspaces::distinct(shorter);
    let all = workspaces::distinct(paths);
    let last = paths.len() - 1;
    if at < last {
        law_of_one_place_the_first_path_is_kept(shorter, at);
        let i = choose|i: int|
            0 <= i < before.len() && text::lowercased((#[trigger] before[i])@) == text::lowercased(
                paths[at]@,
            );
        assert(all[i] == before[i]);
        if forall|j: int|
            0 <= j < at ==> text::lowercased((#[trigger] paths[j])@) != text::lowercased(
                paths[at]@,
            ) {
            assert forall|j: int| 0 <= j < at implies text::lowercased((#[trigger] shorter[j])@)
                != text::lowercased(shorter[at]@) by {
                assert(shorter[j] == paths[j]);
            }
            let k = choose|k: int| 0 <= k < before.len() && before[k] == paths[at];
            assert(all[k] == paths[at]);
        }
    } else {
        if workspaces::has_path(before, paths[at]@) {
            let i = choose|i: int|
                0 <= i < before.len() && text::lowercased((#[trigger] before[i])@)
                    == text::lowercased(paths[at]@);
            assert(all[i] == before[i]);
            lemma_distinct_is_from(shorter, i);
            let k = choose|k: int| 0 <= k < shorter.len() && #[trigger] shorter[k] == before[i];
            assert(paths[k] == before[i]);
        } else {
            assert(all[before.len() as int] == paths[at]);
        }
    }
}

proof fn lemma_distinct_is_from(paths: Seq<String>, at: int)
    requires
        0 <= at < workspaces::distinct(paths).len(),
    ensures
        exists|k: int|
            0 <= k < paths.len() && #[trigger] paths[k] == workspaces::distinct(paths)[at],
    decreases paths.len(),
{
    if paths.len() > 0 {
        let shorter = paths.drop_last();
        let before = workspaces::distinct(shorter);
        if at < before.len() {
            lemma_distinct_is_from(shorter, at);
            let k = choose|k: int| 0 <= k < shorter.len() && #[trigger] shorter[k] == before[at];
            assert(paths[k] == before[at]);
        } else {
            assert(paths[paths.len() - 1] == workspaces::distinct(paths)[at]);
        }
    }
}

/// Nothing is kept that was not there, and no two of what is kept are the same but for case.
pub proof fn law_what_is_kept_is_apart(paths: Seq<String>, one: int, other: int)
    requires
        0 <= one < other < workspaces::distinct(paths).len(),
    ensures
        paths.contains(workspaces::distinct(paths)[one]),
        text::lowercased(workspaces::distinct(paths)[one]@) != text::lowercased(
            workspaces::distinct(paths)[other]@,
        ),
    decreases paths.len(),
{
    lemma_distinct_is_from(paths, one);
    if paths.len() > 0 {
        let before = workspaces::distinct(paths.drop_last());
        if other < before.len() {
            law_what_is_kept_is_apart(paths.drop_last(), one, other);
        } else {
            assert(workspaces::distinct(paths)[one] == before[one]);
        }
    }
}

/// A recorded name is reported as leading nowhere exactly if no one directory was found behind it, with what
/// was found instead.
pub proof fn law_names_that_lead_nowhere_are_reported(
    names: Seq<String>,
    resolutions: Seq<NamespaceResolution>,
)
    ensures
        forall|i: int|
            0 <= i < workspaces::unlocated(names, resolutions).len() ==> exists|k: int|
                {
                    &&& 0 <= k < resolutions.len()
                    &&& #[trigger] workspaces::unlocated(names, resolutions)[i] == (
                        names[k],
                        #[trigger] resolutions[k],
                    )
                    &&& !(resolutions[k] is Resolved)
                },
        forall|k: int|
            0 <= k < resolutions.len() && !((#[trigger] resolutions[k]) is Resolved)
                ==> workspaces::unlocated(names, resolutions).contains((names[k], resolutions[k])),
    decreases resolutions.len(),
{
    if resolutions.len() > 0 {
        let shorter = resolutions.drop_last();
        law_names_that_lead_nowhere_are_reported(names, shorter);
        let before = workspaces::unlocated(names, shorter);
        let all = workspaces::unlocated(names, resolutions);
        let last = resolutions.len() - 1;
        assert forall|i: int| 0 <= i < all.len() implies exists|k: int|
            {
                &&& 0 <= k < resolutions.len()
                &&& #[trigger] all[i] == (names[k], #[trigger] resolutions[k])
                &&& !(resolutions[k] is Resolved)
            } by {
            if i < before.len() {
                assert(all[i] == before[i]);
                let k = choose|k: int|
                    {
                        &&& 0 <= k < shorter.len()
                        &&& before[i] == (names[k], #[trigger] shorter[k])
                        &&& !(shorter[k] is Resolved)
                    };
                assert(shorter[k] == resolutions[k]);
            } else {
                assert(all[i] == (names[last], resolutions[last]));
            }
        }
        assert forall|k: int|
            0 <= k < resolutions.len() && !((#[trigger] resolutions[k]) is Resolved) implies all.contains(
            (names[k], resolutions[k]),
        ) by {
            if k < last {
                assert(shorter[k] == resolutions[k]);
                let i = choose|i: int|
                    0 <= i < before.len() && before[i] == (names[k], shorter[k]);
                assert(all[i] == (names[k], resolutions[k]));
            } else {
                assert(all[before.len() as int] == (names[last], resolutions[last]));
            }
        }
    }
}

// --- Finding repositories ----------------------------------------------------------------------

/// A search goes four levels down and looks at no more than 4096 directories.
pub proof fn law_how_far_a_search_goes()
    ensures
        SWEEP_MAX_DEPTH == 4,
        SWEEP_BUDGET == 4096,
{
}

/// Whether a repository lies at or below a directory, no deeper than a search goes, with no other repository
/// on the way.
pub open spec fn leads_to(
    disk: spec_fn(Seq<char>) -> Glance,
    directory: Seq<char>,
    depth: nat,
    repository: Seq<char>,
) -> bool
    decreases 4 + 1 - depth,
{
    depth <= 4 && match disk(directory) {
        Glance::Repository(_) => directory == repository,
        Glance::Directory(children) => exists|i: int|
            0 <= i < children.len() && leads_to(
                disk,
                #[trigger] children[i],
                depth + 1,
                repository,
            ),
        Glance::Unreadable => false,
    }
}

/// A search that is complete has found every repository that lies at or below a directory that was still to
/// be looked at, no deeper than a search goes, and not inside another one.
pub proof fn law_a_complete_search_misses_nothing(
    disk: spec_fn(Seq<char>) -> Glance,
    walk: Walk,
    at: int,
    repository: Seq<char>,
)
    requires
        walk.complete,
        repositories::walked(disk, walk).complete,
        0 <= at < walk.pending.len(),
        leads_to(disk, walk.pending[at].0, walk.pending[at].1, repository),
    ensures
        repositories::stands_among(repositories::walked(disk, walk).repositories, repository),
    decreases SWEEP_BUDGET - walk.visited, walk.pending.len(),
{
    if walk.visited < SWEEP_BUDGET {
        let last = walk.pending.len() - 1;
        let (path, depth) = walk.pending[last];
        if depth > SWEEP_MAX_DEPTH {
            let shorter = Walk { pending: walk.pending.drop_last(), ..walk };
            assert(at < last);
            assert(shorter.pending[at] == walk.pending[at]);
            law_a_complete_search_misses_nothing(disk, shorter, at, repository);
        } else {
            let after = walk.after(disk(path));
            if at < last {
                assert(after.pending[at] == walk.pending[at]);
                law_a_complete_search_misses_nothing(disk, after, at, repository);
            } else {
                match disk(path) {
                    Glance::Repository(linked) => {
                        repositories::law_what_is_found_stays_found(disk, after);
                        let found = repositories::walked(disk, after).repositories;
                        let here = after.repositories.len() - 1;
                        assert(after.repositories[here].0 == repository);
                        assert(found[here] == after.repositories[here]);
                        assert(found[here].0 == repository);
                    },
                    Glance::Directory(children) => {
                        let i = choose|i: int|
                            0 <= i < children.len() && leads_to(
                                disk,
                                #[trigger] children[i],
                                depth + 1,
                                repository,
                            );
                        let place = last + (children.len() - 1 - i);
                        assert(after.pending[place] == (children[i], (depth + 1) as nat));
                        law_a_complete_search_misses_nothing(disk, after, place, repository);
                    },
                    Glance::Unreadable => {},
                }
            }
        }
    }
}

/// Everything that a search finds is a repository on the disk, linked or not as the disk says.
pub proof fn law_whatever_is_found_is_a_repository(disk: spec_fn(Seq<char>) -> Glance, walk: Walk)
    requires
        forall|i: int|
            0 <= i < walk.repositories.len() ==> disk((#[trigger] walk.repositories[i]).0)
                == Glance::Repository(walk.repositories[i].1),
    ensures
        forall|i: int|
            0 <= i < repositories::walked(disk, walk).repositories.len() ==> disk(
                (#[trigger] repositories::walked(disk, walk).repositories[i]).0,
            ) == Glance::Repository(repositories::walked(disk, walk).repositories[i].1),
    decreases SWEEP_BUDGET - walk.visited, walk.pending.len(),
{
    if walk.pending.len() > 0 && walk.visited < SWEEP_BUDGET {
        if walk.pending.last().1 > SWEEP_MAX_DEPTH {
            law_whatever_is_found_is_a_repository(
                disk,
                Walk { pending: walk.pending.drop_last(), ..walk },
            );
        } else {
            let after = walk.after(disk(walk.pending.last().0));
            assert forall|i: int| 0 <= i < after.repositories.len() implies disk(
                (#[trigger] after.repositories[i]).0,
            ) == Glance::Repository(after.repositories[i].1) by {
                if i < walk.repositories.len() {
                    assert(after.repositories[i] == walk.repositories[i]);
                }
            }
            law_whatever_is_found_is_a_repository(disk, after);
        }
    }
}

/// A search begins with every root, at no depth, having found and visited nothing; and it looks at the first
/// of them first.
pub proof fn law_a_search_begins_at_its_roots(roots: Seq<Seq<char>>, at: int)
    requires
        0 <= at < roots.len(),
    ensures
        repositories::begun(roots).complete,
        repositories::begun(roots).visited == 0,
        repositories::begun(roots).repositories.len() == 0,
        repositories::begun(roots).pending.len() == roots.len(),
        repositories::begun(roots).pending.contains((roots[at], 0nat)),
        repositories::begun(roots).pending.last() == (roots[0], 0nat),
{
    let pending = repositories::begun(roots).pending;
    assert(pending[roots.len() - 1 - at] == (roots[at], 0nat));
}

/// Where a repository that is no worktree is found, its own worktrees are looked for in its marker, and only
/// there.
pub proof fn law_worktrees_are_noted_in_the_marker(found: Seq<(Seq<char>, bool)>, at: int)
    requires
        0 <= at < found.len(),
    ensures
        !found[at].1 ==> repositories::registries(found).contains(
            text::child(text::child(found[at].0, ".git"@), "worktrees"@),
        ),
        (forall|i: int| 0 <= i < found.len() ==> (#[trigger] found[i]).1)
            ==> repositories::registries(found).len() == 0,
    decreases found.len(),
{
    let shorter = found.drop_last();
    let before = repositories::registries(shorter);
    let all = repositories::registries(found);
    let last = found.len() - 1;
    if at < last {
        assert(shorter[at] == found[at]);
        law_worktrees_are_noted_in_the_marker(shorter, at);
        if !found[at].1 {
            let wanted = text::child(text::child(found[at].0, ".git"@), "worktrees"@);
            let k = choose|k: int| 0 <= k < before.len() && before[k] == wanted;
            assert(all[k] == wanted);
        }
    } else {
        if !found[at].1 {
            assert(all[before.len() as int] == text::child(
                text::child(found[at].0, ".git"@),
                "worktrees"@,
            ));
        }
    }
    if forall|i: int| 0 <= i < found.len() ==> (#[trigger] found[i]).1 {
        assert(found[last].1);
        if shorter.len() > 0 {
            assert forall|i: int| 0 <= i < shorter.len() implies (#[trigger] shorter[i]).1 by {
                assert(found[i].1);
            }
            law_worktrees_are_noted_in_the_marker(shorter, 0);
        }
    }
}

/// A note leads to the directory that the path in it lies in, white space aside, as a linked worktree.
pub proof fn law_a_note_leads_to_its_worktree(notes: Seq<Seq<char>>, at: int)
    requires
        0 <= at < notes.len(),
        text::parent_path(text::trimmed(notes[at])) is Some,
    ensures
        repositories::worktrees(notes).contains(
            (text::parent_path(text::trimmed(notes[at]))->0, true),
        ),
        repositories::worktrees(notes).len() <= notes.len(),
    decreases notes.len(),
{
    let shorter = notes.drop_last();
    let before = repositories::worktrees(shorter);
    let all = repositories::worktrees(notes);
    let wanted = (text::parent_path(text::trimmed(notes[at]))->0, true);
    if at < notes.len() - 1 {
        assert(shorter[at] == notes[at]);
        law_a_note_leads_to_its_worktree(shorter, at);
        let k = choose|k: int| 0 <= k < before.len() && before[k] == wanted;
        assert(all[k] == wanted);
    } else {
        lemma_no_more_worktrees_than_notes(shorter);
        assert(all[before.len() as int] == wanted);
    }
}

proof fn lemma_no_more_worktrees_than_notes(notes: Seq<Seq<char>>)
    ensures
        repositories::worktrees(notes).len() <= notes.len(),
    decreases notes.len(),
{
    if notes.len() > 0 {
        lemma_no_more_worktrees_than_notes(notes.drop_last());
    }
}

/// A path lies in itself first, and then in the directory that each directory stands in, up to one that
/// stands in none.
pub proof fn law_directories_are_tried_from_the_inside(path: Seq<char>, depth: int)
    requires
        0 <= depth < repositories::enclosing(path).len(),
    ensures
        repositories::enclosing(path)[0] == path,
        depth + 1 < repositories::enclosing(path).len() ==> text::parent_path(
            repositories::enclosing(path)[depth],
        ) == Some(repositories::enclosing(path)[depth + 1]),
        depth + 1 == repositories::enclosing(path).len() ==> (match text::parent_path(
            repositories::enclosing(path)[depth],
        ) {
            Some(parent) => parent.len() >= repositories::enclosing(path)[depth].len(),
            None => true,
        }),
    decreases path.len(),
{
    let all = repositories::enclosing(path);
    if let Some(parent) = text::parent_path(path) {
        if parent.len() < path.len() {
            let rest = repositories::enclosing(parent);
            assert(all =~= seq![path] + rest);
            assert(rest.len() > 0) by {
                assert(rest.len() >= 1);
            }
            law_directories_are_tried_from_the_inside(parent, 0);
            if depth > 0 {
                law_directories_are_tried_from_the_inside(parent, depth - 1);
                assert(all[depth] == rest[depth - 1]);
                if depth + 1 < all.len() {
                    assert(all[depth + 1] == rest[depth]);
                }
            } else {
                assert(all[1] == rest[0]);
            }
        }
    }
}

/// A directory is marked as a repository by what is called `.git` in it.
pub proof fn law_what_marks_a_repository(directory: Seq<char>)
    requires
        directory.len() > 0,
        directory.last() != '/',
    ensures
        repositories::marker(directory) == directory + seq!['/', '.', 'g', 'i', 't'],
{
    reveal_strlit(".git");
    crate::laws::text::law_one_slash_parts_a_name_from_its_directory(directory, ".git"@);
    assert(directory.push('/') + ".git"@ =~= directory + seq!['/', '.', 'g', 'i', 't']);
}

/// Of what was found twice the first is kept, as it was found.
pub proof fn law_a_path_is_kept_as_it_was_first_found(found: Seq<(Seq<char>, bool)>, at: int)
    requires
        0 <= at < found.len(),
        forall|i: int| 0 <= i < at ==> (#[trigger] found[i]).0 != found[at].0,
    ensures
        repositories::once(found).contains(found[at]),
    decreases found.len(),
{
    let shorter = found.drop_last();
    let before = repositories::once(shorter);
    let all = repositories::once(found);
    if at < found.len() - 1 {
        assert forall|i: int| 0 <= i < at implies (#[trigger] shorter[i]).0 != shorter[at].0 by {
            assert(found[i].0 != found[at].0);
        }
        law_a_path_is_kept_as_it_was_first_found(shorter, at);
        let k = choose|k: int| 0 <= k < before.len() && before[k] == shorter[at];
        assert(all[k] == found[at]);
    } else {
        if repositories::stands_among(before, found[at].0) {
            lemma_once_is_from(shorter, found[at].0);
            let k = choose|k: int| 0 <= k < shorter.len() && (#[trigger] shorter[k]).0 == found[at].0;
            assert(found[k].0 == found[at].0);
        }
        assert(all[before.len() as int] == found[at]);
    }
}

proof fn lemma_once_is_from(found: Seq<(Seq<char>, bool)>, path: Seq<char>)
    requires
        repositories::stands_among(repositories::once(found), path),
    ensures
        exists|k: int| 0 <= k < found.len() && (#[trigger] found[k]).0 == path,
    decreases found.len(),
{
    let all = repositories::once(found);
    let i = choose|i: int| 0 <= i < all.len() && (#[trigger] all[i]).0 == path;
    if found.len() > 0 {
        let shorter = found.drop_last();
        let before = repositories::once(shorter);
        if i < before.len() {
            assert(before[i].0 == path);
            lemma_once_is_from(shorter, path);
            let k = choose|k: int| 0 <= k < shorter.len() && (#[trigger] shorter[k]).0 == path;
            assert(found[k].0 == path);
        } else {
            assert(found[found.len() - 1].0 == path);
        }
    }
}

} // verus!
