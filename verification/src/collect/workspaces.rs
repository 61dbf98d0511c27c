//! The workspaces there are: where to look for them, which of them are the same, and what is known of
//! each.

use super::attribution;
use super::sessions::Evidence;
use super::{Identity, Session, WorkspaceReport};
use crate::memory::Sighting;
use crate::order;
use crate::order::Ranked;
use crate::text;
use crate::vcs;
use crate::vcs::{Unreadable, VcsFacts, WorkspaceState};
use crate::world::{CodexSession, NamespaceResolution, ProcessRecord};
use vstd::prelude::*;

verus! {

/// What is picked from each item that has something to pick, in their order.
pub open spec fn picked<T>(items: Seq<T>, pick: spec_fn(T) -> Option<String>) -> Seq<String>
    decreases items.len(),
{
    if items.len() == 0 {
        Seq::empty()
    } else {
        let before = picked(items.drop_last(), pick);
        match pick(items.last()) {
            Some(found) => before.push(found),
            None => before,
        }
    }
}

/// The path of a session's workspace.
pub open spec fn session_path() -> spec_fn(Session) -> Option<String> {
    |session: Session|
        match session.workspace {
            Ok(workspace) => Some(workspace.path),
            Err(_) => None,
        }
}

/// The working directory of a process.
pub open spec fn process_path() -> spec_fn(ProcessRecord) -> Option<String> {
    |record: ProcessRecord|
        match record.cwd {
            Ok(path) => Some(path),
            Err(_) => None,
        }
}

/// The directory behind a recorded name.
pub open spec fn resolved_path() -> spec_fn(NamespaceResolution) -> Option<String> {
    |resolution: NamespaceResolution|
        match resolution {
            NamespaceResolution::Resolved(path) => Some(path),
            _ => None,
        }
}

/// The workspace of an entry of Codex's index.
pub open spec fn entry_path() -> spec_fn(CodexSession) -> Option<String> {
    |entry: CodexSession| Some(entry.workspace)
}

/// Everywhere a workspace may be, before anything is searched for: where sessions work, where
/// processes work, where recorded names lead, and where Codex's index says.
pub open spec fn candidates(sessions: Seq<Session>, evidence: Evidence) -> Seq<String> {
    picked(sessions, session_path()) + picked(evidence.records@, process_path()) + picked(
        evidence.resolutions@,
        resolved_path(),
    ) + picked(evidence.sources.indexed(), entry_path())
}

/// Everywhere a workspace may be, before anything is searched for.
pub fn candidate_paths(sessions: &Vec<Session>, evidence: &Evidence) -> (paths: Vec<String>)
    ensures
        paths@ == candidates(sessions@, *evidence),
{
    let mut paths: Vec<String> = Vec::new();
    let mut next: usize = 0;
    assert(sessions@.take(0) =~= Seq::<Session>::empty());
    while next < sessions.len()
        invariant
            next <= sessions@.len(),
            paths@ == picked(sessions@.take(next as int), session_path()),
        decreases sessions@.len() - next,
    {
        assert(sessions@.take(next + 1).drop_last() =~= sessions@.take(next as int));
        if let Ok(workspace) = &sessions[next].workspace {
            paths.push(workspace.path.clone());
        }
        next += 1;
    }
    assert(sessions@.take(next as int) =~= sessions@);
    let ghost first = paths@;
    let mut next: usize = 0;
    assert(evidence.records@.take(0) =~= Seq::<ProcessRecord>::empty());
    assert(first + Seq::<String>::empty() =~= first);
    while next < evidence.records.len()
        invariant
            next <= evidence.records@.len(),
            paths@ == first + picked(evidence.records@.take(next as int), process_path()),
        decreases evidence.records@.len() - next,
    {
        assert(evidence.records@.take(next + 1).drop_last() =~= evidence.records@.take(
            next as int,
        ));
        let ghost before = picked(evidence.records@.take(next as int), process_path());
        if let Ok(path) = &evidence.records[next].cwd {
            paths.push(path.clone());
            assert(paths@ =~= first + before.push(*path));
        }
        next += 1;
    }
    assert(evidence.records@.take(next as int) =~= evidence.records@);
    let ghost second = paths@;
    let mut next: usize = 0;
    assert(evidence.resolutions@.take(0) =~= Seq::<NamespaceResolution>::empty());
    assert(second + Seq::<String>::empty() =~= second);
    while next < evidence.resolutions.len()
        invariant
            next <= evidence.resolutions@.len(),
            paths@ == second + picked(evidence.resolutions@.take(next as int), resolved_path()),
        decreases evidence.resolutions@.len() - next,
    {
        assert(evidence.resolutions@.take(next + 1).drop_last() =~= evidence.resolutions@.take(
            next as int,
        ));
        let ghost before = picked(evidence.resolutions@.take(next as int), resolved_path());
        if let NamespaceResolution::Resolved(path) = &evidence.resolutions[next] {
            paths.push(path.clone());
            assert(paths@ =~= second + before.push(*path));
        }
        next += 1;
    }
    assert(evidence.resolutions@.take(next as int) =~= evidence.resolutions@);
    let ghost third = paths@;
    assert(third + Seq::<String>::empty() =~= third);
    if let Ok(entries) = &evidence.sources.codex_sessions {
        let mut next: usize = 0;
        assert(entries@.take(0) =~= Seq::<CodexSession>::empty());
        while next < entries.len()
            invariant
                next <= entries@.len(),
                paths@ == third + picked(entries@.take(next as int), entry_path()),
            decreases entries@.len() - next,
        {
            assert(entries@.take(next + 1).drop_last() =~= entries@.take(next as int));
            let ghost before = picked(entries@.take(next as int), entry_path());
            paths.push(entries[next].workspace.clone());
            assert(paths@ =~= third + before.push(entries@[next as int].workspace));
            next += 1;
        }
        assert(entries@.take(next as int) =~= entries@);
    }
    paths
}

/// The directory that a repository stands in, where it is one to search: not nothing, and not the
/// root of everything.
pub open spec fn searchable(root: Option<(String, bool)>) -> Option<Seq<char>> {
    match root {
        Some(found) => match text::parent_path(found.0@) {
            Some(parent) => if parent.len() == 0 || parent == "/"@ {
                None
            } else {
                Some(parent)
            },
            None => None,
        },
        None => None,
    }
}

/// Whether texts are in ascending order, each once.
pub open spec fn ascending(texts: Seq<String>) -> bool {
    forall|i: int, j: int|
        0 <= i < j < texts.len() ==> text::comes_before(
            (#[trigger] texts[i])@,
            (#[trigger] texts[j])@,
        )
}

/// Whether one of some texts is this one.
pub open spec fn has_text(texts: Seq<String>, wanted: Seq<char>) -> bool {
    exists|i: int| 0 <= i < texts.len() && (#[trigger] texts[i])@ == wanted
}

/// Puts a text where it belongs among texts in ascending order, unless it is there.
fn insert_text(texts: &mut Vec<String>, one: String)
    requires
        ascending(old(texts)@),
    ensures
        ascending(final(texts)@),
        has_text(final(texts)@, one@),
        forall|other: Seq<char>| #[trigger]
            has_text(final(texts)@, other) <==> has_text(old(texts)@, other) || other == one@,
{
    let mut place: usize = 0;
    while place < texts.len() && text::before(texts[place].as_str(), one.as_str())
        invariant
            place <= texts@.len(),
            texts@ == old(texts)@,
            forall|i: int| 0 <= i < place ==> text::comes_before((#[trigger] texts@[i])@, one@),
        decreases texts@.len() - place,
    {
        place += 1;
    }
    let ghost before = texts@;
    if place < texts.len() && text::same(texts[place].as_str(), one.as_str()) {
        assert(texts@[place as int]@ == one@);
        return;
    }
    let ghost wanted = one@;
    texts.insert(place, one);
    proof {
        let after = texts@;
        if place < before.len() {
            text::lemma_text_order_total(before[place as int]@, wanted);
        }
        assert forall|i: int, j: int| 0 <= i < j < after.len() implies text::comes_before(
            (#[trigger] after[i])@,
            (#[trigger] after[j])@,
        ) by {
            if i == place && j > place + 1 {
                assert(text::comes_before(before[place as int]@, before[j - 1]@));
                text::lemma_text_order_transitive(wanted, before[place as int]@, before[j - 1]@);
            }
        }
        assert forall|other: Seq<char>| #[trigger] has_text(after, other) <==> has_text(
            before,
            other,
        ) || other == wanted by {
            if has_text(before, other) {
                let i = choose|i: int| 0 <= i < before.len() && (#[trigger] before[i])@ == other;
                if i < place {
                    assert(after[i]@ == other);
                } else {
                    assert(after[i + 1]@ == other);
                }
            }
            if other == wanted {
                assert(after[place as int]@ == other);
            }
            if has_text(after, other) {
                let i = choose|i: int| 0 <= i < after.len() && (#[trigger] after[i])@ == other;
                if i < place {
                    assert(before[i]@ == other);
                } else if i > place {
                    assert(before[i - 1]@ == other);
                }
            }
        }
    }
}

/// Whether one of some roots stands in a directory to search.
pub open spec fn some_stands_in(roots: Seq<Option<(String, bool)>>, parent: Seq<char>) -> bool {
    exists|i: int| 0 <= i < roots.len() && searchable(#[trigger] roots[i]) == Some(parent)
}

/// Whether these are the directories that repositories stand in, in ascending order and each once.
pub open spec fn are_sweep_roots(parents: Seq<String>, roots: Seq<Option<(String, bool)>>) -> bool {
    &&& ascending(parents)
    &&& forall|parent: Seq<char>| #[trigger]
        has_text(parents, parent) <==> some_stands_in(roots, parent)
}

/// The directories that repositories stand in, in ascending order and each once: where to search for
/// more of them.
pub fn sweep_roots(roots: &Vec<Option<(String, bool)>>) -> (parents: Vec<String>)
    ensures
        are_sweep_roots(parents@, roots@),
{
    let mut parents: Vec<String> = Vec::new();
    let mut next: usize = 0;
    while next < roots.len()
        invariant
            next <= roots@.len(),
            ascending(parents@),
            forall|parent: Seq<char>| #[trigger]
                has_text(parents@, parent) <==> some_stands_in(roots@.take(next as int), parent),
        decreases roots@.len() - next,
    {
        let ghost earlier = roots@.take(next as int);
        let ghost now = roots@.take(next + 1);
        let ghost held = parents@;
        let mut found: Option<String> = None;
        if let Some(root) = &roots[next] {
            if let Some(parent) = text::parent_of(root.0.as_str()) {
                if parent.as_str().unicode_len() > 0 && !text::same(parent.as_str(), "/") {
                    found = Some(parent);
                }
            }
        }
        let ghost one = searchable(roots@[next as int]);
        match found {
            Some(parent) => {
                insert_text(&mut parents, parent);
            },
            None => {},
        }
        proof {
            assert forall|parent: Seq<char>| #[trigger]
                has_text(parents@, parent) <==> some_stands_in(now, parent) by {
                if some_stands_in(earlier, parent) {
                    let i = choose|i: int|
                        0 <= i < earlier.len() && searchable(#[trigger] earlier[i]) == Some(parent);
                    assert(now[i] == earlier[i]);
                }
                if one == Some(parent) {
                    assert(now[next as int] == roots@[next as int]);
                    assert(some_stands_in(now, parent));
                }
                if some_stands_in(now, parent) && one != Some(parent) {
                    let i = choose|i: int|
                        0 <= i < now.len() && searchable(#[trigger] now[i]) == Some(parent);
                    assert(earlier[i] == now[i]);
                }
                assert(has_text(held, parent) <==> some_stands_in(earlier, parent));
            }
        }
        next += 1;
    }
    assert(roots@.take(next as int) =~= roots@);
    parents
}

/// Whether one of some paths is this one, case aside.
pub open spec fn has_path(paths: Seq<String>, path: Seq<char>) -> bool {
    exists|i: int|
        0 <= i < paths.len() && text::lowercased((#[trigger] paths[i])@) == text::lowercased(path)
}

/// Paths without those that came before in another case.
pub open spec fn distinct(paths: Seq<String>) -> Seq<String>
    decreases paths.len(),
{
    if paths.len() == 0 {
        Seq::empty()
    } else {
        let before = distinct(paths.drop_last());
        if has_path(before, paths.last()@) {
            before
        } else {
            before.push(paths.last())
        }
    }
}

fn holds_small(paths: &Vec<String>, small: &str) -> (found: bool)
    ensures
        found == exists|i: int|
            0 <= i < paths@.len() && text::lowercased((#[trigger] paths@[i])@) == small@,
{
    let mut next: usize = 0;
    while next < paths.len()
        invariant
            next <= paths@.len(),
            forall|i: int|
                0 <= i < next ==> text::lowercased((#[trigger] paths@[i])@) != small@,
        decreases paths@.len() - next,
    {
        if text::same(text::lowercase(paths[next].as_str()).as_str(), small) {
            assert(text::lowercased(paths@[next as int]@) == small@);
            return true;
        }
        next += 1;
    }
    false
}

/// Paths without those that came before in another case.
pub fn unique_candidates(paths: Vec<String>) -> (kept: Vec<String>)
    ensures
        kept@ == distinct(paths@),
{
    let ghost all = paths@;
    let mut kept: Vec<String> = Vec::new();
    assert(all.take(0) =~= Seq::<String>::empty());
    for path in walk: paths
        invariant
            walk.seq() == all,
            kept@ == distinct(all.take(walk.index() as int)),
    {
        let ghost at = walk.index() as int;
        assert(all.take(at + 1).drop_last() =~= all.take(at));
        let small: String = text::lowercase(path.as_str());
        if !holds_small(&kept, small.as_str()) {
            assert(!has_path(kept@, path@));
            kept.push(path);
        } else {
            assert(has_path(kept@, path@));
        }
    }
    assert(all.take(all.len() as int) =~= all);
    kept
}

/// The paths of workspaces.
pub open spec fn home_paths(homes: Seq<(String, bool)>) -> Seq<String> {
    homes.map_values(|home: (String, bool)| home.0)
}

/// Workspaces without those whose path came before in another case.
pub open spec fn distinct_homes(homes: Seq<(String, bool)>) -> Seq<(String, bool)>
    decreases homes.len(),
{
    if homes.len() == 0 {
        Seq::empty()
    } else {
        let before = distinct_homes(homes.drop_last());
        if has_path(home_paths(before), homes.last().0@) {
            before
        } else {
            before.push(homes.last())
        }
    }
}

/// The path of a workspace, as what it is ordered by.
#[derive(Debug, PartialEq, Eq)]
pub struct PathKey {
    pub path: String,
}

impl Ranked for PathKey {
    open spec fn ranks_before(&self, other: &PathKey) -> bool {
        text::comes_before(self.path@, other.path@)
    }

    fn precedes(&self, other: &PathKey) -> (before: bool) {
        text::before(self.path.as_str(), other.path.as_str())
    }

    proof fn ranks_are_ordered(first: PathKey, second: PathKey, third: PathKey) {
        let (a, b, c) = (first.path@, second.path@, third.path@);
        text::lemma_text_order_total(a, b);
        text::lemma_text_order_total(b, c);
        text::lemma_text_order_total(a, c);
        if text::comes_before(a, b) && text::comes_before(b, c) {
            text::lemma_text_order_transitive(a, b, c);
        }
        if text::comes_before(a, c) && text::comes_before(c, b) {
            text::lemma_text_order_transitive(a, c, b);
        }
        if text::comes_before(b, a) && text::comes_before(a, c) {
            text::lemma_text_order_transitive(b, a, c);
        }
    }
}

/// The keys of workspaces.
pub open spec fn path_keys(homes: Seq<(String, bool)>) -> Seq<PathKey> {
    homes.map_values(|home: (String, bool)| PathKey { path: home.0 })
}

/// Whether workspaces are the distinct ones of some, in the order of their paths.
pub open spec fn are_workspaces(homes: Seq<(String, bool)>, found: Seq<(String, bool)>) -> bool {
    exists|order: Seq<usize>| #[trigger]
        order::is_stable_order(path_keys(distinct_homes(found)), order) && homes
            == order::arranged(distinct_homes(found), order)
}

/// Whether no two workspaces have the same path, the case of ASCII letters aside.
pub open spec fn homes_apart(homes: Seq<(String, bool)>) -> bool {
    forall|i: int, j: int|
        0 <= i < homes.len() && 0 <= j < homes.len() && i != j ==> !text::same_but_case(
            (#[trigger] homes[i]).0@,
            (#[trigger] homes[j]).0@,
        )
}

/// The distinct workspaces of some, in the order of their paths.
pub fn unique_workspaces(found: Vec<(String, bool)>) -> (homes: Vec<(String, bool)>)
    ensures
        are_workspaces(homes@, found@),
        homes_apart(homes@),
{
    let ghost all = found@;
    let mut kept: Vec<(String, bool)> = Vec::new();
    let mut paths: Vec<String> = Vec::new();
    assert(all.take(0) =~= Seq::<(String, bool)>::empty());
    assert(paths@ =~= home_paths(kept@));
    for home in walk: found
        invariant
            walk.seq() == all,
            kept@ == distinct_homes(all.take(walk.index() as int)),
            paths@ == home_paths(kept@),
            homes_apart(kept@),
    {
        let ghost at = walk.index() as int;
        assert(all.take(at + 1).drop_last() =~= all.take(at));
        let small: String = text::lowercase(home.0.as_str());
        if !holds_small(&paths, small.as_str()) {
            assert(!has_path(paths@, home.0@));
            let ghost before = kept@;
            let ghost path = home.0@;
            assert forall|i: int| 0 <= i < before.len() implies !text::same_but_case(
                (#[trigger] before[i]).0@,
                path,
            ) by {
                assert(text::lowercased(paths@[i]@) != small@);
            }
            paths.push(home.0.clone());
            kept.push(home);
            assert(paths@ =~= home_paths(kept@));
        } else {
            assert(has_path(paths@, home.0@));
        }
    }
    assert(all.take(all.len() as int) =~= all);
    let mut keys: Vec<PathKey> = Vec::new();
    let mut next: usize = 0;
    while next < kept.len()
        invariant
            next <= kept@.len(),
            keys@ == path_keys(kept@).take(next as int),
        decreases kept@.len() - next,
    {
        keys.push(PathKey { path: kept[next].0.clone() });
        next += 1;
        assert(keys@ =~= path_keys(kept@).take(next as int));
    }
    assert(keys@ =~= path_keys(kept@));
    let order: Vec<usize> = order::stable_order(&keys);
    let ghost before = kept@;
    let homes: Vec<(String, bool)> = order::arrange(kept, &order);
    assert forall|i: int, j: int|
        0 <= i < homes@.len() && 0 <= j < homes@.len() && i != j implies !text::same_but_case(
        (#[trigger] homes@[i]).0@,
        (#[trigger] homes@[j]).0@,
    ) by {
        assert(order@[i] != order@[j]) by {
            if i < j {
                assert(order@[i] != order@[j]);
            } else {
                assert(order@[j] != order@[i]);
            }
        }
        assert(homes@[i] == before[order@[i] as int]);
        assert(homes@[j] == before[order@[j] as int]);
    }
    homes
}

/// Whether a session whose process is there works in a workspace.
pub open spec fn drives(session: Session, path: Seq<char>) -> bool {
    &&& session.identity is Process
    &&& session.workspace matches Ok(workspace) && attribution::lies_inside(workspace.path@, path)
}

/// Whether any session whose process is there works in a workspace.
pub open spec fn driven(sessions: Seq<Session>, path: Seq<char>) -> bool {
    exists|i: int| 0 <= i < sessions.len() && drives(#[trigger] sessions[i], path)
}

fn is_driven(sessions: &Vec<Session>, path: &str) -> (found: bool)
    ensures
        found == driven(sessions@, path@),
{
    let mut next: usize = 0;
    while next < sessions.len()
        invariant
            next <= sessions@.len(),
            forall|i: int| 0 <= i < next ==> !drives(#[trigger] sessions@[i], path@),
        decreases sessions@.len() - next,
    {
        let resident: bool = match &sessions[next].identity {
            Identity::Process { .. } => true,
            Identity::Transcript { .. } => false,
        };
        if resident {
            if let Ok(workspace) = &sessions[next].workspace {
                if attribution::is_inside(workspace.path.as_str(), path) {
                    assert(drives(sessions@[next as int], path@));
                    return true;
                }
            }
        }
        next += 1;
    }
    false
}

/// What is reported of one workspace.
pub open spec fn report_of(
    home: (String, bool),
    facts: Result<VcsFacts, Unreadable>,
    sessions: Seq<Session>,
) -> WorkspaceReport {
    WorkspaceReport {
        path: home.0,
        state: vcs::state_of(facts, driven(sessions, home.0@)),
        linked_worktree: match facts {
            Ok(found) => found.linked_worktree,
            Err(_) => home.1,
        },
        uncommitted_entries: match facts {
            Ok(found) => Some(found.uncommitted_entries),
            Err(_) => None,
        },
    }
}

/// What is remembered of one workspace.
pub open spec fn sighting_of(
    home: (String, bool),
    facts: Result<VcsFacts, Unreadable>,
    sessions: Seq<Session>,
) -> Sighting {
    let by_session = driven(sessions, home.0@);
    Sighting {
        path: home.0,
        settled: Sighting::is_settled(vcs::state_of(facts, by_session), by_session),
    }
}

/// How many workspaces were both asked about and answered for.
pub open spec fn answered(
    homes: Seq<(String, bool)>,
    facts: Seq<Result<VcsFacts, Unreadable>>,
) -> nat {
    if homes.len() <= facts.len() {
        homes.len()
    } else {
        facts.len()
    }
}

/// What is reported of the workspaces that were answered for.
pub open spec fn reports(
    homes: Seq<(String, bool)>,
    facts: Seq<Result<VcsFacts, Unreadable>>,
    sessions: Seq<Session>,
) -> Seq<WorkspaceReport> {
    Seq::new(answered(homes, facts), |i: int| report_of(homes[i], facts[i], sessions))
}

/// What is remembered of the workspaces that were answered for.
pub open spec fn sightings(
    homes: Seq<(String, bool)>,
    facts: Seq<Result<VcsFacts, Unreadable>>,
    sessions: Seq<Session>,
) -> Seq<Sighting> {
    Seq::new(answered(homes, facts), |i: int| sighting_of(homes[i], facts[i], sessions))
}

/// What is reported, and what is remembered, of the workspaces that were answered for.
pub fn workspace_reports(
    homes: &Vec<(String, bool)>,
    facts: &Vec<Result<VcsFacts, Unreadable>>,
    sessions: &Vec<Session>,
) -> (found: (Vec<WorkspaceReport>, Vec<Sighting>))
    ensures
        found.0@ == reports(homes@, facts@, sessions@),
        found.1@ == sightings(homes@, facts@, sessions@),
{
    let mut workspaces: Vec<WorkspaceReport> = Vec::new();
    let mut seen: Vec<Sighting> = Vec::new();
    let mut next: usize = 0;
    while next < homes.len() && next < facts.len()
        invariant
            next <= answered(homes@, facts@),
            workspaces@ == reports(homes@, facts@, sessions@).take(next as int),
            seen@ == sightings(homes@, facts@, sessions@).take(next as int),
        decreases homes@.len() - next,
    {
        let path: &String = &homes[next].0;
        let by_session: bool = is_driven(sessions, path.as_str());
        let state: WorkspaceState = vcs::classify(&facts[next], by_session);
        seen.push(Sighting::of(path.clone(), &state, by_session));
        let linked_worktree: bool = match &facts[next] {
            Ok(found) => found.linked_worktree,
            Err(_) => homes[next].1,
        };
        let uncommitted_entries: Option<usize> = match &facts[next] {
            Ok(found) => Some(found.uncommitted_entries),
            Err(_) => None,
        };
        workspaces.push(
            WorkspaceReport { path: path.clone(), state, linked_worktree, uncommitted_entries },
        );
        assert(workspaces@ =~= reports(homes@, facts@, sessions@).take(next + 1));
        assert(seen@ =~= sightings(homes@, facts@, sessions@).take(next + 1));
        next += 1;
    }
    assert(workspaces@ =~= reports(homes@, facts@, sessions@));
    assert(seen@ =~= sightings(homes@, facts@, sessions@));
    (workspaces, seen)
}

/// The recorded names behind which no one directory was found, each with what was found instead.
pub open spec fn unlocated(names: Seq<String>, resolutions: Seq<NamespaceResolution>) -> Seq<
    (String, NamespaceResolution),
>
    decreases resolutions.len(),
{
    if resolutions.len() == 0 {
        Seq::empty()
    } else {
        let before = unlocated(names, resolutions.drop_last());
        if resolutions.last() is Resolved {
            before
        } else {
            before.push((names[resolutions.len() - 1], resolutions.last()))
        }
    }
}

pub fn unlocated_names(names: &Vec<String>, resolutions: Vec<NamespaceResolution>) -> (found: Vec<
    (String, NamespaceResolution),
>)
    requires
        names@.len() == resolutions@.len(),
    ensures
        found@ == unlocated(names@, resolutions@),
{
    let ghost all = resolutions@;
    let mut found: Vec<(String, NamespaceResolution)> = Vec::new();
    let mut next: usize = 0;
    assert(all.take(0) =~= Seq::<NamespaceResolution>::empty());
    for resolution in walk: resolutions
        invariant
            walk.seq() == all,
            names@.len() == all.len(),
            next == walk.index(),
            next <= names.len(),
            found@ == unlocated(names@, all.take(walk.index() as int)),
    {
        let ghost at = walk.index() as int;
        assert(all.take(at + 1).drop_last() =~= all.take(at));
        let resolved: bool = match &resolution {
            NamespaceResolution::Resolved(_) => true,
            _ => false,
        };
        if !resolved {
            found.push((names[next].clone(), resolution));
        }
        next += 1;
    }
    assert(all.take(all.len() as int) =~= all);
    found
}

} // verus!
