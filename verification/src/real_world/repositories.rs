//! Finding repositories on disk, and asking each of them what is not committed.

use crate::text;
use crate::time::Duration;
use crate::vcs::{Unreadable, VcsFacts};
use crate::world::Sweep;
use vstd::prelude::*;

verus! {

// --- The repository a path lies in -------------------------------------------------------------

/// A path and the directories it lies in, the innermost first.
pub open spec fn enclosing(path: Seq<char>) -> Seq<Seq<char>>
    decreases path.len(),
{
    match text::parent_path(path) {
        Some(parent) => if parent.len() < path.len() {
            seq![path] + enclosing(parent)
        } else {
            seq![path]
        },
        None => seq![path],
    }
}

/// What marks a directory as a repository.
pub open spec fn marker(directory: Seq<char>) -> Seq<char> {
    text::child(directory, ".git"@)
}

/// Whether this may be the answer to what is at a path: nothing, or something that is a plain file, or
/// something that is not.
pub open spec fn answered<F: Fn(&str) -> Option<bool>>(
    look: F,
    path: Seq<char>,
    answer: Option<bool>,
) -> bool {
    exists|asked: &str| asked@ == path && #[trigger] call_ensures(look, (asked,), answer)
}

/// Whether this is the repository that a path lies in: the innermost directory with a marker in it,
/// which is a linked worktree where the marker is a plain file.
pub open spec fn is_repository_of<F: Fn(&str) -> Option<bool>>(
    found: Option<(String, bool)>,
    path: Seq<char>,
    look: F,
) -> bool {
    match found {
        Some((root, linked)) => exists|depth: int|
            {
                &&& 0 <= depth < enclosing(path).len()
                &&& root@ == #[trigger] enclosing(path)[depth]
                &&& answered(look, marker(root@), Some(linked))
                &&& forall|nearer: int|
                    0 <= nearer < depth ==> answered(
                        look,
                        marker(#[trigger] enclosing(path)[nearer]),
                        None,
                    )
            },
        None => forall|depth: int|
            0 <= depth < enclosing(path).len() ==> answered(
                look,
                marker(#[trigger] enclosing(path)[depth]),
                None,
            ),
    }
}

/// The repository that a path lies in, and whether it is a linked worktree. `look` says what is at a
/// path: nothing, or whether it is a plain file.
pub fn repository_root<F: Fn(&str) -> Option<bool>>(path: &str, look: &F) -> (found: Option<
    (String, bool),
>)
    requires
        forall|asked: &str| call_requires(look, (asked,)),
    ensures
        is_repository_of(found, path@, *look),
{
    let ghost all = enclosing(path@);
    let ghost mut depth: int = 0;
    let mut current: String = String::from_str(path);
    assert(all.skip(0) =~= all);
    loop
        invariant
            forall|asked: &str| call_requires(look, (asked,)),
            all == enclosing(path@),
            0 <= depth < all.len(),
            enclosing(current@) == all.skip(depth),
            forall|nearer: int|
                0 <= nearer < depth ==> answered(*look, marker(#[trigger] all[nearer]), None),
        decreases current@.len(),
    {
        let marked: String = text::child_path(current.as_str(), ".git");
        let asked: &str = marked.as_str();
        assert(enclosing(current@)[0] == current@);
        assert(all[depth] == all.skip(depth)[0]);
        if let Some(linked) = look(asked) {
            assert(answered(*look, marker(current@), Some(linked)));
            return Some((current, linked));
        }
        assert(answered(*look, marker(all[depth]), None));
        match text::parent_of(current.as_str()) {
            Some(parent) => {
                assert(enclosing(current@) == seq![current@] + enclosing(parent@));
                assert(enclosing(parent@) =~= all.skip(depth).skip(1));
                assert(all.skip(depth).skip(1) =~= all.skip(depth + 1));
                assert(enclosing(parent@).len() > 0);
                proof {
                    depth = depth + 1;
                }
                current = parent;
            },
            None => {
                assert(all.skip(depth).len() == 1);
                return None;
            },
        }
    }
}

// --- The search --------------------------------------------------------------------------------

/// How far below where it begins a search goes.
pub const SWEEP_MAX_DEPTH: usize = 4;

/// How many directories a search looks at before it gives up.
pub const SWEEP_BUDGET: usize = 4096;

/// What a look at a directory showed.
#[derive(Debug, PartialEq, Eq)]
pub enum Looked {
    /// It is a repository; a linked worktree, where its marker is a plain file.
    Repository { linked: bool },
    /// It is none, and these directories are in it.
    Directory(Vec<String>),
    /// It is none, and what is in it cannot be read.
    Unreadable,
}

/// What a look shows, as a value.
pub enum Glance {
    Repository(bool),
    Directory(Seq<Seq<char>>),
    Unreadable,
}

impl View for Looked {
    type V = Glance;

    open spec fn view(&self) -> Glance {
        match self {
            Looked::Repository { linked } => Glance::Repository(*linked),
            Looked::Directory(children) => Glance::Directory(text::texts(children@)),
            Looked::Unreadable => Glance::Unreadable,
        }
    }
}

/// A directory that is still to be looked at, and how far down it is.
#[derive(Debug, PartialEq, Eq)]
pub struct Pending {
    pub path: String,
    pub depth: usize,
}

/// A search under way.
#[derive(Debug, PartialEq, Eq)]
pub struct Search {
    /// What is still to be looked at, the next at the end.
    pending: Vec<Pending>,
    repositories: Vec<(String, bool)>,
    visited: usize,
    complete: bool,
}

/// A search under way, as a value.
#[verifier::ext_equal]
pub struct Walk {
    /// What is still to be looked at and how far down it is, the next at the end.
    pub pending: Seq<(Seq<char>, nat)>,
    pub repositories: Seq<(Seq<char>, bool)>,
    pub visited: nat,
    pub complete: bool,
}

/// Repositories, as values.
pub open spec fn homes(repositories: Seq<(String, bool)>) -> Seq<(Seq<char>, bool)> {
    repositories.map_values(|home: (String, bool)| (home.0@, home.1))
}

/// What is still to be looked at, as values.
pub closed spec fn waiting(pending: Seq<Pending>) -> Seq<(Seq<char>, nat)> {
    pending.map_values(|one: Pending| (one.path@, one.depth as nat))
}

impl View for Search {
    type V = Walk;

    closed spec fn view(&self) -> Walk {
        Walk {
            pending: waiting(self.pending@),
            repositories: homes(self.repositories@),
            visited: self.visited as nat,
            complete: self.complete,
        }
    }
}

/// Directories one below another, to be looked at from the first.
pub open spec fn queued(directories: Seq<Seq<char>>, depth: nat) -> Seq<(Seq<char>, nat)> {
    Seq::new(directories.len(), |i: int| (directories[directories.len() - 1 - i], depth))
}

/// What is left of a list of directories once those at its end that are too far down are dropped.
pub open spec fn without_too_deep(pending: Seq<(Seq<char>, nat)>) -> Seq<(Seq<char>, nat)>
    decreases pending.len(),
{
    if pending.len() > 0 && pending.last().1 > SWEEP_MAX_DEPTH {
        without_too_deep(pending.drop_last())
    } else {
        pending
    }
}

impl Walk {
    /// The walk where its next look is due: with nothing too far down in front, or given up where the
    /// budget is spent and there is still something to look at.
    pub open spec fn readied(self) -> Walk {
        if self.pending.len() > 0 && self.visited >= SWEEP_BUDGET {
            Walk { pending: Seq::empty(), complete: false, ..self }
        } else {
            Walk { pending: without_too_deep(self.pending), ..self }
        }
    }

    /// Whether a look is due.
    pub open spec fn awaits_a_look(self) -> bool {
        self.pending.len() > 0 && self.visited < SWEEP_BUDGET && self.pending.last().1
            <= SWEEP_MAX_DEPTH
    }

    /// The walk after a look at the directory that was next.
    pub open spec fn after(self, glance: Glance) -> Walk {
        let rest = self.pending.drop_last();
        let next = self.pending.last();
        match glance {
            Glance::Repository(linked) => Walk {
                pending: rest,
                repositories: self.repositories.push((next.0, linked)),
                visited: self.visited + 1,
                ..self
            },
            Glance::Directory(children) => Walk {
                pending: rest + queued(children, next.1 + 1),
                visited: self.visited + 1,
                ..self
            },
            Glance::Unreadable => Walk { pending: rest, visited: self.visited + 1, ..self },
        }
    }
}

/// The walk through a disk to its end: every directory from the first on, each before what follows it,
/// as deep as a search goes; not into a repository; past what cannot be read; and until the budget is
/// spent.
pub open spec fn walked(disk: spec_fn(Seq<char>) -> Glance, walk: Walk) -> Walk
    decreases SWEEP_BUDGET - walk.visited, walk.pending.len(),
{
    if walk.pending.len() == 0 {
        walk
    } else if walk.visited >= SWEEP_BUDGET {
        Walk { pending: Seq::empty(), complete: false, ..walk }
    } else if walk.pending.last().1 > SWEEP_MAX_DEPTH {
        walked(disk, Walk { pending: walk.pending.drop_last(), ..walk })
    } else {
        walked(disk, walk.after(disk(walk.pending.last().0)))
    }
}

/// Where a search begins.
pub open spec fn begun(roots: Seq<Seq<char>>) -> Walk {
    Walk { pending: queued(roots, 0), repositories: Seq::empty(), visited: 0, complete: true }
}

fn queue(pending: &mut Vec<Pending>, mut directories: Vec<String>, depth: usize)
    ensures
        waiting(final(pending)@) == waiting(old(pending)@) + queued(
            text::texts(directories@),
            depth as nat,
        ),
{
    let ghost all = text::texts(directories@);
    let ghost before = waiting(pending@);
    let ghost list = queued(all, depth as nat);
    assert(all.take(all.len() as int) =~= all);
    assert(before + list.take(0) =~= before);
    while directories.len() > 0
        invariant
            list == queued(all, depth as nat),
            directories@.len() <= all.len(),
            text::texts(directories@) == all.take(directories@.len() as int),
            waiting(pending@) == before + list.take(all.len() - directories@.len()),
        decreases directories@.len(),
    {
        let ghost left = directories@;
        let ghost waited = pending@;
        if let Some(path) = directories.pop() {
            assert(path@ == text::texts(left).last());
            pending.push(Pending { path, depth });
            assert(waiting(pending@) =~= waiting(waited).push((path@, depth as nat)));
            let ghost done: int = all.len() - directories@.len();
            assert(list.take(done) =~= list.take(done - 1).push(list[done - 1]));
            assert(before + list.take(done) =~= (before + list.take(done - 1)).push(list[done - 1]));
            assert(text::texts(directories@) =~= all.take(directories@.len() as int));
        }
    }
    assert(list.take(all.len() as int) =~= list);
}

impl Search {
    /// Whether no depth is so large that it could not be counted on.
    pub closed spec fn wf(self) -> bool {
        forall|i: int|
            0 <= i < self.pending@.len() ==> (#[trigger] self.pending@[i]).depth <= SWEEP_MAX_DEPTH
                + 1
    }

    /// A search that begins at some directories, the first of them first.
    pub fn begin(roots: Vec<String>) -> (search: Search)
        ensures
            search.wf(),
            search@ == begun(text::texts(roots@)),
    {
        let ghost all = text::texts(roots@);
        let mut pending: Vec<Pending> = Vec::new();
        assert(waiting(pending@) =~= Seq::empty());
        queue(&mut pending, roots, 0);
        assert(waiting(pending@) =~= queued(all, 0));
        let search = Search { pending, repositories: Vec::new(), visited: 0, complete: true };
        assert(search@.repositories =~= Seq::empty());
        assert forall|i: int| 0 <= i < search.pending@.len() implies (
        #[trigger] search.pending@[i]).depth <= SWEEP_MAX_DEPTH + 1 by {
            assert(waiting(search.pending@)[i].1 == 0);
        }
        search
    }

    /// The directory to look at next, where there is one. A search whose budget is spent ends, and is
    /// not complete.
    pub fn next(&mut self) -> (path: Option<String>)
        requires
            old(self).wf(),
        ensures
            final(self).wf(),
            final(self)@ == old(self)@.readied(),
            match path {
                Some(found) => {
                    &&& final(self)@.awaits_a_look()
                    &&& found@ == final(self)@.pending.last().0
                },
                None => final(self)@.pending.len() == 0,
            },
    {
        if self.pending.len() > 0 && self.visited >= SWEEP_BUDGET {
            self.pending = Vec::new();
            self.complete = false;
            assert(self@.pending =~= Seq::empty());
            return None;
        }
        let ghost before = self@;
        let ghost all = self.pending@;
        while self.pending.len() > 0 && self.pending[self.pending.len() - 1].depth > SWEEP_MAX_DEPTH
            invariant
                self.wf(),
                self.pending@.len() > 0 ==> self.visited < SWEEP_BUDGET,
                self@ == (Walk { pending: self@.pending, ..before }),
                without_too_deep(self@.pending) == without_too_deep(before.pending),
            decreases self.pending@.len(),
        {
            let ghost was = self.pending@;
            let _ = self.pending.pop();
            assert(waiting(self.pending@) =~= waiting(was).drop_last());
        }
        if self.pending.len() == 0 {
            return None;
        }
        assert(self@.pending.last() == (
            self.pending@.last().path@,
            self.pending@.last().depth as nat,
        ));
        Some(self.pending[self.pending.len() - 1].path.clone())
    }

    /// Takes note of what a look at the next directory showed.
    pub fn saw(&mut self, looked: Looked)
        requires
            old(self).wf(),
            old(self)@.awaits_a_look(),
        ensures
            final(self).wf(),
            final(self)@ == old(self)@.after(looked@),
    {
        let ghost before = self@;
        let ghost was = self.pending@;
        if let Some(next) = self.pending.pop() {
            assert(waiting(self.pending@) =~= waiting(was).drop_last());
            assert(waiting(was).last() == (next.path@, next.depth as nat));
            self.visited = self.visited + 1;
            match looked {
                Looked::Repository { linked } => {
                    let ghost found = self.repositories@;
                    self.repositories.push((next.path, linked));
                    assert(homes(self.repositories@) =~= homes(found).push((next.path@, linked)));
                },
                Looked::Directory(children) => {
                    let ghost rest = self.pending@;
                    let ghost below = queued(text::texts(children@), (next.depth + 1) as nat);
                    queue(&mut self.pending, children, next.depth + 1);
                    assert(waiting(self.pending@) == waiting(rest) + below);
                    assert forall|i: int| 0 <= i < self.pending@.len() implies (
                    #[trigger] self.pending@[i]).depth <= SWEEP_MAX_DEPTH + 1 by {
                        assert(waiting(self.pending@)[i].1 == self.pending@[i].depth);
                        if i < rest.len() {
                            assert(waiting(rest)[i].1 == rest[i].depth);
                            assert(was[i] == rest[i]);
                        } else {
                            assert(waiting(self.pending@)[i] == below[i - rest.len()]);
                        }
                    }
                },
                Looked::Unreadable => {},
            }
            assert(self@ =~= before.after(looked@));
        }
    }
}

/// Looking where a search wants to look, and telling it what was there, does not change where it ends;
/// and it ends where nothing is left to look at.
pub proof fn law_a_search_ends_where_its_walk_ends(disk: spec_fn(Seq<char>) -> Glance, walk: Walk)
    ensures
        walked(disk, walk.readied()) == walked(disk, walk),
        walk.awaits_a_look() ==> walked(disk, walk.after(disk(walk.pending.last().0))) == walked(
            disk,
            walk,
        ),
        walk.pending.len() == 0 ==> walked(disk, walk) == walk,
{
    lemma_readied(disk, walk);
}

proof fn lemma_readied(disk: spec_fn(Seq<char>) -> Glance, walk: Walk)
    ensures
        walked(disk, walk.readied()) == walked(disk, walk),
    decreases walk.pending.len(),
{
    if walk.pending.len() > 0 && walk.visited < SWEEP_BUDGET && walk.pending.last().1
        > SWEEP_MAX_DEPTH {
        let shorter = Walk { pending: walk.pending.drop_last(), ..walk };
        lemma_readied(disk, shorter);
        assert(shorter.readied() =~= walk.readied());
    } else if walk.pending.len() > 0 && walk.visited < SWEEP_BUDGET {
        assert(walk.readied() =~= walk);
    } else if walk.pending.len() == 0 {
        assert(walk.readied() =~= walk);
    }
}

/// A search never looks at more directories than its budget, and one that says it is complete has
/// nothing left to look at.
pub proof fn law_a_search_keeps_within_its_budget(disk: spec_fn(Seq<char>) -> Glance, walk: Walk)
    requires
        walk.visited <= SWEEP_BUDGET,
    ensures
        walked(disk, walk).visited <= SWEEP_BUDGET,
        walked(disk, walk).pending.len() == 0,
        !walked(disk, walk).complete && walk.complete ==> walked(disk, walk).visited
            == SWEEP_BUDGET,
    decreases SWEEP_BUDGET - walk.visited, walk.pending.len(),
{
    if walk.pending.len() > 0 && walk.visited < SWEEP_BUDGET {
        if walk.pending.last().1 > SWEEP_MAX_DEPTH {
            law_a_search_keeps_within_its_budget(
                disk,
                Walk { pending: walk.pending.drop_last(), ..walk },
            );
        } else {
            law_a_search_keeps_within_its_budget(
                disk,
                walk.after(disk(walk.pending.last().0)),
            );
        }
    }
}

/// What a search found is never lost again.
pub proof fn law_what_is_found_stays_found(disk: spec_fn(Seq<char>) -> Glance, walk: Walk)
    ensures
        walk.repositories.is_prefix_of(walked(disk, walk).repositories),
    decreases SWEEP_BUDGET - walk.visited, walk.pending.len(),
{
    if walk.pending.len() > 0 && walk.visited < SWEEP_BUDGET {
        if walk.pending.last().1 > SWEEP_MAX_DEPTH {
            law_what_is_found_stays_found(
                disk,
                Walk { pending: walk.pending.drop_last(), ..walk },
            );
        } else {
            law_what_is_found_stays_found(disk, walk.after(disk(walk.pending.last().0)));
        }
    }
}

// --- Worktrees ---------------------------------------------------------------------------------

/// The places where repositories that are no linked worktrees keep a note of theirs.
pub open spec fn registries(repositories: Seq<(Seq<char>, bool)>) -> Seq<Seq<char>>
    decreases repositories.len(),
{
    if repositories.len() == 0 {
        Seq::empty()
    } else {
        let before = registries(repositories.drop_last());
        if repositories.last().1 {
            before
        } else {
            before.push(text::child(marker(repositories.last().0), "worktrees"@))
        }
    }
}

/// The worktree that a note points at, where it points at one: the directory that the path in it lies
/// in.
pub open spec fn noted(note: Seq<char>) -> Option<Seq<char>> {
    text::parent_path(text::trimmed(note))
}

/// The worktrees that notes point at.
pub open spec fn worktrees(notes: Seq<Seq<char>>) -> Seq<(Seq<char>, bool)>
    decreases notes.len(),
{
    if notes.len() == 0 {
        Seq::empty()
    } else {
        let before = worktrees(notes.drop_last());
        match noted(notes.last()) {
            Some(path) => before.push((path, true)),
            None => before,
        }
    }
}

/// Whether a path is among repositories.
pub open spec fn stands_among(repositories: Seq<(Seq<char>, bool)>, path: Seq<char>) -> bool {
    exists|i: int| 0 <= i < repositories.len() && (#[trigger] repositories[i]).0 == path
}

/// Repositories, each path where it first stands.
pub open spec fn once(repositories: Seq<(Seq<char>, bool)>) -> Seq<(Seq<char>, bool)>
    decreases repositories.len(),
{
    if repositories.len() == 0 {
        Seq::empty()
    } else {
        let before = once(repositories.drop_last());
        if stands_among(before, repositories.last().0) {
            before
        } else {
            before.push(repositories.last())
        }
    }
}

fn is_there(repositories: &Vec<(String, bool)>, path: &str) -> (found: bool)
    ensures
        found == stands_among(homes(repositories@), path@),
{
    let mut next: usize = 0;
    while next < repositories.len()
        invariant
            next <= repositories@.len(),
            forall|i: int| 0 <= i < next ==> (#[trigger] homes(repositories@)[i]).0 != path@,
        decreases repositories@.len() - next,
    {
        assert(homes(repositories@)[next as int].0 == repositories@[next as int].0@);
        if text::same(repositories[next].0.as_str(), path) {
            return true;
        }
        next += 1;
    }
    false
}

fn keep_once(kept: &mut Vec<(String, bool)>, home: (String, bool), Ghost(all): Ghost<
    Seq<(Seq<char>, bool)>,
>)
    requires
        homes(old(kept)@) == once(all),
    ensures
        homes(final(kept)@) == once(all.push((home.0@, home.1))),
{
    let ghost longer = all.push((home.0@, home.1));
    let ghost before = kept@;
    assert(longer.drop_last() =~= all);
    if !is_there(kept, home.0.as_str()) {
        kept.push(home);
        assert(homes(kept@) =~= homes(before).push((home.0@, home.1)));
    }
}

impl Search {
    /// Where the notes of the worktrees of what was found are, in the order it was found.
    pub fn registries(&self) -> (paths: Vec<String>)
        ensures
            text::texts(paths@) == registries(self@.repositories),
    {
        let ghost all = homes(self.repositories@);
        let mut paths: Vec<String> = Vec::new();
        let mut next: usize = 0;
        assert(all.take(0) =~= Seq::empty());
        assert(text::texts(paths@) =~= Seq::empty());
        while next < self.repositories.len()
            invariant
                next <= self.repositories@.len(),
                all == homes(self.repositories@),
                text::texts(paths@) == registries(all.take(next as int)),
            decreases self.repositories@.len() - next,
        {
            assert(all.take(next + 1).drop_last() =~= all.take(next as int));
            assert(all[next as int] == (
                self.repositories@[next as int].0@,
                self.repositories@[next as int].1,
            ));
            if !self.repositories[next].1 {
                let ghost before = paths@;
                let marked: String = text::child_path(self.repositories[next].0.as_str(), ".git");
                let path: String = text::child_path(marked.as_str(), "worktrees");
                paths.push(path);
                assert(text::texts(paths@) =~= text::texts(before).push(path@));
            }
            next += 1;
        }
        assert(all.take(all.len() as int) =~= all);
        paths
    }

    /// What the search found, together with the worktrees that the notes point at, each path once.
    pub fn finish(self, notes: &Vec<String>) -> (sweep: Sweep)
        ensures
            homes(sweep.repositories@) == once(
                self@.repositories + worktrees(text::texts(notes@)),
            ),
            sweep.complete == self@.complete,
            sweep.directories_visited == self@.visited,
    {
        let ghost found = homes(self.repositories@);
        let ghost pointed = text::texts(notes@);
        let complete: bool = self.complete;
        let directories_visited: usize = self.visited;
        let mut kept: Vec<(String, bool)> = Vec::new();
        assert(found.take(0) =~= Seq::empty());
        assert(homes(kept@) =~= Seq::empty());
        for home in walk: self.repositories
            invariant
                walk.seq() == self.repositories@,
                found == homes(self.repositories@),
                homes(kept@) == once(found.take(walk.index() as int)),
        {
            let ghost at = walk.index() as int;
            let ghost so_far = found.take(at);
            assert(found[at] == (home.0@, home.1));
            assert(found.take(at + 1) =~= so_far.push(found[at]));
            keep_once(&mut kept, home, Ghost(so_far));
        }
        assert(found.take(found.len() as int) =~= found);
        let mut next: usize = 0;
        assert(pointed.take(0) =~= Seq::empty());
        assert(found + worktrees(pointed.take(0)) =~= found);
        while next < notes.len()
            invariant
                next <= notes@.len(),
                pointed == text::texts(notes@),
                homes(kept@) == once(found + worktrees(pointed.take(next as int))),
            decreases notes@.len() - next,
        {
            let ghost so_far = found + worktrees(pointed.take(next as int));
            assert(pointed.take(next + 1).drop_last() =~= pointed.take(next as int));
            let note: String = text::trim_text(notes[next].as_str());
            if let Some(path) = text::parent_of(note.as_str()) {
                assert(so_far.push((path@, true)) =~= found + worktrees(pointed.take(next + 1)));
                keep_once(&mut kept, (path, true), Ghost(so_far));
            }
            next += 1;
        }
        assert(pointed.take(pointed.len() as int) =~= pointed);
        Sweep { repositories: kept, complete, directories_visited }
    }
}

/// No path is found twice, and none that was found is lost.
pub proof fn law_every_path_once(repositories: Seq<(Seq<char>, bool)>)
    ensures
        forall|i: int, j: int|
            0 <= i < j < once(repositories).len() ==> (#[trigger] once(repositories)[i]).0 != (
            #[trigger] once(repositories)[j]).0,
        forall|i: int|
            0 <= i < repositories.len() ==> stands_among(
                once(repositories),
                (#[trigger] repositories[i]).0,
            ),
    decreases repositories.len(),
{
    if repositories.len() > 0 {
        let shorter = repositories.drop_last();
        law_every_path_once(shorter);
        let (before, after) = (once(shorter), once(repositories));
        assert forall|i: int| 0 <= i < repositories.len() implies stands_among(
            after,
            (#[trigger] repositories[i]).0,
        ) by {
            if i < shorter.len() {
                assert(shorter[i] == repositories[i]);
                assert(stands_among(before, shorter[i].0));
                let at = choose|at: int|
                    0 <= at < before.len() && (#[trigger] before[at]).0 == shorter[i].0;
                assert(after[at] == before[at]);
            } else if !stands_among(before, repositories.last().0) {
                assert(after[before.len() as int] == repositories.last());
            }
        }
    }
}

// --- Asking ------------------------------------------------------------------------------------

/// Five seconds.
pub open spec fn patience() -> Duration {
    Duration { nanos: 5_000_000_000 }
}

/// How long a query may take.
pub fn query_budget() -> (span: Duration)
    ensures
        span == patience(),
{
    Duration { nanos: 5_000_000_000 }
}

/// Whether this is the repository that is asked about a path.
pub open spec fn is_asked(
    found: Result<(String, bool), Unreadable>,
    path_is_there: bool,
    root: Option<(String, bool)>,
) -> bool {
    found == if !path_is_there {
        Err(Unreadable::PathGone)
    } else if root is Some {
        Ok(root->0)
    } else {
        Err(Unreadable::NotVersionControlled)
    }
}

/// Which repository is asked, or why none can be: the path is gone, or lies in none.
pub fn repository_to_ask(path_is_there: bool, root: Option<(String, bool)>) -> (found: Result<
    (String, bool),
    Unreadable,
>)
    ensures
        is_asked(found, path_is_there, root),
{
    if !path_is_there {
        return Err(Unreadable::PathGone);
    }
    match root {
        Some(found) => Ok(found),
        None => Err(Unreadable::NotVersionControlled),
    }
}

/// What git is asked.
pub open spec fn question(root: Seq<char>) -> Seq<Seq<char>> {
    seq![
        "--no-optional-locks"@,
        "-c"@,
        "core.fsmonitor=false"@,
        "-c"@,
        "gc.auto=0"@,
        "-C"@,
        root,
        "status"@,
        "--porcelain"@,
        "--untracked-files=normal"@,
    ]
}

/// What git is asked: for what is not committed, without a lock, a monitor or a collection.
pub fn git_arguments(root: &str) -> (arguments: Vec<String>)
    ensures
        text::texts(arguments@) == question(root@),
{
    let mut arguments: Vec<String> = Vec::new();
    arguments.push(String::from_str("--no-optional-locks"));
    arguments.push(String::from_str("-c"));
    arguments.push(String::from_str("core.fsmonitor=false"));
    arguments.push(String::from_str("-c"));
    arguments.push(String::from_str("gc.auto=0"));
    arguments.push(String::from_str("-C"));
    arguments.push(String::from_str(root));
    arguments.push(String::from_str("status"));
    arguments.push(String::from_str("--porcelain"));
    arguments.push(String::from_str("--untracked-files=normal"));
    assert(text::texts(arguments@) =~= question(root@));
    arguments
}

/// What waiting for git came to, for now.
#[derive(Debug, PartialEq, Eq)]
pub enum Waited {
    /// It could not even be started.
    NotStarted(String),
    /// It succeeded, and printed this.
    Succeeded(String),
    /// It failed, and complained of this.
    Failed(String),
    StillRunning,
    /// Nobody can say whether it still runs.
    Lost(String),
}

/// What is done next about git.
#[derive(Debug, PartialEq, Eq)]
pub enum Followed {
    /// Nothing: this is the answer.
    Answered(Result<VcsFacts, Unreadable>),
    /// It is waited for a little longer.
    Wait,
    /// It is stopped, and this is the answer.
    Stop(Unreadable),
}

/// How many lines hold anything.
pub open spec fn entries(lines: Seq<Seq<char>>) -> nat
    decreases lines.len(),
{
    if lines.len() == 0 {
        0
    } else {
        entries(lines.drop_last()) + if text::trimmed(lines.last()).len() > 0 {
            1nat
        } else {
            0
        }
    }
}

/// How many lines of what was printed hold anything.
pub fn count_entries(printed: &str) -> (count: usize)
    ensures
        count == entries(text::line_list(printed@)),
{
    let lines: Vec<Vec<char>> = text::lines(&text::characters(printed));
    let ghost all = text::views(lines@);
    let mut count: usize = 0;
    let mut next: usize = 0;
    assert(all.take(0) =~= Seq::empty());
    while next < lines.len()
        invariant
            next <= lines@.len(),
            all == text::views(lines@),
            count <= next,
            count == entries(all.take(next as int)),
        decreases lines@.len() - next,
    {
        assert(all.take(next + 1).drop_last() =~= all.take(next as int));
        assert(all[next as int] == lines@[next as int]@);
        if text::trim(&lines[next]).len() > 0 {
            count += 1;
        }
        next += 1;
    }
    assert(all.take(all.len() as int) =~= all);
    count
}

/// Whether this is what follows from waiting for git so long.
pub open spec fn follows(
    followed: Followed,
    waited: Waited,
    elapsed: Duration,
    root: Seq<char>,
    linked: bool,
) -> bool {
    match waited {
        Waited::NotStarted(error) => followed matches Followed::Answered(
            Err(Unreadable::QueryFailed(why)),
        ) && why@ == "could not spawn git: "@ + error@,
        Waited::Succeeded(printed) => followed matches Followed::Answered(Ok(facts)) && facts.root@
            == root && facts.uncommitted_entries == entries(text::line_list(printed@))
            && facts.linked_worktree == linked,
        Waited::Failed(complaint) => followed matches Followed::Answered(
            Err(Unreadable::QueryFailed(why)),
        ) && why@ == text::trimmed(complaint@),
        Waited::StillRunning => if elapsed.nanos > patience().nanos {
            followed == Followed::Stop(Unreadable::TimedOut)
        } else {
            followed is Wait
        },
        Waited::Lost(error) => followed matches Followed::Stop(Unreadable::QueryFailed(why)) && why@
            == "try_wait failed: "@ + error@,
    }
}

/// What follows from waiting for git so long: its answer, where it gave one; and where it gave none, that
/// it is waited for, until it has had its time.
pub fn vcs_facts(waited: Waited, elapsed: Duration, root: &str, linked: bool) -> (followed: Followed)
    ensures
        follows(followed, waited, elapsed, root@, linked),
{
    match waited {
        Waited::NotStarted(error) => Followed::Answered(
            Err(
                Unreadable::QueryFailed(
                    String::from_str("could not spawn git: ").concat(error.as_str()),
                ),
            ),
        ),
        Waited::Succeeded(printed) => Followed::Answered(
            Ok(
                VcsFacts {
                    root: String::from_str(root),
                    uncommitted_entries: count_entries(printed.as_str()),
                    linked_worktree: linked,
                },
            ),
        ),
        Waited::Failed(complaint) => Followed::Answered(
            Err(Unreadable::QueryFailed(text::trim_text(complaint.as_str()))),
        ),
        Waited::StillRunning => if elapsed.nanos > query_budget().nanos {
            Followed::Stop(Unreadable::TimedOut)
        } else {
            Followed::Wait
        },
        Waited::Lost(error) => Followed::Stop(
            Unreadable::QueryFailed(
                String::from_str("try_wait failed: ").concat(error.as_str()),
            ),
        ),
    }
}

/// A query that has had more than its time is never waited for again.
pub proof fn law_a_query_is_bounded(
    followed: Followed,
    waited: Waited,
    elapsed: Duration,
    root: Seq<char>,
    linked: bool,
)
    requires
        follows(followed, waited, elapsed, root, linked),
        elapsed.nanos > patience().nanos,
    ensures
        !(followed is Wait),
{
}

// --- Several at once ---------------------------------------------------------------------------

/// How many are asked at once.
pub const ASKED_AT_ONCE: usize = 8;

/// How many of so many each asker gets.
pub open spec fn share_of(count: nat) -> nat {
    let askers = if count < ASKED_AT_ONCE {
        count
    } else {
        ASKED_AT_ONCE as nat
    };
    if count % askers == 0 {
        count / askers
    } else {
        count / askers + 1
    }
}

/// Where the share of an asker ends.
pub open spec fn share_end(asker: nat, count: nat) -> nat {
    let end = (asker + 1) * share_of(count);
    if end > count {
        count
    } else {
        end
    }
}

/// Whether these are the shares that so many questions fall into.
pub open spec fn are_shares(ranges: Seq<(usize, usize)>, count: usize) -> bool {
    &&& ranges.len() <= ASKED_AT_ONCE
    &&& count == 0 ==> ranges.len() == 0
    &&& count > 0 ==> ranges.len() > 0 && ranges.last().1 == count
    &&& forall|i: int|
        0 <= i < ranges.len() ==> {
            &&& (#[trigger] ranges[i]).0 == i * share_of(count as nat)
            &&& ranges[i].1 == share_end(i as nat, count as nat)
            &&& ranges[i].0 < ranges[i].1
        }
}

/// Shares so many among those who ask: from where, and up to where.
pub fn shares(count: usize) -> (ranges: Vec<(usize, usize)>)
    ensures
        are_shares(ranges@, count),
{
    let mut ranges: Vec<(usize, usize)> = Vec::new();
    if count == 0 {
        return ranges;
    }
    let askers: usize = if count < ASKED_AT_ONCE {
        count
    } else {
        ASKED_AT_ONCE
    };
    let size: usize = if count % askers == 0 {
        count / askers
    } else {
        count / askers + 1
    };
    let mut start: usize = 0;
    assert(size == share_of(count as nat));
    assert(size >= 1 && size * askers >= count) by (nonlinear_arith)
        requires
            1 <= askers <= count,
            count % askers == 0 ==> size == count / askers,
            count % askers != 0 ==> size == count / askers + 1,
    ;
    while start < count
        invariant
            size == share_of(count as nat),
            1 <= size,
            1 <= askers <= ASKED_AT_ONCE,
            size * askers >= count,
            count > 0,
            start <= count,
            start < count ==> start == ranges@.len() * size,
            start == count ==> ranges@.len() > 0 && ranges@.last().1 == count && (ranges@.len() - 1)
                * size < count,
            forall|i: int|
                0 <= i < ranges@.len() ==> {
                    &&& (#[trigger] ranges@[i]).0 == i * share_of(count as nat)
                    &&& ranges@[i].1 == share_end(i as nat, count as nat)
                    &&& ranges@[i].0 < ranges@[i].1
                },
        decreases count - start,
    {
        let end: usize = if count - start <= size {
            count
        } else {
            start + size
        };
        let ghost asker = ranges@.len();
        assert((asker + 1) * size == asker * size + size) by (nonlinear_arith);
        ranges.push((start, end));
        start = end;
    }
    let ghost asked = ranges@.len();
    assert(asked <= askers) by (nonlinear_arith)
        requires
            (asked - 1) * size < count,
            size * askers >= count,
            size >= 1,
    ;
    ranges
}

/// Shared out, everything is asked exactly once: whatever stands at a place is in the share that the place
/// falls into, and in no other.
pub proof fn law_shares_leave_nothing_out(place: nat, count: nat, asker: nat)
    requires
        place < count,
    ensures
        share_of(count) > 0,
        asker * share_of(count) <= place < share_end(asker, count) <==> asker == place / share_of(
            count,
        ),
{
    let askers = if count < ASKED_AT_ONCE {
        count
    } else {
        ASKED_AT_ONCE as nat
    };
    let share = share_of(count);
    assert(share > 0) by (nonlinear_arith)
        requires
            1 <= askers <= count,
            count % askers == 0 ==> share == count / askers,
            count % askers != 0 ==> share == count / askers + 1,
    ;
    assert(asker * share <= place < (asker + 1) * share <==> asker == place / share)
        by (nonlinear_arith)
        requires
            share > 0,
    ;
}

} // verus!
