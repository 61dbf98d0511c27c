use acmon::real_world::repositories::{
    count_entries, git_arguments, query_budget, repository_root, repository_to_ask, shares,
    vcs_facts, Followed, Looked, Search, Waited, ASKED_AT_ONCE, SWEEP_BUDGET,
};
use acmon::time::Duration;
use acmon::vcs::{Unreadable, VcsFacts};
use acmon::world::Sweep;

/// Walks a disk that `look` describes, with these notes of worktrees.
fn sweep(roots: &[&str], look: impl Fn(&str) -> Looked, notes: &[&str]) -> Sweep {
    let mut search = Search::begin(roots.iter().map(|root| root.to_string()).collect());
    while let Some(path) = search.next() {
        search.saw(look(&path));
    }
    search.finish(&notes.iter().map(|note| note.to_string()).collect())
}

fn directory(children: &[&str]) -> Looked {
    Looked::Directory(children.iter().map(|child| child.to_string()).collect())
}

#[test]
fn a_repository_is_the_innermost_directory_with_a_marker() {
    let look = |path: &str| match path {
        "/work/repo/.git" => Some(false),
        "/work/repo/trees/one/.git" => Some(true),
        _ => None,
    };
    assert_eq!(
        repository_root("/work/repo/src/deep", &look),
        Some(("/work/repo".to_string(), false))
    );
    assert_eq!(
        repository_root("/work/repo/trees/one", &look),
        Some(("/work/repo/trees/one".to_string(), true))
    );
    assert_eq!(repository_root("/elsewhere", &look), None);
}

#[test]
fn a_search_walks_in_order_and_not_into_repositories() {
    let found = sweep(
        &["/a", "/b"],
        |path| match path {
            "/a" => directory(&["/a/x", "/a/y"]),
            "/a/x" => Looked::Repository { linked: false },
            "/a/y" => Looked::Unreadable,
            "/b" => Looked::Repository { linked: true },
            other => panic!("looked at {other}"),
        },
        &[],
    );
    assert_eq!(
        found,
        Sweep {
            repositories: vec![("/a/x".to_string(), false), ("/b".to_string(), true)],
            complete: true,
            directories_visited: 4,
        }
    );
}

#[test]
fn a_search_goes_four_levels_down_and_no_further() {
    // Every directory holds one directory, for ever.
    let found = sweep(&["/r"], |path| directory(&[&format!("{path}/d")]), &[]);
    assert_eq!(found.directories_visited, 5);
    assert!(found.complete);
    assert_eq!(found.repositories, vec![]);
}

#[test]
fn a_search_that_spends_its_budget_says_so() {
    let found = sweep(
        &["/r"],
        |path| {
            if path == "/r" {
                Looked::Directory((0..5000).map(|i| format!("/r/{i}")).collect())
            } else {
                Looked::Repository { linked: true }
            }
        },
        &[],
    );
    assert_eq!(found.directories_visited, SWEEP_BUDGET);
    assert_eq!(found.repositories.len(), SWEEP_BUDGET - 1);
    assert!(!found.complete);
}

#[test]
fn a_worktree_that_is_noted_is_found_once() {
    let mut search = Search::begin(vec!["/r".to_string(), "/w".to_string()]);
    while let Some(path) = search.next() {
        search.saw(Looked::Repository { linked: path == "/w" });
    }
    assert_eq!(search.registries(), vec!["/r/.git/worktrees".to_string()]);
    let found = search.finish(&vec![
        "/w/.git\n".to_string(),
        " /elsewhere/tree/.git \n".to_string(),
        "/".to_string(),
    ]);
    assert_eq!(
        found.repositories,
        vec![
            ("/r".to_string(), false),
            ("/w".to_string(), true),
            ("/elsewhere/tree".to_string(), true),
        ]
    );
}

#[test]
fn a_path_that_is_gone_or_in_no_repository_is_not_asked_about() {
    let root = || Some(("/r".to_string(), false));
    assert_eq!(repository_to_ask(false, root()), Err(Unreadable::PathGone));
    assert_eq!(repository_to_ask(true, None), Err(Unreadable::NotVersionControlled));
    assert_eq!(repository_to_ask(true, root()), Ok(("/r".to_string(), false)));
    assert_eq!(
        git_arguments("/r"),
        [
            "--no-optional-locks",
            "-c",
            "core.fsmonitor=false",
            "-c",
            "gc.auto=0",
            "-C",
            "/r",
            "status",
            "--porcelain",
            "--untracked-files=normal",
        ]
    );
}

#[test]
fn what_git_prints_is_counted_by_line() {
    assert_eq!(count_entries(" M a\n?? b\n\n   \n"), 2);
    assert_eq!(count_entries(""), 0);
    let printed = Waited::Succeeded(" M a\n?? b\n".to_string());
    assert_eq!(
        vcs_facts(printed, Duration { nanos: 0 }, "/r", true),
        Followed::Answered(Ok(VcsFacts {
            root: "/r".to_string(),
            uncommitted_entries: 2,
            linked_worktree: true,
        }))
    );
}

#[test]
fn a_git_that_does_not_answer_is_stopped() {
    let budget = query_budget();
    let ask = |waited: Waited, elapsed: Duration| vcs_facts(waited, elapsed, "/r", false);
    assert_eq!(ask(Waited::StillRunning, budget), Followed::Wait);
    assert_eq!(
        ask(Waited::StillRunning, Duration { nanos: budget.nanos + 1 }),
        Followed::Stop(Unreadable::TimedOut)
    );
    assert_eq!(
        ask(Waited::Lost("gone".to_string()), budget),
        Followed::Stop(Unreadable::QueryFailed("try_wait failed: gone".to_string()))
    );
    assert_eq!(
        ask(Waited::Failed(" fatal: no\n".to_string()), budget),
        Followed::Answered(Err(Unreadable::QueryFailed("fatal: no".to_string())))
    );
    assert_eq!(
        ask(Waited::NotStarted("no git".to_string()), budget),
        Followed::Answered(Err(Unreadable::QueryFailed("could not spawn git: no git".to_string())))
    );
}

#[test]
fn shares_cover_everything_once() {
    assert_eq!(shares(0), vec![]);
    assert_eq!(shares(1), vec![(0, 1)]);
    assert_eq!(shares(9), vec![(0, 2), (2, 4), (4, 6), (6, 8), (8, 9)]);
    for count in 1..200usize {
        let ranges = shares(count);
        assert!(ranges.len() <= ASKED_AT_ONCE);
        let mut at = 0;
        for (from, to) in ranges {
            assert_eq!(from, at);
            assert!(to > from);
            at = to;
        }
        assert_eq!(at, count);
    }
}
