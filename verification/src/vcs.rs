//! What version control says about a workspace, and whether its work is at risk.

use vstd::prelude::*;

verus! {

/// What a workspace holds, and whether anyone is driving it.
#[derive(Debug, PartialEq, Eq)]
pub enum WorkspaceState {
    /// Nothing uncommitted.
    Clean,
    /// Uncommitted work, and a live session in it.
    DirtyDriven,
    /// Uncommitted work, and no live session in it.
    DirtyStranded,
    /// Nobody can say.
    Unknown(Unreadable),
}

/// Why nobody can say what a workspace holds.
#[derive(Debug, PartialEq, Eq)]
pub enum Unreadable {
    NotVersionControlled,
    PathGone,
    QueryFailed(String),
    TimedOut,
    NotYetRead,
}

/// What a query of one repository gave.
#[derive(Debug, PartialEq, Eq)]
pub struct VcsFacts {
    pub root: String,
    pub uncommitted_entries: usize,
    pub linked_worktree: bool,
}

impl Clone for Unreadable {
    fn clone(&self) -> (copy: Unreadable)
        ensures
            copy == *self,
    {
        match self {
            Unreadable::NotVersionControlled => Unreadable::NotVersionControlled,
            Unreadable::PathGone => Unreadable::PathGone,
            Unreadable::QueryFailed(why) => Unreadable::QueryFailed(why.clone()),
            Unreadable::TimedOut => Unreadable::TimedOut,
            Unreadable::NotYetRead => Unreadable::NotYetRead,
        }
    }
}

impl Clone for WorkspaceState {
    fn clone(&self) -> (copy: WorkspaceState)
        ensures
            copy == *self,
    {
        match self {
            WorkspaceState::Clean => WorkspaceState::Clean,
            WorkspaceState::DirtyDriven => WorkspaceState::DirtyDriven,
            WorkspaceState::DirtyStranded => WorkspaceState::DirtyStranded,
            WorkspaceState::Unknown(why) => WorkspaceState::Unknown(why.clone()),
        }
    }
}

impl Clone for VcsFacts {
    fn clone(&self) -> (copy: VcsFacts)
        ensures
            copy == *self,
    {
        VcsFacts {
            root: self.root.clone(),
            uncommitted_entries: self.uncommitted_entries,
            linked_worktree: self.linked_worktree,
        }
    }
}

/// The state that a query's answer and a driving session make.
pub open spec fn state_of(
    facts: Result<VcsFacts, Unreadable>,
    session_driving: bool,
) -> WorkspaceState {
    match facts {
        Err(reason) => WorkspaceState::Unknown(reason),
        Ok(found) => if found.uncommitted_entries == 0 {
            WorkspaceState::Clean
        } else if session_driving {
            WorkspaceState::DirtyDriven
        } else {
            WorkspaceState::DirtyStranded
        },
    }
}

/// The state that a query's answer and a driving session make.
pub fn classify(facts: &Result<VcsFacts, Unreadable>, session_driving: bool) -> (state:
    WorkspaceState)
    ensures
        state == state_of(*facts, session_driving),
{
    match facts {
        Err(reason) => WorkspaceState::Unknown(reason.clone()),
        Ok(found) => if found.uncommitted_entries == 0 {
            WorkspaceState::Clean
        } else if session_driving {
            WorkspaceState::DirtyDriven
        } else {
            WorkspaceState::DirtyStranded
        },
    }
}

impl WorkspaceState {
    /// Whether work may be lost here: it is stranded, or a query that ought to have answered did not.
    pub open spec fn risky(self) -> bool {
        ||| self is DirtyStranded
        ||| self matches WorkspaceState::Unknown(why) && (why is QueryFailed || why is TimedOut)
    }

    /// Whether work may be lost here.
    pub fn at_risk(&self) -> (risk: bool)
        ensures
            risk == self.risky(),
    {
        match self {
            WorkspaceState::DirtyStranded => true,
            WorkspaceState::Unknown(Unreadable::QueryFailed(_)) => true,
            WorkspaceState::Unknown(Unreadable::TimedOut) => true,
            WorkspaceState::Clean
            | WorkspaceState::DirtyDriven
            | WorkspaceState::Unknown(Unreadable::NotVersionControlled)
            | WorkspaceState::Unknown(Unreadable::PathGone)
            | WorkspaceState::Unknown(Unreadable::NotYetRead) => false,
        }
    }

    /// The word the state is shown under.
    pub open spec fn word(self) -> Seq<char> {
        match self {
            WorkspaceState::Clean => "CLEAN"@,
            WorkspaceState::DirtyDriven => "DIRTY-DRIVEN"@,
            WorkspaceState::DirtyStranded => "DIRTY-STRANDED"@,
            WorkspaceState::Unknown(_) => "UNKNOWN"@,
        }
    }

    /// The word the state is shown under.
    pub fn to_text(&self) -> (word: &'static str)
        ensures
            word@ == self.word(),
    {
        match self {
            WorkspaceState::Clean => "CLEAN",
            WorkspaceState::DirtyDriven => "DIRTY-DRIVEN",
            WorkspaceState::DirtyStranded => "DIRTY-STRANDED",
            WorkspaceState::Unknown(_) => "UNKNOWN",
        }
    }
}

impl Unreadable {
    /// The reason in a few words.
    pub open spec fn words(self) -> Seq<char> {
        match self {
            Unreadable::NotVersionControlled => "no repository"@,
            Unreadable::PathGone => "path gone"@,
            Unreadable::QueryFailed(_) => "query failed"@,
            Unreadable::TimedOut => "timed out"@,
            Unreadable::NotYetRead => "not read yet"@,
        }
    }

    /// The reason in a few words.
    pub fn to_text(&self) -> (words: &'static str)
        ensures
            words@ == self.words(),
    {
        match self {
            Unreadable::NotVersionControlled => "no repository",
            Unreadable::PathGone => "path gone",
            Unreadable::QueryFailed(_) => "query failed",
            Unreadable::TimedOut => "timed out",
            Unreadable::NotYetRead => "not read yet",
        }
    }
}

/// Uncommitted work that no session drives is always at risk, and work that one drives never is.
pub proof fn law_stranded_work_is_at_risk(facts: VcsFacts, session_driving: bool)
    ensures
        state_of(Ok(facts), session_driving).risky() <==> facts.uncommitted_entries > 0
            && !session_driving,
{
}

/// Whether a session drives a workspace makes no difference to what cannot be read of it.
pub proof fn law_driving_does_not_make_a_workspace_readable(why: Unreadable)
    ensures
        state_of(Err(why), true) == state_of(Err(why), false),
        state_of(Err(why), true) != WorkspaceState::Clean,
{
}

} // verus!
