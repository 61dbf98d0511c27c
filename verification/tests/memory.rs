use acmon::collect::{Identity, Session};
use acmon::liveness::{Method, State, Verdict};
use acmon::memory::{
    default_forget, forget, identity_of, parse, recall, recorded_under, remember,
    retention_from_value, serialise, Degraded, Forgotten, Memory, MemoryRead, Reading,
    RememberedSession, RememberedWorkspace, Sighting, StateFile, SCHEMA_VERSION,
};
use acmon::time::{Duration, SystemTime};
use acmon::vcs::{Unreadable, WorkspaceState};
use acmon::world::{
    ResourceSource, Resources, ResourcesUnavailable, Unmeasured, Workspace, WorkspaceUnknown,
};

fn at(seconds: i128) -> SystemTime {
    SystemTime { nanos: seconds * 1_000_000_000 }
}

fn known(path: &str, settled_since: Option<SystemTime>) -> RememberedWorkspace {
    RememberedWorkspace {
        path: path.to_string(),
        first_seen: at(10),
        last_seen: at(20),
        settled_since,
    }
}

fn sighting(path: &str, settled: bool) -> Sighting {
    Sighting { path: path.to_string(), settled }
}

fn ledger() -> Resources {
    Resources {
        source: ResourceSource::Ps,
        own_cpu: Ok(Duration::from_secs(5)),
        children_cpu: Err(Unmeasured::NotReportedBy(ResourceSource::Ps)),
        current_memory: Ok(1024),
        peak_memory: Err(Unmeasured::NotReportedBy(ResourceSource::Ps)),
        bytes_written: Err(Unmeasured::NotReportedBy(ResourceSource::Ps)),
    }
}

fn session(recorded_as: &str, resources: Result<Resources, ResourcesUnavailable>) -> Session {
    Session {
        identity: Identity::Transcript { recorded_as: recorded_as.to_string() },
        cli: "codex".to_string(),
        resources,
        last_reading: None,
        workspace: Err(WorkspaceUnknown::WorkspaceGone),
        liveness: Verdict { state: State::Waiting, method: Method::ProcessResidentButSilent },
    }
}

#[test]
fn a_memory_reads_back_as_it_was_stored() {
    let memory = Memory {
        workspaces: vec![known("/work", Some(at(15)))],
        sessions: vec![],
        announcements: Default::default(),
    };
    let (read, degraded) = parse(Ok(serialise(memory)));
    assert!(degraded.is_none());
    assert_eq!(read.workspaces, vec![known("/work", Some(at(15)))]);
    assert!(!read.is_empty());
    assert!(read.workspace("/work").is_some());
    assert!(read.workspace("/elsewhere").is_none());
}

#[test]
fn a_memory_that_cannot_be_used_is_begun_anew_and_says_why() {
    let (empty, degraded) = parse(Err("no brace".to_string()));
    assert!(empty.is_empty());
    assert_eq!(
        degraded.unwrap().to_text(),
        "remembered state could not be understood (no brace)"
    );

    let other = StateFile { version: SCHEMA_VERSION + 8, memory: Memory::empty() };
    let (empty, degraded) = parse(Ok(other));
    assert!(empty.is_empty());
    let degraded = degraded.unwrap();
    assert_eq!(degraded, Degraded::UnknownVersion { found: 9, understood: 1 });
    assert_eq!(
        degraded.to_text(),
        "remembered state is schema version 9, and this acmon understands 1"
    );

    let (empty, degraded) = recall(MemoryRead::Unreadable("denied".to_string()));
    assert!(empty.is_empty());
    assert_eq!(degraded.unwrap().to_text(), "remembered state could not be read (denied)");

    let (empty, degraded) = recall(MemoryRead::Absent);
    assert!(empty.is_empty() && degraded.is_none());
}

#[test]
fn a_workspace_that_was_not_seen_is_still_remembered() {
    let previous = Memory {
        workspaces: vec![known("/gone", None), known("/here", None)],
        sessions: vec![],
        announcements: Default::default(),
    };
    let memory = remember(previous, &vec![sighting("/here", true)], &vec![], at(100));
    assert_eq!(memory.workspaces.len(), 2);
    assert_eq!(
        memory.workspace("/here").unwrap(),
        &RememberedWorkspace {
            path: "/here".to_string(),
            first_seen: at(10),
            last_seen: at(100),
            settled_since: Some(at(100)),
        }
    );
    assert_eq!(memory.workspace("/gone").unwrap(), &known("/gone", None));
}

#[test]
fn a_workspace_stays_settled_since_it_first_was() {
    let previous = Memory {
        workspaces: vec![known("/here", Some(at(15)))],
        sessions: vec![],
        announcements: Default::default(),
    };
    let memory = remember(previous, &vec![sighting("/here", true)], &vec![], at(100));
    assert_eq!(memory.workspaces[0].settled_since, Some(at(15)));
    let memory = remember(memory, &vec![sighting("/here", false)], &vec![], at(200));
    assert_eq!(memory.workspaces[0].settled_since, None);
}

#[test]
fn the_last_reading_outlives_a_reading_that_failed() {
    let first = remember(
        Memory::empty(),
        &vec![],
        &vec![session("one", Ok(ledger()))],
        at(100),
    );
    let reading = Reading { resources: ledger(), taken_at: at(100) };
    assert_eq!(first.reading_for("codex", "one"), Some(Reading { resources: ledger(), taken_at: at(100) }));

    let second = remember(
        first,
        &vec![],
        &vec![session("one", Err(ResourcesUnavailable::ProcessExited))],
        at(200),
    );
    assert_eq!(
        second.sessions,
        vec![RememberedSession {
            cli: "codex".to_string(),
            recorded_as: "one".to_string(),
            first_seen: at(100),
            last_seen: at(200),
            last_reading: Some(reading),
        }]
    );
    assert!(second.reading_for("other", "one").is_none());
}

#[test]
fn only_what_has_been_settled_longer_than_the_span_is_let_go() {
    let memory = Memory {
        workspaces: vec![
            known("/long", Some(at(0))),
            known("/exactly", Some(at(40))),
            known("/dirty", None),
            known("/ahead", Some(at(500))),
        ],
        sessions: vec![],
        announcements: Default::default(),
    };
    let (left, gone) = forget(memory, at(100), Duration::from_secs(60));
    let kept: Vec<&str> = left.workspaces.iter().map(|one| one.path.as_str()).collect();
    assert_eq!(kept, vec!["/exactly", "/dirty", "/ahead"]);
    assert_eq!(
        gone,
        vec![Forgotten { path: "/long".to_string(), settled_for: Duration::from_secs(100) }]
    );
}

#[test]
fn only_a_clean_workspace_that_nobody_drives_is_settled() {
    let of = |state: WorkspaceState, driven: bool| Sighting::of("/w".to_string(), &state, driven).settled;
    assert!(of(WorkspaceState::Clean, false));
    assert!(!of(WorkspaceState::Clean, true));
    assert!(!of(WorkspaceState::DirtyDriven, true));
    assert!(!of(WorkspaceState::DirtyStranded, false));
    assert!(!of(WorkspaceState::Unknown(Unreadable::TimedOut), false));
    assert!(!of(WorkspaceState::Unknown(Unreadable::NotYetRead), false));
    assert!(of(WorkspaceState::Unknown(Unreadable::NotVersionControlled), false));
    assert!(of(WorkspaceState::Unknown(Unreadable::PathGone), false));
}

#[test]
fn a_process_is_recorded_under_the_name_of_its_workspace() {
    let mut process = session("unused", Ok(ledger()));
    process.identity = Identity::Process { pid: 42 };
    assert!(recorded_under(&process).is_none());
    assert!(identity_of(&process).is_none());
    process.workspace =
        Ok(Workspace { path: "/work".to_string(), namespace: Ok("-work".to_string()) });
    assert_eq!(recorded_under(&process).unwrap(), "-work");
    assert_eq!(identity_of(&process), Some(("codex", "-work")));
}

#[test]
fn the_span_of_remembering_is_read_from_the_environment() {
    assert_eq!(retention_from_value(None), Ok(default_forget()));
    assert_eq!(retention_from_value(Some("30")), Ok(Duration::from_secs(30)));
    let refused = retention_from_value(Some("soon")).err().unwrap();
    assert!(refused.contains("ACMON_FORGET_SECONDS"), "{refused}");
}
