use acmon::collect::{
    collect, collect_as, CollectError, Identity, Log, Persistence, Remembered, Role, World,
};
use acmon::deliver::DeliveryReport;
use acmon::detect::Detector;
use acmon::display::{
    ages_of, own_collection, presence_of, read_state_file, reading_of, Absence, Presence,
    PublishedReading, StateReading, Writer,
};
use acmon::liveness::{State, Thresholds};
use acmon::memory::{MemoryRead, StateFile};
use acmon::meter::{own_cpu, Meter, Share};
use acmon::notify::{NotifiedFile, NotifiedRead, Rebuilt};
use acmon::schedule::{Budgets, Completion, Pace};
use acmon::starts::first_launch;
use acmon::state::{Tier, TieredState};
use acmon::tiers::payload::{
    fast_payload, live_sessions, medium_payload, session_row, slow_payload, stamp_for, Published,
};
use acmon::tiers::{run_pass, Observed, Pass, TierFacts};
use acmon::time::{Duration, SystemTime};
use acmon::vcs::{Unreadable, VcsFacts, WorkspaceState};
use acmon::world::{
    ActivityUnavailable, CodexSession, DetectorConfig, LoadAverage, NamespaceResolution,
    NotifyConfig, NotifyOutcome, PathUnavailable, ProcessRecord, ProcessSnapshot, ResourceSource,
    Resources, ResourcesUnavailable, Sweep, WorldError,
};

const FILER: &str = "filer";

/// A machine with one agent at work in one dirty repository, and a command that hears of it.
struct Desk {
    observer_pid: i32,
    entries: usize,
    heard: Vec<String>,
    deaf: bool,
    stored: Option<StateFile>,
    recorded: Option<Result<NotifiedFile, String>>,
    /// What has been written, in order.
    written: Vec<&'static str>,
    disk_full: bool,
    questions: Vec<String>,
    /// How many milliseconds pass from one reading of the clock to the next.
    pace: u64,
    ticks: u64,
}

fn desk() -> Desk {
    Desk {
        observer_pid: 7,
        entries: 3,
        heard: vec![],
        deaf: false,
        stored: None,
        recorded: None,
        written: vec![],
        disk_full: false,
        questions: vec![],
        pace: 30,
        ticks: 0,
    }
}

fn now() -> SystemTime {
    SystemTime { nanos: 1_787_000_000_000_000_000 }
}

fn record(pid: i32, exe: &str, cwd: &str) -> ProcessRecord {
    ProcessRecord {
        pid,
        exe_path: Ok(exe.to_string()),
        cwd: Ok(cwd.to_string()),
        filed_under: cwd.replace('/', "-"),
    }
}

impl World for Desk {
    fn log(&self) -> Log {
        unreachable!("a log is only ever spoken of")
    }

    fn grew_from(&self, _begun: &Self) -> bool {
        unreachable!("a past is only ever spoken of")
    }

    fn process_snapshot(&mut self) -> Result<ProcessSnapshot, WorldError> {
        self.questions.push("processes".to_string());
        Ok(ProcessSnapshot {
            records: vec![
                record(7, "/usr/bin/agtop", "/"),
                record(42, "/opt/bin/filer", "/work/one"),
                ProcessRecord {
                    pid: 43,
                    exe_path: Err(PathUnavailable::PermissionDenied),
                    cwd: Err(PathUnavailable::PermissionDenied),
                    filed_under: String::new(),
                },
            ],
            observer_pid: self.observer_pid,
        })
    }

    fn read_state(&mut self) -> MemoryRead {
        match self.stored.take() {
            Some(file) => MemoryRead::Found(Ok(file)),
            None => MemoryRead::Absent,
        }
    }

    fn read_notified(&mut self) -> NotifiedRead {
        match self.recorded.take() {
            Some(decoded) => NotifiedRead::Found(decoded),
            None => NotifiedRead::Absent,
        }
    }

    fn read_detector_config(&mut self) -> DetectorConfig {
        DetectorConfig::embedded_only(vec![Detector {
            id: FILER.to_string(),
            exe_contains: vec![],
            exe_ends_with: vec!["/filer".to_string()],
        }])
    }

    fn filing_cli(&mut self) -> String {
        FILER.to_string()
    }

    fn recorded_namespaces(&mut self) -> Result<Vec<String>, WorldError> {
        Ok(vec!["-work-one".to_string()])
    }

    fn codex_sessions(&mut self) -> Result<Vec<CodexSession>, WorldError> {
        Err(WorldError::CodexIndex("none here".to_string()))
    }

    fn namespace_activity(&mut self, _name: &str) -> Result<SystemTime, ActivityUnavailable> {
        Ok(now())
    }

    fn resolve_namespace(&mut self, _name: &str) -> NamespaceResolution {
        NamespaceResolution::Resolved("/work/one".to_string())
    }

    fn resources(&mut self, pid: i32) -> Result<Resources, ResourcesUnavailable> {
        self.questions.push(format!("resources {pid}"));
        Ok(Resources {
            source: ResourceSource::Rusage,
            own_cpu: Ok(Duration::from_secs(1)),
            children_cpu: Ok(Duration::from_secs(2)),
            current_memory: Ok(10),
            peak_memory: Ok(20),
            bytes_written: Ok(30),
        })
    }

    fn repository_root(&mut self, path: &str) -> Option<(String, bool)> {
        if path.starts_with("/work/") {
            Some((path.to_string(), false))
        } else {
            None
        }
    }

    fn sweep_for_repositories(&mut self, roots: &Vec<String>) -> Sweep {
        self.questions.push(format!("sweep {}", roots.join(" ")));
        Sweep {
            repositories: vec![("/work/two".to_string(), false)],
            complete: true,
            directories_visited: 3,
        }
    }

    fn vcs_facts_batch(&mut self, paths: &Vec<String>) -> Vec<Result<VcsFacts, Unreadable>> {
        self.questions.push(format!("facts {}", paths.join(" ")));
        paths
            .iter()
            .map(|path| match path.as_str() {
                "/work/two" => Ok(VcsFacts {
                    root: path.clone(),
                    uncommitted_entries: self.entries,
                    linked_worktree: false,
                }),
                "/work/one" => Ok(VcsFacts {
                    root: path.clone(),
                    uncommitted_entries: 0,
                    linked_worktree: false,
                }),
                _ => Err(Unreadable::NotVersionControlled),
            })
            .collect()
    }

    fn read_notify_config(&mut self) -> NotifyConfig {
        NotifyConfig::from_settings(Some("tell".to_string()), None)
    }

    fn notify_local_batch(&mut self, _command: &str, payloads: &Vec<String>) -> DeliveryReport {
        let deaf = self.deaf;
        self.heard.extend(payloads.iter().cloned());
        DeliveryReport {
            outcomes: payloads
                .iter()
                .map(|_| {
                    if deaf {
                        NotifyOutcome::Failed("nobody there".to_string())
                    } else {
                        NotifyOutcome::Delivered
                    }
                })
                .collect(),
            cost: Duration::from_millis(5),
        }
    }

    fn notify_remote_batch(&mut self, _url: &str, _payloads: &Vec<String>) -> DeliveryReport {
        panic!("there is no remote service")
    }

    fn write_notified(&mut self, file: &NotifiedFile) -> Result<(), String> {
        self.written.push("record");
        assert_eq!(file.version, 1);
        if self.disk_full {
            Err("no room".to_string())
        } else {
            Ok(())
        }
    }

    fn write_state(&mut self, file: &StateFile) -> Result<(), String> {
        self.written.push("history");
        assert_eq!(file.version, 1);
        Ok(())
    }

    fn clock(&mut self) -> Duration {
        self.ticks += self.pace;
        Duration::from_millis(self.ticks)
    }

    fn load_average(&mut self) -> Result<LoadAverage, String> {
        Err("unasked".to_string())
    }
}

fn keep(desk: &mut Desk, remembered: Remembered) {
    desk.stored = Some(StateFile { version: 1, memory: remembered.memory });
    desk.recorded = Some(Ok(NotifiedFile { version: 1, record: remembered.notified.record }));
}

#[test]
fn a_collection_finds_the_agent_and_the_stranded_work() {
    let mut desk = desk();
    let snapshot = collect(&mut desk, now(), &Thresholds::default()).expect("a snapshot");
    assert_eq!(snapshot.sessions.len(), 1);
    assert_eq!(snapshot.sessions[0].identity, Identity::Process { pid: 42 });
    assert_eq!(snapshot.sessions[0].liveness.state, State::Active);
    let stranded: Vec<&str> = snapshot
        .workspaces
        .iter()
        .filter(|one| one.state == WorkspaceState::DirtyStranded)
        .map(|one| one.path.as_str())
        .collect();
    assert_eq!(stranded, ["/work/two"]);
    assert_eq!(snapshot.remembered.persisted, Persistence::Stored);
    assert_eq!(desk.heard.len(), 1);
    assert!(desk.heard[0].contains("/work/two"), "{}", desk.heard[0]);
    assert_eq!(desk.questions[0], "processes");
    assert_eq!(desk.questions[1], "resources 42");
    assert_eq!(desk.questions[2], "sweep /work");
}

#[test]
fn what_was_heard_is_not_announced_again_until_it_ends_and_comes_back() {
    let thresholds = Thresholds::default();
    let mut desk = desk();
    let first = collect(&mut desk, now(), &thresholds).expect("a snapshot");
    keep(&mut desk, first.remembered);
    let second = collect(&mut desk, now(), &thresholds).expect("a snapshot");
    assert_eq!(desk.heard.len(), 1);
    desk.entries = 0;
    keep(&mut desk, second.remembered);
    let third = collect(&mut desk, now(), &thresholds).expect("a snapshot");
    desk.entries = 2;
    keep(&mut desk, third.remembered);
    collect(&mut desk, now(), &thresholds).expect("a snapshot");
    assert_eq!(desk.heard.len(), 2);
}

#[test]
fn what_nobody_heard_is_announced_again() {
    let thresholds = Thresholds::default();
    let mut desk = Desk { deaf: true, ..desk() };
    let first = collect(&mut desk, now(), &thresholds).expect("a snapshot");
    assert_eq!(first.remembered.notify_health.local_failed, 1);
    keep(&mut desk, first.remembered);
    collect(&mut desk, now(), &thresholds).expect("a snapshot");
    assert_eq!(desk.heard.len(), 2);
}

#[test]
fn a_lost_history_does_not_cost_the_record_of_announcements() {
    let thresholds = Thresholds::default();
    let mut desk = desk();
    let first = collect(&mut desk, now(), &thresholds).expect("a snapshot");
    assert_eq!(first.remembered.notified.rebuilt, Some(Rebuilt::NothingRecorded));
    assert_eq!(first.remembered.notified.record.workspaces.len(), 1);
    assert_eq!(first.remembered.memory.announcements, first.remembered.notified.record);
    assert_eq!(first.remembered.notified.persisted, Persistence::Stored);
    assert_eq!(desk.written, ["record", "history"]);
    keep(&mut desk, first.remembered);
    desk.stored = None;
    let second = collect(&mut desk, now(), &thresholds).expect("a snapshot");
    assert_eq!(second.remembered.notified.rebuilt, None);
    assert_eq!(desk.heard.len(), 1);
}

#[test]
fn a_lost_record_does_not_cost_the_history_and_suppresses_nothing() {
    let thresholds = Thresholds::default();
    let mut desk = desk();
    let first = collect(&mut desk, now(), &thresholds).expect("a snapshot");
    keep(&mut desk, first.remembered);
    desk.recorded = Some(Err("no brace".to_string()));
    desk.disk_full = true;
    let second = collect(&mut desk, now(), &thresholds).expect("a snapshot");
    assert!(second.remembered.unusable.is_none());
    assert_eq!(
        second.remembered.notified.rebuilt,
        Some(Rebuilt::Unparsable("no brace".to_string()))
    );
    assert_eq!(desk.heard.len(), 2);
    assert_eq!(
        second.remembered.notified.persisted,
        Persistence::Failed("no room".to_string())
    );
    assert_eq!(second.remembered.persisted, Persistence::Stored);
}

#[test]
fn a_display_announces_nothing_and_stores_nothing() {
    let mut desk = desk();
    let snapshot = collect_as(&mut desk, now(), &Thresholds::default(), Role::Display)
        .expect("a snapshot");
    assert!(matches!(
        snapshot.remembered.persisted,
        Persistence::NotAttempted { .. }
    ));
    assert_eq!((desk.heard.len(), desk.written.len()), (0, 0));
}

#[test]
fn a_snapshot_without_its_observer_is_not_believed() {
    let mut desk = Desk { observer_pid: 999, ..desk() };
    let error = collect(&mut desk, now(), &Thresholds::default()).expect_err("not believed");
    assert_eq!(error, CollectError::UntrustworthySnapshot { observer_pid: 999 });
    assert_eq!(
        error.to_text(),
        "process snapshot incomplete (observer 999 not in its own result)"
    );
    assert_eq!(desk.questions, ["processes"]);
}

fn pass(tier: Tier, observed: &Observed, mut desk: Desk) -> (Pass, TierFacts, Desk) {
    desk.questions.clear();
    run_pass(
        tier,
        observed,
        desk,
        now(),
        Duration::from_secs(9),
        &Thresholds::default(),
        Role::Monitor,
        &Budgets::standard(),
    )
}

fn all_passes(desk: Desk) -> (Observed, Vec<Pass>, Desk) {
    let mut observed = Observed::nothing();
    let mut passes = vec![];
    let mut desk = desk;
    for (at, tier) in [Tier::Fast, Tier::Medium, Tier::Slow].into_iter().enumerate() {
        let (ran, facts, after) = pass(tier, &observed, desk);
        observed.absorb(&ran, facts, at as u64 + 1);
        passes.push(ran);
        desk = after;
    }
    (observed, passes, desk)
}

#[test]
fn a_tier_asks_the_machine_only_for_its_own_facts() {
    let mut observed = Observed::nothing();
    let (ran, facts, desk) = pass(Tier::Fast, &observed, desk());
    assert_eq!(desk.questions, ["processes", "resources 42"]);
    assert_eq!(ran.completion, Completion::WithinBudget);
    assert_eq!(ran.snapshot.as_ref().unwrap().sessions.len(), 1);
    observed.absorb(&ran, facts, 1);
    assert!(!observed.every_tier_has_run());
    assert_eq!(observed.role(), Role::Display);

    let (ran, facts, desk) = pass(Tier::Medium, &observed, desk);
    assert_eq!(desk.questions, ["sweep /work"]);
    observed.absorb(&ran, facts, 2);

    let (ran, facts, desk) = pass(Tier::Slow, &observed, desk);
    assert_eq!(desk.questions.len(), 1, "{:?}", desk.questions);
    assert!(desk.questions[0].starts_with("facts "), "{:?}", desk.questions);
    observed.absorb(&ran, facts, 3);
    assert!(observed.every_tier_has_run());
    assert_eq!(observed.role(), Role::Monitor);
    assert_eq!(observed.stamp(Tier::Slow), Some(now()));
}

#[test]
fn a_tier_that_has_not_run_leaves_its_facts_unread() {
    let (ran, _, desk) = pass(Tier::Fast, &Observed::nothing(), desk());
    let snapshot = ran.snapshot.expect("a snapshot");
    assert!(snapshot
        .workspaces
        .iter()
        .all(|one| one.state == WorkspaceState::Unknown(Unreadable::NotYetRead)));
    assert!(desk.heard.is_empty());
}

#[test]
fn a_pass_that_failed_forgets_nothing() {
    let (mut observed, _, mut desk) = all_passes(desk());
    desk.observer_pid = 999;
    let (ran, facts, _) = pass(Tier::Fast, &observed, desk);
    assert!(ran.snapshot.is_err());
    observed.absorb(&ran, facts, 4);
    assert!(observed.medium.is_some() && observed.slow.is_some());
    assert!(observed.every_tier_has_run());
}

#[test]
fn a_pass_past_its_budget_says_so() {
    let (ran, _, desk) = run_pass(
        Tier::Fast,
        &Observed::nothing(),
        Desk { pace: 1_000_000, ..desk() },
        now(),
        Duration::from_secs(9),
        &Thresholds::default(),
        Role::Display,
        &Budgets::standard(),
    );
    assert!(ran.completion.overran());
    assert_eq!(ran.took, Duration::from_secs(1_000));
    assert!(desk.written.is_empty());
}

/// A state file in which every tier has published.
fn published() -> StateReading {
    let (observed, passes, _) = all_passes(desk());
    let mut state = TieredState::new(77);
    for (ran, tier) in passes.iter().zip([Tier::Fast, Tier::Medium, Tier::Slow]) {
        state.set_tier_data(tier, serde_json::Value::Null, stamp_for(ran, &observed));
    }
    let decode = |tier: Tier, _: &serde_json::Value| -> Result<Published, String> {
        Ok(match tier {
            Tier::Fast => {
                let report = Meter::default().report(
                    Duration::from_secs(9),
                    Pace::Active.name(),
                    &Budgets::standard(),
                );
                let launch = first_launch(now(), 77);
                Published::Fast(fast_payload(&passes[0], 1, &observed, report, &launch))
            }
            Tier::Medium => Published::Medium(medium_payload(&passes[1], 2, &observed)),
            Tier::Slow => Published::Slow(slow_payload(&passes[2], 3, &observed)),
        })
    };
    reading_of(&state, &decode)
}

fn found() -> PublishedReading {
    match published() {
        StateReading::Published(reading) => reading,
        _ => panic!("it is published"),
    }
}

fn later(seconds: i128) -> SystemTime {
    SystemTime { nanos: now().nanos + seconds * 1_000_000_000 }
}

#[test]
fn what_was_published_is_read_back() {
    let reading = found();
    assert_eq!(reading.writer_pid, 77);
    assert_eq!(reading.fast.sessions.len(), 1);
    assert_eq!(reading.fast.sessions[0].pid, Some(42));
    assert_eq!(reading.fast.sessions[0].children_cpu_ms.value, Some(2_000));
    let at_risk: Vec<&str> = reading
        .workspaces()
        .iter()
        .filter(|one| one.at_risk)
        .map(|one| one.path.as_str())
        .collect();
    assert!(at_risk.contains(&"/work/two"), "{at_risk:?}");
    let (medium, stamp) = reading.medium.as_ref().expect("the medium tier published");
    assert_eq!(medium.directories_visited, 3);
    assert_eq!(*stamp, now());
}

#[test]
fn a_reading_is_fresh_until_a_pass_is_missed_and_dead_without_its_writer() {
    let fresh = presence_of(&published(), later(1), Writer::of(77, true));
    assert!(matches!(fresh, Presence::Fresh { writer_pid: 77, .. }), "{}", fresh.label());
    assert!(fresh.trustworthy());
    let stale = presence_of(&published(), later(100_000), Writer::of(77, true));
    assert!(matches!(stale, Presence::Stale { .. }), "{}", stale.label());
    let dead = presence_of(&published(), later(1), Writer::of(77, false));
    assert!(matches!(dead, Presence::Dead { .. }), "{}", dead.label());
    assert!(!dead.trustworthy());
    let ages = ages_of(&found(), later(5));
    assert_eq!(ages.oldest_evidence(), Some(Duration::from_secs(5)));
    assert!(ages.overdue().is_empty());
}

#[test]
fn a_state_file_that_cannot_be_read_is_not_an_absent_one() {
    let decode = |_: Tier, _: &serde_json::Value| -> Result<Published, String> {
        Err("no such shape".to_string())
    };
    assert!(matches!(read_state_file(Ok(None), &decode), StateReading::Absent));
    assert!(matches!(
        read_state_file(Err("denied".to_string()), &decode),
        StateReading::Unusable(_)
    ));
    let mut state = TieredState::new(5);
    state.set_tier_data(Tier::Fast, serde_json::Value::Null, now());
    assert!(matches!(
        read_state_file(Ok(Some(state)), &decode),
        StateReading::Unusable(why) if why.contains("no such shape")
    ));
    let reading = read_state_file(Ok(Some(TieredState::new(5))), &decode);
    assert!(matches!(
        &reading,
        StateReading::Unrenderable { writer_pid: 5, why } if why == "it holds the writer role and \
            has completed no pass yet, so it has published no tier to draw from"
    ));
    let presence = presence_of(&reading, now(), Writer::of(5, true));
    assert!(matches!(presence, Presence::Absent(Absence::NothingPublished { writer_pid: 5, .. })));
}

#[test]
fn a_display_measures_what_its_own_collection_cost() {
    let mut desk = desk();
    let (snapshot, cost) = own_collection(
        &mut desk,
        now(),
        &Thresholds::default(),
    );
    assert_eq!(cost, Duration::from_millis(30));
    let snapshot = snapshot.expect("a snapshot");
    assert_eq!(live_sessions(&snapshot), 1);
    let row = session_row(&snapshot.sessions[0]);
    assert_eq!((row.state.as_str(), row.cli.as_str()), ("ACTIVE", FILER));
    assert_eq!((desk.heard.len(), desk.written.len()), (0, 0));

    assert_eq!(own_cpu(&mut desk, 42), Ok(Duration::from_secs(3)));
    assert!(Share { spent: Duration { nanos: 1 }, span: Duration::from_secs(1) }.within_budget());
}
