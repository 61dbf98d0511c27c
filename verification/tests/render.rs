use acmon::collect::{Identity, Persistence, Remembered, Session, Snapshot, WorkspaceReport};
use acmon::display::{
    command_for, cost_of, in_cost_order, sessions_without_a_cost, Absence, Command, Cost, Facts,
    Key, Meters, Presence, Screen, TerminalEvent,
};
use acmon::liveness::{Method, State, Verdict};
use acmon::meter::Share;
use acmon::notify::{AnnouncedWorkspaceState, Rebuilt};
use acmon::render::body::{body_of, drawing_of, Body};
use acmon::render::footer::{footer_lines, identify, memory_lines};
use acmon::render::lines::{
    format_age, format_bytes, format_cpu, pack_parts, shorten_from_the_left, shorten_with_a_mark,
    wrap_words, Cell,
};
use acmon::render::panel::{at_risk_panel_content, panel_path_width, workspace_row};
use acmon::render::screen::{
    bar_of, fit, level_of, meter_row, no_facts_message, required_height, screen_header,
    screen_height, Fit, Level, BAR_WIDTH,
};
use acmon::render::table::{
    fixed_columns, minimum_width, row_for, state_cell, table_title, too_narrow_message,
    workspace_width,
};
use acmon::time::{Duration, SystemTime};
use acmon::vcs::{Unreadable, WorkspaceState};
use acmon::world::{ResourceSource, Resources, ResourcesUnavailable, Workspace};

fn session(pid: i32, seconds: u64) -> Session {
    Session {
        identity: Identity::Process { pid },
        cli: "codex".to_string(),
        resources: Ok(Resources {
            source: ResourceSource::Rusage,
            own_cpu: Ok(Duration::from_secs(1)),
            children_cpu: Ok(Duration::from_secs(seconds)),
            current_memory: Ok(2_000_000_000),
            peak_memory: Ok(3_000_000_000),
            bytes_written: Ok(4_000_000_000),
        }),
        last_reading: None,
        workspace: Ok(Workspace { path: "/work".to_string(), namespace: Ok("-work".to_string()) }),
        liveness: Verdict { state: State::Active, method: Method::TranscriptChangedRecently },
    }
}

fn report(path: &str, state: WorkspaceState, entries: Option<usize>) -> WorkspaceReport {
    WorkspaceReport {
        path: path.to_string(),
        state,
        linked_worktree: false,
        uncommitted_entries: entries,
    }
}

fn snapshot(sessions: usize) -> Snapshot {
    Snapshot {
        taken_at: SystemTime { nanos: 0 },
        sessions: (0..sessions).map(|at| session(at as i32 + 1, at as u64)).collect(),
        workspaces: vec![
            report("/few", WorkspaceState::DirtyStranded, Some(1)),
            report("/many", WorkspaceState::DirtyStranded, Some(27)),
            report("/unread", WorkspaceState::Unknown(Unreadable::TimedOut), None),
            report("/clean", WorkspaceState::Clean, Some(0)),
        ],
        unlocated: vec![],
        sweep_complete: true,
        remembered: Remembered::none(vec![]),
    }
}

fn screen(sessions: usize) -> Screen {
    Screen::from_own_collection(
        Presence::Absent(Absence::NoStateFile),
        Ok(snapshot(sessions)),
        Duration::from_millis(12),
        SystemTime { nanos: 0 },
    )
}

fn shown(screen: &Screen) -> &Snapshot {
    match &screen.facts {
        Facts::Own(snapshot) => snapshot,
        _ => panic!("the display's own figures"),
    }
}

#[test]
fn spans_are_shown_in_the_units_that_suit_them() {
    assert_eq!(format_age(Duration::from_secs(59)), "59s");
    assert_eq!(format_age(Duration::from_secs(61)), "1m01s");
    assert_eq!(format_age(Duration::from_secs(3_700)), "1h01m");
    assert_eq!(format_age(Duration::from_secs(90_000)), "1 day");
    assert_eq!(format_age(Duration::from_secs(180_000)), "2 days");
    assert_eq!(format_cpu(&Duration::from_millis(12_340)), "12.3s");
    assert_eq!(format_cpu(&Duration::from_secs(61)), "1m01s");
    assert_eq!(format_cpu(&Duration::from_secs(7_260)), "2h01m");
    assert!(matches!(
        format_bytes(1_500_000_000, true),
        Cell::Gigabytes { bytes: 1_500_000_000, marked: true }
    ));
}

#[test]
fn words_are_wrapped_and_never_lost() {
    assert_eq!(wrap_words("one two three", 8), vec!["one two", "three"]);
    assert_eq!(wrap_words("unbreakable", 4).concat(), "unbreakable");
    let parts = vec!["aa".to_string(), "bb".to_string(), "cc".to_string()];
    assert_eq!(pack_parts(&parts, "  ", 6), vec!["aa  bb", "cc"]);
}

#[test]
fn a_shortened_text_says_that_it_is() {
    assert_eq!(shorten_with_a_mark("abcdef", 6), "abcdef");
    let short = shorten_with_a_mark("abcdefg", 6);
    assert_eq!(short.chars().count(), 6);
    assert!(short.starts_with("abcde"), "{short}");
    let left = shorten_from_the_left("/a/long/path", 6);
    assert_eq!(left.chars().count(), 6);
    assert!(left.ends_with("/path"), "{left}");
}

#[test]
fn every_bar_is_of_one_width() {
    for level in [Level::Filled(0), Level::Filled(3), Level::Filled(10), Level::PastScale, Level::NoFigure] {
        assert_eq!(bar_of(level).chars().count(), bar_of(Level::Filled(0)).chars().count());
    }
    assert_ne!(bar_of(Level::Filled(BAR_WIDTH)), bar_of(Level::PastScale));
}

#[test]
fn something_is_never_shown_as_nothing() {
    let of = |spent: u128, span: u128| {
        level_of(&Share { spent: Duration { nanos: spent }, span: Duration { nanos: span } })
    };
    assert!(matches!(of(0, 1_000_000), Level::Filled(0)));
    assert!(matches!(of(1, 1_000_000), Level::Filled(1)));
    assert!(matches!(of(250_000, 1_000_000), Level::Filled(3)));
    assert!(matches!(of(1_000_000, 1_000_000), Level::Filled(10)));
    assert!(matches!(of(1_000_001, 1_000_000), Level::PastScale));
    assert!(matches!(of(1, 0), Level::NoFigure));
}

#[test]
fn the_meters_say_when_they_were_taken_and_why_one_is_missing() {
    let meters = Meters::for_own_collection(
        &Absence::NoStateFile,
        Duration::from_millis(12),
        SystemTime { nanos: 1_000_000_000 },
    );
    let lines = meter_row(&meters, "", 120);
    assert_eq!(lines[0], "METERS as of 1970-01-01T00:00:01Z");
    assert_eq!(
        lines[1],
        "collection overhead[|             0.0s]  amon duty cycle    [??????????  absent]"
    );
    assert_eq!(
        lines[2],
        "amon duty cycle: no monitor is recording, so there is none to meter"
    );
    for line in meter_row(&meters, "", 30) {
        assert!(line.chars().count() <= 30, "{line}");
    }
}

#[test]
fn a_row_of_the_panel_names_the_loss() {
    let row = workspace_row(&report("/w", WorkspaceState::DirtyStranded, Some(3)), 20);
    assert!(row.ends_with(" primary  /w"), "{row}");
    assert!(row.contains(" 3 "), "{row}");
    let unread = workspace_row(&report("/w", WorkspaceState::Unknown(Unreadable::TimedOut), None), 20);
    assert!(!unread.contains(" 0 "), "{unread}");
    assert!(panel_path_width(80) > panel_path_width(60));
}

#[test]
fn the_largest_loss_comes_first_in_the_panel() {
    let (_, rows, summary) = at_risk_panel_content(&snapshot(0), 100);
    assert_eq!(rows.len(), 3, "{rows:?}");
    assert!(rows[0].ends_with("/many"), "{rows:?}");
    assert!(rows[1].ends_with("/few"), "{rows:?}");
    assert!(rows[2].ends_with("/unread"), "{rows:?}");
    assert!(!summary.is_empty());
}

#[test]
fn a_panel_with_nothing_in_it_still_says_so() {
    let mut calm = snapshot(0);
    calm.workspaces = vec![report("/clean", WorkspaceState::Clean, Some(0))];
    let (_, rows, summary) = at_risk_panel_content(&calm, 100);
    assert!(rows.is_empty());
    assert!(!summary.is_empty());
}

#[test]
fn a_narrow_terminal_is_refused_in_words() {
    assert_eq!(fixed_columns().len(), 8);
    let width = minimum_width();
    assert_eq!(
        too_narrow_message(40),
        format!(
            "acmon needs {width} columns to print these numbers without truncating them; this \
             terminal has 40. Widen it — a truncated CPU total is a plausible wrong answer, so \
             none is printed."
        )
    );
    assert!(workspace_width(width + 5) > workspace_width(width));
}

#[test]
fn a_row_of_the_table_has_a_cell_for_each_column() {
    let one = session(42, 61);
    let cells = row_for(&one, 20);
    assert_eq!(cells.len(), fixed_columns().len() + 1);
    assert!(cells.iter().any(|cell| matches!(cell, Cell::Text(words) if words == "1m01s")));
    assert!(cells.iter().any(|cell| matches!(cell, Cell::Gigabytes { bytes: 3_000_000_000, .. })));
    assert!(state_cell(&one).contains("ACTIVE"), "{}", state_cell(&one));
    assert!(identify(&one).contains("42"), "{}", identify(&one));
    assert_eq!(
        table_title(3, 1, 2),
        " acmon — 3 agent session(s), most child CPU first — 1 shown "
    );
    assert_eq!(table_title(3, 3, 0), " acmon — 3 agent session(s), most child CPU first ");
}

#[test]
fn a_missing_cost_comes_first_and_then_the_costliest() {
    let mut sessions = vec![session(1, 5), session(2, 0), session(3, 50)];
    sessions[1].resources = Err(ResourcesUnavailable::ProcessExited);
    let order: Vec<i32> = in_cost_order(&sessions)
        .iter()
        .map(|one| match one.identity {
            Identity::Process { pid } => pid,
            _ => 0,
        })
        .collect();
    assert_eq!(order, vec![2, 3, 1]);
    assert!(matches!(cost_of(&sessions[1]), Cost::Unmeasurable(_)));
    assert_eq!(sessions_without_a_cost(&sessions), 1);
}

#[test]
fn everything_fits_where_there_is_room_for_it() {
    let screen = screen(3);
    let rows = screen_height(&screen, "", 120);
    assert!(rows > required_height(shown(&screen), 120));
    let roomy = fit(&screen, shown(&screen), "", 120, rows);
    assert_eq!((roomy.table, roomy.shown, roomy.hidden), (true, 3, 0));
    assert!(roomy.notice.is_empty());
}

#[test]
fn no_session_is_left_out_in_silence() {
    let screen = screen(30);
    for height in [0, 5, 10, 20, 30, 40] {
        let fit = fit(&screen, shown(&screen), "", 120, height);
        assert_eq!(fit.shown + fit.hidden, 30);
        if fit.hidden > 0 {
            assert!(fit.notice.concat().contains(&fit.hidden.to_string()), "{:?}", fit.notice);
        }
    }
}

#[test]
fn the_panel_is_drawn_even_where_the_table_is_not() {
    let all = snapshot(2);
    match body_of(&all, &Fit::everything(2), 120) {
        Body::Parts(parts) => {
            assert!(parts.table.is_some());
            assert!(parts.panel.len() >= 3, "{:?}", parts.panel);
        }
        Body::Message(words) => panic!("{words:?}"),
    }
    let bare = Fit { table: false, shown: 0, hidden: 2, notice: vec!["cut".to_string()] };
    match body_of(&all, &bare, 120) {
        Body::Parts(parts) => {
            assert!(parts.table.is_none());
            assert!(parts.panel.len() >= 3, "{:?}", parts.panel);
        }
        Body::Message(words) => panic!("{words:?}"),
    }
}

#[test]
fn figures_that_are_missing_are_explained() {
    let message = no_facts_message("the disk is gone");
    assert!(message.contains("the disk is gone"), "{message}");
    let empty = Screen::from_own_collection(
        Presence::Absent(Absence::NoStateFile),
        Err("the disk is gone".to_string()),
        Duration::from_millis(1),
        SystemTime { nanos: 0 },
    );
    assert!(empty.facts.are_absent());
    let drawing = drawing_of(&empty, "", 120, 40);
    match drawing.body {
        Body::Message(lines) => {
            assert!(lines.join(" ").contains("the disk is gone"), "{lines:?}")
        }
        Body::Parts(_) => panic!("there is nothing to draw"),
    }
    assert_eq!(drawing.header, screen_header(&empty, "", 120));
}

#[test]
fn what_a_run_could_not_do_is_said_below_the_figures() {
    let all = snapshot(1);
    let memory = memory_lines(&all.remembered, 100);
    let footer = footer_lines(&all, 100);
    for line in memory.iter().chain(footer.iter()) {
        assert!(line.chars().count() <= 100, "{line}");
    }
    assert!(!footer.is_empty());
}

#[test]
fn a_record_begun_anew_says_what_that_cost() {
    let mut remembered = Remembered::none(vec![]);
    remembered.notified.rebuilt = Some(Rebuilt::NothingRecorded);
    assert!(memory_lines(&remembered, 400).is_empty());
    let stranded = ("/w".to_string(), AnnouncedWorkspaceState::DirtyStranded);
    remembered.notified.record.workspaces.push(stranded);
    let said = memory_lines(&remembered, 400);
    assert_eq!(said.len(), 1, "{said:?}");
    assert!(said[0].contains("so 1 condition(s) still true were announced again"), "{said:?}");
    remembered.notified.rebuilt = Some(Rebuilt::Unreadable("denied".to_string()));
    remembered.notified.persisted = Persistence::Failed("no room".to_string());
    let said = memory_lines(&remembered, 400);
    assert!(said[0].contains("NOTHING was deduped this run"), "{said:?}");
    assert!(said[1].starts_with("WARNING: no room"), "{said:?}");
}

#[test]
fn keys_are_commands() {
    let pressed = |key: Key, control: bool| TerminalEvent::Key { key, control, pressed: true };
    let released = TerminalEvent::Key { key: Key::Character('q'), control: false, pressed: false };
    assert!(matches!(command_for(&released), Command::Ignore));
    assert!(matches!(command_for(&pressed(Key::Character('q'), false)), Command::Quit));
    assert!(matches!(command_for(&pressed(Key::Character('c'), true)), Command::Quit));
    assert!(matches!(command_for(&pressed(Key::Character('c'), false)), Command::Ignore));
    assert!(matches!(command_for(&TerminalEvent::Resized), Command::Redraw));
    assert!(matches!(command_for(&TerminalEvent::Other), Command::Ignore));
}
