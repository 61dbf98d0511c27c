//! What this machine's answers mean: what is read out of the kernel, out of other programs and out of
//! files, once somebody has read it.

pub mod alerts;
pub mod codex;
pub mod files;
pub mod processes;
pub mod repositories;

use crate::deliver;
use crate::deliver::Bounds;
use crate::machtime::MachTimebase;
use crate::state::{DETECTORS_FILE, Kept, LEGACY_DIR, LEGACY_MEMORY_FILE, NOTIFY_CONFIG_FILE};
use crate::text;
use crate::time::Duration;
use vstd::prelude::*;

verus! {

/// How wide a line is where nobody says how wide it may be.
pub const NOT_A_TERMINAL: u16 = 120;

/// What a file is called in the complaint that nothing names it.
pub open spec fn complained_of(kept: Kept) -> Seq<char> {
    match kept {
        Kept::Memory => "state file"@,
        Kept::NotifyConfig => "notification configuration"@,
        Kept::Detectors => "detector configuration"@,
    }
}

/// What is said where neither a variable nor the home directory names a file.
pub open spec fn nameless(kept: Kept, why: Seq<char>) -> Seq<char> {
    "HOME is not readable, so "@ + kept.naming() + " must name the "@ + complained_of(kept)
        + " explicitly: "@ + why
}

/// Whether a variable names anything.
pub open spec fn names_something(explicit: Option<String>) -> bool {
    explicit is Some && text::trimmed(explicit->0@).len() > 0
}

/// Whether this is where a file is.
pub open spec fn is_path_of(
    path: Result<String, String>,
    kept: Kept,
    explicit: Option<String>,
    home: Result<String, String>,
) -> bool {
    match path {
        Ok(found) => if names_something(explicit) {
            Some(found) == explicit
        } else {
            home is Ok && found@ == text::child(
                text::child(home->Ok_0@, ".acmon"@),
                kept.older_file(),
            )
        },
        Err(why) => !names_something(explicit) && home is Err && why@ == nameless(kept, home->Err_0@),
    }
}

/// Where a file is: where its variable says, word for word, or else in the one directory under home.
pub fn path_of(kept: Kept, explicit: Option<String>, home: &Result<String, String>) -> (path: Result<
    String,
    String,
>)
    ensures
        is_path_of(path, kept, explicit, *home),
{
    if let Some(named) = explicit {
        if text::trim(&text::characters(named.as_str())).len() > 0 {
            return Ok(named);
        }
    }
    match home {
        Ok(at) => {
            let directory: String = text::child_path(at.as_str(), LEGACY_DIR);
            let name: &str = match kept {
                Kept::Memory => LEGACY_MEMORY_FILE,
                Kept::NotifyConfig => NOTIFY_CONFIG_FILE,
                Kept::Detectors => DETECTORS_FILE,
            };
            Ok(text::child_path(directory.as_str(), name))
        },
        Err(why) => {
            let what: &str = match kept {
                Kept::Memory => "state file",
                Kept::NotifyConfig => "notification configuration",
                Kept::Detectors => "detector configuration",
            };
            Err(
                String::from_str("HOME is not readable, so ").concat(kept.variable()).concat(
                    " must name the ",
                ).concat(what).concat(" explicitly: ").concat(why.as_str()),
            )
        },
    }
}

/// The variables of the environment that say where files are. What could not be read of `HOME` is why
/// not.
#[derive(Debug, PartialEq, Eq)]
pub struct Settings {
    pub state: Option<String>,
    pub notify_config: Option<String>,
    pub detectors: Option<String>,
    pub home: Result<String, String>,
}

/// Who asks this machine, and where it keeps what it stores.
#[derive(Debug, PartialEq, Eq)]
pub struct RealWorld {
    pub observer_pid: i32,
    pub timebase: MachTimebase,
    pub state_file: Result<String, String>,
    pub notify_config_file: Result<String, String>,
    pub detectors_file: Result<String, String>,
    pub notify_request_budget: Duration,
}

impl RealWorld {
    /// Files where the settings say, and ten seconds for a delivery.
    pub fn new(observer_pid: i32, timebase: MachTimebase, settings: Settings) -> (world: RealWorld)
        ensures
            world.observer_pid == observer_pid,
            world.timebase == timebase,
            is_path_of(world.state_file, Kept::Memory, settings.state, settings.home),
            is_path_of(
                world.notify_config_file,
                Kept::NotifyConfig,
                settings.notify_config,
                settings.home,
            ),
            is_path_of(world.detectors_file, Kept::Detectors, settings.detectors, settings.home),
            world.notify_request_budget == deliver::budget_of_a_request(),
    {
        RealWorld {
            observer_pid,
            timebase,
            state_file: path_of(Kept::Memory, settings.state, &settings.home),
            notify_config_file: path_of(
                Kept::NotifyConfig,
                settings.notify_config,
                &settings.home,
            ),
            detectors_file: path_of(Kept::Detectors, settings.detectors, &settings.home),
            notify_request_budget: deliver::request_budget(),
        }
    }

    /// The same, with the history in another file.
    pub fn with_state_file(self, path: String) -> (world: RealWorld)
        ensures
            world == (RealWorld { state_file: Ok(path), ..self }),
    {
        RealWorld { state_file: Ok(path), ..self }
    }

    /// The same, with the notification configuration in another file.
    pub fn with_notify_config(self, path: String) -> (world: RealWorld)
        ensures
            world == (RealWorld { notify_config_file: Ok(path), ..self }),
    {
        RealWorld { notify_config_file: Ok(path), ..self }
    }

    /// The same, with the detectors in another file.
    pub fn with_detectors(self, path: String) -> (world: RealWorld)
        ensures
            world == (RealWorld { detectors_file: Ok(path), ..self }),
    {
        RealWorld { detectors_file: Ok(path), ..self }
    }

    /// The same, with another budget for a delivery.
    pub fn with_notify_request_budget(self, budget: Duration) -> (world: RealWorld)
        ensures
            world == (RealWorld { notify_request_budget: budget, ..self }),
    {
        RealWorld { notify_request_budget: budget, ..self }
    }

    /// How much of everything a batch of alerts may use.
    pub fn notify_bounds(&self) -> (bounds: Bounds)
        ensures
            bounds == (Bounds {
                workers: deliver::CONCURRENCY,
                budget: self.notify_request_budget,
            }),
    {
        Bounds { workers: deliver::CONCURRENCY, budget: self.notify_request_budget }
    }
}

/// How wide a line may be, given what the terminal says and what `COLUMNS` holds.
pub open spec fn width_of(terminal: Option<u16>, columns: Option<&str>) -> u16 {
    if terminal is Some && terminal->0 > 0 {
        terminal->0
    } else if columns is Some {
        match text::natural(text::trimmed(columns->0@), u16::MAX as nat) {
            Ok(width) => if width > 0 {
                width as u16
            } else {
                NOT_A_TERMINAL
            },
            Err(_) => NOT_A_TERMINAL,
        }
    } else {
        NOT_A_TERMINAL
    }
}

/// How wide a line may be: as wide as the terminal, where there is one; as `COLUMNS` says, where it says
/// a width; and else wide enough for anything.
pub fn output_width(terminal: Option<u16>, columns: Option<&str>) -> (width: u16)
    ensures
        width == width_of(terminal, columns),
        width > 0,
{
    if let Some(width) = terminal {
        if width > 0 {
            return width;
        }
    }
    if let Some(value) = columns {
        if let Ok(width) = text::parse_up_to(
            &text::trim(&text::characters(value)),
            u16::MAX as u64,
        ) {
            if width > 0 {
                return width as u16;
            }
        }
    }
    NOT_A_TERMINAL
}

} // verus!
