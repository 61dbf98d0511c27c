//! The two command lines.

use crate::text;
use vstd::prelude::*;

verus! {

/// What the monitor can be told to do.
#[derive(Debug, Clone, Copy, PartialEq, Eq, Structural)]
pub enum AmonVerb {
    Watch,
    Install,
    Uninstall,
    Status,
    Probe,
    Report,
}

/// Whether a verb does anything.
#[derive(Debug, Clone, Copy, PartialEq, Eq)]
pub enum VerbState {
    Available,
    Planned { tracked_as: &'static str },
    Partial { built: &'static str, tracked_as: &'static str },
}

impl AmonVerb {
    /// Every verb, in the order they are listed.
    pub open spec fn verbs() -> Seq<AmonVerb> {
        seq![
            AmonVerb::Watch,
            AmonVerb::Install,
            AmonVerb::Uninstall,
            AmonVerb::Status,
            AmonVerb::Probe,
            AmonVerb::Report,
        ]
    }

    /// Every verb, in the order they are listed.
    pub fn all() -> (verbs: [AmonVerb; 6])
        ensures
            verbs@ == AmonVerb::verbs(),
    {
        [
            AmonVerb::Watch,
            AmonVerb::Install,
            AmonVerb::Uninstall,
            AmonVerb::Status,
            AmonVerb::Probe,
            AmonVerb::Report,
        ]
    }

    /// What the verb is called.
    pub open spec fn word(self) -> Seq<char> {
        match self {
            AmonVerb::Watch => "watch"@,
            AmonVerb::Install => "install"@,
            AmonVerb::Uninstall => "uninstall"@,
            AmonVerb::Status => "status"@,
            AmonVerb::Probe => "probe"@,
            AmonVerb::Report => "report"@,
        }
    }

    /// What the verb is called.
    pub fn name(&self) -> (name: &'static str)
        ensures
            name@ == self.word(),
    {
        match self {
            AmonVerb::Watch => "watch",
            AmonVerb::Install => "install",
            AmonVerb::Uninstall => "uninstall",
            AmonVerb::Status => "status",
            AmonVerb::Probe => "probe",
            AmonVerb::Report => "report",
        }
    }

    /// What the verb is for.
    pub open spec fn purpose(self) -> Seq<char> {
        match self {
            AmonVerb::Watch =>
                "Collect on every tier, write state, notify. Resident; the sole writer."@,
            AmonVerb::Install =>
                "Write and load the LaunchAgent, so alerts fire with no terminal open."@,
            AmonVerb::Uninstall => "Unload and remove the LaunchAgent."@,
            AmonVerb::Status =>
                "Report whether the job is loaded, a process is running, and the last write's age."@,
            AmonVerb::Probe => "Measure this machine's own tax. One shot, holds no state."@,
            AmonVerb::Report => "Render a measured profile as findings. One shot."@,
        }
    }

    /// What the verb is for.
    pub fn summary(&self) -> (summary: &'static str)
        ensures
            summary@ == self.purpose(),
    {
        match self {
            AmonVerb::Watch => {
                "Collect on every tier, write state, notify. Resident; the sole writer."
            },
            AmonVerb::Install => {
                "Write and load the LaunchAgent, so alerts fire with no terminal open."
            },
            AmonVerb::Uninstall => "Unload and remove the LaunchAgent.",
            AmonVerb::Status => {
                "Report whether the job is loaded, a process is running, and the last write's age."
            },
            AmonVerb::Probe => "Measure this machine's own tax. One shot, holds no state.",
            AmonVerb::Report => "Render a measured profile as findings. One shot.",
        }
    }

    /// Whether the verb does anything: all but the last two do.
    pub open spec fn standing(self) -> VerbState {
        match self {
            AmonVerb::Probe | AmonVerb::Report => VerbState::Planned { tracked_as: "v2" },
            _ => VerbState::Available,
        }
    }

    /// Whether the verb does anything: all but the last two do.
    pub fn state(&self) -> (state: VerbState)
        ensures
            state == self.standing(),
    {
        match self {
            AmonVerb::Watch => VerbState::Available,
            AmonVerb::Install | AmonVerb::Uninstall | AmonVerb::Status => VerbState::Available,
            AmonVerb::Probe | AmonVerb::Report => VerbState::Planned { tracked_as: "v2" },
        }
    }

    /// The verb that is called this, if one is.
    pub fn from_name(name: &str) -> (verb: Option<AmonVerb>)
        ensures
            match verb {
                Some(found) => found.word() == name@,
                None => forall|other: AmonVerb| #[trigger] other.word() != name@,
            },
    {
        let all = AmonVerb::all();
        let mut next: usize = 0;
        while next < 6
            invariant
                next <= 6,
                all@ == AmonVerb::verbs(),
                forall|i: int|
                    0 <= i < next ==> (#[trigger] AmonVerb::verbs()[i]).word() != name@,
            decreases 6 - next,
        {
            if text::same(all[next].name(), name) {
                return Some(all[next]);
            }
            next += 1;
        }
        assert forall|other: AmonVerb| #[trigger] other.word() != name@ by {
            let at: int = match other {
                AmonVerb::Watch => 0,
                AmonVerb::Install => 1,
                AmonVerb::Uninstall => 2,
                AmonVerb::Status => 3,
                AmonVerb::Probe => 4,
                AmonVerb::Report => 5,
            };
            assert(AmonVerb::verbs()[at] == other);
            assert(AmonVerb::verbs()[at].word() != name@);
        }
        None
    }
}

/// No two verbs are called the same, so a name leads to the verb it came from.
pub proof fn law_a_verb_is_found_by_its_name(one: AmonVerb, other: AmonVerb)
    requires
        one.word() == other.word(),
    ensures
        one == other,
{
    reveal_strlit("watch");
    reveal_strlit("install");
    reveal_strlit("uninstall");
    reveal_strlit("status");
    reveal_strlit("probe");
    reveal_strlit("report");
    assert("watch"@[0] == 'w' && "probe"@[0] == 'p' && "status"@[0] == 's' && "report"@[0] == 'r');
    assert("watch"@.len() == 5 && "probe"@.len() == 5 && "status"@.len() == 6 && "report"@.len()
        == 6 && "install"@.len() == 7 && "uninstall"@.len() == 9);
}

/// The flag that keeps `watch` in the terminal.
pub const FOREGROUND_FLAG: &'static str = "--foreground";

/// What the monitor was asked to do.
#[derive(Debug, Clone, Copy, PartialEq, Eq, Structural)]
pub enum AmonRequest {
    Help,
    Verb { verb: AmonVerb, foreground: bool },
}

/// Why a command line could not be followed.
#[derive(Debug, PartialEq, Eq)]
pub enum CliError {
    NoVerb,
    UnknownVerb(String),
    FlagNotValidFor { flag: String, verb: AmonVerb },
    UnexpectedArgument(String),
}

impl CliError {
    /// The error in words.
    pub open spec fn words(self) -> Seq<char> {
        match self {
            CliError::NoVerb => "no verb given"@,
            CliError::UnknownVerb(name) => "unknown verb `"@ + name@ + "`"@,
            CliError::FlagNotValidFor { flag, verb } => "`"@ + flag@ + "` is not a flag `"@
                + verb.word() + "` takes"@,
            CliError::UnexpectedArgument(argument) => "unexpected argument `"@ + argument@ + "`"@,
        }
    }

    /// The error in words.
    pub fn to_text(&self) -> (words: String)
        ensures
            words@ == self.words(),
    {
        match self {
            CliError::NoVerb => String::from_str("no verb given"),
            CliError::UnknownVerb(name) => String::from_str("unknown verb `").concat(
                name.as_str(),
            ).concat("`"),
            CliError::FlagNotValidFor { flag, verb } => String::from_str("`").concat(
                flag.as_str(),
            ).concat("` is not a flag `").concat(verb.name()).concat("` takes"),
            CliError::UnexpectedArgument(argument) => String::from_str(
                "unexpected argument `",
            ).concat(argument.as_str()).concat("`"),
        }
    }
}

/// The first argument behind a verb that it does not take, by position.
pub open spec fn first_unfit(arguments: Seq<String>, verb: AmonVerb, from: int) -> Option<int>
    decreases arguments.len() - from,
{
    if from >= arguments.len() {
        None
    } else if arguments[from]@ == "--foreground"@ && verb == AmonVerb::Watch {
        first_unfit(arguments, verb, from + 1)
    } else {
        Some(from)
    }
}

/// Whether this is what the monitor's command line asks for.
pub open spec fn is_amon_request(request: Result<AmonRequest, CliError>, arguments: Seq<String>) -> bool {
    let given = arguments;
    match request {
        Ok(AmonRequest::Help) => given.len() > 0 && (given[0]@ == "--help"@ || given[0]@
            == "-h"@),
        Ok(AmonRequest::Verb { verb, foreground }) => {
            &&& given.len() > 0
            &&& given[0]@ != "--help"@
            &&& given[0]@ != "-h"@
            &&& verb.word() == given[0]@
            &&& first_unfit(given, verb, 1) is None
            &&& foreground == (given.len() > 1)
        },
        Err(CliError::NoVerb) => given.len() == 0,
        Err(CliError::UnknownVerb(name)) => {
            &&& given.len() > 0
            &&& name == given[0]
            &&& given[0]@ != "--help"@
            &&& given[0]@ != "-h"@
            &&& forall|verb: AmonVerb| #[trigger] verb.word() != given[0]@
        },
        Err(CliError::FlagNotValidFor { flag, verb }) => {
            &&& given.len() > 0
            &&& given[0]@ != "--help"@
            &&& given[0]@ != "-h"@
            &&& verb.word() == given[0]@
            &&& first_unfit(given, verb, 1) matches Some(at) && flag == given[at] && flag@
                == "--foreground"@ && verb != AmonVerb::Watch
        },
        Err(CliError::UnexpectedArgument(argument)) => {
            &&& given.len() > 0
            &&& given[0]@ != "--help"@
            &&& given[0]@ != "-h"@
            &&& exists|verb: AmonVerb|
                {
                    &&& #[trigger] verb.word() == given[0]@
                    &&& first_unfit(given, verb, 1) matches Some(at) && argument
                        == given[at] && argument@ != "--foreground"@
                }
        },
    }
}

/// Reads the monitor's command line: a request for help, or a verb and what it takes. Only `watch`
/// takes anything, and only the foreground flag. The first argument that does not fit is the one
/// reported.
pub fn parse_amon(arguments: Vec<String>) -> (request: Result<AmonRequest, CliError>)
    ensures
        is_amon_request(request, arguments@),
{
    if arguments.len() == 0 {
        return Err(CliError::NoVerb);
    }
    let first: &String = &arguments[0];
    if text::same(first.as_str(), "--help") || text::same(first.as_str(), "-h") {
        return Ok(AmonRequest::Help);
    }
    let verb: AmonVerb = match AmonVerb::from_name(first.as_str()) {
        Some(verb) => verb,
        None => {
            return Err(CliError::UnknownVerb(first.clone()));
        },
    };
    let mut foreground: bool = false;
    let mut next: usize = 1;
    while next < arguments.len()
        invariant
            1 <= next <= arguments@.len(),
            verb.word() == arguments@[0]@,
            arguments@[0]@ != "--help"@,
            arguments@[0]@ != "-h"@,
            foreground == (next > 1),
            first_unfit(arguments@, verb, 1) == first_unfit(arguments@, verb, next as int),
        decreases arguments@.len() - next,
    {
        let argument: &String = &arguments[next];
        if text::same(argument.as_str(), "--foreground") {
            if verb == AmonVerb::Watch {
                foreground = true;
            } else {
                return Err(CliError::FlagNotValidFor { flag: argument.clone(), verb });
            }
        } else {
            return Err(CliError::UnexpectedArgument(argument.clone()));
        }
        next += 1;
    }
    Ok(AmonRequest::Verb { verb, foreground })
}

/// What the usage text says before the verbs.
pub const AMON_USAGE_HEAD: &'static str = "amon — the monitor. Measures, records and notifies; it never draws.\n\
     \n\
     USAGE\n\
     \x20   amon <verb>\n\
     \x20   amon --help\n\
     \n\
     VERBS\n";

/// What the usage text says after the verbs.
pub const AMON_USAGE_TAIL: &'static str = "\n\
     FLAGS\n\
     \x20   --foreground  Run `watch` in this terminal rather than under launchd, for\n\
     \x20                 debugging. Still subject to the single-writer lock: two writers\n\
     \x20                 is two writers regardless of intent, so a second `amon watch`\n\
     \x20                 is refused here too. `amon status` and the log are how you\n\
     \x20                 watch the resident one work.\n\
     \n\
     WHAT IT WRITES, AND WHERE\n\
     \x20   Config     ~/.config/acmon/          detectors.toml, notify.toml\n\
     \x20                                        Read, never written. Yours to keep in\n\
     \x20                                        dotfiles.\n\
     \x20   State      ~/.local/state/acmon/     state.json, memory.json, notified.json,\n\
     \x20                                        starts.jsonl, watch.lock, amon.log\n\
     \x20                                        Deleting it loses history and nothing else.\n\
     \x20   LaunchAgent\n\
     \x20              ~/Library/LaunchAgents/io.github.pmcfadin.acmon.plist\n\
     \n\
     \x20   ACMON_CONFIG_DIR and ACMON_STATE_DIR move those two directories, and between\n\
     \x20   them they move everything a run touches. ACMON_DETECTORS, ACMON_NOTIFY_CONFIG\n\
     \x20   and ACMON_STATE still name those three files outright.\n\
     \n\
     \x20   Earlier builds kept all of it in one ~/.acmon/. Nothing is migrated behind your\n\
     \x20   back: a file still there is READ from there while the new location has none,\n\
     \x20   and the run says on screen that it did. The remembered history is written to\n\
     \x20   ~/.local/state/acmon/memory.json from then on, so it carries itself across; the\n\
     \x20   old ~/.acmon/ is left exactly as it is and can be deleted by hand once you are\n\
     \x20   satisfied. Nothing under ~/.acmon/ is ever written.\n\
     \n\
     \x20   That plist is the ONLY file this tool writes outside those two directories,\n\
     \x20   and `amon install` is the only thing that writes it. It says the path before\n\
     \x20   creating it, verifies with launchd that the job actually loaded, and undoes\n\
     \x20   its own plist if it did not — a plist with no job is a machine that is\n\
     \x20   unmonitored today and monitored after the next login, with nothing on disk to\n\
     \x20   say which. `amon uninstall` unloads the job and removes the file.\n\
     \x20   No `sudo`: a per-user LaunchAgent needs none.\n\
     \n\
     The display is a separate binary, `agtop`. If it measures, it is amon; if it draws,\n\
     it is agtop.\n";

impl VerbState {
    /// What is put behind the summary of a verb in this state.
    pub open spec fn note(self) -> Seq<char> {
        match self {
            VerbState::Available => Seq::empty(),
            VerbState::Planned { tracked_as } => "  (not built yet — "@ + tracked_as@ + ")"@,
            VerbState::Partial { built, tracked_as } => "  (has "@ + built@ + "; still not usable — "@
                + tracked_as@ + ")"@,
        }
    }

    /// What is put behind the summary of a verb in this state.
    pub fn marker(&self) -> (words: String)
        ensures
            words@ == self.note(),
    {
        match self {
            VerbState::Available => String::new(),
            VerbState::Planned { tracked_as } => String::from_str("  (not built yet — ").concat(
                *tracked_as,
            ).concat(")"),
            VerbState::Partial { built, tracked_as } => String::from_str("  (has ").concat(
                *built,
            ).concat("; still not usable — ").concat(*tracked_as).concat(")"),
        }
    }
}

/// How long the longest name of these verbs is.
pub open spec fn longest_name(verbs: Seq<AmonVerb>) -> nat
    decreases verbs.len(),
{
    if verbs.len() == 0 {
        0
    } else if verbs.last().word().len() > longest_name(verbs.drop_last()) {
        verbs.last().word().len()
    } else {
        longest_name(verbs.drop_last())
    }
}

/// The usage text's line for a verb.
pub open spec fn verb_line(verb: AmonVerb, width: nat) -> Seq<char> {
    "    "@ + text::filled_right(verb.word(), width) + "  "@ + verb.purpose() + verb.standing().note()
        + "\n"@
}

/// The usage text's lines for these verbs.
pub open spec fn verb_lines(verbs: Seq<AmonVerb>, width: nat) -> Seq<char>
    decreases verbs.len(),
{
    if verbs.len() == 0 {
        Seq::empty()
    } else {
        verb_lines(verbs.drop_last(), width) + verb_line(verbs.last(), width)
    }
}

/// How the monitor is used: every verb with what it is for, in columns, between the two texts round
/// them.
pub fn amon_usage() -> (usage: String)
    ensures
        usage@ == AMON_USAGE_HEAD@ + verb_lines(
            AmonVerb::verbs(),
            longest_name(AmonVerb::verbs()),
        ) + AMON_USAGE_TAIL@,
{
    let all = AmonVerb::all();
    let ghost verbs = AmonVerb::verbs();
    let mut width: usize = 0;
    let mut next: usize = 0;
    assert(verbs.take(0) =~= Seq::empty());
    while next < 6
        invariant
            next <= 6,
            all@ == verbs,
            verbs.len() == 6,
            width == longest_name(verbs.take(next as int)),
        decreases 6 - next,
    {
        assert(verbs.take(next + 1).drop_last() =~= verbs.take(next as int));
        let length: usize = all[next].name().unicode_len();
        if length > width {
            width = length;
        }
        next += 1;
    }
    assert(verbs.take(6) =~= verbs);
    let mut lines: String = String::new();
    next = 0;
    assert(verbs.take(0) =~= Seq::empty());
    while next < 6
        invariant
            next <= 6,
            all@ == verbs,
            verbs.len() == 6,
            lines@ == verb_lines(verbs.take(next as int), width as nat),
        decreases 6 - next,
    {
        assert(verbs.take(next + 1).drop_last() =~= verbs.take(next as int));
        let verb: AmonVerb = all[next];
        let line: String = String::from_str("    ").concat(
            text::pad_right(verb.name(), width).as_str(),
        ).concat("  ").concat(verb.summary()).concat(verb.state().marker().as_str()).concat("\n");
        lines = lines.concat(line.as_str());
        next += 1;
    }
    String::from_str(AMON_USAGE_HEAD).concat(lines.as_str()).concat(AMON_USAGE_TAIL)
}

/// What the display was asked to do.
#[derive(Debug, Clone, Copy, PartialEq, Eq, Structural)]
pub enum AgtopRequest {
    Help,
    Live,
    Once,
}

/// The flag that makes the display draw once.
pub const ONCE_FLAG: &'static str = "--once";

/// The first argument that decides the display's command line: anything but the once flag.
pub open spec fn first_decisive(arguments: Seq<String>, from: int) -> Option<int>
    decreases arguments.len() - from,
{
    if from >= arguments.len() {
        None
    } else if arguments[from]@ == "--once"@ {
        first_decisive(arguments, from + 1)
    } else {
        Some(from)
    }
}

/// Whether this is what the display's command line asks for.
pub open spec fn is_agtop_request(request: Result<AgtopRequest, CliError>, arguments: Seq<String>) -> bool {
    match first_decisive(arguments, 0) {
        None => request == Ok::<AgtopRequest, CliError>(
            if arguments.len() == 0 {
                AgtopRequest::Live
            } else {
                AgtopRequest::Once
            },
        ),
        Some(at) => if arguments[at]@ == "--help"@ || arguments[at]@ == "-h"@ {
            request == Ok::<AgtopRequest, CliError>(AgtopRequest::Help)
        } else {
            request == Err::<AgtopRequest, CliError>(
                CliError::UnexpectedArgument(arguments[at]),
            )
        },
    }
}

/// Reads the display's command line. The first argument that is not the once flag decides: a request
/// for help, or an error.
pub fn parse_agtop(arguments: Vec<String>) -> (request: Result<AgtopRequest, CliError>)
    ensures
        is_agtop_request(request, arguments@),
{
    proof {
        reveal_strlit("--help");
        reveal_strlit("-h");
        reveal_strlit("--once");
        assert("--help"@[2] == 'h' && "--once"@[2] == 'o' && "-h"@.len() == 2 && "--once"@.len() == 6);
    }
    let mut request: AgtopRequest = AgtopRequest::Live;
    let mut next: usize = 0;
    while next < arguments.len()
        invariant
            next <= arguments@.len(),
            request == (if next == 0 {
                AgtopRequest::Live
            } else {
                AgtopRequest::Once
            }),
            first_decisive(arguments@, 0) == first_decisive(arguments@, next as int),
            "--help"@ != "--once"@,
            "-h"@ != "--once"@,
        decreases arguments@.len() - next,
    {
        let argument: &String = &arguments[next];
        if text::same(argument.as_str(), "--help") || text::same(argument.as_str(), "-h") {
            return Ok(AgtopRequest::Help);
        }
        if text::same(argument.as_str(), "--once") {
            request = AgtopRequest::Once;
        } else {
            return Err(CliError::UnexpectedArgument(argument.clone()));
        }
        next += 1;
    }
    Ok(request)
}

/// How the display is used.
pub const AGTOP_USAGE: &'static str = "agtop — the display. Draws; it never measures, records or notifies.\n\
     \n\
     USAGE\n\
     \x20   agtop           Full screen, refreshing while it is open.\n\
     \x20   agtop --once    One pass as plain lines, then exit. Pipeable.\n\
     \x20   agtop --help\n\
     \n\
     Polls the state file `amon` writes and renders it. It is read-only: it writes no\n\
     state and sends no notification, because a notification from a foreground UI is\n\
     redundant with looking at it, and a second writer would undo the single-writer\n\
     guarantee the split rests on.\n\
     \n\
     With nothing published it collects once for itself and says, on screen, that\n\
     nothing is being recorded or alerted.\n\
     \n\
     There are no keybindings but the ones that leave — q, Esc, Ctrl-C. Sorting is\n\
     fixed: an interactive display invites the keystroke that kills a process, and this\n\
     tool never signals an agent.\n\
     \n\
     The monitor is a separate binary, `amon`. If it measures, it is amon; if it draws,\n\
     it is agtop.\n";

/// How the display is used.
pub fn agtop_usage() -> (usage: String)
    ensures
        usage@ == AGTOP_USAGE@,
{
    String::from_str(AGTOP_USAGE)
}

} // verus!
