//! Installing and removing the LaunchAgent, one step at a time.
//!
//! Files and launchd are somebody else's to touch. Each step here takes what the last task came to and
//! gives what to tell the user and what to do next, until there is an outcome.

use crate::cli::{AmonVerb, VerbState};
use crate::launchd;
use crate::launchd::{Job, JobFacts, JobQuery};
use crate::state::Paths;
use crate::text;
use vstd::prelude::*;

verus! {

/// What is to be installed, and where.
#[derive(Debug, PartialEq, Eq)]
pub struct Install {
    pub launch_agents_dir: String,
    pub job: Job,
    pub launchctl_override: Option<String>,
}

/// Whether this is the installation that is asked for.
pub open spec fn is_request(
    install: Result<Install, String>,
    program: Result<String, String>,
    paths: Result<Paths, String>,
    agents: Result<String, String>,
    environment: Vec<(String, String)>,
    launchctl: Option<String>,
) -> bool {
    match (program, paths, agents) {
        (Err(why), _, _) => install matches Err(said) && said@
            == "this binary's own path could not be resolved ("@ + why@
            + "), and the plist has to name it absolutely"@,
        (Ok(_), Err(why), _) => install == Err::<Install, String>(why),
        (Ok(_), Ok(_), Err(why)) => install == Err::<Install, String>(why),
        (Ok(binary), Ok(found), Ok(directory)) => {
            &&& install matches Ok(request)
            &&& request.launch_agents_dir == directory
            &&& request.launchctl_override == launchctl
            &&& request.job.label@ == launchd::LABEL@
            &&& request.job.program@ == binary@
            &&& text::texts(request.job.arguments@) == seq!["watch"@]
            &&& request.job.log@ == text::child(found.state@, launchd::LOG_FILE@)
            &&& request.job.environment == environment
        },
    }
}

impl Install {
    /// Where the plist belongs.
    pub open spec fn place(self) -> Seq<char> {
        text::child(self.launch_agents_dir@, self.job.label@ + ".plist"@)
    }

    /// Where the plist belongs.
    pub fn plist_path(&self) -> (path: String)
        ensures
            path@ == self.place(),
    {
        text::child_path(
            self.launch_agents_dir.as_str(),
            self.job.label.clone().concat(".plist").as_str(),
        )
    }

    /// The monitor's own installation, from what this process knows of itself. The first thing that is
    /// missing is what stands in the way.
    pub fn from_values(
        program: Result<String, String>,
        paths: Result<Paths, String>,
        agents: Result<String, String>,
        environment: Vec<(String, String)>,
        launchctl: Option<String>,
    ) -> (install: Result<Install, String>)
        ensures
            is_request(install, program, paths, agents, environment, launchctl),
    {
        let binary: String = match program {
            Ok(binary) => binary,
            Err(why) => {
                return Err(
                    String::from_str("this binary's own path could not be resolved (").concat(
                        why.as_str(),
                    ).concat("), and the plist has to name it absolutely"),
                );
            },
        };
        let found: Paths = match paths {
            Ok(found) => found,
            Err(why) => {
                return Err(why);
            },
        };
        let directory: String = match agents {
            Ok(directory) => directory,
            Err(why) => {
                return Err(why);
            },
        };
        Ok(
            Install {
                launch_agents_dir: directory,
                job: Job::monitor(binary.as_str(), found.state_dir(), environment),
                launchctl_override: launchctl,
            },
        )
    }
}

/// What is left of an installation that failed.
#[derive(Debug, PartialEq, Eq)]
pub struct Leftover {
    pub plist: String,
    pub plist_remains: Option<String>,
}

impl Leftover {
    /// What is left, in words.
    pub open spec fn words(self) -> Seq<char> {
        match self.plist_remains {
            None => "the plist this run wrote was removed again ("@ + self.plist@
                + "), so nothing was left behind"@,
            Some(reason) => "the plist "@ + self.plist@
                + " is still there and could not be removed ("@ + reason@
                + "). launchd will read it at the next login, so remove it by hand or run `amon uninstall`"@,
        }
    }

    /// What is left, in words.
    pub fn to_text(&self) -> (words: String)
        ensures
            words@ == self.words(),
    {
        match &self.plist_remains {
            None => String::from_str("the plist this run wrote was removed again (").concat(
                self.plist.as_str(),
            ).concat("), so nothing was left behind"),
            Some(reason) => String::from_str("the plist ").concat(self.plist.as_str()).concat(
                " is still there and could not be removed (",
            ).concat(reason.as_str()).concat(
                "). launchd will read it at the next login, so remove it by hand or run `amon uninstall`",
            ),
        }
    }
}

/// What an installation came to.
#[derive(Debug, PartialEq, Eq)]
pub enum Installed {
    Loaded { plist: String, facts: JobFacts },
    AlreadyInstalled { plist: String, identical: bool },
    ProgramUnusable { program: String, reason: String },
    DirectoryUnusable { path: String, reason: String },
    StateDirectoryUnusable { path: String, reason: String },
    PlistUnwritable { plist: String, reason: String },
    LoadFailed { plist: String, reason: String, leftover: Leftover },
    LoadUnverified { plist: String, reason: String, leftover: Leftover },
}

impl Installed {
    /// Whether the job is installed.
    pub fn is_installed(&self) -> (installed: bool)
        ensures
            installed == self is Loaded,
    {
        match self {
            Installed::Loaded { .. } => true,
            _ => false,
        }
    }

    /// The outcome in words.
    pub open spec fn words(self) -> Seq<char> {
        match self {
            Installed::Loaded { plist, facts } => "the LaunchAgent "@ + plist@
                + " is installed and launchd confirms the job "@ + launchd::LABEL@ + " is loaded"@
                + match facts.pid {
                Some(pid) => ", running as pid "@ + text::decimal(pid as nat),
                None => ", but launchd is not running it at this moment — see `amon status`"@,
            },
            Installed::AlreadyInstalled { plist, identical } => plist@
                + " already exists, so nothing was written and no job was loaded. Its contents "@
                + (if identical {
                "match"@
            } else {
                "differ from"@
            })
                + " what this build would write. Run `amon uninstall` first if you want it replaced; `amon status` says whether the job it describes is actually loaded."@,
            Installed::ProgramUnusable { program, reason } =>
                "nothing was written: the plist would point at "@ + program@ + ", and "@ + reason@
                + ". launchd would retry that path every "@ + text::decimal(
                launchd::THROTTLE_SECONDS as nat,
            ) + "s for ever without ever monitoring anything."@,
            Installed::DirectoryUnusable { path, reason } =>
                "nothing was written: the LaunchAgents directory "@ + path@ + " is unusable ("@
                + reason@ + ")"@,
            Installed::StateDirectoryUnusable { path, reason } =>
                "nothing was written: the state directory "@ + path@ + " could not be created ("@
                + reason@ + "), and launchd cannot start a job whose log it cannot open"@,
            Installed::PlistUnwritable { plist, reason } => "no job was loaded: "@ + plist@
                + " could not be written ("@ + reason@ + ")"@,
            Installed::LoadFailed { plist, reason, leftover } => "the job "@ + launchd::LABEL@
                + " was not loaded: launchd refused the plist "@ + plist@ + " — "@ + reason@ + ". "@
                + leftover.words(),
            Installed::LoadUnverified { plist, reason, leftover } => "the plist "@ + plist@
                + " was written and bootstrapped, and launchd does not confirm the job "@
                + launchd::LABEL@ + " is loaded: "@ + reason@
                + ". Nothing is being monitored, so this is a failure rather than an install. "@
                + leftover.words(),
        }
    }

    /// The outcome in words.
    pub fn message(&self) -> (words: String)
        ensures
            words@ == self.words(),
    {
        match self {
            Installed::Loaded { plist, facts } => String::from_str("the LaunchAgent ").concat(
                plist.as_str(),
            ).concat(" is installed and launchd confirms the job ").concat(launchd::LABEL).concat(
                " is loaded",
            ).concat(
                match facts.pid {
                    Some(pid) => String::from_str(", running as pid ").concat(
                        text::decimal_of(pid as u128).as_str(),
                    ),
                    None => String::from_str(
                        ", but launchd is not running it at this moment — see `amon status`",
                    ),
                }.as_str(),
            ),
            Installed::AlreadyInstalled { plist, identical } => plist.clone().concat(
                " already exists, so nothing was written and no job was loaded. Its contents ",
            ).concat(
                if *identical {
                    "match"
                } else {
                    "differ from"
                },
            ).concat(
                " what this build would write. Run `amon uninstall` first if you want it replaced; `amon status` says whether the job it describes is actually loaded.",
            ),
            Installed::ProgramUnusable { program, reason } => String::from_str(
                "nothing was written: the plist would point at ",
            ).concat(program.as_str()).concat(", and ").concat(reason.as_str()).concat(
                ". launchd would retry that path every ",
            ).concat(text::decimal_of(launchd::THROTTLE_SECONDS as u128).as_str()).concat(
                "s for ever without ever monitoring anything.",
            ),
            Installed::DirectoryUnusable { path, reason } => String::from_str(
                "nothing was written: the LaunchAgents directory ",
            ).concat(path.as_str()).concat(" is unusable (").concat(reason.as_str()).concat(")"),
            Installed::StateDirectoryUnusable { path, reason } => String::from_str(
                "nothing was written: the state directory ",
            ).concat(path.as_str()).concat(" could not be created (").concat(
                reason.as_str(),
            ).concat("), and launchd cannot start a job whose log it cannot open"),
            Installed::PlistUnwritable { plist, reason } => String::from_str(
                "no job was loaded: ",
            ).concat(plist.as_str()).concat(" could not be written (").concat(
                reason.as_str(),
            ).concat(")"),
            Installed::LoadFailed { plist, reason, leftover } => String::from_str(
                "the job ",
            ).concat(launchd::LABEL).concat(" was not loaded: launchd refused the plist ").concat(
                plist.as_str(),
            ).concat(" — ").concat(reason.as_str()).concat(". ").concat(
                leftover.to_text().as_str(),
            ),
            Installed::LoadUnverified { plist, reason, leftover } => String::from_str(
                "the plist ",
            ).concat(plist.as_str()).concat(
                " was written and bootstrapped, and launchd does not confirm the job ",
            ).concat(launchd::LABEL).concat(" is loaded: ").concat(reason.as_str()).concat(
                ". Nothing is being monitored, so this is a failure rather than an install. ",
            ).concat(leftover.to_text().as_str()),
        }
    }
}

// --- The program -------------------------------------------------------------------------------

/// What is at a program's path.
#[derive(Debug, PartialEq, Eq)]
pub enum ProgramSeen {
    File,
    NotAFile,
    Nothing,
    Unchecked(String),
}

/// Why a program cannot be put into a plist, if it cannot.
pub open spec fn program_fault(program: Seq<char>, seen: ProgramSeen) -> Option<Seq<char>> {
    if program.len() == 0 || program[0] != '/' {
        Some(
            "it is not an absolute path — launchd's working directory is not the shell's, so a relative program would resolve against something the installer never saw"@,
        )
    } else {
        match seen {
            ProgramSeen::File => None,
            ProgramSeen::NotAFile => Some("it is not a file"@),
            ProgramSeen::Nothing => Some("there is nothing at that path"@),
            ProgramSeen::Unchecked(why) => Some("it could not be checked for: "@ + why@),
        }
    }
}

/// Whether a program can be put into a plist: it must be a file, named from the root.
pub fn usable_program(program: &str, seen: &ProgramSeen) -> (usable: Result<(), String>)
    ensures
        match usable {
            Ok(_) => program_fault(program@, *seen) is None,
            Err(why) => program_fault(program@, *seen) == Some(why@),
        },
{
    if program.unicode_len() == 0 || program.get_char(0) != '/' {
        return Err(
            String::from_str(
                "it is not an absolute path — launchd's working directory is not the shell's, so a relative program would resolve against something the installer never saw",
            ),
        );
    }
    match seen {
        ProgramSeen::File => Ok(()),
        ProgramSeen::NotAFile => Err(String::from_str("it is not a file")),
        ProgramSeen::Nothing => Err(String::from_str("there is nothing at that path")),
        ProgramSeen::Unchecked(why) => Err(
            String::from_str("it could not be checked for: ").concat(why.as_str()),
        ),
    }
}

// --- Installing --------------------------------------------------------------------------------

/// Why an installation is being undone.
#[derive(Debug, PartialEq, Eq)]
pub enum Failure {
    Refused(String),
    Unconfirmed(String),
}

/// How far an installation is: the task that is to be done now.
#[derive(Debug, PartialEq, Eq)]
pub enum Stage {
    /// Look at the job's program.
    Program,
    /// Look for the plist.
    Plist,
    /// Create the LaunchAgents directory.
    AgentsDirectory,
    /// Create the directory of the log.
    StateDirectory(String),
    /// Write the plist, which must not be there.
    Writing,
    /// Have launchd load it.
    Loading,
    /// Ask launchd for the job.
    Verifying,
    /// Have launchd unload the job again.
    Unloading(Failure),
    /// Remove the plist again.
    Removing(Failure),
}

/// What a task came to.
#[derive(Debug, PartialEq, Eq)]
pub enum Reply {
    /// What is at the program's path.
    Program(ProgramSeen),
    /// What is at the plist's path: nothing, a file and what it holds, or nobody knows.
    Plist(Result<Option<Result<String, String>>, String>),
    /// Whether it worked.
    Done(Result<(), String>),
    /// Whether launchd has the job.
    Job(JobQuery),
}

impl Stage {
    /// Whether a reply is one to this stage's task.
    pub open spec fn takes(self, reply: Reply) -> bool {
        match self {
            Stage::Program => reply is Program,
            Stage::Plist => reply is Plist,
            Stage::Verifying => reply is Job,
            _ => reply is Done,
        }
    }

    /// Whether a reply is one to this stage's task.
    pub fn fits(&self, reply: &Reply) -> (fits: bool)
        ensures
            fits == self.takes(*reply),
    {
        match (self, reply) {
            (Stage::Program, Reply::Program(_)) => true,
            (Stage::Program, _) => false,
            (Stage::Plist, Reply::Plist(_)) => true,
            (Stage::Plist, _) => false,
            (Stage::Verifying, Reply::Job(_)) => true,
            (Stage::Verifying, _) => false,
            (_, Reply::Done(_)) => true,
            (_, _) => false,
        }
    }

    /// Whether the plist has been written by now.
    pub open spec fn has_written(self) -> bool {
        self is Loading || self is Verifying || self is Unloading || self is Removing
    }
}

/// What follows a step.
#[derive(Debug, PartialEq, Eq)]
pub enum Then {
    Next(Stage),
    Finished(Installed),
}

/// What a step tells the user, and what follows it.
#[derive(Debug, PartialEq, Eq)]
pub struct Turn {
    pub notices: Vec<String>,
    pub next: Then,
}

/// What is said of a watch verb that cannot monitor.
pub open spec fn watch_warning(standing: VerbState) -> Option<Seq<char>> {
    match standing {
        VerbState::Available => None,
        VerbState::Partial { built, tracked_as } => Some(
            "WARNING: `amon watch` has "@ + built@ + " but cannot monitor yet ("@ + tracked_as@
                + "), so the job will exit non-zero and launchd will restart it every "@
                + text::decimal(launchd::THROTTLE_SECONDS as nat)
                + "s until that lands. `amon status` shows the run count."@,
        ),
        VerbState::Planned { tracked_as } => Some(
            "WARNING: `amon watch` is not built yet ("@ + tracked_as@
                + "), so the job will exit non-zero and launchd will restart it every "@
                + text::decimal(launchd::THROTTLE_SECONDS as nat) + "s until it is"@,
        ),
    }
}

fn watch_warning_text(standing: VerbState) -> (words: Option<String>)
    ensures
        match words {
            Some(said) => watch_warning(standing) == Some(said@),
            None => watch_warning(standing) is None,
        },
{
    match standing {
        VerbState::Available => None,
        VerbState::Partial { built, tracked_as } => Some(
            String::from_str("WARNING: `amon watch` has ").concat(built).concat(
                " but cannot monitor yet (",
            ).concat(tracked_as).concat(
                "), so the job will exit non-zero and launchd will restart it every ",
            ).concat(text::decimal_of(launchd::THROTTLE_SECONDS as u128).as_str()).concat(
                "s until that lands. `amon status` shows the run count.",
            ),
        ),
        VerbState::Planned { tracked_as } => Some(
            String::from_str("WARNING: `amon watch` is not built yet (").concat(tracked_as).concat(
                "), so the job will exit non-zero and launchd will restart it every ",
            ).concat(text::decimal_of(launchd::THROTTLE_SECONDS as u128).as_str()).concat(
                "s until it is",
            ),
        ),
    }
}

/// What the user is told before anything is done.
pub open spec fn announcement(request: Install, reached_as: Seq<char>) -> Seq<Seq<char>> {
    let first = seq![
        "about to create "@ + request.place()
            + " — the LaunchAgent plist, and the only file this tool writes outside its config and state directories"@,
        "the job it will run: "@ + request.job.typed(),
        "launchd will write the monitor's output to "@ + request.job.log@,
        "launchd is being reached as: "@ + reached_as,
    ];
    let second = match request.launchctl_override {
        Some(overridden) => first.push(
            "WARNING: ACMON_LAUNCHCTL is set to "@ + overridden@
                + ", so this run is not talking to launchd and cannot install anything real"@,
        ),
        None => first,
    };
    match watch_warning(AmonVerb::Watch.standing()) {
        Some(warning) => second.push(warning),
        None => second,
    }
}

pub(crate) fn say(notices: &mut Vec<String>, words: String)
    ensures
        text::texts(final(notices)@) == text::texts(old(notices)@).push(words@),
{
    let ghost before = notices@;
    notices.push(words);
    assert(text::texts(notices@) =~= text::texts(before).push(words@));
}

pub(crate) fn nothing_said() -> (notices: Vec<String>)
    ensures
        text::texts(notices@) == Seq::<Seq<char>>::empty(),
{
    let notices: Vec<String> = Vec::new();
    assert(text::texts(notices@) =~= Seq::<Seq<char>>::empty());
    notices
}

pub(crate) fn said(words: String) -> (notices: Vec<String>)
    ensures
        text::texts(notices@) == seq![words@],
{
    let mut notices: Vec<String> = nothing_said();
    say(&mut notices, words);
    assert(text::texts(notices@) =~= seq![words@]);
    notices
}

/// Begins an installation: the user is told what will be written before anything is.
pub fn install(request: &Install, reached_as: &str) -> (turn: Turn)
    ensures
        turn.next == Then::Next(Stage::Program),
        text::texts(turn.notices@) == announcement(*request, reached_as@),
{
    let mut notices: Vec<String> = nothing_said();
    say(
        &mut notices,
        String::from_str("about to create ").concat(request.plist_path().as_str()).concat(
            " — the LaunchAgent plist, and the only file this tool writes outside its config and state directories",
        ),
    );
    say(
        &mut notices,
        String::from_str("the job it will run: ").concat(request.job.command_line().as_str()),
    );
    say(
        &mut notices,
        String::from_str("launchd will write the monitor's output to ").concat(
            request.job.log.as_str(),
        ),
    );
    say(&mut notices, String::from_str("launchd is being reached as: ").concat(reached_as));
    if let Some(overridden) = &request.launchctl_override {
        say(
            &mut notices,
            String::from_str("WARNING: ACMON_LAUNCHCTL is set to ").concat(
                overridden.as_str(),
            ).concat(
                ", so this run is not talking to launchd and cannot install anything real",
            ),
        );
    }
    if let Some(warning) = watch_warning_text(AmonVerb::Watch.state()) {
        say(&mut notices, warning);
    }
    assert(text::texts(notices@) =~= announcement(*request, reached_as@));
    Turn { notices, next: Then::Next(Stage::Program) }
}

/// Whether a step tells the user this and nothing else.
pub open spec fn tells(turn: Turn, notices: Seq<Seq<char>>) -> bool {
    text::texts(turn.notices@) == notices
}

/// Whether this is the step that a reply leads to.
pub open spec fn is_turn(turn: Turn, request: Install, stage: Stage, reply: Reply) -> bool {
    let plist = request.place();
    match (stage, reply) {
        (Stage::Program, Reply::Program(seen)) => tells(turn, Seq::empty()) && match program_fault(
            request.job.program@,
            seen,
        ) {
            Some(fault) => turn.next matches Then::Finished(
                Installed::ProgramUnusable { program, reason },
            ) && program == request.job.program && reason@ == fault,
            None => turn.next == Then::Next(Stage::Plist),
        },
        (Stage::Plist, Reply::Plist(seen)) => tells(turn, Seq::empty()) && match seen {
            Ok(Some(held)) => turn.next matches Then::Finished(
                Installed::AlreadyInstalled { plist: at, identical },
            ) && at@ == plist && identical == (held matches Ok(contents) && contents@
                == request.job.property_list()),
            Ok(None) => turn.next == Then::Next(Stage::AgentsDirectory),
            Err(why) => turn.next matches Then::Finished(
                Installed::DirectoryUnusable { path, reason },
            ) && path == request.launch_agents_dir && reason@ == plist
                + " could not be checked for: "@ + why@,
        },
        (Stage::AgentsDirectory, Reply::Done(done)) => tells(turn, Seq::empty()) && match done {
            Ok(_) => match text::parent_path(request.job.log@) {
                Some(directory) => turn.next matches Then::Next(Stage::StateDirectory(path)) && path@
                    == directory,
                None => turn.next == Then::Next(Stage::Writing),
            },
            Err(why) => turn.next matches Then::Finished(
                Installed::DirectoryUnusable { path, reason },
            ) && path == request.launch_agents_dir && reason@ == "it could not be created: "@ + why@,
        },
        (Stage::StateDirectory(directory), Reply::Done(done)) => tells(turn, Seq::empty())
            && match done {
            Ok(_) => turn.next == Then::Next(Stage::Writing),
            Err(why) => turn.next == Then::Finished(
                Installed::StateDirectoryUnusable { path: directory, reason: why },
            ),
        },
        (Stage::Writing, Reply::Done(done)) => match done {
            Ok(_) => turn.next == Then::Next(Stage::Loading) && tells(
                turn,
                seq!["created "@ + plist],
            ),
            Err(why) => tells(turn, Seq::empty()) && (turn.next matches Then::Finished(
                Installed::PlistUnwritable { plist: at, reason },
            ) && at@ == plist && reason == why),
        },
        (Stage::Loading, Reply::Done(done)) => match done {
            Ok(_) => turn.next == Then::Next(Stage::Verifying) && tells(
                turn,
                seq!["launchd accepted the plist; asking it whether the job is actually loaded"@],
            ),
            Err(why) => turn.next == Then::Next(Stage::Unloading(Failure::Refused(why))) && tells(
                turn,
                Seq::empty(),
            ),
        },
        (Stage::Verifying, Reply::Job(answer)) => match answer {
            JobQuery::Loaded(facts) => (turn.next matches Then::Finished(
                Installed::Loaded { plist: at, facts: told },
            ) && at@ == plist && told == facts) && tells(
                turn,
                seq!["launchd has the job "@ + launchd::LABEL@ + ": "@ + facts_words(facts)],
            ),
            JobQuery::NotLoaded => tells(turn, Seq::empty()) && (turn.next matches Then::Next(
                Stage::Unloading(Failure::Unconfirmed(why)),
            ) && why@ == "launchd does not have a job by that label"@),
            JobQuery::Undetermined(why) => tells(turn, Seq::empty()) && turn.next == Then::Next(
                Stage::Unloading(Failure::Unconfirmed(why)),
            ),
        },
        (Stage::Unloading(failure), Reply::Done(done)) => turn.next == Then::Next(
            Stage::Removing(failure),
        ) && match done {
            Ok(_) => tells(turn, Seq::empty()),
            Err(why) => tells(
                turn,
                seq![
                    "unloading "@ + launchd::LABEL@ + " while undoing this install reported: "@
                        + why@,
                ],
            ),
        },
        (Stage::Removing(failure), Reply::Done(done)) => {
            &&& match failure {
                Failure::Refused(why) => turn.next matches Then::Finished(
                    Installed::LoadFailed { plist: at, reason, leftover },
                ) && at@ == plist && reason == why && is_leftover(leftover, plist, done),
                Failure::Unconfirmed(why) => turn.next matches Then::Finished(
                    Installed::LoadUnverified { plist: at, reason, leftover },
                ) && at@ == plist && reason == why && is_leftover(leftover, plist, done),
            }
            &&& match done {
                Ok(_) => tells(
                    turn,
                    seq!["removed "@ + plist
                        + " again, so this failed install left nothing behind"@],
                ),
                Err(why) => tells(
                    turn,
                    seq!["WARNING: "@ + plist + " is still there and could not be removed: "@ + why@],
                ),
            }
        },
        (_, _) => true,
    }
}

/// Whether this is what is left once the plist was to be removed.
pub open spec fn is_leftover(
    leftover: Leftover,
    plist: Seq<char>,
    removed: Result<(), String>,
) -> bool {
    &&& leftover.plist@ == plist
    &&& match removed {
        Ok(_) => leftover.plist_remains is None,
        Err(why) => leftover.plist_remains == Some(why),
    }
}

fn program_looked_at(request: &Install, seen: &ProgramSeen) -> (turn: Turn)
    ensures
        is_turn(turn, *request, Stage::Program, Reply::Program(*seen)),
{
    match usable_program(request.job.program.as_str(), seen) {
        Ok(_) => Turn { notices: nothing_said(), next: Then::Next(Stage::Plist) },
        Err(reason) => Turn {
            notices: nothing_said(),
            next: Then::Finished(
                Installed::ProgramUnusable { program: request.job.program.clone(), reason },
            ),
        },
    }
}

fn plist_looked_for(
    request: &Install,
    seen: Result<Option<Result<String, String>>, String>,
) -> (turn: Turn)
    ensures
        is_turn(turn, *request, Stage::Plist, Reply::Plist(seen)),
{
    match seen {
        Ok(Some(held)) => {
            let identical: bool = match held {
                Ok(contents) => text::same(contents.as_str(), request.job.plist().as_str()),
                Err(_) => false,
            };
            Turn {
                notices: nothing_said(),
                next: Then::Finished(
                    Installed::AlreadyInstalled { plist: request.plist_path(), identical },
                ),
            }
        },
        Ok(None) => Turn { notices: nothing_said(), next: Then::Next(Stage::AgentsDirectory) },
        Err(why) => Turn {
            notices: nothing_said(),
            next: Then::Finished(
                Installed::DirectoryUnusable {
                    path: request.launch_agents_dir.clone(),
                    reason: request.plist_path().concat(" could not be checked for: ").concat(
                        why.as_str(),
                    ),
                },
            ),
        },
    }
}

fn agents_directory_created(request: &Install, done: Result<(), String>) -> (turn: Turn)
    ensures
        is_turn(turn, *request, Stage::AgentsDirectory, Reply::Done(done)),
{
    match done {
        Ok(_) => match text::parent_of(request.job.log.as_str()) {
            Some(directory) => Turn {
                notices: nothing_said(),
                next: Then::Next(Stage::StateDirectory(directory)),
            },
            None => Turn { notices: nothing_said(), next: Then::Next(Stage::Writing) },
        },
        Err(why) => Turn {
            notices: nothing_said(),
            next: Then::Finished(
                Installed::DirectoryUnusable {
                    path: request.launch_agents_dir.clone(),
                    reason: String::from_str("it could not be created: ").concat(why.as_str()),
                },
            ),
        },
    }
}

fn job_asked_for(request: &Install, answer: JobQuery) -> (turn: Turn)
    ensures
        is_turn(turn, *request, Stage::Verifying, Reply::Job(answer)),
{
    match answer {
        JobQuery::Loaded(facts) => {
            let notices: Vec<String> = said(
                String::from_str("launchd has the job ").concat(launchd::LABEL).concat(
                    ": ",
                ).concat(describe_facts(&facts).as_str()),
            );
            Turn {
                notices,
                next: Then::Finished(Installed::Loaded { plist: request.plist_path(), facts }),
            }
        },
        JobQuery::NotLoaded => Turn {
            notices: nothing_said(),
            next: Then::Next(
                Stage::Unloading(
                    Failure::Unconfirmed(
                        String::from_str("launchd does not have a job by that label"),
                    ),
                ),
            ),
        },
        JobQuery::Undetermined(why) => Turn {
            notices: nothing_said(),
            next: Then::Next(Stage::Unloading(Failure::Unconfirmed(why))),
        },
    }
}

fn plist_removed(request: &Install, failure: Failure, done: Result<(), String>) -> (turn: Turn)
    ensures
        is_turn(turn, *request, Stage::Removing(failure), Reply::Done(done)),
{
    let (notices, plist_remains): (Vec<String>, Option<String>) = match done {
        Ok(_) => (
            said(
                String::from_str("removed ").concat(request.plist_path().as_str()).concat(
                    " again, so this failed install left nothing behind",
                ),
            ),
            None,
        ),
        Err(why) => (
            said(
                String::from_str("WARNING: ").concat(request.plist_path().as_str()).concat(
                    " is still there and could not be removed: ",
                ).concat(why.as_str()),
            ),
            Some(why),
        ),
    };
    let leftover = Leftover { plist: request.plist_path(), plist_remains };
    let outcome: Installed = match failure {
        Failure::Refused(reason) => Installed::LoadFailed {
            plist: request.plist_path(),
            reason,
            leftover,
        },
        Failure::Unconfirmed(reason) => Installed::LoadUnverified {
            plist: request.plist_path(),
            reason,
            leftover,
        },
    };
    Turn { notices, next: Then::Finished(outcome) }
}

/// Goes on with an installation, given what its present task came to. Nothing that is already there is
/// overwritten, and a plist that launchd does not confirm is taken away again.
pub fn continue_install(request: &Install, stage: Stage, reply: Reply) -> (turn: Turn)
    requires
        stage.takes(reply),
    ensures
        is_turn(turn, *request, stage, reply),
{
    match (stage, reply) {
        (Stage::Program, Reply::Program(seen)) => program_looked_at(request, &seen),
        (Stage::Plist, Reply::Plist(seen)) => plist_looked_for(request, seen),
        (Stage::AgentsDirectory, Reply::Done(done)) => agents_directory_created(request, done),
        (Stage::StateDirectory(directory), Reply::Done(done)) => match done {
            Ok(_) => Turn { notices: nothing_said(), next: Then::Next(Stage::Writing) },
            Err(why) => Turn {
                notices: nothing_said(),
                next: Then::Finished(
                    Installed::StateDirectoryUnusable { path: directory, reason: why },
                ),
            },
        },
        (Stage::Writing, Reply::Done(done)) => match done {
            Ok(_) => Turn {
                notices: said(
                    String::from_str("created ").concat(request.plist_path().as_str()),
                ),
                next: Then::Next(Stage::Loading),
            },
            Err(why) => Turn {
                notices: nothing_said(),
                next: Then::Finished(
                    Installed::PlistUnwritable { plist: request.plist_path(), reason: why },
                ),
            },
        },
        (Stage::Loading, Reply::Done(done)) => match done {
            Ok(_) => Turn {
                notices: said(
                    String::from_str(
                        "launchd accepted the plist; asking it whether the job is actually loaded",
                    ),
                ),
                next: Then::Next(Stage::Verifying),
            },
            Err(why) => Turn {
                notices: nothing_said(),
                next: Then::Next(Stage::Unloading(Failure::Refused(why))),
            },
        },
        (Stage::Verifying, Reply::Job(answer)) => job_asked_for(request, answer),
        (Stage::Unloading(failure), Reply::Done(done)) => {
            let notices: Vec<String> = match done {
                Ok(_) => nothing_said(),
                Err(why) => said(
                    String::from_str("unloading ").concat(launchd::LABEL).concat(
                        " while undoing this install reported: ",
                    ).concat(why.as_str()),
                ),
            };
            Turn { notices, next: Then::Next(Stage::Removing(failure)) }
        },
        (Stage::Removing(failure), Reply::Done(done)) => plist_removed(request, failure, done),
        (_, _) => Turn { notices: nothing_said(), next: Then::Next(Stage::Program) },
    }
}

/// An installation is called one only on launchd's own word that it has the job.
pub proof fn law_only_launchd_confirms(turn: Turn, request: Install, stage: Stage, reply: Reply)
    requires
        stage.takes(reply),
        is_turn(turn, request, stage, reply),
        turn.next matches Then::Finished(outcome) && outcome is Loaded,
    ensures
        stage is Verifying,
        reply matches Reply::Job(answer) && answer is Loaded,
{
}

/// A plist that was written is either confirmed or taken away again: from the moment it is there, an
/// installation can only end in one of these, and what it says is left is what is left.
pub proof fn law_nothing_is_left_unconfirmed(
    turn: Turn,
    request: Install,
    stage: Stage,
    reply: Reply,
)
    requires
        stage.takes(reply),
        stage.has_written(),
        is_turn(turn, request, stage, reply),
    ensures
        turn.next matches Then::Next(next) ==> next.has_written() && !(stage is Removing),
        turn.next matches Then::Finished(outcome) ==> outcome is Loaded || outcome is LoadFailed
            || outcome is LoadUnverified,
        turn.next matches Then::Finished(Installed::LoadFailed { leftover, .. }) ==> stage is Removing
            && (leftover.plist_remains is None <==> reply->Done_0 is Ok),
        turn.next matches Then::Finished(Installed::LoadUnverified { leftover, .. }) ==> stage is Removing
            && (leftover.plist_remains is None <==> reply->Done_0 is Ok),
{
}

/// A plist is written only where none was found.
pub proof fn law_no_plist_is_overwritten(turn: Turn, request: Install, stage: Stage, reply: Reply)
    requires
        stage.takes(reply),
        is_turn(turn, request, stage, reply),
        stage is Program || stage is Plist,
    ensures
        turn.next == Then::Next(Stage::AgentsDirectory) ==> reply == Reply::Plist(Ok(None)),
        turn.next matches Then::Next(next) ==> !(next is Writing) && !next.has_written(),
{
}

// --- Removing ----------------------------------------------------------------------------------

/// What a removal came to.
#[derive(Debug, PartialEq, Eq)]
pub enum Uninstalled {
    Removed { plist: String, was_loaded: bool },
    NothingToRemove { plist: String },
    StillLoaded { plist: String, reason: String },
    PlistRemains { plist: String, reason: String },
    Undetermined { plist: String, reason: String },
}

impl Uninstalled {
    /// Whether nothing is left.
    pub fn succeeded(&self) -> (succeeded: bool)
        ensures
            succeeded == (self is Removed || self is NothingToRemove),
    {
        match self {
            Uninstalled::Removed { .. } | Uninstalled::NothingToRemove { .. } => true,
            _ => false,
        }
    }

    /// The outcome in words.
    pub open spec fn words(self) -> Seq<char> {
        match self {
            Uninstalled::Removed { plist, was_loaded } => "the job "@ + launchd::LABEL@ + " "@
                + (if was_loaded {
                "was unloaded"@
            } else {
                "was not loaded"@
            }) + " and "@ + plist@ + " is gone. launchd confirms it is no longer loaded."@,
            Uninstalled::NothingToRemove { plist } =>
                "there was nothing to remove: launchd has no job "@ + launchd::LABEL@
                + " and there is no plist at "@ + plist@ + "."@,
            Uninstalled::StillLoaded { plist, reason } => "launchd still reports the job "@
                + launchd::LABEL@ + " after it was asked to unload it: "@ + reason@ + ". "@ + plist@
                + " has been left in place — it is the only handle left on that job, and removing it would leave something running with nothing on disk to explain it."@,
            Uninstalled::PlistRemains { plist, reason } => "the job "@ + launchd::LABEL@
                + " was unloaded, and "@ + plist@ + " could not be removed ("@ + reason@
                + "). That is an orphaned plist: launchd will load it again at the next login."@,
            Uninstalled::Undetermined { plist, reason } => "launchd could not be asked whether "@
                + launchd::LABEL@ + " is loaded ("@ + reason@ + "), so nothing was touched and "@
                + plist@
                + " is still there. Removing it without knowing could strand a running job with nothing to unload it by."@,
        }
    }

    /// The outcome in words.
    pub fn message(&self) -> (words: String)
        ensures
            words@ == self.words(),
    {
        match self {
            Uninstalled::Removed { plist, was_loaded } => String::from_str("the job ").concat(
                launchd::LABEL,
            ).concat(" ").concat(
                if *was_loaded {
                    "was unloaded"
                } else {
                    "was not loaded"
                },
            ).concat(" and ").concat(plist.as_str()).concat(
                " is gone. launchd confirms it is no longer loaded.",
            ),
            Uninstalled::NothingToRemove { plist } => String::from_str(
                "there was nothing to remove: launchd has no job ",
            ).concat(launchd::LABEL).concat(" and there is no plist at ").concat(
                plist.as_str(),
            ).concat("."),
            Uninstalled::StillLoaded { plist, reason } => String::from_str(
                "launchd still reports the job ",
            ).concat(launchd::LABEL).concat(" after it was asked to unload it: ").concat(
                reason.as_str(),
            ).concat(". ").concat(plist.as_str()).concat(
                " has been left in place — it is the only handle left on that job, and removing it would leave something running with nothing on disk to explain it.",
            ),
            Uninstalled::PlistRemains { plist, reason } => String::from_str("the job ").concat(
                launchd::LABEL,
            ).concat(" was unloaded, and ").concat(plist.as_str()).concat(
                " could not be removed (",
            ).concat(reason.as_str()).concat(
                "). That is an orphaned plist: launchd will load it again at the next login.",
            ),
            Uninstalled::Undetermined { plist, reason } => String::from_str(
                "launchd could not be asked whether ",
            ).concat(launchd::LABEL).concat(" is loaded (").concat(reason.as_str()).concat(
                "), so nothing was touched and ",
            ).concat(plist.as_str()).concat(
                " is still there. Removing it without knowing could strand a running job with nothing to unload it by.",
            ),
        }
    }
}

/// How far a removal is: the task that is to be done now.
#[derive(Debug, Clone, Copy, PartialEq, Eq, Structural)]
pub enum Removal {
    /// Ask launchd for the job.
    Asking,
    /// Have launchd unload it.
    Unloading,
    /// Ask launchd again.
    Confirming,
    /// Look for the plist.
    Looking { was_loaded: bool },
    /// Remove the plist.
    Removing { was_loaded: bool },
}

/// What a task of a removal came to.
#[derive(Debug, PartialEq, Eq)]
pub enum Answer {
    Job(JobQuery),
    Done(Result<(), String>),
    There(Result<bool, String>),
}

impl Removal {
    /// Whether an answer is one to this step.
    pub open spec fn takes(self, answer: Answer) -> bool {
        match self {
            Removal::Asking | Removal::Confirming => answer is Job,
            Removal::Looking { .. } => answer is There,
            Removal::Unloading | Removal::Removing { .. } => answer is Done,
        }
    }

    /// Whether an answer is one to this step.
    pub fn fits(&self, answer: &Answer) -> (fits: bool)
        ensures
            fits == self.takes(*answer),
    {
        match (self, answer) {
            (Removal::Asking, Answer::Job(_)) => true,
            (Removal::Confirming, Answer::Job(_)) => true,
            (Removal::Looking { .. }, Answer::There(_)) => true,
            (Removal::Unloading, Answer::Done(_)) => true,
            (Removal::Removing { .. }, Answer::Done(_)) => true,
            (_, _) => false,
        }
    }

    /// Whether launchd has said by now that it does not have the job.
    pub open spec fn knows_it_is_unloaded(self) -> bool {
        self is Looking || self is Removing
    }
}

/// What follows a step of a removal.
#[derive(Debug, PartialEq, Eq)]
pub enum Afterwards {
    Next(Removal),
    Finished(Uninstalled),
}

/// What a step of a removal tells the user, and what follows it.
#[derive(Debug, PartialEq, Eq)]
pub struct Move {
    pub notices: Vec<String>,
    pub next: Afterwards,
}

/// Begins a removal.
pub fn uninstall(reached_as: &str) -> (step: Move)
    ensures
        step.next == Afterwards::Next(Removal::Asking),
        text::texts(step.notices@) == seq!["launchd is being reached as: "@ + reached_as@],
{
    Move {
        notices: said(String::from_str("launchd is being reached as: ").concat(reached_as)),
        next: Afterwards::Next(Removal::Asking),
    }
}

/// Whether a step of a removal tells the user this and nothing else.
pub open spec fn says(step: Move, notices: Seq<Seq<char>>) -> bool {
    text::texts(step.notices@) == notices
}

/// Whether this is the step of a removal that an answer leads to.
pub open spec fn is_move(step: Move, request: Install, stage: Removal, answer: Answer) -> bool {
    let plist = request.place();
    match (stage, answer) {
        (Removal::Asking, Answer::Job(job)) => match job {
            JobQuery::Loaded(facts) => step.next == Afterwards::Next(Removal::Unloading) && says(
                step,
                seq![
                    "launchd has the job "@ + launchd::LABEL@ + ": "@ + facts_words(facts),
                    "asking launchd to unload "@ + launchd::LABEL@,
                ],
            ),
            JobQuery::NotLoaded => step.next == Afterwards::Next(
                Removal::Looking { was_loaded: false },
            ) && says(step, seq!["launchd has no job "@ + launchd::LABEL@]),
            JobQuery::Undetermined(why) => says(step, Seq::empty()) && (step.next matches Afterwards::Finished(
                Uninstalled::Undetermined { plist: at, reason },
            ) && at@ == plist && reason == why),
        },
        (Removal::Unloading, Answer::Done(done)) => step.next == Afterwards::Next(
            Removal::Confirming,
        ) && match done {
            Ok(_) => says(step, Seq::empty()),
            Err(why) => says(step, seq!["the unload reported: "@ + why@]),
        },
        (Removal::Confirming, Answer::Job(job)) => match job {
            JobQuery::NotLoaded => step.next == Afterwards::Next(
                Removal::Looking { was_loaded: true },
            ) && says(step, seq!["launchd confirms "@ + launchd::LABEL@ + " is unloaded"@]),
            JobQuery::Loaded(facts) => says(step, Seq::empty()) && (step.next matches Afterwards::Finished(
                Uninstalled::StillLoaded { plist: at, reason },
            ) && at@ == plist && reason@ == "it is still there — "@ + facts_words(facts)),
            JobQuery::Undetermined(why) => says(step, Seq::empty()) && (step.next matches Afterwards::Finished(
                Uninstalled::StillLoaded { plist: at, reason },
            ) && at@ == plist && reason@ == "launchd would not say whether the unload worked: "@
                + why@),
        },
        (Removal::Looking { was_loaded }, Answer::There(there)) => match there {
            Ok(true) => step.next == Afterwards::Next(Removal::Removing { was_loaded }) && says(
                step,
                Seq::empty(),
            ),
            Ok(false) => if was_loaded {
                (step.next matches Afterwards::Finished(
                    Uninstalled::Removed { plist: at, was_loaded: unloaded },
                ) && at@ == plist && unloaded) && says(
                    step,
                    seq!["there was no plist at "@ + plist
                        + " — the job had been loaded from somewhere else"@],
                )
            } else {
                (step.next matches Afterwards::Finished(Uninstalled::NothingToRemove { plist: at })
                    && at@ == plist) && says(step, Seq::empty())
            },
            Err(why) => says(step, Seq::empty()) && (step.next matches Afterwards::Finished(
                Uninstalled::PlistRemains { plist: at, reason },
            ) && at@ == plist && reason@ == "it could not be checked for: "@ + why@),
        },
        (Removal::Removing { was_loaded }, Answer::Done(done)) => match done {
            Ok(_) => (step.next matches Afterwards::Finished(
                Uninstalled::Removed { plist: at, was_loaded: unloaded },
            ) && at@ == plist && unloaded == was_loaded) && says(step, seq!["removed "@ + plist]),
            Err(why) => says(step, Seq::empty()) && (step.next matches Afterwards::Finished(
                Uninstalled::PlistRemains { plist: at, reason },
            ) && at@ == plist && reason == why),
        },
        (_, _) => true,
    }
}

fn job_answered(request: &Install, confirming: bool, job: JobQuery) -> (step: Move)
    ensures
        is_move(
            step,
            *request,
            if confirming {
                Removal::Confirming
            } else {
                Removal::Asking
            },
            Answer::Job(job),
        ),
{
    match (job, confirming) {
        (JobQuery::Loaded(facts), false) => {
            let mut notices: Vec<String> = nothing_said();
            say(
                &mut notices,
                String::from_str("launchd has the job ").concat(launchd::LABEL).concat(
                    ": ",
                ).concat(describe_facts(&facts).as_str()),
            );
            say(
                &mut notices,
                String::from_str("asking launchd to unload ").concat(launchd::LABEL),
            );
            assert(text::texts(notices@) =~= seq![
                "launchd has the job "@ + launchd::LABEL@ + ": "@ + facts_words(facts),
                "asking launchd to unload "@ + launchd::LABEL@,
            ]);
            Move { notices, next: Afterwards::Next(Removal::Unloading) }
        },
        (JobQuery::NotLoaded, false) => Move {
            notices: said(String::from_str("launchd has no job ").concat(launchd::LABEL)),
            next: Afterwards::Next(Removal::Looking { was_loaded: false }),
        },
        (JobQuery::Undetermined(why), false) => Move {
            notices: nothing_said(),
            next: Afterwards::Finished(
                Uninstalled::Undetermined { plist: request.plist_path(), reason: why },
            ),
        },
        (JobQuery::Loaded(facts), true) => Move {
            notices: nothing_said(),
            next: Afterwards::Finished(
                Uninstalled::StillLoaded {
                    plist: request.plist_path(),
                    reason: String::from_str("it is still there — ").concat(
                        describe_facts(&facts).as_str(),
                    ),
                },
            ),
        },
        (JobQuery::NotLoaded, true) => Move {
            notices: said(
                String::from_str("launchd confirms ").concat(launchd::LABEL).concat(
                    " is unloaded",
                ),
            ),
            next: Afterwards::Next(Removal::Looking { was_loaded: true }),
        },
        (JobQuery::Undetermined(why), true) => Move {
            notices: nothing_said(),
            next: Afterwards::Finished(
                Uninstalled::StillLoaded {
                    plist: request.plist_path(),
                    reason: String::from_str(
                        "launchd would not say whether the unload worked: ",
                    ).concat(why.as_str()),
                },
            ),
        },
    }
}

fn plist_looked_at(request: &Install, was_loaded: bool, there: Result<bool, String>) -> (step: Move)
    ensures
        is_move(step, *request, Removal::Looking { was_loaded }, Answer::There(there)),
{
    match there {
        Ok(found) => {
            if found {
                Move {
                    notices: nothing_said(),
                    next: Afterwards::Next(Removal::Removing { was_loaded }),
                }
            } else if was_loaded {
                Move {
                    notices: said(
                        String::from_str("there was no plist at ").concat(
                            request.plist_path().as_str(),
                        ).concat(" — the job had been loaded from somewhere else"),
                    ),
                    next: Afterwards::Finished(
                        Uninstalled::Removed { plist: request.plist_path(), was_loaded },
                    ),
                }
            } else {
                Move {
                    notices: nothing_said(),
                    next: Afterwards::Finished(
                        Uninstalled::NothingToRemove { plist: request.plist_path() },
                    ),
                }
            }
        },
        Err(why) => Move {
            notices: nothing_said(),
            next: Afterwards::Finished(
                Uninstalled::PlistRemains {
                    plist: request.plist_path(),
                    reason: String::from_str("it could not be checked for: ").concat(why.as_str()),
                },
            ),
        },
    }
}

/// Goes on with a removal, given what its present task came to. The plist is the only handle on the
/// job, so it goes only once launchd says that the job is gone.
pub fn continue_uninstall(request: &Install, stage: Removal, answer: Answer) -> (step: Move)
    requires
        stage.takes(answer),
    ensures
        is_move(step, *request, stage, answer),
{
    match (stage, answer) {
        (Removal::Asking, Answer::Job(job)) => job_answered(request, false, job),
        (Removal::Confirming, Answer::Job(job)) => job_answered(request, true, job),
        (Removal::Unloading, Answer::Done(done)) => {
            let notices: Vec<String> = match done {
                Ok(_) => nothing_said(),
                Err(why) => said(
                    String::from_str("the unload reported: ").concat(why.as_str()),
                ),
            };
            Move { notices, next: Afterwards::Next(Removal::Confirming) }
        },
        (Removal::Looking { was_loaded }, Answer::There(there)) => plist_looked_at(
            request,
            was_loaded,
            there,
        ),
        (Removal::Removing { was_loaded }, Answer::Done(done)) => match done {
            Ok(_) => Move {
                notices: said(
                    String::from_str("removed ").concat(request.plist_path().as_str()),
                ),
                next: Afterwards::Finished(
                    Uninstalled::Removed { plist: request.plist_path(), was_loaded },
                ),
            },
            Err(why) => Move {
                notices: nothing_said(),
                next: Afterwards::Finished(
                    Uninstalled::PlistRemains { plist: request.plist_path(), reason: why },
                ),
            },
        },
        (_, _) => Move { notices: nothing_said(), next: Afterwards::Next(Removal::Asking) },
    }
}

/// The plist is touched only once launchd has said that it does not have the job: nothing is left
/// running with nothing on disk to explain it.
pub proof fn law_no_job_is_stranded(step: Move, request: Install, stage: Removal, answer: Answer)
    requires
        stage.takes(answer),
        is_move(step, request, stage, answer),
        !stage.knows_it_is_unloaded(),
    ensures
        step.next matches Afterwards::Next(next) ==> (next.knows_it_is_unloaded() ==> answer
            == Answer::Job(JobQuery::NotLoaded) && next is Looking),
        step.next matches Afterwards::Finished(outcome) ==> outcome is Undetermined
            || outcome is StillLoaded,
{
}

// --- What launchd says, in words ---------------------------------------------------------------

/// What launchd says of a job, part by part.
pub open spec fn facts_parts(facts: JobFacts) -> Seq<Seq<char>> {
    let first = seq![
        match (facts.running, facts.pid) {
            (Some(true), Some(pid)) => "running as pid "@ + text::decimal(pid as nat),
            (Some(true), None) => "running, and launchd reported no pid"@,
            (Some(false), _) => "not running at this moment"@,
            (None, Some(pid)) => "pid "@ + text::decimal(pid as nat)
                + ", and launchd reported no state"@,
            (None, None) => "launchd reported neither a pid nor a state"@,
        },
    ];
    let second = match facts.runs {
        Some(runs) => first.push(
            "started "@ + text::decimal(runs as nat) + " time"@ + (if runs == 1 {
                ""@
            } else {
                "s"@
            })
                + " by launchd (a durable launch record, with downtime and whether each exit was clean, is #28)"@,
        ),
        None => first,
    };
    match facts.last_exit {
        Some(code) => second.push("last exit code "@ + code@),
        None => second,
    }
}

/// What launchd says of a job, in words.
pub open spec fn facts_words(facts: JobFacts) -> Seq<char> {
    text::joined(facts_parts(facts), "; "@)
}

/// What launchd says of a job, in words.
pub fn describe_facts(facts: &JobFacts) -> (words: String)
    ensures
        words@ == facts_words(*facts),
{
    let first: String = match (facts.running, facts.pid) {
        (Some(true), Some(pid)) => String::from_str("running as pid ").concat(
            text::decimal_of(pid as u128).as_str(),
        ),
        (Some(true), None) => String::from_str("running, and launchd reported no pid"),
        (Some(false), _) => String::from_str("not running at this moment"),
        (None, Some(pid)) => String::from_str("pid ").concat(
            text::decimal_of(pid as u128).as_str(),
        ).concat(", and launchd reported no state"),
        (None, None) => String::from_str("launchd reported neither a pid nor a state"),
    };
    let mut parts: Vec<String> = said(first);
    if let Some(runs) = facts.runs {
        say(
            &mut parts,
            String::from_str("started ").concat(text::decimal_of(runs as u128).as_str()).concat(
                " time",
            ).concat(
                if runs == 1 {
                    ""
                } else {
                    "s"
                },
            ).concat(
                " by launchd (a durable launch record, with downtime and whether each exit was clean, is #28)",
            ),
        );
    }
    if let Some(code) = &facts.last_exit {
        say(&mut parts, String::from_str("last exit code ").concat(code.as_str()));
    }
    assert(text::texts(parts@) =~= facts_parts(*facts));
    text::join(&parts, "; ")
}

} // verus!
