//! What is known of the installed monitor: whether its job is loaded, whether anything runs, and how
//! old its last write is.

use crate::launchd;
use crate::launchd::install;
use crate::launchd::install::Install;
use crate::launchd::JobQuery;
use crate::starts::Examined;
use crate::state::StateStore;
use crate::text;
use crate::time::{Duration, SystemTime};
use vstd::prelude::*;

verus! {

/// Who vouches for an answer.
#[derive(Debug, Clone, Copy, PartialEq, Eq, Structural)]
pub enum Evidence {
    Launchd,
    StateFileWriter,
}

impl Evidence {
    /// Who vouches, in words.
    pub open spec fn words(self) -> Seq<char> {
        match self {
            Evidence::Launchd => "launchd"@,
            Evidence::StateFileWriter => "the writer pid in state.json"@,
        }
    }

    /// Who vouches, in words.
    pub fn to_text(&self) -> (words: &'static str)
        ensures
            words@ == self.words(),
    {
        match self {
            Evidence::Launchd => "launchd",
            Evidence::StateFileWriter => "the writer pid in state.json",
        }
    }
}

/// Whether a monitor runs.
#[derive(Debug, PartialEq, Eq)]
pub enum ProcessAnswer {
    Running { pid: u32, from: Evidence },
    NotRunning { from: Evidence },
    Undetermined(String),
}

/// Whether this is the answer to whether a monitor runs.
pub open spec fn is_process_answer(
    answer: ProcessAnswer,
    job: JobQuery,
    writer: Option<u32>,
    writer_alive: bool,
) -> bool {
    match job {
        JobQuery::Loaded(facts) => match (facts.pid, facts.running) {
            (Some(pid), _) => answer == (ProcessAnswer::Running { pid, from: Evidence::Launchd }),
            (None, Some(false)) => answer == (ProcessAnswer::NotRunning {
                from: Evidence::Launchd,
            }),
            (None, _) => match writer {
                Some(pid) => is_writers_answer(answer, pid, writer_alive),
                None => answer matches ProcessAnswer::Undetermined(why) && why@
                    == "launchd reported neither a pid nor a state for the job, and state.json names no writer"@,
            },
        },
        JobQuery::NotLoaded => match writer {
            Some(pid) => is_writers_answer(answer, pid, writer_alive),
            None => answer == (ProcessAnswer::NotRunning { from: Evidence::StateFileWriter }),
        },
        JobQuery::Undetermined(reason) => match writer {
            Some(pid) => is_writers_answer(answer, pid, writer_alive),
            None => answer matches ProcessAnswer::Undetermined(why) && why@
                == "launchd could not be asked ("@ + reason@ + ") and state.json names no writer"@,
        },
    }
}

/// Whether this is the answer where only the state's writer is known.
pub open spec fn is_writers_answer(answer: ProcessAnswer, pid: u32, alive: bool) -> bool {
    answer == if alive {
        ProcessAnswer::Running { pid, from: Evidence::StateFileWriter }
    } else {
        ProcessAnswer::NotRunning { from: Evidence::StateFileWriter }
    }
}

impl ProcessAnswer {
    /// Whether a monitor runs: launchd's word, where it gives one, and otherwise whether the writer of
    /// the last state is alive.
    pub fn determine(job: &JobQuery, writer: Option<u32>, writer_alive: bool) -> (answer: ProcessAnswer)
        ensures
            is_process_answer(answer, *job, writer, writer_alive),
    {
        if let JobQuery::Loaded(facts) = job {
            match (facts.pid, facts.running) {
                (Some(pid), _) => {
                    return ProcessAnswer::Running { pid, from: Evidence::Launchd };
                },
                (None, Some(false)) => {
                    return ProcessAnswer::NotRunning { from: Evidence::Launchd };
                },
                (None, _) => {},
            }
        }
        match writer {
            Some(pid) => if writer_alive {
                ProcessAnswer::Running { pid, from: Evidence::StateFileWriter }
            } else {
                ProcessAnswer::NotRunning { from: Evidence::StateFileWriter }
            },
            None => match job {
                JobQuery::NotLoaded => ProcessAnswer::NotRunning {
                    from: Evidence::StateFileWriter,
                },
                JobQuery::Undetermined(reason) => ProcessAnswer::Undetermined(
                    String::from_str("launchd could not be asked (").concat(
                        reason.as_str(),
                    ).concat(") and state.json names no writer"),
                ),
                JobQuery::Loaded(_) => ProcessAnswer::Undetermined(
                    String::from_str(
                        "launchd reported neither a pid nor a state for the job, and state.json names no writer",
                    ),
                ),
            },
        }
    }
}

/// A pid that launchd gives is believed over whatever the state file names.
pub proof fn law_launchd_knows_best(
    answer: ProcessAnswer,
    facts: launchd::JobFacts,
    writer: Option<u32>,
    writer_alive: bool,
)
    requires
        facts.pid is Some,
        is_process_answer(answer, JobQuery::Loaded(facts), writer, writer_alive),
    ensures
        answer == (ProcessAnswer::Running { pid: facts.pid->0, from: Evidence::Launchd }),
{
}

// --- The last write ----------------------------------------------------------------------------

/// When the state was last written.
#[derive(Debug, PartialEq, Eq)]
pub enum LastWrite {
    Age { path: String, age: Duration, writer_pid: Option<u32> },
    Absent { path: String },
    AheadOfTheClock { path: String, ahead: Duration },
    Unreadable { path: String, reason: String },
}

/// Whether this is when the state was last written.
pub open spec fn is_last_write(
    last: LastWrite,
    path: Seq<char>,
    examined: Examined,
    writer: Option<u32>,
    now: SystemTime,
) -> bool {
    match examined {
        Examined::Modified(modified) => match now.since(modified) {
            Some(gap) => last matches LastWrite::Age { path: at, age, writer_pid } && at@ == path
                && age == gap && writer_pid == writer,
            None => last matches LastWrite::AheadOfTheClock { path: at, ahead } && at@ == path
                && ahead == modified.since(now)->0,
        },
        Examined::WithoutTime(why) => last matches LastWrite::Unreadable { path: at, reason } && at@
            == path && reason@ == "its modification time could not be read: "@ + why@,
        Examined::NotFound => last matches LastWrite::Absent { path: at } && at@ == path,
        Examined::Failed(why) => last matches LastWrite::Unreadable { path: at, reason } && at@
            == path && reason == why,
    }
}

impl LastWrite {
    /// When the state was last written, given what looking at its file came to and the writer it
    /// names.
    pub fn of(
        store: &StateStore,
        examined: Examined,
        writer: Option<u32>,
        now: SystemTime,
    ) -> (last: LastWrite)
        ensures
            is_last_write(
                last,
                text::child(store.works_in().state@, "state.json"@),
                examined,
                writer,
                now,
            ),
    {
        let path: String = store.file("state.json");
        match examined {
            Examined::Modified(modified) => match now.duration_since(modified) {
                Some(age) => LastWrite::Age { path, age, writer_pid: writer },
                None => match modified.duration_since(now) {
                    Some(ahead) => LastWrite::AheadOfTheClock { path, ahead },
                    None => LastWrite::Absent { path },
                },
            },
            Examined::WithoutTime(why) => LastWrite::Unreadable {
                path,
                reason: String::from_str("its modification time could not be read: ").concat(
                    why.as_str(),
                ),
            },
            Examined::NotFound => LastWrite::Absent { path },
            Examined::Failed(why) => LastWrite::Unreadable { path, reason: why },
        }
    }

    /// Who wrote it, where that is known.
    pub fn writer_pid(&self) -> (pid: Option<u32>)
        ensures
            pid == match *self {
                LastWrite::Age { writer_pid, .. } => writer_pid,
                _ => None,
            },
    {
        match self {
            LastWrite::Age { writer_pid, .. } => *writer_pid,
            LastWrite::Absent { .. } | LastWrite::AheadOfTheClock { .. }
            | LastWrite::Unreadable { .. } => None,
        }
    }

    /// Whether there is an answer.
    pub fn determined(&self) -> (determined: bool)
        ensures
            determined == (self is Age || self is Absent),
    {
        match self {
            LastWrite::Age { .. } | LastWrite::Absent { .. } => true,
            LastWrite::AheadOfTheClock { .. } | LastWrite::Unreadable { .. } => false,
        }
    }
}

// --- The whole answer --------------------------------------------------------------------------

/// What is known of the installed monitor.
#[derive(Debug, PartialEq, Eq)]
pub struct Status {
    pub plist: String,
    pub plist_present: Result<bool, String>,
    pub job: JobQuery,
    pub process: ProcessAnswer,
    pub last_write: LastWrite,
    pub launchctl_override: Option<String>,
}

/// Whether this is how the installation stands.
pub open spec fn is_status(
    status: Status,
    request: Install,
    plist_present: Result<bool, String>,
    job: JobQuery,
    last_write: LastWrite,
    writer_alive: bool,
) -> bool {
    &&& status.plist@ == request.place()
    &&& status.plist_present == plist_present
    &&& status.job == job
    &&& status.last_write == last_write
    &&& status.launchctl_override == request.launchctl_override
    &&& is_process_answer(
        status.process,
        job,
        match last_write {
            LastWrite::Age { writer_pid, .. } => writer_pid,
            _ => None,
        },
        writer_alive,
    )
}

/// What is known of the installed monitor, from what launchd, the plist's path and the state file
/// gave.
pub fn status(
    request: &Install,
    plist_present: Result<bool, String>,
    job: JobQuery,
    last_write: LastWrite,
    writer_alive: bool,
) -> (status: Status)
    ensures
        is_status(status, *request, plist_present, job, last_write, writer_alive),
{
    let process: ProcessAnswer = ProcessAnswer::determine(
        &job,
        last_write.writer_pid(),
        writer_alive,
    );
    Status {
        plist: request.plist_path(),
        plist_present,
        job,
        process,
        last_write,
        launchctl_override: match &request.launchctl_override {
            Some(path) => Some(path.clone()),
            None => None,
        },
    }
}

impl Status {
    /// Whether every question has an answer.
    pub open spec fn answers_everything(self) -> bool {
        &&& !(self.job is Undetermined)
        &&& !(self.process is Undetermined)
        &&& self.last_write is Age || self.last_write is Absent
        &&& self.plist_present is Ok
    }

    /// Whether every question has an answer.
    pub fn complete(&self) -> (complete: bool)
        ensures
            complete == self.answers_everything(),
    {
        let job: bool = match self.job {
            JobQuery::Undetermined(_) => false,
            JobQuery::Loaded(_) | JobQuery::NotLoaded => true,
        };
        let process: bool = match self.process {
            ProcessAnswer::Undetermined(_) => false,
            ProcessAnswer::Running { .. } | ProcessAnswer::NotRunning { .. } => true,
        };
        job && process && self.last_write.determined() && self.plist_present.is_ok()
    }

    /// The questions without an answer, each with why it has none.
    pub open spec fn open_questions(self) -> Seq<Seq<char>> {
        let one = match self.job {
            JobQuery::Undetermined(reason) => seq![
                "whether the job "@ + launchd::LABEL@ + " is loaded: "@ + reason@,
            ],
            _ => Seq::empty(),
        };
        let two = match self.process {
            ProcessAnswer::Undetermined(reason) => one.push(
                "whether a monitor process is running: "@ + reason@,
            ),
            _ => one,
        };
        let three = match self.last_write {
            LastWrite::Unreadable { path, reason } => two.push(
                "the age of the last write: "@ + path@ + " could not be read ("@ + reason@ + ")"@,
            ),
            LastWrite::AheadOfTheClock { path, ahead } => two.push(
                "the age of the last write: "@ + path@ + " is stamped "@ + duration_words(ahead)
                    + " ahead of this machine's clock"@,
            ),
            _ => two,
        };
        match self.plist_present {
            Err(reason) => three.push("whether "@ + self.plist@ + " is there: "@ + reason@),
            Ok(_) => three,
        }
    }

    /// The questions without an answer, each with why it has none.
    pub fn unanswered(&self) -> (missing: Vec<String>)
        ensures
            text::texts(missing@) == self.open_questions(),
    {
        let mut missing: Vec<String> = install::nothing_said();
        if let JobQuery::Undetermined(reason) = &self.job {
            install::say(
                &mut missing,
                String::from_str("whether the job ").concat(launchd::LABEL).concat(
                    " is loaded: ",
                ).concat(reason.as_str()),
            );
        }
        assert(self.job is Undetermined ==> text::texts(missing@) =~= seq![
            "whether the job "@ + launchd::LABEL@ + " is loaded: "@ + self.job->Undetermined_0@,
        ]);
        if let ProcessAnswer::Undetermined(reason) = &self.process {
            install::say(
                &mut missing,
                String::from_str("whether a monitor process is running: ").concat(
                    reason.as_str(),
                ),
            );
        }
        match &self.last_write {
            LastWrite::Unreadable { path, reason } => {
                install::say(
                    &mut missing,
                    String::from_str("the age of the last write: ").concat(path.as_str()).concat(
                        " could not be read (",
                    ).concat(reason.as_str()).concat(")"),
                );
            },
            LastWrite::AheadOfTheClock { path, ahead } => {
                install::say(
                    &mut missing,
                    String::from_str("the age of the last write: ").concat(path.as_str()).concat(
                        " is stamped ",
                    ).concat(describe_duration(*ahead).as_str()).concat(
                        " ahead of this machine's clock",
                    ),
                );
            },
            LastWrite::Age { .. } | LastWrite::Absent { .. } => {},
        }
        if let Err(reason) = &self.plist_present {
            install::say(
                &mut missing,
                String::from_str("whether ").concat(self.plist.as_str()).concat(
                    " is there: ",
                ).concat(reason.as_str()),
            );
        }
        missing
    }

    /// The line about the plist.
    pub open spec fn plist_line(self) -> Seq<char> {
        match self.plist_present {
            Ok(true) => "plist: present at "@ + self.plist@,
            Ok(false) => "plist: absent — nothing at "@ + self.plist@,
            Err(reason) => "plist: UNDETERMINED — "@ + self.plist@ + " could not be checked for: "@
                + reason@,
        }
    }

    /// The line about the job.
    pub open spec fn job_line(self) -> Seq<char> {
        match self.job {
            JobQuery::Loaded(facts) => "job "@ + launchd::LABEL@ + ": loaded — "@
                + install::facts_words(facts),
            JobQuery::NotLoaded => "job "@ + launchd::LABEL@
                + ": NOT loaded — launchd has no such job, so nothing is being monitored from a login session. `amon install` loads it."@,
            JobQuery::Undetermined(reason) => "job "@ + launchd::LABEL@
                + ": UNDETERMINED — launchd could not be asked: "@ + reason@
                + ". This is not the same as the job being absent."@,
        }
    }

    /// The line about the process.
    pub open spec fn process_line(self) -> Seq<char> {
        match self.process {
            ProcessAnswer::Running { pid, from } => "process: running as pid "@ + text::decimal(
                pid as nat,
            ) + ", according to "@ + from.words(),
            ProcessAnswer::NotRunning { from } => "process: NOT running, according to "@
                + from.words()
                + " — no monitor is writing state or sending alerts right now"@,
            ProcessAnswer::Undetermined(reason) => "process: UNDETERMINED — "@ + reason@,
        }
    }

    /// The line about the last write.
    pub open spec fn write_line(self) -> Seq<char> {
        match self.last_write {
            LastWrite::Age { path, age, writer_pid } => "last write: "@ + duration_words(age)
                + " ago, to "@ + path@ + match writer_pid {
                Some(pid) => ", by pid "@ + text::decimal(pid as nat),
                None => ""@,
            },
            LastWrite::Absent { path } => "last write: none — "@ + path@
                + " has never been written, so no monitor has ever completed a pass here"@,
            LastWrite::AheadOfTheClock { path, ahead } => "last write: UNDETERMINED — "@ + path@
                + " is stamped "@ + duration_words(ahead)
                + " ahead of this machine's clock, so its age cannot be computed"@,
            LastWrite::Unreadable { path, reason } => "last write: UNDETERMINED — "@ + path@
                + " could not be read: "@ + reason@,
        }
    }

    /// The whole answer, line by line.
    pub open spec fn report(self) -> Seq<Seq<char>> {
        let first = match self.launchctl_override {
            Some(overridden) => seq![
                "launchd: NOT ASKED — ACMON_LAUNCHCTL points at "@ + overridden@
                    + ", so nothing below describes a real login session"@,
            ],
            None => Seq::empty(),
        };
        first.push(self.plist_line()).push(self.job_line()).push(self.process_line()).push(
            self.write_line(),
        )
    }

    fn plist_text(&self) -> (line: String)
        ensures
            line@ == self.plist_line(),
    {
        match &self.plist_present {
            Ok(true) => String::from_str("plist: present at ").concat(self.plist.as_str()),
            Ok(false) => String::from_str("plist: absent — nothing at ").concat(
                self.plist.as_str(),
            ),
            Err(reason) => String::from_str("plist: UNDETERMINED — ").concat(
                self.plist.as_str(),
            ).concat(" could not be checked for: ").concat(reason.as_str()),
        }
    }

    fn job_text(&self) -> (line: String)
        ensures
            line@ == self.job_line(),
    {
        let start: String = String::from_str("job ").concat(launchd::LABEL);
        match &self.job {
            JobQuery::Loaded(facts) => start.concat(": loaded — ").concat(
                install::describe_facts(facts).as_str(),
            ),
            JobQuery::NotLoaded => start.concat(
                ": NOT loaded — launchd has no such job, so nothing is being monitored from a login session. `amon install` loads it.",
            ),
            JobQuery::Undetermined(reason) => start.concat(
                ": UNDETERMINED — launchd could not be asked: ",
            ).concat(reason.as_str()).concat(". This is not the same as the job being absent."),
        }
    }

    fn process_text(&self) -> (line: String)
        ensures
            line@ == self.process_line(),
    {
        match &self.process {
            ProcessAnswer::Running { pid, from } => String::from_str(
                "process: running as pid ",
            ).concat(text::decimal_of(*pid as u128).as_str()).concat(", according to ").concat(
                from.to_text(),
            ),
            ProcessAnswer::NotRunning { from } => String::from_str(
                "process: NOT running, according to ",
            ).concat(from.to_text()).concat(
                " — no monitor is writing state or sending alerts right now",
            ),
            ProcessAnswer::Undetermined(reason) => String::from_str(
                "process: UNDETERMINED — ",
            ).concat(reason.as_str()),
        }
    }

    fn write_text(&self) -> (line: String)
        ensures
            line@ == self.write_line(),
    {
        match &self.last_write {
            LastWrite::Age { path, age, writer_pid } => {
                let writer: String = match writer_pid {
                    Some(pid) => String::from_str(", by pid ").concat(
                        text::decimal_of(*pid as u128).as_str(),
                    ),
                    None => String::from_str(""),
                };
                String::from_str("last write: ").concat(describe_duration(*age).as_str()).concat(
                    " ago, to ",
                ).concat(path.as_str()).concat(writer.as_str())
            },
            LastWrite::Absent { path } => String::from_str("last write: none — ").concat(
                path.as_str(),
            ).concat(" has never been written, so no monitor has ever completed a pass here"),
            LastWrite::AheadOfTheClock { path, ahead } => String::from_str(
                "last write: UNDETERMINED — ",
            ).concat(path.as_str()).concat(" is stamped ").concat(
                describe_duration(*ahead).as_str(),
            ).concat(" ahead of this machine's clock, so its age cannot be computed"),
            LastWrite::Unreadable { path, reason } => String::from_str(
                "last write: UNDETERMINED — ",
            ).concat(path.as_str()).concat(" could not be read: ").concat(reason.as_str()),
        }
    }

    /// The whole answer, line by line.
    pub fn lines(&self) -> (lines: Vec<String>)
        ensures
            text::texts(lines@) == self.report(),
    {
        let mut lines: Vec<String> = install::nothing_said();
        if let Some(overridden) = &self.launchctl_override {
            install::say(
                &mut lines,
                String::from_str("launchd: NOT ASKED — ACMON_LAUNCHCTL points at ").concat(
                    overridden.as_str(),
                ).concat(", so nothing below describes a real login session"),
            );
        }
        assert(self.launchctl_override matches Some(overridden) ==> text::texts(lines@) =~= seq![
            "launchd: NOT ASKED — ACMON_LAUNCHCTL points at "@ + overridden@
                + ", so nothing below describes a real login session"@,
        ]);
        install::say(&mut lines, self.plist_text());
        install::say(&mut lines, self.job_text());
        install::say(&mut lines, self.process_text());
        install::say(&mut lines, self.write_text());
        lines
    }
}

/// A status is complete exactly when it leaves no question open.
pub proof fn law_a_complete_status_leaves_nothing_open(status: Status)
    ensures
        status.answers_everything() <==> status.open_questions().len() == 0,
{
}

/// A span of time in its two largest units, rounded down, but never to nothing.
pub open spec fn duration_words(span: Duration) -> Seq<char> {
    let seconds = span.secs();
    if seconds == 0 && span.nanos > 0 {
        "less than 1s"@
    } else if seconds < 60 {
        text::decimal(seconds) + "s"@
    } else if seconds < 3_600 {
        text::decimal(seconds / 60) + "m "@ + text::decimal(seconds % 60) + "s"@
    } else if seconds < 86_400 {
        text::decimal(seconds / 3_600) + "h "@ + text::decimal((seconds % 3_600) / 60) + "m"@
    } else {
        text::decimal(seconds / 86_400) + "d "@ + text::decimal((seconds % 86_400) / 3_600) + "h"@
    }
}

/// A span that is not nothing is never described as nothing.
pub proof fn law_no_span_is_rounded_down_to_nothing(span: Duration)
    ensures
        duration_words(span) == duration_words(Duration { nanos: 0 }) <==> span.nanos == 0,
{
    let seconds = span.secs();
    let nothing = duration_words(Duration { nanos: 0 });
    reveal_strlit("s");
    reveal_strlit("m ");
    reveal_strlit("h ");
    reveal_strlit("d ");
    reveal_strlit("less than 1s");
    assert(nothing =~= seq!['0', 's']);
    if span.nanos > 0 && seconds > 0 {
        let (figure, unit) = if seconds < 60 {
            (seconds, "s"@)
        } else if seconds < 3_600 {
            (seconds / 60, "m "@ + text::decimal(seconds % 60) + "s"@)
        } else if seconds < 86_400 {
            (seconds / 3_600, "h "@ + text::decimal((seconds % 3_600) / 60) + "m"@)
        } else {
            (seconds / 86_400, "d "@ + text::decimal((seconds % 86_400) / 3_600) + "h"@)
        };
        assert(duration_words(span) =~= text::decimal(figure) + unit);
        text::lemma_decimal_is_digits(figure);
        text::lemma_first_digit(figure);
        assert(duration_words(span)[0] == text::decimal(figure)[0]);
    }
}

/// A span of time in its two largest units, rounded down, but never to nothing.
pub fn describe_duration(duration: Duration) -> (words: String)
    ensures
        words@ == duration_words(duration),
{
    let seconds: u128 = duration.as_secs();
    if seconds == 0 && duration.nanos > 0 {
        return String::from_str("less than 1s");
    }
    if seconds < 60 {
        return text::decimal_of(seconds).concat("s");
    }
    if seconds < 3_600 {
        return text::decimal_of(seconds / 60).concat("m ").concat(
            text::decimal_of(seconds % 60).as_str(),
        ).concat("s");
    }
    if seconds < 86_400 {
        return text::decimal_of(seconds / 3_600).concat("h ").concat(
            text::decimal_of((seconds % 3_600) / 60).as_str(),
        ).concat("m");
    }
    text::decimal_of(seconds / 86_400).concat("d ").concat(
        text::decimal_of((seconds % 86_400) / 3_600).as_str(),
    ).concat("h")
}

} // verus!
