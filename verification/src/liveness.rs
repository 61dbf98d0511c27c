//! Whether a session is working, waiting or gone, as far as that can be told from outside.

use crate::memory;
use crate::text;
use crate::time::Duration;
use vstd::prelude::*;

verus! {

/// What a session is doing.
#[derive(Debug, Clone, Copy, PartialEq, Eq, Structural)]
pub enum State {
    Active,
    Waiting,
    Stalled,
    Unknown,
}

impl State {
    /// The word the state is shown under.
    pub open spec fn word(self) -> Seq<char> {
        match self {
            State::Active => "ACTIVE"@,
            State::Waiting => "WAITING"@,
            State::Stalled => "STALLED"@,
            State::Unknown => "UNKNOWN"@,
        }
    }

    /// The word the state is shown under.
    pub fn label(&self) -> (word: &'static str)
        ensures
            word@ == self.word(),
    {
        match self {
            State::Active => "ACTIVE",
            State::Waiting => "WAITING",
            State::Stalled => "STALLED",
            State::Unknown => "UNKNOWN",
        }
    }
}

/// How a state was arrived at.
#[derive(Debug, Clone, Copy, PartialEq, Eq, Structural)]
pub enum Method {
    TranscriptActivityUnknown,
    SnapshotCannotEstablishAbsence,
    TranscriptChangedRecently,
    ProcessResidentButSilent,
    WorkRunningInWorkspace,
    NoProcessAndSilencePastStall,
    ProcessAbsentBeforeStallThreshold,
}

impl Method {
    /// Whether the state was inferred from silence rather than observed.
    pub fn is_inferred(&self) -> (inferred: bool)
        ensures
            inferred == (*self is ProcessResidentButSilent || *self is WorkRunningInWorkspace),
    {
        match self {
            Method::ProcessResidentButSilent | Method::WorkRunningInWorkspace => true,
            _ => false,
        }
    }

    /// The method in a few words.
    pub open spec fn words(self) -> Seq<char> {
        match self {
            Method::TranscriptActivityUnknown => "transcript unknown"@,
            Method::SnapshotCannotEstablishAbsence => "snapshot untrustworthy"@,
            Method::TranscriptChangedRecently => "transcript changed"@,
            Method::ProcessResidentButSilent => "process resident, silent"@,
            Method::WorkRunningInWorkspace => "work running"@,
            Method::NoProcessAndSilencePastStall => "no process, stale"@,
            Method::ProcessAbsentBeforeStallThreshold => "process absent, unsure"@,
        }
    }

    /// The method in a few words.
    pub fn to_text(&self) -> (words: &'static str)
        ensures
            words@ == self.words(),
    {
        match self {
            Method::TranscriptActivityUnknown => "transcript unknown",
            Method::SnapshotCannotEstablishAbsence => "snapshot untrustworthy",
            Method::TranscriptChangedRecently => "transcript changed",
            Method::ProcessResidentButSilent => "process resident, silent",
            Method::WorkRunningInWorkspace => "work running",
            Method::NoProcessAndSilencePastStall => "no process, stale",
            Method::ProcessAbsentBeforeStallThreshold => "process absent, unsure",
        }
    }
}

/// A state, and how it was arrived at.
#[derive(Debug, Clone, Copy, PartialEq, Eq, Structural)]
pub struct Verdict {
    pub state: State,
    pub method: Method,
}

/// How long silence lasts before it means something.
#[derive(Debug, Clone, Copy, PartialEq, Eq, Structural)]
pub struct Thresholds {
    /// Up to here a transcript counts as having changed just now.
    pub quiet: Duration,
    /// Past here a session without a process counts as gone.
    pub stall: Duration,
    /// Past here a settled workspace is no longer remembered.
    pub forget: Duration,
}

impl Default for Thresholds {
    fn default() -> (thresholds: Thresholds)
        ensures
            thresholds == Thresholds::usual(),
    {
        Thresholds {
            quiet: Duration { nanos: 600_000_000_000 },
            stall: Duration { nanos: 43_200_000_000_000 },
            forget: memory::default_forget(),
        }
    }
}

/// The environment variable for the quiet threshold.
pub const QUIET_THRESHOLD_VARIABLE: &'static str = "ACMON_QUIET_SECONDS";

/// The environment variable for the stall threshold.
pub const STALL_THRESHOLD_VARIABLE: &'static str = "ACMON_STALL_SECONDS";

/// A number of seconds as a setting gives it: the usual one where it gives none, and otherwise a
/// natural number with white space around it allowed.
pub open spec fn seconds_setting(value: Option<Seq<char>>, usual: Duration) -> Result<
    Duration,
    text::NumberFault,
> {
    match value {
        None => Ok(usual),
        Some(given) => match text::natural(text::trimmed(given), u64::MAX as nat) {
            Ok(seconds) => Ok(Duration { nanos: (seconds * 1_000_000_000) as u128 }),
            Err(fault) => Err(fault),
        },
    }
}

/// What is said of a setting that is no number of seconds.
pub open spec fn not_seconds(name: Seq<char>, given: Seq<char>, fault: text::NumberFault) -> Seq<
    char,
> {
    name + " is "@ + text::quoted(given) + ", which is not a number of seconds: "@ + fault.words()
}

/// The characters of an optional text.
pub open spec fn given(value: Option<&str>) -> Option<Seq<char>> {
    match value {
        Some(found) => Some(found@),
        None => None,
    }
}

/// Reads a number of seconds out of a setting.
pub fn read_seconds(value: Option<&str>, name: &str, usual: Duration) -> (span: Result<
    Duration,
    String,
>)
    ensures
        match span {
            Ok(found) => seconds_setting(given(value), usual) == Ok::<Duration, text::NumberFault>(
                found,
            ),
            Err(why) => value is Some && exists|fault: text::NumberFault|
                seconds_setting(given(value), usual) == Err::<Duration, text::NumberFault>(fault)
                    && why@ == #[trigger] not_seconds(name@, value->0@, fault),
        },
{
    match value {
        None => Ok(usual),
        Some(found) => {
            let trimmed: Vec<char> = text::trim(&text::characters(found));
            match text::parse_u64(&trimmed) {
                Ok(seconds) => Ok(Duration::from_secs(seconds)),
                Err(fault) => {
                    let why = name.to_owned().concat(" is ").concat(
                        text::quote(found).as_str(),
                    ).concat(", which is not a number of seconds: ").concat(fault.to_text());
                    assert(why@ == not_seconds(name@, found@, fault));
                    Err(why)
                },
            }
        },
    }
}

/// Whether these are the thresholds that the settings give.
pub open spec fn are_thresholds(
    result: Result<Thresholds, String>,
    quiet: Option<&str>,
    stall: Option<&str>,
    forget: Option<&str>,
) -> bool {
    let usual = Thresholds::usual();
    let quieted = seconds_setting(given(quiet), usual.quiet);
    let stalled = seconds_setting(given(stall), usual.stall);
    let forgotten = seconds_setting(given(forget), usual.forget);
    match result {
        Ok(found) => {
            &&& quieted == Ok::<Duration, text::NumberFault>(found.quiet)
            &&& stalled == Ok::<Duration, text::NumberFault>(found.stall)
            &&& forgotten == Ok::<Duration, text::NumberFault>(found.forget)
            &&& found.stall.nanos >= found.quiet.nanos
        },
        Err(why) => {
            ||| quieted matches Err(fault) && why@ == not_seconds(
                "ACMON_QUIET_SECONDS"@,
                quiet->0@,
                fault,
            )
            ||| quieted is Ok && (stalled matches Err(fault) && why@ == not_seconds(
                "ACMON_STALL_SECONDS"@,
                stall->0@,
                fault,
            ))
            ||| quieted is Ok && stalled is Ok && (forgotten matches Err(fault) && why@
                == not_seconds("ACMON_FORGET_SECONDS"@, forget->0@, fault))
            ||| forgotten is Ok && (quieted matches Ok(q) && (stalled matches Ok(s)
                && s.nanos < q.nanos && why@ == Thresholds::out_of_order(s, q)))
        },
    }
}

impl Thresholds {
    /// Ten minutes, twelve hours and seven days.
    pub open spec fn usual() -> Thresholds {
        Thresholds {
            quiet: Duration { nanos: 600_000_000_000 },
            stall: Duration { nanos: 43_200_000_000_000 },
            forget: memory::forget_by_default(),
        }
    }

    /// What is said where the stall threshold lies below the quiet one.
    pub open spec fn out_of_order(stall: Duration, quiet: Duration) -> Seq<char> {
        "ACMON_STALL_SECONDS ("@ + text::decimal(stall.secs())
            + "s) is below ACMON_QUIET_SECONDS ("@ + text::decimal(quiet.secs())
            + "s), which would put a session past stalled while still counting as active"@
    }

    /// Thresholds from three settings. Each that is given has to be a number of seconds, the first that
    /// is not is the one reported, and stalling may not come before quiet.
    pub fn from_values(quiet: Option<&str>, stall: Option<&str>, forget: Option<&str>) -> (result:
        Result<Thresholds, String>)
        ensures
            are_thresholds(result, quiet, stall, forget),
    {
        let usual: Thresholds = Thresholds::default();
        let quiet: Duration = match read_seconds(quiet, "ACMON_QUIET_SECONDS", usual.quiet) {
            Ok(found) => found,
            Err(why) => {
                return Err(why);
            },
        };
        let stall: Duration = match read_seconds(stall, "ACMON_STALL_SECONDS", usual.stall) {
            Ok(found) => found,
            Err(why) => {
                return Err(why);
            },
        };
        let forget: Duration = match memory::retention_from_value(forget) {
            Ok(found) => found,
            Err(why) => {
                return Err(why);
            },
        };
        if stall.nanos < quiet.nanos {
            return Err(
                String::from_str("ACMON_STALL_SECONDS (").concat(
                    text::decimal_of(stall.as_secs()).as_str(),
                ).concat("s) is below ACMON_QUIET_SECONDS (").concat(
                    text::decimal_of(quiet.as_secs()).as_str(),
                ).concat(
                    "s), which would put a session past stalled while still counting as active",
                ),
            );
        }
        Ok(Thresholds { quiet, stall, forget })
    }
}

/// What was seen of a session.
#[derive(Debug, Clone, Copy, PartialEq, Eq)]
pub struct Observation {
    /// How long its transcript has not changed, if that is known.
    pub silence: Option<Duration>,
    pub process_resident: bool,
    pub work_running_in_workspace: bool,
    /// Whether a process that was not seen is known not to be there.
    pub snapshot_trustworthy: bool,
}

/// The verdict on what was seen. The first row that applies decides.
pub open spec fn verdict(seen: Observation, thresholds: Thresholds) -> Verdict {
    if seen.silence is None {
        Verdict { state: State::Unknown, method: Method::TranscriptActivityUnknown }
    } else if !seen.snapshot_trustworthy && !seen.process_resident {
        Verdict { state: State::Unknown, method: Method::SnapshotCannotEstablishAbsence }
    } else if seen.silence->0.nanos <= thresholds.quiet.nanos {
        Verdict { state: State::Active, method: Method::TranscriptChangedRecently }
    } else if seen.process_resident {
        Verdict { state: State::Waiting, method: Method::ProcessResidentButSilent }
    } else if seen.work_running_in_workspace {
        Verdict { state: State::Waiting, method: Method::WorkRunningInWorkspace }
    } else if seen.silence->0.nanos > thresholds.stall.nanos {
        Verdict { state: State::Stalled, method: Method::NoProcessAndSilencePastStall }
    } else {
        Verdict { state: State::Unknown, method: Method::ProcessAbsentBeforeStallThreshold }
    }
}

/// The verdict on what was seen.
pub fn classify(observation: &Observation, thresholds: &Thresholds) -> (found: Verdict)
    ensures
        found == verdict(*observation, *thresholds),
{
    let silence: Duration = match observation.silence {
        Some(span) => span,
        None => {
            return Verdict { state: State::Unknown, method: Method::TranscriptActivityUnknown };
        },
    };
    if !observation.snapshot_trustworthy && !observation.process_resident {
        return Verdict { state: State::Unknown, method: Method::SnapshotCannotEstablishAbsence };
    }
    if silence.nanos <= thresholds.quiet.nanos {
        return Verdict { state: State::Active, method: Method::TranscriptChangedRecently };
    }
    if observation.process_resident {
        return Verdict { state: State::Waiting, method: Method::ProcessResidentButSilent };
    }
    if observation.work_running_in_workspace {
        return Verdict { state: State::Waiting, method: Method::WorkRunningInWorkspace };
    }
    if silence.nanos > thresholds.stall.nanos {
        return Verdict { state: State::Stalled, method: Method::NoProcessAndSilencePastStall };
    }
    Verdict { state: State::Unknown, method: Method::ProcessAbsentBeforeStallThreshold }
}

/// A session is called stalled only where its process is known to be gone, nothing works in its
/// workspace, and its silence is past both thresholds.
pub proof fn law_stalled_is_never_a_guess(seen: Observation, thresholds: Thresholds)
    requires
        verdict(seen, thresholds).state == State::Stalled,
    ensures
        seen.silence is Some,
        seen.silence->0.nanos > thresholds.stall.nanos,
        seen.silence->0.nanos > thresholds.quiet.nanos,
        !seen.process_resident,
        !seen.work_running_in_workspace,
        seen.snapshot_trustworthy,
{
}

/// Silence nobody measured yields no state but unknown.
pub proof fn law_unmeasured_silence_is_unknown(seen: Observation, thresholds: Thresholds)
    requires
        seen.silence is None,
    ensures
        verdict(seen, thresholds).state == State::Unknown,
{
}

/// Exactly the waiting verdicts are inferred from silence; an unknown state never is.
pub proof fn law_inferred_means_waiting(seen: Observation, thresholds: Thresholds)
    ensures
        (verdict(seen, thresholds).method is ProcessResidentButSilent || verdict(
            seen,
            thresholds,
        ).method is WorkRunningInWorkspace) <==> verdict(seen, thresholds).state == State::Waiting,
{
}

} // verus!
