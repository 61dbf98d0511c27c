//! What becomes of an alert that is handed to a program: to a local command, or to `curl`.

use crate::text;
use crate::time;
use crate::time::Duration;
use crate::world::NotifyOutcome;
use vstd::prelude::*;

verus! {

/// What waiting for a command came to, for now.
#[derive(Debug, PartialEq, Eq)]
pub enum Waited {
    /// It could not even be started.
    NotStarted(String),
    Succeeded,
    /// It ended with this status.
    Failed(String),
    StillRunning,
    /// Nobody can say whether it still runs.
    Lost(String),
}

/// What is done next about a command.
#[derive(Debug, PartialEq, Eq)]
pub enum Followed {
    /// Nothing: this is the outcome.
    Ended(NotifyOutcome),
    /// It is waited for a little longer.
    Wait,
    /// It is stopped, and this is the outcome.
    Stop(NotifyOutcome),
}

/// What is said of a command that would not end.
pub open spec fn out_of_time(budget: Duration) -> Seq<char> {
    "the local command did not exit within "@ + time::debug_text(budget.whole(), budget.part())
        + ", so nothing can be said to have been delivered"@
}

/// Whether an alert failed for this reason.
pub open spec fn failed(outcome: NotifyOutcome, why: Seq<char>) -> bool {
    outcome matches NotifyOutcome::Failed(reason) && reason@ == why
}

/// Whether this is what follows from waiting for a command so long.
pub open spec fn follows(
    followed: Followed,
    waited: Waited,
    elapsed: Duration,
    budget: Duration,
) -> bool {
    match waited {
        Waited::NotStarted(error) => followed is Ended && failed(
            followed->Ended_0,
            "could not spawn: "@ + error@,
        ),
        Waited::Succeeded => followed == Followed::Ended(NotifyOutcome::Delivered),
        Waited::Failed(status) => followed is Ended && failed(
            followed->Ended_0,
            "exited "@ + status@,
        ),
        Waited::StillRunning => if elapsed.nanos >= budget.nanos {
            followed is Stop && failed(followed->Stop_0, out_of_time(budget))
        } else {
            followed is Wait
        },
        Waited::Lost(error) => followed is Stop && failed(
            followed->Stop_0,
            "wait failed: "@ + error@,
        ),
    }
}

/// What follows from waiting for a command so long: its outcome, where it ended; and where it did not, that
/// it is waited for, until it has had its time.
pub fn notify_local(waited: Waited, elapsed: Duration, budget: Duration) -> (followed: Followed)
    ensures
        follows(followed, waited, elapsed, budget),
{
    match waited {
        Waited::NotStarted(error) => Followed::Ended(
            NotifyOutcome::Failed(String::from_str("could not spawn: ").concat(error.as_str())),
        ),
        Waited::Succeeded => Followed::Ended(NotifyOutcome::Delivered),
        Waited::Failed(status) => Followed::Ended(
            NotifyOutcome::Failed(String::from_str("exited ").concat(status.as_str())),
        ),
        Waited::StillRunning => if elapsed.nanos >= budget.nanos {
            Followed::Stop(
                NotifyOutcome::Failed(
                    String::from_str("the local command did not exit within ").concat(
                        budget.to_debug().as_str(),
                    ).concat(", so nothing can be said to have been delivered"),
                ),
            )
        } else {
            Followed::Wait
        },
        Waited::Lost(error) => Followed::Stop(
            NotifyOutcome::Failed(String::from_str("wait failed: ").concat(error.as_str())),
        ),
    }
}

/// A command that has had its time is never waited for again, and nothing it did not confirm counts as
/// delivered.
pub proof fn law_a_silent_command_delivers_nothing(
    followed: Followed,
    waited: Waited,
    elapsed: Duration,
    budget: Duration,
)
    requires
        follows(followed, waited, elapsed, budget),
    ensures
        elapsed.nanos >= budget.nanos ==> !(followed is Wait),
        followed == Followed::Ended(NotifyOutcome::Delivered) ==> waited is Succeeded,
        followed is Stop ==> followed->Stop_0 is Failed,
{
}

/// What `curl` is asked.
pub open spec fn request(url: Seq<char>, payload: Seq<char>, most_seconds: Seq<char>) -> Seq<Seq<char>> {
    seq![
        "--fail"@,
        "--silent"@,
        "--show-error"@,
        "--max-time"@,
        most_seconds,
        "-X"@,
        "POST"@,
        "-H"@,
        "Content-Type: application/json"@,
        "--data"@,
        payload,
        url,
    ]
}

/// What `curl` is asked: to post an alert, to say so where it fails, and to give up in time.
pub fn curl_arguments(url: &str, payload: &str, most_seconds: &str) -> (arguments: Vec<String>)
    ensures
        text::texts(arguments@) == request(url@, payload@, most_seconds@),
{
    let mut arguments: Vec<String> = Vec::new();
    arguments.push(String::from_str("--fail"));
    arguments.push(String::from_str("--silent"));
    arguments.push(String::from_str("--show-error"));
    arguments.push(String::from_str("--max-time"));
    arguments.push(String::from_str(most_seconds));
    arguments.push(String::from_str("-X"));
    arguments.push(String::from_str("POST"));
    arguments.push(String::from_str("-H"));
    arguments.push(String::from_str("Content-Type: application/json"));
    arguments.push(String::from_str("--data"));
    arguments.push(String::from_str(payload));
    arguments.push(String::from_str(url));
    assert(text::texts(arguments@) =~= request(url@, payload@, most_seconds@));
    arguments
}

/// What running `curl` came to.
#[derive(Debug, PartialEq, Eq)]
pub enum Posted {
    NotRun(String),
    Succeeded,
    Failed { status: String, complaint: String },
}

/// Whether this is what became of an alert that was posted.
pub open spec fn is_posted(outcome: NotifyOutcome, posted: Posted) -> bool {
    match posted {
        Posted::NotRun(error) => failed(outcome, "could not spawn curl: "@ + error@),
        Posted::Succeeded => outcome is Delivered,
        Posted::Failed { status, complaint } => failed(
            outcome,
            "curl exited "@ + status@ + ": "@ + text::trimmed(complaint@),
        ),
    }
}

/// What became of an alert that was posted.
pub fn notify_remote(posted: Posted) -> (outcome: NotifyOutcome)
    ensures
        is_posted(outcome, posted),
{
    match posted {
        Posted::NotRun(error) => NotifyOutcome::Failed(
            String::from_str("could not spawn curl: ").concat(error.as_str()),
        ),
        Posted::Succeeded => NotifyOutcome::Delivered,
        Posted::Failed { status, complaint } => NotifyOutcome::Failed(
            String::from_str("curl exited ").concat(status.as_str()).concat(": ").concat(
                text::trim_text(complaint.as_str()).as_str(),
            ),
        ),
    }
}

} // verus!
