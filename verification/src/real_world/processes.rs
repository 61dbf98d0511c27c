//! What is known of a process, from the kernel's own ledger where it is open, and from `ps` where not.

use crate::machtime::{MachTicks, MachTimebase};
use crate::text;
use crate::time;
use crate::time::Duration;
use crate::world::{PathUnavailable, ResourceSource, Resources, ResourcesUnavailable, Unmeasured};
use vstd::prelude::*;

verus! {

// --- Paths -------------------------------------------------------------------------------------

/// What reading a path of a process came to: the path, where one was read; and where none was, that
/// nobody may see it, or that the process is gone.
pub open spec fn path_or_reason(read: Option<String>, exists_still: bool) -> Result<
    String,
    PathUnavailable,
> {
    if read is Some && read->0@.len() > 0 {
        Ok(read->0)
    } else if exists_still {
        Err(PathUnavailable::PermissionDenied)
    } else {
        Err(PathUnavailable::ProcessExited)
    }
}

/// What reading a path of a process came to.
pub fn path_of_process(read: Option<String>, exists_still: bool) -> (path: Result<
    String,
    PathUnavailable,
>)
    ensures
        path == path_or_reason(read, exists_still),
{
    if let Some(found) = read {
        if found.as_str().unicode_len() > 0 {
            return Ok(found);
        }
    }
    if exists_still {
        Err(PathUnavailable::PermissionDenied)
    } else {
        Err(PathUnavailable::ProcessExited)
    }
}

// --- The ledger --------------------------------------------------------------------------------

/// What the kernel's ledger holds of a process.
#[derive(Debug, Clone, Copy, PartialEq, Eq, Structural)]
pub struct Ledger {
    pub user_ticks: u64,
    pub system_ticks: u64,
    pub child_user_ticks: u64,
    pub child_system_ticks: u64,
    pub footprint: u64,
    pub peak_footprint: u64,
    pub bytes_written: u64,
}

/// Two counts together, as far as 64 bits count.
pub open spec fn together(one: u64, other: u64) -> u64 {
    if one + other > u64::MAX {
        u64::MAX
    } else {
        (one + other) as u64
    }
}

fn both(one: u64, other: u64) -> (sum: u64)
    ensures
        sum == together(one, other),
{
    if other > u64::MAX - one {
        u64::MAX
    } else {
        one + other
    }
}

/// Whether these are a ledger's figures.
pub open spec fn is_measured(resources: Resources, ledger: Ledger, timebase: MachTimebase) -> bool {
    &&& resources.source == ResourceSource::Rusage
    &&& resources.own_cpu is Ok
    &&& resources.own_cpu->Ok_0.nanos == together(ledger.user_ticks, ledger.system_ticks) as nat
        * timebase.above() / timebase.below()
    &&& resources.children_cpu is Ok
    &&& resources.children_cpu->Ok_0.nanos == together(
        ledger.child_user_ticks,
        ledger.child_system_ticks,
    ) as nat * timebase.above() / timebase.below()
    &&& resources.current_memory == Ok::<u64, Unmeasured>(ledger.footprint)
    &&& resources.peak_memory == Ok::<u64, Unmeasured>(ledger.peak_footprint)
    &&& resources.bytes_written == Ok::<u64, Unmeasured>(ledger.bytes_written)
}

/// A ledger's figures, its ticks made time.
pub fn measured(ledger: &Ledger, timebase: &MachTimebase) -> (resources: Resources)
    requires
        timebase.wf(),
    ensures
        is_measured(resources, *ledger, *timebase),
{
    Resources {
        source: ResourceSource::Rusage,
        own_cpu: Ok(timebase.duration(MachTicks(both(ledger.user_ticks, ledger.system_ticks)))),
        children_cpu: Ok(
            timebase.duration(
                MachTicks(both(ledger.child_user_ticks, ledger.child_system_ticks)),
            ),
        ),
        current_memory: Ok(ledger.footprint),
        peak_memory: Ok(ledger.peak_footprint),
        bytes_written: Ok(ledger.bytes_written),
    }
}

// --- ps ----------------------------------------------------------------------------------------

/// What is said of a CPU time that `ps` does not print.
pub open spec fn malformed(field: Seq<char>) -> Seq<char> {
    "ps CPU time "@ + text::quoted(field) + " is not in [[DD-]HH:]MM:SS.CC form"@
}

/// The parts of a CPU time: the days, where there are any, and what is between the colons behind them.
pub open spec fn days_and_clock(field: Seq<char>) -> (Option<Seq<char>>, Seq<Seq<char>>) {
    let dash = text::first_at(field, '-');
    if dash < field.len() {
        (Some(field.take(dash)), text::pieces(field.skip(dash + 1), ':'))
    } else {
        (None, text::pieces(field, ':'))
    }
}

/// A number of 64 bits, where the text is one.
pub open spec fn number(text: Seq<char>) -> Option<nat> {
    match text::natural(text, u64::MAX as nat) {
        Ok(value) => Some(value),
        Err(_) => None,
    }
}

/// The whole seconds that the days, hours and minutes of a CPU time come to, and what stands where its
/// seconds stand; nothing where one of them is no number, or there are too few or too many.
pub open spec fn clock(field: Seq<char>) -> Option<(nat, Seq<char>)> {
    let (days, parts) = days_and_clock(field);
    let counted = if days is Some {
        number(days->0)
    } else {
        Some(0)
    };
    let hours = if parts.len() == 3 {
        number(parts[0])
    } else {
        Some(0)
    };
    let minutes = number(parts[parts.len() - 2]);
    if (parts.len() == 2 || parts.len() == 3) && counted is Some && hours is Some && minutes is Some {
        Some((counted->0 * 86_400 + hours->0 * 3_600 + minutes->0 * 60, parts.last()))
    } else {
        None
    }
}

/// Whole seconds, and seconds with a part of one, as one span.
pub open spec fn span_of(whole: nat, seconds: (u64, u32)) -> int {
    (whole + seconds.0) * 1_000_000_000 + seconds.1
}

/// Whether this is how a CPU time was read, given what its seconds may be taken for.
pub open spec fn is_cpu_time<F: Fn(&str) -> Option<(u64, u32)>>(
    span: Result<Duration, String>,
    field: Seq<char>,
    seconds_of: F,
) -> bool {
    match span {
        Ok(found) => clock(field) is Some && exists|seconds: &str, taken: (u64, u32)|
            {
                &&& seconds@ == (clock(field)->0).1
                &&& #[trigger] call_ensures(seconds_of, (seconds,), Some(taken))
                &&& found.nanos == span_of((clock(field)->0).0, taken)
            },
        Err(why) => why@ == malformed(field) && (clock(field) is Some ==> exists|seconds: &str|
            seconds@ == (clock(field)->0).1 && #[trigger] call_ensures(seconds_of, (seconds,), None)),
    }
}

/// Reads the CPU time that `ps` prints: `[[DD-]HH:]MM:SS.CC`. The minutes may be more than an hour's.
/// What its seconds are taken for, whole ones and nanoseconds, or that they are none, is `seconds_of`'s
/// to say. Anything else is an error and not a zero.
pub fn parse_ps_cpu_time<F: Fn(&str) -> Option<(u64, u32)>>(field: &str, seconds_of: &F) -> (span:
    Result<Duration, String>)
    requires
        forall|seconds: &str| call_requires(seconds_of, (seconds,)),
    ensures
        is_cpu_time(span, field@, *seconds_of),
{
    match read_clock(field) {
        Some((whole, seconds)) => {
            let seconds: &str = seconds.as_str();
            match seconds_of(seconds) {
                Some(taken) => {
                    let nanos: u128 = (whole + taken.0 as u128) * time::NANOS_PER_SECOND
                        + taken.1 as u128;
                    assert(call_ensures(*seconds_of, (seconds,), Some(taken)));
                    Ok(Duration { nanos })
                },
                None => Err(malformed_text(field)),
            }
        },
        None => Err(malformed_text(field)),
    }
}

fn malformed_text(field: &str) -> (why: String)
    ensures
        why@ == malformed(field@),
{
    String::from_str("ps CPU time ").concat(text::quote(field).as_str()).concat(
        " is not in [[DD-]HH:]MM:SS.CC form",
    )
}

fn read_number(characters: &Vec<char>) -> (value: Option<u64>)
    ensures
        match value {
            Some(found) => number(characters@) == Some(found as nat),
            None => number(characters@) is None,
        },
{
    match text::parse_u64(characters) {
        Ok(value) => Some(value),
        Err(_) => None,
    }
}

fn read_clock(field: &str) -> (found: Option<(u128, String)>)
    ensures
        match found {
            Some((whole, seconds)) => clock(field@) == Some((whole as nat, seconds@)) && whole
                <= u64::MAX * 90_060,
            None => clock(field@) is None,
        },
{
    let characters: Vec<char> = text::characters(field);
    let length: usize = characters.len();
    let dash: usize = text::find(&characters, '-');
    let days: u64;
    let parts: Vec<Vec<char>>;
    if dash < length {
        let before: Vec<char> = text::part(&characters, 0, dash);
        let after: Vec<char> = text::part(&characters, dash + 1, length);
        assert(before@ =~= field@.take(dash as int));
        assert(after@ =~= field@.skip(dash + 1));
        match read_number(&before) {
            Some(count) => {
                days = count;
            },
            None => {
                return None;
            },
        }
        parts = text::split(&after, ':');
    } else {
        days = 0;
        parts = text::split(&characters, ':');
    }
    let ghost pieces = days_and_clock(field@).1;
    assert(text::views(parts@) == pieces);
    assert(parts@.len() == pieces.len());
    assert(forall|i: int| 0 <= i < pieces.len() ==> #[trigger] pieces[i] == parts@[i]@);
    let count: usize = parts.len();
    if count != 2 && count != 3 {
        return None;
    }
    let hours: u64 = if count == 3 {
        match read_number(&parts[0]) {
            Some(found) => found,
            None => {
                return None;
            },
        }
    } else {
        0
    };
    let minutes: u64 = match read_number(&parts[count - 2]) {
        Some(found) => found,
        None => {
            return None;
        },
    };
    let whole: u128 = days as u128 * 86_400 + hours as u128 * 3_600 + minutes as u128 * 60;
    Some((whole, text::text_of(&parts[count - 1])))
}

/// What running `ps` came to: it did not run; it failed with a status; or it printed something.
#[derive(Debug, PartialEq, Eq)]
pub enum PsRun {
    NotRun(String),
    Failed(String),
    Printed(String),
}

/// What `ps` is asked about a process.
pub open spec fn is_asked_of_ps(arguments: Seq<Seq<char>>, pid: i32) -> bool {
    arguments == seq!["-o"@, "time="@, "-o"@, "rss="@, "-p"@, text::signed_decimal(pid as int)]
}

/// What `ps` is asked about a process: the CPU it has used, and the memory it has.
pub fn ps_arguments(pid: i32) -> (arguments: Vec<String>)
    ensures
        is_asked_of_ps(text::texts(arguments@), pid),
{
    let mut arguments: Vec<String> = Vec::new();
    arguments.push(String::from_str("-o"));
    arguments.push(String::from_str("time="));
    arguments.push(String::from_str("-o"));
    arguments.push(String::from_str("rss="));
    arguments.push(String::from_str("-p"));
    arguments.push(text::signed_decimal_of(pid as i64));
    assert(text::texts(arguments@) =~= seq![
        "-o"@,
        "time="@,
        "-o"@,
        "rss="@,
        "-p"@,
        text::signed_decimal(pid as int),
    ]);
    arguments
}

/// What is said of a memory size that is no number.
pub open spec fn no_size(field: Seq<char>, fault: Seq<char>) -> Seq<char> {
    "ps resident size "@ + text::quoted(field) + " is not a number: "@ + fault
}

/// Whether what `ps` printed as a memory size is one that can be counted in bytes, or is none at all.
pub open spec fn size_fits(printed: Seq<char>) -> bool {
    let fields = text::words(printed);
    fields.len() >= 2 ==> match number(fields[1]) {
        Some(kilobytes) => kilobytes * 1024 <= u64::MAX,
        None => true,
    }
}

/// Whether what `ps` printed as a memory size is one that can be counted in bytes, or is none at all.
pub fn resident_size_fits(printed: &str) -> (fits: bool)
    ensures
        fits == size_fits(printed@),
{
    let fields: Vec<Vec<char>> = text::split_words(&text::characters(printed));
    assert(fields@.len() == text::words(printed@).len());
    if fields.len() < 2 {
        return true;
    }
    assert(fields@[1]@ == text::words(printed@)[1]);
    match read_number(&fields[1]) {
        Some(kilobytes) => kilobytes <= u64::MAX / 1024,
        None => true,
    }
}

/// Whether these are the figures that `ps` knows: the CPU that the process itself used, and the memory it
/// has. It sees neither children, nor peaks, nor writes.
pub open spec fn is_coarse(resources: Resources, own_cpu: Duration, kilobytes: nat) -> bool {
    &&& resources.source == ResourceSource::Ps
    &&& resources.own_cpu == Ok::<Duration, Unmeasured>(own_cpu)
    &&& resources.children_cpu == Err::<Duration, Unmeasured>(
        Unmeasured::NotReportedBy(ResourceSource::Ps),
    )
    &&& resources.current_memory is Ok
    &&& resources.current_memory->Ok_0 == kilobytes * 1024
    &&& resources.peak_memory == Err::<u64, Unmeasured>(
        Unmeasured::NotReportedBy(ResourceSource::Ps),
    )
    &&& resources.bytes_written == Err::<u64, Unmeasured>(
        Unmeasured::NotReportedBy(ResourceSource::Ps),
    )
}

/// Whether this is what a run of `ps` says of a process.
pub open spec fn is_read_from_ps<F: Fn(&str) -> Option<(u64, u32)>>(
    resources: Result<Resources, String>,
    ran: PsRun,
    seconds_of: F,
) -> bool {
    match ran {
        PsRun::NotRun(error) => resources matches Err(why) && why@ == "could not run ps: "@ + error@,
        PsRun::Failed(status) => resources matches Err(why) && why@ == "ps exited with "@ + status@,
        PsRun::Printed(printed) => {
            let fields = text::words(printed@);
            if fields.len() == 0 {
                resources matches Err(why) && why@ == "ps reported no CPU time field"@
            } else if fields.len() == 1 {
                resources matches Err(why) && why@ == "ps reported no resident size field"@
            } else {
                exists|own_cpu: Result<Duration, String>|
                    {
                        &&& #[trigger] is_cpu_time(own_cpu, fields[0], seconds_of)
                        &&& match (own_cpu, text::natural(fields[1], u64::MAX as nat)) {
                            (Err(fault), _) => resources == Err::<Resources, String>(fault),
                            (Ok(_), Err(fault)) => resources matches Err(why) && why@ == no_size(
                                fields[1],
                                fault.words(),
                            ),
                            (Ok(own), Ok(kilobytes)) => resources is Ok && is_coarse(
                                resources->Ok_0,
                                own,
                                kilobytes,
                            ),
                        }
                    }
            }
        },
    }
}

/// What a run of `ps` says of a process.
pub fn coarse_resources<F: Fn(&str) -> Option<(u64, u32)>>(ran: &PsRun, seconds_of: &F) -> (resources:
    Result<Resources, String>)
    requires
        forall|seconds: &str| call_requires(seconds_of, (seconds,)),
        ran matches PsRun::Printed(printed) ==> size_fits(printed@),
    ensures
        is_read_from_ps(resources, *ran, *seconds_of),
{
    let printed: &String = match ran {
        PsRun::NotRun(error) => {
            return Err(String::from_str("could not run ps: ").concat(error.as_str()));
        },
        PsRun::Failed(status) => {
            return Err(String::from_str("ps exited with ").concat(status.as_str()));
        },
        PsRun::Printed(printed) => printed,
    };
    let fields: Vec<Vec<char>> = text::split_words(&text::characters(printed.as_str()));
    let ghost found = text::words(printed@);
    assert(text::views(fields@) == found);
    assert(fields@.len() == found.len());
    if fields.len() == 0 {
        return Err(String::from_str("ps reported no CPU time field"));
    }
    if fields.len() == 1 {
        return Err(String::from_str("ps reported no resident size field"));
    }
    assert(fields@[0]@ == found[0] && fields@[1]@ == found[1]);
    let cpu_field: String = text::text_of(&fields[0]);
    let own_cpu: Result<Duration, String> = parse_ps_cpu_time(cpu_field.as_str(), seconds_of);
    assert(is_cpu_time(own_cpu, found[0], *seconds_of));
    match own_cpu {
        Err(fault) => Err(fault),
        Ok(own) => match text::parse_u64(&fields[1]) {
            Err(fault) => {
                let size_field: String = text::text_of(&fields[1]);
                Err(
                    String::from_str("ps resident size ").concat(
                        text::quote(size_field.as_str()).as_str(),
                    ).concat(" is not a number: ").concat(fault.to_text()),
                )
            },
            Ok(kilobytes) => Ok(
                Resources {
                    source: ResourceSource::Ps,
                    own_cpu: Ok(own),
                    children_cpu: Err(Unmeasured::NotReportedBy(ResourceSource::Ps)),
                    current_memory: Ok(kilobytes * 1024),
                    peak_memory: Err(Unmeasured::NotReportedBy(ResourceSource::Ps)),
                    bytes_written: Err(Unmeasured::NotReportedBy(ResourceSource::Ps)),
                },
            ),
        },
    }
}

// --- One or the other --------------------------------------------------------------------------

/// What is asked next about a process's resources.
#[derive(Debug, PartialEq, Eq)]
pub enum Inquiry {
    /// Nothing: this is the answer.
    Answered(Result<Resources, ResourcesUnavailable>),
    /// `ps`, since the ledger would not open for this reason.
    AskPs(String),
}

/// Whether this is what reading a ledger leads to.
pub open spec fn is_inquiry(
    inquiry: Inquiry,
    ledger: Result<Ledger, String>,
    exists_still: bool,
    timebase: MachTimebase,
) -> bool {
    match ledger {
        Ok(found) => inquiry matches Inquiry::Answered(answer) && answer is Ok && is_measured(
            answer->Ok_0,
            found,
            timebase,
        ),
        Err(why) => if exists_still {
            inquiry == Inquiry::AskPs(why)
        } else {
            inquiry == Inquiry::Answered(Err(ResourcesUnavailable::ProcessExited))
        },
    }
}

/// What follows from a look into the ledger: its figures, where it opened; that the process is gone,
/// where it is; and else a question to `ps`.
pub fn resources(
    ledger: Result<Ledger, String>,
    exists_still: bool,
    timebase: &MachTimebase,
) -> (inquiry: Inquiry)
    requires
        timebase.wf(),
    ensures
        is_inquiry(inquiry, ledger, exists_still, *timebase),
{
    match ledger {
        Ok(found) => Inquiry::Answered(Ok(measured(&found, timebase))),
        Err(why) => if exists_still {
            Inquiry::AskPs(why)
        } else {
            Inquiry::Answered(Err(ResourcesUnavailable::ProcessExited))
        },
    }
}

/// What is said where neither reader could read.
pub open spec fn all_failed(ledger: Seq<char>, ps: Seq<char>) -> Seq<char> {
    "proc_pid_rusage: "@ + ledger + "; ps: "@ + ps
}

/// Whether this is what asking `ps` came to, where the ledger could not be read.
pub open spec fn is_ps_answer(
    answer: Result<Resources, ResourcesUnavailable>,
    ledger_error: Seq<char>,
    read: Result<Resources, String>,
) -> bool {
    match read {
        Ok(found) => answer == Ok::<Resources, ResourcesUnavailable>(found),
        Err(error) => answer matches Err(ResourcesUnavailable::AllReadersFailed(why)) && why@
            == all_failed(ledger_error, error@),
    }
}

/// What `ps` said, or why neither reader could read.
pub fn resources_from_ps(ledger_error: &str, read: Result<Resources, String>) -> (answer: Result<
    Resources,
    ResourcesUnavailable,
>)
    ensures
        is_ps_answer(answer, ledger_error@, read),
{
    match read {
        Ok(found) => Ok(found),
        Err(error) => Err(
            ResourcesUnavailable::AllReadersFailed(
                String::from_str("proc_pid_rusage: ").concat(ledger_error).concat("; ps: ").concat(
                    error.as_str(),
                ),
            ),
        ),
    }
}

/// What `ps` cannot see is never reported as a zero: of its figures, only the process's own CPU and its
/// memory are there at all.
pub proof fn law_ps_reports_no_children(resources: Resources, own_cpu: Duration, kilobytes: nat)
    requires
        is_coarse(resources, own_cpu, kilobytes),
    ensures
        resources.children_cpu is Err,
        resources.peak_memory is Err,
        resources.bytes_written is Err,
        resources.own_cpu is Ok,
        resources.current_memory is Ok,
{
}

} // verus!
