//! The job: what launchd is given, what it answers, and how an installation goes.

use crate::launchd;
use crate::launchd::install;
use crate::launchd::install::{
    Afterwards, Answer, Install, Move, ProgramSeen, Removal, Reply, Stage, Turn, Then, Uninstalled,
};
use crate::launchd::report;
use crate::launchd::report::{Evidence, LastWrite, ProcessAnswer, Status};
use crate::launchd::{Job, JobFacts, JobQuery, Ran, SystemLaunchctl};
use crate::starts::Examined;
use crate::state;
use crate::state::Paths;
use crate::text;
use crate::time::{Duration, SystemTime};
use vstd::prelude::*;

verus! {

// --- What launchd is given ---------------------------------------------------------------------

/// The variables that the job gets are listed, each once.
pub proof fn law_what_the_job_inherits_from_whoever_installs_it()
    ensures
        launchd::propagated() == seq![
            "HOME",
            "ACMON_CONFIG_DIR",
            "ACMON_STATE_DIR",
            "ACMON_STATE",
            "ACMON_NOTIFY_CONFIG",
            "ACMON_DETECTORS",
            "ACMON_QUIET_SECONDS",
            "ACMON_STALL_SECONDS",
            "ACMON_FORGET_SECONDS",
        ],
{
}

/// A variable is inherited exactly if it is set to more than white space, under its own name and without the
/// white space round its value.
pub proof fn law_a_set_variable_is_inherited(
    names: Seq<&'static str>,
    values: Seq<Option<String>>,
    name: &'static str,
    value: Option<String>,
)
    requires
        names.len() == values.len(),
    ensures
        launchd::inherited(Seq::empty(), values).len() == 0,
        launchd::inherited(names.push(name), values.push(value)) == launchd::inherited(
            names,
            values,
        ) + if value is Some && !super::text::is_blank(value->0@) {
            seq![(name@, text::trimmed(value->0@))]
        } else {
            Seq::empty()
        },
{
    if value is Some {
        super::text::law_nothing_is_left_of_blanks_alone(value->0@);
    }
    assert(names.push(name).drop_last() =~= names);
    lemma_inherited_reads_no_further(names, values.push(value), values);
    assert(launchd::inherited(names.push(name), values.push(value)) =~= launchd::inherited(
        names,
        values,
    ) + if value is Some && !super::text::is_blank(value->0@) {
        seq![(name@, text::trimmed(value->0@))]
    } else {
        Seq::empty()
    });
}

proof fn lemma_inherited_reads_no_further(
    names: Seq<&'static str>,
    longer: Seq<Option<String>>,
    values: Seq<Option<String>>,
)
    requires
        names.len() <= values.len() <= longer.len(),
        longer.take(values.len() as int) =~= values,
    ensures
        launchd::inherited(names, longer) == launchd::inherited(names, values),
    decreases names.len(),
{
    if names.len() > 0 {
        lemma_inherited_reads_no_further(names.drop_last(), longer, values);
        assert(longer[names.len() - 1] == longer.take(values.len() as int)[names.len() - 1]);
    }
}

/// Texts are escaped character by character: five of them as entities, and every other as itself.
pub proof fn law_five_characters_are_escaped(one: Seq<char>, other: Seq<char>, single: char)
    ensures
        launchd::escaped(one + other) == launchd::escaped(one) + launchd::escaped(other),
        launchd::escaped(seq!['&']) == "&amp;"@,
        launchd::escaped(seq!['<']) == "&lt;"@,
        launchd::escaped(seq!['>']) == "&gt;"@,
        launchd::escaped(seq!['"']) == "&quot;"@,
        launchd::escaped(seq!['\'']) == "&apos;"@,
        single != '&' && single != '<' && single != '>' && single != '"' && single != '\''
            ==> launchd::escaped(seq![single]) == seq![single],
    decreases other.len(),
{
    if other.len() == 0 {
        assert(one + other =~= one);
        assert(launchd::escaped(other) =~= Seq::<char>::empty());
    } else {
        law_five_characters_are_escaped(one, other.drop_last(), single);
        assert((one + other).drop_last() =~= one + other.drop_last());
    }
    assert(launchd::escaped(one + other) =~= launchd::escaped(one) + launchd::escaped(other));
    lemma_one_character_is_escaped('&');
    lemma_one_character_is_escaped('<');
    lemma_one_character_is_escaped('>');
    lemma_one_character_is_escaped('"');
    lemma_one_character_is_escaped('\'');
    lemma_one_character_is_escaped(single);
}

proof fn lemma_one_character_is_escaped(character: char)
    ensures
        launchd::escaped(seq![character]) == launchd::entity(character),
{
    assert(seq![character].drop_last() =~= Seq::<char>::empty());
    assert(launchd::escaped(seq![character].drop_last()) =~= Seq::<char>::empty());
    assert(launchd::escaped(seq![character]) =~= launchd::entity(character));
}

/// Arguments are listed one after the other, each in a line of its own.
pub proof fn law_a_line_for_every_argument(
    one: Seq<Seq<char>>,
    other: Seq<Seq<char>>,
    single: Seq<char>,
)
    ensures
        launchd::argument_lines(one + other) == launchd::argument_lines(one)
            + launchd::argument_lines(other),
        launchd::argument_lines(seq![single]) == "\t\t<string>"@ + launchd::escaped(single)
            + "</string>\n"@,
    decreases other.len(),
{
    if other.len() == 0 {
        assert(one + other =~= one);
        assert(launchd::argument_lines(other) =~= Seq::<char>::empty());
    } else {
        law_a_line_for_every_argument(one, other.drop_last(), single);
        assert((one + other).drop_last() =~= one + other.drop_last());
    }
    assert(launchd::argument_lines(one + other) =~= launchd::argument_lines(one)
        + launchd::argument_lines(other));
    assert(seq![single].drop_last() =~= Seq::<Seq<char>>::empty());
    assert(launchd::argument_lines(seq![single].drop_last()) =~= Seq::<char>::empty());
    assert(launchd::argument_lines(seq![single]) =~= launchd::argument_line(single));
}

/// Variables are listed one after the other, key and value, but for a `PATH` that is passed on: the job has
/// one of its own.
pub proof fn law_two_lines_for_every_variable(
    one: Seq<(Seq<char>, Seq<char>)>,
    other: Seq<(Seq<char>, Seq<char>)>,
    single: (Seq<char>, Seq<char>),
)
    ensures
        launchd::environment_lines(one + other) == launchd::environment_lines(one)
            + launchd::environment_lines(other),
        launchd::environment_lines(seq![single]) == if single.0 == "PATH"@ {
            Seq::<char>::empty()
        } else {
            launchd::variable_lines(single.0, single.1)
        },
    decreases other.len(),
{
    if other.len() == 0 {
        assert(one + other =~= one);
        assert(launchd::environment_lines(other) =~= Seq::<char>::empty());
    } else {
        law_two_lines_for_every_variable(one, other.drop_last(), single);
        assert((one + other).drop_last() =~= one + other.drop_last());
    }
    assert(launchd::environment_lines(one + other) =~= launchd::environment_lines(one)
        + launchd::environment_lines(other));
    assert(seq![single].drop_last() =~= Seq::<(Seq<char>, Seq<char>)>::empty());
    assert(launchd::environment_lines(seq![single].drop_last()) =~= Seq::<char>::empty());
    assert(launchd::environment_lines(seq![single]) =~= if single.0 == "PATH"@ {
        Seq::<char>::empty()
    } else {
        launchd::variable_lines(single.0, single.1)
    });
}

/// The monitor's job runs the program it is given, to watch, and writes its log into the state directory.
pub proof fn law_what_the_monitors_job_runs(
    job: Job,
    program: Seq<char>,
    state_dir: Seq<char>,
    environment: Vec<(String, String)>,
)
    requires
        launchd::is_monitor(job, program, state_dir, environment),
    ensures
        job.label@ == "io.github.pmcfadin.acmon"@,
        job.program@ == program,
        job.log@ == text::child(state_dir, "amon.log"@),
        job.typed() == program + " "@ + "watch"@,
        job.environment == environment,
{
    let words = seq![job.program@] + text::texts(job.arguments@);
    assert(words =~= seq![program, "watch"@]);
    super::text::law_joining_puts_something_between(program, seq!["watch"@], " "@);
    super::text::law_joining_puts_something_between("watch"@, Seq::empty(), " "@);
    assert(seq![program] + seq!["watch"@] =~= words);
    assert(seq!["watch"@] + Seq::<Seq<char>>::empty() =~= seq!["watch"@]);
    assert(job.typed() =~= program + " "@ + "watch"@);
}

/// The plist names the job, gives its program before its arguments, and its log for output and errors.
pub proof fn law_the_plist_names_the_job(job: Job)
    ensures
        text::contains_text(job.property_list(), launchd::escaped(job.label@)),
        text::contains_text(
            job.property_list(),
            launchd::argument_line(job.program@) + launchd::argument_lines(
                text::texts(job.arguments@),
            ),
        ),
        text::contains_text(
            job.property_list(),
            launchd::environment_lines(launchd::pairs(job.environment@)),
        ),
{
    let label = launchd::escaped(job.label@);
    let program = launchd::argument_line(job.program@);
    let arguments = launchd::argument_lines(text::texts(job.arguments@));
    let throttle = text::decimal(launchd::THROTTLE_SECONDS as nat);
    let log = launchd::escaped(job.log@);
    let path = launchd::variable_lines("PATH"@, launchd::JOB_PATH@);
    let environment = launchd::environment_lines(launchd::pairs(job.environment@));
    let last = environment + launchd::PLIST_TAIL@;
    let middle = launchd::PLIST_ALIVE@ + throttle + launchd::PLIST_OUT@ + log
        + launchd::PLIST_ERROR@ + log + launchd::PLIST_ENVIRONMENT@ + path;
    let start = launchd::PLIST_HEAD@ + label + launchd::PLIST_PROGRAM@;
    let whole = job.property_list();
    assert(whole =~= start + (program + arguments) + (middle + last));
    super::text::law_what_stands_in_a_text(start, program + arguments, middle + last);
    assert(whole =~= launchd::PLIST_HEAD@ + label + (launchd::PLIST_PROGRAM@ + program + arguments
        + middle + last));
    super::text::law_what_stands_in_a_text(
        launchd::PLIST_HEAD@,
        label,
        launchd::PLIST_PROGRAM@ + program + arguments + middle + last,
    );
    assert(whole =~= (start + program + arguments + middle) + environment + launchd::PLIST_TAIL@);
    super::text::law_what_stands_in_a_text(
        start + program + arguments + middle,
        environment,
        launchd::PLIST_TAIL@,
    );
}

/// The LaunchAgents directory is the one that is named, and otherwise the one at home.
pub proof fn law_where_agents_are_kept(
    directory: Result<String, String>,
    explicit: Option<&str>,
    home: Option<&str>,
)
    requires
        launchd::is_agents_directory(directory, explicit, home),
    ensures
        directory is Ok <==> state::named(explicit) is Some || state::named(home) is Some,
        state::named(explicit) matches Some(path) ==> directory->Ok_0@ == path,
        state::named(explicit) is None && state::named(home) is Some ==> directory->Ok_0@
            == text::child(text::child(state::named(home)->0, "Library"@), "LaunchAgents"@),
{
}

// --- What launchd answers ----------------------------------------------------------------------

/// A line with ` = ` in it gives what is before as the key and what is behind as the value, without the white
/// space round the line.
pub proof fn law_a_line_gives_a_value_under_a_key(
    before: Seq<char>,
    key: Seq<char>,
    value: Seq<char>,
    after: Seq<char>,
)
    requires
        super::text::is_blank(before),
        super::text::is_blank(after),
        key.len() > 0,
        value.len() > 0,
        !text::is_white(key.first()),
        !text::is_white(key.last()),
        !text::is_white(value.first()),
        !text::is_white(value.last()),
        !super::text::holds(key, '='),
    ensures
        launchd::entry(before + (key + " = "@ + value) + after) == Some((key, value)),
{
    let sign = " = "@;
    let whole = key + sign + value;
    reveal_strlit(" = ");
    assert(whole.first() == key.first());
    assert(whole.last() == value.last());
    super::text::law_trimming_takes_only_white_space(before, whole, after);
    let empty = Seq::<char>::empty();
    super::text::law_trimming_takes_only_white_space(empty, key, empty);
    super::text::law_trimming_takes_only_white_space(empty, value, empty);
    assert(empty + key + empty =~= key);
    assert(empty + value + empty =~= value);
    super::text::law_the_first_stand_is_the_first(whole, sign, 0);
    assert(whole.subrange(key.len() as int, (key.len() + 3) as int) =~= sign);
    assert(text::stands_at(whole, sign, key.len() as int));
    assert forall|i: int| 0 <= i < key.len() implies !text::stands_at(whole, sign, i) by {
        if text::stands_at(whole, sign, i) {
            assert(whole.subrange(i, i + 3)[1] == '=');
            assert(whole[i + 1] == '=');
            if i + 1 < key.len() {
                assert(key[i + 1] == '=');
            } else {
                assert(whole[key.len() as int] == sign[0]);
            }
        }
    }
    let at = text::first_stand(whole, sign, 0)->0;
    assert(at == key.len());
    assert(whole.take(at) =~= key);
    assert(whole.skip(at + 3) =~= value);
}

/// Of lines that say something the first counts, and nothing is said where none does.
pub proof fn law_the_first_line_that_says_something<T>(
    lines: Seq<Seq<char>>,
    told: spec_fn(Seq<char>) -> Option<T>,
    at: int,
)
    ensures
        0 <= at < lines.len() && told(lines[at]) is Some && (forall|i: int|
            0 <= i < at ==> told(#[trigger] lines[i]) is None) ==> launchd::first_told(lines, told)
            == told(lines[at]),
        launchd::first_told(lines, told) is None <==> forall|i: int|
            0 <= i < lines.len() ==> told(#[trigger] lines[i]) is None,
    decreases lines.len(),
{
    if lines.len() > 0 {
        let fewer = lines.drop_last();
        law_the_first_line_that_says_something(fewer, told, at);
        assert forall|i: int| 0 <= i < fewer.len() implies #[trigger] lines[i] == fewer[i] by {
        }
        assert forall|i: int| 0 <= i < fewer.len() implies lines[i] == #[trigger] fewer[i] by {
        }
        assert(lines[lines.len() - 1] == lines.last());
    }
}

/// A job is said to run by a line `state = running`, and not to by `state = not running`; its pid, its runs
/// and its last exit code are each given under their own key.
pub proof fn law_what_the_lines_of_a_job_say(line: Seq<char>, value: Seq<char>, number: nat)
    ensures
        launchd::entry(line) == Some(("state"@, "running"@)) ==> launchd::state_told()(line) == Some(
            true,
        ),
        launchd::entry(line) == Some(("state"@, "not running"@)) ==> launchd::state_told()(line)
            == Some(false),
        launchd::entry(line) is None ==> launchd::state_told()(line) is None
            && launchd::number_told("pid"@)(line) is None && launchd::text_told(
            "last exit code"@,
        )(line) is None,
        launchd::entry(line) == Some(("pid"@, value)) && text::natural(value, u32::MAX as nat)
            == Ok::<nat, text::NumberFault>(number) ==> launchd::number_told("pid"@)(line) == Some(
            number as u32,
        ),
        launchd::entry(line) == Some(("last exit code"@, value)) ==> launchd::text_told(
            "last exit code"@,
        )(line) == Some(value),
        launchd::entry(line) matches Some(pair) ==> pair.0 != "pid"@ ==> launchd::number_told(
            "pid"@,
        )(line) is None,
{
    reveal_strlit("running");
    reveal_strlit("not running");
    assert("running"@.len() != "not running"@.len());
}

/// The facts of a job are each what the first line that gives it gives.
pub proof fn law_the_facts_of_a_job(facts: JobFacts, lines: Seq<Seq<char>>, at: int)
    requires
        launchd::are_facts(facts, lines),
        0 <= at < lines.len(),
    ensures
        launchd::state_told()(lines[at]) is Some && (forall|i: int|
            0 <= i < at ==> launchd::state_told()(#[trigger] lines[i]) is None) ==> facts.running
            == launchd::state_told()(lines[at]),
        launchd::number_told("pid"@)(lines[at]) is Some && (forall|i: int|
            0 <= i < at ==> launchd::number_told("pid"@)(#[trigger] lines[i]) is None) ==> facts.pid
            == launchd::number_told("pid"@)(lines[at]),
        launchd::number_told("runs"@)(lines[at]) is Some && (forall|i: int|
            0 <= i < at ==> launchd::number_told("runs"@)(#[trigger] lines[i]) is None)
            ==> facts.runs == launchd::number_told("runs"@)(lines[at]),
        launchd::text_told("last exit code"@)(lines[at]) is Some && (forall|i: int|
            0 <= i < at ==> launchd::text_told("last exit code"@)(#[trigger] lines[i]) is None)
            ==> facts.last_exit is Some && launchd::text_told("last exit code"@)(lines[at]) == Some(
            facts.last_exit->0@,
        ),
{
    law_the_first_line_that_says_something(lines, launchd::state_told(), at);
    law_the_first_line_that_says_something(lines, launchd::number_told("pid"@), at);
    law_the_first_line_that_says_something(lines, launchd::number_told("runs"@), at);
    law_the_first_line_that_says_something(lines, launchd::text_told("last exit code"@), at);
}

/// A user's login session and a job in it are named as launchd names them.
pub proof fn law_how_launchd_names_things(uid: u32, label: Seq<char>)
    ensures
        launchd::session_of(uid) == "gui/"@ + text::decimal(uid as nat),
        launchd::service_of(uid, label) == "gui/"@ + text::decimal(uid as nat) + "/"@ + label,
{
}

/// A command to launchd came to something exactly if it was run and succeeded.
pub proof fn law_a_command_succeeds_where_launchctl_does(
    control: SystemLaunchctl,
    outcome: Result<(), String>,
    arguments: Seq<Seq<char>>,
    ran: Ran,
)
    requires
        control.is_done(outcome, arguments, ran),
    ensures
        outcome is Ok <==> (ran matches Ran::Answered { succeeded, .. } && succeeded),
        outcome matches Err(why) ==> text::begins_with(why@, control.call(arguments)),
{
    if let Err(why) = outcome {
        let call = control.call(arguments);
        assert(why@.subrange(0, call.len() as int) =~= call);
    }
}

/// A job is loaded exactly if launchd printed it; it is not loaded exactly if launchd answered that it could
/// not find it; and anything else is no answer.
pub proof fn law_only_a_plain_answer_is_one(
    control: SystemLaunchctl,
    answer: JobQuery,
    label: Seq<char>,
    ran: Ran,
)
    requires
        control.is_answer(answer, label, ran),
    ensures
        answer is Loaded <==> (ran matches Ran::Answered { succeeded, .. } && succeeded),
        answer is NotLoaded <==> (ran matches Ran::Answered { succeeded, stdout, stderr }
            && !succeeded && (text::contains_text(stderr@, "Could not find service"@)
            || text::contains_text(stdout@, "Could not find"@))),
        ran is Failed ==> answer is Undetermined,
        answer matches JobQuery::Loaded(facts) ==> launchd::are_facts(
            facts,
            text::line_list(ran->Answered_stdout@),
        ),
{
}

/// A program's remark is its errors, or its output where there are none, or that it said nothing.
pub proof fn law_errors_are_heard_first(stderr: Seq<char>, stdout: Seq<char>)
    ensures
        !super::text::is_blank(stderr) ==> launchd::remark(stderr, stdout) == launchd::remark(
            stderr,
            Seq::empty(),
        ),
        super::text::is_blank(stderr) && !super::text::is_blank(stdout) ==> launchd::remark(
            stderr,
            stdout,
        ) == launchd::remark(stdout, Seq::empty()),
        super::text::is_blank(stderr) && super::text::is_blank(stdout) ==> launchd::remark(
            stderr,
            stdout,
        ) == "it said nothing at all"@,
        !super::text::is_blank(stderr) ==> launchd::remark(stderr, stdout) == text::joined(
            text::pieces(text::trimmed(stderr), '\n'),
            "; "@,
        ),
{
    super::text::law_nothing_is_left_of_blanks_alone(stderr);
    super::text::law_nothing_is_left_of_blanks_alone(stdout);
    super::text::law_nothing_is_left_of_blanks_alone(Seq::empty());
}

// --- How it stands -----------------------------------------------------------------------------

/// A monitor runs exactly if launchd gives a pid for its job, or if launchd can neither give one nor say that
/// the job does not run, and the writer that the state names is alive.
pub proof fn law_whether_a_monitor_runs(
    answer: ProcessAnswer,
    job: JobQuery,
    writer: Option<u32>,
    writer_alive: bool,
)
    requires
        report::is_process_answer(answer, job, writer, writer_alive),
    ensures
        ({
            let given = job is Loaded && job->Loaded_0.pid is Some;
            let stopped = job is Loaded && job->Loaded_0.pid is None && job->Loaded_0.running
                == Some(false);
            &&& answer is Running <==> given || (!stopped && writer is Some && writer_alive)
            &&& given ==> answer == (ProcessAnswer::Running {
                pid: job->Loaded_0.pid->0,
                from: Evidence::Launchd,
            })
            &&& !given && answer is Running ==> answer == (ProcessAnswer::Running {
                pid: writer->0,
                from: Evidence::StateFileWriter,
            })
            &&& stopped ==> answer == (ProcessAnswer::NotRunning { from: Evidence::Launchd })
            &&& answer is Undetermined <==> !given && !stopped && writer is None && !(job
                is NotLoaded)
        }),
{
}

/// The last write is as old as the time since its file was changed.
pub proof fn law_how_old_the_last_write_is(
    last: LastWrite,
    path: Seq<char>,
    modified: SystemTime,
    writer: Option<u32>,
    now: SystemTime,
)
    requires
        report::is_last_write(last, path, Examined::Modified(modified), writer, now),
    ensures
        modified.nanos <= now.nanos ==> (last matches LastWrite::Age { path: at, age, writer_pid }
            && at@ == path && modified.nanos + age.nanos == now.nanos && writer_pid == writer),
        modified.nanos > now.nanos ==> (last matches LastWrite::AheadOfTheClock { path: at, ahead }
            && at@ == path && now.nanos + ahead.nanos == modified.nanos),
{
}

/// A file that is not there was never written, and one that cannot be read has no age.
pub proof fn law_what_has_no_age(
    last: LastWrite,
    path: Seq<char>,
    examined: Examined,
    writer: Option<u32>,
    now: SystemTime,
)
    requires
        report::is_last_write(last, path, examined, writer, now),
    ensures
        last is Absent <==> examined is NotFound,
        last is Unreadable <==> examined is WithoutTime || examined is Failed,
{
}

/// A status is put together from what was found: the plist, the job, the last write, and the process.
pub proof fn law_what_a_status_is_made_of(
    status: Status,
    request: Install,
    plist_present: Result<bool, String>,
    job: JobQuery,
    last_write: LastWrite,
    writer_alive: bool,
)
    requires
        report::is_status(status, request, plist_present, job, last_write, writer_alive),
    ensures
        status.plist@ == request.place(),
        status.plist_present == plist_present,
        status.job == job,
        status.last_write == last_write,
        status.launchctl_override == request.launchctl_override,
        last_write matches LastWrite::Age { writer_pid, .. } ==> report::is_process_answer(
            status.process,
            job,
            writer_pid,
            writer_alive,
        ),
        status.answers_everything() <==> !(job is Undetermined) && !(status.process is Undetermined)
            && (last_write is Age || last_write is Absent) && plist_present is Ok,
{
}

/// A report has four lines, in one order, behind a warning where launchd was not asked.
pub proof fn law_what_a_report_says(status: Status)
    ensures
        status.launchctl_override is None ==> status.report() == seq![
            status.plist_line(),
            status.job_line(),
            status.process_line(),
            status.write_line(),
        ],
        status.launchctl_override is Some ==> status.report().len() == 5 && status.report().skip(1)
            == seq![
            status.plist_line(),
            status.job_line(),
            status.process_line(),
            status.write_line(),
        ],
{
    assert(status.launchctl_override is None ==> status.report() =~= seq![
        status.plist_line(),
        status.job_line(),
        status.process_line(),
        status.write_line(),
    ]);
    assert(status.launchctl_override is Some ==> status.report().skip(1) =~= seq![
        status.plist_line(),
        status.job_line(),
        status.process_line(),
        status.write_line(),
    ]);
}

/// A span is told in its two largest units.
pub proof fn law_a_span_in_its_two_largest_units(
    days: nat,
    hours: nat,
    minutes: nat,
    seconds: nat,
    span: Duration,
)
    requires
        hours < 24,
        minutes < 60,
        seconds < 60,
        span.secs() == ((days * 24 + hours) * 60 + minutes) * 60 + seconds,
        span.secs() > 0,
    ensures
        report::duration_words(span) == if days > 0 {
            text::decimal(days) + "d "@ + text::decimal(hours) + "h"@
        } else if hours > 0 {
            text::decimal(hours) + "h "@ + text::decimal(minutes) + "m"@
        } else if minutes > 0 {
            text::decimal(minutes) + "m "@ + text::decimal(seconds) + "s"@
        } else {
            text::decimal(seconds) + "s"@
        },
{
    let all = span.secs();
    assert(all / 86_400 == days);
    assert((all % 86_400) / 3_600 == hours);
    assert((all % 3_600) / 60 == minutes);
    assert(all % 60 == seconds);
    if days == 0 {
        assert(all / 3_600 == hours);
        if hours == 0 {
            assert(all / 60 == minutes);
        }
    }
}

// --- How an installation goes ------------------------------------------------------------------

/// An installation that meets no obstacle looks at the program, looks for the plist, makes both directories,
/// writes the plist, loads it, and asks whether it is loaded, in this order.
pub proof fn law_the_order_of_an_installation(
    turn: Turn,
    request: Install,
    stage: Stage,
    reply: Reply,
)
    requires
        stage.takes(reply),
        install::is_turn(turn, request, stage, reply),
    ensures
        stage is Program && reply == Reply::Program(ProgramSeen::File) && request.job.program@.len()
            > 0 && request.job.program@[0] == '/' ==> turn.next == Then::Next(Stage::Plist),
        stage is Plist && reply == Reply::Plist(Ok(None)) ==> turn.next == Then::Next(
            Stage::AgentsDirectory,
        ),
        stage is AgentsDirectory && reply is Done && reply->Done_0 is Ok ==> (turn.next matches Then::Next(
            next,
        ) && (next is StateDirectory || next is Writing)),
        stage is StateDirectory && reply is Done && reply->Done_0 is Ok ==> turn.next == Then::Next(
            Stage::Writing,
        ),
        stage is Writing && reply is Done && reply->Done_0 is Ok ==> turn.next == Then::Next(Stage::Loading),
        stage is Loading && reply is Done && reply->Done_0 is Ok ==> turn.next == Then::Next(
            Stage::Verifying,
        ),
        stage is Verifying && (reply matches Reply::Job(answer) && answer is Loaded) ==> (
        turn.next matches Then::Finished(outcome) && outcome is Loaded),
        turn.next == Then::Next(Stage::Loading) ==> stage is Writing && reply is Done && reply->Done_0 is Ok,
        turn.next == Then::Next(Stage::Verifying) ==> stage is Loading && reply is Done && reply->Done_0
            is Ok,
        turn.next matches Then::Next(Stage::Unloading(_)) ==> stage is Loading || stage is Verifying,
        turn.next matches Then::Next(Stage::Removing(_)) ==> stage is Unloading,
{
}

/// A program is put into a plist only if its path is absolute and a file is there.
pub proof fn law_which_programs_can_be_run(program: Seq<char>, seen: ProgramSeen)
    ensures
        install::program_fault(program, seen) is None <==> program.len() > 0 && program.first()
            == '/' && seen is File,
{
}

/// The plist is the job's label in the agents' directory.
pub proof fn law_where_the_plist_belongs(request: Install)
    ensures
        request.place() == text::child(
            request.launch_agents_dir@,
            request.job.label@ + ".plist"@,
        ),
{
}

/// An installation can be asked for exactly if the program, the directories and the agents' directory are all
/// known; the job then runs that program and logs into that state directory.
pub proof fn law_what_an_installation_needs(
    install: Result<Install, String>,
    program: Result<String, String>,
    paths: Result<Paths, String>,
    agents: Result<String, String>,
    environment: Vec<(String, String)>,
    launchctl: Option<String>,
)
    requires
        install::is_request(install, program, paths, agents, environment, launchctl),
    ensures
        install is Ok <==> program is Ok && paths is Ok && agents is Ok,
        install matches Ok(request) ==> {
            &&& request.launch_agents_dir == agents->Ok_0
            &&& request.job.program@ == program->Ok_0@
            &&& request.job.log@ == text::child(paths->Ok_0.state@, "amon.log"@)
            &&& request.job.label@ == "io.github.pmcfadin.acmon"@
            &&& request.job.environment == environment
            &&& request.launchctl_override == launchctl
            &&& text::texts(request.job.arguments@) == seq!["watch"@]
        },
{
}

/// A removal asks launchd, unloads what it has, asks again, and only then looks for the plist and removes it.
pub proof fn law_the_order_of_a_removal(step: Move, request: Install, stage: Removal, answer: Answer)
    requires
        stage.takes(answer),
        install::is_move(step, request, stage, answer),
    ensures
        step.next == Afterwards::Next(Removal::Unloading) <==> stage is Asking && (
        answer matches Answer::Job(job) && job is Loaded),
        step.next == Afterwards::Next(Removal::Confirming) <==> stage is Unloading,
        step.next == Afterwards::Next(Removal::Looking { was_loaded: false }) <==> stage is Asking
            && answer == Answer::Job(JobQuery::NotLoaded),
        step.next == Afterwards::Next(Removal::Looking { was_loaded: true }) <==> stage is Confirming
            && answer == Answer::Job(JobQuery::NotLoaded),
        step.next matches Afterwards::Next(Removal::Removing { was_loaded }) ==> stage
            == (Removal::Looking { was_loaded }) && answer == Answer::There(Ok(true)),
        step.next matches Afterwards::Finished(outcome) ==> {
            &&& outcome is Removed ==> (answer is Done && answer->Done_0 is Ok) || answer == Answer::There(
                Ok(false),
            )
            &&& outcome is NothingToRemove <==> stage == (Removal::Looking { was_loaded: false })
                && answer == Answer::There(Ok(false))
            &&& outcome is StillLoaded ==> stage is Confirming
            &&& outcome is Undetermined <==> stage is Asking
        },
        step.next matches Afterwards::Finished(Uninstalled::Removed { was_loaded, .. })
            ==> stage == (Removal::Looking { was_loaded }) || stage == (Removal::Removing {
            was_loaded,
        }),
{
}

/// What launchd says of a job is told part by part: whether it runs, how often it was started, and how it
/// last ended, as far as launchd said so.
pub proof fn law_what_is_told_of_a_job(facts: JobFacts)
    ensures
        install::facts_parts(facts).len() == 1 + (if facts.runs is Some {
            1int
        } else {
            0
        }) + (if facts.last_exit is Some {
            1int
        } else {
            0
        }),
        facts.last_exit matches Some(code) ==> install::facts_parts(facts).last()
            == "last exit code "@ + code@,
        facts.running == Some(true) && facts.pid is Some ==> install::facts_parts(facts)[0]
            == "running as pid "@ + text::decimal(facts.pid->0 as nat),
        facts.running == Some(false) ==> install::facts_parts(facts)[0]
            == "not running at this moment"@,
{
}

} // verus!
