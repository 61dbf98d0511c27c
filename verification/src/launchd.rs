//! The LaunchAgent: what its plist says, how launchd is spoken to, and what its answers mean.

use crate::cli::AmonVerb;
use crate::state;
use crate::text;
use vstd::prelude::*;

pub mod install;
pub mod report;

verus! {

/// What launchd calls the job.
pub const LABEL: &'static str = "io.github.pmcfadin.acmon";

/// What the monitor prints, in the state directory.
pub const LOG_FILE: &'static str = "amon.log";

/// How long launchd waits before it starts the job again.
pub const THROTTLE_SECONDS: u32 = 10;

/// Where the job finds its programs.
pub const JOB_PATH: &'static str = "/opt/homebrew/bin:/usr/local/bin:/usr/bin:/bin:/usr/sbin:/sbin";

/// The variable that names the LaunchAgents directory.
pub const LAUNCH_AGENTS_VARIABLE: &'static str = "ACMON_LAUNCH_AGENTS_DIR";

/// The variable that names what stands in for launchctl.
pub const LAUNCHCTL_VARIABLE: &'static str = "ACMON_LAUNCHCTL";

/// launchctl itself.
pub const LAUNCHCTL: &'static str = "/bin/launchctl";

// --- What the job inherits ---------------------------------------------------------------------

/// The variables that the job gets from whoever installs it.
pub open spec fn propagated() -> Seq<&'static str> {
    seq![
        "HOME",
        "ACMON_CONFIG_DIR",
        "ACMON_STATE_DIR",
        "ACMON_STATE",
        "ACMON_NOTIFY_CONFIG",
        "ACMON_DETECTORS",
        "ACMON_QUIET_SECONDS",
        "ACMON_STALL_SECONDS",
        "ACMON_FORGET_SECONDS",
    ]
}

/// The variables that the job gets from whoever installs it.
pub fn propagated_variables() -> (names: [&'static str; 9])
    ensures
        names@ == propagated(),
{
    [
        "HOME",
        "ACMON_CONFIG_DIR",
        "ACMON_STATE_DIR",
        "ACMON_STATE",
        "ACMON_NOTIFY_CONFIG",
        "ACMON_DETECTORS",
        "ACMON_QUIET_SECONDS",
        "ACMON_STALL_SECONDS",
        "ACMON_FORGET_SECONDS",
    ]
}

/// The names and values in a list of pairs.
pub open spec fn pairs(environment: Seq<(String, String)>) -> Seq<(Seq<char>, Seq<char>)> {
    environment.map_values(|pair: (String, String)| (pair.0@, pair.1@))
}

/// What the job inherits, of the variables in this order: those with more than white space to their
/// name, without the white space round it.
pub open spec fn inherited(names: Seq<&'static str>, values: Seq<Option<String>>) -> Seq<
    (Seq<char>, Seq<char>),
>
    decreases names.len(),
{
    if names.len() == 0 {
        Seq::empty()
    } else {
        let before = inherited(names.drop_last(), values);
        match values[names.len() - 1] {
            Some(value) => if text::trimmed(value@).len() > 0 {
                before.push((names.last()@, text::trimmed(value@)))
            } else {
                before
            },
            None => before,
        }
    }
}

/// What the job inherits: each variable is looked up once, in order.
pub fn propagated_environment<F: Fn(&'static str) -> Option<String>>(lookup: F) -> (environment: Vec<
    (String, String),
>)
    requires
        forall|name: &'static str| #[trigger] call_requires(lookup, (name,)),
    ensures
        exists|values: Seq<Option<String>>|
            {
                &&& values.len() == propagated().len()
                &&& forall|i: int|
                    0 <= i < values.len() ==> call_ensures(
                        lookup,
                        (propagated()[i],),
                        #[trigger] values[i],
                    )
                &&& pairs(environment@) == #[trigger] inherited(propagated(), values)
            },
{
    let names = propagated_variables();
    let ghost all = propagated();
    let ghost mut values: Seq<Option<String>> = Seq::empty();
    let mut environment: Vec<(String, String)> = Vec::new();
    let mut next: usize = 0;
    assert(all.take(0) =~= Seq::empty());
    assert(pairs(environment@) =~= Seq::empty());
    while next < 9
        invariant
            next <= 9,
            names@ == all,
            all == propagated(),
            all.len() == 9,
            values.len() == next,
            forall|name: &'static str| #[trigger] call_requires(lookup, (name,)),
            forall|i: int|
                0 <= i < next ==> call_ensures(lookup, (all[i],), #[trigger] values[i]),
            pairs(environment@) == inherited(all.take(next as int), values),
        decreases 9 - next,
    {
        let ghost before = environment@;
        let ghost told = values;
        let name: &'static str = names[next];
        let found: Option<String> = lookup(name);
        proof {
            values = values.push(found);
            lemma_inherited_of_prefix(all.take(next as int), told, values);
            assert(all.take(next + 1).drop_last() =~= all.take(next as int));
        }
        if let Some(value) = found {
            let trimmed: String = text::trim_text(value.as_str());
            if trimmed.as_str().unicode_len() > 0 {
                environment.push((String::from_str(name), trimmed));
                assert(pairs(environment@) =~= pairs(before).push((name@, trimmed@)));
            }
        }
        next += 1;
    }
    assert(all.take(9) =~= all);
    environment
}

proof fn lemma_inherited_of_prefix(
    names: Seq<&'static str>,
    values: Seq<Option<String>>,
    more: Seq<Option<String>>,
)
    requires
        values.len() >= names.len(),
        more.len() >= values.len(),
        forall|i: int| 0 <= i < values.len() ==> values[i] == more[i],
    ensures
        inherited(names, values) == inherited(names, more),
    decreases names.len(),
{
    if names.len() > 0 {
        lemma_inherited_of_prefix(names.drop_last(), values, more);
    }
}

// --- The job -----------------------------------------------------------------------------------

/// A job for launchd.
#[derive(Debug, PartialEq, Eq)]
pub struct Job {
    pub label: String,
    pub program: String,
    pub arguments: Vec<String>,
    pub log: String,
    pub environment: Vec<(String, String)>,
}

/// A character as a plist holds it.
pub open spec fn entity(character: char) -> Seq<char> {
    if character == '&' {
        "&amp;"@
    } else if character == '<' {
        "&lt;"@
    } else if character == '>' {
        "&gt;"@
    } else if character == '"' {
        "&quot;"@
    } else if character == '\'' {
        "&apos;"@
    } else {
        seq![character]
    }
}

/// A text as a plist holds it.
pub open spec fn escaped(text: Seq<char>) -> Seq<char>
    decreases text.len(),
{
    if text.len() == 0 {
        Seq::empty()
    } else {
        escaped(text.drop_last()) + entity(text.last())
    }
}

/// Writes a text the way a plist holds it.
pub fn escape(value: &str) -> (shown: String)
    ensures
        shown@ == escaped(value@),
{
    let letters: Vec<char> = text::characters(value);
    let ghost all = value@;
    let mut shown: String = String::new();
    let mut next: usize = 0;
    assert(all.take(0) =~= Seq::empty());
    while next < letters.len()
        invariant
            next <= letters@.len(),
            letters@ == all,
            shown@ == escaped(all.take(next as int)),
        decreases letters@.len() - next,
    {
        assert(all.take(next + 1).drop_last() =~= all.take(next as int));
        let letter: char = letters[next];
        if letter == '&' {
            shown.append("&amp;");
        } else if letter == '<' {
            shown.append("&lt;");
        } else if letter == '>' {
            shown.append("&gt;");
        } else if letter == '"' {
            shown.append("&quot;");
        } else if letter == '\'' {
            shown.append("&apos;");
        } else {
            shown.push(letter);
            assert(shown@ =~= escaped(all.take(next as int)) + entity(letter));
        }
        next += 1;
    }
    assert(all.take(all.len() as int) =~= all);
    shown
}

proof fn lemma_entities()
    ensures
        "&amp;"@ == seq!['&', 'a', 'm', 'p', ';'],
        "&lt;"@ == seq!['&', 'l', 't', ';'],
        "&gt;"@ == seq!['&', 'g', 't', ';'],
        "&quot;"@ == seq!['&', 'q', 'u', 'o', 't', ';'],
        "&apos;"@ == seq!['&', 'a', 'p', 'o', 's', ';'],
{
    reveal_strlit("&amp;");
    reveal_strlit("&lt;");
    reveal_strlit("&gt;");
    reveal_strlit("&quot;");
    reveal_strlit("&apos;");
    assert("&amp;"@ =~= seq!['&', 'a', 'm', 'p', ';']);
    assert("&lt;"@ =~= seq!['&', 'l', 't', ';']);
    assert("&gt;"@ =~= seq!['&', 'g', 't', ';']);
    assert("&quot;"@ =~= seq!['&', 'q', 'u', 'o', 't', ';']);
    assert("&apos;"@ =~= seq!['&', 'a', 'p', 'o', 's', ';']);
}

/// Nothing in an escaped text can be taken for markup.
pub proof fn law_escaped_text_holds_no_markup(text: Seq<char>)
    ensures
        forall|i: int|
            0 <= i < escaped(text).len() ==> {
                let character = #[trigger] escaped(text)[i];
                character != '<' && character != '>' && character != '"' && character != '\''
            },
    decreases text.len(),
{
    if text.len() > 0 {
        law_escaped_text_holds_no_markup(text.drop_last());
        lemma_entities();
        let before = escaped(text.drop_last());
        let last = entity(text.last());
        assert forall|i: int| 0 <= i < escaped(text).len() implies {
            let character = #[trigger] escaped(text)[i];
            character != '<' && character != '>' && character != '"' && character != '\''
        } by {
            if i < before.len() {
                assert(escaped(text)[i] == before[i]);
            } else {
                assert(escaped(text)[i] == last[i - before.len()]);
            }
        }
    }
}

proof fn lemma_escaped_from_the_front(text: Seq<char>)
    requires
        text.len() > 0,
    ensures
        escaped(text) == entity(text[0]) + escaped(text.skip(1)),
    decreases text.len(),
{
    if text.len() == 1 {
        assert(text.drop_last() =~= Seq::empty());
        assert(text.skip(1) =~= Seq::empty());
        assert(escaped(text) =~= entity(text[0]) + escaped(text.skip(1)));
    } else {
        lemma_escaped_from_the_front(text.drop_last());
        assert(text.drop_last().skip(1) =~= text.skip(1).drop_last());
        assert(text.skip(1).last() == text.last());
        assert(escaped(text) =~= entity(text[0]) + escaped(text.skip(1)));
    }
}

proof fn lemma_entities_tell_apart(one: char, other: char, rest: Seq<char>, remainder: Seq<char>)
    requires
        entity(one) + rest == entity(other) + remainder,
    ensures
        one == other,
        rest == remainder,
{
    lemma_entities();
    let left = entity(one) + rest;
    let right = entity(other) + remainder;
    assert(left[0] == entity(one)[0]);
    assert(right[0] == entity(other)[0]);
    if one == '&' || one == '<' || one == '>' || one == '"' || one == '\'' {
        assert(left[0] == '&');
        assert(left[1] == entity(one)[1]);
        assert(right[1] == entity(other)[1]);
        assert(left[2] == entity(one)[2]);
        assert(right[2] == entity(other)[2]);
    }
    assert(one == other);
    assert(left.skip(entity(one).len() as int) =~= rest);
    assert(right.skip(entity(other).len() as int) =~= remainder);
}

/// No two texts are held by a plist in the same way, so what was written can be read back.
pub proof fn law_escaping_loses_nothing(one: Seq<char>, other: Seq<char>)
    requires
        escaped(one) == escaped(other),
    ensures
        one == other,
    decreases one.len(),
{
    lemma_entities();
    if one.len() > 0 {
        lemma_escaped_from_the_front(one);
    }
    if other.len() > 0 {
        lemma_escaped_from_the_front(other);
    }
    if one.len() == 0 || other.len() == 0 {
        assert(one =~= other);
    } else {
        lemma_entities_tell_apart(one[0], other[0], escaped(one.skip(1)), escaped(other.skip(1)));
        law_escaping_loses_nothing(one.skip(1), other.skip(1));
        assert(one =~= seq![one[0]] + one.skip(1));
        assert(other =~= seq![other[0]] + other.skip(1));
    }
}

/// An argument in a job's plist.
pub open spec fn argument_line(argument: Seq<char>) -> Seq<char> {
    "\t\t<string>"@ + escaped(argument) + "</string>\n"@
}

/// The arguments in a job's plist.
pub open spec fn argument_lines(arguments: Seq<Seq<char>>) -> Seq<char>
    decreases arguments.len(),
{
    if arguments.len() == 0 {
        Seq::empty()
    } else {
        argument_lines(arguments.drop_last()) + argument_line(arguments.last())
    }
}

/// A variable in a job's plist.
pub open spec fn variable_lines(name: Seq<char>, value: Seq<char>) -> Seq<char> {
    "\t\t<key>"@ + escaped(name) + "</key>\n\t\t<string>"@ + escaped(value) + "</string>\n"@
}

/// The variables in a job's plist: all but a `PATH`, which every job gets.
pub open spec fn environment_lines(environment: Seq<(Seq<char>, Seq<char>)>) -> Seq<char>
    decreases environment.len(),
{
    if environment.len() == 0 {
        Seq::empty()
    } else {
        let before = environment_lines(environment.drop_last());
        if environment.last().0 == "PATH"@ {
            before
        } else {
            before + variable_lines(environment.last().0, environment.last().1)
        }
    }
}

/// What stands in front of the label in a plist.
pub const PLIST_HEAD: &'static str = "<?xml version=\"1.0\" encoding=\"UTF-8\"?>\n\
     <!DOCTYPE plist PUBLIC \"-//Apple//DTD PLIST 1.0//EN\" \
     \"http://www.apple.com/DTDs/PropertyList-1.0.dtd\">\n\
     <plist version=\"1.0\">\n<dict>\n\
     \t<!-- Written by `amon install`. Do not hand-edit: `amon uninstall` removes it, \
     and `amon status` reports what launchd thinks of it. -->\n\
     \t<key>Label</key>\n\t<string>";

/// What stands between the label and the program.
pub const PLIST_PROGRAM: &'static str = "</string>\n\t<key>ProgramArguments</key>\n\t<array>\n";

/// What stands between the arguments and the throttle.
pub const PLIST_ALIVE: &'static str = "\t</array>\n\
     \t<key>RunAtLoad</key>\n\t<true/>\n\
     \t<key>KeepAlive</key>\n\t<true/>\n\
     \t<key>ThrottleInterval</key>\n\t<integer>";

/// What stands in front of the log's path.
pub const PLIST_OUT: &'static str = "</integer>\n\t<key>StandardOutPath</key>\n\t<string>";

/// What stands between the log's path and itself.
pub const PLIST_ERROR: &'static str = "</string>\n\t<key>StandardErrorPath</key>\n\t<string>";

/// What stands between the log's path and the variables.
pub const PLIST_ENVIRONMENT: &'static str =
    "</string>\n\t<key>EnvironmentVariables</key>\n\t<dict>\n";

/// What ends a plist.
pub const PLIST_TAIL: &'static str = "\t</dict>\n</dict>\n</plist>\n";

/// Whether this is the monitor's job.
pub open spec fn is_monitor(
    job: Job,
    program: Seq<char>,
    state_dir: Seq<char>,
    environment: Vec<(String, String)>,
) -> bool {
    &&& job.label@ == LABEL@
    &&& job.program@ == program
    &&& text::texts(job.arguments@) == seq!["watch"@]
    &&& job.log@ == text::child(state_dir, LOG_FILE@)
    &&& job.environment == environment
}

impl Job {
    /// The monitor's own job.
    pub fn monitor(
        program: &str,
        state_dir: &str,
        environment: Vec<(String, String)>,
    ) -> (job: Job)
        ensures
            is_monitor(job, program@, state_dir@, environment),
    {
        let mut arguments: Vec<String> = Vec::new();
        arguments.push(String::from_str(AmonVerb::Watch.name()));
        assert(text::texts(arguments@) =~= seq!["watch"@]);
        Job {
            label: String::from_str(LABEL),
            program: String::from_str(program),
            arguments,
            log: text::child_path(state_dir, LOG_FILE),
            environment,
        }
    }

    /// What launchd will run, as it would be typed.
    pub open spec fn typed(self) -> Seq<char> {
        text::joined(seq![self.program@] + text::texts(self.arguments@), " "@)
    }

    /// What launchd will run, as it would be typed.
    pub fn command_line(&self) -> (line: String)
        ensures
            line@ == self.typed(),
    {
        let ghost words = text::texts(self.arguments@);
        let ghost first = seq![self.program@];
        let mut line: String = self.program.clone();
        let mut next: usize = 0;
        assert(first + words.take(0) =~= first);
        while next < self.arguments.len()
            invariant
                next <= self.arguments@.len(),
                words == text::texts(self.arguments@),
                first.len() == 1,
                line@ == text::joined(first + words.take(next as int), " "@),
            decreases self.arguments@.len() - next,
        {
            let ghost so_far = first + words.take(next as int);
            let ghost longer = first + words.take(next + 1);
            assert(longer.drop_last() =~= so_far);
            assert(longer.last() == words[next as int]);
            line = line.concat(" ").concat(self.arguments[next].as_str());
            next += 1;
        }
        assert(words.take(words.len() as int) =~= words);
        line
    }

    /// The job's plist.
    pub open spec fn property_list(self) -> Seq<char> {
        PLIST_HEAD@ + escaped(self.label@) + PLIST_PROGRAM@ + argument_line(self.program@)
            + argument_lines(text::texts(self.arguments@)) + PLIST_ALIVE@ + text::decimal(
            THROTTLE_SECONDS as nat,
        ) + PLIST_OUT@ + escaped(self.log@) + PLIST_ERROR@ + escaped(self.log@) + PLIST_ENVIRONMENT@
            + variable_lines("PATH"@, JOB_PATH@) + environment_lines(pairs(self.environment@))
            + PLIST_TAIL@
    }

    /// The job's plist: kept alive, throttled, with its output in the log and its environment spelt
    /// out.
    pub fn plist(&self) -> (contents: String)
        ensures
            contents@ == self.property_list(),
    {
        let log: String = escape(self.log.as_str());
        String::from_str(PLIST_HEAD).concat(escape(self.label.as_str()).as_str()).concat(
            PLIST_PROGRAM,
        ).concat(shown_argument(self.program.as_str()).as_str()).concat(
            self.shown_arguments().as_str(),
        ).concat(PLIST_ALIVE).concat(text::decimal_of(THROTTLE_SECONDS as u128).as_str()).concat(
            PLIST_OUT,
        ).concat(log.as_str()).concat(PLIST_ERROR).concat(log.as_str()).concat(
            PLIST_ENVIRONMENT,
        ).concat(shown_variable("PATH", JOB_PATH).as_str()).concat(
            self.shown_environment().as_str(),
        ).concat(PLIST_TAIL)
    }

    fn shown_arguments(&self) -> (lines: String)
        ensures
            lines@ == argument_lines(text::texts(self.arguments@)),
    {
        let ghost all = text::texts(self.arguments@);
        let mut lines: String = String::new();
        let mut next: usize = 0;
        assert(all.take(0) =~= Seq::empty());
        while next < self.arguments.len()
            invariant
                next <= self.arguments@.len(),
                all == text::texts(self.arguments@),
                lines@ == argument_lines(all.take(next as int)),
            decreases self.arguments@.len() - next,
        {
            assert(all.take(next + 1).drop_last() =~= all.take(next as int));
            lines = lines.concat(shown_argument(self.arguments[next].as_str()).as_str());
            next += 1;
        }
        assert(all.take(all.len() as int) =~= all);
        lines
    }

    fn shown_environment(&self) -> (lines: String)
        ensures
            lines@ == environment_lines(pairs(self.environment@)),
    {
        let ghost all = pairs(self.environment@);
        let mut lines: String = String::new();
        let mut next: usize = 0;
        assert(all.take(0) =~= Seq::empty());
        while next < self.environment.len()
            invariant
                next <= self.environment@.len(),
                all == pairs(self.environment@),
                lines@ == environment_lines(all.take(next as int)),
            decreases self.environment@.len() - next,
        {
            assert(all.take(next + 1).drop_last() =~= all.take(next as int));
            let name: &str = self.environment[next].0.as_str();
            let value: &str = self.environment[next].1.as_str();
            if !text::same(name, "PATH") {
                lines = lines.concat(shown_variable(name, value).as_str());
            }
            next += 1;
        }
        assert(all.take(all.len() as int) =~= all);
        lines
    }
}

fn shown_argument(argument: &str) -> (line: String)
    ensures
        line@ == argument_line(argument@),
{
    String::from_str("\t\t<string>").concat(escape(argument).as_str()).concat("</string>\n")
}

fn shown_variable(name: &str, value: &str) -> (lines: String)
    ensures
        lines@ == variable_lines(name@, value@),
{
    String::from_str("\t\t<key>").concat(escape(name).as_str()).concat(
        "</key>\n\t\t<string>",
    ).concat(escape(value).as_str()).concat("</string>\n")
}

// --- What launchd says -------------------------------------------------------------------------

/// What launchd says of a job it has.
#[derive(Debug, PartialEq, Eq)]
pub struct JobFacts {
    pub running: Option<bool>,
    pub pid: Option<u32>,
    pub runs: Option<u32>,
    pub last_exit: Option<String>,
}

/// Whether launchd has a job.
#[derive(Debug, PartialEq, Eq)]
pub enum JobQuery {
    Loaded(JobFacts),
    NotLoaded,
    Undetermined(String),
}

/// A line of the form `key = value`, without the white space round either, cut at the first such sign.
pub open spec fn entry(line: Seq<char>) -> Option<(Seq<char>, Seq<char>)> {
    let whole = text::trimmed(line);
    match text::first_stand(whole, " = "@, 0) {
        Some(at) => Some((text::trimmed(whole.take(at)), text::trimmed(whole.skip(at + 3)))),
        None => None,
    }
}

fn entry_in(line: &Vec<char>) -> (found: Option<(String, Vec<char>)>)
    ensures
        match found {
            Some(pair) => entry(line@) == Some((pair.0@, pair.1@)),
            None => entry(line@) is None,
        },
{
    let whole: Vec<char> = text::trim(line);
    let sign: Vec<char> = text::characters(" = ");
    proof {
        reveal_strlit(" = ");
        assert(" = "@.len() == 3);
    }
    match text::find_text(&whole, &sign) {
        Some(at) => {
            let end: usize = whole.len();
            let key: Vec<char> = text::part(&whole, 0, at);
            let value: Vec<char> = text::part(&whole, at + 3, end);
            assert(key@ =~= whole@.take(at as int));
            assert(value@ =~= whole@.skip(at + 3));
            Some((text::text_of(&text::trim(&key)), text::trim(&value)))
        },
        None => None,
    }
}

/// What the first line that says something says.
pub open spec fn first_told<T>(
    lines: Seq<Seq<char>>,
    told: spec_fn(Seq<char>) -> Option<T>,
) -> Option<T>
    decreases lines.len(),
{
    if lines.len() == 0 {
        None
    } else {
        match first_told(lines.drop_last(), told) {
            Some(found) => Some(found),
            None => told(lines.last()),
        }
    }
}

/// What a line says of whether the job runs.
pub open spec fn state_told() -> spec_fn(Seq<char>) -> Option<bool> {
    |line: Seq<char>|
        match entry(line) {
            Some(pair) => if pair.0 == "state"@ && pair.1 == "running"@ {
                Some(true)
            } else if pair.0 == "state"@ && pair.1 == "not running"@ {
                Some(false)
            } else {
                None
            },
            None => None,
        }
}

/// The number that a line gives under a key.
pub open spec fn number_told(key: Seq<char>) -> spec_fn(Seq<char>) -> Option<u32> {
    |line: Seq<char>|
        match entry(line) {
            Some(pair) => if pair.0 == key {
                match text::natural(pair.1, u32::MAX as nat) {
                    Ok(number) => Some(number as u32),
                    Err(_) => None,
                }
            } else {
                None
            },
            None => None,
        }
}

/// The text that a line gives under a key.
pub open spec fn text_told(key: Seq<char>) -> spec_fn(Seq<char>) -> Option<Seq<char>> {
    |line: Seq<char>|
        match entry(line) {
            Some(pair) => if pair.0 == key {
                Some(pair.1)
            } else {
                None
            },
            None => None,
        }
}

/// Whether these are the facts in what launchd printed.
pub open spec fn are_facts(facts: JobFacts, lines: Seq<Seq<char>>) -> bool {
    &&& facts.running == first_told(lines, state_told())
    &&& facts.pid == first_told(lines, number_told("pid"@))
    &&& facts.runs == first_told(lines, number_told("runs"@))
    &&& match facts.last_exit {
        Some(code) => first_told(lines, text_told("last exit code"@)) == Some(code@),
        None => first_told(lines, text_told("last exit code"@)) is None,
    }
}

/// The number that a text is, if it is one.
fn number(digits: &Vec<char>) -> (value: Option<u32>)
    ensures
        value == match text::natural(digits@, u32::MAX as nat) {
            Ok(found) => Some(found as u32),
            Err(_) => None,
        },
{
    match text::parse_up_to(digits, u32::MAX as u64) {
        Ok(found) => Some(found as u32),
        Err(_) => None,
    }
}

/// The facts in what launchd printed of a job. For each of them the first line that gives it counts.
pub fn parse_print(output: &str) -> (facts: JobFacts)
    ensures
        are_facts(facts, text::line_list(output@)),
{
    let lines: Vec<Vec<char>> = text::lines(&text::characters(output));
    let ghost all = text::line_list(output@);
    let mut facts = JobFacts { running: None, pid: None, runs: None, last_exit: None };
    let mut next: usize = 0;
    assert(all.take(0) =~= Seq::empty());
    while next < lines.len()
        invariant
            next <= lines@.len(),
            text::views(lines@) == all,
            are_facts(facts, all.take(next as int)),
        decreases lines@.len() - next,
    {
        let ghost longer = all.take(next + 1);
        assert(longer.drop_last() =~= all.take(next as int));
        assert(longer.last() == lines@[next as int]@);
        proof {
            reveal_strlit("state");
            reveal_strlit("pid");
            reveal_strlit("runs");
            reveal_strlit("last exit code");
            assert("state"@.len() == 5 && "pid"@.len() == 3 && "runs"@.len() == 4
                && "last exit code"@.len() == 14);
            reveal_strlit("running");
            reveal_strlit("not running");
            assert("running"@.len() == 7 && "not running"@.len() == 11);
        }
        if let Some((key, value)) = entry_in(&lines[next]) {
            if text::same(key.as_str(), "state") {
                if facts.running.is_none() {
                    let shown: String = text::text_of(&value);
                    facts.running = if text::same(shown.as_str(), "running") {
                        Some(true)
                    } else if text::same(shown.as_str(), "not running") {
                        Some(false)
                    } else {
                        None
                    };
                }
            } else if text::same(key.as_str(), "pid") {
                if facts.pid.is_none() {
                    facts.pid = number(&value);
                }
            } else if text::same(key.as_str(), "runs") {
                if facts.runs.is_none() {
                    facts.runs = number(&value);
                }
            } else if text::same(key.as_str(), "last exit code") {
                if facts.last_exit.is_none() {
                    facts.last_exit = Some(text::text_of(&value));
                }
            }
        }
        next += 1;
    }
    assert(all.take(all.len() as int) =~= all);
    facts
}

// --- How launchd is spoken to ------------------------------------------------------------------

/// The login session of a user, as launchd names it.
pub open spec fn session_of(uid: u32) -> Seq<char> {
    "gui/"@ + text::decimal(uid as nat)
}

/// The login session of a user, as launchd names it.
pub fn domain_target(uid: u32) -> (target: String)
    ensures
        target@ == session_of(uid),
{
    String::from_str("gui/").concat(text::decimal_of(uid as u128).as_str())
}

/// A job in the login session of a user, as launchd names it.
pub open spec fn service_of(uid: u32, label: Seq<char>) -> Seq<char> {
    session_of(uid) + "/"@ + label
}

/// A job in the login session of a user, as launchd names it.
pub fn service_target(uid: u32, label: &str) -> (target: String)
    ensures
        target@ == service_of(uid, label@),
{
    domain_target(uid).concat("/").concat(label)
}

fn two(first: &str, second: String) -> (both: Vec<String>)
    ensures
        text::texts(both@) == seq![first@, second@],
{
    let mut both: Vec<String> = Vec::new();
    both.push(String::from_str(first));
    both.push(second);
    assert(text::texts(both@) =~= seq![first@, second@]);
    both
}

/// What launchctl is told to load a plist.
pub fn bootstrap_arguments(uid: u32, plist: &str) -> (arguments: Vec<String>)
    ensures
        text::texts(arguments@) == seq!["bootstrap"@, session_of(uid), plist@],
{
    let mut arguments: Vec<String> = two("bootstrap", domain_target(uid));
    let ghost before = arguments@;
    arguments.push(String::from_str(plist));
    assert(text::texts(arguments@) =~= text::texts(before).push(plist@));
    assert(text::texts(arguments@) =~= seq!["bootstrap"@, session_of(uid), plist@]);
    arguments
}

/// What launchctl is told to unload a job.
pub fn bootout_arguments(uid: u32, label: &str) -> (arguments: Vec<String>)
    ensures
        text::texts(arguments@) == seq!["bootout"@, service_of(uid, label@)],
{
    two("bootout", service_target(uid, label))
}

/// What launchctl is told to describe a job.
pub fn print_arguments(uid: u32, label: &str) -> (arguments: Vec<String>)
    ensures
        text::texts(arguments@) == seq!["print"@, service_of(uid, label@)],
{
    two("print", service_target(uid, label))
}

/// What running launchctl came to.
#[derive(Debug, PartialEq, Eq)]
pub enum Ran {
    Failed(String),
    Answered { succeeded: bool, stdout: String, stderr: String },
}

/// What a program said, on one line: its errors, or its output where there are none.
pub open spec fn remark(stderr: Seq<char>, stdout: Seq<char>) -> Seq<char> {
    if text::trimmed(stderr).len() > 0 {
        text::joined(text::pieces(text::trimmed(stderr), '\n'), "; "@)
    } else if text::trimmed(stdout).len() > 0 {
        text::joined(text::pieces(text::trimmed(stdout), '\n'), "; "@)
    } else {
        "it said nothing at all"@
    }
}

fn on_one_line(letters: &Vec<char>) -> (line: String)
    ensures
        line@ == text::joined(text::pieces(letters@, '\n'), "; "@),
{
    let parts: Vec<Vec<char>> = text::split(letters, '\n');
    let ghost all = text::pieces(letters@, '\n');
    let mut shown: Vec<String> = Vec::new();
    let mut next: usize = 0;
    assert(text::texts(shown@) =~= all.take(0));
    while next < parts.len()
        invariant
            next <= parts@.len(),
            text::views(parts@) == all,
            text::texts(shown@) == all.take(next as int),
        decreases parts@.len() - next,
    {
        let ghost before = shown@;
        shown.push(text::text_of(&parts[next]));
        assert(text::texts(shown@) =~= text::texts(before).push(all[next as int]));
        assert(all.take(next as int).push(all[next as int]) =~= all.take(next + 1));
        next += 1;
    }
    assert(all.take(all.len() as int) =~= all);
    text::join(&shown, "; ")
}

fn one_line(stderr: &str, stdout: &str) -> (line: String)
    ensures
        line@ == remark(stderr@, stdout@),
{
    let errors: Vec<char> = text::trim(&text::characters(stderr));
    if errors.len() > 0 {
        return on_one_line(&errors);
    }
    let output: Vec<char> = text::trim(&text::characters(stdout));
    if output.len() > 0 {
        return on_one_line(&output);
    }
    String::from_str("it said nothing at all")
}

/// How launchd is reached.
#[derive(Debug, PartialEq, Eq)]
pub struct SystemLaunchctl {
    program: String,
    uid: u32,
    overridden: bool,
}

impl SystemLaunchctl {
    /// The program that is run.
    pub closed spec fn runs(self) -> Seq<char> {
        self.program@
    }

    /// Whose login session is spoken of.
    pub closed spec fn user(self) -> u32 {
        self.uid
    }

    /// Whether something else than launchctl is run.
    pub closed spec fn is_overridden(self) -> bool {
        self.overridden
    }

    /// launchctl itself, unless another program is named.
    pub fn from_values(program: Option<&str>, uid: u32) -> (control: SystemLaunchctl)
        ensures
            control.user() == uid,
            control.is_overridden() == state::named(program) is Some,
            match state::named(program) {
                Some(explicit) => control.runs() == explicit,
                None => control.runs() == LAUNCHCTL@,
            },
    {
        match state::trimmed_setting(program) {
            Some(explicit) => SystemLaunchctl { program: explicit, uid, overridden: true },
            None => SystemLaunchctl {
                program: String::from_str(LAUNCHCTL),
                uid,
                overridden: false,
            },
        }
    }

    /// The program that stands in for launchctl, if one does.
    pub fn override_in_use(&self) -> (path: Option<&str>)
        ensures
            match path {
                Some(found) => self.is_overridden() && found@ == self.runs(),
                None => !self.is_overridden(),
            },
    {
        if self.overridden {
            Some(self.program.as_str())
        } else {
            None
        }
    }

    /// The program that is run.
    pub fn program(&self) -> (path: &str)
        ensures
            path@ == self.runs(),
    {
        self.program.as_str()
    }

    /// Whose login session is spoken of.
    pub fn uid(&self) -> (uid: u32)
        ensures
            uid == self.user(),
    {
        self.uid
    }

    /// What is run, in one line.
    pub open spec fn call(self, arguments: Seq<Seq<char>>) -> Seq<char> {
        self.runs() + " "@ + text::joined(arguments, " "@)
    }

    /// Whether this is what a command to launchd came to.
    pub open spec fn is_done(
        self,
        outcome: Result<(), String>,
        arguments: Seq<Seq<char>>,
        ran: Ran,
    ) -> bool {
        match ran {
            Ran::Failed(why) => outcome matches Err(said) && said@ == self.call(arguments)
                + " could not be run: "@ + why@,
            Ran::Answered { succeeded, stdout, stderr } => if succeeded {
                outcome is Ok
            } else {
                outcome matches Err(said) && said@ == self.call(arguments) + " failed: "@ + remark(
                    stderr@,
                    stdout@,
                )
            },
        }
    }

    fn called(&self, arguments: &Vec<String>) -> (line: String)
        ensures
            line@ == self.call(text::texts(arguments@)),
    {
        self.program.clone().concat(" ").concat(text::join(arguments, " ").as_str())
    }

    fn done(&self, arguments: Vec<String>, ran: Ran) -> (outcome: Result<(), String>)
        ensures
            self.is_done(outcome, text::texts(arguments@), ran),
    {
        match ran {
            Ran::Failed(why) => Err(
                self.called(&arguments).concat(" could not be run: ").concat(why.as_str()),
            ),
            Ran::Answered { succeeded, stdout, stderr } => if succeeded {
                Ok(())
            } else {
                Err(
                    self.called(&arguments).concat(" failed: ").concat(
                        one_line(stderr.as_str(), stdout.as_str()).as_str(),
                    ),
                )
            },
        }
    }

    /// What loading a plist came to.
    pub fn bootstrap(&self, plist: &str, ran: Ran) -> (outcome: Result<(), String>)
        ensures
            self.is_done(
                outcome,
                seq!["bootstrap"@, session_of(self.user()), plist@],
                ran,
            ),
    {
        self.done(bootstrap_arguments(self.uid, plist), ran)
    }

    /// What unloading a job came to.
    pub fn bootout(&self, label: &str, ran: Ran) -> (outcome: Result<(), String>)
        ensures
            self.is_done(outcome, seq!["bootout"@, service_of(self.user(), label@)], ran),
    {
        self.done(bootout_arguments(self.uid, label), ran)
    }

    /// Whether this is what asking launchd for a job came to.
    pub open spec fn is_answer(self, answer: JobQuery, label: Seq<char>, ran: Ran) -> bool {
        let call = self.call(seq!["print"@, service_of(self.user(), label)]);
        match ran {
            Ran::Failed(why) => answer matches JobQuery::Undetermined(said) && said@ == call
                + " could not be run: "@ + why@,
            Ran::Answered { succeeded, stdout, stderr } => if succeeded {
                answer matches JobQuery::Loaded(facts) && are_facts(facts, text::line_list(stdout@))
            } else if text::contains_text(stderr@, "Could not find service"@) || text::contains_text(
                stdout@,
                "Could not find"@,
            ) {
                answer is NotLoaded
            } else {
                answer matches JobQuery::Undetermined(said) && said@ == call + " did not answer: "@
                    + remark(stderr@, stdout@)
            },
        }
    }

    /// What asking launchd for a job came to: only its own word that there is none counts as one.
    pub fn query(&self, label: &str, ran: Ran) -> (answer: JobQuery)
        ensures
            self.is_answer(answer, label@, ran),
    {
        let arguments: Vec<String> = print_arguments(self.uid, label);
        match ran {
            Ran::Failed(why) => JobQuery::Undetermined(
                self.called(&arguments).concat(" could not be run: ").concat(why.as_str()),
            ),
            Ran::Answered { succeeded, stdout, stderr } => {
                if succeeded {
                    JobQuery::Loaded(parse_print(stdout.as_str()))
                } else if text::contains(
                    &text::characters(stderr.as_str()),
                    &text::characters("Could not find service"),
                ) || text::contains(
                    &text::characters(stdout.as_str()),
                    &text::characters("Could not find"),
                ) {
                    JobQuery::NotLoaded
                } else {
                    JobQuery::Undetermined(
                        self.called(&arguments).concat(" did not answer: ").concat(
                            one_line(stderr.as_str(), stdout.as_str()).as_str(),
                        ),
                    )
                }
            },
        }
    }

    /// How launchd is reached, in words.
    pub open spec fn account(self) -> Seq<char> {
        if self.is_overridden() {
            self.runs()
                + " — NOT launchd, because ACMON_LAUNCHCTL is set. Nothing this run reports describes a real login session"@
        } else {
            "launchd, through "@ + self.runs()
        }
    }

    /// How launchd is reached, in words.
    pub fn describes_itself_as(&self) -> (words: String)
        ensures
            words@ == self.account(),
    {
        if self.overridden {
            self.program.clone().concat(
                " — NOT launchd, because ACMON_LAUNCHCTL is set. Nothing this run reports describes a real login session",
            )
        } else {
            String::from_str("launchd, through ").concat(self.program.as_str())
        }
    }
}

/// What is said when neither the variable nor a home gives the LaunchAgents directory.
pub open spec fn no_agents_directory() -> Seq<char> {
    "HOME is not readable, so ACMON_LAUNCH_AGENTS_DIR must name the LaunchAgents directory explicitly"@
}

/// Whether this is the LaunchAgents directory that the settings name.
pub open spec fn is_agents_directory(
    directory: Result<String, String>,
    explicit: Option<&str>,
    home: Option<&str>,
) -> bool {
    match state::named(explicit) {
        Some(path) => directory matches Ok(found) && found@ == path,
        None => match state::named(home) {
            Some(at) => directory matches Ok(found) && found@ == text::child(
                text::child(at, "Library"@),
                "LaunchAgents"@,
            ),
            None => directory matches Err(why) && why@ == no_agents_directory(),
        },
    }
}

/// The LaunchAgents directory: the one that is named, or the usual one under a home.
pub fn launch_agents_dir_from_values(explicit: Option<&str>, home: Option<&str>) -> (directory: Result<
    String,
    String,
>)
    ensures
        is_agents_directory(directory, explicit, home),
{
    if let Some(path) = state::trimmed_setting(explicit) {
        return Ok(path);
    }
    match state::trimmed_setting(home) {
        Some(at) => Ok(
            text::child_path(text::child_path(at.as_str(), "Library").as_str(), "LaunchAgents"),
        ),
        None => Err(
            String::from_str(
                "HOME is not readable, so ACMON_LAUNCH_AGENTS_DIR must name the LaunchAgents directory explicitly",
            ),
        ),
    }
}

} // verus!
