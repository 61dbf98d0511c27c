# acmon

acmon watches the coding agents that run on one machine: which sessions there are, whether each is
at work, waiting or stalled, what it costs, and which workspaces hold work that nobody has committed
and nobody is driving. `amon` is the monitor, which measures, remembers and announces; `agtop` is
the display, which draws and never writes.

The rules are a Verus library in `src/`; every function there is verified against its contract.
`app/` is ordinary Rust round it: the command lines, the files, the processes, the clock and the
terminal.

## The library

| module | what it decides |
| --- | --- |
| `collect` | one collection: what is asked of a machine, in which order, and the snapshot that comes of it |
| `tiers`, `schedule` | which facts are read how often, what a pass may ask, and what it publishes |
| `liveness`, `vcs`, `detect` | the verdict on a session, on a workspace, and which program is an agent |
| `memory`, `notify`, `deliver` | what is remembered, announced once, and counted as heard |
| `state`, `lock`, `starts`, `meter` | the files of the monitor, its lock, its launches and its own cost |
| `display`, `render` | whether what was published can be believed, and every line that is drawn |
| `launchd`, `cli` | installing, removing and reporting the job; the command lines |
| `real_world` | the decisions behind each reading of a real machine: paths, `ps`, `git`, transcripts |
| `order`, `book`, `text`, `time`, `isotime`, `machtime` | stable orders, small maps, characters, spans and dates |

A machine is the trait `collect::World`. Its methods say what they add to a log that exists only in
contracts, and `collect` states its result over that log.

The properties that span several functions are the public proof functions whose names begin with
`law_`: that a display changes nothing, that no session is dropped from a screen in silence, that an
alert nobody heard is announced again, that what was heard is not, even after a restart that lost the
history, that a failed pass forgets nothing, and others.

What the proofs rest on besides Verus and its library are the few items marked
`#[verifier::external_body]` or `assume_specification`, all of the standard library, in `text` and
`time`, each with the claim made of it above it, and one type of `serde_json` in `state`, which is
only carried through.

## Settings

Beside the directories and spans that the monitor names in its usage text, `app/` reads
`ACMON_FILING_CLI`, the name of the agent whose transcripts are filed by working directory, and
`ACMON_TRANSCRIPTS`, where they are.
