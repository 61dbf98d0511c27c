//! Which process is an agent, where it works, how long it has been silent, and what else works there.

use crate::detect;
use crate::detect::Detector;
use crate::order;
use crate::text;
use crate::time::{Duration, SystemTime};
use crate::world::{
    ActivityUnavailable, CodexSession, NamespaceUnmatched, ProcessRecord, Workspace,
    WorkspaceUnknown, WorldError,
};
use vstd::prelude::*;

verus! {

// --- Recognising agents ------------------------------------------------------------------------

/// The id of the first detector that recognises a process.
pub open spec fn cli_of(record: ProcessRecord, detectors: Seq<Detector>) -> Option<String> {
    match record.exe_path {
        Ok(exe) => match detect::first_match(detectors, exe@) {
            Some(at) => Some(detectors[at].id),
            None => None,
        },
        Err(_) => None,
    }
}

fn cli_for<'a>(record: &ProcessRecord, detectors: &'a Vec<Detector>) -> (cli: Option<&'a String>)
    ensures
        match cli_of(*record, detectors@) {
            Some(id) => cli == Some(&id),
            None => cli is None,
        },
{
    match &record.exe_path {
        Ok(exe) => match detect::find(detectors, exe.as_str()) {
            Some(detector) => Some(&detector.id),
            None => None,
        },
        Err(_) => None,
    }
}

/// The processes that are agents, by position, each with the id it was recognised under.
pub open spec fn agents_in(records: Seq<ProcessRecord>, detectors: Seq<Detector>) -> Seq<
    (usize, String),
>
    decreases records.len(),
{
    if records.len() == 0 {
        Seq::empty()
    } else {
        let before = agents_in(records.drop_last(), detectors);
        match cli_of(records.last(), detectors) {
            Some(cli) => before.push(((records.len() - 1) as usize, cli)),
            None => before,
        }
    }
}

proof fn lemma_agents_are_records(records: Seq<ProcessRecord>, detectors: Seq<Detector>)
    ensures
        agents_in(records, detectors).len() <= records.len(),
        records.len() <= usize::MAX ==> forall|i: int|
            0 <= i < agents_in(records, detectors).len() ==> (
            #[trigger] agents_in(records, detectors)[i]).0 < records.len(),
    decreases records.len(),
{
    if records.len() > 0 {
        lemma_agents_are_records(records.drop_last(), detectors);
        let before = agents_in(records.drop_last(), detectors);
        if records.len() <= usize::MAX {
            assert forall|i: int| 0 <= i < agents_in(records, detectors).len() implies (
            #[trigger] agents_in(records, detectors)[i]).0 < records.len() by {
                if i < before.len() {
                    assert(agents_in(records, detectors)[i] == before[i]);
                }
            }
        }
    }
}

/// Finds the processes that are agents.
pub fn recognise(records: &Vec<ProcessRecord>, detectors: &Vec<Detector>) -> (agents: Vec<
    (usize, String),
>)
    ensures
        agents@ == agents_in(records@, detectors@),
        forall|i: int| 0 <= i < agents@.len() ==> (#[trigger] agents@[i]).0 < records@.len(),
{
    let mut agents: Vec<(usize, String)> = Vec::new();
    let mut next: usize = 0;
    assert(records@.take(0) =~= Seq::<ProcessRecord>::empty());
    while next < records.len()
        invariant
            next <= records@.len(),
            agents@ == agents_in(records@.take(next as int), detectors@),
        decreases records@.len() - next,
    {
        assert(records@.take(next + 1).drop_last() =~= records@.take(next as int));
        if let Some(cli) = cli_for(&records[next], detectors) {
            agents.push((next, cli.clone()));
        }
        next += 1;
    }
    assert(records@.take(next as int) =~= records@);
    proof {
        lemma_agents_are_records(records@, detectors@);
    }
    agents
}

// --- Attributing a session to a workspace --------------------------------------------------------

/// The records that say where a session works.
#[derive(Debug, PartialEq, Eq)]
pub struct AttributionSources {
    /// The CLI whose transcripts are filed by directory.
    pub filing_cli: String,
    pub filed_namespaces: Result<Vec<String>, WorldError>,
    pub codex_sessions: Result<Vec<CodexSession>, WorldError>,
}

impl AttributionSources {
    /// The recorded names, and none where they could not be listed.
    pub open spec fn names(self) -> Seq<String> {
        match self.filed_namespaces {
            Ok(names) => names@,
            Err(_) => Seq::empty(),
        }
    }

    /// The sessions of Codex's index, and none where it could not be read.
    pub open spec fn indexed(self) -> Seq<CodexSession> {
        match self.codex_sessions {
            Ok(sessions) => sessions@,
            Err(_) => Seq::empty(),
        }
    }
}

/// Whether a recorded name is the one something is filed under, case aside.
pub open spec fn files_as(filed_under: Seq<char>) -> spec_fn(String) -> bool {
    |name: String| text::same_but_case(name@, filed_under)
}

/// Whether a recorded name is exactly this one.
pub open spec fn is_named(wanted: Seq<char>) -> spec_fn(String) -> bool {
    |name: String| name@ == wanted
}

/// Whether an indexed session works at a path, case aside.
pub open spec fn works_at(path: Seq<char>) -> spec_fn(CodexSession) -> bool {
    |session: CodexSession| text::same_but_case(session.workspace@, path)
}

/// Whether an indexed session has this id.
pub open spec fn has_id(id: Seq<char>) -> spec_fn(CodexSession) -> bool {
    |session: CodexSession| session.id@ == id
}

fn filed_at(names: &Vec<String>, filed_under: &str) -> (at: Option<usize>)
    ensures
        match at {
            Some(i) => i < names@.len() && order::first_where(names@, files_as(filed_under@))
                == Some(i as int),
            None => order::first_where(names@, files_as(filed_under@)) is None,
        },
{
    let ghost wanted = files_as(filed_under@);
    let mut next: usize = 0;
    while next < names.len()
        invariant
            next <= names@.len(),
            wanted == files_as(filed_under@),
            forall|i: int| 0 <= i < next ==> !wanted(#[trigger] names@[i]),
        decreases names@.len() - next,
    {
        if text::same_ignoring_case(names[next].as_str(), filed_under) {
            proof {
                order::lemma_is_first(names@, wanted, next as int);
            }
            return Some(next);
        }
        next += 1;
    }
    proof {
        order::lemma_is_nowhere(names@, wanted);
    }
    None
}

fn named_at(names: &Vec<String>, name: &str) -> (at: Option<usize>)
    ensures
        match at {
            Some(i) => i < names@.len() && order::first_where(names@, is_named(name@)) == Some(
                i as int,
            ),
            None => order::first_where(names@, is_named(name@)) is None,
        },
{
    let ghost wanted = is_named(name@);
    let mut next: usize = 0;
    while next < names.len()
        invariant
            next <= names@.len(),
            wanted == is_named(name@),
            forall|i: int| 0 <= i < next ==> !wanted(#[trigger] names@[i]),
        decreases names@.len() - next,
    {
        if text::same(names[next].as_str(), name) {
            proof {
                order::lemma_is_first(names@, wanted, next as int);
            }
            return Some(next);
        }
        next += 1;
    }
    proof {
        order::lemma_is_nowhere(names@, wanted);
    }
    None
}

fn indexed_at(sessions: &Vec<CodexSession>, path: &str) -> (at: Option<usize>)
    ensures
        match at {
            Some(i) => i < sessions@.len() && order::first_where(sessions@, works_at(path@))
                == Some(i as int),
            None => order::first_where(sessions@, works_at(path@)) is None,
        },
{
    let ghost wanted = works_at(path@);
    let mut next: usize = 0;
    while next < sessions.len()
        invariant
            next <= sessions@.len(),
            wanted == works_at(path@),
            forall|i: int| 0 <= i < next ==> !wanted(#[trigger] sessions@[i]),
        decreases sessions@.len() - next,
    {
        if text::same_ignoring_case(sessions[next].workspace.as_str(), path) {
            proof {
                order::lemma_is_first(sessions@, wanted, next as int);
            }
            return Some(next);
        }
        next += 1;
    }
    proof {
        order::lemma_is_nowhere(sessions@, wanted);
    }
    None
}

fn indexed_as(sessions: &Vec<CodexSession>, id: &str) -> (at: Option<usize>)
    ensures
        match at {
            Some(i) => i < sessions@.len() && order::first_where(sessions@, has_id(id@)) == Some(
                i as int,
            ),
            None => order::first_where(sessions@, has_id(id@)) is None,
        },
{
    let ghost wanted = has_id(id@);
    let mut next: usize = 0;
    while next < sessions.len()
        invariant
            next <= sessions@.len(),
            wanted == has_id(id@),
            forall|i: int| 0 <= i < next ==> !wanted(#[trigger] sessions@[i]),
        decreases sessions@.len() - next,
    {
        if text::same(sessions[next].id.as_str(), id) {
            proof {
                order::lemma_is_first(sessions@, wanted, next as int);
            }
            return Some(next);
        }
        next += 1;
    }
    proof {
        order::lemma_is_nowhere(sessions@, wanted);
    }
    None
}

/// Where a process of a CLI works. Where transcripts are filed by directory, the working
/// directory is the workspace; Codex's index says where its sessions work, and the working directory
/// only leads to the entry; of any other CLI nothing is known but the directory.
pub open spec fn workspace_for(
    cli: String,
    record: ProcessRecord,
    sources: AttributionSources,
) -> Result<Workspace, WorkspaceUnknown> {
    match record.cwd {
        Err(why) => Err(WorkspaceUnknown::because_of(why)),
        Ok(path) => if cli@ == sources.filing_cli@ {
            Ok(
                Workspace {
                    path,
                    namespace: match sources.filed_namespaces {
                        Ok(names) => match order::first_where(
                            names@,
                            files_as(record.filed_under@),
                        ) {
                            Some(i) => Ok(names@[i]),
                            None => Err(
                                NamespaceUnmatched::NotRecorded { mapped: record.filed_under },
                            ),
                        },
                        Err(why) => Err(NamespaceUnmatched::ListingFailed(why)),
                    },
                },
            )
        } else if cli@ == "codex"@ {
            match sources.codex_sessions {
                Ok(sessions) => match order::first_where(sessions@, works_at(path@)) {
                    Some(i) => Ok(
                        Workspace { path: sessions@[i].workspace, namespace: Ok(sessions@[i].id) },
                    ),
                    None => Ok(
                        Workspace {
                            path,
                            namespace: Err(NamespaceUnmatched::NotRecorded { mapped: path }),
                        },
                    ),
                },
                Err(why) => Ok(
                    Workspace { path, namespace: Err(NamespaceUnmatched::ListingFailed(why)) },
                ),
            }
        } else {
            Ok(Workspace { path, namespace: Err(NamespaceUnmatched::UnknownCli(cli)) })
        },
    }
}

/// Where a process of a CLI works.
pub fn workspace_of(cli: &String, record: &ProcessRecord, sources: &AttributionSources) -> (found:
    Result<Workspace, WorkspaceUnknown>)
    ensures
        found == workspace_for(*cli, *record, *sources),
{
    let path: &String = match &record.cwd {
        Ok(path) => path,
        Err(why) => {
            return Err(WorkspaceUnknown::of(why));
        },
    };
    if text::same(cli.as_str(), sources.filing_cli.as_str()) {
        let namespace: Result<String, NamespaceUnmatched> = match &sources.filed_namespaces {
            Ok(names) => match filed_at(names, record.filed_under.as_str()) {
                Some(i) => Ok(names[i].clone()),
                None => Err(
                    NamespaceUnmatched::NotRecorded { mapped: record.filed_under.clone() },
                ),
            },
            Err(why) => Err(NamespaceUnmatched::ListingFailed(why.clone())),
        };
        Ok(Workspace { path: path.clone(), namespace })
    } else if text::same(cli.as_str(), "codex") {
        match &sources.codex_sessions {
            Ok(sessions) => match indexed_at(sessions, path.as_str()) {
                Some(i) => Ok(
                    Workspace {
                        path: sessions[i].workspace.clone(),
                        namespace: Ok(sessions[i].id.clone()),
                    },
                ),
                None => Ok(
                    Workspace {
                        path: path.clone(),
                        namespace: Err(NamespaceUnmatched::NotRecorded { mapped: path.clone() }),
                    },
                ),
            },
            Err(why) => Ok(
                Workspace {
                    path: path.clone(),
                    namespace: Err(NamespaceUnmatched::ListingFailed(why.clone())),
                },
            ),
        }
    } else {
        Ok(
            Workspace {
                path: path.clone(),
                namespace: Err(NamespaceUnmatched::UnknownCli(cli.clone())),
            },
        )
    }
}

/// How long ago an instant was, and no time where the clock says it is still to come.
pub open spec fn elapsed(now: SystemTime, then: SystemTime) -> Duration {
    match now.since(then) {
        Some(span) => span,
        None => Duration { nanos: 0 },
    }
}

pub(crate) fn elapsed_since(now: SystemTime, then: SystemTime) -> (span: Duration)
    ensures
        span == elapsed(now, then),
{
    match now.duration_since(then) {
        Some(span) => span,
        None => Duration { nanos: 0 },
    }
}

/// How long a session has been silent, if that is known: its transcript has a name, and the store
/// its CLI keeps says when that changed. `activities` is what was answered for each recorded name.
pub open spec fn silence_for(
    workspace: Result<Workspace, WorkspaceUnknown>,
    cli: Seq<char>,
    sources: AttributionSources,
    activities: Seq<Result<SystemTime, ActivityUnavailable>>,
    now: SystemTime,
) -> Option<Duration> {
    match workspace {
        Err(_) => None,
        Ok(found) => match found.namespace {
            Err(_) => None,
            Ok(name) => if cli == sources.filing_cli@ {
                match order::first_where(sources.names(), is_named(name@)) {
                    Some(i) => match activities[i] {
                        Ok(then) => Some(elapsed(now, then)),
                        Err(_) => None,
                    },
                    None => None,
                }
            } else if cli == "codex"@ {
                match order::first_where(sources.indexed(), has_id(name@)) {
                    Some(i) => Some(elapsed(now, sources.indexed()[i].last_activity)),
                    None => None,
                }
            } else {
                None
            },
        },
    }
}

/// How long a session has been silent, if that is known.
pub fn silence_of(
    workspace: &Result<Workspace, WorkspaceUnknown>,
    cli: &str,
    sources: &AttributionSources,
    activities: &Vec<Result<SystemTime, ActivityUnavailable>>,
    now: SystemTime,
) -> (span: Option<Duration>)
    requires
        activities@.len() == sources.names().len(),
    ensures
        span == silence_for(*workspace, cli@, *sources, activities@, now),
{
    let name: &String = match workspace {
        Err(_) => {
            return None;
        },
        Ok(found) => match &found.namespace {
            Err(_) => {
                return None;
            },
            Ok(name) => name,
        },
    };
    if text::same(cli, sources.filing_cli.as_str()) {
        match &sources.filed_namespaces {
            Ok(names) => match named_at(names, name.as_str()) {
                Some(i) => match &activities[i] {
                    Ok(then) => Some(elapsed_since(now, *then)),
                    Err(_) => None,
                },
                None => None,
            },
            Err(_) => {
                proof {
                    order::lemma_is_nowhere(sources.names(), is_named(name@));
                }
                None
            },
        }
    } else if text::same(cli, "codex") {
        match &sources.codex_sessions {
            Ok(sessions) => match indexed_as(sessions, name.as_str()) {
                Some(i) => Some(elapsed_since(now, sessions[i].last_activity)),
                None => None,
            },
            Err(_) => {
                proof {
                    order::lemma_is_nowhere(sources.indexed(), has_id(name@));
                }
                None
            },
        }
    } else {
        None
    }
}

// --- Work that is running ----------------------------------------------------------------------

/// Whether a path is a workspace or lies below it, case aside.
pub open spec fn lies_inside(candidate: Seq<char>, workspace: Seq<char>) -> bool {
    ||| text::same_but_case(candidate, workspace)
    ||| {
        &&& candidate.len() > workspace.len()
        &&& text::same_but_case(candidate.take(workspace.len() as int), workspace)
        &&& candidate[workspace.len() as int] == '/'
    }
}

/// Whether a path is a workspace or lies below it, case aside.
pub fn is_inside(candidate: &str, workspace_path: &str) -> (inside: bool)
    ensures
        inside == lies_inside(candidate@, workspace_path@),
{
    if text::same_ignoring_case(candidate, workspace_path) {
        return true;
    }
    let letters: Vec<char> = text::characters(candidate);
    let length: usize = workspace_path.unicode_len();
    if letters.len() <= length {
        return false;
    }
    if letters[length] != '/' {
        return false;
    }
    let start: String = text::text_between(&letters, 0, length);
    assert(letters@.subrange(0, length as int) =~= candidate@.take(length as int));
    text::same_ignoring_case(start.as_str(), workspace_path)
}

/// Whether one process works in a workspace, other than the one that is asked about.
pub open spec fn is_work(record: ProcessRecord, workspace: Seq<char>, own: Option<i32>) -> bool {
    &&& own != Some(record.pid)
    &&& record.cwd matches Ok(cwd) && lies_inside(cwd@, workspace)
}

/// Whether any process other than the session's own works in a workspace.
pub open spec fn work_in(
    records: Seq<ProcessRecord>,
    workspace: Seq<char>,
    own: Option<i32>,
) -> bool {
    exists|i: int| 0 <= i < records.len() && is_work(#[trigger] records[i], workspace, own)
}

/// Whether any process other than the session's own works in a workspace.
pub fn work_running_in(workspace_path: &str, own: Option<i32>, records: &Vec<ProcessRecord>) -> (
    running: bool)
    ensures
        running == work_in(records@, workspace_path@, own),
{
    let mut next: usize = 0;
    while next < records.len()
        invariant
            next <= records@.len(),
            forall|i: int|
                0 <= i < next ==> !is_work(#[trigger] records@[i], workspace_path@, own),
        decreases records@.len() - next,
    {
        let itself: bool = match own {
            Some(pid) => pid == records[next].pid,
            None => false,
        };
        if !itself {
            if let Ok(cwd) = &records[next].cwd {
                if is_inside(cwd.as_str(), workspace_path) {
                    assert(is_work(records@[next as int], workspace_path@, own));
                    return true;
                }
            }
        }
        next += 1;
    }
    false
}

/// Whether one process that is no agent works in a directory filed under a name.
pub open spec fn is_work_filed(
    record: ProcessRecord,
    namespace: Seq<char>,
    detectors: Seq<Detector>,
) -> bool {
    &&& cli_of(record, detectors) is None
    &&& record.cwd is Ok
    &&& text::same_but_case(record.filed_under@, namespace)
}

/// Whether any process that is no agent works in a directory filed under a name.
pub open spec fn work_filed_under(
    records: Seq<ProcessRecord>,
    namespace: Seq<char>,
    detectors: Seq<Detector>,
) -> bool {
    exists|i: int|
        0 <= i < records.len() && is_work_filed(#[trigger] records[i], namespace, detectors)
}

/// Whether any process that is no agent works in a directory filed under a name.
pub fn work_running_in_namespace(
    namespace: &str,
    records: &Vec<ProcessRecord>,
    detectors: &Vec<Detector>,
) -> (running: bool)
    ensures
        running == work_filed_under(records@, namespace@, detectors@),
{
    let mut next: usize = 0;
    while next < records.len()
        invariant
            next <= records@.len(),
            forall|i: int|
                0 <= i < next ==> !is_work_filed(#[trigger] records@[i], namespace@, detectors@),
        decreases records@.len() - next,
    {
        let record: &ProcessRecord = &records[next];
        if cli_for(record, detectors).is_none() && record.cwd.is_ok() && text::same_ignoring_case(
            record.filed_under.as_str(),
            namespace,
        ) {
            assert(is_work_filed(records@[next as int], namespace@, detectors@));
            return true;
        }
        next += 1;
    }
    false
}

} // verus!
