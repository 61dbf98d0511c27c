//! The sessions of Codex's own index: which of them were active recently, where their transcripts are, and
//! where they work.

use crate::collect::workspaces::PathKey;
use crate::isotime;
use crate::order;
use crate::text;
use crate::time::SystemTime;
use crate::world::{CodexSession, WorldError};
use vstd::prelude::*;

verus! {

/// How recently a session must have been updated to be worth opening: six hours.
pub const CODEX_RECENCY_WINDOW_SECONDS: i64 = 21_600;

// --- The index ---------------------------------------------------------------------------------

/// What a line of the index says that matters.
#[derive(Debug, PartialEq, Eq)]
pub struct IndexRow {
    pub id: String,
    pub updated_at: String,
}

/// A line of the index that holds anything: where it stands, counted from one, and what came of
/// understanding it.
#[derive(Debug, PartialEq, Eq)]
pub struct NumberedRow {
    pub number: usize,
    pub row: Result<IndexRow, String>,
}

/// A session that was active, and when.
#[derive(Debug, PartialEq, Eq)]
pub struct Active {
    pub id: String,
    pub last_activity: SystemTime,
}

/// Where a line stands in the index.
pub open spec fn place(index: Seq<char>, number: nat) -> Seq<char> {
    index + " line "@ + text::decimal(number) + ": "@
}

/// What is said of a session from before the clock began.
pub open spec fn too_early(seconds: int) -> Seq<char> {
    "timestamp "@ + text::signed_decimal(seconds) + " is negative"@
}

/// What a line adds: a session and the nanosecond of its activity, where that was recently; nothing,
/// where it was not; or what is wrong with the line.
pub open spec fn added(entry: NumberedRow, now: i64, index: Seq<char>) -> Result<
    Option<(Seq<char>, int)>,
    Seq<char>,
> {
    match entry.row {
        Err(error) => Err(place(index, entry.number as nat) + error@),
        Ok(row) => match isotime::instant(row.updated_at@) {
            None => Err(place(index, entry.number as nat) + isotime::malformed(row.updated_at@)),
            Some(updated) => if !(i64::MIN <= updated <= i64::MAX) {
                Err(place(index, entry.number as nat) + isotime::malformed(row.updated_at@))
            } else if now - updated > CODEX_RECENCY_WINDOW_SECONDS {
                Ok(None)
            } else if updated < 0 {
                Err(place(index, entry.number as nat) + too_early(updated))
            } else {
                Ok(Some((row.id@, updated * 1_000_000_000)))
            },
        },
    }
}

/// The sessions that lines add, or what is wrong with the first line that anything is wrong with.
pub open spec fn active_of(entries: Seq<NumberedRow>, now: i64, index: Seq<char>) -> Result<
    Seq<(Seq<char>, int)>,
    Seq<char>,
>
    decreases entries.len(),
{
    if entries.len() == 0 {
        Ok(Seq::empty())
    } else {
        match active_of(entries.drop_last(), now, index) {
            Err(why) => Err(why),
            Ok(before) => match added(entries.last(), now, index) {
                Err(why) => Err(why),
                Ok(None) => Ok(before),
                Ok(Some(session)) => Ok(before.push(session)),
            },
        }
    }
}

/// Sessions as what is known of them.
pub open spec fn known(sessions: Seq<Active>) -> Seq<(Seq<char>, int)> {
    sessions.map_values(|session: Active| (session.id@, session.last_activity.nanos as int))
}

/// Whether this is what the index says of who was active recently.
pub open spec fn is_index_of(
    found: Result<Vec<Active>, WorldError>,
    entries: Seq<NumberedRow>,
    now: i64,
    index: Seq<char>,
) -> bool {
    match active_of(entries, now, index) {
        Ok(sessions) => found matches Ok(active) && known(active@) == sessions,
        Err(wrong) => found matches Err(WorldError::CodexIndex(why)) && why@ == wrong,
    }
}

proof fn lemma_what_is_wrong_stays_wrong(
    entries: Seq<NumberedRow>,
    now: i64,
    index: Seq<char>,
    upto: int,
)
    requires
        0 <= upto <= entries.len(),
        active_of(entries.take(upto), now, index) is Err,
    ensures
        active_of(entries, now, index) == active_of(entries.take(upto), now, index),
    decreases entries.len() - upto,
{
    if upto == entries.len() {
        assert(entries.take(upto) =~= entries);
    } else {
        assert(entries.take(upto + 1).drop_last() =~= entries.take(upto));
        lemma_what_is_wrong_stays_wrong(entries, now, index, upto + 1);
    }
}

fn place_text(index: &str, number: usize) -> (words: String)
    ensures
        words@ == place(index@, number as nat),
{
    String::from_str(index).concat(" line ").concat(text::count_of(number).as_str()).concat(": ")
}

fn add_row(entry: &NumberedRow, now: i64, index: &str) -> (session: Result<
    Option<Active>,
    String,
>)
    ensures
        match added(*entry, now, index@) {
            Ok(Some(one)) => session matches Ok(Some(found)) && found.id@ == one.0
                && found.last_activity.nanos == one.1,
            Ok(None) => session matches Ok(None),
            Err(wrong) => session matches Err(why) && why@ == wrong,
        },
{
    match &entry.row {
        Err(error) => Err(place_text(index, entry.number).concat(error.as_str())),
        Ok(row) => match isotime::checked_unix_seconds(row.updated_at.as_str()) {
            Err(error) => Err(place_text(index, entry.number).concat(error.as_str())),
            Ok(updated) => if now as i128 - updated as i128 > CODEX_RECENCY_WINDOW_SECONDS as i128 {
                Ok(None)
            } else if updated < 0 {
                Err(
                    place_text(index, entry.number).concat(
                        String::from_str("timestamp ").concat(
                            text::signed_decimal_of(updated).as_str(),
                        ).concat(" is negative").as_str(),
                    ),
                )
            } else {
                let last_activity: SystemTime = isotime::time_from_unix_seconds(updated);
                Ok(Some(Active { id: row.id.clone(), last_activity }))
            },
        },
    }
}

/// Who was active recently, according to the index. A line that cannot be understood is an error and is
/// never skipped.
pub fn recently_active_codex_ids(index: &str, entries: &Vec<NumberedRow>, now: i64) -> (found: Result<
    Vec<Active>,
    WorldError,
>)
    ensures
        is_index_of(found, entries@, now, index@),
{
    let mut active: Vec<Active> = Vec::new();
    let mut next: usize = 0;
    assert(entries@.take(0) =~= Seq::empty());
    assert(known(active@) =~= Seq::empty());
    while next < entries.len()
        invariant
            next <= entries@.len(),
            active_of(entries@.take(next as int), now, index@) == Ok::<
                Seq<(Seq<char>, int)>,
                Seq<char>,
            >(known(active@)),
        decreases entries@.len() - next,
    {
        assert(entries@.take(next + 1).drop_last() =~= entries@.take(next as int));
        match add_row(&entries[next], now, index) {
            Ok(Some(session)) => {
                let ghost before = active@;
                active.push(session);
                assert(known(active@) =~= known(before).push(
                    (session.id@, session.last_activity.nanos as int),
                ));
            },
            Ok(None) => {},
            Err(why) => {
                proof {
                    lemma_what_is_wrong_stays_wrong(entries@, now, index@, next + 1);
                }
                return Err(WorldError::CodexIndex(why));
            },
        }
        next += 1;
    }
    assert(entries@.take(next as int) =~= entries@);
    Ok(active)
}

// --- The transcripts ---------------------------------------------------------------------------

/// One entry of a directory.
#[derive(Debug, PartialEq, Eq)]
pub struct DirectoryEntry {
    pub name: String,
    pub path: String,
    pub is_directory: bool,
}

/// A session whose transcript was found.
#[derive(Debug, PartialEq, Eq)]
pub struct Located {
    pub id: String,
    pub path: String,
    pub last_activity: SystemTime,
}

/// Sessions whose id is in a name.
pub open spec fn is_named_in(name: Seq<char>) -> spec_fn(Active) -> bool {
    |session: Active| text::contains_text(name, session.id@)
}

/// Whether a session has been located already.
pub open spec fn is_located(found: Seq<Located>, id: Seq<char>) -> bool {
    exists|i: int| 0 <= i < found.len() && (#[trigger] found[i]).id@ == id
}

/// What an entry adds to what was located: the transcript of the first session that its name names, unless
/// that session has one already.
pub open spec fn with_entry(
    found: Seq<Located>,
    entry: DirectoryEntry,
    wanted: Seq<Active>,
) -> Seq<Located> {
    match order::first_where(wanted, is_named_in(entry.name@)) {
        Some(at) => if entry.is_directory || is_located(found, wanted[at].id@) {
            found
        } else {
            found.push(
                Located {
                    id: wanted[at].id,
                    path: entry.path,
                    last_activity: wanted[at].last_activity,
                },
            )
        },
        None => found,
    }
}

/// What the entries of a directory add.
pub open spec fn with_entries(
    found: Seq<Located>,
    entries: Seq<DirectoryEntry>,
    wanted: Seq<Active>,
) -> Seq<Located>
    decreases entries.len(),
{
    if entries.len() == 0 {
        found
    } else {
        with_entry(with_entries(found, entries.drop_last(), wanted), entries.last(), wanted)
    }
}

/// The directories among entries.
pub open spec fn subdirectories(entries: Seq<DirectoryEntry>) -> Seq<PathKey>
    decreases entries.len(),
{
    if entries.len() == 0 {
        Seq::empty()
    } else {
        let before = subdirectories(entries.drop_last());
        if entries.last().is_directory {
            before.push(PathKey { path: entries.last().path })
        } else {
            before
        }
    }
}

/// A hunt for the transcripts of sessions.
#[derive(Debug, PartialEq, Eq)]
pub struct Hunt {
    pub wanted: Vec<Active>,
    pub found: Vec<Located>,
    /// The directories that are still to be read, the next at the end.
    pub pending: Vec<PathKey>,
}

fn first_named(name: &str, wanted: &Vec<Active>) -> (at: Option<usize>)
    ensures
        match at {
            Some(found) => found < wanted@.len() && order::first_where(
                wanted@,
                is_named_in(name@),
            ) == Some(found as int),
            None => order::first_where(wanted@, is_named_in(name@)) is None,
        },
{
    let characters: Vec<char> = text::characters(name);
    let mut next: usize = 0;
    while next < wanted.len()
        invariant
            next <= wanted@.len(),
            characters@ == name@,
            forall|i: int| 0 <= i < next ==> !is_named_in(name@)(#[trigger] wanted@[i]),
        decreases wanted@.len() - next,
    {
        if text::contains(&characters, &text::characters(wanted[next].id.as_str())) {
            proof {
                order::lemma_is_first(wanted@, is_named_in(name@), next as int);
            }
            return Some(next);
        }
        next += 1;
    }
    proof {
        order::lemma_is_nowhere(wanted@, is_named_in(name@));
    }
    None
}

fn has_one(found: &Vec<Located>, id: &str) -> (already: bool)
    ensures
        already == is_located(found@, id@),
{
    let mut next: usize = 0;
    while next < found.len()
        invariant
            next <= found@.len(),
            forall|i: int| 0 <= i < next ==> (#[trigger] found@[i]).id@ != id@,
        decreases found@.len() - next,
    {
        if text::same(found[next].id.as_str(), id) {
            return true;
        }
        next += 1;
    }
    false
}

/// Whether this is the directory that a hunt looks into next.
pub open spec fn has_stepped(after: Hunt, path: Option<String>, before: Hunt) -> bool {
    &&& after.wanted == before.wanted
    &&& after.found == before.found
    &&& if before.pending@.len() == 0 {
        path is None && after.pending == before.pending
    } else if before.found@.len() == before.wanted@.len() {
        path is None && after.pending@.len() == 0
    } else {
        path == Some(before.pending@.last().path) && after.pending@ == before.pending@.drop_last()
    }
}

/// Whether a hunt has taken in the entries of a directory.
pub open spec fn has_seen(after: Hunt, before: Hunt, entries: Seq<DirectoryEntry>) -> bool {
    &&& after.wanted == before.wanted
    &&& after.found@ == with_entries(before.found@, entries, before.wanted@)
    &&& exists|ranked: Seq<usize>| #[trigger]
        order::is_stable_order(subdirectories(entries), ranked) && after.pending@
            == before.pending@ + order::arranged(subdirectories(entries), ranked)
}

impl Hunt {
    /// A hunt that begins in one directory.
    pub fn begin(root: String, wanted: Vec<Active>) -> (hunt: Hunt)
        ensures
            hunt.wanted == wanted,
            hunt.found@.len() == 0,
            hunt.pending@ == seq![PathKey { path: root }],
    {
        let mut pending: Vec<PathKey> = Vec::new();
        pending.push(PathKey { path: root });
        Hunt { wanted, found: Vec::new(), pending }
    }

    /// The directory to read next; none, once every session has its transcript or nothing is left to read.
    pub fn next(&mut self) -> (path: Option<String>)
        ensures
            has_stepped(*final(self), path, *old(self)),
    {
        if self.pending.len() == 0 {
            return None;
        }
        if self.found.len() == self.wanted.len() {
            self.pending = Vec::new();
            return None;
        }
        match self.pending.pop() {
            Some(next) => Some(next.path),
            None => None,
        }
    }

    /// Takes note of the entries of a directory: the transcripts among them, and the directories, which are
    /// read from the last in the order of their paths, so that the newest date comes first.
    pub fn saw(&mut self, entries: Vec<DirectoryEntry>)
        ensures
            has_seen(*final(self), *old(self), entries@),
    {
        let ghost begun = self.found@;
        let ghost waiting = self.pending@;
        let ghost sought = self.wanted;
        let mut below: Vec<PathKey> = Vec::new();
        let mut next: usize = 0;
        assert(entries@.take(0) =~= Seq::empty());
        while next < entries.len()
            invariant
                next <= entries@.len(),
                self.wanted == sought,
                self.pending@ == waiting,
                self.found@ == with_entries(begun, entries@.take(next as int), sought@),
                below@ == subdirectories(entries@.take(next as int)),
            decreases entries@.len() - next,
        {
            assert(entries@.take(next + 1).drop_last() =~= entries@.take(next as int));
            if entries[next].is_directory {
                below.push(PathKey { path: entries[next].path.clone() });
            } else if let Some(at) = first_named(entries[next].name.as_str(), &self.wanted) {
                if !has_one(&self.found, self.wanted[at].id.as_str()) {
                    self.found.push(
                        Located {
                            id: self.wanted[at].id.clone(),
                            path: entries[next].path.clone(),
                            last_activity: self.wanted[at].last_activity,
                        },
                    );
                }
            }
            next += 1;
        }
        assert(entries@.take(entries@.len() as int) =~= entries@);
        let ranked: Vec<usize> = order::stable_order(&below);
        let mut sorted: Vec<PathKey> = order::arrange(below, &ranked);
        self.pending.append(&mut sorted);
        assert(order::is_stable_order(subdirectories(entries@), ranked@));
    }
}

/// What a directory that could not be read means.
pub fn directory_failed(directory: &str, error: &str) -> (why: WorldError)
    ensures
        why matches WorldError::CodexIndex(words) && words@ == directory@ + ": "@ + error@,
{
    WorldError::CodexIndex(String::from_str(directory).concat(": ").concat(error))
}

/// Whether no session is located twice, and none that was not wanted is.
pub open spec fn each_once(found: Seq<Located>, wanted: Seq<Active>) -> bool {
    &&& forall|i: int, j: int|
        0 <= i < j < found.len() ==> (#[trigger] found[i]).id@ != (#[trigger] found[j]).id@
    &&& forall|i: int|
        0 <= i < found.len() ==> exists|k: int|
            0 <= k < wanted.len() && (#[trigger] wanted[k]).id == (#[trigger] found[i]).id
}

/// Reading a directory never locates a session twice, nor one that nobody wanted.
pub proof fn law_a_session_is_located_once(
    found: Seq<Located>,
    entries: Seq<DirectoryEntry>,
    wanted: Seq<Active>,
)
    requires
        each_once(found, wanted),
    ensures
        each_once(with_entries(found, entries, wanted), wanted),
        found.is_prefix_of(with_entries(found, entries, wanted)),
    decreases entries.len(),
{
    if entries.len() > 0 {
        law_a_session_is_located_once(found, entries.drop_last(), wanted);
        let before = with_entries(found, entries.drop_last(), wanted);
        let after = with_entries(found, entries, wanted);
        order::lemma_first_where(wanted, is_named_in(entries.last().name@));
        if after != before {
            let at = order::first_where(wanted, is_named_in(entries.last().name@))->0;
            assert forall|i: int| 0 <= i < after.len() implies exists|k: int|
                0 <= k < wanted.len() && (#[trigger] wanted[k]).id == (#[trigger] after[i]).id by {
                if i < before.len() {
                    assert(before[i] == after[i]);
                } else {
                    assert(wanted[at].id == after[i].id);
                }
            }
        }
    }
}

// --- Where a session works ---------------------------------------------------------------------

/// What the first record of a transcript says that matters.
#[derive(Debug, PartialEq, Eq)]
pub struct FirstRecord {
    pub kind: String,
    pub cwd: String,
}

/// Where a session works, according to the first record of its transcript; or why that record does not
/// say.
pub open spec fn workplace(decoded: Result<FirstRecord, String>) -> Result<Seq<char>, Seq<char>> {
    match decoded {
        Err(error) => Err("first record is not readable: "@ + error@),
        Ok(record) => if record.kind@ != "session_meta"@ {
            Err("first record is "@ + text::quoted(record.kind@) + ", not session_meta"@)
        } else if record.cwd@.len() == 0 {
            Err("session_meta records no cwd"@)
        } else {
            Ok(record.cwd@)
        },
    }
}

/// Where a session works, according to the first record of its transcript.
pub fn workspace_from_first_record(decoded: Result<FirstRecord, String>) -> (found: Result<
    String,
    String,
>)
    ensures
        match workplace(decoded) {
            Ok(path) => found matches Ok(at) && at@ == path,
            Err(wrong) => found matches Err(why) && why@ == wrong,
        },
{
    match decoded {
        Err(error) => Err(
            String::from_str("first record is not readable: ").concat(error.as_str()),
        ),
        Ok(record) => if !text::same(record.kind.as_str(), "session_meta") {
            Err(
                String::from_str("first record is ").concat(
                    text::quote(record.kind.as_str()).as_str(),
                ).concat(", not session_meta"),
            )
        } else if record.cwd.as_str().unicode_len() == 0 {
            Err(String::from_str("session_meta records no cwd"))
        } else {
            Ok(record.cwd)
        },
    }
}

/// What reading the first line of a transcript came to.
#[derive(Debug, PartialEq, Eq)]
pub enum FirstLine {
    NotRead(String),
    Read(Result<FirstRecord, String>),
}

/// Whether this is where a transcript says that its session works.
pub open spec fn is_workspace_read(found: Result<String, String>, path: Seq<char>, line: FirstLine) -> bool {
    match line {
        FirstLine::NotRead(error) => found matches Err(why) && why@ == path + ": "@ + error@,
        FirstLine::Read(decoded) => match workplace(decoded) {
            Ok(place) => found matches Ok(at) && at@ == place,
            Err(wrong) => found matches Err(why) && why@ == path + ": "@ + wrong,
        },
    }
}

/// Where a session works, or what is wrong with its transcript.
pub fn read_codex_workspace(path: &str, line: FirstLine) -> (found: Result<String, String>)
    ensures
        is_workspace_read(found, path@, line),
{
    match line {
        FirstLine::NotRead(error) => Err(
            String::from_str(path).concat(": ").concat(error.as_str()),
        ),
        FirstLine::Read(decoded) => match workspace_from_first_record(decoded) {
            Ok(place) => Ok(place),
            Err(wrong) => Err(String::from_str(path).concat(": ").concat(wrong.as_str())),
        },
    }
}

/// The session of a transcript, or what is wrong with it.
pub fn codex_session(located: Located, workspace: Result<String, String>) -> (session: Result<
    CodexSession,
    WorldError,
>)
    ensures
        session == match workspace {
            Ok(path) => Ok(
                CodexSession {
                    id: located.id,
                    workspace: path,
                    last_activity: located.last_activity,
                },
            ),
            Err(why) => Err(WorldError::CodexIndex(why)),
        },
{
    match workspace {
        Ok(path) => Ok(
            CodexSession {
                id: located.id,
                workspace: path,
                last_activity: located.last_activity,
            },
        ),
        Err(why) => Err(WorldError::CodexIndex(why)),
    }
}

/// An error about a first record holds nothing of the record but its kind: two records of one kind that
/// name no place are complained of in the same words.
pub proof fn law_a_complaint_tells_nothing_else(one: FirstRecord, other: FirstRecord)
    requires
        one.kind@ == other.kind@,
        workplace(Ok(one)) is Err,
        workplace(Ok(other)) is Err,
    ensures
        workplace(Ok(one)) == workplace(Ok(other)),
{
}

} // verus!
