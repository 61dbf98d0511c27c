//! What reading and writing files came to: how recently a transcript changed, what is stored, and what is
//! configured.

use crate::detect;
use crate::detect::Detector;
use crate::text;
use crate::time::SystemTime;
use crate::world::{ActivityUnavailable, DetectorConfig, NotifyConfig, StateRead};
use vstd::prelude::*;

verus! {

/// What came of reading a file as text.
#[derive(Debug, PartialEq, Eq)]
pub enum FileRead {
    Read(String),
    NotFound,
    Failed(String),
}

// --- Transcripts -------------------------------------------------------------------------------

/// What is known of a file's last change.
#[derive(Debug, PartialEq, Eq)]
pub enum Changed {
    At(SystemTime),
    /// Nothing could be learned of the file.
    NoFacts(String),
    /// What was learned of it does not say when it changed.
    NoTime(String),
}

/// One entry of a directory: its name, and what is known of its last change; or that it could not be
/// read.
#[derive(Debug, PartialEq, Eq)]
pub enum Entry {
    Named { name: String, changed: Changed },
    Unreadable(String),
}

/// What a directory of transcripts showed.
#[derive(Debug, PartialEq, Eq)]
pub enum Listing {
    NoSuchDirectory,
    NotListed(String),
    Listed(Vec<Entry>),
}

/// Whether a file is a transcript.
pub open spec fn is_transcript(name: Seq<char>) -> bool {
    text::ends_in(name, ".jsonl"@)
}

/// What an entry adds to what is known of the latest change, or what is wrong with it.
pub open spec fn later(
    latest: Option<SystemTime>,
    entry: Entry,
    directory: Seq<char>,
) -> Result<Option<SystemTime>, Seq<char>> {
    match entry {
        Entry::Unreadable(error) => Err(directory + ": "@ + error@),
        Entry::Named { name, changed } => if !is_transcript(name@) {
            Ok(latest)
        } else {
            match changed {
                Changed::At(time) => Ok(
                    if latest is Some && latest->0.nanos >= time.nanos {
                        latest
                    } else {
                        Some(time)
                    },
                ),
                Changed::NoFacts(error) => Err(directory + "/"@ + name@ + ": "@ + error@),
                Changed::NoTime(error) => Err(
                    directory + "/"@ + name@ + ": modification time unavailable: "@ + error@,
                ),
            }
        },
    }
}

/// The latest change among entries, or the first thing that is wrong with one.
pub open spec fn latest_of(entries: Seq<Entry>, directory: Seq<char>) -> Result<
    Option<SystemTime>,
    Seq<char>,
>
    decreases entries.len(),
{
    if entries.len() == 0 {
        Ok(None)
    } else {
        match latest_of(entries.drop_last(), directory) {
            Ok(latest) => later(latest, entries.last(), directory),
            Err(why) => Err(why),
        }
    }
}

/// Whether this is when work under a recorded name last left a trace.
pub open spec fn is_activity(
    found: Result<SystemTime, ActivityUnavailable>,
    directory: Seq<char>,
    listing: Listing,
) -> bool {
    match listing {
        Listing::NoSuchDirectory => found == Err::<SystemTime, ActivityUnavailable>(
            ActivityUnavailable::NotRecorded,
        ),
        Listing::NotListed(error) => found matches Err(ActivityUnavailable::Unreadable(why)) && why@
            == directory + ": "@ + error@,
        Listing::Listed(entries) => match latest_of(entries@, directory) {
            Ok(Some(time)) => found == Ok::<SystemTime, ActivityUnavailable>(time),
            Ok(None) => found == Err::<SystemTime, ActivityUnavailable>(
                ActivityUnavailable::NoTranscripts,
            ),
            Err(wrong) => found matches Err(ActivityUnavailable::Unreadable(why)) && why@ == wrong,
        },
    }
}

proof fn lemma_what_is_wrong_stays_wrong(entries: Seq<Entry>, directory: Seq<char>, upto: int)
    requires
        0 <= upto <= entries.len(),
        latest_of(entries.take(upto), directory) is Err,
    ensures
        latest_of(entries, directory) == latest_of(entries.take(upto), directory),
    decreases entries.len() - upto,
{
    if upto == entries.len() {
        assert(entries.take(upto) =~= entries);
    } else {
        assert(entries.take(upto + 1).drop_last() =~= entries.take(upto));
        lemma_what_is_wrong_stays_wrong(entries, directory, upto + 1);
    }
}

/// When work under a recorded name last left a trace: the latest change of a transcript in its directory.
pub fn namespace_activity(directory: &str, listing: Listing) -> (found: Result<
    SystemTime,
    ActivityUnavailable,
>)
    ensures
        is_activity(found, directory@, listing),
{
    let entries: Vec<Entry> = match listing {
        Listing::NoSuchDirectory => {
            return Err(ActivityUnavailable::NotRecorded);
        },
        Listing::NotListed(error) => {
            return Err(
                ActivityUnavailable::Unreadable(
                    String::from_str(directory).concat(": ").concat(error.as_str()),
                ),
            );
        },
        Listing::Listed(entries) => entries,
    };
    let suffix: Vec<char> = text::characters(".jsonl");
    let mut latest: Option<SystemTime> = None;
    let mut next: usize = 0;
    assert(entries@.take(0) =~= Seq::empty());
    while next < entries.len()
        invariant
            next <= entries@.len(),
            listing == Listing::Listed(entries),
            suffix@ == ".jsonl"@,
            latest_of(entries@.take(next as int), directory@) == Ok::<
                Option<SystemTime>,
                Seq<char>,
            >(latest),
        decreases entries@.len() - next,
    {
        assert(entries@.take(next + 1).drop_last() =~= entries@.take(next as int));
        let wrong: Option<String> = match &entries[next] {
            Entry::Unreadable(error) => Some(
                String::from_str(directory).concat(": ").concat(error.as_str()),
            ),
            Entry::Named { name, changed } => if !text::ends_with(
                &text::characters(name.as_str()),
                &suffix,
            ) {
                None
            } else {
                match changed {
                    Changed::At(time) => {
                        let newer: bool = match latest {
                            Some(known) => known.nanos < time.nanos,
                            None => true,
                        };
                        if newer {
                            latest = Some(*time);
                        }
                        None
                    },
                    Changed::NoFacts(error) => Some(
                        String::from_str(directory).concat("/").concat(name.as_str()).concat(
                            ": ",
                        ).concat(error.as_str()),
                    ),
                    Changed::NoTime(error) => Some(
                        String::from_str(directory).concat("/").concat(name.as_str()).concat(
                            ": modification time unavailable: ",
                        ).concat(error.as_str()),
                    ),
                }
            },
        };
        if let Some(why) = wrong {
            proof {
                lemma_what_is_wrong_stays_wrong(entries@, directory@, next + 1);
            }
            return Err(ActivityUnavailable::Unreadable(why));
        }
        next += 1;
    }
    assert(entries@.take(next as int) =~= entries@);
    match latest {
        Some(time) => Ok(time),
        None => Err(ActivityUnavailable::NoTranscripts),
    }
}

/// No transcript changed later than the time that is reported.
pub proof fn law_nothing_is_later_than_the_latest(
    entries: Seq<Entry>,
    directory: Seq<char>,
    at: int,
    name: String,
    time: SystemTime,
)
    requires
        latest_of(entries, directory) is Ok,
        0 <= at < entries.len(),
        entries[at] == (Entry::Named { name, changed: Changed::At(time) }),
        is_transcript(name@),
    ensures
        latest_of(entries, directory)->Ok_0 is Some,
        latest_of(entries, directory)->Ok_0->0.nanos >= time.nanos,
    decreases entries.len(),
{
    if at < entries.len() - 1 {
        law_nothing_is_later_than_the_latest(entries.drop_last(), directory, at, name, time);
    }
}

// --- What is stored ----------------------------------------------------------------------------

/// Whether this is what reading the state came to.
pub open spec fn is_state_read(found: StateRead, path: Result<String, String>, read: FileRead) -> bool {
    match path {
        Err(why) => found == StateRead::Unreadable(why),
        Ok(at) => match read {
            FileRead::Read(contents) => found == StateRead::Found(contents),
            FileRead::NotFound => found is Absent,
            FileRead::Failed(error) => found matches StateRead::Unreadable(why) && why@ == at@
                + ": "@ + error@,
        },
    }
}

/// What reading the stored history came to.
pub fn read_state(path: &Result<String, String>, read: FileRead) -> (found: StateRead)
    ensures
        is_state_read(found, *path, read),
{
    match path {
        Err(why) => StateRead::Unreadable(why.clone()),
        Ok(at) => match read {
            FileRead::Read(contents) => StateRead::Found(contents),
            FileRead::NotFound => StateRead::Absent,
            FileRead::Failed(error) => StateRead::Unreadable(
                at.clone().concat(": ").concat(error.as_str()),
            ),
        },
    }
}

/// Whether these are the file to store in and the directory it is in.
pub open spec fn is_storage(found: Result<(String, String), String>, path: Result<String, String>) -> bool {
    match path {
        Err(why) => found == Err::<(String, String), String>(why),
        Ok(at) => match text::parent_path(at@) {
            Some(directory) => found matches Ok(places) && places.0@ == at@ && places.1@
                == directory,
            None => found matches Err(why) && why@ == at@ + " has no parent directory"@,
        },
    }
}

/// Where the history is stored, and the directory that has to be there for it.
pub fn where_to_store(path: &Result<String, String>) -> (found: Result<(String, String), String>)
    ensures
        is_storage(found, *path),
{
    match path {
        Err(why) => Err(why.clone()),
        Ok(at) => match text::parent_of(at.as_str()) {
            Some(directory) => Ok((at.clone(), directory)),
            None => Err(at.clone().concat(" has no parent directory")),
        },
    }
}

// --- What is configured ------------------------------------------------------------------------

/// What is said of a configuration that could not be read.
pub open spec fn unread(path: Seq<char>, error: Seq<char>) -> Seq<char> {
    path + " could not be read: "@ + error
}

fn unread_text(path: &String, error: &String) -> (words: String)
    ensures
        words@ == unread(path@, error@),
{
    path.clone().concat(" could not be read: ").concat(error.as_str())
}

/// What the notification configuration holds.
#[derive(Debug, PartialEq, Eq)]
pub struct ConfigFile {
    pub local_command: Option<String>,
    pub remote_url: Option<String>,
}

/// Whether no alerts go anywhere, for a reason or for none.
pub open spec fn reaches_nobody(config: NotifyConfig) -> bool {
    config.local_command is None && config.remote_url is None
}

/// Whether no alerts go anywhere, because of this.
pub open spec fn is_unusable(config: NotifyConfig, why: Seq<char>) -> bool {
    reaches_nobody(config) && config.unusable is Some && config.unusable->0@ == why
}

/// Whether this is where alerts go.
pub open spec fn is_notify_config(
    config: NotifyConfig,
    path: Result<String, String>,
    read: FileRead,
    decoded: Result<ConfigFile, String>,
) -> bool {
    match (path, read) {
        (Err(why), _) => reaches_nobody(config) && config.unusable == Some(why),
        (Ok(_), FileRead::NotFound) => reaches_nobody(config) && config.unusable is None,
        (Ok(at), FileRead::Failed(error)) => is_unusable(config, unread(at@, error@)),
        (Ok(at), FileRead::Read(_)) => match decoded {
            Ok(file) => config.local_command == NotifyConfig::named(file.local_command)
                && config.remote_url == NotifyConfig::named(file.remote_url)
                && config.unusable is None,
            Err(error) => is_unusable(
                config,
                at@ + " is not readable as configuration: "@ + error@,
            ),
        },
    }
}

/// Where alerts go: nowhere, where nothing is configured; nowhere, and the reason is kept, where the
/// configuration cannot be read or understood; and else where it says. `decoded` is what came of
/// understanding it.
pub fn read_notify_config(
    path: &Result<String, String>,
    read: &FileRead,
    decoded: Result<ConfigFile, String>,
) -> (config: NotifyConfig)
    ensures
        is_notify_config(config, *path, *read, decoded),
{
    match path {
        Err(why) => NotifyConfig::unusable(why.clone()),
        Ok(at) => match read {
            FileRead::NotFound => NotifyConfig::none(),
            FileRead::Failed(error) => NotifyConfig::unusable(unread_text(at, error)),
            FileRead::Read(_) => match decoded {
                Ok(file) => NotifyConfig::from_settings(file.local_command, file.remote_url),
                Err(error) => NotifyConfig::unusable(
                    at.clone().concat(" is not readable as configuration: ").concat(
                        error.as_str(),
                    ),
                ),
            },
        },
    }
}

/// Whether only the detectors that come with the tool are used, because of this.
pub open spec fn falls_back(config: DetectorConfig, embedded: Vec<Detector>, why: Seq<char>) -> bool {
    config.detectors == embedded && config.unusable is Some && config.unusable->0@ == why
}

/// Whether this is how agents are recognised.
pub open spec fn is_detector_config(
    config: DetectorConfig,
    path: Result<String, String>,
    read: FileRead,
    decoded: Result<Vec<Detector>, String>,
    embedded: Vec<Detector>,
) -> bool {
    match (path, read) {
        (Err(why), _) => falls_back(config, embedded, why@),
        (Ok(_), FileRead::NotFound) => config.detectors == embedded && config.unusable is None,
        (Ok(at), FileRead::Failed(error)) => falls_back(config, embedded, unread(at@, error@)),
        (Ok(at), FileRead::Read(_)) => match decoded {
            Err(error) => falls_back(
                config,
                embedded,
                at@ + ": "@ + ("could not parse detector configuration: "@ + error@),
            ),
            Ok(own) => exists|accepted: Result<Vec<Detector>, String>|
                {
                    &&& #[trigger] detect::is_accepted(accepted, own)
                    &&& match accepted {
                        Ok(kept) => config.detectors@ == detect::merged(embedded@, kept@)
                            && config.unusable is None,
                        Err(fault) => falls_back(config, embedded, at@ + ": "@ + fault@),
                    }
                },
        },
    }
}

/// How agents are recognised: by the detectors that come with the tool, with the user's own laid over them
/// where there are any that can be used. `decoded` is what came of understanding the user's file.
pub fn read_detector_config(
    path: &Result<String, String>,
    read: &FileRead,
    decoded: Result<Vec<Detector>, String>,
    embedded: Vec<Detector>,
) -> (config: DetectorConfig)
    ensures
        is_detector_config(config, *path, *read, decoded, embedded),
{
    match path {
        Err(why) => DetectorConfig::unusable(embedded, why.clone()),
        Ok(at) => match read {
            FileRead::NotFound => DetectorConfig::embedded_only(embedded),
            FileRead::Failed(error) => DetectorConfig::unusable(embedded, unread_text(at, error)),
            FileRead::Read(_) => {
                let accepted: Result<Vec<Detector>, String> = detect::parse_user_detectors(decoded);
                assert(decoded is Ok ==> detect::is_accepted(accepted, decoded->Ok_0));
                match accepted {
                    Ok(own) => DetectorConfig {
                        detectors: detect::merge_detectors(embedded, own),
                        unusable: None,
                    },
                    Err(why) => DetectorConfig::unusable(
                        embedded,
                        at.clone().concat(": ").concat(why.as_str()),
                    ),
                }
            },
        },
    }
}

} // verus!
