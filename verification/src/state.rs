//! The files that outlive a run: where they are, and what the tiered one holds.

use crate::text;
use crate::time::SystemTime;
use crate::world::StateRead;
use vstd::prelude::*;

verus! {

/// A part of the collection with a rhythm of its own.
#[derive(Debug, Clone, Copy, PartialEq, Eq, Structural, PartialOrd, Ord, Hash)]
pub enum Tier {
    Fast,
    Medium,
    Slow,
}

/// What the monitor publishes for the display.
pub const STATE_FILE: &'static str = "state.json";

/// What has been announced.
pub const NOTIFIED_FILE: &'static str = "notified.json";

/// What has been seen before.
pub const MEMORY_FILE: &'static str = "memory.json";

/// How alerts are delivered.
pub const NOTIFY_CONFIG_FILE: &'static str = "notify.toml";

/// What counts as an agent.
pub const DETECTORS_FILE: &'static str = "detectors.toml";

/// The one directory that held everything before there were two.
pub const LEGACY_DIR: &'static str = ".acmon";

/// What the history was called there.
pub const LEGACY_MEMORY_FILE: &'static str = "state.json";

/// The variable that names the state directory.
pub const STATE_DIR_VARIABLE: &'static str = "ACMON_STATE_DIR";

/// The variable that names the configuration directory.
pub const CONFIG_DIR_VARIABLE: &'static str = "ACMON_CONFIG_DIR";

/// The variable that names the remembered history outright.
pub const STATE_VARIABLE: &'static str = "ACMON_STATE";

/// The variable that names the notification configuration outright.
pub const NOTIFY_CONFIG_VARIABLE: &'static str = "ACMON_NOTIFY_CONFIG";

/// The variable that names the detector configuration outright.
pub const DETECTORS_VARIABLE: &'static str = "ACMON_DETECTORS";

/// The directories a run reads and writes.
#[derive(Debug, PartialEq, Eq)]
pub struct Paths {
    pub config: String,
    pub state: String,
    pub legacy: Option<String>,
}

/// A setting with the white space round it removed, where anything is left of it.
pub open spec fn named(setting: Option<&str>) -> Option<Seq<char>> {
    match setting {
        Some(value) => if text::trimmed(value@).len() > 0 {
            Some(text::trimmed(value@))
        } else {
            None
        },
        None => None,
    }
}

pub(crate) fn trimmed_setting(setting: Option<&str>) -> (found: Option<String>)
    ensures
        match found {
            Some(value) => named(setting) == Some(value@),
            None => named(setting) is None,
        },
{
    match setting {
        Some(value) => {
            let trimmed: String = text::trim_text(value);
            if trimmed.as_str().unicode_len() > 0 {
                Some(trimmed)
            } else {
                None
            }
        },
        None => None,
    }
}

/// What is said when neither a variable nor the home directory gives a place.
pub open spec fn homeless(variable: Seq<char>) -> Seq<char> {
    "HOME is not readable, so "@ + variable + " must name the directory explicitly"@
}

/// Where the configuration is under a home directory.
pub open spec fn config_under(home: Seq<char>) -> Seq<char> {
    text::child(text::child(home, ".config"@), "acmon"@)
}

/// Where the state is under a home directory.
pub open spec fn state_under(home: Seq<char>) -> Seq<char> {
    text::child(text::child(text::child(home, ".local"@), "state"@), "acmon"@)
}

fn config_path_under(home: &str) -> (path: String)
    ensures
        path@ == config_under(home@),
{
    text::child_path(text::child_path(home, ".config").as_str(), "acmon")
}

fn state_path_under(home: &str) -> (path: String)
    ensures
        path@ == state_under(home@),
{
    text::child_path(
        text::child_path(text::child_path(home, ".local").as_str(), "state").as_str(),
        "acmon",
    )
}

/// One of the files that may be named outright, or found in an older place.
#[derive(Debug, Clone, Copy, PartialEq, Eq, Structural)]
pub enum Kept {
    Memory,
    NotifyConfig,
    Detectors,
}

impl Kept {
    /// What the file is.
    pub open spec fn subject(self) -> Seq<char> {
        match self {
            Kept::Memory => "the remembered history"@,
            Kept::NotifyConfig => "the notification configuration"@,
            Kept::Detectors => "the detector configuration"@,
        }
    }

    /// What the file is.
    pub fn what(&self) -> (what: &'static str)
        ensures
            what@ == self.subject(),
    {
        match self {
            Kept::Memory => "the remembered history",
            Kept::NotifyConfig => "the notification configuration",
            Kept::Detectors => "the detector configuration",
        }
    }

    /// What becomes of it once it was read from the older place.
    pub open spec fn sequel(self) -> Seq<char> {
        match self {
            Kept::Memory =>
                "and everything written from here on is written there, so the history carries itself across without anything being moved"@,
            _ =>
                "and nothing writes it, so move it there yourself when you want it read from the split's own location"@,
        }
    }

    /// What becomes of it once it was read from the older place.
    pub fn afterwards(&self) -> (words: &'static str)
        ensures
            words@ == self.sequel(),
    {
        match self {
            Kept::Memory => {
                "and everything written from here on is written there, so the history carries itself across without anything being moved"
            },
            Kept::NotifyConfig | Kept::Detectors => {
                "and nothing writes it, so move it there yourself when you want it read from the split's own location"
            },
        }
    }

    /// What it is called in its usual directory.
    pub open spec fn file(self) -> Seq<char> {
        match self {
            Kept::Memory => "memory.json"@,
            Kept::NotifyConfig => "notify.toml"@,
            Kept::Detectors => "detectors.toml"@,
        }
    }

    /// What it was called in the older place.
    pub open spec fn older_file(self) -> Seq<char> {
        match self {
            Kept::Memory => "state.json"@,
            Kept::NotifyConfig => "notify.toml"@,
            Kept::Detectors => "detectors.toml"@,
        }
    }

    /// The variable that names it outright.
    pub fn variable(&self) -> (variable: &'static str)
        ensures
            variable@ == self.naming(),
    {
        match self {
            Kept::Memory => STATE_VARIABLE,
            Kept::NotifyConfig => NOTIFY_CONFIG_VARIABLE,
            Kept::Detectors => DETECTORS_VARIABLE,
        }
    }

    /// The variable that names it outright.
    pub open spec fn naming(self) -> Seq<char> {
        match self {
            Kept::Memory => "ACMON_STATE"@,
            Kept::NotifyConfig => "ACMON_NOTIFY_CONFIG"@,
            Kept::Detectors => "ACMON_DETECTORS"@,
        }
    }
}

/// Whether a file is in its usual place, and whether it is in the older one.
#[derive(Debug, Clone, Copy, PartialEq, Eq, Structural)]
pub struct OnDisk {
    pub canonical: bool,
    pub legacy: bool,
}

/// Whether these are the directories that the settings name.
pub open spec fn are_paths(
    paths: Result<Paths, String>,
    config_dir: Option<&str>,
    state_dir: Option<&str>,
    home: Option<&str>,
) -> bool {
    match paths {
        Ok(found) => {
            &&& match named(config_dir) {
                Some(directory) => found.config@ == directory,
                None => named(home) matches Some(at) && found.config@ == config_under(at),
            }
            &&& match named(state_dir) {
                Some(directory) => found.state@ == directory,
                None => named(home) matches Some(at) && found.state@ == state_under(at),
            }
            &&& match found.legacy {
                Some(legacy) => named(config_dir) is None && named(state_dir) is None
                    && (named(home) matches Some(at) && legacy@ == text::child(
                    at,
                    ".acmon"@,
                )),
                None => named(config_dir) is Some || named(state_dir) is Some,
            }
        },
        Err(why) => named(home) is None && if named(config_dir) is None {
            why@ == homeless("ACMON_CONFIG_DIR"@)
        } else {
            named(state_dir) is None && why@ == homeless("ACMON_STATE_DIR"@)
        },
    }
}

impl Paths {
    /// The usual directories of somebody with this home.
    pub fn for_home(home: &str) -> (paths: Paths)
        ensures
            paths.config@ == config_under(home@),
            paths.state@ == state_under(home@),
            paths.legacy matches Some(legacy) && legacy@ == text::child(home@, ".acmon"@),
    {
        Paths {
            config: config_path_under(home),
            state: state_path_under(home),
            legacy: Some(text::child_path(home, LEGACY_DIR)),
        }
    }

    /// Both directories under one, with no older place to look in.
    pub fn with_base(base: &str) -> (paths: Paths)
        ensures
            paths.config@ == text::child(base@, "config"@),
            paths.state@ == text::child(base@, "state"@),
            paths.legacy is None,
    {
        Paths {
            config: text::child_path(base, "config"),
            state: text::child_path(base, "state"),
            legacy: None,
        }
    }

    /// The directories that the settings give. A directory named outright is used as it is, and the
    /// home directory stands in for one that is not; where either is named, nothing older is looked
    /// for. Without a home, both must be named.
    pub fn from_values(
        config_dir: Option<&str>,
        state_dir: Option<&str>,
        home: Option<&str>,
    ) -> (paths: Result<Paths, String>)
        ensures
            are_paths(paths, config_dir, state_dir, home),
    {
        let home: Option<String> = trimmed_setting(home);
        let config_named: Option<String> = trimmed_setting(config_dir);
        let state_named: Option<String> = trimmed_setting(state_dir);
        let legacy: Option<String> = match (&config_named, &state_named, &home) {
            (None, None, Some(at)) => Some(text::child_path(at.as_str(), LEGACY_DIR)),
            _ => None,
        };
        let config: String = match (config_named, &home) {
            (Some(directory), _) => directory,
            (None, Some(at)) => config_path_under(at.as_str()),
            (None, None) => {
                return Err(homeless_text(CONFIG_DIR_VARIABLE));
            },
        };
        let state: String = match (state_named, &home) {
            (Some(directory), _) => directory,
            (None, Some(at)) => state_path_under(at.as_str()),
            (None, None) => {
                return Err(homeless_text(STATE_DIR_VARIABLE));
            },
        };
        Ok(Paths { config, state, legacy })
    }

    /// The configuration directory.
    pub fn config_dir(&self) -> (path: &str)
        ensures
            path@ == self.config@,
    {
        self.config.as_str()
    }

    /// The state directory.
    pub fn state_dir(&self) -> (path: &str)
        ensures
            path@ == self.state@,
    {
        self.state.as_str()
    }

    /// The older directory, if there is one to look in.
    pub fn legacy_dir(&self) -> (path: Option<&str>)
        ensures
            match path {
                Some(found) => self.legacy matches Some(legacy) && found@ == legacy@,
                None => self.legacy is None,
            },
    {
        match &self.legacy {
            Some(legacy) => Some(legacy.as_str()),
            None => None,
        }
    }

    /// Where a file is looked for first.
    pub open spec fn usual(self, kept: Kept) -> Seq<char> {
        match kept {
            Kept::Memory => text::child(self.state@, kept.file()),
            _ => text::child(self.config@, kept.file()),
        }
    }

    /// Where a file is looked for first.
    pub fn canonical(&self, kept: Kept) -> (path: String)
        ensures
            path@ == self.usual(kept),
    {
        match kept {
            Kept::Memory => text::child_path(self.state.as_str(), MEMORY_FILE),
            Kept::NotifyConfig => text::child_path(self.config.as_str(), NOTIFY_CONFIG_FILE),
            Kept::Detectors => text::child_path(self.config.as_str(), DETECTORS_FILE),
        }
    }

    /// Where a file is looked for next.
    pub open spec fn older(self, kept: Kept) -> Option<Seq<char>> {
        match self.legacy {
            Some(legacy) => Some(text::child(legacy@, kept.older_file())),
            None => None,
        }
    }

    /// Where a file is looked for next.
    pub fn legacy_path(&self, kept: Kept) -> (path: Option<String>)
        ensures
            match path {
                Some(found) => self.older(kept) == Some(found@),
                None => self.older(kept) is None,
            },
    {
        match &self.legacy {
            Some(legacy) => Some(
                match kept {
                    Kept::Memory => text::child_path(legacy.as_str(), LEGACY_MEMORY_FILE),
                    Kept::NotifyConfig => text::child_path(legacy.as_str(), NOTIFY_CONFIG_FILE),
                    Kept::Detectors => text::child_path(legacy.as_str(), DETECTORS_FILE),
                },
            ),
            None => None,
        }
    }

    /// Where a file is read and where it belongs. One that is named outright is taken from there; the
    /// older place counts only where the usual one has nothing.
    pub fn locate(&self, kept: Kept, explicit: Option<&str>, there: OnDisk) -> (located: Located)
        ensures
            is_located(located, *self, kept, explicit, there),
    {
        if let Some(path) = trimmed_setting(explicit) {
            return Located {
                kept,
                read: path.clone(),
                canonical: path,
                how: Found::Named(kept.variable()),
            };
        }
        let canonical: String = self.canonical(kept);
        if !there.canonical && there.legacy {
            if let Some(legacy) = self.legacy_path(kept) {
                return Located { kept, read: legacy, canonical, how: Found::CarriedForward };
            }
        }
        Located { kept, read: canonical.clone(), canonical, how: Found::InPlace }
    }

    /// Where the remembered history is.
    pub fn locate_memory(&self, explicit: Option<&str>, there: OnDisk) -> (located: Located)
        ensures
            is_located(located, *self, Kept::Memory, explicit, there),
    {
        self.locate(Kept::Memory, explicit, there)
    }

    /// Where the notification configuration is.
    pub fn locate_notify_config(&self, explicit: Option<&str>, there: OnDisk) -> (located: Located)
        ensures
            is_located(located, *self, Kept::NotifyConfig, explicit, there),
    {
        self.locate(Kept::NotifyConfig, explicit, there)
    }

    /// Where the detector configuration is.
    pub fn locate_detectors(&self, explicit: Option<&str>, there: OnDisk) -> (located: Located)
        ensures
            is_located(located, *self, Kept::Detectors, explicit, there),
    {
        self.locate(Kept::Detectors, explicit, there)
    }
}

fn homeless_text(variable: &str) -> (words: String)
    ensures
        words@ == homeless(variable@),
{
    String::from_str("HOME is not readable, so ").concat(variable).concat(
        " must name the directory explicitly",
    )
}

/// How a file was found.
#[derive(Debug, Clone, Copy, PartialEq, Eq)]
pub enum Found {
    InPlace,
    Named(&'static str),
    CarriedForward,
}

/// Where a file is read, and where it belongs.
#[derive(Debug, PartialEq, Eq)]
pub struct Located {
    pub kept: Kept,
    pub read: String,
    pub canonical: String,
    pub how: Found,
}

/// Whether this is where a file is.
pub open spec fn is_located(
    located: Located,
    paths: Paths,
    kept: Kept,
    explicit: Option<&str>,
    there: OnDisk,
) -> bool {
    &&& located.kept == kept
    &&& match named(explicit) {
        Some(path) => located.read@ == path && located.canonical@ == path && (located.how matches Found::Named(
            variable,
        ) && variable@ == kept.naming()),
        None => {
            &&& located.canonical@ == paths.usual(kept)
            &&& if !there.canonical && there.legacy && paths.older(kept) is Some {
                located.how is CarriedForward && paths.older(kept) == Some(located.read@)
            } else {
                located.how is InPlace && located.read@ == located.canonical@
            }
        },
    }
}

/// Nothing is ever written in the older directory: what is carried forward is written in its usual
/// place.
pub proof fn law_the_older_place_is_only_read(
    located: Located,
    paths: Paths,
    kept: Kept,
    there: OnDisk,
)
    requires
        is_located(located, paths, kept, None, there),
    ensures
        located.canonical@ == paths.usual(kept),
        located.read@ != located.canonical@ ==> !there.canonical && there.legacy,
{
}

impl Located {
    /// Where the file is read.
    pub fn read_path(&self) -> (path: &str)
        ensures
            path@ == self.read@,
    {
        self.read.as_str()
    }

    /// Where it is written.
    pub fn write_path(&self) -> (path: &str)
        ensures
            path@ == self.canonical@,
    {
        self.canonical.as_str()
    }

    /// How it was found.
    pub fn how(&self) -> (how: Found)
        ensures
            how == self.how,
    {
        self.how
    }

    /// What a reader should know of where the file was found, if anything.
    pub open spec fn remark(self) -> Option<Seq<char>> {
        match self.how {
            Found::InPlace => None,
            Found::Named(variable) => Some(
                self.kept.subject() + " is "@ + self.read@ + ", named by "@ + variable@
                    + " rather than found in its usual directory"@,
            ),
            Found::CarriedForward => Some(
                self.kept.subject() + " was read from the pre-split "@ + self.read@ + ", because "@
                    + self.canonical@ + " does not exist. Nothing was moved or deleted: "@
                    + self.canonical@ + " is where this tool looks first, "@ + self.kept.sequel(),
            ),
        }
    }

    /// What a reader should know of where the file was found, if anything.
    pub fn worth_stating(&self) -> (words: Option<String>)
        ensures
            match words {
                Some(said) => self.remark() == Some(said@),
                None => self.remark() is None,
            },
    {
        match self.how {
            Found::InPlace => None,
            Found::Named(variable) => Some(
                String::from_str(self.kept.what()).concat(" is ").concat(
                    self.read.as_str(),
                ).concat(", named by ").concat(variable).concat(
                    " rather than found in its usual directory",
                ),
            ),
            Found::CarriedForward => Some(
                String::from_str(self.kept.what()).concat(" was read from the pre-split ").concat(
                    self.read.as_str(),
                ).concat(", because ").concat(self.canonical.as_str()).concat(
                    " does not exist. Nothing was moved or deleted: ",
                ).concat(self.canonical.as_str()).concat(
                    " is where this tool looks first, ",
                ).concat(self.kept.afterwards()),
            ),
        }
    }
}

/// `serde_json::Value`: what a tier published, carried through as it is.
#[verifier::external_type_specification]
#[verifier::external_body]
pub struct ExValue(serde_json::Value);

/// What one tier published, and when.
#[derive(Debug)]
pub struct TierEntry {
    pub timestamp: SystemTime,
    pub data: serde_json::Value,
}

/// The version of the tiered state file.
pub const STATE_VERSION: u32 = 1;

/// The tiered state file.
#[derive(Debug)]
pub struct StateFile {
    pub version: u32,
    pub writer_pid: u32,
    pub fast: Option<TierEntry>,
    pub medium: Option<TierEntry>,
    pub slow: Option<TierEntry>,
}

/// What every tier published, each at a time of its own.
#[derive(Debug)]
pub struct TieredState {
    writer_pid: u32,
    fast: Option<TierEntry>,
    medium: Option<TierEntry>,
    slow: Option<TierEntry>,
}

/// What is said of a state file of another version.
pub open spec fn unknown_version(version: u32) -> Seq<char> {
    "unknown state version "@ + text::decimal(version as nat) + " (understood: "@ + text::decimal(1)
        + ")"@
}

impl View for TieredState {
    type V = Map<Tier, TierEntry>;

    /// What each tier published, of those that did.
    closed spec fn view(&self) -> Map<Tier, TierEntry> {
        Map::new(
            |tier: Tier| self.slot(tier) is Some,
            |tier: Tier| self.slot(tier)->0,
        )
    }
}

impl TieredState {
    spec fn slot(self, tier: Tier) -> Option<TierEntry> {
        match tier {
            Tier::Fast => self.fast,
            Tier::Medium => self.medium,
            Tier::Slow => self.slow,
        }
    }

    /// Who writes it.
    pub closed spec fn written_by(self) -> u32 {
        self.writer_pid
    }

    /// A state in which nothing has been published.
    pub fn new(writer_pid: u32) -> (state: TieredState)
        ensures
            state@ == Map::<Tier, TierEntry>::empty(),
            state.written_by() == writer_pid,
    {
        let state = TieredState { writer_pid, fast: None, medium: None, slow: None };
        assert(state@ =~= Map::<Tier, TierEntry>::empty());
        state
    }

    /// Publishes a tier, in place of what it published before. The other tiers stay as they are.
    pub fn set_tier_data(&mut self, tier: Tier, data: serde_json::Value, timestamp: SystemTime)
        ensures
            final(self)@ == old(self)@.insert(tier, TierEntry { timestamp, data }),
            final(self).written_by() == old(self).written_by(),
    {
        let entry = TierEntry { timestamp, data };
        let ghost before = self@;
        match tier {
            Tier::Fast => {
                self.fast = Some(entry);
            },
            Tier::Medium => {
                self.medium = Some(entry);
            },
            Tier::Slow => {
                self.slow = Some(entry);
            },
        }
        assert(self@ =~= before.insert(tier, entry));
    }

    fn entry(&self, tier: Tier) -> (entry: &Option<TierEntry>)
        ensures
            *entry == self.slot(tier),
    {
        match tier {
            Tier::Fast => &self.fast,
            Tier::Medium => &self.medium,
            Tier::Slow => &self.slow,
        }
    }

    /// What a tier published last.
    pub fn tier_data(&self, tier: Tier) -> (data: Option<&serde_json::Value>)
        ensures
            match data {
                Some(found) => self@.contains_key(tier) && *found == self@[tier].data,
                None => !self@.contains_key(tier),
            },
    {
        match self.entry(tier) {
            Some(entry) => Some(&entry.data),
            None => None,
        }
    }

    /// When a tier published last.
    pub fn tier_timestamp(&self, tier: Tier) -> (timestamp: Option<SystemTime>)
        ensures
            match timestamp {
                Some(found) => self@.contains_key(tier) && found == self@[tier].timestamp,
                None => !self@.contains_key(tier),
            },
    {
        match self.entry(tier) {
            Some(entry) => Some(entry.timestamp),
            None => None,
        }
    }

    /// Who writes it.
    pub fn writer_pid(&self) -> (pid: u32)
        ensures
            pid == self.written_by(),
    {
        self.writer_pid
    }

    /// How many tiers have published.
    pub fn tier_count(&self) -> (count: usize)
        ensures
            self@.dom().finite(),
            count == self@.dom().len(),
    {
        let mut count: usize = 0;
        let ghost mut seen: Set<Tier> = Set::empty();
        if self.fast.is_some() {
            count += 1;
            proof {
                seen = seen.insert(Tier::Fast);
            }
        }
        if self.medium.is_some() {
            count += 1;
            proof {
                seen = seen.insert(Tier::Medium);
            }
        }
        if self.slow.is_some() {
            count += 1;
            proof {
                seen = seen.insert(Tier::Slow);
            }
        }
        assert(seen =~= self@.dom()) by {
            assert forall|tier: Tier| seen.contains(tier) == self@.dom().contains(tier) by {
                match tier {
                    Tier::Fast => {},
                    Tier::Medium => {},
                    Tier::Slow => {},
                }
            }
        }
        count
    }

    /// The file that holds this state.
    pub fn into_state_file(self) -> (file: StateFile)
        ensures
            file.version == STATE_VERSION,
            file.writer_pid == self.written_by(),
            file.holds() == self@,
    {
        let file = StateFile {
            version: STATE_VERSION,
            writer_pid: self.writer_pid,
            fast: self.fast,
            medium: self.medium,
            slow: self.slow,
        };
        assert(file.holds() =~= self@);
        file
    }

    /// The state that a file holds, if it is of the version that is understood.
    pub fn from_state_file(file: StateFile) -> (state: Result<TieredState, String>)
        ensures
            match state {
                Ok(found) => file.version == STATE_VERSION && found.written_by() == file.writer_pid
                    && found@ == file.holds(),
                Err(why) => file.version != STATE_VERSION && why@ == unknown_version(file.version),
            },
    {
        if file.version != STATE_VERSION {
            return Err(
                String::from_str("unknown state version ").concat(
                    text::decimal_of(file.version as u128).as_str(),
                ).concat(" (understood: ").concat(text::decimal_of(1).as_str()).concat(")"),
            );
        }
        let state = TieredState {
            writer_pid: file.writer_pid,
            fast: file.fast,
            medium: file.medium,
            slow: file.slow,
        };
        assert(state@ =~= file.holds());
        Ok(state)
    }
}

impl StateFile {
    /// What the file holds of one tier.
    pub open spec fn of(self, tier: Tier) -> Option<TierEntry> {
        match tier {
            Tier::Fast => self.fast,
            Tier::Medium => self.medium,
            Tier::Slow => self.slow,
        }
    }

    /// What the file holds.
    pub open spec fn holds(self) -> Map<Tier, TierEntry> {
        Map::new(|tier: Tier| self.of(tier) is Some, |tier: Tier| self.of(tier)->0)
    }
}

/// A state that was written into its file and read back is what it was: what every tier published, and
/// who wrote it.
pub proof fn law_a_state_survives_its_file(written: TieredState, file: StateFile, read: TieredState)
    requires
        file.holds() == written@ && file.writer_pid == written.written_by(),
        read@ == file.holds() && read.written_by() == file.writer_pid,
    ensures
        read@ == written@,
        read.written_by() == written.written_by(),
{
}

/// What one tier publishes leaves every other tier as it was.
pub proof fn law_tiers_are_published_apart(
    before: TieredState,
    after: TieredState,
    tier: Tier,
    other: Tier,
    entry: TierEntry,
)
    requires
        after@ == before@.insert(tier, entry),
        other != tier,
    ensures
        after@.contains_key(tier) && after@[tier] == entry,
        after@.contains_key(other) == before@.contains_key(other),
        before@.contains_key(other) ==> after@[other] == before@[other],
{
}

/// Where the state's files are.
#[derive(Debug, PartialEq, Eq)]
pub struct StateStore {
    paths: Paths,
}

impl StateStore {
    /// The directories it works in.
    pub closed spec fn works_in(self) -> Paths {
        self.paths
    }

    /// The store in these directories.
    pub fn new(paths: Paths) -> (store: StateStore)
        ensures
            store.works_in() == paths,
    {
        StateStore { paths }
    }

    /// The directories it works in.
    pub fn paths(&self) -> (paths: &Paths)
        ensures
            *paths == self.works_in(),
    {
        &self.paths
    }

    /// Where a file of this name is.
    pub fn file(&self, name: &str) -> (path: String)
        ensures
            path@ == text::child(self.works_in().state@, name@),
    {
        text::child_path(self.paths.state.as_str(), name)
    }

    /// Where a file of this name is written before it is renamed into place: a hidden file that names
    /// its writer.
    pub fn temporary_file(&self, name: &str, writer_pid: u32) -> (path: String)
        ensures
            path@ == text::child(
                self.works_in().state@,
                "."@ + name@ + ".tmp."@ + text::decimal(writer_pid as nat),
            ),
    {
        let hidden: String = String::from_str(".").concat(name).concat(".tmp.").concat(
            text::decimal_of(writer_pid as u128).as_str(),
        );
        text::child_path(self.paths.state.as_str(), hidden.as_str())
    }

    /// What reading a file of this name as text came to, given what reading its bytes came to.
    pub fn read_text(&self, name: &str, bytes: Result<Option<Vec<u8>>, String>) -> (read: StateRead)
        ensures
            match bytes {
                Ok(Some(found)) => if vstd::utf8::valid_utf8(found@) {
                    read matches StateRead::Found(text) && text@ == vstd::utf8::decode_utf8(found@)
                } else {
                    read matches StateRead::Unreadable(why) && why@ == text::child(
                        self.works_in().state@,
                        name@,
                    ) + " is not valid UTF-8: "@ + text::utf8_fault(found@)
                },
                Ok(None) => read is Absent,
                Err(why) => read == StateRead::Unreadable(why),
            },
    {
        match bytes {
            Ok(Some(found)) => match text::decode(found) {
                Ok(text) => StateRead::Found(text),
                Err(why) => StateRead::Unreadable(
                    self.file(name).concat(" is not valid UTF-8: ").concat(why.as_str()),
                ),
            },
            Ok(None) => StateRead::Absent,
            Err(why) => StateRead::Unreadable(why),
        }
    }

    /// The state that a file holds, given what reading its bytes came to and how its text is decoded:
    /// none where there is no file, and otherwise the state or the first thing that is wrong with it.
    pub fn read_tiered_state<F: Fn(&str) -> Result<StateFile, String>>(
        bytes: Result<Option<Vec<u8>>, String>,
        decode: &F,
    ) -> (state: Result<Option<TieredState>, String>)
        requires
            forall|text: &str| #[trigger] call_requires(*decode, (text,)),
        ensures
            match bytes {
                Err(why) => state == Err::<Option<TieredState>, String>(why),
                Ok(None) => state == Ok::<Option<TieredState>, String>(None),
                Ok(Some(found)) => if !vstd::utf8::valid_utf8(found@) {
                    state matches Err(why) && why@ == "state file is not valid UTF-8: "@
                        + text::utf8_fault(found@)
                } else {
                    exists|text: &str, decoded: Result<StateFile, String>|
                        {
                            &&& text@ == vstd::utf8::decode_utf8(found@)
                            &&& #[trigger] call_ensures(*decode, (text,), decoded)
                            &&& is_decoded(state, decoded)
                        }
                },
            },
    {
        let found: Vec<u8> = match bytes {
            Ok(Some(found)) => found,
            Ok(None) => {
                return Ok(None);
            },
            Err(why) => {
                return Err(why);
            },
        };
        let text: String = match text::decode(found) {
            Ok(text) => text,
            Err(why) => {
                return Err(String::from_str("state file is not valid UTF-8: ").concat(why.as_str()));
            },
        };
        let text: &str = text.as_str();
        let decoded: Result<StateFile, String> = decode(text);
        let ghost read = decoded;
        let state: Result<Option<TieredState>, String> = match decoded {
            Ok(file) => match TieredState::from_state_file(file) {
                Ok(state) => Ok(Some(state)),
                Err(why) => Err(why),
            },
            Err(why) => Err(String::from_str("could not parse state file: ").concat(why.as_str())),
        };
        assert(call_ensures(*decode, (text,), read) && is_decoded(state, read));
        state
    }
}

/// Whether this is the state that a decoded file holds, if it is of the version that is understood.
pub open spec fn is_decoded(
    state: Result<Option<TieredState>, String>,
    decoded: Result<StateFile, String>,
) -> bool {
    match decoded {
        Ok(file) => match state {
            Ok(Some(found)) => file.version == STATE_VERSION && found.written_by()
                == file.writer_pid && found@ == file.holds(),
            Ok(None) => false,
            Err(why) => file.version != STATE_VERSION && why@ == unknown_version(file.version),
        },
        Err(error) => state matches Err(why) && why@ == "could not parse state file: "@ + error@,
    }
}

} // verus!
