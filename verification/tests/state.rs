use acmon::state::{
    Found, Kept, OnDisk, Paths, StateFile, StateStore, Tier, TieredState, STATE_VERSION,
};
use acmon::time::SystemTime;
use acmon::world::StateRead;
use serde_json::Value;

fn at(seconds: i128) -> SystemTime {
    SystemTime { nanos: seconds * 1_000_000_000 }
}

fn text(words: &str) -> Value {
    Value::String(words.to_string())
}

#[test]
fn state_file_round_trips() {
    let mut state = TieredState::new(1234);
    state.set_tier_data(Tier::Fast, text("fast"), at(1_700_000_000));
    state.set_tier_data(Tier::Slow, text("slow"), at(1_700_000_001));
    assert_eq!(state.tier_count(), 2);

    let file = state.into_state_file();
    assert_eq!(file.version, STATE_VERSION);
    assert_eq!(file.writer_pid, 1234);
    let back = TieredState::from_state_file(file).expect("the version is understood");
    assert_eq!(back.writer_pid(), 1234);
    assert_eq!(back.tier_data(Tier::Fast), Some(&text("fast")));
    assert_eq!(back.tier_timestamp(Tier::Fast), Some(at(1_700_000_000)));
    assert!(back.tier_data(Tier::Medium).is_none());
    assert_eq!(back.tier_timestamp(Tier::Slow), Some(at(1_700_000_001)));
}

#[test]
fn a_tier_published_again_replaces_only_itself() {
    let mut state = TieredState::new(1);
    state.set_tier_data(Tier::Fast, text("old"), at(1));
    state.set_tier_data(Tier::Medium, text("kept"), at(2));
    state.set_tier_data(Tier::Fast, text("new"), at(3));
    assert_eq!(state.tier_data(Tier::Fast), Some(&text("new")));
    assert_eq!(state.tier_data(Tier::Medium), Some(&text("kept")));
    assert_eq!(state.tier_count(), 2);
}

#[test]
fn a_state_file_of_another_version_is_refused() {
    let file = StateFile { version: 7, writer_pid: 1, fast: None, medium: None, slow: None };
    assert_eq!(
        TieredState::from_state_file(file).err().unwrap(),
        "unknown state version 7 (understood: 1)"
    );
}

#[test]
fn directories_are_named_or_found_under_the_home() {
    let usual = Paths::from_values(None, None, Some("/Users/someone")).unwrap();
    assert_eq!(usual.config_dir(), "/Users/someone/.config/acmon");
    assert_eq!(usual.legacy_dir(), Some("/Users/someone/.acmon"));
    assert_eq!(usual, Paths::for_home("/Users/someone"));

    let named = Paths::from_values(Some(" /c "), None, Some("/Users/someone")).unwrap();
    assert_eq!(named.config_dir(), "/c");
    assert!(named.legacy_dir().is_none());

    assert_eq!(
        Paths::from_values(None, Some("/s"), None).err().unwrap(),
        "HOME is not readable, so ACMON_CONFIG_DIR must name the directory explicitly"
    );
    assert_eq!(
        Paths::from_values(Some("/c"), None, Some("  ")).err().unwrap(),
        "HOME is not readable, so ACMON_STATE_DIR must name the directory explicitly"
    );
}

#[test]
fn the_older_place_is_read_and_never_written() {
    let paths = Paths::for_home("/home");
    let old = paths.locate_memory(None, OnDisk { canonical: false, legacy: true });
    assert!(matches!(old.how(), Found::CarriedForward));
    assert_eq!(old.read_path(), "/home/.acmon/state.json");
    assert!(old.write_path().ends_with("/memory.json"), "{}", old.write_path());
    assert!(old.worth_stating().unwrap().contains("Nothing was moved or deleted"));

    let there = paths.locate_memory(None, OnDisk { canonical: true, legacy: true });
    assert!(matches!(there.how(), Found::InPlace));
    assert_eq!(there.read_path(), there.write_path());
    assert!(there.worth_stating().is_none());

    let named = paths.locate_detectors(Some("/d.toml"), OnDisk { canonical: true, legacy: true });
    assert!(matches!(named.how(), Found::Named(_)));
    assert_eq!(named.read_path(), "/d.toml");
    assert_eq!(named.write_path(), "/d.toml");
    assert!(named.worth_stating().unwrap().contains(Kept::Detectors.variable()));
}

#[test]
fn bytes_are_read_as_text_or_the_fault_is_named() {
    let store = StateStore::new(Paths::with_base("/base"));
    assert!(matches!(
        store.read_text("state.json", Ok(Some("né".as_bytes().to_vec()))),
        StateRead::Found(text) if text == "né"
    ));
    match store.read_text("state.json", Ok(Some(vec![b'a', 0xff]))) {
        StateRead::Unreadable(why) => {
            assert!(why.starts_with("/base/state/state.json is not valid UTF-8: "), "{why}");
            assert!(why.contains("index 1"), "{why}");
        }
        _ => panic!("no such text"),
    }
    assert!(matches!(store.read_text("state.json", Ok(None)), StateRead::Absent));
    assert!(matches!(
        store.read_text("state.json", Err("denied".to_string())),
        StateRead::Unreadable(why) if why == "denied"
    ));
}

#[test]
fn a_state_file_is_read_or_the_first_fault_is_named() {
    let fine = |_: &str| -> Result<StateFile, String> {
        Ok(StateFile { version: STATE_VERSION, writer_pid: 8, fast: None, medium: None, slow: None })
    };
    let poor = |text: &str| -> Result<StateFile, String> { Err(format!("bad {text}")) };
    let old = |_: &str| -> Result<StateFile, String> {
        Ok(StateFile { version: 0, writer_pid: 8, fast: None, medium: None, slow: None })
    };
    assert!(StateStore::read_tiered_state(Ok(None), &fine).unwrap().is_none());
    assert_eq!(
        StateStore::read_tiered_state(Ok(Some(vec![b'x'])), &fine).unwrap().unwrap().writer_pid(),
        8
    );
    let fault = |read: Result<Option<TieredState>, String>| read.err().unwrap();
    assert_eq!(
        fault(StateStore::read_tiered_state(Ok(Some(vec![b'x'])), &poor)),
        "could not parse state file: bad x"
    );
    assert_eq!(
        fault(StateStore::read_tiered_state(Ok(Some(vec![b'x'])), &old)),
        "unknown state version 0 (understood: 1)"
    );
    assert!(fault(StateStore::read_tiered_state(Ok(Some(vec![0xff])), &fine))
        .starts_with("state file is not valid UTF-8: invalid utf-8"));
    assert_eq!(
        fault(StateStore::read_tiered_state(Err("denied".to_string()), &fine)),
        "denied"
    );
}

#[test]
fn a_file_is_written_beside_its_place_under_the_name_of_its_writer() {
    let store = StateStore::new(Paths::with_base("/base"));
    assert_eq!(store.file("state.json"), "/base/state/state.json");
    assert_eq!(store.temporary_file("state.json", 12), "/base/state/.state.json.tmp.12");
}
