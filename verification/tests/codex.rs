use acmon::real_world::codex::{
    codex_session, directory_failed, read_codex_workspace, recently_active_codex_ids,
    workspace_from_first_record, Active, DirectoryEntry, FirstLine, FirstRecord, Hunt, IndexRow,
    Located, NumberedRow,
};
use acmon::time::SystemTime;
use acmon::world::{CodexSession, WorldError};

fn row(number: usize, id: &str, updated_at: &str) -> NumberedRow {
    NumberedRow {
        number,
        row: Ok(IndexRow { id: id.to_string(), updated_at: updated_at.to_string() }),
    }
}

fn active(id: &str) -> Active {
    Active { id: id.to_string(), last_activity: SystemTime { nanos: 5 } }
}

fn entry(path: &str, is_directory: bool) -> DirectoryEntry {
    DirectoryEntry {
        name: path.rsplit('/').next().unwrap().to_string(),
        path: path.to_string(),
        is_directory,
    }
}

/// Takes out of a first record the two fields that matter.
fn decode(line: &str) -> Result<FirstRecord, String> {
    let value: serde_json::Value = serde_json::from_str(line).map_err(|e| e.to_string())?;
    let text = |value: Option<&serde_json::Value>, name: &str| match value {
        Some(serde_json::Value::String(found)) => Ok(found.clone()),
        Some(_) => Err(format!("invalid type for `{name}`, expected a string")),
        None => Err(format!("missing field `{name}`")),
    };
    let payload = value.get("payload").ok_or("missing field `payload`")?;
    Ok(FirstRecord {
        kind: text(value.get("type"), "type")?,
        cwd: text(payload.get("cwd"), "cwd")?,
    })
}

fn first_record_with(cwd: &str, secret: &str) -> String {
    format!(
        r#"{{"type":"session_meta","payload":{{"base_instructions":"{secret}",
               "cli_version":"1.2.3","cwd":{cwd},"originator":"cli"}},
               "timestamp":"2026-08-17T10:30:46Z"}}"#
    )
}

#[test]
fn takes_the_workspace_and_leaves_everything_else() {
    let record = first_record_with(
        "\"/Users/pmcfadin/Documents/Codex/2026-08-17/he\"",
        "SENSITIVE-SYSTEM-PROMPT",
    );
    assert_eq!(
        workspace_from_first_record(decode(&record)),
        Ok("/Users/pmcfadin/Documents/Codex/2026-08-17/he".to_string())
    );
}

#[test]
fn no_error_message_can_quote_a_field_this_does_not_deserialise() {
    const SECRET: &str = "SENSITIVE-SYSTEM-PROMPT";

    let malformed = [
        first_record_with("12345", SECRET),
        format!(r#"{{"type":"session_meta","payload":{{"base_instructions":"{SECRET}"}}}}"#),
        format!(r#"{{"type":"response_item","payload":{{"base_instructions":"{SECRET}"}}}}"#),
        format!(r#"{{"type":"session_meta","payload":{{"base_instructions":"{SECRET}"#),
    ];

    for record in malformed {
        let error = workspace_from_first_record(decode(&record))
            .expect_err("each of these records is unusable");
        assert!(
            !error.contains(SECRET),
            "an error message leaked a field that is never deserialised: {error}"
        );
    }
}

#[test]
fn a_first_record_of_another_kind_is_an_error() {
    let record = |kind: &str, cwd: &str| {
        Ok(FirstRecord { kind: kind.to_string(), cwd: cwd.to_string() })
    };
    assert_eq!(
        workspace_from_first_record(record("response_item", "/w")),
        Err("first record is \"response_item\", not session_meta".to_string())
    );
    assert_eq!(
        workspace_from_first_record(record("session_meta", "")),
        Err("session_meta records no cwd".to_string())
    );
    assert_eq!(
        workspace_from_first_record(Err("eof".to_string())),
        Err("first record is not readable: eof".to_string())
    );
    assert_eq!(
        read_codex_workspace("/t", FirstLine::Read(Err("eof".to_string()))),
        Err("/t: first record is not readable: eof".to_string())
    );
    assert_eq!(
        read_codex_workspace("/t", FirstLine::NotRead("denied".to_string())),
        Err("/t: denied".to_string())
    );
}

#[test]
fn only_recent_sessions_of_the_index_count() {
    let now = 1_786_987_902; // 2026-08-17T17:31:42Z
    let entries = vec![
        row(1, "old", "2026-08-17T11:31:41Z"),
        row(2, "edge", "2026-08-17T11:31:42Z"),
        row(3, "new", "2026-08-17T17:31:42.384761Z"),
    ];
    let found = recently_active_codex_ids("/i", &entries, now).unwrap();
    let ids: Vec<&str> = found.iter().map(|one| one.id.as_str()).collect();
    assert_eq!(ids, ["edge", "new"]);
    assert_eq!(found[1].last_activity.nanos, 1_786_987_902_000_000_000);
}

#[test]
fn a_line_of_the_index_that_cannot_be_read_is_an_error() {
    let fault = |entries: Vec<NumberedRow>| {
        match recently_active_codex_ids("/i", &entries, 0) {
            Err(WorldError::CodexIndex(why)) => why,
            other => panic!("{other:?}"),
        }
    };
    assert_eq!(
        fault(vec![NumberedRow { number: 7, row: Err("no id".to_string()) }]),
        "/i line 7: no id"
    );
    let unread = fault(vec![row(2, "x", "yesterday")]);
    assert!(unread.starts_with("/i line 2: ") && unread.contains("\"yesterday\""), "{unread}");
    assert_eq!(
        fault(vec![row(3, "x", "1969-12-31T23:59:59Z")]),
        "/i line 3: timestamp -1 is negative"
    );
}

#[test]
fn a_hunt_reads_the_newest_directory_first_and_stops_when_it_has_everything() {
    let mut hunt = Hunt::begin("/s".to_string(), vec![active("abc"), active("xyz")]);
    assert_eq!(hunt.next(), Some("/s".to_string()));
    hunt.saw(vec![entry("/s/08", true), entry("/s/10", true), entry("/s/09", true)]);
    assert_eq!(hunt.next(), Some("/s/10".to_string()));
    hunt.saw(vec![
        entry("/s/10/log-abc.jsonl", false),
        entry("/s/10/log-abc-again.jsonl", false),
        entry("/s/10/log-other.jsonl", false),
    ]);
    assert_eq!(hunt.found.len(), 1);
    assert_eq!(hunt.found[0].path, "/s/10/log-abc.jsonl");
    assert_eq!(hunt.next(), Some("/s/09".to_string()));
    hunt.saw(vec![entry("/s/09/xyz", false)]);
    assert_eq!(hunt.next(), None);
    assert_eq!(hunt.found.len(), 2);
}

#[test]
fn a_transcript_becomes_a_session_or_an_error() {
    let located = || Located {
        id: "abc".to_string(),
        path: "/t".to_string(),
        last_activity: SystemTime { nanos: 5 },
    };
    assert_eq!(
        codex_session(located(), Ok("/w".to_string())),
        Ok(CodexSession {
            id: "abc".to_string(),
            workspace: "/w".to_string(),
            last_activity: SystemTime { nanos: 5 },
        })
    );
    assert_eq!(
        codex_session(located(), Err("/t: eof".to_string())),
        Err(WorldError::CodexIndex("/t: eof".to_string()))
    );
    assert_eq!(
        directory_failed("/s", "denied"),
        WorldError::CodexIndex("/s: denied".to_string())
    );
}
