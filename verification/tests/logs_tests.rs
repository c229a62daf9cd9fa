use statix_agent::logs::query::{decode_cursor, encode_cursor, page_of, query};
use statix_agent::logs::record::{append_agent, append_job, Record};
use statix_agent::logs::redact::{redact, REDACTED};
use statix_agent::logs::spool::{
    holds_records, is_expired, is_spooled, needs_rotation, next_record_id, next_record_number, overflow_name,
    path_in, record_clock,
};
use statix_agent::logs::writer::agent_log_writer;

fn record(id: &str, timestamp: u64, scope: &str, message: &str) -> Record {
    Record {
        id: id.to_string(),
        timestamp,
        scope: scope.to_string(),
        resource_id: None,
        job_id: None,
        attempt_id: None,
        stream: None,
        level: "info".to_string(),
        message: message.to_string(),
    }
}

fn ids(records: &[Record]) -> Vec<String> {
    records.iter().map(|value| value.id.clone()).collect()
}

#[test]
fn redacts_every_occurrence_of_each_secret_marker() {
    let input = "NODE_TOKEN=one nodeToken=two NODE_TOKEN=three Authorization: Bearer four Authorization: Bearer five";

    let redacted = redact(input);

    assert_eq!(redacted.matches(REDACTED).count(), 5);
    for secret in ["one", "two", "three", "four", "five"] {
        assert!(!redacted.contains(secret));
    }
}

#[test]
fn redaction_keeps_other_text() {
    assert_eq!(redact("a NODE_TOKEN=x\tb"), "a NODE_TOKEN=[REDACTED]\tb");
    assert_eq!(redact("nodeToken="), "nodeToken=[REDACTED]");
    assert_eq!(redact("plain"), "plain");
}

#[test]
fn redacting_twice_changes_nothing() {
    let once = redact("x nodeToken=NODE_TOKEN=a b Authorization: Bearer c");
    assert_eq!(redact(&once), once);
}

#[test]
fn pagination_uses_explicit_record_order_without_omissions() {
    let records = || {
        vec![
            record("same-b", 20, "job", "second"),
            record("older", 10, "job", "oldest"),
            record("same-c", 20, "job", "first"),
            record("same-a", 20, "job", "third"),
        ]
    };

    let (first, cursor) = query(records(), Some("job"), None, None, 2);
    let (second, final_cursor) = query(records(), Some("job"), None, cursor.as_deref(), 2);

    assert_eq!(ids(&first), ["same-c", "same-b"]);
    assert_eq!(ids(&second), ["same-a", "older"]);
    assert!(final_cursor.is_none());
}

#[test]
fn queries_select_and_bound() {
    let mut own = record("1", 1, "job", "m");
    own.job_id = Some("j".to_owned());
    let mut resource = record("2", 2, "project", "m");
    resource.resource_id = Some("j".to_owned());
    let all = || vec![own.clone(), resource.clone(), record("3", 3, "job", "m")];
    let (found, _) = query(all(), None, Some("j"), None, 10);
    assert_eq!(ids(&found), ["2", "1"]);
    let (found, _) = query(all(), Some("job"), Some("j"), None, 10);
    assert_eq!(ids(&found), ["1"]);
    let (found, next) = query(all(), None, None, None, 0);
    assert_eq!(ids(&found), ["3"]);
    assert_eq!(next, Some("3|3".to_owned()));
    let (found, _) = query(all(), None, None, Some("3"), 10);
    assert_eq!(ids(&found), ["2", "1"]);
    let (found, _) = query(all(), None, None, Some("unknown"), 10);
    assert_eq!(found.len(), 3);
    let many: Vec<Record> = (0..501).map(|i| record("x", i, "job", "m")).collect();
    assert_eq!(page_of(many, None, 1_000).0.len(), 500);
}

#[test]
fn cursors_are_read_back() {
    let value = record("a|b", 7, "job", "m");
    let cursor = encode_cursor(&value);
    assert_eq!(cursor, "7|a|b");
    assert_eq!(decode_cursor(&cursor), Some((7, "a|b".to_owned())));
    assert_eq!(decode_cursor("x|y"), None);
    assert_eq!(decode_cursor("7"), None);
}

#[test]
fn records_are_made() {
    let made = append_job("1".into(), 5, "j", "a", "stderr", "NODE_TOKEN=x", "job", Some("r"));
    assert_eq!(made.level, "error");
    assert_eq!(made.message, "NODE_TOKEN=[REDACTED]");
    assert_eq!(made.resource_id, Some("r".to_owned()));
    assert_eq!(made.job_id, Some("j".to_owned()));
    assert_eq!(append_job("1".into(), 5, "j", "a", "stdout", "m", "job", None).level, "info");
    let made = append_agent("2".into(), 6, "warn", "m");
    assert_eq!(made.scope, "agent");
    assert_eq!(made.level, "warn");
    assert_eq!(made.stream, None);
}

#[test]
fn diagnostic_files_use_the_rotation_limit() {
    assert!(!needs_rotation(0, 500, 100));
    assert!(!needs_rotation(50, 50, 100));
    assert!(needs_rotation(50, 51, 100));
    assert!(needs_rotation(u64::MAX, 1, 100));
    assert_eq!(path_in(86_400_000 * 3 + 1), "events-3.jsonl");
    assert_eq!(overflow_name("x"), "events-overflow-x.jsonl");
    assert!(holds_records("events-3.jsonl"));
    assert!(!holds_records("events-3.json"));
    assert!(!holds_records(".jsonl"));
}

#[test]
fn old_files_expire() {
    let week: u64 = 604_800_000;
    assert!(is_expired("events-1.jsonl", Some(5), week + 6));
    assert!(!is_expired("events-1.jsonl", Some(6), week + 6));
    assert!(!is_expired("other", Some(5), week + 6));
    assert!(!is_expired("events-1.jsonl", None, week + 6));
    assert!(!is_expired("events-1.jsonl", Some(0), 10));
    assert!(is_spooled("events-overflow-1.jsonl"));
    assert!(is_spooled("events-"));
    assert!(!is_spooled("event-1.jsonl"));
}

#[test]
fn the_ids_of_a_process_grow_whatever_the_clock_does() {
    let clocks: [u64; 6] = [500, 500, 3, 0, 900, 900];
    let mut counter: u64 = 0;
    let mut ids: Vec<String> = Vec::new();
    for now in clocks {
        ids.push(next_record_id(counter, 7));
        counter = next_record_number(counter, now);
    }
    assert_eq!(
        ids,
        vec![
            "00000000000000000000-0000000007",
            "00000000000000000500-0000000007",
            "00000000000000000501-0000000007",
            "00000000000000000502-0000000007",
            "00000000000000000503-0000000007",
            "00000000000000000900-0000000007",
        ]
    );
    assert_eq!(counter, 901);
    for i in 0..ids.len() {
        assert_eq!(ids[i].len(), 31);
        for j in 0..i {
            assert!(ids[j] < ids[i]);
        }
    }
    let last = next_record_id(u64::MAX, u32::MAX);
    assert_eq!(last, "18446744073709551615-4294967295");
    assert_eq!(next_record_number(u64::MAX - 1, 0), u64::MAX);
}

#[test]
fn record_ids_are_unique() {
    let first = next_record_number(10, 5);
    let second = next_record_number(first, 100);
    assert_eq!(first, 11);
    assert_eq!(second, 100);
    assert_eq!(next_record_number(u64::MAX, 3), u64::MAX);
    assert_eq!(next_record_id(12, 34), "00000000000000000012-0000000034");
    assert_eq!(record_clock(u128::MAX), u64::MAX);
    assert_eq!(record_clock(9), 9);
}

#[test]
fn diagnostics_are_recorded_by_line() {
    let mut writer = agent_log_writer();
    assert!(writer.write(b"2024 WARN  te").is_empty());
    let lines = writer.write(b"st\n\n x ERROR y\nrest");
    assert_eq!(lines.len(), 2);
    assert_eq!(lines[0].line, "2024 WARN  test");
    assert_eq!(lines[0].level, "warn");
    assert_eq!(lines[1].line, "x ERROR y");
    assert_eq!(lines[1].level, "error");
    let lines = writer.write(b" \xff\n");
    assert_eq!(lines[0].line, "rest \u{fffd}");
    assert_eq!(lines[0].level, "info");
}
