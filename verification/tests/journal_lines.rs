use see::journal::{entries_from_records, sort_by_timestamp, JournalEntry, JournalRecord};
use see::line_format::{
    format_log_line, format_styled_line, message_text, unit_display, LogLine, PriorityClass, Tone,
};
use see::log_level::LogLevel;

fn record(ts: Option<&str>, msg: &str, prio: Option<&str>) -> JournalRecord {
    JournalRecord {
        message: Some(msg.to_string()),
        priority: prio.map(|p| p.to_string()),
        unit: Some("sshd.service".to_string()),
        pid: Some("42".to_string()),
        hostname: None,
        timestamp: ts.map(|t| t.to_string()),
        executable_path: None,
        command: None,
        cursor: Some(format!("c-{}", msg)),
    }
}

#[test]
fn log_level_text_round_trip() {
    let all = [
        LogLevel::Emergency,
        LogLevel::Alert,
        LogLevel::Critical,
        LogLevel::Error,
        LogLevel::Warning,
        LogLevel::Notice,
        LogLevel::Info,
        LogLevel::Debug,
        LogLevel::Unknown,
    ];
    for (i, level) in all.iter().enumerate() {
        let text: String = String::from(*level);
        assert_eq!(text, i.to_string());
        assert_eq!(level.priority() as usize, i);
        assert_eq!(LogLevel::from(text), *level);
    }
}

#[test]
fn log_level_from_unexpected_text() {
    assert_eq!(LogLevel::from("9".to_string()), LogLevel::Unknown);
    assert_eq!(LogLevel::from("".to_string()), LogLevel::Unknown);
    assert_eq!(LogLevel::from("03".to_string()), LogLevel::Unknown);
    assert_eq!(LogLevel::from_priority("3"), LogLevel::Error);
    assert_eq!(LogLevel::Debug.to_priority(), "7");
}

#[test]
fn entry_from_record_defaults() {
    let r = JournalRecord {
        message: None,
        priority: None,
        unit: None,
        pid: Some("7".to_string()),
        hostname: Some("box".to_string()),
        timestamp: None,
        executable_path: None,
        command: Some("sshd".to_string()),
        cursor: None,
    };
    let e = JournalEntry::from_record(r);
    assert_eq!(e.message, "");
    assert_eq!(e.priority, LogLevel::Info);
    assert_eq!(e.unit, None);
    assert_eq!(e.pid, Some("7".to_string()));
    assert_eq!(e.hostname, Some("box".to_string()));
    assert_eq!(e.timestamp_usec, "");
    assert_eq!(e.command, Some("sshd".to_string()));
    assert_eq!(e.cursor, "");
    assert!(e.extra_fields.is_empty());
    assert_eq!(e.timestamp_key(), 0);
}

#[test]
fn entries_sorted_by_timestamp_stably() {
    let records = vec![
        record(Some("300"), "c", Some("3")),
        record(Some("100"), "a", None),
        record(Some("bad"), "z", Some("4")),
        record(Some("300"), "d", Some("6")),
        record(Some("200"), "b", Some("7")),
        record(None, "y", Some("0")),
    ];
    let entries = entries_from_records(records);
    let msgs: Vec<&str> = entries.iter().map(|e| e.message.as_str()).collect();
    assert_eq!(msgs, vec!["z", "y", "a", "b", "c", "d"]);
    let keys: Vec<u64> = entries.iter().map(|e| e.timestamp_key()).collect();
    assert_eq!(keys, vec![0, 0, 100, 200, 300, 300]);
    assert_eq!(entries[2].priority, LogLevel::Info);
    assert_eq!(entries[0].priority, LogLevel::Warning);
    assert_eq!(entries[4].cursor, "c-c");
}

#[test]
fn sort_keeps_all_entries() {
    let entries: Vec<JournalEntry> = vec!["5", "1", "5", "3"]
        .into_iter()
        .map(|t| JournalEntry::from_record(record(Some(t), t, None)))
        .collect();
    let sorted = sort_by_timestamp(entries);
    let ts: Vec<&str> = sorted.iter().map(|e| e.timestamp_usec.as_str()).collect();
    assert_eq!(ts, vec!["1", "3", "5", "5"]);
    let empty = sort_by_timestamp(vec![]);
    assert!(empty.is_empty());
}

#[test]
fn message_text_picks_msg_field() {
    assert_eq!(message_text("level=info msg=\"hello world\" x=1"), "hello world");
    assert_eq!(message_text("msg=ready now"), "ready");
    assert_eq!(message_text("a msg=tail"), "tail");
    assert_eq!(message_text("msg=\"unclosed"), "msg=\"unclosed");
    assert_eq!(message_text("plain\ttext\r"), "plain    text");
    assert_eq!(message_text(""), "");
}

#[test]
fn unit_display_shortens_long_units() {
    assert_eq!(unit_display("systemd-journald.service"), "syst..vice ");
    assert_eq!(unit_display("cron"), "cron       ");
    assert_eq!(unit_display("abcdefghij"), "abcdefghij ");
    assert_eq!(unit_display("abcdefghijk"), "abcd..hijk ");
    assert_eq!(unit_display(""), "           ");
}

#[test]
fn priority_classes_and_tones() {
    assert_eq!(PriorityClass::of_priority("0"), PriorityClass::Error);
    assert_eq!(PriorityClass::of_priority("3"), PriorityClass::Error);
    assert_eq!(PriorityClass::of_priority("4"), PriorityClass::Warning);
    assert_eq!(PriorityClass::of_priority("5"), PriorityClass::Info);
    assert_eq!(PriorityClass::of_priority("7"), PriorityClass::Debug);
    assert_eq!(PriorityClass::of_priority("x"), PriorityClass::Unknown);
    assert_eq!(PriorityClass::Error.message_tone(), Tone::Red);
    assert_eq!(PriorityClass::Warning.mark_tone(), Tone::Yellow);
    assert_eq!(PriorityClass::Info.label(), "INFO");
    assert_eq!(PriorityClass::Unknown.label(), "UKNOWN");
    assert_eq!(PriorityClass::Debug.emoji(), "🐞");
}

#[test]
fn styled_line_fields() {
    let line = format_styled_line(
        Some("systemd-logind.service".to_string()),
        None,
        Some("4".to_string()),
        1_700_000_000_000_000,
        "msg=\"seat0 ready\"",
    );
    assert_eq!(line.class, PriorityClass::Warning);
    assert_eq!(line.unit_pid, "syst..vice [0]");
    assert_eq!(line.message, "seat0 ready");
    assert!(line.timestamp.contains('T'));
    let short = format_styled_line(None, Some("12".to_string()), None, 0, "up");
    assert_eq!(short.class, PriorityClass::Info);
    assert_eq!(short.unit_pid, "           [12]");
}

#[test]
fn log_line_banner_and_entry() {
    match format_log_line(Some("cron.service".to_string()), None, -1, "99") {
        LogLine::Instance { text } => assert_eq!(text, "Started New Instance ➝ cron.service(99)"),
        LogLine::Entry { .. } => panic!("expected a banner"),
    }
    match format_log_line(None, Some("2".to_string()), 5, "disk msg=full") {
        LogLine::Entry { class, message, date, time } => {
            assert_eq!(class, PriorityClass::Error);
            assert_eq!(message, "full");
            assert_eq!(date.len(), 10);
            assert!(time.contains(':'));
        }
        LogLine::Instance { .. } => panic!("expected an entry"),
    }
}

#[test]
fn sorting_sorted_entries_changes_nothing() {
    let make = || -> Vec<JournalEntry> {
        vec![("1", "a"), ("2", "b"), ("2", "c"), ("9", "d")]
            .into_iter()
            .map(|(t, m)| JournalEntry::from_record(record(Some(t), m, None)))
            .collect()
    };
    let once = sort_by_timestamp(make());
    let msgs: Vec<String> = once.iter().map(|e| e.message.clone()).collect();
    assert_eq!(msgs, vec!["a", "b", "c", "d"]);
    let twice = sort_by_timestamp(once);
    let msgs2: Vec<String> = twice.iter().map(|e| e.message.clone()).collect();
    assert_eq!(msgs2, msgs);
}
