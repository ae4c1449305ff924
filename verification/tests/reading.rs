use see::line_format::{LogLine, PriorityClass};
use see::reader::{reander_instance, LogBuffer};
use see::scan::{
    batch_printable, entry_is_printable, list_entries, listing_printable, listing_entry_verdict, read_batch, reading_stops_at, EntryFields,
    MessageFilter, TimeWindow, Verdict,
};

fn entry(t: Option<i64>, msg: &str, pid: Option<&str>, cursor: &str) -> EntryFields {
    EntryFields {
        wallclock: t,
        message: Some(msg.to_string()),
        unit: Some("app.service".to_string()),
        pid: pid.map(|p| p.to_string()),
        priority: Some("3".to_string()),
        cursor: Some(cursor.to_string()),
    }
}

fn texts(lines: &[LogLine]) -> Vec<String> {
    lines
        .iter()
        .map(|l| match l {
            LogLine::Instance { text } => format!("banner:{}", text),
            LogLine::Entry { message, .. } => message.clone(),
        })
        .collect()
}

#[test]
fn filter_uses_regex_when_it_compiles() {
    let f = MessageFilter::new("err.*disk");
    assert!(f.accepts("error on disk"));
    assert!(!f.accepts("disk error"));
    let g = MessageFilter::new("^start");
    assert!(g.accepts("started"));
    assert!(!g.accepts("restarted"));
}

#[test]
fn filter_falls_back_to_substring() {
    let f = MessageFilter::new("(x");
    assert!(f.accepts("a(xb"));
    assert!(!f.accepts("axb"));
    let all = MessageFilter::new("");
    assert!(all.accepts(""));
    assert!(all.accepts("anything"));
}

#[test]
fn time_window_defaults() {
    let w = TimeWindow::from_inputs("", "");
    assert_eq!(w, TimeWindow { from: 0, to: i64::MAX });
    let bad = TimeWindow::from_inputs("13/40/2024", "not a date");
    assert_eq!(bad, TimeWindow { from: 0, to: 0 });
}

#[test]
fn verdicts_of_the_listing() {
    let w = TimeWindow { from: 10, to: 20 };
    let f = MessageFilter::new("ok");
    assert_eq!(listing_entry_verdict(&w, &f, None, false, "ok"), Verdict::Skip);
    assert_eq!(listing_entry_verdict(&w, &f, Some(15), true, "ok"), Verdict::Stop);
    assert_eq!(listing_entry_verdict(&w, &f, Some(5), false, "ok"), Verdict::Skip);
    assert_eq!(listing_entry_verdict(&w, &f, Some(25), false, "ok"), Verdict::Stop);
    assert_eq!(listing_entry_verdict(&w, &f, Some(15), false, "no"), Verdict::Skip);
    assert_eq!(listing_entry_verdict(&w, &f, Some(20), false, "ok!"), Verdict::Keep);
}

#[test]
fn read_batch_marks_new_processes() {
    let w = TimeWindow { from: 0, to: 100 };
    let f = MessageFilter::new("");
    let entries = vec![
        entry(Some(1), "one", Some("10"), "c1"),
        entry(Some(2), "two", Some("10"), "c2"),
        entry(None, "timeless", Some("11"), "c3"),
        entry(Some(3), "three", Some("12"), "c4"),
        entry(Some(4), "four", None, "c5"),
        entry(Some(500), "late", Some("13"), "c6"),
        entry(Some(6), "after stop", Some("14"), "c7"),
    ];
    let b = read_batch(&w, &f, false, false, "10".to_string(), &entries);
    assert_eq!(
        texts(&b.lines),
        vec![
            "one",
            "two",
            "banner:Started New Instance ➝ app.service(11)",
            "timeless",
            "banner:Started New Instance ➝ app.service(12)",
            "three",
            "four",
        ]
    );
    assert_eq!(b.cursors, vec!["c1", "c2", "", "c3", "", "c4", "c5"]);
    assert_eq!(b.pid, "12");
    match &b.lines[0] {
        LogLine::Entry { class, .. } => assert_eq!(*class, PriorityClass::Error),
        LogLine::Instance { .. } => panic!("expected an entry"),
    }
}

#[test]
fn read_batch_skips_timeless_when_asked() {
    let w = TimeWindow { from: 0, to: 100 };
    let f = MessageFilter::new("t");
    let entries = vec![
        entry(None, "timeless", Some("1"), "c1"),
        entry(Some(3), "three", Some("1"), "c2"),
        entry(Some(4), "four", Some("1"), "c3"),
    ];
    let b = read_batch(&w, &f, true, false, String::new(), &entries);
    assert_eq!(texts(&b.lines), vec!["banner:Started New Instance ➝ app.service(1)", "three"]);
    assert_eq!(b.cursors, vec!["", "c2"]);
    let stopped = read_batch(&w, &f, true, true, "9".to_string(), &entries);
    assert!(stopped.lines.is_empty() && stopped.cursors.is_empty());
    assert_eq!(stopped.pid, "9");
}

#[test]
fn wallclock_minus_one_is_a_banner_line() {
    let w = TimeWindow { from: -5, to: 5 };
    let f = MessageFilter::new("");
    let entries = vec![entry(Some(-1), "77", None, "c1")];
    let b = read_batch(&w, &f, false, false, String::new(), &entries);
    assert_eq!(texts(&b.lines), vec!["banner:Started New Instance ➝ app.service(77)"]);
    assert_eq!(b.cursors, vec!["c1"]);
}

#[test]
fn list_entries_in_window() {
    let w = TimeWindow { from: 2, to: 3 };
    let f = MessageFilter::new("");
    let entries = vec![
        entry(Some(1), "early", Some("5"), "c1"),
        entry(None, "timeless", Some("5"), "c2"),
        entry(Some(2), "msg=\"in\"", Some("5"), "c3"),
        entry(Some(3), "also", None, "c4"),
        entry(Some(9), "late", Some("5"), "c5"),
        entry(Some(2), "never", Some("5"), "c6"),
    ];
    let lines = list_entries(&w, &f, false, &entries);
    let msgs: Vec<&str> = lines.iter().map(|l| l.message.as_str()).collect();
    assert_eq!(msgs, vec!["in", "also"]);
    assert_eq!(lines[0].unit_pid, "app...vice [5]");
    assert_eq!(lines[1].unit_pid, "app...vice [0]");
    assert!(list_entries(&w, &f, true, &entries).is_empty());
}

#[test]
fn reader_handle_fetches_a_batch() {
    let mut r = reander_instance::new(3, "journal".to_string());
    assert_eq!(r.value, 3);
    assert_eq!(r.name, "journal");
    let w = TimeWindow::from_inputs("", "");
    let f = MessageFilter::new("");
    let entries = vec![
        entry(Some(1), "a", Some("4"), "c1"),
        entry(None, "b", Some("4"), "c2"),
        entry(Some(2), "c", Some("4"), "c3"),
    ];
    let (cursors, lines) = r.fetch_log_data(&w, &f, false, &entries);
    assert_eq!(cursors, vec!["", "c1", "c3"]);
    assert_eq!(texts(&lines), vec!["banner:Started New Instance ➝ app.service(4)", "a", "c"]);
    assert_eq!(r.value, 3);
}

#[test]
fn log_buffer_moves_batches() {
    let mut incoming = LogBuffer::new();
    let mut shown = LogBuffer::new();
    assert!(!incoming.drain_into(&mut shown));
    incoming.extend_batch(vec![], vec![]);
    assert!(incoming.lines.is_empty());
    incoming.extend_batch(
        vec!["c1".to_string()],
        vec![LogLine::Instance { text: "x".to_string() }],
    );
    assert!(incoming.drain_into(&mut shown));
    assert!(incoming.lines.is_empty() && incoming.cursors.is_empty());
    assert_eq!(shown.cursors, vec!["c1"]);
    assert_eq!(shown.lines.len(), 1);
}

#[test]
fn a_pass_ends_past_the_window() {
    let w = TimeWindow { from: 10, to: 20 };
    assert!(!reading_stops_at(&w, Some(15)));
    assert!(!reading_stops_at(&w, Some(20)));
    assert!(reading_stops_at(&w, Some(21)));
    assert!(!reading_stops_at(&w, None));
    let upside_down = TimeWindow { from: 30, to: 20 };
    assert!(!reading_stops_at(&upside_down, Some(25)));
    assert!(reading_stops_at(&upside_down, Some(30)));
    let before_epoch = TimeWindow { from: -10, to: -5 };
    assert!(reading_stops_at(&before_epoch, None));
}

#[test]
fn printable_checks() {
    let ok = entry(Some(5), "fine", Some("1"), "c1");
    assert!(entry_is_printable(&ok));
    let huge = entry(Some(9_223_372_036_854_776), "late", Some("1"), "c2");
    assert!(!entry_is_printable(&huge));
    let mut cut = entry(Some(5), "x", None, "c3");
    cut.unit = Some("ab📅cdefghij".to_string());
    assert!(!entry_is_printable(&cut));
    cut.unit = Some("abcd📅ghijklmn".to_string());
    assert!(entry_is_printable(&cut));
    let all = TimeWindow::from_inputs("", "");
    let f = MessageFilter::new("");
    let entries = vec![ok, huge];
    assert!(!batch_printable(&all, &f, false, false, &entries));
    assert!(batch_printable(&all, &f, false, true, &entries));
    let early = TimeWindow { from: 0, to: 10 };
    assert!(batch_printable(&early, &f, false, false, &entries));
    assert!(!listing_printable(&all, &f, false, &entries));
    assert!(listing_printable(&early, &f, false, &entries));
    let picky = MessageFilter::new("fine");
    assert!(batch_printable(&all, &picky, false, false, &entries));
}

#[test]
fn times_end_in_their_milliseconds() {
    match see::line_format::format_log_line(None, None, 1_700_000_000_123_456, "m") {
        LogLine::Entry { time, .. } => assert!(time.ends_with(".123")),
        LogLine::Instance { .. } => panic!("expected an entry"),
    }
    let line = see::line_format::format_styled_line(None, None, None, 7_045_001, "m");
    assert!(line.timestamp.ends_with(".045"));
    let ts: Vec<char> = line.timestamp.chars().collect();
    assert_eq!(ts.len(), 23);
    assert_eq!((ts[4], ts[7], ts[10], ts[13], ts[16], ts[19]), ('-', '-', 'T', ':', ':', '.'));
    let off: Vec<char> = line.offset.chars().collect();
    assert_eq!(off.len(), 6);
    assert!(off[0] == '+' || off[0] == '-');
    assert_eq!(off[3], ':');
    match see::line_format::format_log_line(None, None, 0, "m") {
        LogLine::Entry { date, time, .. } => {
            let d: Vec<char> = date.chars().collect();
            assert_eq!((d.len(), d[2], d[5]), (10, '/', '/'));
            let t: Vec<char> = time.chars().collect();
            assert_eq!((t.len(), t[2], t[5], t[8]), (12, ':', ':', '.'));
        }
        LogLine::Instance { .. } => panic!("expected an entry"),
    }
}

#[test]
fn passes_continue_after_the_entry_past_the_window() {
    let w = TimeWindow { from: 0, to: 10 };
    let f = MessageFilter::new("");
    let first = vec![entry(Some(1), "a", Some("1"), "c1"), entry(Some(50), "late", Some("1"), "c2")];
    let second = vec![entry(Some(2), "b", Some("1"), "c3"), entry(Some(3), "c", Some("2"), "c4")];
    let b1 = read_batch(&w, &f, false, false, String::new(), &first);
    let b2 = read_batch(&w, &f, false, false, b1.pid.clone(), &second);
    let mut all = texts(&b1.lines);
    all.extend(texts(&b2.lines));
    assert_eq!(
        all,
        vec![
            "banner:Started New Instance ➝ app.service(1)",
            "a",
            "b",
            "banner:Started New Instance ➝ app.service(2)",
            "c",
        ]
    );
    let mut cursors = b1.cursors.clone();
    cursors.extend(b2.cursors.clone());
    assert_eq!(cursors, vec!["", "c1", "c3", "", "c4"]);
}
