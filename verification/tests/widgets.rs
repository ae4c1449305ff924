use see::date_input::TuiInputDate;
use see::keys::{KeyCode, KeyInput};
use see::list_nav::{apply_move, follow_tail, ListMove};
use see::reader::LogBuffer;
use see::see_tui;
use see::tui::{self, yank_text};

fn focused_box() -> TuiInputDate {
    let mut b = TuiInputDate::new("📅from".to_string());
    b.focused = true;
    b
}

fn type_text(b: &mut TuiInputDate, text: &str) -> Vec<bool> {
    text.chars()
        .map(|c| b.handle_key(Some(KeyInput::plain(KeyCode::Char(c)))))
        .collect()
}

#[test]
fn typing_digits_fills_in_separators() {
    let mut b = focused_box();
    let answers = type_text(&mut b, "12312024235959");
    assert_eq!(b.input, "12/31/2024 23:59:59");
    assert_eq!(b.character_index, 19);
    assert!(answers[..13].iter().all(|a| !a));
    assert!(answers[13]);
    // The box is full: more digits change nothing, and the time still reads.
    assert!(b.handle_key(Some(KeyInput::plain(KeyCode::Char('1')))));
    assert_eq!(b.input, "12/31/2024 23:59:59");
}

#[test]
fn date_rules_reject_impossible_digits() {
    let mut b = focused_box();
    type_text(&mut b, "2");
    assert_eq!(b.input, "");
    type_text(&mut b, "13");
    assert_eq!(b.input, "1");
    type_text(&mut b, "2");
    assert_eq!(b.input, "12/");
    type_text(&mut b, "4");
    assert_eq!(b.input, "12/");
    type_text(&mut b, "32");
    assert_eq!(b.input, "12/3");
    type_text(&mut b, "0");
    assert_eq!(b.input, "12/30/");
    type_text(&mut b, "a");
    assert_eq!(b.input, "12/30/");
}

#[test]
fn hours_minutes_and_seconds_rules() {
    let mut b = focused_box();
    type_text(&mut b, "01012020");
    assert_eq!(b.input, "01/01/2020 ");
    type_text(&mut b, "3");
    assert_eq!(b.input, "01/01/2020 ");
    type_text(&mut b, "24");
    assert_eq!(b.input, "01/01/2020 2");
    type_text(&mut b, "3");
    assert_eq!(b.input, "01/01/2020 23:");
    type_text(&mut b, "6");
    assert_eq!(b.input, "01/01/2020 23:");
    type_text(&mut b, "59");
    assert_eq!(b.input, "01/01/2020 23:59:");
}

#[test]
fn backspace_enter_and_unfocused_box() {
    let mut b = focused_box();
    type_text(&mut b, "12");
    assert_eq!(b.input, "12/");
    assert!(!b.handle_key(Some(KeyInput::plain(KeyCode::Backspace))));
    assert_eq!(b.input, "12");
    assert!(!b.handle_key(Some(KeyInput::plain(KeyCode::Backspace))));
    assert!(b.handle_key(Some(KeyInput::plain(KeyCode::Backspace))));
    assert_eq!(b.input, "");
    assert_eq!(b.character_index, 0);
    assert!(b.handle_key(Some(KeyInput::plain(KeyCode::Backspace))));
    type_text(&mut b, "11");
    assert!(!b.handle_key(Some(KeyInput::plain(KeyCode::Enter))));
    assert_eq!(b.input, "");
    b.focused = false;
    assert!(!b.handle_key(Some(KeyInput::plain(KeyCode::Char('1')))));
    assert_eq!(b.input, "");
    assert!(!b.handle_key(None));
}

#[test]
fn cursor_moves_and_clamps() {
    let mut b = focused_box();
    type_text(&mut b, "1");
    b.move_cursor_left();
    assert_eq!(b.character_index, 0);
    b.move_cursor_left();
    assert_eq!(b.character_index, 0);
    b.move_cursor_right();
    b.move_cursor_right();
    assert_eq!(b.character_index, 1);
    assert_eq!(b.clamp_cursor(9), 1);
    assert_eq!(b.byte_index(), 1);
    b.reset_cursor();
    assert_eq!(b.character_index, 0);
}

#[test]
fn parse_human_time_needs_the_full_shape() {
    assert_eq!(TuiInputDate::parse_human_time(""), 0);
    assert_eq!(TuiInputDate::parse_human_time("12/31/2024"), 0);
    assert_eq!(TuiInputDate::parse_human_time("12-31-2024 23:59:59"), 0);
    assert_eq!(TuiInputDate::parse_human_time("13/31/2024 23:59:59"), 0);
    assert_ne!(TuiInputDate::parse_human_time("12/31/2024 23:59:59"), 0);
    assert_ne!(see::human_time::parse_human_time("1/2/2024 3:04:05"), 0);
    assert_eq!(see::human_time::parse_human_time_strict("1/2/2024 3:04:05"), 0);
}

#[test]
fn list_moves_like_list_state() {
    assert_eq!(apply_move(None, ListMove::Next(1)), Some(0));
    assert_eq!(apply_move(None, ListMove::Previous(1)), Some(usize::MAX));
    assert_eq!(apply_move(Some(0), ListMove::Previous(1)), Some(0));
    assert_eq!(apply_move(Some(5), ListMove::Next(10)), Some(15));
    assert_eq!(apply_move(Some(5), ListMove::Previous(10)), Some(0));
    assert_eq!(apply_move(Some(usize::MAX), ListMove::Next(1)), Some(usize::MAX));
    assert_eq!(apply_move(Some(3), ListMove::First), Some(0));
    assert_eq!(apply_move(Some(3), ListMove::Last), Some(usize::MAX));
    assert_eq!(apply_move(None, ListMove::To(7)), Some(7));
    assert_eq!(apply_move(None, ListMove::Stay), None);
}

#[test]
fn follow_tail_scrolls_to_the_end() {
    assert_eq!(follow_tail(0, 10), (0, 0));
    assert_eq!(follow_tail(5, 10), (4, 0));
    assert_eq!(follow_tail(25, 10), (24, 15));
}

#[test]
fn first_layout_focus_moves() {
    let mut w = see_tui::SEETui::new("cron.service".to_string());
    assert_eq!(w.inputstate, see_tui::InputMode::SelectLog);
    let a = w.run_widget(Some(KeyInput::with_ctrl(KeyCode::Char('j'))));
    assert_eq!(w.inputstate, see_tui::InputMode::InputFilter);
    assert!(w.filter_focused && !w.from_focused && !w.to_focused);
    assert!(a.stay_focus);
    assert_eq!(a.forward, None);
    w.run_widget(Some(KeyInput::with_ctrl(KeyCode::Right)));
    assert_eq!(w.inputstate, see_tui::InputMode::InputFrom);
    assert!(w.from_focused);
    w.run_widget(Some(KeyInput::with_ctrl(KeyCode::Up)));
    assert_eq!(w.inputstate, see_tui::InputMode::SelectLog);
    assert_eq!(w.oldinputstate, see_tui::InputMode::InputFrom);
    w.run_widget(Some(KeyInput::with_ctrl(KeyCode::Down)));
    assert_eq!(w.inputstate, see_tui::InputMode::InputFrom);
    let key = KeyInput::plain(KeyCode::Char('j'));
    let a = w.run_widget(Some(key));
    assert_eq!(a.list, ListMove::Next(1));
    assert_eq!(a.forward, Some(key));
    let a = w.run_widget(Some(KeyInput::with_ctrl(KeyCode::Char('h'))));
    assert_eq!(w.inputstate, see_tui::InputMode::InputFilter);
    assert!(a.stay_focus);
    let a = w.run_widget(Some(KeyInput::with_ctrl(KeyCode::Left)));
    assert_eq!(w.inputstate, see_tui::InputMode::Unfocused);
    assert_eq!(w.oldinputstate, see_tui::InputMode::InputFilter);
    assert!(!a.stay_focus);
    assert!(!w.filter_focused);
}

#[test]
fn second_layout_keys() {
    let mut w = tui::SEETui::new("sshd.service".to_string());
    assert_eq!(w.from.title, "📅from");
    assert_eq!(w.to.title, "📅to");
    assert_eq!(w.inputstate, tui::InputMode::SelectLog);
    let a = w.run_widget(Some(KeyInput::plain(KeyCode::Char('k'))));
    assert_eq!(a.list, ListMove::Previous(1));
    assert_eq!(a.forward, None);
    w.run_widget(Some(KeyInput::plain(KeyCode::Char('1'))));
    w.run_widget(Some(KeyInput::plain(KeyCode::Char('2'))));
    assert_eq!(w.meta_motions, "12");
    let a = w.run_widget(Some(KeyInput::plain(KeyCode::Char('G'))));
    assert_eq!(a.list, ListMove::To(11));
    assert_eq!(w.meta_motions, "");
    let a = w.run_widget(Some(KeyInput::plain(KeyCode::Char('G'))));
    assert_eq!(a.list, ListMove::Last);
    let a = w.run_widget(Some(KeyInput::plain(KeyCode::PageDown)));
    assert_eq!(a.list, ListMove::Next(10));
    let a = w.run_widget(Some(KeyInput::plain(KeyCode::Enter)));
    assert!(a.open);
    let a = w.run_widget(Some(KeyInput::plain(KeyCode::Char('t'))));
    assert_eq!(w.inputstate, tui::InputMode::InputTo);
    assert!(w.to.focused && !w.from.focused && !w.filter_focused);
    assert!(a.stay_focus);
    let key = KeyInput::plain(KeyCode::Char('x'));
    let a = w.run_widget(Some(key));
    assert_eq!(a.forward, Some(key));
    w.run_widget(Some(KeyInput::with_ctrl(KeyCode::Char('k'))));
    assert_eq!(w.inputstate, tui::InputMode::SelectLog);
    assert_eq!(w.oldinputstate, tui::InputMode::InputTo);
    w.run_widget(Some(KeyInput::plain(KeyCode::Char('i'))));
    assert_eq!(w.inputstate, tui::InputMode::InputTo);
}

#[test]
fn second_layout_popup() {
    let mut w = tui::SEETui::new("sshd.service".to_string());
    let mut incoming = LogBuffer::new();
    incoming.extend_batch(
        vec![String::new(), "s=abc".to_string()],
        vec![
            see::line_format::LogLine::Instance { text: "b".to_string() },
            see::line_format::LogLine::Instance { text: "e".to_string() },
        ],
    );
    assert!(w.pull_new_journaldata(&mut incoming));
    assert!(!w.pull_new_journaldata(&mut incoming));
    assert_eq!(w.log.lines.len(), 2);
    assert_eq!(w.cursor_to_open(Some(0)), None);
    assert_eq!(w.cursor_to_open(Some(1)), Some("s=abc".to_string()));
    assert_eq!(w.cursor_to_open(Some(2)), None);
    assert_eq!(w.cursor_to_open(None), None);
    w.show_entry();
    assert_eq!(w.inputstate, tui::InputMode::DetailedEntry);
    let a = w.run_widget(Some(KeyInput::plain(KeyCode::Char('y'))));
    assert!(a.yank);
    let a = w.run_widget(Some(KeyInput::plain(KeyCode::Char('g'))));
    assert_eq!(a.detail, ListMove::First);
    w.run_widget(Some(KeyInput::plain(KeyCode::Esc)));
    assert_eq!(w.inputstate, tui::InputMode::SelectLog);
    w.reset_log();
    assert!(w.log.lines.is_empty() && w.log.cursors.is_empty());
}

#[test]
fn zero_count_jump_wraps() {
    let mut w = tui::SEETui::new("u".to_string());
    w.run_widget(Some(KeyInput::plain(KeyCode::Char('0'))));
    let a = w.run_widget(Some(KeyInput::plain(KeyCode::Char('G'))));
    assert_eq!(a.list, ListMove::To(usize::MAX));
}

#[test]
fn yank_copies_key_and_value() {
    let fields = vec![
        ("MESSAGE".to_string(), "hello".to_string()),
        ("_PID".to_string(), "7".to_string()),
    ];
    assert_eq!(yank_text(&fields, Some(1)), Some("_PID=7".to_string()));
    assert_eq!(yank_text(&fields, Some(2)), None);
    assert_eq!(yank_text(&fields, None), None);
}

#[test]
fn digit_after_deleted_separator_takes_its_place() {
    let mut b = focused_box();
    type_text(&mut b, "12");
    assert_eq!(b.input, "12/");
    b.handle_key(Some(KeyInput::plain(KeyCode::Backspace)));
    type_text(&mut b, "3");
    assert_eq!(b.input, "123");
}

#[test]
fn first_layout_right_and_back() {
    let mut w = see_tui::SEETui::new("a".to_string());
    w.inputstate = see_tui::InputMode::InputFilter;
    w.run_widget(Some(KeyInput::with_ctrl(KeyCode::Char('l'))));
    assert_eq!(w.inputstate, see_tui::InputMode::InputFrom);
    w.run_widget(Some(KeyInput::with_ctrl(KeyCode::Char('h'))));
    assert_eq!(w.inputstate, see_tui::InputMode::InputFilter);
    assert!(w.filter_focused && !w.from_focused);
}

#[test]
fn typing_the_last_second_of_2023() {
    let mut b = focused_box();
    for c in "12312023235959".chars() {
        b.handle_key(Some(KeyInput::plain(KeyCode::Char(c))));
    }
    assert_eq!(b.input, "12/31/2023 23:59:59");
    assert_eq!(b.character_index, 19);
}

#[test]
fn strict_and_lenient_readers_agree_on_full_times() {
    let s = "06/15/2022 08:30:00";
    assert_eq!(
        see::human_time::parse_human_time_strict(s),
        see::human_time::parse_human_time(s)
    );
    assert_eq!(TuiInputDate::parse_human_time(s), see::human_time::parse_human_time(s));
}

#[test]
fn parsed_times_lie_within_a_day_of_utc() {
    let naive_utc_us: i64 = 1_655_281_800_000_000; // 2022-06-15 08:30:00 read as UTC
    let day: i64 = 86_400_000_000;
    let r = see::human_time::parse_human_time("06/15/2022 08:30:00");
    assert!(r == 0 || (r - naive_utc_us).abs() < day);
    let w = see::scan::TimeWindow::from_inputs("06/15/2022 08:30:00", "06/15/2022 08:30:00");
    assert!(w.from == 0 || (w.from - naive_utc_us).abs() < day);
    assert_eq!(w.from, w.to);
}
