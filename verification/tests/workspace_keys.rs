use see::keys::{KeyCode, KeyInput};
use see::list_nav::ListMove;
use see::see_tui::InputMode;
use see::workspace::{mode_label, owner_label, Args, BufferChange, InputOwner, Workspace};

fn services() -> Vec<String> {
    vec![
        "cron.service".to_string(),
        "sshd.service".to_string(),
        "systemd-journald.service".to_string(),
    ]
}

#[test]
fn starts_in_the_service_list() {
    let w = Workspace::new();
    assert_eq!(w.owner, InputOwner::SERVICEList);
    assert!(w.buffers.is_empty());
    assert_eq!(w.selected_buffer, 0);
    assert_eq!(w.header_label(), ("SERVICEList", ""));
    assert!(w.tab_titles().is_empty());
}

#[test]
fn open_args_opens_known_units() {
    let mut w = Workspace::new();
    let args = Args {
        unit: vec!["sshd".to_string(), "nope".to_string(), "cron.service".to_string()],
    };
    let opened = w.open_args(&args, &services());
    assert_eq!(opened, vec!["sshd.service", "cron.service"]);
    assert_eq!(w.buffers.len(), 2);
    assert_eq!(w.owner, InputOwner::BUFFERS);
    assert_eq!(w.buffers[1].inputstate, InputMode::SelectLog);
    assert_eq!(w.tab_titles(), vec!["📝sshd.service", "📝cron.service"]);
    assert_eq!(w.find_buffer(&"cron.service".to_string()), Some(1));
    assert_eq!(w.find_buffer(&"x".to_string()), None);
}

#[test]
fn open_args_with_nothing_known() {
    let mut w = Workspace::new();
    let args = Args { unit: vec!["ghost".to_string()] };
    assert!(w.open_args(&args, &services()).is_empty());
    assert_eq!(w.owner, InputOwner::SERVICEList);
}

#[test]
fn service_list_toggles_buffers() {
    let mut w = Workspace::new();
    let visible = services();
    let a = w.handle_key(KeyInput::plain(KeyCode::Char('j')), None, &visible);
    assert_eq!(a.services, ListMove::Next(1));
    let a = w.handle_key(KeyInput::plain(KeyCode::Enter), Some(1), &visible);
    assert_eq!(a.change, BufferChange::Opened);
    assert_eq!(w.buffers.len(), 1);
    assert_eq!(w.buffers[0].unit, "sshd.service");
    assert_eq!(w.owner, InputOwner::SERVICEList);
    let rows = w.visible_services(&visible, "");
    assert_eq!(rows.iter().map(|r| r.open).collect::<Vec<_>>(), vec![false, true, false]);
    let a = w.handle_key(KeyInput::plain(KeyCode::Char('x')), Some(1), &visible);
    assert_eq!(a.change, BufferChange::Removed { index: 0, dispose: false });
    assert!(w.buffers.is_empty());
    let a = w.handle_key(KeyInput::plain(KeyCode::Enter), None, &visible);
    assert_eq!(a.change, BufferChange::Unchanged);
}

#[test]
fn search_box_opens_and_closes() {
    let mut w = Workspace::new();
    let visible = services();
    w.handle_key(KeyInput::plain(KeyCode::Char('/')), None, &visible);
    assert_eq!(w.owner, InputOwner::SERVICESearch);
    assert!(w.search_focused);
    let typed = KeyInput::plain(KeyCode::Char('s'));
    let a = w.handle_key(typed, None, &visible);
    assert_eq!(a.pass_key, Some(typed));
    let enter = KeyInput::plain(KeyCode::Enter);
    let a = w.handle_key(enter, Some(0), &visible);
    assert_eq!(a.change, BufferChange::Opened);
    assert_eq!(a.pass_key, Some(enter));
    assert_eq!(w.owner, InputOwner::BUFFERS);
    assert!(!w.search_focused);
    assert_eq!(w.selected_buffer, 0);
    assert_eq!(w.header_label(), ("BUFFERS::", "SelectLog"));
}

#[test]
fn search_box_removes_an_open_buffer() {
    let mut w = Workspace::new();
    let visible = services();
    w.handle_key(KeyInput::plain(KeyCode::Enter), Some(0), &visible);
    w.handle_key(KeyInput::plain(KeyCode::Enter), Some(2), &visible);
    w.handle_key(KeyInput::plain(KeyCode::Char('i')), None, &visible);
    let a = w.handle_key(KeyInput::plain(KeyCode::Enter), Some(0), &visible);
    assert_eq!(a.change, BufferChange::Removed { index: 0, dispose: true });
    assert_eq!(w.buffers.len(), 1);
    assert_eq!(w.selected_buffer, 0);
    assert_eq!(w.owner, InputOwner::SERVICESearch);
}

#[test]
fn alt_digits_select_buffers() {
    let mut w = Workspace::new();
    let args = Args { unit: vec!["cron".to_string(), "sshd".to_string()] };
    w.open_args(&args, &services());
    w.handle_key(KeyInput::with_alt(KeyCode::Char('1')), None, &vec![]);
    assert_eq!(w.selected_buffer, 0);
    assert_eq!(w.buffers[0].inputstate, InputMode::SelectLog);
    assert_eq!(w.buffers[1].inputstate, InputMode::Unfocused);
    w.handle_key(KeyInput::with_alt(KeyCode::Char('9')), None, &vec![]);
    assert_eq!(w.selected_buffer, 0);
    w.handle_key(KeyInput::with_alt(KeyCode::Char('0')), None, &vec![]);
    assert_eq!(w.selected_buffer, 0);
    let a = w.handle_key(KeyInput::with_ctrl(KeyCode::Char('q')), None, &vec![]);
    assert!(a.quit);
}

#[test]
fn leaving_a_buffer_returns_to_the_list() {
    let mut w = Workspace::new();
    let args = Args { unit: vec!["cron".to_string()] };
    w.open_args(&args, &services());
    let (act, used) = w.run_selected(Some(KeyInput::with_ctrl(KeyCode::Char('h'))));
    let act = act.unwrap();
    assert!(!act.stay_focus);
    assert!(!used);
    assert_eq!(w.owner, InputOwner::SERVICEList);
    w.handle_key(KeyInput::with_ctrl(KeyCode::Char('l')), None, &vec![]);
    assert_eq!(w.owner, InputOwner::BUFFERS);
    assert_eq!(w.buffers[0].inputstate, InputMode::SelectLog);
    let mut empty = Workspace::new();
    let (none, used) = empty.run_selected(None);
    assert!(none.is_none() && !used);
}

#[test]
fn leaving_the_filter_box_goes_to_search() {
    let mut w = Workspace::new();
    let args = Args { unit: vec!["cron".to_string()] };
    w.open_args(&args, &services());
    w.run_selected(Some(KeyInput::with_ctrl(KeyCode::Char('j'))));
    assert_eq!(w.buffers[0].inputstate, InputMode::InputFilter);
    let (_, used) = w.run_selected(Some(KeyInput::with_ctrl(KeyCode::Left)));
    assert!(used);
    assert_eq!(w.owner, InputOwner::SERVICESearch);
    assert!(w.search_focused);
    let a = w.handle_key(KeyInput::with_ctrl(KeyCode::Down), None, &vec![]);
    assert!(a.skip_frame);
    assert_eq!(w.owner, InputOwner::BUFFERS);
    assert_eq!(w.buffers[0].inputstate, InputMode::InputFilter);
    assert!(w.buffers[0].filter_focused);
}

#[test]
fn filtering_the_service_list() {
    let w = Workspace::new();
    let rows = w.visible_services(&services(), "SSH");
    assert_eq!(rows.len(), 1);
    assert_eq!(rows[0].name, "sshd.service");
    let rows = w.visible_services(&services(), "service");
    assert_eq!(rows.len(), 3);
    assert!(w.visible_services(&services(), "zzz").is_empty());
}

#[test]
fn labels() {
    assert_eq!(mode_label(InputMode::InputTo), "InputTo");
    assert_eq!(owner_label(InputOwner::SERVICESearch), "SERVICESearch");
}

#[test]
fn services_from_journalctl_output() {
    let out = b"cron.service\nsshd.service\r\n\xffbad.service\n";
    let units = see::workspace::services_from_output(out);
    assert_eq!(units, vec!["cron.service", "sshd.service", "\u{fffd}bad.service"]);
    assert!(see::workspace::services_from_output(b"").is_empty());
}

#[test]
fn toggling_twice_restores_the_buffers() {
    let mut w = Workspace::new();
    let visible = services();
    w.handle_key(KeyInput::plain(KeyCode::Enter), Some(2), &visible);
    let a = w.handle_key(KeyInput::plain(KeyCode::Enter), Some(0), &visible);
    assert_eq!(a.change, BufferChange::Opened);
    let a = w.handle_key(KeyInput::plain(KeyCode::Enter), Some(0), &visible);
    assert_eq!(a.change, BufferChange::Removed { index: 1, dispose: false });
    assert_eq!(w.buffers.len(), 1);
    assert_eq!(w.buffers[0].unit, "systemd-journald.service");
    assert_eq!(w.owner, InputOwner::SERVICEList);
}

#[test]
fn search_change_selects_the_first_service() {
    assert_eq!(see::workspace::service_selection_after_search(true, Some(4)), Some(0));
    assert_eq!(see::workspace::service_selection_after_search(true, None), Some(0));
    assert_eq!(see::workspace::service_selection_after_search(false, Some(4)), Some(4));
    assert_eq!(see::workspace::service_selection_after_search(false, None), None);
}
