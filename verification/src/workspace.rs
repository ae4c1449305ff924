//! The whole screen of the first layout: the list of services on the left, one log
//! widget (buffer) per opened service on the right, and the keys that open, close and
//! switch between them.
use vstd::prelude::*;
use crate::keys::{KeyCode, KeyInput};
use crate::list_nav::{ListMove, moved};
use crate::see_tui::{SEETui, InputMode, WidgetAction, fresh_widget, refocused, run_widget_result, is_up};
use crate::text::{strip_all, strip_all_str, contains_seq, lowercase, to_lowercase, str_contains, string_push, chars_of, decode_lossy, lossy_text, lines_of, split_lines};

verus! {

/// The command line: the units to open at start.
pub struct Args {
    pub unit: Vec<String>,
}

/// Which part of the screen has the keyboard.
#[derive(Clone, Copy, Debug, PartialEq, Eq, Structural)]
pub enum InputOwner {
    BUFFERS,
    SERVICESearch,
    SERVICEList,
}

/// How a key changed the list of buffers.
#[derive(Clone, Copy, Debug, PartialEq, Eq, Structural)]
pub enum BufferChange {
    Unchanged,
    /// A buffer was added at the end.
    Opened,
    /// The buffer at `index` was removed; `dispose` says whether its reading stops.
    Removed { index: usize, dispose: bool },
}

/// What the screen's loop does after a key.
pub struct WorkspaceAction {
    /// Leave the program.
    pub quit: bool,
    /// The key to hand on to the widgets, if any.
    pub pass_key: Option<KeyInput>,
    /// Go straight to the next frame.
    pub skip_frame: bool,
    /// Move of the service list.
    pub services: ListMove,
    pub change: BufferChange,
}

/// The state of the screen apart from drawing: who has the keyboard, which buffer is
/// selected, whether the service search box has the keyboard, and the buffers.
pub struct Workspace {
    pub owner: InputOwner,
    pub selected_buffer: usize,
    pub search_focused: bool,
    pub buffers: Vec<SEETui>,
}

/// The state of the screen as a value.
pub struct WorkspaceState {
    pub owner: InputOwner,
    pub selected_buffer: usize,
    pub search_focused: bool,
    pub buffers: Seq<SEETui>,
}

impl Workspace {
    /// The state of the screen as a value.
    pub open spec fn state(&self) -> WorkspaceState {
        WorkspaceState {
            owner: self.owner,
            selected_buffer: self.selected_buffer,
            search_focused: self.search_focused,
            buffers: self.buffers@,
        }
    }
}

/// The action that does nothing.
pub open spec fn no_action() -> WorkspaceAction {
    WorkspaceAction {
        quit: false,
        pass_key: None,
        skip_frame: false,
        services: ListMove::Stay,
        change: BufferChange::Unchanged,
    }
}

/// The first buffer of `unit`, if any.
pub open spec fn buffer_of(bufs: Seq<SEETui>, unit: Seq<char>) -> Option<int>
    decreases bufs.len(),
{
    if bufs.len() == 0 {
        None
    } else if bufs.last().unit@ == unit {
        match buffer_of(bufs.drop_last(), unit) {
            Some(i) => Some(i),
            None => Some(bufs.len() - 1),
        }
    } else {
        buffer_of(bufs.drop_last(), unit)
    }
}

/// The buffers after Alt+digit selects buffer `pos`: all of them unfocused but that one,
/// whose log list is selected.
pub open spec fn focus_only(bufs: Seq<SEETui>, pos: int) -> Seq<SEETui> {
    Seq::new(
        bufs.len(),
        |i: int|
            SEETui {
                inputstate: if i == pos {
                    InputMode::SelectLog
                } else {
                    InputMode::Unfocused
                },
                ..bufs[i]
            },
    )
}

/// The index (as a wide number) that Alt+`c` selects: the digit minus one, with 0
/// wrapping round to `u32::MAX`.
pub open spec fn alt_index(c: char) -> int {
    let d = (c as int) - ('0' as int);
    if d == 0 {
        u32::MAX as int
    } else {
        d - 1
    }
}

/// Whether `key` in state `s` reads the selected entry of the service list.
pub open spec fn reads_service(s: WorkspaceState, key: KeyInput) -> bool {
    &&& !(key.ctrl && key.code == KeyCode::Char('q'))
    &&& !key.alt
    &&& !key.ctrl
    &&& (s.owner == InputOwner::SERVICESearch && key.code == KeyCode::Enter || s.owner
        == InputOwner::SERVICEList && (key.code == KeyCode::Enter || key.code == KeyCode::Char(
        'x',
    )))
}

/// The buffers and change after Enter on service `name` from the search box: an open
/// buffer of it is closed, otherwise one is opened.
pub open spec fn toggle_from_search(s: WorkspaceState, name: String, key: KeyInput) -> (WorkspaceState, WorkspaceAction) {
    match buffer_of(s.buffers, name@) {
        Some(m) => {
            let bufs = s.buffers.remove(m);
            (
                WorkspaceState {
                    buffers: bufs,
                    selected_buffer: if bufs.len() == 0 { 0 } else { (bufs.len() - 1) as usize },
                    ..s
                },
                WorkspaceAction {
                    pass_key: Some(key),
                    change: BufferChange::Removed { index: m as usize, dispose: true },
                    ..no_action()
                },
            )
        },
        None => {
            let bufs = s.buffers.push(fresh_widget(name));
            (
                WorkspaceState {
                    buffers: bufs,
                    selected_buffer: (bufs.len() - 1) as usize,
                    search_focused: false,
                    owner: InputOwner::BUFFERS,
                },
                WorkspaceAction { pass_key: Some(key), change: BufferChange::Opened, ..no_action() },
            )
        },
    }
}

/// The buffers and change after Enter or `x` on service `name` in the service list: an
/// open buffer of it is removed (its reading is not stopped), otherwise one is opened.
pub open spec fn toggle_from_list(s: WorkspaceState, name: String) -> (WorkspaceState, WorkspaceAction) {
    match buffer_of(s.buffers, name@) {
        Some(m) => (
            WorkspaceState { buffers: s.buffers.remove(m), ..s },
            WorkspaceAction {
                change: BufferChange::Removed { index: m as usize, dispose: false },
                ..no_action()
            },
        ),
        None => (
            WorkspaceState { buffers: s.buffers.push(fresh_widget(name)), ..s },
            WorkspaceAction { change: BufferChange::Opened, ..no_action() },
        ),
    }
}

/// The screen after `key`, with `sel` the selected line of the service list showing
/// `visible`.
pub open spec fn step_result(
    s: WorkspaceState,
    key: KeyInput,
    sel: Option<usize>,
    visible: Seq<String>,
) -> (WorkspaceState, WorkspaceAction) {
    let c = key.code;
    if key.ctrl && c == KeyCode::Char('q') {
        (s, WorkspaceAction { quit: true, ..no_action() })
    } else if key.alt {
        match c {
            KeyCode::Char(d) => if '0' <= d <= '9' && alt_index(d) < s.buffers.len() {
                (
                    WorkspaceState {
                        owner: InputOwner::BUFFERS,
                        selected_buffer: alt_index(d) as usize,
                        buffers: focus_only(s.buffers, alt_index(d)),
                        ..s
                    },
                    no_action(),
                )
            } else {
                (s, no_action())
            },
            _ => (s, no_action()),
        }
    } else if s.owner == InputOwner::SERVICESearch {
        if key.ctrl && is_up(c) {
            (
                WorkspaceState { owner: InputOwner::SERVICEList, search_focused: false, ..s },
                WorkspaceAction { pass_key: Some(key), ..no_action() },
            )
        } else if key.ctrl && (c == KeyCode::Char('l') || c == KeyCode::Down) {
            let s1 = WorkspaceState { owner: InputOwner::BUFFERS, search_focused: false, ..s };
            if s.selected_buffer < s.buffers.len() {
                let b = s.buffers[s.selected_buffer as int];
                (
                    WorkspaceState {
                        buffers: s.buffers.update(
                            s.selected_buffer as int,
                            refocused(SEETui { inputstate: InputMode::InputFilter, ..b }),
                        ),
                        ..s1
                    },
                    WorkspaceAction { skip_frame: true, ..no_action() },
                )
            } else {
                (s1, WorkspaceAction { pass_key: Some(key), ..no_action() })
            }
        } else if key.ctrl {
            (s, WorkspaceAction { skip_frame: true, ..no_action() })
        } else if c == KeyCode::Enter {
            match sel {
                Some(i) => toggle_from_search(s, visible[i as int], key),
                None => (s, WorkspaceAction { pass_key: Some(key), ..no_action() }),
            }
        } else {
            (s, WorkspaceAction { pass_key: Some(key), ..no_action() })
        }
    } else if s.owner == InputOwner::SERVICEList {
        if !key.ctrl && c == KeyCode::Char('j') {
            (s, WorkspaceAction { services: ListMove::Next(1), ..no_action() })
        } else if !key.ctrl && c == KeyCode::Char('k') {
            (s, WorkspaceAction { services: ListMove::Previous(1), ..no_action() })
        } else if !key.ctrl && (c == KeyCode::Enter || c == KeyCode::Char('x')) {
            match sel {
                Some(i) => toggle_from_list(s, visible[i as int]),
                None => (s, no_action()),
            }
        } else if (key.ctrl && c == KeyCode::Char('j')) || (!key.ctrl && (c == KeyCode::Char('i')
            || c == KeyCode::Char('/'))) {
            (WorkspaceState { owner: InputOwner::SERVICESearch, search_focused: true, ..s }, no_action())
        } else if key.ctrl && c == KeyCode::Char('l') {
            if s.selected_buffer < s.buffers.len() {
                let b = s.buffers[s.selected_buffer as int];
                (
                    WorkspaceState {
                        owner: InputOwner::BUFFERS,
                        search_focused: false,
                        buffers: s.buffers.update(
                            s.selected_buffer as int,
                            SEETui { inputstate: InputMode::SelectLog, ..b },
                        ),
                        ..s
                    },
                    no_action(),
                )
            } else {
                (WorkspaceState { search_focused: false, ..s }, no_action())
            }
        } else {
            (s, no_action())
        }
    } else {
        (s, WorkspaceAction { pass_key: Some(key), ..no_action() })
    }
}

/// `a` and `b` hold the same text.
fn same_text(a: &String, b: &String) -> (r: bool)
    ensures
        r == (a@ == b@),
{
    a.eq(b)
}

/// A copy of `s`.
fn copy_string(s: &String) -> (r: String)
    ensures
        r == *s,
{
    s.clone()
}

impl Workspace {
    /// The screen at start: the service list has the keyboard and there is no buffer.
    pub fn new() -> (r: Workspace)
        ensures
            r.owner == InputOwner::SERVICEList,
            r.selected_buffer == 0,
            !r.search_focused,
            r.buffers@.len() == 0,
    {
        Workspace {
            owner: InputOwner::SERVICEList,
            selected_buffer: 0,
            search_focused: false,
            buffers: Vec::new(),
        }
    }

    /// The first buffer of `unit`, if any.
    pub fn find_buffer(&self, unit: &String) -> (r: Option<usize>)
        ensures
            r matches Some(i) ==> buffer_of(self.buffers@, unit@) == Some(i as int) && i
                < self.buffers@.len(),
            r is None ==> buffer_of(self.buffers@, unit@) is None,
    {
        let mut j: usize = 0;
        let n = self.buffers.len();
        while j < n
            invariant
                j <= n,
                n == self.buffers@.len(),
                buffer_of(self.buffers@.take(j as int), unit@) is None,
            decreases n - j,
        {
            proof {
                assert(self.buffers@.take(j + 1).drop_last() =~= self.buffers@.take(j as int));
            }
            if same_text(&self.buffers[j].unit, unit) {
                proof {
                    lemma_buffer_of_prefix(self.buffers@, unit@, j + 1);
                }
                return Some(j);
            }
            j += 1;
        }
        assert(self.buffers@.take(n as int) =~= self.buffers@);
        None
    }

    /// Sets the mode of buffer `i`.
    fn set_mode(&mut self, i: usize, mode: InputMode, refocus: bool)
        requires
            i < old(self).buffers@.len(),
        ensures
            final(self).buffers@ == old(self).buffers@.update(
                i as int,
                if refocus {
                    refocused(SEETui { inputstate: mode, ..old(self).buffers@[i as int] })
                } else {
                    SEETui { inputstate: mode, ..old(self).buffers@[i as int] }
                },
            ),
            final(self).owner == old(self).owner,
            final(self).selected_buffer == old(self).selected_buffer,
            final(self).search_focused == old(self).search_focused,
    {
        let mut b = self.buffers.remove(i);
        b.inputstate = mode;
        if refocus {
            b.refocus();
        }
        self.buffers.insert(i, b);
        proof {
            assert(self.buffers@ =~= old(self).buffers@.update(
                i as int,
                if refocus {
                    refocused(SEETui { inputstate: mode, ..old(self).buffers@[i as int] })
                } else {
                    SEETui { inputstate: mode, ..old(self).buffers@[i as int] }
                },
            ));
        }
    }

    /// Reacts to `key`; `selected` is the selected line of the service list, which shows
    /// `visible`.  See [`step_result`].
    pub fn handle_key(&mut self, key: KeyInput, selected: Option<usize>, visible: &Vec<String>) -> (r: WorkspaceAction)
        requires
            reads_service(old(self).state(), key) ==> (selected matches Some(i) ==> i
                < visible@.len()),
        ensures
            (final(self).state(), r) == step_result(old(self).state(), key, selected, visible@),
    {
        let c = key.code;
        let mut action = WorkspaceAction {
            quit: false,
            pass_key: None,
            skip_frame: false,
            services: ListMove::Stay,
            change: BufferChange::Unchanged,
        };
        if key.ctrl && c == KeyCode::Char('q') {
            action.quit = true;
            return action;
        }
        if key.alt {
            if let KeyCode::Char(d) = c {
                if '0' <= d && d <= '9' {
                    let digit = (d as u32) - ('0' as u32);
                    let pos = digit.wrapping_sub(1);
                    let pos = pos as usize;
                    assert(pos == alt_index(d));
                    if pos < self.buffers.len() {
                        self.selected_buffer = pos;
                        let n = self.buffers.len();
                        let mut j: usize = 0;
                        while j < n
                            invariant
                                j <= n,
                                n == self.buffers@.len(),
                                n == old(self).buffers@.len(),
                                pos < n,
                                forall|t: int|
                                    0 <= t < j ==> #[trigger] self.buffers@[t] == (SEETui {
                                        inputstate: InputMode::Unfocused,
                                        ..old(self).buffers@[t]
                                    }),
                                forall|t: int| j <= t < n ==> #[trigger] self.buffers@[t] == old(self).buffers@[t],
                                self.owner == old(self).owner,
                                self.search_focused == old(self).search_focused,
                                self.selected_buffer == pos,
                            decreases n - j,
                        {
                            self.set_mode(j, InputMode::Unfocused, false);
                            j += 1;
                        }
                        self.set_mode(pos, InputMode::SelectLog, false);
                        self.owner = InputOwner::BUFFERS;
                        proof {
                            assert(self.buffers@ =~= focus_only(old(self).buffers@, pos as int));
                        }
                    }
                }
            }
            return action;
        }
        let ctrl = key.ctrl;
        match self.owner {
            InputOwner::SERVICESearch => {
                if ctrl && (c == KeyCode::Char('k') || c == KeyCode::Up) {
                    self.owner = InputOwner::SERVICEList;
                    self.search_focused = false;
                    action.pass_key = Some(key);
                } else if ctrl && (c == KeyCode::Char('l') || c == KeyCode::Down) {
                    self.owner = InputOwner::BUFFERS;
                    self.search_focused = false;
                    if self.selected_buffer < self.buffers.len() {
                        self.set_mode(self.selected_buffer, InputMode::InputFilter, true);
                        action.skip_frame = true;
                    } else {
                        action.pass_key = Some(key);
                    }
                } else if ctrl {
                    action.skip_frame = true;
                } else if c == KeyCode::Enter {
                    if let Some(i) = selected {
                        let name = copy_string(&visible[i]);
                        match self.find_buffer(&name) {
                            Some(m) => {
                                self.buffers.remove(m);
                                self.selected_buffer = self.buffers.len().saturating_sub(1);
                                action.change = BufferChange::Removed { index: m, dispose: true };
                            },
                            None => {
                                self.buffers.push(SEETui::new(name));
                                self.selected_buffer = self.buffers.len().saturating_sub(1);
                                self.search_focused = false;
                                self.owner = InputOwner::BUFFERS;
                                action.change = BufferChange::Opened;
                            },
                        }
                    }
                    action.pass_key = Some(key);
                } else {
                    action.pass_key = Some(key);
                }
            },
            InputOwner::SERVICEList => {
                if !ctrl && c == KeyCode::Char('j') {
                    action.services = ListMove::Next(1);
                } else if !ctrl && c == KeyCode::Char('k') {
                    action.services = ListMove::Previous(1);
                } else if !ctrl && (c == KeyCode::Enter || c == KeyCode::Char('x')) {
                    if let Some(i) = selected {
                        let name = copy_string(&visible[i]);
                        match self.find_buffer(&name) {
                            Some(m) => {
                                self.buffers.remove(m);
                                action.change = BufferChange::Removed { index: m, dispose: false };
                            },
                            None => {
                                self.buffers.push(SEETui::new(name));
                                action.change = BufferChange::Opened;
                            },
                        }
                    }
                } else if (ctrl && c == KeyCode::Char('j')) || (!ctrl && (c == KeyCode::Char('i')
                    || c == KeyCode::Char('/'))) {
                    self.owner = InputOwner::SERVICESearch;
                    self.search_focused = true;
                } else if ctrl && c == KeyCode::Char('l') {
                    self.search_focused = false;
                    if self.selected_buffer < self.buffers.len() {
                        self.owner = InputOwner::BUFFERS;
                        self.set_mode(self.selected_buffer, InputMode::SelectLog, false);
                    }
                }
            },
            InputOwner::BUFFERS => {
                action.pass_key = Some(key);
            },
        }
        action
    }
}

/// `buffer_of` finds the first buffer whose unit matches, when it is within the first
/// `j` buffers and the one at `j - 1` matches but no earlier one.
proof fn lemma_buffer_of_prefix(bufs: Seq<SEETui>, unit: Seq<char>, j: int)
    requires
        0 < j <= bufs.len(),
        bufs[j - 1].unit@ == unit,
        buffer_of(bufs.take(j - 1), unit) is None,
    ensures
        buffer_of(bufs, unit) == Some(j - 1),
    decreases bufs.len(),
{
    assert(bufs.take(j).drop_last() =~= bufs.take(j - 1));
    assert(bufs.take(j).last() == bufs[j - 1]);
    assert(buffer_of(bufs.take(j), unit) == Some(j - 1));
    if j < bufs.len() {
        assert(bufs.drop_last().take(j) =~= bufs.take(j));
        assert(bufs.drop_last().take(j - 1) =~= bufs.take(j - 1));
        assert(bufs.drop_last()[j - 1] == bufs[j - 1]);
        lemma_buffer_of_prefix(bufs.drop_last(), unit, j);
    } else {
        assert(bufs.take(j) =~= bufs);
    }
}

/// `.service`
pub open spec fn service_suffix() -> Seq<char> {
    seq!['.', 's', 'e', 'r', 'v', 'i', 'c', 'e']
}

/// The first service whose name, without `.service`, is `unit`.
pub open spec fn service_for(services: Seq<String>, unit: Seq<char>) -> Option<int>
    decreases services.len(),
{
    if services.len() == 0 {
        None
    } else {
        match service_for(services.drop_last(), unit) {
            Some(i) => Some(i),
            None => if strip_all(services.last()@, service_suffix()) == unit {
                Some(services.len() - 1)
            } else {
                None
            },
        }
    }
}

/// The services opened at start for the unit names `args`, in order: for each name,
/// without `.service`, the first service of the same name without `.service`.
pub open spec fn services_for_args(args: Seq<String>, services: Seq<String>) -> Seq<String>
    decreases args.len(),
{
    if args.len() == 0 {
        Seq::empty()
    } else {
        let before = services_for_args(args.drop_last(), services);
        match service_for(services, strip_all(args.last()@, service_suffix())) {
            Some(i) => before.push(services[i]),
            None => before,
        }
    }
}

/// Whether the list of services shows `item` under filter `filter`: every service when
/// the filter is empty, else those whose lower-case name contains the lower-case filter.
pub open spec fn service_shown(item: Seq<char>, filter: Seq<char>) -> bool {
    filter.len() == 0 || contains_seq(lowercase(item), lowercase(filter))
}

/// The services the list shows under filter `filter`, in order.
pub open spec fn shown_services(services: Seq<String>, filter: Seq<char>) -> Seq<String>
    decreases services.len(),
{
    if services.len() == 0 {
        Seq::empty()
    } else {
        let before = shown_services(services.drop_last(), filter);
        if service_shown(services.last()@, filter) {
            before.push(services.last())
        } else {
            before
        }
    }
}

/// The units that `journalctl -F _SYSTEMD_UNIT` lists, one per line of its output
/// `stdout` (read as UTF-8, invalid bytes replaced).
pub fn services_from_output(stdout: &[u8]) -> (r: Vec<String>)
    ensures
        r@.len() == lines_of(lossy_text(stdout@)).len(),
        forall|k: int| 0 <= k < r@.len() ==> #[trigger] r@[k]@ == lines_of(lossy_text(stdout@))[k],
{
    let text = decode_lossy(stdout);
    split_lines(text.as_str())
}

/// The selected line of the service list after the search box was drawn: the first
/// line when the search text changed (the list it filters is then a new one), the
/// same line otherwise.
pub fn service_selection_after_search(text_changed: bool, selected: Option<usize>) -> (r: Option<usize>)
    ensures
        r == if text_changed {
            Some(0usize)
        } else {
            selected
        },
{
    if text_changed {
        Some(0)
    } else {
        selected
    }
}

/// A line of the service list: the service, and whether a buffer of it is open.
pub struct ServiceRow {
    pub name: String,
    pub open: bool,
}

/// The first entry of `services` named `unit` without `.service`.
fn find_service(services: &Vec<String>, unit: &String) -> (r: Option<usize>)
    ensures
        r matches Some(i) ==> service_for(services@, unit@) == Some(i as int) && i < services@.len(),
        r is None ==> service_for(services@, unit@) is None,
{
    let n = services.len();
    let mut j: usize = 0;
    while j < n
        invariant
            j <= n,
            n == services@.len(),
            service_for(services@.take(j as int), unit@) is None,
        decreases n - j,
    {
        let stripped = strip_all_str(services[j].as_str(), ".service");
        proof {
            reveal_strlit(".service");
            assert(".service"@ =~= service_suffix());
            assert(services@.take(j + 1).drop_last() =~= services@.take(j as int));
        }
        if same_text(&stripped, unit) {
            proof {
                lemma_service_for_prefix(services@, unit@, j + 1);
            }
            return Some(j);
        }
        j += 1;
    }
    assert(services@.take(n as int) =~= services@);
    None
}

/// `service_for` finds the first matching service when it is within the first `j`
/// services, the one at `j - 1` matches and no earlier one.
proof fn lemma_service_for_prefix(services: Seq<String>, unit: Seq<char>, j: int)
    requires
        0 < j <= services.len(),
        strip_all(services[j - 1]@, service_suffix()) == unit,
        service_for(services.take(j - 1), unit) is None,
    ensures
        service_for(services, unit) == Some(j - 1),
    decreases services.len(),
{
    assert(services.take(j).drop_last() =~= services.take(j - 1));
    assert(services.take(j).last() == services[j - 1]);
    if j < services.len() {
        assert(services.drop_last().take(j) =~= services.take(j));
        assert(services.drop_last().take(j - 1) =~= services.take(j - 1));
        assert(services.drop_last()[j - 1] == services[j - 1]);
        lemma_service_for_prefix(services.drop_last(), unit, j);
    } else {
        assert(services.take(j) =~= services);
    }
}

impl Workspace {
    /// Opens a buffer for each unit named on the command line that `services` knows
    /// (see [`services_for_args`]); when any buffer is open afterwards, the last one gets
    /// the keyboard with its log list selected.  Returns the services opened, in order.
    pub fn open_args(&mut self, args: &Args, services: &Vec<String>) -> (r: Vec<String>)
        ensures
            r@ == services_for_args(args.unit@, services@),
            final(self).buffers@.len() == old(self).buffers@.len() + r@.len(),
            forall|i: int|
                0 <= i < old(self).buffers@.len() ==> #[trigger] final(self).buffers@[i] == if r@.len()
                    == 0 && i == old(self).buffers@.len() - 1 {
                    SEETui { inputstate: InputMode::SelectLog, ..old(self).buffers@[i] }
                } else {
                    old(self).buffers@[i]
                },
            forall|i: int|
                0 <= i < r@.len() ==> #[trigger] final(self).buffers@[old(self).buffers@.len() + i]
                    == fresh_widget(r@[i]),
            final(self).buffers@.len() > 0 ==> final(self).buffers@.last().inputstate
                == InputMode::SelectLog && final(self).owner == InputOwner::BUFFERS,
            final(self).buffers@.len() == 0 ==> final(self).owner == old(self).owner,
            final(self).selected_buffer == old(self).selected_buffer,
            final(self).search_focused == old(self).search_focused,
    {
        let mut opened: Vec<String> = Vec::new();
        let n = args.unit.len();
        let mut k: usize = 0;
        let ghost start = self.buffers@;
        assert(args.unit@.take(0) =~= Seq::<String>::empty());
        while k < n
            invariant
                k <= n,
                n == args.unit@.len(),
                opened@ == services_for_args(args.unit@.take(k as int), services@),
                self.buffers@.len() == start.len() + opened@.len(),
                forall|i: int| 0 <= i < start.len() ==> #[trigger] self.buffers@[i] == start[i],
                forall|i: int|
                    0 <= i < opened@.len() ==> #[trigger] self.buffers@[start.len() + i] == fresh_widget(opened@[i]),
                self.owner == old(self).owner,
                self.selected_buffer == old(self).selected_buffer,
                self.search_focused == old(self).search_focused,
                start == old(self).buffers@,
            decreases n - k,
        {
            let unit = strip_all_str(args.unit[k].as_str(), ".service");
            proof {
                reveal_strlit(".service");
                assert(".service"@ =~= service_suffix());
                assert(args.unit@.take(k + 1).drop_last() =~= args.unit@.take(k as int));
                assert(args.unit@.take(k + 1).last() == args.unit@[k as int]);
            }
            match find_service(services, &unit) {
                Some(i) => {
                    let name = copy_string(&services[i]);
                    let name2 = copy_string(&services[i]);
                    self.buffers.push(SEETui::new(name));
                    opened.push(name2);
                },
                None => {},
            }
            k += 1;
        }
        assert(args.unit@.take(n as int) =~= args.unit@);
        let len = self.buffers.len();
        if len > 0 {
            let ghost before = self.buffers@;
            self.set_mode(len - 1, InputMode::SelectLog, false);
            self.owner = InputOwner::BUFFERS;
            proof {
                if opened@.len() > 0 {
                    let last = (opened@.len() - 1) as int;
                    assert(before[start.len() + last] == fresh_widget(opened@[last]));
                    assert(self.buffers@ =~= before);
                }
            }
        }
        opened
    }

    /// The lines of the service list under filter `filter` (see [`shown_services`]), each
    /// with whether a buffer of it is open.
    pub fn visible_services(&self, services: &Vec<String>, filter: &str) -> (r: Vec<ServiceRow>)
        ensures
            r@.len() == shown_services(services@, filter@).len(),
            forall|k: int|
                0 <= k < r@.len() ==> #[trigger] r@[k].name == shown_services(services@, filter@)[k]
                    && r@[k].open == buffer_of(self.buffers@, r@[k].name@) is Some,
    {
        let mut rows: Vec<ServiceRow> = Vec::new();
        let lower_filter = to_lowercase(filter);
        let filter_empty = filter.is_empty();
        let n = services.len();
        let mut j: usize = 0;
        assert(services@.take(0) =~= Seq::<String>::empty());
        while j < n
            invariant
                j <= n,
                n == services@.len(),
                lower_filter@ == lowercase(filter@),
                filter_empty == (filter@.len() == 0),
                rows@.len() == shown_services(services@.take(j as int), filter@).len(),
                forall|k: int|
                    0 <= k < rows@.len() ==> #[trigger] rows@[k].name == shown_services(
                        services@.take(j as int),
                        filter@,
                    )[k] && rows@[k].open == buffer_of(self.buffers@, rows@[k].name@) is Some,
            decreases n - j,
        {
            let item = &services[j];
            let shown = if filter_empty {
                true
            } else {
                let lower_item = to_lowercase(item.as_str());
                str_contains(lower_item.as_str(), lower_filter.as_str())
            };
            proof {
                assert(services@.take(j + 1).drop_last() =~= services@.take(j as int));
                assert(services@.take(j + 1).last() == services@[j as int]);
            }
            if shown {
                let open = self.find_buffer(item).is_some();
                let ghost before = rows@;
                rows.push(ServiceRow { name: copy_string(item), open });
                proof {
                    assert forall|k: int| 0 <= k < rows@.len() implies #[trigger] rows@[k].name
                        == shown_services(services@.take(j + 1), filter@)[k] && rows@[k].open
                        == buffer_of(self.buffers@, rows@[k].name@) is Some by {
                        if k < before.len() {
                            assert(rows@[k] == before[k]);
                        }
                    }
                }
            }
            j += 1;
        }
        assert(services@.take(n as int) =~= services@);
        rows
    }

    /// Runs the selected buffer's widget with `key`; when the buffer lets the keyboard
    /// go while the buffers have it, the keyboard goes to the service search box (if the
    /// buffer was last in its filter box, and then the key is used up) or to the service
    /// list.  Returns the widget's action and whether the key was used up.
    pub fn run_selected(&mut self, key: Option<KeyInput>) -> (r: (Option<WidgetAction>, bool))
        ensures
            old(self).selected_buffer >= old(self).buffers@.len() ==> r.0 is None && !r.1
                && final(self).state() == old(self).state(),
            old(self).selected_buffer < old(self).buffers@.len() ==> ({
                let sel = old(self).selected_buffer as int;
                let (b, act) = run_widget_result(old(self).buffers@[sel], key);
                let leave = !act.stay_focus && old(self).owner == InputOwner::BUFFERS;
                let to_search = leave && b.oldinputstate == InputMode::InputFilter;
                &&& r.0 == Some(act)
                &&& r.1 == to_search
                &&& final(self).buffers@ == old(self).buffers@.update(sel, b)
                &&& final(self).selected_buffer == old(self).selected_buffer
                &&& final(self).owner == if to_search {
                    InputOwner::SERVICESearch
                } else if leave {
                    InputOwner::SERVICEList
                } else {
                    old(self).owner
                }
                &&& final(self).search_focused == (to_search || old(self).search_focused)
            }),
    {
        let sel = self.selected_buffer;
        if sel >= self.buffers.len() {
            return (None, false);
        }
        let mut b = self.buffers.remove(sel);
        let act = b.run_widget(key);
        let old_mode = b.oldinputstate;
        self.buffers.insert(sel, b);
        proof {
            assert(self.buffers@ =~= old(self).buffers@.update(sel as int, self.buffers@[sel as int]));
        }
        let mut used = false;
        if !act.stay_focus && self.owner == InputOwner::BUFFERS {
            if old_mode == InputMode::InputFilter {
                self.owner = InputOwner::SERVICESearch;
                self.search_focused = true;
                used = true;
            } else {
                self.owner = InputOwner::SERVICEList;
            }
        }
        (Some(act), used)
    }

    /// The title of each buffer's tab: a note mark and the unit.
    pub fn tab_titles(&self) -> (r: Vec<String>)
        ensures
            r@.len() == self.buffers@.len(),
            forall|k: int| 0 <= k < r@.len() ==> #[trigger] r@[k]@ == seq!['📝'] + self.buffers@[k].unit@,
    {
        let mut titles: Vec<String> = Vec::new();
        let n = self.buffers.len();
        let mut j: usize = 0;
        while j < n
            invariant
                j <= n,
                n == self.buffers@.len(),
                titles@.len() == j,
                forall|k: int| 0 <= k < j ==> #[trigger] titles@[k]@ == seq!['📝'] + self.buffers@[k].unit@,
            decreases n - j,
        {
            let mut t = String::new();
            string_push(&mut t, '📝');
            let cs = chars_of(self.buffers[j].unit.as_str());
            let mut i: usize = 0;
            while i < cs.len()
                invariant
                    i <= cs@.len(),
                    t@ == seq!['📝'] + cs@.take(i as int),
                decreases cs@.len() - i,
            {
                string_push(&mut t, cs[i]);
                assert(t@ =~= seq!['📝'] + cs@.take(i + 1));
                i += 1;
            }
            assert(cs@.take(cs@.len() as int) =~= cs@);
            titles.push(t);
            j += 1;
        }
        titles
    }

    /// The header of the screen: `BUFFERS::` and the mode of the selected buffer
    /// (`unknown` when there is none) while the buffers have the keyboard, else the name
    /// of the part that has it.
    pub fn header_label(&self) -> (r: (&'static str, &'static str))
        ensures
            self.owner == InputOwner::BUFFERS ==> r.0@ == "BUFFERS::"@ && r.1@ == (if self.selected_buffer
                < self.buffers@.len() {
                mode_name(self.buffers@[self.selected_buffer as int].inputstate)
            } else {
                "unknown"@
            }),
            self.owner != InputOwner::BUFFERS ==> r.0@ == owner_name(self.owner) && r.1@.len() == 0,
    {
        if self.owner == InputOwner::BUFFERS {
            let mode = if self.selected_buffer < self.buffers.len() {
                mode_label(self.buffers[self.selected_buffer].inputstate)
            } else {
                "unknown"
            };
            ("BUFFERS::", mode)
        } else {
            proof {
                reveal_strlit("");
            }
            (owner_label(self.owner), "")
        }
    }
}

/// The name of a mode, as it is written in the header.
pub open spec fn mode_name(m: InputMode) -> Seq<char> {
    match m {
        InputMode::InputFilter => "InputFilter"@,
        InputMode::InputFrom => "InputFrom"@,
        InputMode::InputTo => "InputTo"@,
        InputMode::SelectLog => "SelectLog"@,
        InputMode::Unfocused => "Unfocused"@,
    }
}

/// The name of a part of the screen, as it is written in the header.
pub open spec fn owner_name(o: InputOwner) -> Seq<char> {
    match o {
        InputOwner::BUFFERS => "BUFFERS"@,
        InputOwner::SERVICESearch => "SERVICESearch"@,
        InputOwner::SERVICEList => "SERVICEList"@,
    }
}

/// The name of a mode, as it is written in the header.
pub fn mode_label(m: InputMode) -> (r: &'static str)
    ensures
        r@ == mode_name(m),
{
    match m {
        InputMode::InputFilter => "InputFilter",
        InputMode::InputFrom => "InputFrom",
        InputMode::InputTo => "InputTo",
        InputMode::SelectLog => "SelectLog",
        InputMode::Unfocused => "Unfocused",
    }
}

/// The name of a part of the screen, as it is written in the header.
pub fn owner_label(o: InputOwner) -> (r: &'static str)
    ensures
        r@ == owner_name(o),
{
    match o {
        InputOwner::BUFFERS => "BUFFERS",
        InputOwner::SERVICESearch => "SERVICESearch",
        InputOwner::SERVICEList => "SERVICEList",
    }
}

/// No two buffers show the same unit.
pub open spec fn units_distinct(bufs: Seq<SEETui>) -> bool {
    forall|i: int, j: int| 0 <= i < j < bufs.len() ==> bufs[i].unit@ != bufs[j].unit@
}

/// `buffer_of` finds nothing exactly when no buffer shows the unit, and what it finds
/// shows the unit.
proof fn lemma_buffer_of_facts(bufs: Seq<SEETui>, unit: Seq<char>)
    ensures
        buffer_of(bufs, unit) is None <==> (forall|i: int|
            0 <= i < bufs.len() ==> #[trigger] bufs[i].unit@ != unit),
        buffer_of(bufs, unit) matches Some(m) ==> 0 <= m < bufs.len() && bufs[m].unit@ == unit,
    decreases bufs.len(),
{
    if bufs.len() > 0 {
        lemma_buffer_of_facts(bufs.drop_last(), unit);
        assert forall|i: int| 0 <= i < bufs.len() - 1 implies bufs.drop_last()[i] == bufs[i] by {}
        if buffer_of(bufs, unit) is None {
            assert forall|i: int| 0 <= i < bufs.len() implies #[trigger] bufs[i].unit@ != unit by {
                if i < bufs.len() - 1 {
                    assert(bufs.drop_last()[i] == bufs[i]);
                }
            }
        }
    }
}

/// Removing a buffer keeps the units of the others apart.
proof fn lemma_remove_keeps_distinct(bufs: Seq<SEETui>, m: int)
    requires
        units_distinct(bufs),
        0 <= m < bufs.len(),
    ensures
        units_distinct(bufs.remove(m)),
{
    let r = bufs.remove(m);
    assert forall|i: int, j: int| 0 <= i < j < r.len() implies r[i].unit@ != r[j].unit@ by {
        let i0 = if i < m { i } else { i + 1 };
        let j0 = if j < m { j } else { j + 1 };
        assert(r[i] == bufs[i0]);
        assert(r[j] == bufs[j0]);
    }
}

/// Opening a buffer for a unit that has none keeps the units apart.
proof fn lemma_push_keeps_distinct(bufs: Seq<SEETui>, name: String)
    requires
        units_distinct(bufs),
        buffer_of(bufs, name@) is None,
    ensures
        units_distinct(bufs.push(fresh_widget(name))),
{
    lemma_buffer_of_facts(bufs, name@);
    let r = bufs.push(fresh_widget(name));
    assert forall|i: int, j: int| 0 <= i < j < r.len() implies r[i].unit@ != r[j].unit@ by {
        assert(r[i] == bufs[i]);
        if j < bufs.len() {
            assert(r[j] == bufs[j]);
        }
    }
}

/// A key handled by the screen never gives two buffers the same unit: opening from the
/// service list or the search box happens only for a unit without a buffer.
pub proof fn lemma_handle_key_keeps_units_distinct(
    s: WorkspaceState,
    key: KeyInput,
    sel: Option<usize>,
    visible: Seq<String>,
)
    requires
        units_distinct(s.buffers),
        reads_service(s, key) ==> (sel matches Some(i) ==> i < visible.len()),
    ensures
        units_distinct(step_result(s, key, sel, visible).0.buffers),
{
    let r = step_result(s, key, sel, visible).0.buffers;
    if let Some(i) = sel {
        if reads_service(s, key) {
            let name = visible[i as int];
            lemma_buffer_of_facts(s.buffers, name@);
            match buffer_of(s.buffers, name@) {
                Some(m) => lemma_remove_keeps_distinct(s.buffers, m),
                None => lemma_push_keeps_distinct(s.buffers, name),
            }
        }
    }
    if !reads_service(s, key) || sel is None {
        assert(r.len() == s.buffers.len());
        assert forall|i: int| 0 <= i < r.len() implies #[trigger] r[i].unit == s.buffers[i].unit by {}
    }
}

/// Choosing a service without a buffer twice in the service list opens a buffer for it
/// and closes it again: the screen is as it was.
pub proof fn lemma_list_toggle_twice(
    s: WorkspaceState,
    key: KeyInput,
    i: usize,
    visible: Seq<String>,
)
    requires
        s.owner == InputOwner::SERVICEList,
        key.code == KeyCode::Enter,
        !key.ctrl,
        !key.alt,
        i < visible.len(),
        buffer_of(s.buffers, visible[i as int]@) is None,
    ensures
        step_result(step_result(s, key, Some(i), visible).0, key, Some(i), visible).0 == s,
{
    let name = visible[i as int];
    let s1 = step_result(s, key, Some(i), visible).0;
    assert(s1.buffers == s.buffers.push(fresh_widget(name)));
    assert(s1.buffers.drop_last() =~= s.buffers);
    assert(buffer_of(s1.buffers, name@) == Some(s.buffers.len() as int));
    assert(s1.buffers.remove(s.buffers.len() as int) =~= s.buffers);
}

/// In the service list, a plain `j` moves the selection one line down and a plain `k`
/// one line up, and neither changes the screen; so `j` then `k` comes back to the same
/// line.
pub proof fn lemma_service_list_j_and_k(
    s: WorkspaceState,
    down: KeyInput,
    up: KeyInput,
    sel: Option<usize>,
    visible: Seq<String>,
    i: usize,
)
    requires
        s.owner == InputOwner::SERVICEList,
        down.code == KeyCode::Char('j') && !down.ctrl && !down.alt,
        up.code == KeyCode::Char('k') && !up.ctrl && !up.alt,
    ensures
        step_result(s, down, sel, visible).0 == s,
        step_result(s, up, sel, visible).0 == s,
        i < usize::MAX ==> moved(Some(i), step_result(s, down, sel, visible).1.services) == Some(
            (i + 1) as usize,
        ),
        i > 0 ==> moved(Some(i), step_result(s, up, sel, visible).1.services) == Some(
            (i - 1) as usize,
        ),
        i < usize::MAX ==> moved(
            moved(Some(i), step_result(s, down, sel, visible).1.services),
            step_result(s, up, sel, visible).1.services,
        ) == Some(i),
{
    reveal_with_fuel(crate::list_nav::next_n, 2);
    reveal_with_fuel(crate::list_nav::previous_n, 2);
}

/// The services the list shows under `filter` are, in their order, exactly those whose
/// lower-cased name contains the lower-cased filter (all of them under an empty filter).
pub proof fn lemma_service_search_ignores_case(services: Seq<String>, filter: Seq<char>)
    ensures
        shown_services(services, filter) == services.filter(
            |x: String| filter.len() == 0 || contains_seq(lowercase(x@), lowercase(filter)),
        ),
    decreases services.len(),
{
    let pred = |x: String| filter.len() == 0 || contains_seq(lowercase(x@), lowercase(filter));
    reveal(Seq::filter);
    if services.len() > 0 {
        lemma_service_search_ignores_case(services.drop_last(), filter);
        assert(services.filter(pred) == if pred(services.last()) {
            services.drop_last().filter(pred).push(services.last())
        } else {
            services.drop_last().filter(pred)
        });
    } else {
        assert(services.filter(pred) == services);
    }
}

/// Two service names that lower-case alike are shown or hidden together, whatever the
/// filter: the search does not see the case of letters.
pub proof fn lemma_search_same_for_case_variants(a: String, b: String, filter: Seq<char>)
    requires
        lowercase(a@) == lowercase(b@),
    ensures
        shown_services(seq![a], filter).len() == shown_services(seq![b], filter).len(),
{
    lemma_service_search_ignores_case(seq![a], filter);
    lemma_service_search_ignores_case(seq![b], filter);
    assert(seq![a].drop_last() =~= Seq::<String>::empty());
    assert(seq![b].drop_last() =~= Seq::<String>::empty());
}

} // verus!
