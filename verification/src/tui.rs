//! The log widget of the second layout: a log list with a filter box and two date boxes,
//! a pop-up with the fields of one entry, vi-like counts for jumps, and the keys that
//! move the focus between them.
use vstd::prelude::*;
use crate::keys::{KeyCode, KeyInput};
use crate::list_nav::{ListMove, moved};
use crate::date_input::TuiInputDate;
use crate::reader::LogBuffer;
use crate::number::{parse_usize, parses_usize};
use crate::see_tui::{is_up, is_down, is_left, is_right};
use crate::text::string_push;

verus! {

/// Which part of the log widget has the keyboard.
#[derive(Clone, Copy, Debug, PartialEq, Eq, Structural)]
pub enum InputMode {
    InputFilter,
    InputFrom,
    InputTo,
    SelectLog,
    Unfocused,
    DetailedEntry,
}

/// What a key does to the widget.
pub struct KeyOutcome {
    pub mode: InputMode,
    pub old: InputMode,
    /// Move of the log list.
    pub list: ListMove,
    /// Move of the list of fields in the pop-up.
    pub detail: ListMove,
    /// Copy the selected field of the pop-up.
    pub yank: bool,
    /// Open the pop-up for the selected line.
    pub open: bool,
    /// Hand the key on to the input boxes.
    pub forward: bool,
    /// The digit to add to the count.
    pub digit: Option<char>,
}

/// An ASCII digit key.
pub open spec fn digit_key(c: KeyCode) -> bool {
    match c {
        KeyCode::Char(d) => '0' <= d <= '9',
        _ => false,
    }
}

/// The line a count `G` jumps to: line `n` (counted from 1) for a count `n`, the last
/// line without a count.  A count of 0 wraps round to the last index.
pub open spec fn jump_for(count: Seq<char>) -> ListMove {
    match parses_usize(count) {
        Some(n) => ListMove::To(if n == 0 { usize::MAX } else { (n - 1) as usize }),
        None => ListMove::Last,
    }
}

/// What `key` does in mode `mode` with remembered mode `old` and count `count`.  The
/// rules are tried in this order; the first that applies decides.
pub open spec fn outcome_of(mode: InputMode, old: InputMode, count: Seq<char>, key: KeyInput) -> KeyOutcome {
    let c = key.code;
    let plain = !key.ctrl;
    let base = KeyOutcome {
        mode,
        old,
        list: ListMove::Stay,
        detail: ListMove::Stay,
        yank: false,
        open: false,
        forward: false,
        digit: None,
    };
    if mode == InputMode::SelectLog && is_up(c) && plain {
        KeyOutcome { list: ListMove::Previous(1), ..base }
    } else if mode == InputMode::SelectLog && is_down(c) && plain {
        KeyOutcome { list: ListMove::Next(1), ..base }
    } else if mode == InputMode::DetailedEntry && is_up(c) && plain {
        KeyOutcome { detail: ListMove::Previous(1), ..base }
    } else if mode == InputMode::DetailedEntry && c == KeyCode::Char('y') && plain {
        KeyOutcome { yank: true, ..base }
    } else if digit_key(c) && plain {
        KeyOutcome { digit: Some(c->Char_0), ..base }
    } else if mode == InputMode::DetailedEntry && is_down(c) && plain {
        KeyOutcome { detail: ListMove::Next(1), ..base }
    } else if mode == InputMode::DetailedEntry && c == KeyCode::Char('G') && plain {
        KeyOutcome { detail: ListMove::Last, ..base }
    } else if mode == InputMode::DetailedEntry && c == KeyCode::Char('g') && plain {
        KeyOutcome { detail: ListMove::First, ..base }
    } else if mode == InputMode::SelectLog && c == KeyCode::Enter && plain {
        KeyOutcome { open: true, ..base }
    } else if mode == InputMode::SelectLog && c == KeyCode::Char('g') && plain {
        KeyOutcome { list: ListMove::First, ..base }
    } else if mode == InputMode::SelectLog && c == KeyCode::Char('G') && plain {
        KeyOutcome { list: jump_for(count), ..base }
    } else if mode == InputMode::SelectLog && c == KeyCode::PageUp && plain {
        KeyOutcome { list: ListMove::Previous(10), ..base }
    } else if mode == InputMode::SelectLog && c == KeyCode::PageDown && plain {
        KeyOutcome { list: ListMove::Next(10), ..base }
    } else if is_up(c) && key.ctrl && mode != InputMode::Unfocused && mode != InputMode::SelectLog {
        KeyOutcome { mode: InputMode::SelectLog, old: mode, ..base }
    } else if mode == InputMode::SelectLog && c == KeyCode::Char('t') {
        KeyOutcome { mode: InputMode::InputTo, old: InputMode::SelectLog, ..base }
    } else if mode == InputMode::SelectLog && c == KeyCode::Char('f') {
        KeyOutcome { mode: InputMode::InputFrom, old: InputMode::SelectLog, ..base }
    } else if (mode == InputMode::SelectLog && is_down(c) && key.ctrl) || (mode == InputMode::SelectLog
        && (c == KeyCode::Char('i') || c == KeyCode::Char('/')) && plain) || (mode
        == InputMode::DetailedEntry && (c == KeyCode::Char('q') || c == KeyCode::Esc) && plain) {
        KeyOutcome {
            mode: if mode == InputMode::DetailedEntry {
                InputMode::SelectLog
            } else if old == InputMode::SelectLog {
                InputMode::InputFilter
            } else {
                old
            },
            ..base
        }
    } else if mode == InputMode::InputFilter && is_right(c) && key.ctrl {
        KeyOutcome { mode: InputMode::InputFrom, ..base }
    } else if mode == InputMode::InputFrom && is_right(c) && key.ctrl {
        KeyOutcome { mode: InputMode::InputTo, ..base }
    } else if mode == InputMode::InputFrom && is_left(c) && key.ctrl {
        KeyOutcome { mode: InputMode::InputFilter, ..base }
    } else if mode == InputMode::InputTo && is_left(c) && key.ctrl {
        KeyOutcome { mode: InputMode::InputFrom, ..base }
    } else if is_left(c) && key.ctrl {
        KeyOutcome { mode: InputMode::Unfocused, old: mode, ..base }
    } else {
        KeyOutcome { forward: true, ..base }
    }
}

/// The box that has the keyboard in `mode`: the filter, from or to box in the input
/// modes, none otherwise.
pub open spec fn focus_of(mode: InputMode) -> (bool, bool, bool) {
    (mode == InputMode::InputFilter, mode == InputMode::InputFrom, mode == InputMode::InputTo)
}

/// What the widget's owner does after a key.
pub struct TuiAction {
    /// Move of the log list.
    pub list: ListMove,
    /// Move of the list of fields in the pop-up.
    pub detail: ListMove,
    /// Copy the selected field of the pop-up.
    pub yank: bool,
    /// Open the pop-up for the selected line.
    pub open: bool,
    /// The key to hand to the input boxes, if any.
    pub forward: Option<KeyInput>,
    /// Whether the widget keeps the keyboard.
    pub stay_focus: bool,
}

/// The log widget of one unit.
pub struct SEETui {
    pub unit: String,
    /// Whether the filter box has the keyboard.
    pub filter_focused: bool,
    pub from: TuiInputDate,
    pub to: TuiInputDate,
    pub inputstate: InputMode,
    pub oldinputstate: InputMode,
    /// The lines shown, with the cursors of their entries.
    pub log: LogBuffer,
    /// The count typed before a jump.
    pub meta_motions: String,
}

/// The field `key=value` as the pop-up copies it.
pub open spec fn field_text(key: Seq<char>, value: Seq<char>) -> Seq<char> {
    key + seq!['='] + value
}

impl SEETui {
    /// The widget of `unit`, with the log list selected, empty date boxes and no lines.
    pub fn new(unit: String) -> (r: SEETui)
        ensures
            r.unit == unit,
            r.inputstate == InputMode::SelectLog,
            r.oldinputstate == InputMode::InputFilter,
            !r.filter_focused && !r.from.focused && !r.to.focused,
            r.from.input@.len() == 0 && r.to.input@.len() == 0,
            r.from.title@ == seq!['📅', 'f', 'r', 'o', 'm'],
            r.to.title@ == seq!['📅', 't', 'o'],
            r.from.cursor() == 0 && r.to.cursor() == 0,
            r.from.wf() && r.to.wf(),
            r.log.cursors@.len() == 0 && r.log.lines@.len() == 0,
            r.meta_motions@.len() == 0,
    {
        let mut from_title = String::new();
        let mut to_title = String::new();
        let date_mark = '📅';
        string_push(&mut from_title, date_mark);
        string_push(&mut from_title, 'f');
        string_push(&mut from_title, 'r');
        string_push(&mut from_title, 'o');
        string_push(&mut from_title, 'm');
        string_push(&mut to_title, date_mark);
        string_push(&mut to_title, 't');
        string_push(&mut to_title, 'o');
        SEETui {
            unit,
            filter_focused: false,
            from: TuiInputDate::new(from_title),
            to: TuiInputDate::new(to_title),
            inputstate: InputMode::SelectLog,
            oldinputstate: InputMode::InputFilter,
            log: LogBuffer::new(),
            meta_motions: String::new(),
        }
    }

    /// Focuses the input box of the current mode (and no other); returns whether the
    /// widget keeps the keyboard, that is whether it is not unfocused.
    pub fn reformwidgets(&mut self) -> (r: bool)
        ensures
            (final(self).filter_focused, final(self).from.focused, final(self).to.focused)
                == focus_of(old(self).inputstate),
            r == (old(self).inputstate != InputMode::Unfocused),
            final(self).inputstate == old(self).inputstate,
            final(self).oldinputstate == old(self).oldinputstate,
            final(self).from.input == old(self).from.input,
            final(self).from.character_index == old(self).from.character_index,
            final(self).from.title == old(self).from.title,
            final(self).to.input == old(self).to.input,
            final(self).to.character_index == old(self).to.character_index,
            final(self).to.title == old(self).to.title,
            final(self).unit == old(self).unit,
            final(self).meta_motions == old(self).meta_motions,
            final(self).log == old(self).log,
    {
        let mut stay_focus = true;
        match self.inputstate {
            InputMode::Unfocused => {
                stay_focus = false;
                self.filter_focused = false;
                self.from.focused = false;
                self.to.focused = false;
            },
            InputMode::InputTo => {
                self.filter_focused = false;
                self.from.focused = false;
                self.to.focused = true;
            },
            InputMode::InputFrom => {
                self.filter_focused = false;
                self.from.focused = true;
                self.to.focused = false;
            },
            InputMode::InputFilter => {
                self.filter_focused = true;
                self.from.focused = false;
                self.to.focused = false;
            },
            InputMode::SelectLog | InputMode::DetailedEntry => {
                self.filter_focused = false;
                self.from.focused = false;
                self.to.focused = false;
            },
        }
        if self.inputstate == InputMode::Unfocused {
            stay_focus = false;
        }
        stay_focus
    }

    /// Focuses the input box of the current mode.
    pub fn refocus(&mut self)
        ensures
            (final(self).filter_focused, final(self).from.focused, final(self).to.focused)
                == focus_of(old(self).inputstate),
            final(self).inputstate == old(self).inputstate,
            final(self).oldinputstate == old(self).oldinputstate,
            final(self).unit == old(self).unit,
    {
        self.reformwidgets();
    }

    /// Reacts to `key` (if any): updates the mode, the count and the focused box, and
    /// says what the owner does next (see [`outcome_of`]).  Every key but a digit clears
    /// the count.
    pub fn run_widget(&mut self, key: Option<KeyInput>) -> (r: TuiAction)
        ensures
            final(self).unit == old(self).unit,
            final(self).log == old(self).log,
            final(self).from.input == old(self).from.input,
            final(self).from.character_index == old(self).from.character_index,
            final(self).from.title == old(self).from.title,
            final(self).to.input == old(self).to.input,
            final(self).to.character_index == old(self).to.character_index,
            final(self).to.title == old(self).to.title,
            match key {
                None => {
                    &&& final(self).inputstate == old(self).inputstate
                    &&& final(self).oldinputstate == old(self).oldinputstate
                    &&& final(self).meta_motions@ == old(self).meta_motions@
                    &&& final(self).filter_focused == old(self).filter_focused
                    &&& final(self).from.focused == old(self).from.focused
                    &&& final(self).to.focused == old(self).to.focused
                    &&& r.list == ListMove::Stay && r.detail == ListMove::Stay
                    &&& !r.yank && !r.open && r.forward is None && r.stay_focus
                },
                Some(k) => {
                    let o = outcome_of(
                        old(self).inputstate,
                        old(self).oldinputstate,
                        old(self).meta_motions@,
                        k,
                    );
                    &&& final(self).inputstate == o.mode
                    &&& final(self).oldinputstate == o.old
                    &&& final(self).meta_motions@ == match o.digit {
                        Some(d) => old(self).meta_motions@.push(d),
                        None => Seq::empty(),
                    }
                    &&& (final(self).filter_focused, final(self).from.focused, final(self).to.focused)
                        == focus_of(o.mode)
                    &&& r.list == o.list
                    &&& r.detail == o.detail
                    &&& r.yank == o.yank
                    &&& r.open == o.open
                    &&& r.forward == (if o.forward { Some(k) } else { None })
                    &&& r.stay_focus == (o.mode != InputMode::Unfocused)
                },
            },
    {
        let mut action = TuiAction {
            list: ListMove::Stay,
            detail: ListMove::Stay,
            yank: false,
            open: false,
            forward: None,
            stay_focus: true,
        };
        let k = match key {
            Some(k) => k,
            None => {
                return action;
            },
        };
        let c = k.code;
        let plain = !k.ctrl;
        let mode = self.inputstate;
        let up = c == KeyCode::Char('k') || c == KeyCode::Up;
        let down = c == KeyCode::Char('j') || c == KeyCode::Down;
        let left = c == KeyCode::Char('h') || c == KeyCode::Left;
        let right = c == KeyCode::Char('l') || c == KeyCode::Right;
        let digit: Option<char> = match c {
            KeyCode::Char(d) => if '0' <= d && d <= '9' {
                Some(d)
            } else {
                None
            },
            _ => None,
        };
        let mut keep_meta = false;
        if mode == InputMode::SelectLog && up && plain {
            action.list = ListMove::Previous(1);
        } else if mode == InputMode::SelectLog && down && plain {
            action.list = ListMove::Next(1);
        } else if mode == InputMode::DetailedEntry && up && plain {
            action.detail = ListMove::Previous(1);
        } else if mode == InputMode::DetailedEntry && c == KeyCode::Char('y') && plain {
            action.yank = true;
        } else if digit.is_some() && plain {
            keep_meta = true;
            string_push(&mut self.meta_motions, digit.unwrap());
        } else if mode == InputMode::DetailedEntry && down && plain {
            action.detail = ListMove::Next(1);
        } else if mode == InputMode::DetailedEntry && c == KeyCode::Char('G') && plain {
            action.detail = ListMove::Last;
        } else if mode == InputMode::DetailedEntry && c == KeyCode::Char('g') && plain {
            action.detail = ListMove::First;
        } else if mode == InputMode::SelectLog && c == KeyCode::Enter && plain {
            action.open = true;
        } else if mode == InputMode::SelectLog && c == KeyCode::Char('g') && plain {
            action.list = ListMove::First;
        } else if mode == InputMode::SelectLog && c == KeyCode::Char('G') && plain {
            action.list = match parse_usize(self.meta_motions.as_str()) {
                Some(n) => ListMove::To(n.wrapping_sub(1)),
                None => ListMove::Last,
            };
        } else if mode == InputMode::SelectLog && c == KeyCode::PageUp && plain {
            action.list = ListMove::Previous(10);
        } else if mode == InputMode::SelectLog && c == KeyCode::PageDown && plain {
            action.list = ListMove::Next(10);
        } else if up && k.ctrl && mode != InputMode::Unfocused && mode != InputMode::SelectLog {
            self.oldinputstate = self.inputstate;
            self.inputstate = InputMode::SelectLog;
        } else if mode == InputMode::SelectLog && c == KeyCode::Char('t') {
            self.oldinputstate = InputMode::SelectLog;
            self.inputstate = InputMode::InputTo;
        } else if mode == InputMode::SelectLog && c == KeyCode::Char('f') {
            self.oldinputstate = InputMode::SelectLog;
            self.inputstate = InputMode::InputFrom;
        } else if (mode == InputMode::SelectLog && down && k.ctrl) || (mode == InputMode::SelectLog
            && (c == KeyCode::Char('i') || c == KeyCode::Char('/')) && plain) || (mode
            == InputMode::DetailedEntry && (c == KeyCode::Char('q') || c == KeyCode::Esc) && plain) {
            self.inputstate = if self.inputstate == InputMode::DetailedEntry {
                InputMode::SelectLog
            } else if self.oldinputstate == InputMode::SelectLog {
                InputMode::InputFilter
            } else {
                self.oldinputstate
            };
        } else if mode == InputMode::InputFilter && right && k.ctrl {
            self.inputstate = InputMode::InputFrom;
        } else if mode == InputMode::InputFrom && right && k.ctrl {
            self.inputstate = InputMode::InputTo;
        } else if mode == InputMode::InputFrom && left && k.ctrl {
            self.inputstate = InputMode::InputFilter;
        } else if mode == InputMode::InputTo && left && k.ctrl {
            self.inputstate = InputMode::InputFrom;
        } else if left && k.ctrl {
            self.oldinputstate = self.inputstate;
            self.inputstate = InputMode::Unfocused;
        } else {
            action.forward = key;
        }
        if !keep_meta {
            self.meta_motions = String::new();
        }
        action.stay_focus = self.reformwidgets();
        action
    }

    /// The cursor of the entry on line `selected`, when that line is an entry (not a
    /// banner) of the list: what the pop-up is opened for.
    pub fn cursor_to_open(&self, selected: Option<usize>) -> (r: Option<String>)
        ensures
            r == match selected {
                Some(i) => if i < self.log.cursors@.len() && self.log.cursors@[i as int]@.len() > 0 {
                    Some(self.log.cursors@[i as int])
                } else {
                    None
                },
                None => None,
            },
    {
        match selected {
            Some(i) => {
                if i < self.log.cursors.len() && !self.log.cursors[i].as_str().is_empty() {
                    Some(self.log.cursors[i].clone())
                } else {
                    None
                }
            },
            None => None,
        }
    }

    /// Shows the pop-up, once the entry for it has been found.
    pub fn show_entry(&mut self)
        ensures
            final(self).inputstate == InputMode::DetailedEntry,
            final(self).oldinputstate == old(self).oldinputstate,
            final(self).unit == old(self).unit,
            final(self).log == old(self).log,
    {
        self.inputstate = InputMode::DetailedEntry;
    }

    /// Takes the lines the reader has found since the last call; returns whether there
    /// were any.
    pub fn pull_new_journaldata(&mut self, incoming: &mut LogBuffer) -> (r: bool)
        ensures
            r == (old(incoming).lines@.len() > 0),
            r ==> final(self).log.cursors@ == old(self).log.cursors@ + old(incoming).cursors@
                && final(self).log.lines@ == old(self).log.lines@ + old(incoming).lines@
                && final(incoming).lines@.len() == 0 && final(incoming).cursors@.len() == 0,
            !r ==> final(self).log.cursors@ == old(self).log.cursors@ && final(self).log.lines@
                == old(self).log.lines@ && final(incoming).cursors@ == old(incoming).cursors@
                && final(incoming).lines@ == old(incoming).lines@,
            old(self).log.wf() && old(incoming).wf() ==> final(self).log.wf() && final(incoming).wf(),
            final(self).unit == old(self).unit,
            final(self).filter_focused == old(self).filter_focused,
            final(self).from == old(self).from,
            final(self).to == old(self).to,
            final(self).inputstate == old(self).inputstate,
            final(self).oldinputstate == old(self).oldinputstate,
            final(self).meta_motions == old(self).meta_motions,
    {
        incoming.drain_into(&mut self.log)
    }

    /// Forgets the lines shown, for a new read with other filters.
    pub fn reset_log(&mut self)
        ensures
            final(self).log.cursors@.len() == 0,
            final(self).log.lines@.len() == 0,
            final(self).unit == old(self).unit,
            final(self).inputstate == old(self).inputstate,
            final(self).from == old(self).from,
            final(self).to == old(self).to,
    {
        self.log = LogBuffer::new();
    }
}

/// The text the pop-up copies for field `selected` of `fields`: `key=value`.
pub fn yank_text(fields: &Vec<(String, String)>, selected: Option<usize>) -> (r: Option<String>)
    ensures
        r matches Some(t) ==> (selected matches Some(i) && i < fields@.len() && t@ == field_text(
            fields@[i as int].0@,
            fields@[i as int].1@,
        )),
        r is None ==> (selected matches Some(i) ==> i >= fields@.len()),
{
    match selected {
        Some(i) => {
            if i < fields.len() {
                let (key, value) = &fields[i];
                let mut t = key.clone();
                string_push(&mut t, '=');
                let vs = crate::text::chars_of(value.as_str());
                let ghost start = t@;
                let mut j: usize = 0;
                while j < vs.len()
                    invariant
                        j <= vs@.len(),
                        vs@ == value@,
                        t@ == start + vs@.take(j as int),
                    decreases vs@.len() - j,
                {
                    string_push(&mut t, vs[j]);
                    assert(t@ =~= start + vs@.take(j + 1));
                    j += 1;
                }
                assert(vs@.take(vs@.len() as int) =~= vs@);
                assert(t@ =~= field_text(key@, value@));
                Some(t)
            } else {
                None
            }
        },
        None => None,
    }
}

/// At most one input box has the keyboard, and none outside the input modes.
pub proof fn lemma_focus_exclusive(mode: InputMode)
    ensures
        !(focus_of(mode).0 && focus_of(mode).1),
        !(focus_of(mode).0 && focus_of(mode).2),
        !(focus_of(mode).1 && focus_of(mode).2),
        (mode == InputMode::SelectLog || mode == InputMode::Unfocused || mode
            == InputMode::DetailedEntry) ==> !focus_of(mode).0 && !focus_of(mode).1
            && !focus_of(mode).2,
{
}

/// From an input box, Ctrl+up then Ctrl+down comes back to the same box.
pub proof fn lemma_list_and_back(mode: InputMode, old: InputMode, count: Seq<char>, up: KeyInput, down: KeyInput)
    requires
        mode == InputMode::InputFilter || mode == InputMode::InputFrom || mode == InputMode::InputTo,
        up.ctrl && is_up(up.code),
        down.ctrl && is_down(down.code),
    ensures
        ({
            let o1 = outcome_of(mode, old, count, up);
            outcome_of(o1.mode, o1.old, Seq::empty(), down).mode == mode
        }),
{
}

/// Closing the pop-up with `q` or Esc comes back to the log list, and the remembered
/// mode is kept.
pub proof fn lemma_popup_and_back(old: InputMode, count: Seq<char>, close: KeyInput)
    requires
        !close.ctrl,
        close.code == KeyCode::Char('q') || close.code == KeyCode::Esc,
    ensures
        outcome_of(InputMode::DetailedEntry, old, count, close).mode == InputMode::SelectLog,
        outcome_of(InputMode::DetailedEntry, old, count, close).old == old,
{
}

/// A count followed by `G` jumps to the line of that number.
pub proof fn lemma_count_jump(old: InputMode, count: Seq<char>, n: usize, key: KeyInput)
    requires
        parses_usize(count) == Some(n),
        n > 0,
        key.code == KeyCode::Char('G'),
        !key.ctrl,
    ensures
        outcome_of(InputMode::SelectLog, old, count, key).list == ListMove::To((n - 1) as usize),
{
}

/// On the log list, a plain PageUp moves the selection ten lines up and a plain
/// PageDown ten lines down, and neither leaves the list; so PageDown then PageUp comes
/// back to the same line away from the ends.
pub proof fn lemma_page_keys(
    old: InputMode,
    count: Seq<char>,
    up: KeyInput,
    down: KeyInput,
    i: usize,
)
    requires
        up.code == KeyCode::PageUp && !up.ctrl,
        down.code == KeyCode::PageDown && !down.ctrl,
    ensures
        outcome_of(InputMode::SelectLog, old, count, up).mode == InputMode::SelectLog,
        outcome_of(InputMode::SelectLog, old, count, down).mode == InputMode::SelectLog,
        i >= 10 ==> moved(Some(i), outcome_of(InputMode::SelectLog, old, count, up).list) == Some(
            (i - 10) as usize,
        ),
        i + 10 <= usize::MAX ==> moved(
            Some(i),
            outcome_of(InputMode::SelectLog, old, count, down).list,
        ) == Some((i + 10) as usize),
        i + 10 <= usize::MAX ==> moved(
            moved(Some(i), outcome_of(InputMode::SelectLog, old, count, down).list),
            outcome_of(InputMode::SelectLog, old, count, up).list,
        ) == Some(i),
{
    reveal_with_fuel(crate::list_nav::next_n, 11);
    reveal_with_fuel(crate::list_nav::previous_n, 11);
}

} // verus!
