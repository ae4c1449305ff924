//! The log widget of the first layout: a log list with three input boxes (filter,
//! from, to) below it, and the keys that move the focus between them.
use vstd::prelude::*;
use crate::keys::{KeyCode, KeyInput};
use crate::list_nav::ListMove;

verus! {

/// Which part of the log widget has the keyboard.
#[derive(Clone, Copy, Debug, PartialEq, Eq, Structural)]
pub enum InputMode {
    InputFilter,
    InputFrom,
    InputTo,
    SelectLog,
    Unfocused,
}

/// `k` or the up arrow.
pub open spec fn is_up(c: KeyCode) -> bool {
    c == KeyCode::Char('k') || c == KeyCode::Up
}

/// `j` or the down arrow.
pub open spec fn is_down(c: KeyCode) -> bool {
    c == KeyCode::Char('j') || c == KeyCode::Down
}

/// `l` or the right arrow.
pub open spec fn is_right(c: KeyCode) -> bool {
    c == KeyCode::Char('l') || c == KeyCode::Right
}

/// `h` or the left arrow.
pub open spec fn is_left(c: KeyCode) -> bool {
    c == KeyCode::Char('h') || c == KeyCode::Left
}

/// The mode and remembered mode after `key`, from mode `mode` with remembered `old`:
/// Ctrl+up leaves an input box for the list (remembering the box), Ctrl+down goes
/// from the list back to the remembered box (the filter if none), Ctrl+right and
/// Ctrl+left walk filter, from and to, and Ctrl+left from anywhere else leaves the
/// widget (remembering where it was).
pub open spec fn mode_after_key(mode: InputMode, old: InputMode, key: KeyInput) -> (InputMode, InputMode) {
    if !key.ctrl {
        (mode, old)
    } else if is_up(key.code) {
        if mode != InputMode::Unfocused && mode != InputMode::SelectLog {
            (InputMode::SelectLog, mode)
        } else {
            (mode, old)
        }
    } else if is_down(key.code) {
        if mode == InputMode::SelectLog {
            (if old == InputMode::SelectLog { InputMode::InputFilter } else { old }, old)
        } else {
            (mode, old)
        }
    } else if is_right(key.code) {
        if mode == InputMode::InputFilter {
            (InputMode::InputFrom, old)
        } else if mode == InputMode::InputFrom {
            (InputMode::InputTo, old)
        } else {
            (mode, old)
        }
    } else if is_left(key.code) {
        if mode == InputMode::InputFrom {
            (InputMode::InputFilter, old)
        } else if mode == InputMode::InputTo {
            (InputMode::InputFrom, old)
        } else {
            (InputMode::Unfocused, mode)
        }
    } else {
        (mode, old)
    }
}

/// The move of the log list asked for by `key`: without Control, up and down move by
/// one, `g` goes to the first line and `G` to the last.
pub open spec fn list_move_for(key: KeyInput) -> ListMove {
    if key.ctrl {
        ListMove::Stay
    } else if is_up(key.code) {
        ListMove::Previous(1)
    } else if is_down(key.code) {
        ListMove::Next(1)
    } else if key.code == KeyCode::Char('g') {
        ListMove::First
    } else if key.code == KeyCode::Char('G') {
        ListMove::Last
    } else {
        ListMove::Stay
    }
}

/// The box that has the keyboard in `mode`: the filter, from or to box in the input
/// modes, none otherwise.
pub open spec fn focus_of(mode: InputMode) -> (bool, bool, bool) {
    (mode == InputMode::InputFilter, mode == InputMode::InputFrom, mode == InputMode::InputTo)
}

/// What the widget's owner does after a key: the move of the log list, the key to hand
/// to the input boxes (if any), and whether the widget keeps the keyboard.
pub struct WidgetAction {
    pub list: ListMove,
    pub forward: Option<KeyInput>,
    pub stay_focus: bool,
}

/// The widget of `unit` when it is opened.
pub open spec fn fresh_widget(unit: String) -> SEETui {
    SEETui {
        unit,
        filter_focused: false,
        from_focused: false,
        to_focused: false,
        inputstate: InputMode::SelectLog,
        oldinputstate: InputMode::InputFilter,
    }
}

/// `b` with the input box of its mode focused (and no other).
pub open spec fn refocused(b: SEETui) -> SEETui {
    let f = focus_of(b.inputstate);
    SEETui { filter_focused: f.0, from_focused: f.1, to_focused: f.2, ..b }
}

/// The widget and the owner's action after `run_widget(key)` on widget `b`.
pub open spec fn run_widget_result(b: SEETui, key: Option<KeyInput>) -> (SEETui, WidgetAction) {
    match key {
        None => (b, WidgetAction { list: ListMove::Stay, forward: None, stay_focus: true }),
        Some(k) => {
            let (m, o) = mode_after_key(b.inputstate, b.oldinputstate, k);
            (
                refocused(SEETui { inputstate: m, oldinputstate: o, ..b }),
                WidgetAction {
                    list: list_move_for(k),
                    forward: if k.ctrl {
                        None
                    } else {
                        Some(k)
                    },
                    stay_focus: m != InputMode::Unfocused,
                },
            )
        },
    }
}

/// The log widget of one unit, as far as focus is concerned.
pub struct SEETui {
    pub unit: String,
    pub filter_focused: bool,
    pub from_focused: bool,
    pub to_focused: bool,
    pub inputstate: InputMode,
    pub oldinputstate: InputMode,
}

impl SEETui {
    /// The widget of `unit`, with the log list selected and no box focused.
    pub fn new(unit: String) -> (r: SEETui)
        ensures
            r == fresh_widget(unit),
    {
        SEETui {
            unit,
            filter_focused: false,
            from_focused: false,
            to_focused: false,
            inputstate: InputMode::SelectLog,
            oldinputstate: InputMode::InputFilter,
        }
    }

    /// Focuses the input box of the current mode (and no other); returns whether the
    /// widget keeps the keyboard, that is whether it is not unfocused.
    pub fn reformwidgets(&mut self) -> (r: bool)
        ensures
            (final(self).filter_focused, final(self).from_focused, final(self).to_focused)
                == focus_of(old(self).inputstate),
            r == (old(self).inputstate != InputMode::Unfocused),
            *final(self) == refocused(*old(self)),
    {
        let mut stay_focus = true;
        match self.inputstate {
            InputMode::Unfocused => {
                stay_focus = false;
                self.filter_focused = false;
                self.from_focused = false;
                self.to_focused = false;
            },
            InputMode::InputTo => {
                self.filter_focused = false;
                self.from_focused = false;
                self.to_focused = true;
            },
            InputMode::InputFrom => {
                self.filter_focused = false;
                self.from_focused = true;
                self.to_focused = false;
            },
            InputMode::InputFilter => {
                self.filter_focused = true;
                self.from_focused = false;
                self.to_focused = false;
            },
            InputMode::SelectLog => {
                self.filter_focused = false;
                self.from_focused = false;
                self.to_focused = false;
            },
        }
        if self.inputstate == InputMode::Unfocused {
            stay_focus = false;
        }
        stay_focus
    }

    /// Focuses the input box of the current mode.
    pub fn refocus(&mut self)
        ensures
            *final(self) == refocused(*old(self)),
    {
        self.reformwidgets();
    }

    /// Reacts to `key` (if any): updates the mode and the focused box, and says how the
    /// log list moves, which key goes on to the input boxes (keys without Control) and
    /// whether the widget keeps the keyboard.
    pub fn run_widget(&mut self, key: Option<KeyInput>) -> (r: WidgetAction)
        ensures
            (*final(self), r) == run_widget_result(*old(self), key),
    {
        let mut stay_focus = true;
        let mut next_input: Option<KeyInput> = None;
        let mut list = ListMove::Stay;
        if let Some(k) = key {
            let up = k.code == KeyCode::Char('k') || k.code == KeyCode::Up;
            let down = k.code == KeyCode::Char('j') || k.code == KeyCode::Down;
            let right = k.code == KeyCode::Char('l') || k.code == KeyCode::Right;
            let left = k.code == KeyCode::Char('h') || k.code == KeyCode::Left;
            if k.ctrl {
                if up {
                    if self.inputstate != InputMode::Unfocused && self.inputstate != InputMode::SelectLog {
                        self.oldinputstate = self.inputstate;
                        self.inputstate = InputMode::SelectLog;
                    }
                } else if down {
                    if self.inputstate == InputMode::SelectLog {
                        self.inputstate = if self.oldinputstate == InputMode::SelectLog {
                            InputMode::InputFilter
                        } else {
                            self.oldinputstate
                        };
                    }
                } else if right {
                    if self.inputstate == InputMode::InputFilter {
                        self.inputstate = InputMode::InputFrom;
                    } else if self.inputstate == InputMode::InputFrom {
                        self.inputstate = InputMode::InputTo;
                    }
                } else if left {
                    if self.inputstate == InputMode::InputFrom {
                        self.inputstate = InputMode::InputFilter;
                    } else if self.inputstate == InputMode::InputTo {
                        self.inputstate = InputMode::InputFrom;
                    } else {
                        self.oldinputstate = self.inputstate;
                        self.inputstate = InputMode::Unfocused;
                    }
                }
            } else {
                if up {
                    list = ListMove::Previous(1);
                } else if down {
                    list = ListMove::Next(1);
                } else if k.code == KeyCode::Char('g') {
                    list = ListMove::First;
                } else if k.code == KeyCode::Char('G') {
                    list = ListMove::Last;
                }
                next_input = key;
            }
            stay_focus = self.reformwidgets();
        }
        WidgetAction { list, forward: next_input, stay_focus }
    }
}

/// At most one input box has the keyboard, and none outside the input modes.
pub proof fn lemma_focus_exclusive(mode: InputMode)
    ensures
        !(focus_of(mode).0 && focus_of(mode).1),
        !(focus_of(mode).0 && focus_of(mode).2),
        !(focus_of(mode).1 && focus_of(mode).2),
        (mode == InputMode::SelectLog || mode == InputMode::Unfocused) ==> !focus_of(mode).0
            && !focus_of(mode).1 && !focus_of(mode).2,
{
}

/// From an input box, Ctrl+up then Ctrl+down comes back to the same box.
pub proof fn lemma_list_and_back(mode: InputMode, old: InputMode, up: KeyInput, down: KeyInput)
    requires
        mode == InputMode::InputFilter || mode == InputMode::InputFrom || mode == InputMode::InputTo,
        up.ctrl && is_up(up.code),
        down.ctrl && is_down(down.code),
    ensures
        ({
            let m1 = mode_after_key(mode, old, up);
            mode_after_key(m1.0, m1.1, down).0 == mode
        }),
{
}

/// Ctrl+right then Ctrl+left comes back from the filter box and from the from box.
pub proof fn lemma_right_and_back(mode: InputMode, old: InputMode, right: KeyInput, left: KeyInput)
    requires
        mode == InputMode::InputFilter || mode == InputMode::InputFrom,
        right.ctrl && is_right(right.code),
        left.ctrl && is_left(left.code),
    ensures
        ({
            let m1 = mode_after_key(mode, old, right);
            mode_after_key(m1.0, m1.1, left) == (mode, old)
        }),
{
}

} // verus!
