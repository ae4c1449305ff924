//! Moving the selection of a list, the way `ratatui::widgets::ListState` moves it
//! before the list is drawn (drawing later clamps the index to the list).
use vstd::prelude::*;

verus! {

/// A move of a list's selection asked for by a key.
#[derive(Clone, Copy, Debug, PartialEq, Eq, Structural)]
pub enum ListMove {
    /// Leave the selection alone.
    Stay,
    /// Select the previous item, this many times.
    Previous(usize),
    /// Select the next item, this many times.
    Next(usize),
    /// Select the first item.
    First,
    /// Select the last item.
    Last,
    /// Select the item at this index.
    To(usize),
}

/// `ListState::select_next`: the item after the selected one, or the first.
pub open spec fn next_of(sel: Option<usize>) -> Option<usize> {
    match sel {
        Some(i) => Some(if i == usize::MAX { usize::MAX } else { (i + 1) as usize }),
        None => Some(0),
    }
}

/// `ListState::select_previous`: the item before the selected one, or the last.
pub open spec fn previous_of(sel: Option<usize>) -> Option<usize> {
    match sel {
        Some(i) => Some(if i == 0 { 0 } else { (i - 1) as usize }),
        None => Some(usize::MAX),
    }
}

/// `next_of` applied `n` times.
pub open spec fn next_n(sel: Option<usize>, n: nat) -> Option<usize>
    decreases n,
{
    if n == 0 {
        sel
    } else {
        next_n(next_of(sel), (n - 1) as nat)
    }
}

/// `previous_of` applied `n` times.
pub open spec fn previous_n(sel: Option<usize>, n: nat) -> Option<usize>
    decreases n,
{
    if n == 0 {
        sel
    } else {
        previous_n(previous_of(sel), (n - 1) as nat)
    }
}

/// The selection after move `m` from `sel`.
pub open spec fn moved(sel: Option<usize>, m: ListMove) -> Option<usize> {
    match m {
        ListMove::Stay => sel,
        ListMove::Previous(n) => previous_n(sel, n as nat),
        ListMove::Next(n) => next_n(sel, n as nat),
        ListMove::First => Some(0),
        ListMove::Last => Some(usize::MAX),
        ListMove::To(i) => Some(i),
    }
}

/// The selection after move `m` from `sel`.
pub fn apply_move(sel: Option<usize>, m: ListMove) -> (r: Option<usize>)
    ensures
        r == moved(sel, m),
{
    match m {
        ListMove::Stay => sel,
        ListMove::Previous(n) => {
            let mut s = sel;
            let mut k: usize = 0;
            while k < n
                invariant
                    k <= n,
                    previous_n(s, (n - k) as nat) == previous_n(sel, n as nat),
                decreases n - k,
            {
                s = match s {
                    Some(i) => Some(i.saturating_sub(1)),
                    None => Some(usize::MAX),
                };
                k += 1;
            }
            s
        },
        ListMove::Next(n) => {
            let mut s = sel;
            let mut k: usize = 0;
            while k < n
                invariant
                    k <= n,
                    next_n(s, (n - k) as nat) == next_n(sel, n as nat),
                decreases n - k,
            {
                s = match s {
                    Some(i) => Some(i.saturating_add(1)),
                    None => Some(0),
                };
                k += 1;
            }
            s
        },
        ListMove::First => Some(0),
        ListMove::Last => Some(usize::MAX),
        ListMove::To(i) => Some(i),
    }
}

/// Where a list of `total` items shown in `height` rows goes when new items arrive:
/// the last item is selected and the view is scrolled so that it ends with it.
pub fn follow_tail(total: usize, height: usize) -> (r: (usize, usize))
    ensures
        r.0 == if total == 0 { 0 } else { total - 1 },
        r.1 == if total > height { total - height } else { 0 },
{
    let last_idx = total.saturating_sub(1);
    let offset = if total > height {
        total - height
    } else {
        0
    };
    (last_idx, offset)
}

} // verus!
