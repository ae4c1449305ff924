//! The bookkeeping of a journal reader: the lines read so far, each with the cursor of
//! its entry, handed from the reading task to the widget.
use vstd::prelude::*;
use crate::line_format::LogLine;
use crate::scan::{Batch, Emit, EntryFields, plan_within, shift_plan, shift_emit, MessageFilter, TimeWindow, read_batch, reading_plan, planned_cursor, planned_line, batch_printable_from};

verus! {

/// Lines of the log list with the cursors of their entries (an empty cursor for a
/// banner line).
pub struct LogBuffer {
    pub cursors: Vec<String>,
    pub lines: Vec<LogLine>,
}

impl LogBuffer {
    /// Every line has its cursor.
    pub open spec fn wf(&self) -> bool {
        self.cursors@.len() == self.lines@.len()
    }

    /// An empty buffer.
    pub fn new() -> (r: LogBuffer)
        ensures
            r.cursors@.len() == 0,
            r.lines@.len() == 0,
            r.wf(),
    {
        LogBuffer { cursors: Vec::new(), lines: Vec::new() }
    }

    /// Adds the lines and cursors of a pass of the reading loop, unless it found no line.
    pub fn extend_batch(&mut self, cursors: Vec<String>, lines: Vec<LogLine>)
        requires
            cursors@.len() == lines@.len(),
        ensures
            lines@.len() == 0 ==> final(self).cursors@ == old(self).cursors@
                && final(self).lines@ == old(self).lines@,
            lines@.len() > 0 ==> final(self).cursors@ == old(self).cursors@ + cursors@
                && final(self).lines@ == old(self).lines@ + lines@,
            old(self).wf() ==> final(self).wf(),
    {
        if lines.len() > 0 {
            let mut c = cursors;
            let mut l = lines;
            self.cursors.append(&mut c);
            self.lines.append(&mut l);
        }
    }

    /// Moves every line of `self` to the end of `target`; returns whether there was any.
    pub fn drain_into(&mut self, target: &mut LogBuffer) -> (r: bool)
        ensures
            r == (old(self).lines@.len() > 0),
            r ==> final(target).cursors@ == old(target).cursors@ + old(self).cursors@
                && final(target).lines@ == old(target).lines@ + old(self).lines@
                && final(self).cursors@.len() == 0 && final(self).lines@.len() == 0,
            !r ==> final(target).cursors@ == old(target).cursors@ && final(target).lines@
                == old(target).lines@ && final(self).cursors@ == old(self).cursors@
                && final(self).lines@ == old(self).lines@,
            old(self).wf() && old(target).wf() ==> final(self).wf() && final(target).wf(),
    {
        if self.lines.len() == 0 {
            return false;
        }
        target.cursors.append(&mut self.cursors);
        target.lines.append(&mut self.lines);
        true
    }
}

/// Moving the lines of one aligned buffer into another keeps both aligned, and the
/// line at each position of the target keeps the cursor it had before.
pub proof fn lemma_drain_keeps_alignment(
    src_c: Seq<String>,
    src_l: Seq<LogLine>,
    dst_c: Seq<String>,
    dst_l: Seq<LogLine>,
)
    requires
        src_c.len() == src_l.len(),
        dst_c.len() == dst_l.len(),
    ensures
        (dst_c + src_c).len() == (dst_l + src_l).len(),
        forall|k: int| 0 <= k < dst_c.len() ==> (dst_c + src_c)[k] == dst_c[k] && (dst_l + src_l)[k] == dst_l[k],
        forall|k: int| 0 <= k < src_c.len() ==> (dst_c + src_c)[dst_c.len() + k] == src_c[k] && (dst_l + src_l)[dst_l.len() + k] == src_l[k],
{
}

/// A list whose line `k` pairs with cursor `k` the way one pass of the reading loop
/// pairs them: line `k` is what the pass writes for `plan[k]`, and cursor `k` is the
/// cursor of that entry (empty for a banner).
pub open spec fn pairs_with_plan(
    cursors: Seq<String>,
    lines: Seq<LogLine>,
    plan: Seq<Emit>,
    es: Seq<EntryFields>,
) -> bool {
    &&& cursors.len() == plan.len()
    &&& lines.len() == plan.len()
    &&& forall|k: int| 0 <= k < plan.len() ==> #[trigger] cursors[k]@ == planned_cursor(plan[k], es)
    &&& forall|k: int| 0 <= k < plan.len() ==> planned_line(#[trigger] lines[k], plan[k], es)
}

/// Appending the lines of a pass to an aligned list, as the reading task does pass after
/// pass, keeps the list aligned, leaves the earlier lines and cursors in place, and
/// puts each new line next to the cursor of its own entry.
pub proof fn lemma_pass_lands_in_place(
    cursors: Seq<String>,
    lines: Seq<LogLine>,
    new_cursors: Seq<String>,
    new_lines: Seq<LogLine>,
    plan: Seq<Emit>,
    es: Seq<EntryFields>,
)
    requires
        cursors.len() == lines.len(),
        pairs_with_plan(new_cursors, new_lines, plan, es),
    ensures
        (cursors + new_cursors).len() == (lines + new_lines).len(),
        forall|k: int|
            0 <= k < cursors.len() ==> (cursors + new_cursors)[k] == cursors[k] && (lines
                + new_lines)[k] == lines[k],
        pairs_with_plan(
            (cursors + new_cursors).skip(cursors.len() as int),
            (lines + new_lines).skip(lines.len() as int),
            plan,
            es,
        ),
{
    assert((cursors + new_cursors).skip(cursors.len() as int) =~= new_cursors);
    assert((lines + new_lines).skip(lines.len() as int) =~= new_lines);
}

/// Two passes, each pairing its lines with its cursors, pair them over all their
/// entries once appended: the second pass's lines count its entries after the
/// first's.  With [`lemma_pass_lands_in_place`] and `scan::lemma_passes_compose`, the
/// list a reading task fills over its life pairs every line with the cursor of the
/// entry it shows.
pub proof fn lemma_passes_pair_up(
    c1: Seq<String>,
    l1: Seq<LogLine>,
    p1: Seq<Emit>,
    es1: Seq<EntryFields>,
    c2: Seq<String>,
    l2: Seq<LogLine>,
    p2: Seq<Emit>,
    es2: Seq<EntryFields>,
)
    requires
        pairs_with_plan(c1, l1, p1, es1),
        pairs_with_plan(c2, l2, p2, es2),
        plan_within(p1, es1.len() as int),
        plan_within(p2, es2.len() as int),
    ensures
        pairs_with_plan(c1 + c2, l1 + l2, p1 + shift_plan(p2, es1.len() as int), es1 + es2),
{
    let n = es1.len() as int;
    let es = es1 + es2;
    let p = p1 + shift_plan(p2, n);
    assert forall|k: int| 0 <= k < p.len() implies #[trigger] (c1 + c2)[k]@ == planned_cursor(
        p[k],
        es,
    ) && planned_line((l1 + l2)[k], p[k], es) by {
        if k < p1.len() {
            assert(plan_within(p1, n));
            match p1[k] {
                Emit::Banner(j) => {
                    assert(es[j] == es1[j]);
                },
                Emit::Entry(j) => {
                    assert(es[j] == es1[j]);
                },
            }
            assert(p[k] == p1[k]);
            assert((c1 + c2)[k] == c1[k]);
            assert((l1 + l2)[k] == l1[k]);
        } else {
            let k2 = k - p1.len();
            assert(p[k] == shift_emit(p2[k2], n));
            assert((c1 + c2)[k] == c2[k2]);
            assert((l1 + l2)[k] == l2[k2]);
            match p2[k2] {
                Emit::Banner(j) => {
                    assert(es[j + n] == es2[j]);
                },
                Emit::Entry(j) => {
                    assert(es[j + n] == es2[j]);
                },
            }
        }
    }
    assert forall|k: int| 0 <= k < p.len() implies planned_line(#[trigger] (l1 + l2)[k], p[k], es) by {
        assert((c1 + c2)[k]@ == planned_cursor(p[k], es));
    }
}

/// A reader of the journal entries of one unit, as far as it is more than the journal
/// handle: the number and name it was made with.
pub struct reander_instance {
    pub value: u64,
    pub name: String,
}

impl reander_instance {
    /// A reader with number `value` and name `name`.
    pub fn new(value: u64, name: String) -> (r: Self)
        ensures
            r.value == value,
            r.name == name,
    {
        Self { value, name }
    }

    /// The cursors and lines for the `entries` read from the journal, following
    /// processes from none: entries without a time are left out, and a cancelled read
    /// gives nothing.
    pub fn fetch_log_data(
        &mut self,
        window: &TimeWindow,
        filter: &MessageFilter,
        cancelled: bool,
        entries: &Vec<EntryFields>,
    ) -> (r: (Vec<String>, Vec<LogLine>))
        requires
            batch_printable_from(*window, filter.pattern(), true, cancelled, entries@, 0),
        ensures
            ({
                let plan = reading_plan(
                    *window,
                    filter.pattern(),
                    true,
                    cancelled,
                    Seq::empty(),
                    entries@,
                    0,
                );
                &&& r.0@.len() == plan.0.len()
                &&& r.1@.len() == plan.0.len()
                &&& forall|k: int|
                    0 <= k < plan.0.len() ==> #[trigger] r.0@[k]@ == planned_cursor(plan.0[k], entries@)
                &&& forall|k: int|
                    0 <= k < plan.0.len() ==> planned_line(#[trigger] r.1@[k], plan.0[k], entries@)
            }),
            final(self).value == old(self).value,
            final(self).name == old(self).name,
    {
        let b: Batch = read_batch(window, filter, true, cancelled, String::new(), entries);
        (b.cursors, b.lines)
    }
}

} // verus!
