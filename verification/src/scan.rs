//! Which journal entries make it into the log list: the time window, the message
//! filter (a regular expression, or plain text when the filter is no valid regular
//! expression), and the banner shown when a new process of the unit starts.
use vstd::prelude::*;
use regex::Regex;
use crate::text::{str_contains, contains_seq};
use crate::human_time::{parse_human_time, naive_parses, naive_micros, within_a_day, millis_text, shaped_like, HUMAN_TIME_FORMAT};
use crate::line_format::{LogLine, StyledLine, format_log_line, format_styled_line, instance_text, field_or, class_of, display_message, unit_shown, unit_pid_text};
use vstd::utf8::*;
use vstd::string::StringSliceAdditionalSpecFns;
use crate::log_level::level_of;
use crate::text::sanitize;

verus! {

/// `regex::Regex`, carried through opaquely: nothing inside a value is read.
#[verifier::external_type_specification]
#[verifier::external_body]
pub struct ExRegex(Regex);

/// Whether `regex::Regex::new(pattern)` succeeds.
pub uninterp spec fn regex_compiles(pattern: Seq<char>) -> bool;

/// Whether the regular expression `pattern` matches somewhere in `text`, as
/// `regex::Regex::is_match` answers.
pub uninterp spec fn regex_matches(pattern: Seq<char>, text: Seq<char>) -> bool;

/// A regular expression together with the text it was compiled from.  Values are only
/// made by [`compile_pattern`], so `re` always is the compilation of `pattern`.
pub struct CompiledPattern {
    pattern: String,
    re: Regex,
}

impl CompiledPattern {
    /// The text the expression was compiled from.
    pub closed spec fn source(&self) -> Seq<char> {
        self.pattern@
    }
}

/// Calls `regex::Regex::new(pattern)` and keeps the expression with its source text.
/// The contract claims that success depends on the text alone.
#[verifier::external_body]
fn compile_pattern(pattern: &str) -> (r: Option<CompiledPattern>)
    ensures
        r is Some <==> regex_compiles(pattern@),
        r matches Some(c) ==> c.source() == pattern@,
{
    match Regex::new(pattern) {
        Ok(re) => Some(CompiledPattern { pattern: pattern.to_string(), re }),
        Err(_) => None,
    }
}

/// Calls `regex::Regex::is_match(&c.re, text)`.  The contract claims that the answer
/// depends on the source text of the expression and on `text` alone.
#[verifier::external_body]
fn pattern_is_match(c: &CompiledPattern, text: &str) -> (r: bool)
    ensures
        r == regex_matches(c.source(), text@),
{
    c.re.is_match(text)
}

/// Whether filter text `pattern` lets message `m` through: an empty filter lets every
/// message through; a filter that compiles as a regular expression lets through the
/// messages it matches; any other filter the messages that contain it.
pub open spec fn message_accepted(pattern: Seq<char>, m: Seq<char>) -> bool {
    if pattern.len() == 0 {
        true
    } else if regex_compiles(pattern) {
        regex_matches(pattern, m)
    } else {
        contains_seq(m, pattern)
    }
}

/// The message filter of a log widget.
pub struct MessageFilter {
    text: String,
    regex: Option<CompiledPattern>,
}

impl MessageFilter {
    #[verifier::type_invariant]
    spec fn inv(self) -> bool {
        &&& self.regex is Some <==> (self.text@.len() > 0 && regex_compiles(self.text@))
        &&& self.regex matches Some(c) ==> c.source() == self.text@
    }

    /// The filter text.
    pub closed spec fn pattern(&self) -> Seq<char> {
        self.text@
    }

    /// The filter for the text `filter`, compiled once.
    pub fn new(filter: &str) -> (r: MessageFilter)
        ensures
            r.pattern() == filter@,
    {
        let regex = if !filter.is_empty() {
            compile_pattern(filter)
        } else {
            None
        };
        let text = filter.to_owned();
        MessageFilter { text, regex }
    }

    /// Whether `message` passes the filter.
    pub fn accepts(&self, message: &str) -> (r: bool)
        ensures
            r == message_accepted(self.pattern(), message@),
    {
        proof {
            use_type_invariant(self);
        }
        match &self.regex {
            Some(c) => pattern_is_match(c, message),
            None => {
                if !self.text.as_str().is_empty() {
                    str_contains(message, self.text.as_str())
                } else {
                    true
                }
            },
        }
    }
}

/// The span of time whose entries are shown, in microseconds since the epoch.
#[derive(Clone, Copy, Debug, PartialEq, Eq, Structural)]
pub struct TimeWindow {
    pub from: i64,
    pub to: i64,
}

impl TimeWindow {
    /// The window of the date boxes `from` and `to`: an unreadable or empty `from` is
    /// the epoch, an empty `to` is open ended and an unreadable `to` is the epoch; a
    /// readable box gives its local time, which lies within a day of the time read as
    /// UTC, or the epoch when that local time does not exist or is ambiguous.
    pub fn from_inputs(from: &str, to: &str) -> (r: TimeWindow)
        ensures
            from@.len() == 0 ==> r.from == 0,
            !naive_parses(from@, HUMAN_TIME_FORMAT@) ==> r.from == 0,
            naive_parses(from@, HUMAN_TIME_FORMAT@) ==> r.from == 0 || within_a_day(
                r.from as int,
                naive_micros(from@, HUMAN_TIME_FORMAT@),
            ),
            to@.len() == 0 ==> r.to == i64::MAX,
            to@.len() > 0 && !naive_parses(to@, HUMAN_TIME_FORMAT@) ==> r.to == 0,
            to@.len() > 0 && naive_parses(to@, HUMAN_TIME_FORMAT@) ==> r.to == 0 || within_a_day(
                r.to as int,
                naive_micros(to@, HUMAN_TIME_FORMAT@),
            ),
    {
        let from_us = parse_human_time(from);
        let to_us = if to.is_empty() {
            i64::MAX
        } else {
            parse_human_time(to)
        };
        TimeWindow { from: from_us, to: to_us }
    }
}

/// What the reading loop does with an entry.
#[derive(Clone, Copy, Debug, PartialEq, Eq, Structural)]
pub enum Verdict {
    /// Leave the entry out and go on.
    Skip,
    /// Leave the entry out and stop reading.
    Stop,
    /// Show the entry.
    Keep,
}

/// The raw fields of an entry that the reading loop looks at.
pub struct EntryFields {
    /// The wall-clock time of the entry, in microseconds since the epoch.
    pub wallclock: Option<i64>,
    /// `MESSAGE`
    pub message: Option<String>,
    /// `_SYSTEMD_UNIT`
    pub unit: Option<String>,
    /// `_PID`
    pub pid: Option<String>,
    /// `PRIORITY`
    pub priority: Option<String>,
    /// `__CURSOR`
    pub cursor: Option<String>,
}

/// The verdict on an entry at time `t` whose message passes the filter or not.
pub open spec fn window_verdict(w: TimeWindow, t: i64, accepted: bool) -> Verdict {
    if t < w.from {
        Verdict::Skip
    } else if t > w.to {
        Verdict::Stop
    } else if !accepted {
        Verdict::Skip
    } else {
        Verdict::Keep
    }
}

/// The verdict of the first layout's reading loop: entries without a time are skipped,
/// a cancelled read stops, and otherwise the window and the filter decide.
pub open spec fn listing_verdict(
    w: TimeWindow,
    pattern: Seq<char>,
    wallclock: Option<i64>,
    cancelled: bool,
    message: Seq<char>,
) -> Verdict {
    match wallclock {
        None => Verdict::Skip,
        Some(t) => if cancelled {
            Verdict::Stop
        } else {
            window_verdict(w, t, message_accepted(pattern, message))
        },
    }
}

/// The verdict of the first layout's reading loop on an entry written at `wallclock`
/// with `message`, when the read has or has not been cancelled.
pub fn listing_entry_verdict(
    window: &TimeWindow,
    filter: &MessageFilter,
    wallclock: Option<i64>,
    cancelled: bool,
    message: &str,
) -> (r: Verdict)
    ensures
        r == listing_verdict(*window, filter.pattern(), wallclock, cancelled, message@),
{
    match wallclock {
        None => Verdict::Skip,
        Some(t) => {
            if cancelled {
                return Verdict::Stop;
            }
            if t < window.from {
                return Verdict::Skip;
            }
            if t > window.to {
                return Verdict::Stop;
            }
            if filter.accepts(message) {
                Verdict::Keep
            } else {
                Verdict::Skip
            }
        },
    }
}

/// The text of an optional field, or the empty text.
pub open spec fn opt_text(o: Option<String>) -> Seq<char> {
    match o {
        Some(s) => s@,
        None => Seq::empty(),
    }
}

/// Whether a shown entry with process field `pid` starts a new process after the
/// process `current`: it names a process, and not `current`.
pub open spec fn starts_process(current: Seq<char>, pid: Option<String>) -> bool {
    match pid {
        Some(p) => p@ != current,
        None => false,
    }
}

/// The process the loop follows after showing an entry with process field `pid`.
pub open spec fn next_process(current: Seq<char>, pid: Option<String>) -> Seq<char> {
    match pid {
        Some(p) => p@,
        None => current,
    }
}

/// A line that the second layout's reading loop puts into the list.
pub enum Emit {
    /// The banner for the process of entry `i`.
    Banner(int),
    /// Entry `i` itself.
    Entry(int),
}

/// The lines the second layout's reading loop puts into the list for entries `i..` of
/// `es`, following process `current`, and the process it follows at the end.  An entry
/// without a time counts as written at time 0 when `skip_timeless` is false and is
/// left out when it is true; a cancelled read stops before every entry.
pub open spec fn reading_plan(
    w: TimeWindow,
    pattern: Seq<char>,
    skip_timeless: bool,
    cancelled: bool,
    current: Seq<char>,
    es: Seq<EntryFields>,
    i: int,
) -> (Seq<Emit>, Seq<char>)
    decreases es.len() - i,
{
    if i < 0 || i >= es.len() {
        (Seq::empty(), current)
    } else if cancelled {
        (Seq::empty(), current)
    } else if skip_timeless && es[i].wallclock is None {
        reading_plan(w, pattern, skip_timeless, cancelled, current, es, i + 1)
    } else {
        let t = match es[i].wallclock {
            Some(t) => t,
            None => 0,
        };
        match window_verdict(w, t, message_accepted(pattern, opt_text(es[i].message))) {
            Verdict::Skip => reading_plan(w, pattern, skip_timeless, cancelled, current, es, i + 1),
            Verdict::Stop => (Seq::empty(), current),
            Verdict::Keep => {
                let banner = starts_process(current, es[i].pid);
                let rest = reading_plan(
                    w,
                    pattern,
                    skip_timeless,
                    cancelled,
                    next_process(current, es[i].pid),
                    es,
                    i + 1,
                );
                (
                    (if banner {
                        seq![Emit::Banner(i)]
                    } else {
                        Seq::empty()
                    }) + seq![Emit::Entry(i)] + rest.0,
                    rest.1,
                )
            },
        }
    }
}

/// The cursor recorded for a planned line: none for a banner, the entry's cursor (or
/// the empty text) for an entry.
pub open spec fn planned_cursor(e: Emit, es: Seq<EntryFields>) -> Seq<char> {
    match e {
        Emit::Banner(i) => Seq::empty(),
        Emit::Entry(i) => opt_text(es[i].cursor),
    }
}

/// The time of an entry, 0 when it has none.
pub open spec fn entry_time(e: EntryFields) -> i64 {
    match e.wallclock {
        Some(t) => t,
        None => 0,
    }
}

/// `line` is the list line for planned line `e` (an entry written at time -1 shows as a
/// banner with its message in place of the process id).
pub open spec fn planned_line(line: LogLine, e: Emit, es: Seq<EntryFields>) -> bool {
    match e {
        Emit::Banner(i) => line matches LogLine::Instance { text } && text@ == instance_text(
            field_or(es[i].unit, Seq::empty()),
            opt_text(es[i].pid),
        ),
        Emit::Entry(i) => if entry_time(es[i]) == -1 {
            line matches LogLine::Instance { text } && text@ == instance_text(
                field_or(es[i].unit, Seq::empty()),
                opt_text(es[i].message),
            )
        } else {
            line matches LogLine::Entry { class, message, date, time } && shaped_like(
                date@,
                "99/99/9999"@,
            ) && shaped_like(time@, "99:99:99.999"@) && class == class_of(
                level_of(field_or(es[i].priority, seq!['6'])),
            ) && message@ == sanitize(display_message(opt_text(es[i].message))) && time@.len()
                >= 4 && time@.subrange(time@.len() - 4, time@.len() as int) == millis_text(
                entry_time(es[i]) * 1000,
            )
        },
    }
}

/// The wall-clock time of `e`, if any, is within the range that can be written out.
pub open spec fn time_printable(e: EntryFields) -> bool {
    match e.wallclock {
        Some(t) => -9223372036854775 <= t <= 9223372036854775,
        None => true,
    }
}

/// Every entry that the second layout's reading loop writes out, from entry `i` of `es`
/// on, has a time that can be written out.
pub open spec fn batch_printable_from(
    w: TimeWindow,
    pattern: Seq<char>,
    skip_timeless: bool,
    cancelled: bool,
    es: Seq<EntryFields>,
    i: int,
) -> bool
    decreases es.len() - i,
{
    if i < 0 || i >= es.len() || cancelled {
        true
    } else if skip_timeless && es[i].wallclock is None {
        batch_printable_from(w, pattern, skip_timeless, cancelled, es, i + 1)
    } else {
        match window_verdict(w, entry_time(es[i]), message_accepted(pattern, opt_text(es[i].message))) {
            Verdict::Skip => batch_printable_from(w, pattern, skip_timeless, cancelled, es, i + 1),
            Verdict::Stop => true,
            Verdict::Keep => time_printable(es[i]) && batch_printable_from(
                w,
                pattern,
                skip_timeless,
                cancelled,
                es,
                i + 1,
            ),
        }
    }
}

/// Whether the second layout's reading loop ends its pass at an entry written at
/// `wallclock` (a missing time counts as 0): the entry is not before the window but
/// past it.  The entry itself is read, and then no further one in that pass.
pub fn reading_stops_at(window: &TimeWindow, wallclock: Option<i64>) -> (r: bool)
    ensures
        r == (window_verdict(
            *window,
            match wallclock {
                Some(t) => t,
                None => 0,
            },
            true,
        ) == Verdict::Stop),
{
    let t = match wallclock {
        Some(t) => t,
        None => 0,
    };
    !(t < window.from) && t > window.to
}

/// The result of one pass of the reading loop: the cursors and the lines to add to the
/// list (one cursor per line), and the process followed at the end.
pub struct Batch {
    pub cursors: Vec<String>,
    pub lines: Vec<LogLine>,
    pub pid: String,
}

/// One pass of the second layout's reading loop over `entries`, following process
/// `pid`.  See [`reading_plan`] for which lines it adds.
pub fn read_batch(
    window: &TimeWindow,
    filter: &MessageFilter,
    skip_timeless: bool,
    cancelled: bool,
    pid: String,
    entries: &Vec<EntryFields>,
) -> (r: Batch)
    requires
        batch_printable_from(*window, filter.pattern(), skip_timeless, cancelled, entries@, 0),
    ensures
        ({
            let plan = reading_plan(
                *window,
                filter.pattern(),
                skip_timeless,
                cancelled,
                pid@,
                entries@,
                0,
            );
            &&& r.cursors@.len() == plan.0.len()
            &&& r.lines@.len() == plan.0.len()
            &&& r.pid@ == plan.1
            &&& forall|k: int|
                0 <= k < plan.0.len() ==> #[trigger] r.cursors@[k]@ == planned_cursor(
                    plan.0[k],
                    entries@,
                )
            &&& forall|k: int|
                0 <= k < plan.0.len() ==> planned_line(#[trigger] r.lines@[k], plan.0[k], entries@)
        }),
{
    let ghost w = *window;
    let ghost pat = filter.pattern();
    let ghost es = entries@;
    let ghost total = reading_plan(w, pat, skip_timeless, cancelled, pid@, es, 0);
    let mut cursors: Vec<String> = Vec::new();
    let mut lines: Vec<LogLine> = Vec::new();
    let mut current = pid;
    let ghost mut done: Seq<Emit> = Seq::empty();
    let mut i: usize = 0;
    let n = entries.len();
    if cancelled {
        return Batch { cursors, lines, pid: current };
    }
    while i < n
        invariant_except_break
            !cancelled,
            i <= n,
            n == es.len(),
            es == entries@,
            w == *window,
            pat == filter.pattern(),
            batch_printable_from(w, pat, skip_timeless, cancelled, es, i as int),
            total == reading_plan(w, pat, skip_timeless, cancelled, pid@, es, 0),
            done + reading_plan(w, pat, skip_timeless, cancelled, current@, es, i as int).0
                == total.0,
            reading_plan(w, pat, skip_timeless, cancelled, current@, es, i as int).1 == total.1,
            cursors@.len() == done.len(),
            lines@.len() == done.len(),
            forall|k: int| 0 <= k < done.len() ==> #[trigger] cursors@[k]@ == planned_cursor(done[k], es),
            forall|k: int| 0 <= k < done.len() ==> planned_line(#[trigger] lines@[k], done[k], es),
            forall|k: int| 0 <= k < done.len() ==> (match #[trigger] done[k] {
                Emit::Banner(j) => 0 <= j < n,
                Emit::Entry(j) => 0 <= j < n,
            }),
        ensures
            done == total.0,
            current@ == total.1,
            cursors@.len() == done.len(),
            lines@.len() == done.len(),
            forall|k: int| 0 <= k < done.len() ==> #[trigger] cursors@[k]@ == planned_cursor(done[k], es),
            forall|k: int| 0 <= k < done.len() ==> planned_line(#[trigger] lines@[k], done[k], es),
        decreases n - i,
    {
        let e = &entries[i];
        let ghost rest_before = reading_plan(w, pat, skip_timeless, cancelled, current@, es, i as int);
        if skip_timeless && e.wallclock.is_none() {
            i += 1;
            continue;
        }
        let t = match e.wallclock {
            Some(t) => t,
            None => 0,
        };
        let empty = String::new();
        let message: &str = match &e.message {
            Some(m) => m.as_str(),
            None => empty.as_str(),
        };
        assert(message@ == opt_text(es[i as int].message));
        if t < window.from {
            i += 1;
            continue;
        }
        if t > window.to {
            proof {
                assert(done + Seq::<Emit>::empty() =~= done);
            }
            break;
        }
        if !filter.accepts(message) {
            i += 1;
            continue;
        }
        let ghost before_pid = current@;
        let banner = match &e.pid {
            Some(p) => {
                !string_eq(p, &current)
            },
            None => false,
        };
        assert(banner == starts_process(before_pid, es[i as int].pid));
        if banner {
            let p = e.pid.as_ref().unwrap();
            cursors.push(String::new());
            let banner_line = format_log_line(clone_text(&e.unit), clone_text(&e.priority), -1, p.as_str());
            assert(planned_line(banner_line, Emit::Banner(i as int), es));
            let ghost lines_before = lines@;
            lines.push(banner_line);
            current = p.clone();
            proof {
                assert forall|k: int| 0 <= k < done.len() + 1 implies planned_line(
                    #[trigger] lines@[k],
                    done.push(Emit::Banner(i as int))[k],
                    es,
                ) by {
                    if k < done.len() {
                        assert(lines@[k] == lines_before[k]);
                    }
                }
                done = done.push(Emit::Banner(i as int));
            }
        }
        let cursor = match &e.cursor {
            Some(c) => c.clone(),
            None => String::new(),
        };
        cursors.push(cursor);
        assert(time_printable(es[i as int]));
        let entry_line = format_log_line(clone_text(&e.unit), clone_text(&e.priority), t, message);
        assert(planned_line(entry_line, Emit::Entry(i as int), es));
        let ghost lines_before = lines@;
        lines.push(entry_line);
        proof {
            assert forall|k: int| 0 <= k < done.len() + 1 implies planned_line(
                #[trigger] lines@[k],
                done.push(Emit::Entry(i as int))[k],
                es,
            ) by {
                if k < done.len() {
                    assert(lines@[k] == lines_before[k]);
                }
            }
            done = done.push(Emit::Entry(i as int));
            let rest = reading_plan(w, pat, skip_timeless, cancelled, current@, es, i + 1);
            assert(current@ == next_process(before_pid, es[i as int].pid));
            assert(rest_before.0 =~= (if banner {
                seq![Emit::Banner(i as int)]
            } else {
                Seq::<Emit>::empty()
            }) + seq![Emit::Entry(i as int)] + rest.0);
        }
        i += 1;
    }
    proof {
        assert(done + Seq::<Emit>::empty() =~= done);
    }
    Batch { cursors, lines, pid: current }
}

/// Whether two strings hold the same text.
fn string_eq(a: &String, b: &String) -> (r: bool)
    ensures
        r == (a@ == b@),
{
    a.eq(b)
}

/// A copy of an optional text.
fn clone_text(o: &Option<String>) -> (r: Option<String>)
    ensures
        r == *o,
{
    match o {
        Some(s) => Some(s.clone()),
        None => None,
    }
}

/// The entries `i..` of `es` that the first layout's reading loop shows, by index.
pub open spec fn listing_plan(
    w: TimeWindow,
    pattern: Seq<char>,
    cancelled: bool,
    es: Seq<EntryFields>,
    i: int,
) -> Seq<int>
    decreases es.len() - i,
{
    if i < 0 || i >= es.len() {
        Seq::empty()
    } else {
        match listing_verdict(w, pattern, es[i].wallclock, cancelled, opt_text(es[i].message)) {
            Verdict::Skip => listing_plan(w, pattern, cancelled, es, i + 1),
            Verdict::Stop => Seq::empty(),
            Verdict::Keep => seq![i] + listing_plan(w, pattern, cancelled, es, i + 1),
        }
    }
}

/// Entry `e` can be written out: its time is in range and its unit, when longer than
/// 10 bytes, can be cut after its fourth byte and before its last four.
pub open spec fn entry_printable(e: EntryFields) -> bool {
    &&& match e.wallclock {
        Some(t) => -9223372036854775 <= t <= 9223372036854775,
        None => true,
    }
    &&& match e.unit {
        Some(u) => encode_utf8(u@).len() > 10 ==> is_char_boundary(encode_utf8(u@), 4)
            && is_char_boundary(encode_utf8(u@), encode_utf8(u@).len() - 4),
        None => true,
    }
}

/// Whether the time of `e`, if any, can be written out.
pub fn time_is_printable(e: &EntryFields) -> (r: bool)
    ensures
        r == time_printable(*e),
{
    match e.wallclock {
        Some(t) => -9223372036854775 <= t && t <= 9223372036854775,
        None => true,
    }
}

/// Whether the first layout's line for `e` can be written: its time is within range
/// and a unit longer than 10 bytes can be cut after its first 4 and before its last 4
/// bytes.
pub fn entry_is_printable(e: &EntryFields) -> (r: bool)
    ensures
        r == entry_printable(*e),
{
    let time_ok = time_is_printable(e);
    let unit_ok = match &e.unit {
        Some(u) => {
            let us = u.as_str();
            assert(us.spec_bytes() == encode_utf8(u@));
            let n = us.as_bytes().len();
            let ok = if n > 10 {
                let head = us.is_char_boundary(4);
                let tail = us.is_char_boundary(n - 4);
                head && tail
            } else {
                true
            };
            ok
        },
        None => true,
    };
    time_ok && unit_ok
}

/// Whether every entry that the second layout's reading loop writes out of `entries`
/// has a time that can be written out: the condition [`read_batch`] asks for.
pub fn batch_printable(
    window: &TimeWindow,
    filter: &MessageFilter,
    skip_timeless: bool,
    cancelled: bool,
    entries: &Vec<EntryFields>,
) -> (r: bool)
    ensures
        r == batch_printable_from(*window, filter.pattern(), skip_timeless, cancelled, entries@, 0),
{
    if cancelled {
        return true;
    }
    let n = entries.len();
    let mut i: usize = 0;
    while i < n
        invariant
            !cancelled,
            i <= n,
            n == entries@.len(),
            batch_printable_from(*window, filter.pattern(), skip_timeless, cancelled, entries@, 0)
                == batch_printable_from(
                *window,
                filter.pattern(),
                skip_timeless,
                cancelled,
                entries@,
                i as int,
            ),
        decreases n - i,
    {
        let e = &entries[i];
        if skip_timeless && e.wallclock.is_none() {
            i += 1;
            continue;
        }
        let t = match e.wallclock {
            Some(t) => t,
            None => 0,
        };
        let empty = String::new();
        let message: &str = match &e.message {
            Some(m) => m.as_str(),
            None => empty.as_str(),
        };
        assert(message@ == opt_text(entries@[i as int].message));
        if t < window.from {
            i += 1;
            continue;
        }
        if t > window.to {
            return true;
        }
        if !filter.accepts(message) {
            i += 1;
            continue;
        }
        if !time_is_printable(e) {
            return false;
        }
        i += 1;
    }
    true
}

/// Whether every entry that the first layout's reading loop shows of `entries` can be
/// written out: the condition [`list_entries`] asks for.
pub fn listing_printable(
    window: &TimeWindow,
    filter: &MessageFilter,
    cancelled: bool,
    entries: &Vec<EntryFields>,
) -> (r: bool)
    ensures
        r == listing_printable_from(*window, filter.pattern(), cancelled, entries@, 0),
{
    let n = entries.len();
    let mut i: usize = 0;
    while i < n
        invariant
            i <= n,
            n == entries@.len(),
            listing_printable_from(*window, filter.pattern(), cancelled, entries@, 0)
                == listing_printable_from(*window, filter.pattern(), cancelled, entries@, i as int),
        decreases n - i,
    {
        let e = &entries[i];
        let empty = String::new();
        let message: &str = match &e.message {
            Some(m) => m.as_str(),
            None => empty.as_str(),
        };
        assert(message@ == opt_text(entries@[i as int].message));
        match listing_entry_verdict(window, filter, e.wallclock, cancelled, message) {
            Verdict::Skip => {},
            Verdict::Stop => {
                return true;
            },
            Verdict::Keep => {
                if !entry_is_printable(e) {
                    return false;
                }
            },
        }
        i += 1;
    }
    true
}

/// Every entry that the first layout's reading loop shows, from entry `i` of `es` on,
/// can be written out.
pub open spec fn listing_printable_from(
    w: TimeWindow,
    pattern: Seq<char>,
    cancelled: bool,
    es: Seq<EntryFields>,
    i: int,
) -> bool
    decreases es.len() - i,
{
    if i < 0 || i >= es.len() {
        true
    } else {
        match listing_verdict(w, pattern, es[i].wallclock, cancelled, opt_text(es[i].message)) {
            Verdict::Skip => listing_printable_from(w, pattern, cancelled, es, i + 1),
            Verdict::Stop => true,
            Verdict::Keep => entry_printable(es[i]) && listing_printable_from(
                w,
                pattern,
                cancelled,
                es,
                i + 1,
            ),
        }
    }
}

/// `line` is the first layout's line for entry `e`.
pub open spec fn listed_line(line: StyledLine, e: EntryFields) -> bool {
    &&& line.class == class_of(level_of(field_or(e.priority, seq!['6'])))
    &&& line.message@ == sanitize(display_message(opt_text(e.message)))
    &&& shaped_like(line.timestamp@, "9999-99-99T99:99:99.999"@)
    &&& shaped_like(line.offset@, "±99:99"@)
    &&& line.timestamp@.len() >= 4
    &&& line.timestamp@.subrange(line.timestamp@.len() - 4, line.timestamp@.len() as int)
        == millis_text(entry_time(e) * 1000)
    &&& exists|d: Seq<char>|
        unit_shown(field_or(e.unit, Seq::empty()), d) && line.unit_pid@ == unit_pid_text(
            d,
            field_or(e.pid, seq!['0']),
        )
}

/// The first layout's reading loop over `entries`: the lines of the entries it shows.
/// See [`listing_plan`] for which entries those are.
pub fn list_entries(
    window: &TimeWindow,
    filter: &MessageFilter,
    cancelled: bool,
    entries: &Vec<EntryFields>,
) -> (r: Vec<StyledLine>)
    requires
        listing_printable_from(*window, filter.pattern(), cancelled, entries@, 0),
    ensures
        ({
            let plan = listing_plan(*window, filter.pattern(), cancelled, entries@, 0);
            &&& r@.len() == plan.len()
            &&& forall|k: int| 0 <= k < plan.len() ==> listed_line(#[trigger] r@[k], entries@[plan[k]])
        }),
{
    let ghost w = *window;
    let ghost pat = filter.pattern();
    let ghost es = entries@;
    let ghost total = listing_plan(w, pat, cancelled, es, 0);
    let mut items: Vec<StyledLine> = Vec::new();
    let ghost mut done: Seq<int> = Seq::empty();
    let n = entries.len();
    let mut i: usize = 0;
    while i < n
        invariant_except_break
            i <= n,
            n == es.len(),
            es == entries@,
            w == *window,
            pat == filter.pattern(),
            total == listing_plan(w, pat, cancelled, es, 0),
            done + listing_plan(w, pat, cancelled, es, i as int) == total,
            listing_printable_from(w, pat, cancelled, es, i as int),
            items@.len() == done.len(),
            forall|k: int| 0 <= k < done.len() ==> 0 <= #[trigger] done[k] < n,
            forall|k: int| 0 <= k < done.len() ==> listed_line(#[trigger] items@[k], es[done[k]]),
        ensures
            done == total,
            items@.len() == done.len(),
            forall|k: int| 0 <= k < done.len() ==> listed_line(#[trigger] items@[k], es[done[k]]),
        decreases n - i,
    {
        let e = &entries[i];
        let empty = String::new();
        let message: &str = match &e.message {
            Some(m) => m.as_str(),
            None => empty.as_str(),
        };
        assert(message@ == opt_text(es[i as int].message));
        let verdict = listing_entry_verdict(window, filter, e.wallclock, cancelled, message);
        match verdict {
            Verdict::Skip => {
                i += 1;
            },
            Verdict::Stop => {
                assert(done + Seq::<int>::empty() =~= done);
                break ;
            },
            Verdict::Keep => {
                let t = e.wallclock.unwrap();
                proof {
                    let rest = listing_plan(w, pat, cancelled, es, i + 1);
                    assert(listing_plan(w, pat, cancelled, es, i as int) =~= seq![i as int] + rest);
                    assert(entry_printable(es[i as int]));
                }
                let line = format_styled_line(clone_text(&e.unit), clone_text(&e.pid), clone_text(&e.priority), t, message);
                let ghost items_before = items@;
                items.push(line);
                proof {
                    assert forall|k: int| 0 <= k < done.len() + 1 implies listed_line(
                        #[trigger] items@[k],
                        es[done.push(i as int)[k]],
                    ) by {
                        if k < done.len() {
                            assert(items@[k] == items_before[k]);
                        }
                    }
                    assert(done.push(i as int) + listing_plan(w, pat, cancelled, es, i + 1) =~= done + listing_plan(
                        w,
                        pat,
                        cancelled,
                        es,
                        i as int,
                    ));
                    done = done.push(i as int);
                }
                i += 1;
            },
        }
    }
    assert(done + Seq::<int>::empty() =~= done);
    items
}

/// Every entry the listing shows lies in the time window, passes the message filter
/// and was read with no stop asked; the entries come in the order of the journal.
pub proof fn lemma_listing_shows_only_matches(
    w: TimeWindow,
    pattern: Seq<char>,
    cancelled: bool,
    es: Seq<EntryFields>,
    i: int,
)
    requires
        0 <= i,
    ensures
        forall|k: int|
            0 <= k < listing_plan(w, pattern, cancelled, es, i).len() ==> {
                let j = #[trigger] listing_plan(w, pattern, cancelled, es, i)[k];
                &&& i <= j < es.len()
                &&& !cancelled
                &&& es[j].wallclock matches Some(t) && w.from <= t <= w.to
                &&& message_accepted(pattern, opt_text(es[j].message))
            },
        forall|k1: int, k2: int|
            0 <= k1 < k2 < listing_plan(w, pattern, cancelled, es, i).len() ==> listing_plan(
                w,
                pattern,
                cancelled,
                es,
                i,
            )[k1] < listing_plan(w, pattern, cancelled, es, i)[k2],
    decreases es.len() - i,
{
    if i < es.len() {
        lemma_listing_shows_only_matches(w, pattern, cancelled, es, i + 1);
        let rest = listing_plan(w, pattern, cancelled, es, i + 1);
        match listing_verdict(w, pattern, es[i].wallclock, cancelled, opt_text(es[i].message)) {
            Verdict::Keep => {
                let plan = listing_plan(w, pattern, cancelled, es, i);
                assert(plan =~= seq![i] + rest);
                assert forall|k: int| 0 < k < plan.len() implies plan[k] == rest[k - 1] by {}
                assert forall|k: int| 0 <= k < rest.len() implies i < #[trigger] rest[k] by {}
            },
            _ => {},
        }
    }
}

/// Every entry line the reading loop emits lies in the time window, passes the message
/// filter, has a time when timeless entries are skipped, and was read with no stop
/// asked; a banner is emitted only for an entry with a process id, right before that
/// entry's own line.
pub proof fn lemma_reading_shows_only_matches(
    w: TimeWindow,
    pattern: Seq<char>,
    skip_timeless: bool,
    cancelled: bool,
    current: Seq<char>,
    es: Seq<EntryFields>,
    i: int,
)
    requires
        0 <= i,
    ensures
        ({
            let plan = reading_plan(w, pattern, skip_timeless, cancelled, current, es, i).0;
            &&& forall|k: int|
                0 <= k < plan.len() ==> (#[trigger] plan[k] matches Emit::Entry(j) ==> {
                    &&& i <= j < es.len()
                    &&& !cancelled
                    &&& !(skip_timeless && es[j].wallclock is None)
                    &&& w.from <= entry_time(es[j]) <= w.to
                    &&& message_accepted(pattern, opt_text(es[j].message))
                })
            &&& forall|k: int|
                0 <= k < plan.len() ==> (#[trigger] plan[k] matches Emit::Banner(j) ==> {
                    &&& i <= j < es.len()
                    &&& es[j].pid is Some
                    &&& k + 1 < plan.len()
                    &&& plan[k + 1] == Emit::Entry(j)
                })
        }),
    decreases es.len() - i,
{
    if i < es.len() && !cancelled {
        if skip_timeless && es[i].wallclock is None {
            lemma_reading_shows_only_matches(w, pattern, skip_timeless, cancelled, current, es, i + 1);
        } else {
            let t = entry_time(es[i]);
            match window_verdict(w, t, message_accepted(pattern, opt_text(es[i].message))) {
                Verdict::Skip => {
                    lemma_reading_shows_only_matches(
                        w,
                        pattern,
                        skip_timeless,
                        cancelled,
                        current,
                        es,
                        i + 1,
                    );
                },
                Verdict::Stop => {},
                Verdict::Keep => {
                    let next = next_process(current, es[i].pid);
                    lemma_reading_shows_only_matches(
                        w,
                        pattern,
                        skip_timeless,
                        cancelled,
                        next,
                        es,
                        i + 1,
                    );
                    let rest = reading_plan(w, pattern, skip_timeless, cancelled, next, es, i + 1).0;
                    let plan = reading_plan(w, pattern, skip_timeless, cancelled, current, es, i).0;
                    if starts_process(current, es[i].pid) {
                        assert(plan =~= seq![Emit::Banner(i), Emit::Entry(i)] + rest);
                        assert forall|k: int| 1 < k < plan.len() implies plan[k] == rest[k - 2] by {}
                    } else {
                        assert(plan =~= seq![Emit::Entry(i)] + rest);
                        assert forall|k: int| 0 < k < plan.len() implies plan[k] == rest[k - 1] by {}
                    }
                },
            }
        }
    }
}

/// The lines the second layout's reading loop writes for entries `i..` of `es`,
/// following process `current`, when no pass ends early: every entry that the window
/// and the filter keep, in order, each preceded by a banner when its process is new;
/// an entry past the window is only passed over.  Also the process followed at the end.
pub open spec fn kept_plan(
    w: TimeWindow,
    pattern: Seq<char>,
    skip_timeless: bool,
    current: Seq<char>,
    es: Seq<EntryFields>,
    i: int,
) -> (Seq<Emit>, Seq<char>)
    decreases es.len() - i,
{
    if i < 0 || i >= es.len() {
        (Seq::empty(), current)
    } else if skip_timeless && es[i].wallclock is None {
        kept_plan(w, pattern, skip_timeless, current, es, i + 1)
    } else {
        match window_verdict(w, entry_time(es[i]), message_accepted(pattern, opt_text(es[i].message))) {
            Verdict::Keep => {
                let rest = kept_plan(
                    w,
                    pattern,
                    skip_timeless,
                    next_process(current, es[i].pid),
                    es,
                    i + 1,
                );
                (
                    (if starts_process(current, es[i].pid) {
                        seq![Emit::Banner(i)]
                    } else {
                        Seq::empty()
                    }) + seq![Emit::Entry(i)] + rest.0,
                    rest.1,
                )
            },
            _ => kept_plan(w, pattern, skip_timeless, current, es, i + 1),
        }
    }
}

/// Entry `e` ends a pass of the reading loop: it is read, not before the window but
/// past it.
pub open spec fn ends_pass(w: TimeWindow, skip_timeless: bool, e: EntryFields) -> bool {
    !(skip_timeless && e.wallclock is None) && window_verdict(w, entry_time(e), true)
        == Verdict::Stop
}

/// A line of entry `j` (or its banner) as a line of entry `j + n`.
pub open spec fn shift_emit(e: Emit, n: int) -> Emit {
    match e {
        Emit::Banner(j) => Emit::Banner(j + n),
        Emit::Entry(j) => Emit::Entry(j + n),
    }
}

/// The lines of `plan`, with every entry index moved on by `n`.
pub open spec fn shift_plan(plan: Seq<Emit>, n: int) -> Seq<Emit> {
    Seq::new(plan.len(), |k: int| shift_emit(plan[k], n))
}

/// Every line of `plan` belongs to one of the first `n` entries.
pub open spec fn plan_within(plan: Seq<Emit>, n: int) -> bool {
    forall|k: int|
        0 <= k < plan.len() ==> match #[trigger] plan[k] {
            Emit::Banner(j) => 0 <= j < n,
            Emit::Entry(j) => 0 <= j < n,
        }
}

/// A pass that no entry ends before its last one writes the lines of [`kept_plan`]:
/// ending the pass at its last entry loses nothing, since that entry is past the
/// window.
pub proof fn lemma_pass_is_kept_plan(
    w: TimeWindow,
    pattern: Seq<char>,
    skip_timeless: bool,
    current: Seq<char>,
    es: Seq<EntryFields>,
    i: int,
)
    requires
        0 <= i,
        forall|j: int| i <= j < es.len() - 1 ==> !ends_pass(w, skip_timeless, #[trigger] es[j]),
    ensures
        reading_plan(w, pattern, skip_timeless, false, current, es, i) == kept_plan(
            w,
            pattern,
            skip_timeless,
            current,
            es,
            i,
        ),
    decreases es.len() - i,
{
    if i < es.len() {
        if skip_timeless && es[i].wallclock is None {
            lemma_pass_is_kept_plan(w, pattern, skip_timeless, current, es, i + 1);
        } else {
            let t = entry_time(es[i]);
            let acc = message_accepted(pattern, opt_text(es[i].message));
            match window_verdict(w, t, acc) {
                Verdict::Keep => {
                    lemma_pass_is_kept_plan(
                        w,
                        pattern,
                        skip_timeless,
                        next_process(current, es[i].pid),
                        es,
                        i + 1,
                    );
                },
                Verdict::Skip => {
                    lemma_pass_is_kept_plan(w, pattern, skip_timeless, current, es, i + 1);
                },
                Verdict::Stop => {
                    assert(ends_pass(w, skip_timeless, es[i]));
                    assert(i == es.len() - 1);
                    assert(kept_plan(w, pattern, skip_timeless, current, es, i + 1) == (
                    Seq::<Emit>::empty(), current));
                },
            }
        }
    }
}

/// The lines [`kept_plan`] writes from entry `es1.len() + j` of `es1 + es2` are its
/// lines from entry `j` of `es2`, moved on by `es1.len()`.
proof fn lemma_kept_plan_tail(
    w: TimeWindow,
    pattern: Seq<char>,
    skip_timeless: bool,
    current: Seq<char>,
    es1: Seq<EntryFields>,
    es2: Seq<EntryFields>,
    j: int,
)
    requires
        0 <= j,
    ensures
        ({
            let whole = kept_plan(w, pattern, skip_timeless, current, es1 + es2, es1.len() + j);
            let part = kept_plan(w, pattern, skip_timeless, current, es2, j);
            &&& whole.0 == shift_plan(part.0, es1.len() as int)
            &&& whole.1 == part.1
        }),
    decreases es2.len() - j,
{
    let es = es1 + es2;
    let n = es1.len() as int;
    if j < es2.len() {
        assert(es[n + j] == es2[j]);
        let e = es2[j];
        if skip_timeless && e.wallclock is None {
            lemma_kept_plan_tail(w, pattern, skip_timeless, current, es1, es2, j + 1);
        } else {
            match window_verdict(w, entry_time(e), message_accepted(pattern, opt_text(e.message))) {
                Verdict::Keep => {
                    let next = next_process(current, e.pid);
                    lemma_kept_plan_tail(w, pattern, skip_timeless, next, es1, es2, j + 1);
                    let rest = kept_plan(w, pattern, skip_timeless, next, es2, j + 1).0;
                    let head: Seq<Emit> = if starts_process(current, e.pid) {
                        seq![Emit::Banner(j)]
                    } else {
                        Seq::empty()
                    };
                    assert(shift_plan(head + seq![Emit::Entry(j)] + rest, n) =~= shift_plan(head, n)
                        + seq![Emit::Entry(n + j)] + shift_plan(rest, n));
                    assert(shift_plan(head, n) =~= if starts_process(current, e.pid) {
                        seq![Emit::Banner(n + j)]
                    } else {
                        Seq::<Emit>::empty()
                    });
                },
                _ => {
                    lemma_kept_plan_tail(w, pattern, skip_timeless, current, es1, es2, j + 1);
                },
            }
        }
    } else {
        assert(shift_plan(Seq::<Emit>::empty(), n) =~= Seq::<Emit>::empty());
    }
}

/// The lines [`kept_plan`] writes from entry `i` of `es1 + es2`, for `i` within `es1`.
proof fn lemma_kept_plan_split(
    w: TimeWindow,
    pattern: Seq<char>,
    skip_timeless: bool,
    current: Seq<char>,
    es1: Seq<EntryFields>,
    es2: Seq<EntryFields>,
    i: int,
)
    requires
        0 <= i <= es1.len(),
    ensures
        ({
            let first = kept_plan(w, pattern, skip_timeless, current, es1, i);
            let second = kept_plan(w, pattern, skip_timeless, first.1, es2, 0);
            let whole = kept_plan(w, pattern, skip_timeless, current, es1 + es2, i);
            &&& whole.0 == first.0 + shift_plan(second.0, es1.len() as int)
            &&& whole.1 == second.1
        }),
    decreases es1.len() - i,
{
    let es = es1 + es2;
    if i == es1.len() {
        lemma_kept_plan_tail(w, pattern, skip_timeless, current, es1, es2, 0);
        let second = kept_plan(w, pattern, skip_timeless, current, es2, 0);
        assert(Seq::<Emit>::empty() + shift_plan(second.0, es1.len() as int) =~= shift_plan(
            second.0,
            es1.len() as int,
        ));
    } else {
        assert(es[i] == es1[i]);
        let e = es1[i];
        if skip_timeless && e.wallclock is None {
            lemma_kept_plan_split(w, pattern, skip_timeless, current, es1, es2, i + 1);
        } else {
            match window_verdict(w, entry_time(e), message_accepted(pattern, opt_text(e.message))) {
                Verdict::Keep => {
                    let next = next_process(current, e.pid);
                    lemma_kept_plan_split(w, pattern, skip_timeless, next, es1, es2, i + 1);
                    let first_rest = kept_plan(w, pattern, skip_timeless, next, es1, i + 1);
                    let second = kept_plan(w, pattern, skip_timeless, first_rest.1, es2, 0);
                    let head: Seq<Emit> = (if starts_process(current, e.pid) {
                        seq![Emit::Banner(i)]
                    } else {
                        Seq::empty()
                    }) + seq![Emit::Entry(i)];
                    assert(head + (first_rest.0 + shift_plan(second.0, es1.len() as int)) =~= (head
                        + first_rest.0) + shift_plan(second.0, es1.len() as int));
                },
                _ => {
                    lemma_kept_plan_split(w, pattern, skip_timeless, current, es1, es2, i + 1);
                },
            }
        }
    }
}

/// Two passes read one after the other write, together, what [`kept_plan`] writes over
/// all their entries: the lines of the first, then those of the second (its entries
/// counted after the first's), the second following the process the first ended on.
/// With [`lemma_pass_is_kept_plan`] for each pass, the lines a reading task collects
/// over its life are the kept lines of everything it has read.
pub proof fn lemma_passes_compose(
    w: TimeWindow,
    pattern: Seq<char>,
    skip_timeless: bool,
    current: Seq<char>,
    es1: Seq<EntryFields>,
    es2: Seq<EntryFields>,
)
    ensures
        ({
            let first = kept_plan(w, pattern, skip_timeless, current, es1, 0);
            let second = kept_plan(w, pattern, skip_timeless, first.1, es2, 0);
            let whole = kept_plan(w, pattern, skip_timeless, current, es1 + es2, 0);
            &&& whole.0 == first.0 + shift_plan(second.0, es1.len() as int)
            &&& whole.1 == second.1
        }),
{
    lemma_kept_plan_split(w, pattern, skip_timeless, current, es1, es2, 0);
}

/// The entries `i..` of `es` that the first layout's reading loop shows when the read
/// is cancelled from entry `m` on (as when the stop flag is raised while it reads).
pub open spec fn listing_cancelled_at(
    w: TimeWindow,
    pattern: Seq<char>,
    es: Seq<EntryFields>,
    m: int,
    i: int,
) -> Seq<int>
    decreases es.len() - i,
{
    if i < 0 || i >= es.len() {
        Seq::empty()
    } else {
        match listing_verdict(w, pattern, es[i].wallclock, i >= m, opt_text(es[i].message)) {
            Verdict::Skip => listing_cancelled_at(w, pattern, es, m, i + 1),
            Verdict::Stop => Seq::empty(),
            Verdict::Keep => seq![i] + listing_cancelled_at(w, pattern, es, m, i + 1),
        }
    }
}

/// A listing cancelled midway shows a beginning of what the listing shows when it is
/// not cancelled: the same entries, in the same order, up to where it stopped.
pub proof fn lemma_cancelled_listing_is_prefix(
    w: TimeWindow,
    pattern: Seq<char>,
    es: Seq<EntryFields>,
    m: int,
    i: int,
)
    requires
        0 <= i,
    ensures
        listing_cancelled_at(w, pattern, es, m, i).len() <= listing_plan(
            w,
            pattern,
            false,
            es,
            i,
        ).len(),
        listing_cancelled_at(w, pattern, es, m, i) == listing_plan(w, pattern, false, es, i).take(
            listing_cancelled_at(w, pattern, es, m, i).len() as int,
        ),
    decreases es.len() - i,
{
    if i < es.len() {
        lemma_cancelled_listing_is_prefix(w, pattern, es, m, i + 1);
        let a = listing_cancelled_at(w, pattern, es, m, i + 1);
        let b = listing_plan(w, pattern, false, es, i + 1);
        let msg = opt_text(es[i].message);
        let va = listing_verdict(w, pattern, es[i].wallclock, i >= m, msg);
        let vb = listing_verdict(w, pattern, es[i].wallclock, false, msg);
        if va == Verdict::Keep {
            assert(vb == Verdict::Keep);
            assert(seq![i] + a =~= (seq![i] + b).take(a.len() + 1 as int));
        } else if va == Verdict::Skip {
            assert(vb == Verdict::Skip);
        } else {
            assert(Seq::<int>::empty() =~= listing_plan(w, pattern, false, es, i).take(0));
        }
    } else {
        assert(Seq::<int>::empty() =~= Seq::<int>::empty().take(0));
    }
}

} // verus!
