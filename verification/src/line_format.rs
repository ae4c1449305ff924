//! The lines of the log list: which part of a message is shown, how the unit is
//! abbreviated, and how the priority colours a line.
use vstd::prelude::*;
use vstd::utf8::*;
use vstd::string::StringSliceAdditionalSpecFns;
use crate::text::{chars_of, string_push, string_from_chars, find_from, first_match, sanitize, sanitize_range, lemma_encode_utf8_concat};
use crate::log_level::{LogLevel, level_of};
use crate::human_time::{local_time_text, millis_text, shaped_like, ISO_TIME_FORMAT, OFFSET_FORMAT, DATE_FORMAT, CLOCK_FORMAT};

verus! {

/// `msg="`
pub open spec fn quoted_msg_marker() -> Seq<char> {
    seq!['m', 's', 'g', '=', '"']
}

/// `msg=`
pub open spec fn msg_marker() -> Seq<char> {
    seq!['m', 's', 'g', '=']
}

/// The part of message `m` that the list shows: the text between `msg="` and the next
/// `"` when the message has a `msg="`; else the text after `msg=` up to the next space
/// (or to the end); else the whole message.  An unclosed quote shows the whole message.
pub open spec fn display_message(m: Seq<char>) -> Seq<char> {
    match first_match(m, quoted_msg_marker(), 0) {
        Some(i) => match first_match(m, seq!['"'], i + 5) {
            Some(j) => m.subrange(i + 5, j),
            None => m,
        },
        None => match first_match(m, msg_marker(), 0) {
            Some(i) => match first_match(m, seq![' '], i + 4) {
                Some(j) => m.subrange(i + 4, j),
                None => m.skip(i + 4),
            },
            None => m,
        },
    }
}

/// `s` padded on the right with spaces to `w` characters.
pub open spec fn pad_right(s: Seq<char>, w: int) -> Seq<char> {
    if s.len() >= w {
        s
    } else {
        s + Seq::new((w - s.len()) as nat, |i: int| ' ')
    }
}

/// `d` is how the list shows unit `u`: a unit longer than 10 bytes as its first 4
/// bytes, `..`, its last 4 bytes and a space; a shorter one padded with spaces to 11
/// characters.
pub open spec fn unit_shown(u: Seq<char>, d: Seq<char>) -> bool {
    let b = encode_utf8(u);
    &&& b.len() > 10 ==> encode_utf8(d) == b.subrange(0, 4) + seq![46u8, 46u8] + b.subrange(
        b.len() - 4,
        b.len() as int,
    ) + seq![32u8]
    &&& b.len() <= 10 ==> d == pad_right(u, 11)
}

/// The kinds of lines, by priority.
#[derive(Clone, Copy, Debug, PartialEq, Eq, Structural)]
pub enum PriorityClass {
    /// Emergency, alert, critical and error.
    Error,
    Warning,
    /// Notice and info.
    Info,
    Debug,
    Unknown,
}

/// The class of a level.
pub open spec fn class_of(level: LogLevel) -> PriorityClass {
    match level {
        LogLevel::Emergency | LogLevel::Alert | LogLevel::Critical | LogLevel::Error => PriorityClass::Error,
        LogLevel::Warning => PriorityClass::Warning,
        LogLevel::Notice | LogLevel::Info => PriorityClass::Info,
        LogLevel::Debug => PriorityClass::Debug,
        LogLevel::Unknown => PriorityClass::Unknown,
    }
}

/// The colours the list uses.
#[derive(Clone, Copy, Debug, PartialEq, Eq, Structural)]
pub enum Tone {
    LightRed,
    Red,
    Yellow,
    Orange,
    Green,
    Cyan,
    DarkGray,
    Gray,
    White,
}

impl PriorityClass {
    /// The class of the priority text `priority` (`"0"` to `"7"`; anything else is unknown).
    pub fn of_priority(priority: &str) -> (r: PriorityClass)
        ensures
            r == class_of(level_of(priority@)),
    {
        match LogLevel::from_priority(priority) {
            LogLevel::Emergency | LogLevel::Alert | LogLevel::Critical | LogLevel::Error => PriorityClass::Error,
            LogLevel::Warning => PriorityClass::Warning,
            LogLevel::Notice | LogLevel::Info => PriorityClass::Info,
            LogLevel::Debug => PriorityClass::Debug,
            LogLevel::Unknown => PriorityClass::Unknown,
        }
    }

    /// The colour of a message of this class.
    pub fn message_tone(&self) -> (r: Tone)
        ensures
            r == match *self {
                PriorityClass::Error => Tone::Red,
                PriorityClass::Warning => Tone::Orange,
                PriorityClass::Info => Tone::Cyan,
                PriorityClass::Debug => Tone::Yellow,
                PriorityClass::Unknown => Tone::White,
            },
    {
        match self {
            PriorityClass::Error => Tone::Red,
            PriorityClass::Warning => Tone::Orange,
            PriorityClass::Info => Tone::Cyan,
            PriorityClass::Debug => Tone::Yellow,
            PriorityClass::Unknown => Tone::White,
        }
    }

    /// The colour of the mark in front of a line of this class.
    pub fn mark_tone(&self) -> (r: Tone)
        ensures
            r == match *self {
                PriorityClass::Error => Tone::LightRed,
                PriorityClass::Warning => Tone::Yellow,
                PriorityClass::Info => Tone::Green,
                PriorityClass::Debug => Tone::DarkGray,
                PriorityClass::Unknown => Tone::Gray,
            },
    {
        match self {
            PriorityClass::Error => Tone::LightRed,
            PriorityClass::Warning => Tone::Yellow,
            PriorityClass::Info => Tone::Green,
            PriorityClass::Debug => Tone::DarkGray,
            PriorityClass::Unknown => Tone::Gray,
        }
    }

    /// The mark in front of a line of this class.
    pub fn emoji(&self) -> (r: &'static str)
        ensures
            r@ == match *self {
                PriorityClass::Error => "❌"@,
                PriorityClass::Warning => "⚠️ "@,
                PriorityClass::Info => "ℹ️ "@,
                PriorityClass::Debug => "🐞"@,
                PriorityClass::Unknown => "❓"@,
            },
    {
        match self {
            PriorityClass::Error => "❌",
            PriorityClass::Warning => "⚠️ ",
            PriorityClass::Info => "ℹ️ ",
            PriorityClass::Debug => "🐞",
            PriorityClass::Unknown => "❓",
        }
    }

    /// The bracketed label of a line of this class.
    pub fn label(&self) -> (r: &'static str)
        ensures
            r@ == match *self {
                PriorityClass::Error => "ERR"@,
                PriorityClass::Warning => "WARN"@,
                PriorityClass::Info => "INFO"@,
                PriorityClass::Debug => "DEBUG"@,
                PriorityClass::Unknown => "UKNOWN"@,
            },
    {
        match self {
            PriorityClass::Error => "ERR",
            PriorityClass::Warning => "WARN",
            PriorityClass::Info => "INFO",
            PriorityClass::Debug => "DEBUG",
            PriorityClass::Unknown => "UKNOWN",
        }
    }
}

/// The shown part of `message`, with tabs widened and carriage returns dropped.
pub fn message_text(message: &str) -> (r: String)
    ensures
        r@ == sanitize(display_message(message@)),
{
    let m = chars_of(message);
    let quoted: Vec<char> = vec!['m', 's', 'g', '=', '"'];
    let plain: Vec<char> = vec!['m', 's', 'g', '='];
    let quote: Vec<char> = vec!['"'];
    let space: Vec<char> = vec![' '];
    assert(quoted@ =~= quoted_msg_marker());
    assert(plain@ =~= msg_marker());
    assert(quote@ =~= seq!['"']);
    assert(space@ =~= seq![' ']);
    let n = m.len();
    assert(m@.subrange(0, n as int) =~= m@);
    match find_from(&m, &quoted, 0) {
        Some(i) => {
            let start = i + 5;
            match find_from(&m, &quote, start) {
                Some(j) => sanitize_range(&m, start, j),
                None => sanitize_range(&m, 0, n),
            }
        },
        None => match find_from(&m, &plain, 0) {
            Some(i) => {
                let start = i + 4;
                match find_from(&m, &space, start) {
                    Some(j) => sanitize_range(&m, start, j),
                    None => {
                        assert(m@.subrange(start as int, n as int) =~= m@.skip(start as int));
                        sanitize_range(&m, start, n)
                    },
                }
            },
            None => sanitize_range(&m, 0, n),
        },
    }
}

/// The unit as the list shows it: units longer than 10 bytes as their first 4 bytes,
/// `..`, their last 4 bytes and a space; shorter ones padded with spaces to 11
/// characters.
pub fn unit_display(unit: &str) -> (r: String)
    requires
        unit.spec_bytes().len() > 10 ==> is_char_boundary(unit.spec_bytes(), 4)
            && is_char_boundary(unit.spec_bytes(), unit.spec_bytes().len() - 4),
    ensures
        unit_shown(unit@, r@),
{
    let n = unit.as_bytes().len();
    if n > 10 {
        let (head, _) = unit.split_at(4);
        let (_, tail) = unit.split_at(n - 4);
        let mut r = String::new();
        let hs = chars_of(head);
        let ts = chars_of(tail);
        let mut i: usize = 0;
        while i < hs.len()
            invariant
                i <= hs@.len(),
                r@ == hs@.take(i as int),
            decreases hs@.len() - i,
        {
            string_push(&mut r, hs[i]);
            assert(r@ =~= hs@.take(i + 1));
            i += 1;
        }
        string_push(&mut r, '.');
        string_push(&mut r, '.');
        let ghost mid = r@;
        let mut j: usize = 0;
        while j < ts.len()
            invariant
                j <= ts@.len(),
                r@ == mid + ts@.take(j as int),
            decreases ts@.len() - j,
        {
            string_push(&mut r, ts[j]);
            assert(r@ =~= mid + ts@.take(j + 1));
            j += 1;
        }
        string_push(&mut r, ' ');
        proof {
            assert(hs@.take(hs@.len() as int) =~= hs@);
            assert(ts@.take(ts@.len() as int) =~= ts@);
            assert(r@ =~= head@ + seq!['.', '.'] + tail@ + seq![' ']);
            lemma_encode_utf8_concat(head@ + seq!['.', '.'] + tail@, seq![' ']);
            lemma_encode_utf8_concat(head@ + seq!['.', '.'], tail@);
            lemma_encode_utf8_concat(head@, seq!['.', '.']);
            is_ascii_chars_encode_utf8(seq!['.', '.']);
            is_ascii_chars_encode_utf8(seq![' ']);
            assert(encode_utf8(seq!['.', '.']) =~= seq![46u8, 46u8]);
            assert(encode_utf8(seq![' ']) =~= seq![32u8]);
        }
        r
    } else {
        let cs = chars_of(unit);
        let mut r = string_from_chars(&cs);
        let mut k = cs.len();
        while k < 11
            invariant
                cs@ == unit@,
                cs@.len() <= k <= 11 || (cs@.len() >= 11 && k == cs@.len()),
                r@ == cs@ + Seq::new((k - cs@.len()) as nat, |i: int| ' '),
            decreases 11 - k,
        {
            string_push(&mut r, ' ');
            assert(r@ =~= cs@ + Seq::new((k + 1 - cs@.len()) as nat, |i: int| ' '));
            k += 1;
        }
        assert(cs@.len() >= 11 ==> r@ =~= cs@);
        r
    }
}

/// The parts of a line of the log list (the first layout): the priority class, the
/// local time and its offset, the unit with the process id, and the message.
pub struct StyledLine {
    pub class: PriorityClass,
    pub timestamp: String,
    pub offset: String,
    pub unit_pid: String,
    pub message: String,
}

/// The text shown for the unit and process of an entry: the abbreviated unit followed
/// by the process id in brackets.
pub open spec fn unit_pid_text(unit_disp: Seq<char>, pid: Seq<char>) -> Seq<char> {
    unit_disp + seq!['['] + pid + seq![']']
}

/// The optional field's text, or `default`.
pub open spec fn field_or(o: Option<String>, default: Seq<char>) -> Seq<char> {
    match o {
        Some(s) => s@,
        None => default,
    }
}

/// Appends the characters of `s` to `r`.
fn append_str(r: &mut String, s: &str)
    ensures
        final(r)@ == old(r)@ + s@,
{
    let cs = chars_of(s);
    let ghost start = r@;
    let mut i: usize = 0;
    while i < cs.len()
        invariant
            i <= cs@.len(),
            cs@ == s@,
            r@ == start + cs@.take(i as int),
        decreases cs@.len() - i,
    {
        string_push(r, cs[i]);
        assert(r@ =~= start + cs@.take(i + 1));
        i += 1;
    }
    assert(cs@.take(cs@.len() as int) =~= cs@);
}

/// The line of the log list for an entry of `unit` (if known), process `pid` (if
/// known) and priority text `priority` (if known), written at `wallclock` microseconds
/// since the epoch, with message `message`.  A missing unit is empty, a missing
/// process id is `0` and a missing priority is `6`.
pub fn format_styled_line(
    unit: Option<String>,
    pid: Option<String>,
    priority: Option<String>,
    wallclock: i64,
    message: &str,
) -> (r: StyledLine)
    requires
        -9223372036854775 <= wallclock <= 9223372036854775,
        unit matches Some(u) ==> (encode_utf8(u@).len() > 10 ==> is_char_boundary(
            encode_utf8(u@),
            4,
        ) && is_char_boundary(encode_utf8(u@), encode_utf8(u@).len() - 4)),
    ensures
        r.class == class_of(level_of(field_or(priority, seq!['6']))),
        shaped_like(r.timestamp@, "9999-99-99T99:99:99.999"@),
        shaped_like(r.offset@, "±99:99"@),
        r.timestamp@.len() >= 4,
        r.timestamp@.subrange(r.timestamp@.len() - 4, r.timestamp@.len() as int) == millis_text(
            wallclock * 1000,
        ),
        r.message@ == sanitize(display_message(message@)),
        exists|d: Seq<char>|
            unit_shown(field_or(unit, Seq::empty()), d) && r.unit_pid@ == unit_pid_text(
                d,
                field_or(pid, seq!['0']),
            ),
{
    let nanos = wallclock * 1000;
    let timestamp = local_time_text(nanos, ISO_TIME_FORMAT);
    let offset = local_time_text(nanos, OFFSET_FORMAT);
    let unit_disp = match &unit {
        Some(u) => {
            let d = unit_display(u.as_str());
            assert(unit_shown(field_or(unit, Seq::empty()), d@));
            d
        },
        None => {
            let empty = String::new();
            assert(encode_utf8(empty@) =~= Seq::<u8>::empty());
            let d = unit_display(empty.as_str());
            assert(unit_shown(field_or(unit, Seq::empty()), d@));
            d
        },
    };
    let ghost d = unit_disp@;
    let mut unit_pid = unit_disp;
    string_push(&mut unit_pid, '[');
    match &pid {
        Some(p) => append_str(&mut unit_pid, p.as_str()),
        None => string_push(&mut unit_pid, '0'),
    }
    string_push(&mut unit_pid, ']');
    let class = match &priority {
        Some(p) => PriorityClass::of_priority(p.as_str()),
        None => {
            let mut six = String::new();
            string_push(&mut six, '6');
            assert(six@ =~= seq!['6']);
            PriorityClass::of_priority(six.as_str())
        },
    };
    proof {
        assert(unit_pid@ =~= unit_pid_text(d, field_or(pid, seq!['0'])));
    }
    StyledLine {
        class,
        timestamp,
        offset,
        unit_pid,
        message: message_text(message),
    }
}

/// The lines of the log list in the second layout: a banner for a new process, or an
/// entry with its priority class, local date, local time and message.
pub enum LogLine {
    /// `Started New Instance ➝ {unit}({pid})`
    Instance { text: String },
    Entry { class: PriorityClass, date: String, time: String, message: String },
}

/// The banner text for a new process `pid` of `unit`.
pub open spec fn instance_text(unit: Seq<char>, pid: Seq<char>) -> Seq<char> {
    "Started New Instance ➝ "@ + unit + seq!['('] + pid + seq![')']
}

/// The line for an entry of `unit` (empty if unknown) and priority text `priority`
/// (`6` if unknown) written at `wallclock` microseconds with message `message`; a
/// `wallclock` of -1 asks for the banner of a new process, whose id is then `message`.
pub fn format_log_line(unit: Option<String>, priority: Option<String>, wallclock: i64, message: &str) -> (r: LogLine)
    requires
        -9223372036854775 <= wallclock <= 9223372036854775,
    ensures
        wallclock != -1 ==> (r matches LogLine::Entry { date, time, .. } && shaped_like(
            date@,
            "99/99/9999"@,
        ) && shaped_like(time@, "99:99:99.999"@) && time@.len() >= 4
            && time@.subrange(time@.len() - 4, time@.len() as int) == millis_text(wallclock * 1000)),
        wallclock == -1 ==> (r matches LogLine::Instance { text } && text@ == instance_text(
            field_or(unit, Seq::empty()),
            message@,
        )),
        wallclock != -1 ==> (r matches LogLine::Entry { class, message: text, .. } && class
            == class_of(level_of(field_or(priority, seq!['6']))) && text@ == sanitize(
            display_message(message@),
        )),
{
    let nanos = wallclock * 1000;
    let date = local_time_text(nanos, DATE_FORMAT);
    let time = local_time_text(nanos, CLOCK_FORMAT);
    if wallclock == -1 {
        let mut text = String::new();
        append_str(&mut text, "Started New Instance ➝ ");
        match &unit {
            Some(u) => append_str(&mut text, u.as_str()),
            None => {},
        }
        string_push(&mut text, '(');
        append_str(&mut text, message);
        string_push(&mut text, ')');
        proof {
            assert(text@ =~= instance_text(field_or(unit, Seq::empty()), message@));
        }
        return LogLine::Instance { text };
    }
    let class = match &priority {
        Some(p) => PriorityClass::of_priority(p.as_str()),
        None => {
            let mut six = String::new();
            string_push(&mut six, '6');
            assert(six@ =~= seq!['6']);
            PriorityClass::of_priority(six.as_str())
        },
    };
    LogLine::Entry { class, date, time, message: message_text(message) }
}

} // verus!
