//! Reading and writing local wall-clock times.
//!
//! Calendar parsing and the local time zone come from `chrono`; which
//! texts are handed to it, and what happens with its answer, is decided here.
use vstd::prelude::*;
use vstd::string::StringSliceAdditionalSpecFns;
use chrono::NaiveDateTime;
use chrono::TimeZone;

verus! {

/// `chrono::NaiveDateTime`, carried through opaquely: nothing inside a value is read.
#[verifier::external_type_specification]
#[verifier::external_body]
pub struct ExNaiveDateTime(NaiveDateTime);

/// The format of the date boxes: `mm/dd/yyyy hh:mm:ss`.
pub const HUMAN_TIME_FORMAT: &'static str = "%m/%d/%Y %H:%M:%S";

/// Whether `chrono::NaiveDateTime::parse_from_str(s, fmt)` succeeds.
pub uninterp spec fn naive_parses(s: Seq<char>, fmt: Seq<char>) -> bool;

/// The microseconds since the epoch of the date and time that
/// `chrono::NaiveDateTime::parse_from_str(s, fmt)` reads, taken as UTC (its
/// `and_utc().timestamp_micros()`).
pub uninterp spec fn naive_micros(s: Seq<char>, fmt: Seq<char>) -> int;

/// A date and time read from a text, without a time zone, together with its reading as
/// UTC in microseconds.  Values are only made by [`naive_from_str`], so `micros` always
/// is the reading of `value`.
pub struct ParsedTime {
    value: NaiveDateTime,
    micros: i64,
}

impl ParsedTime {
    /// The microseconds since the epoch of the date and time, taken as UTC.
    pub closed spec fn utc_reading(&self) -> int {
        self.micros as int
    }
}

/// `t` lies less than a day away from `naive`: a local time and its reading as UTC
/// differ by the zone's offset, which chrono keeps under 86 400 seconds.
pub open spec fn within_a_day(t: int, naive: int) -> bool {
    -86_400_000_000 < t - naive < 86_400_000_000
}

/// Calls `chrono::NaiveDateTime::parse_from_str(s, fmt)` and, on success, keeps the
/// value with its `and_utc().timestamp_micros()`.  The contract claims that success
/// and the reading depend on `s` and `fmt` alone.
#[verifier::external_body]
fn naive_from_str(s: &str, fmt: &str) -> (r: Option<ParsedTime>)
    ensures
        r is Some <==> naive_parses(s@, fmt@),
        r matches Some(p) ==> p.utc_reading() == naive_micros(s@, fmt@),
{
    match NaiveDateTime::parse_from_str(s, fmt) {
        Ok(t) => Some(ParsedTime { micros: t.and_utc().timestamp_micros(), value: t }),
        Err(_) => None,
    }
}

/// Calls `chrono::Local.from_local_datetime(t).single()` and, on success, the
/// `timestamp_micros` of the result.  Whether the local time exists and is unique, and
/// the offset, depend on the time zone of the machine; what holds in every zone is that
/// the offset is under a day (chrono's `FixedOffset` is kept within ±86 400 seconds
/// and `from_local_datetime` subtracts it), so the answer lies within a day of the
/// reading as UTC.
#[verifier::external_body]
fn local_micros(t: &ParsedTime) -> (r: Option<i64>)
    ensures
        r matches Some(m) ==> within_a_day(m as int, t.utc_reading()),
{
    match chrono::Local.from_local_datetime(&t.value).single() {
        Some(dt) => Some(dt.timestamp_micros()),
        None => None,
    }
}

/// Date and time with milliseconds: `2024-12-31T23:59:59.123`.
pub const ISO_TIME_FORMAT: &'static str = "%Y-%m-%dT%H:%M:%S%.3f";

/// Offset from UTC: `+01:00`.
pub const OFFSET_FORMAT: &'static str = "%:z";

/// Date: `12/31/2024`.
pub const DATE_FORMAT: &'static str = "%m/%d/%Y";

/// Time of day with milliseconds: `23:59:59.123`.
pub const CLOCK_FORMAT: &'static str = "%H:%M:%S%.3f";

/// The formats the log list writes times in.
pub open spec fn list_time_format(fmt: Seq<char>) -> bool {
    fmt == ISO_TIME_FORMAT@ || fmt == OFFSET_FORMAT@ || fmt == DATE_FORMAT@ || fmt == CLOCK_FORMAT@
}

/// The decimal digit of `d` (0 to 9).
pub open spec fn digit_char(d: int) -> char {
    if d == 0 { '0' } else if d == 1 { '1' } else if d == 2 { '2' } else if d == 3 { '3' }
    else if d == 4 { '4' } else if d == 5 { '5' } else if d == 6 { '6' } else if d == 7 { '7' }
    else if d == 8 { '8' } else { '9' }
}

/// `.` and the three digits of the milliseconds within the second of the instant
/// `nanos` nanoseconds after the epoch.
pub open spec fn millis_text(nanos: int) -> Seq<char> {
    let m = (nanos % 1_000_000_000) / 1_000_000;
    seq!['.', digit_char(m / 100), digit_char((m / 10) % 10), digit_char(m % 10)]
}

/// `s` has the shape of `mask`, character by character: a `9` of the mask stands for
/// any decimal digit, a `±` for `+` or `-`, and every other character for itself.
pub open spec fn shaped_like(s: Seq<char>, mask: Seq<char>) -> bool {
    &&& s.len() == mask.len()
    &&& forall|i: int|
        0 <= i < s.len() ==> if mask[i] == '9' {
            '0' <= #[trigger] s[i] <= '9'
        } else if mask[i] == '±' {
            s[i] == '+' || s[i] == '-'
        } else {
            s[i] == mask[i]
        }
}

/// Calls `chrono::Local.timestamp_nanos(nanos).format(fmt).to_string()` for one of the
/// formats of the log list (chrono's `to_string` panics on a format it cannot write).
/// The text depends on the time zone of the machine; what is stated holds in every
/// zone: the text has the shape of its format, for any instant an `i64` of
/// nanoseconds can hold (years 1677 to 2262, zone offsets under a day, no leap second;
/// chrono pads every field with zeros and writes `%:z` as a sign, two digits, `:` and
/// two digits), and, since zone offsets
/// are whole seconds, a format ending in `%.3f` ends in the milliseconds of the
/// instant.
#[verifier::external_body]
pub(crate) fn local_time_text(nanos: i64, fmt: &str) -> (r: String)
    requires
        list_time_format(fmt@),
    ensures
        fmt@ == ISO_TIME_FORMAT@ ==> shaped_like(r@, "9999-99-99T99:99:99.999"@),
        fmt@ == OFFSET_FORMAT@ ==> shaped_like(r@, "±99:99"@),
        fmt@ == DATE_FORMAT@ ==> shaped_like(r@, "99/99/9999"@),
        fmt@ == CLOCK_FORMAT@ ==> shaped_like(r@, "99:99:99.999"@),
        fmt@ == ISO_TIME_FORMAT@ || fmt@ == CLOCK_FORMAT@ ==> r@.len() >= 4 && r@.subrange(
            r@.len() - 4,
            r@.len() as int,
        ) == millis_text(nanos as int),
{
    chrono::Local.timestamp_nanos(nanos).format(fmt).to_string()
}

/// The timestamp to use once the local conversion has answered: its value, or 0 when
/// the local time does not exist or is ambiguous.
pub fn human_time_from_local(local: Option<i64>) -> (r: i64)
    ensures
        r == match local {
            Some(t) => t,
            None => 0,
        },
{
    match local {
        Some(t) => t,
        None => 0,
    }
}

/// Microseconds since the epoch of the local time written in `s` as
/// `mm/dd/yyyy hh:mm:ss`; 0 when `s` is empty or does not parse, or when that local
/// time does not exist or is ambiguous.  Otherwise the answer lies within a day of the
/// time read as UTC.
pub fn parse_human_time(s: &str) -> (r: i64)
    ensures
        s@.len() == 0 ==> r == 0,
        !naive_parses(s@, HUMAN_TIME_FORMAT@) ==> r == 0,
        naive_parses(s@, HUMAN_TIME_FORMAT@) ==> r == 0 || within_a_day(
            r as int,
            naive_micros(s@, HUMAN_TIME_FORMAT@),
        ),
{
    if s.is_empty() {
        return 0;
    }
    let fmt = HUMAN_TIME_FORMAT;
    match naive_from_str(s, fmt) {
        Some(t) => human_time_from_local(local_micros(&t)),
        None => 0,
    }
}

/// Like [`parse_human_time`], but first requires the shape of the text: exactly 19
/// bytes with `/` at bytes 2 and 5, a space at byte 10 and `:` at bytes 13 and 16.  A
/// text of that shape is handed to [`parse_human_time`] as it is.
pub fn parse_human_time_strict(s: &str) -> (r: i64)
    ensures
        s.spec_bytes().len() != 19 ==> r == 0,
        s.spec_bytes().len() == 19 && !human_time_shape(s.spec_bytes()) ==> r == 0,
        !naive_parses(s@, HUMAN_TIME_FORMAT@) ==> r == 0,
        naive_parses(s@, HUMAN_TIME_FORMAT@) ==> r == 0 || within_a_day(
            r as int,
            naive_micros(s@, HUMAN_TIME_FORMAT@),
        ),
{
    let bytes = s.as_bytes();
    if bytes.len() != 19 {
        return 0;
    }
    if bytes[2] != 47u8 || bytes[5] != 47u8 || bytes[10] != 32u8 || bytes[13] != 58u8
        || bytes[16] != 58u8 {
        return 0;
    }
    parse_human_time(s)
}

/// The separators of `mm/dd/yyyy hh:mm:ss` stand at their byte positions.
pub open spec fn human_time_shape(b: Seq<u8>) -> bool {
    &&& b[2] == 47u8
    &&& b[5] == 47u8
    &&& b[10] == 32u8
    &&& b[13] == 58u8
    &&& b[16] == 58u8
}

} // verus!
