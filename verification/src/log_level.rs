//! Syslog priorities as the journal writes them (`"0"` to `"7"`).
use vstd::prelude::*;
use crate::text::{chars_of, string_push};

verus! {

/// The priority of a journal entry.
#[derive(Clone, Copy, Debug, PartialEq, Eq, Structural)]
pub enum LogLevel {
    Emergency,
    Alert,
    Critical,
    Error,
    Warning,
    Notice,
    Info,
    Debug,
    Unknown,
}

/// The digit the journal writes for `level` (`'8'` for `Unknown`).
pub open spec fn level_digit(level: LogLevel) -> char {
    match level {
        LogLevel::Emergency => '0',
        LogLevel::Alert => '1',
        LogLevel::Critical => '2',
        LogLevel::Error => '3',
        LogLevel::Warning => '4',
        LogLevel::Notice => '5',
        LogLevel::Info => '6',
        LogLevel::Debug => '7',
        LogLevel::Unknown => '8',
    }
}

/// The level the journal's priority text `s` stands for: one of `"0"` to `"7"`,
/// anything else is `Unknown`.
pub open spec fn level_of(s: Seq<char>) -> LogLevel {
    if s.len() != 1 {
        LogLevel::Unknown
    } else if s[0] == '0' {
        LogLevel::Emergency
    } else if s[0] == '1' {
        LogLevel::Alert
    } else if s[0] == '2' {
        LogLevel::Critical
    } else if s[0] == '3' {
        LogLevel::Error
    } else if s[0] == '4' {
        LogLevel::Warning
    } else if s[0] == '5' {
        LogLevel::Notice
    } else if s[0] == '6' {
        LogLevel::Info
    } else if s[0] == '7' {
        LogLevel::Debug
    } else {
        LogLevel::Unknown
    }
}

impl LogLevel {
    /// The syslog number of the level (8 for `Unknown`).
    pub fn priority(&self) -> (r: u8)
        ensures
            r as int == (level_digit(*self) as int) - ('0' as int),
    {
        match self {
            LogLevel::Emergency => 0,
            LogLevel::Alert => 1,
            LogLevel::Critical => 2,
            LogLevel::Error => 3,
            LogLevel::Warning => 4,
            LogLevel::Notice => 5,
            LogLevel::Info => 6,
            LogLevel::Debug => 7,
            LogLevel::Unknown => 8,
        }
    }

    /// The level of the priority text `s`.
    pub fn from_priority(s: &str) -> (r: LogLevel)
        ensures
            r == level_of(s@),
    {
        let cs = chars_of(s);
        if cs.len() != 1 {
            return LogLevel::Unknown;
        }
        let c = cs[0];
        if c == '0' {
            LogLevel::Emergency
        } else if c == '1' {
            LogLevel::Alert
        } else if c == '2' {
            LogLevel::Critical
        } else if c == '3' {
            LogLevel::Error
        } else if c == '4' {
            LogLevel::Warning
        } else if c == '5' {
            LogLevel::Notice
        } else if c == '6' {
            LogLevel::Info
        } else if c == '7' {
            LogLevel::Debug
        } else {
            LogLevel::Unknown
        }
    }

    /// The priority text of the level: its digit.
    pub fn to_priority(&self) -> (r: String)
        ensures
            r@ == seq![level_digit(*self)],
    {
        let c = match self {
            LogLevel::Emergency => '0',
            LogLevel::Alert => '1',
            LogLevel::Critical => '2',
            LogLevel::Error => '3',
            LogLevel::Warning => '4',
            LogLevel::Notice => '5',
            LogLevel::Info => '6',
            LogLevel::Debug => '7',
            LogLevel::Unknown => '8',
        };
        let mut r = String::new();
        string_push(&mut r, c);
        assert(r@ =~= seq![c]);
        r
    }
}

impl From<LogLevel> for String {
    fn from(level: LogLevel) -> (r: String)
        ensures
            r@ == seq![level_digit(level)],
    {
        level.to_priority()
    }
}

impl vstd::std_specs::convert::FromSpecImpl<LogLevel> for String {
    open spec fn obeys_from_spec() -> bool {
        false
    }

    open spec fn from_spec(v: LogLevel) -> String {
        arbitrary()
    }
}

impl From<String> for LogLevel {
    fn from(s: String) -> (r: LogLevel) {
        LogLevel::from_priority(s.as_str())
    }
}

impl vstd::std_specs::convert::FromSpecImpl<String> for LogLevel {
    open spec fn obeys_from_spec() -> bool {
        true
    }

    open spec fn from_spec(v: String) -> LogLevel {
        level_of(v@)
    }
}

/// Writing a level as its priority text and reading it back gives the level again.
pub proof fn lemma_level_round_trip(level: LogLevel)
    ensures
        level_of(seq![level_digit(level)]) == level,
{
}

/// A priority text reads as `Unknown` exactly when it is not one of `"0"` to `"7"`;
/// every other text reads back from the priority text of the level it stands for.  So
/// reading any text as a level and writing that level gives the text back when it is
/// `"0"` to `"8"`, and `"8"` otherwise.
pub proof fn lemma_priority_text_round_trip(s: Seq<char>)
    ensures
        (level_of(s) == LogLevel::Unknown) <==> !(s.len() == 1 && '0' <= s[0] <= '7'),
        level_of(s) != LogLevel::Unknown ==> seq![level_digit(level_of(s))] =~= s,
        seq![level_digit(level_of(s))] =~= if s.len() == 1 && '0' <= s[0] <= '8' {
            s
        } else {
            seq!['8']
        },
{
}

} // verus!
