//! The date boxes (`mm/dd/yyyy hh:mm:ss`) of the log widget.
use vstd::prelude::*;
use vstd::utf8::*;
use vstd::string::StringSliceAdditionalSpecFns;
use crate::text::{chars_of, string_from_chars, lemma_encode_utf8_push, lemma_encode_utf8_concat, utf8_width};
use crate::keys::{KeyCode, KeyInput};
use crate::human_time::{parse_human_time_strict, human_time_shape, naive_parses, naive_micros, within_a_day, HUMAN_TIME_FORMAT};

verus! {

/// A single-line input box that takes a date and time.
pub struct TuiInputDate {
    pub title: String,
    pub input: String,
    pub character_index: usize,
    pub focused: bool,
}

/// The smaller of two integers.
pub open spec fn min_int(a: int, b: int) -> int {
    if a <= b {
        a
    } else {
        b
    }
}

/// Byte offset, in the UTF-8 encoding of `s`, of the character at position `k`;
/// the byte length of `s` when `k` is at or past its end.
pub open spec fn byte_offset(s: Seq<char>, k: int) -> int {
    encode_utf8(s.take(min_int(k, s.len() as int))).len() as int
}

/// The character at position `i` of `s`, if there is one.
pub open spec fn nth_char(s: Seq<char>, i: int) -> Option<char> {
    if 0 <= i < s.len() {
        Some(s[i])
    } else {
        None
    }
}

/// Whether `c` may be typed at byte position `index` of the box holding `s`:
/// the month starts with 0 or 1 (and a month starting with 1 ends in 0, 1 or 2),
/// the day starts with 0 to 3 (and a day starting with 3 ends in 0 or 1),
/// the hour starts with 0 to 2 (and an hour starting with 2 ends in 0 to 3),
/// minutes and seconds start with 0 to 5; anything else is free.
pub open spec fn date_char_allowed(s: Seq<char>, index: int, c: char) -> bool {
    if index == 0 {
        c == '0' || c == '1'
    } else if index == 1 {
        nth_char(s, 0) == Some('1') ==> (c == '0' || c == '1' || c == '2')
    } else if index == 3 {
        c == '0' || c == '1' || c == '2' || c == '3'
    } else if index == 4 {
        nth_char(s, 3) == Some('3') ==> (c == '0' || c == '1')
    } else if index == 11 {
        c == '0' || c == '1' || c == '2'
    } else if index == 12 {
        nth_char(s, 11) == Some('2') ==> (c == '0' || c == '1' || c == '2' || c == '3')
    } else if index == 14 || index == 17 {
        c == '0' || c == '1' || c == '2' || c == '3' || c == '4' || c == '5'
    } else {
        true
    }
}

/// The separator the box types by itself when the cursor reaches byte `index`.
pub open spec fn separator_at(index: int) -> Option<char> {
    if index == 2 || index == 5 {
        Some('/')
    } else if index == 10 {
        Some(' ')
    } else if index == 13 || index == 16 {
        Some(':')
    } else {
        None
    }
}

/// Text and cursor after inserting `c` at the cursor and moving the cursor right.
pub open spec fn insert_at_cursor(s: Seq<char>, k: int, c: char) -> (Seq<char>, int) {
    let s1 = s.insert(min_int(k, s.len() as int), c);
    (s1, min_int(k + 1, s1.len() as int))
}

/// Text and cursor after the box types `sep` at the cursor, unless the character at
/// the position given by the cursor's byte offset already is `sep`.
pub open spec fn auto_insert_result(s: Seq<char>, k: int, sep: char) -> (Seq<char>, int) {
    if nth_char(s, byte_offset(s, k)) != Some(sep) {
        insert_at_cursor(s, k, sep)
    } else {
        (s, k)
    }
}

/// Text and cursor after typing `c` into the box holding `s` with the cursor at `k`.
pub open spec fn enter_char_result(s: Seq<char>, k: int, c: char) -> (Seq<char>, int) {
    let b = byte_offset(s, k);
    if b >= 19 || !date_char_allowed(s, b, c) {
        (s, k)
    } else {
        let (s1, k1) = insert_at_cursor(s, k, c);
        match separator_at(byte_offset(s1, k1)) {
            Some(sep) => auto_insert_result(s1, k1, sep),
            None => (s1, k1),
        }
    }
}

/// Text and cursor after deleting the character left of the cursor.
pub open spec fn delete_char_result(s: Seq<char>, k: int) -> (Seq<char>, int) {
    if k == 0 {
        (s, k)
    } else {
        let s1 = s.take(min_int(k - 1, s.len() as int)) + s.skip(min_int(k, s.len() as int));
        (s1, min_int(k - 1, s1.len() as int))
    }
}

/// Every character of `s` is an ASCII digit or one of the separators `/`, ` ` and `:`.
pub open spec fn date_text(s: Seq<char>) -> bool {
    forall|i: int|
        0 <= i < s.len() ==> {
            let c = #[trigger] s[i];
            ('0' <= c <= '9') || c == '/' || c == ' ' || c == ':'
        }
}

/// The prefix sums of UTF-8 widths grow by one character at a time.
proof fn lemma_take_push(s: Seq<char>, i: int)
    requires
        0 <= i < s.len(),
    ensures
        encode_utf8(s.take(i + 1)).len() == encode_utf8(s.take(i)).len() + utf8_width(s[i]),
{
    assert(s.take(i + 1) =~= s.take(i).push(s[i]));
    lemma_encode_utf8_push(s.take(i), s[i]);
}

/// A prefix encodes to no more bytes than the whole sequence.
proof fn lemma_take_le(s: Seq<char>, i: int)
    requires
        0 <= i <= s.len(),
    ensures
        encode_utf8(s.take(i)).len() <= encode_utf8(s).len(),
{
    assert(s =~= s.take(i) + s.skip(i));
    lemma_encode_utf8_concat(s.take(i), s.skip(i));
}

/// For an ASCII text the byte offset of a position is the position itself.
proof fn lemma_ascii_offset(s: Seq<char>, k: int)
    requires
        is_ascii_chars(s),
        0 <= k,
    ensures
        byte_offset(s, k) == min_int(k, s.len() as int),
{
    let t = s.take(min_int(k, s.len() as int));
    assert(is_ascii_chars(t));
    is_ascii_chars_encode_utf8(t);
}

impl TuiInputDate {
    /// The cursor is never past the end of the text.
    pub open spec fn wf(&self) -> bool {
        self.character_index <= self.input@.len()
    }

    /// Position of the cursor, in characters.
    pub open spec fn cursor(&self) -> int {
        self.character_index as int
    }

    /// An empty, unfocused box titled `title`.
    pub fn new(title: String) -> (r: Self)
        ensures
            r.input@ == Seq::<char>::empty(),
            r.cursor() == 0,
            r.title@ == title@,
            !r.focused,
            r.wf(),
    {
        Self { title: title, input: String::new(), character_index: 0, focused: false }
    }

    /// Moves the cursor one character left, not past the start.
    pub fn move_cursor_left(&mut self)
        ensures
            final(self).cursor() == min_int(
                if old(self).cursor() == 0 { 0 } else { old(self).cursor() - 1 },
                old(self).input@.len() as int,
            ),
            final(self).input@ == old(self).input@,
            final(self).focused == old(self).focused,
            final(self).title@ == old(self).title@,
            final(self).wf(),
    {
        let cursor_moved_left = self.character_index.saturating_sub(1);
        self.character_index = self.clamp_cursor(cursor_moved_left);
    }

    /// Moves the cursor one character right, not past the end.
    pub fn move_cursor_right(&mut self)
        ensures
            final(self).cursor() == min_int(old(self).cursor() + 1, old(self).input@.len() as int),
            final(self).input@ == old(self).input@,
            final(self).focused == old(self).focused,
            final(self).title@ == old(self).title@,
            final(self).wf(),
    {
        let cursor_moved_right = self.character_index.saturating_add(1);
        self.character_index = self.clamp_cursor(cursor_moved_right);
    }

    /// `new_cursor_pos` held within `0..=` the number of characters.
    pub fn clamp_cursor(&self, new_cursor_pos: usize) -> (r: usize)
        ensures
            r == min_int(new_cursor_pos as int, self.input@.len() as int),
            self.input@.len() <= usize::MAX,
    {
        let count = chars_of(self.input.as_str()).len();
        if new_cursor_pos > count {
            count
        } else {
            new_cursor_pos
        }
    }

    /// Byte index, in the text, of the character under the cursor (the text's
    /// byte length when the cursor is at the end).
    pub fn byte_index(&self) -> (r: usize)
        ensures
            r == byte_offset(self.input@, self.cursor()),
    {
        let cs = chars_of(self.input.as_str());
        let total = self.input.as_str().as_bytes().len();
        let ghost s = self.input@;
        let k = self.character_index;
        if k >= cs.len() {
            assert(s.take(s.len() as int) =~= s);
            return total;
        }
        let mut acc: usize = 0;
        let mut i: usize = 0;
        assert(s.take(0) =~= Seq::<char>::empty());
        while i < k
            invariant
                cs@ == s,
                k < s.len(),
                i <= k,
                acc == encode_utf8(s.take(i as int)).len(),
                total == encode_utf8(s).len(),
            decreases k - i,
        {
            let c = cs[i];
            proof {
                lemma_take_push(s, i as int);
                lemma_take_le(s, i + 1);
            }
            let w: usize = if (c as u32) <= 0x7F {
                1
            } else if (c as u32) <= 0x7FF {
                2
            } else if (c as u32) <= 0xFFFF {
                3
            } else {
                4
            };
            acc = acc + w;
            i = i + 1;
        }
        acc
    }

    /// Puts `c` at the cursor and moves the cursor right.
    fn insert_char(&mut self, c: char)
        ensures
            (final(self).input@, final(self).cursor()) == insert_at_cursor(
                old(self).input@,
                old(self).cursor(),
                c,
            ),
            final(self).focused == old(self).focused,
            final(self).title@ == old(self).title@,
            final(self).wf(),
    {
        let mut cs = chars_of(self.input.as_str());
        let p = if self.character_index < cs.len() {
            self.character_index
        } else {
            cs.len()
        };
        cs.insert(p, c);
        self.input = string_from_chars(&cs);
        self.move_cursor_right();
    }

    /// Types `c` if the rules of the date format let it stand at the cursor, then
    /// types the separator that follows, if any.  The box takes 19 bytes at most.
    pub fn enter_char(&mut self, new_char: char)
        ensures
            (final(self).input@, final(self).cursor()) == enter_char_result(
                old(self).input@,
                old(self).cursor(),
                new_char,
            ),
            final(self).focused == old(self).focused,
            final(self).title@ == old(self).title@,
            old(self).wf() ==> final(self).wf(),
    {
        let index = self.byte_index();
        if index >= 19 {
            return ;
        }
        let cs = chars_of(self.input.as_str());
        let is_valid = if index == 0 {
            new_char == '0' || new_char == '1'
        } else if index == 1 {
            let first = if cs.len() > 0 {
                cs[0]
            } else {
                '0'
            };
            if first == '1' {
                new_char == '0' || new_char == '1' || new_char == '2'
            } else {
                true
            }
        } else if index == 3 {
            new_char == '0' || new_char == '1' || new_char == '2' || new_char == '3'
        } else if index == 4 {
            let first = if cs.len() > 3 {
                cs[3]
            } else {
                '0'
            };
            if first == '3' {
                new_char == '0' || new_char == '1'
            } else {
                true
            }
        } else if index == 11 {
            new_char == '0' || new_char == '1' || new_char == '2'
        } else if index == 12 {
            let first = if cs.len() > 11 {
                cs[11]
            } else {
                '0'
            };
            if first == '2' {
                new_char == '0' || new_char == '1' || new_char == '2' || new_char == '3'
            } else {
                true
            }
        } else if index == 14 || index == 17 {
            new_char == '0' || new_char == '1' || new_char == '2' || new_char == '3'
                || new_char == '4' || new_char == '5'
        } else {
            true
        };
        if !is_valid {
            return ;
        }
        self.insert_char(new_char);
        let next_index = self.byte_index();
        if next_index == 2 || next_index == 5 {
            self.auto_insert('/');
        } else if next_index == 10 {
            self.auto_insert(' ');
        } else if next_index == 13 || next_index == 16 {
            self.auto_insert(':');
        }
    }

    /// Types `separator` at the cursor unless the character at the position given by the
    /// cursor's byte offset already is `separator`.
    pub fn auto_insert(&mut self, separator: char)
        ensures
            (final(self).input@, final(self).cursor()) == auto_insert_result(
                old(self).input@,
                old(self).cursor(),
                separator,
            ),
            final(self).focused == old(self).focused,
            final(self).title@ == old(self).title@,
            old(self).wf() ==> final(self).wf(),
    {
        let i = self.byte_index();
        let cs = chars_of(self.input.as_str());
        let present = i < cs.len() && cs[i] == separator;
        if !present {
            self.insert_char(separator);
        }
    }

    /// Deletes the character left of the cursor and moves the cursor left.
    pub fn delete_char(&mut self)
        ensures
            (final(self).input@, final(self).cursor()) == delete_char_result(
                old(self).input@,
                old(self).cursor(),
            ),
            final(self).focused == old(self).focused,
            final(self).title@ == old(self).title@,
            final(self).wf() || old(self).cursor() == 0 && !old(self).wf(),
    {
        let is_not_cursor_leftmost = self.character_index != 0;
        if is_not_cursor_leftmost {
            let cs = chars_of(self.input.as_str());
            let n = cs.len();
            let current_index = self.character_index;
            let from_left_to_current_index = current_index - 1;
            let before = if from_left_to_current_index < n {
                from_left_to_current_index
            } else {
                n
            };
            let after = if current_index < n {
                current_index
            } else {
                n
            };
            let mut kept: Vec<char> = Vec::new();
            let mut i: usize = 0;
            while i < before
                invariant
                    before <= n,
                    n == cs@.len(),
                    i <= before,
                    kept@ == cs@.take(i as int),
                decreases before - i,
            {
                kept.push(cs[i]);
                assert(kept@ =~= cs@.take(i + 1));
                i += 1;
            }
            let mut j: usize = after;
            while j < n
                invariant
                    before <= after <= n,
                    n == cs@.len(),
                    after <= j <= n,
                    kept@ == cs@.take(before as int) + cs@.subrange(after as int, j as int),
                decreases n - j,
            {
                kept.push(cs[j]);
                assert(kept@ =~= cs@.take(before as int) + cs@.subrange(after as int, j + 1));
                j += 1;
            }
            assert(cs@.subrange(after as int, n as int) =~= cs@.skip(after as int));
            self.input = string_from_chars(&kept);
            self.move_cursor_left();
        }
    }

    /// Moves the cursor to the start.
    pub fn reset_cursor(&mut self)
        ensures
            final(self).cursor() == 0,
            final(self).input@ == old(self).input@,
            final(self).focused == old(self).focused,
            final(self).title@ == old(self).title@,
            final(self).wf(),
    {
        self.character_index = 0;
    }

    /// Empties the box.
    pub fn submit_message(&mut self)
        ensures
            final(self).input@ == Seq::<char>::empty(),
            final(self).cursor() == 0,
            final(self).focused == old(self).focused,
            final(self).title@ == old(self).title@,
            final(self).wf(),
    {
        self.input = String::new();
        self.reset_cursor();
    }

    /// Microseconds since the epoch of the local time written in `s` as
    /// `mm/dd/yyyy hh:mm:ss` (exactly 19 bytes, separators in place), which lies within a
    /// day of that time read as UTC; 0 otherwise, or when that local time does not exist
    /// or is ambiguous.
    pub fn parse_human_time(s: &str) -> (r: i64)
        ensures
            s.spec_bytes().len() != 19 ==> r == 0,
            s.spec_bytes().len() == 19 && !human_time_shape(s.spec_bytes()) ==> r == 0,
            !naive_parses(s@, HUMAN_TIME_FORMAT@) ==> r == 0,
            naive_parses(s@, HUMAN_TIME_FORMAT@) ==> r == 0 || within_a_day(
                r as int,
                naive_micros(s@, HUMAN_TIME_FORMAT@),
            ),
    {
        parse_human_time_strict(s)
    }

    /// Reacts to a key while the box is shown: when the box is focused and the key is a
    /// press, Enter empties it, a digit is typed, Backspace deletes.  Returns whether the
    /// text now is a complete time (after a digit) or empty (after Backspace).
    pub fn handle_key(&mut self, key: Option<KeyInput>) -> (r: bool)
        ensures
            final(self).focused == old(self).focused,
            final(self).title@ == old(self).title@,
            old(self).wf() ==> final(self).wf(),
            match key {
                Some(k) if old(self).focused && k.press => match k.code {
                    KeyCode::Enter => final(self).input@ == Seq::<char>::empty()
                        && final(self).cursor() == 0 && !r,
                    KeyCode::Char(c) if '0' <= c <= '9' => {
                        &&& (final(self).input@, final(self).cursor())
                            == enter_char_result(old(self).input@, old(self).cursor(), c)
                        &&& r ==> {
                            let b = encode_utf8(final(self).input@);
                            &&& b.len() == 19
                            &&& human_time_shape(b)
                            &&& naive_parses(final(self).input@, HUMAN_TIME_FORMAT@)
                        }
                    },
                    KeyCode::Backspace => {
                        &&& (final(self).input@, final(self).cursor())
                            == delete_char_result(old(self).input@, old(self).cursor())
                        &&& r == (final(self).input@.len() == 0)
                    },
                    _ => final(self).input@ == old(self).input@
                        && final(self).cursor() == old(self).cursor() && !r,
                },
                _ => final(self).input@ == old(self).input@
                    && final(self).cursor() == old(self).cursor() && !r,
            },
    {
        let mut key_pressed = false;
        if let Some(k) = key {
            if self.focused && k.press {
                match k.code {
                    KeyCode::Enter => self.submit_message(),
                    KeyCode::Char(c) => {
                        if '0' <= c && c <= '9' {
                            self.enter_char(c);
                            key_pressed = true;
                        }
                    },
                    KeyCode::Backspace => {
                        self.delete_char();
                        return self.input.as_str().is_empty();
                    },
                    _ => {},
                }
            }
        }
        if key_pressed {
            let ts = Self::parse_human_time(self.input.as_str());
            return ts != 0;
        }
        false
    }
}

/// Text made of digits and separators is ASCII.
proof fn lemma_date_text_ascii(s: Seq<char>)
    requires
        date_text(s),
    ensures
        is_ascii_chars(s),
{
    assert forall|i: int| 0 <= i < s.len() implies '\0' <= #[trigger] s[i] <= '\u{7f}' by {
        let c = s[i];
        assert(('0' <= c <= '9') || c == '/' || c == ' ' || c == ':');
    }
}

/// Character `i` of `s` follows the format: a separator where `mm/dd/yyyy hh:mm:ss`
/// has one, else a digit that the rules of its field let stand there.
pub open spec fn place_ok(s: Seq<char>, i: int) -> bool {
    match separator_at(i) {
        Some(sep) => s[i] == sep,
        None => '0' <= s[i] <= '9' && date_char_allowed(s, i, s[i]),
    }
}

/// `s` is a beginning of a time written as `mm/dd/yyyy hh:mm:ss`, every character in
/// its place.
pub open spec fn date_prefix(s: Seq<char>) -> bool {
    &&& s.len() <= 19
    &&& forall|i: int| 0 <= i < s.len() ==> #[trigger] place_ok(s, i)
}

/// `s` is a beginning of a time written as `mm/dd/yyyy hh:mm:ss` that does not stop
/// right before a separator (the box types separators as soon as a field is full).
pub open spec fn date_shape(s: Seq<char>) -> bool {
    &&& date_prefix(s)
    &&& separator_at(s.len() as int) is None
}

/// Whether a digit may stand at a position depends only on the characters before it.
proof fn lemma_allowed_depends_on_prefix(s: Seq<char>, t: Seq<char>, i: int, c: char)
    requires
        0 <= i <= s.len(),
        i <= t.len(),
        forall|j: int| 0 <= j < i ==> s[j] == t[j],
    ensures
        date_char_allowed(s, i, c) == date_char_allowed(t, i, c),
{
    if i == 1 {
        assert(nth_char(s, 0) == nth_char(t, 0));
    } else if i == 4 {
        assert(nth_char(s, 3) == nth_char(t, 3));
    } else if i == 12 {
        assert(nth_char(s, 11) == nth_char(t, 11));
    }
}

/// A beginning of a time is made of digits and separators.
proof fn lemma_prefix_is_date_text(s: Seq<char>)
    requires
        date_prefix(s),
    ensures
        date_text(s),
{
    assert forall|i: int| 0 <= i < s.len() implies {
        let c = #[trigger] s[i];
        ('0' <= c <= '9') || c == '/' || c == ' ' || c == ':'
    } by {
        assert(place_ok(s, i));
    }
}

/// Appending a character that follows the format keeps the earlier characters in their
/// places.
proof fn lemma_push_keeps_prefix(s: Seq<char>, c: char)
    requires
        date_prefix(s),
        s.len() < 19,
        place_ok(s.push(c), s.len() as int),
    ensures
        date_prefix(s.push(c)),
{
    let t = s.push(c);
    assert forall|i: int| 0 <= i < t.len() implies #[trigger] place_ok(t, i) by {
        if i < s.len() {
            assert(place_ok(s, i));
            assert(t[i] == s[i]);
            lemma_allowed_depends_on_prefix(s, t, i, s[i]);
        }
    }
}

/// Typing a digit into a box that holds the beginning of a time, with the cursor at its
/// end, keeps a beginning of a time there (the box adds the separator when a field is
/// full) and the cursor at its end.
pub proof fn lemma_typing_keeps_date_shape(s: Seq<char>, c: char)
    requires
        date_shape(s),
        '0' <= c <= '9',
    ensures
        date_shape(enter_char_result(s, s.len() as int, c).0),
        enter_char_result(s, s.len() as int, c).1 == enter_char_result(
            s,
            s.len() as int,
            c,
        ).0.len(),
{
    let k = s.len() as int;
    lemma_prefix_is_date_text(s);
    lemma_date_text_ascii(s);
    lemma_ascii_offset(s, k);
    let b = byte_offset(s, k);
    assert(b == s.len());
    if b >= 19 || !date_char_allowed(s, b, c) {
    } else {
        let (s1, k1) = insert_at_cursor(s, k, c);
        assert(s1 =~= s.push(c));
        assert(k1 == s.len() + 1);
        lemma_allowed_depends_on_prefix(s, s1, k, c);
        assert(place_ok(s1, k));
        lemma_push_keeps_prefix(s, c);
        lemma_prefix_is_date_text(s1);
        lemma_date_text_ascii(s1);
        lemma_ascii_offset(s1, k1);
        match separator_at(byte_offset(s1, k1)) {
            Some(sep) => {
                assert(nth_char(s1, byte_offset(s1, k1)) is None);
                let (s2, k2) = insert_at_cursor(s1, k1, sep);
                assert(s2 =~= s1.push(sep));
                assert(place_ok(s2, k1));
                lemma_push_keeps_prefix(s1, sep);
            },
            None => {},
        }
    }
}

/// Deleting the last character of a box that holds the beginning of a time keeps the
/// beginning of a time, with the cursor at its end.
pub proof fn lemma_delete_keeps_date_prefix(s: Seq<char>)
    requires
        date_prefix(s),
    ensures
        date_prefix(delete_char_result(s, s.len() as int).0),
        delete_char_result(s, s.len() as int).1 == delete_char_result(s, s.len() as int).0.len(),
{
    let k = s.len() as int;
    if k != 0 {
        let s1 = delete_char_result(s, k).0;
        assert(s1 =~= s.take(k - 1));
        assert forall|i: int| 0 <= i < s1.len() implies #[trigger] place_ok(s1, i) by {
            assert(place_ok(s, i));
            assert(s1[i] == s[i]);
            lemma_allowed_depends_on_prefix(s, s1, i, s[i]);
        }
    }
}

/// A box holding a whole time (19 characters) has its separators where the time parser
/// looks for them.
pub proof fn lemma_full_date_has_separators(s: Seq<char>)
    requires
        date_prefix(s),
        s.len() == 19,
    ensures
        encode_utf8(s).len() == 19,
        human_time_shape(encode_utf8(s)),
{
    lemma_prefix_is_date_text(s);
    lemma_date_text_ascii(s);
    is_ascii_chars_encode_utf8(s);
    assert(place_ok(s, 2));
    assert(place_ok(s, 5));
    assert(place_ok(s, 10));
    assert(place_ok(s, 13));
    assert(place_ok(s, 16));
}

/// Text and cursor of a box that starts empty and gets the keys `keys` in turn: a
/// character is typed, and `None` stands for Enter, which empties the box.
pub open spec fn after_keys(keys: Seq<Option<char>>) -> (Seq<char>, int)
    decreases keys.len(),
{
    if keys.len() == 0 {
        (Seq::empty(), 0)
    } else {
        let (s, k) = after_keys(keys.drop_last());
        match keys.last() {
            Some(c) => enter_char_result(s, k, c),
            None => (Seq::empty(), 0),
        }
    }
}

/// However digits and Enter follow each other, a box that started empty holds the
/// beginning of a time written as `mm/dd/yyyy hh:mm:ss` (never stopping right before a
/// separator), with the cursor at its end.
pub proof fn lemma_typed_box_keeps_date_shape(keys: Seq<Option<char>>)
    requires
        forall|i: int| 0 <= i < keys.len() ==> (#[trigger] keys[i] matches Some(c) ==> '0' <= c <= '9'),
    ensures
        date_shape(after_keys(keys).0),
        after_keys(keys).1 == after_keys(keys).0.len(),
    decreases keys.len(),
{
    if keys.len() == 0 {
    } else {
        let rest = keys.drop_last();
        assert forall|i: int| 0 <= i < rest.len() implies (#[trigger] rest[i] matches Some(c) ==> '0'
            <= c <= '9') by {
            assert(rest[i] == keys[i]);
        }
        lemma_typed_box_keeps_date_shape(rest);
        let (s, k) = after_keys(rest);
        match keys.last() {
            Some(c) => {
                assert(keys[keys.len() - 1] == keys.last());
                lemma_typing_keeps_date_shape(s, c);
            },
            None => {},
        }
    }
}

/// Whatever digits and Enter a box that started empty gets, its text is the beginning
/// of a valid `mm/dd/yyyy hh:mm:ss`, with the cursor at its end: separators at their
/// places and digits elsewhere, at most 19 characters, never stopping right before a
/// separator, a month whose first digit is 0 or 1 (then 0 to 2 after a 1), a day
/// whose first digit is 0 to 3 (then 0 or 1 after a 3), an hour whose first digit is 0
/// to 2 (then 0 to 3 after a 2), and minutes and seconds whose first digit is 0 to 5.
pub proof fn lemma_typed_box_is_time_prefix(keys: Seq<Option<char>>)
    requires
        forall|i: int| 0 <= i < keys.len() ==> (#[trigger] keys[i] matches Some(c) ==> '0' <= c <= '9'),
    ensures
        ({
            let s = after_keys(keys).0;
            &&& after_keys(keys).1 == s.len()
            &&& s.len() <= 19
            &&& s.len() != 2 && s.len() != 5 && s.len() != 10 && s.len() != 13 && s.len() != 16
            &&& forall|i: int|
                0 <= i < s.len() ==> if i == 2 || i == 5 {
                    #[trigger] s[i] == '/'
                } else if i == 10 {
                    s[i] == ' '
                } else if i == 13 || i == 16 {
                    s[i] == ':'
                } else {
                    '0' <= s[i] <= '9'
                }
            &&& s.len() > 0 ==> s[0] <= '1'
            &&& s.len() > 1 && s[0] == '1' ==> s[1] <= '2'
            &&& s.len() > 3 ==> s[3] <= '3'
            &&& s.len() > 4 && s[3] == '3' ==> s[4] <= '1'
            &&& s.len() > 11 ==> s[11] <= '2'
            &&& s.len() > 12 && s[11] == '2' ==> s[12] <= '3'
            &&& s.len() > 14 ==> s[14] <= '5'
            &&& s.len() > 17 ==> s[17] <= '5'
        }),
{
    lemma_typed_box_keeps_date_shape(keys);
    let s = after_keys(keys).0;
    assert forall|i: int| 0 <= i < s.len() implies if i == 2 || i == 5 {
        #[trigger] s[i] == '/'
    } else if i == 10 {
        s[i] == ' '
    } else if i == 13 || i == 16 {
        s[i] == ':'
    } else {
        '0' <= s[i] <= '9'
    } by {
        assert(place_ok(s, i));
    }
    if s.len() > 0 {
        assert(place_ok(s, 0));
    }
    if s.len() > 1 {
        assert(place_ok(s, 1));
    }
    if s.len() > 3 {
        assert(place_ok(s, 3));
    }
    if s.len() > 4 {
        assert(place_ok(s, 4));
    }
    if s.len() > 11 {
        assert(place_ok(s, 11));
    }
    if s.len() > 12 {
        assert(place_ok(s, 12));
    }
    if s.len() > 14 {
        assert(place_ok(s, 14));
    }
    if s.len() > 17 {
        assert(place_ok(s, 17));
    }
}

} // verus!
