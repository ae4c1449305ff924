//! Character-level text helpers shared by the other modules.
use vstd::prelude::*;
use vstd::utf8::*;
use vstd::std_specs::iter::IteratorSpec;

verus! {

broadcast use vstd::string::group_string_axioms;

/// Number of bytes of the UTF-8 encoding of `c`.
pub open spec fn utf8_width(c: char) -> nat {
    if (c as u32) <= 0x7F {
        1
    } else if (c as u32) <= 0x7FF {
        2
    } else if (c as u32) <= 0xFFFF {
        3
    } else {
        4
    }
}

/// The UTF-8 encoding of a concatenation is the concatenation of the encodings.
pub proof fn lemma_encode_utf8_concat(a: Seq<char>, b: Seq<char>)
    ensures
        encode_utf8(a + b) == encode_utf8(a) + encode_utf8(b),
    decreases a.len(),
{
    if a.len() == 0 {
        assert(a + b =~= b);
        assert(encode_utf8(a) =~= Seq::<u8>::empty());
        assert(encode_utf8(a) + encode_utf8(b) =~= encode_utf8(b));
    } else {
        lemma_encode_utf8_concat(a.drop_first(), b);
        assert((a + b).drop_first() =~= a.drop_first() + b);
        assert((a + b)[0] == a[0]);
        assert(encode_utf8(a + b) =~= encode_scalar(a[0] as u32) + encode_utf8(a.drop_first() + b));
        assert(encode_utf8(a) =~= encode_scalar(a[0] as u32) + encode_utf8(a.drop_first()));
    }
}

/// The encoding of one character takes `utf8_width` bytes.
pub proof fn lemma_encode_utf8_single(c: char)
    ensures
        encode_utf8(seq![c]).len() == utf8_width(c),
{
    char_is_scalar(c);
    assert(seq![c].drop_first() =~= Seq::<char>::empty());
    assert(seq![c][0] == c);
    assert(encode_utf8(Seq::<char>::empty()) =~= Seq::<u8>::empty());
    assert(encode_utf8(seq![c]) =~= encode_scalar(c as u32));
}

/// The encoding of a sequence pushed by one character grows by that character's width.
pub proof fn lemma_encode_utf8_push(s: Seq<char>, c: char)
    ensures
        encode_utf8(s.push(c)).len() == encode_utf8(s).len() + utf8_width(c),
{
    assert(s.push(c) =~= s + seq![c]);
    lemma_encode_utf8_concat(s, seq![c]);
    lemma_encode_utf8_single(c);
}

/// Appends `c` to `s`.
#[verifier::external_body]
pub(crate) fn string_push(s: &mut String, c: char)
    ensures
        final(s)@ == old(s)@.push(c),
{
    s.push(c);
}

/// The characters of `s`, in order.
pub fn chars_of(s: &str) -> (r: Vec<char>)
    ensures
        r@ == s@,
{
    let mut r: Vec<char> = Vec::new();
    let mut it = s.chars();
    loop
        invariant
            r@ + it.remaining() == s@,
            it.obeys_prophetic_iter_laws(),
            it.decrease() is Some,
        ensures
            r@ == s@,
        decreases it.decrease()->0,
    {
        let ghost before = it.remaining();
        match it.next() {
            Some(c) => {
                r.push(c);
                assert(r@ + it.remaining() =~= s@) by {
                    assert(before =~= seq![c] + before.drop_first());
                }
            },
            None => {
                assert(r@ =~= s@);
                break ;
            },
        }
    }
    r
}

/// A `String` holding the characters `cs@[from..to]`.
pub fn string_from_range(cs: &Vec<char>, from: usize, to: usize) -> (r: String)
    requires
        from <= to <= cs@.len(),
    ensures
        r@ == cs@.subrange(from as int, to as int),
{
    let mut r = String::new();
    let mut i = from;
    while i < to
        invariant
            from <= i <= to <= cs@.len(),
            r@ == cs@.subrange(from as int, i as int),
        decreases to - i,
    {
        string_push(&mut r, cs[i]);
        assert(r@ =~= cs@.subrange(from as int, i + 1));
        i += 1;
    }
    r
}

/// A `String` holding the characters of `cs`.
pub fn string_from_chars(cs: &Vec<char>) -> (r: String)
    ensures
        r@ == cs@,
{
    let r = string_from_range(cs, 0, cs.len());
    assert(cs@.subrange(0, cs@.len() as int) =~= cs@);
    r
}

/// `needle` occurs in `hay` starting at position `i`.
pub open spec fn occurs_at(hay: Seq<char>, needle: Seq<char>, i: int) -> bool {
    &&& 0 <= i
    &&& i + needle.len() <= hay.len()
    &&& hay.subrange(i, i + needle.len()) == needle
}

/// `needle` occurs somewhere in `hay`.
pub open spec fn contains_seq(hay: Seq<char>, needle: Seq<char>) -> bool {
    exists|i: int| occurs_at(hay, needle, i)
}

/// First position at or after `from` where `needle` occurs in `hay`, if any.
pub open spec fn first_match(hay: Seq<char>, needle: Seq<char>, from: int) -> Option<int>
    decreases hay.len() + 1 - from,
{
    if from < 0 || from + needle.len() > hay.len() {
        None
    } else if occurs_at(hay, needle, from) {
        Some(from)
    } else {
        first_match(hay, needle, from + 1)
    }
}

/// `first_match` is the least occurrence at or after `from`.
pub proof fn lemma_first_match(hay: Seq<char>, needle: Seq<char>, from: int, r: Option<int>)
    requires
        0 <= from,
        match r {
            Some(i) => {
                &&& from <= i
                &&& occurs_at(hay, needle, i)
                &&& forall|j: int| from <= j < i ==> !occurs_at(hay, needle, j)
            },
            None => forall|j: int| from <= j ==> !occurs_at(hay, needle, j),
        },
    ensures
        first_match(hay, needle, from) == r,
    decreases hay.len() + 1 - from,
{
    if from + needle.len() > hay.len() {
        if let Some(i) = r {
            assert(false);
        }
    } else if occurs_at(hay, needle, from) {
        if let Some(i) = r {
            if i > from {
                assert(!occurs_at(hay, needle, from));
            }
        }
    } else {
        if let Some(i) = r {
            assert(i != from);
        }
        lemma_first_match(hay, needle, from + 1, r);
    }
}

/// First position at or after `from` where `needle` occurs in `hay`.
pub fn find_from(hay: &Vec<char>, needle: &Vec<char>, from: usize) -> (r: Option<usize>)
    ensures
        match r {
            Some(i) => {
                &&& from <= i
                &&& occurs_at(hay@, needle@, i as int)
                &&& forall|j: int| from <= j < i ==> !occurs_at(hay@, needle@, j)
            },
            None => forall|j: int| from <= j ==> !occurs_at(hay@, needle@, j),
        },
        r matches Some(i) ==> first_match(hay@, needle@, from as int) == Some(i as int),
        r is None ==> first_match(hay@, needle@, from as int) is None,
{
    let r = find_from_scan(hay, needle, from);
    proof {
        match r {
            Some(i) => lemma_first_match(hay@, needle@, from as int, Some(i as int)),
            None => lemma_first_match(hay@, needle@, from as int, None),
        }
    }
    r
}

fn find_from_scan(hay: &Vec<char>, needle: &Vec<char>, from: usize) -> (r: Option<usize>)
    ensures
        match r {
            Some(i) => {
                &&& from <= i
                &&& occurs_at(hay@, needle@, i as int)
                &&& forall|j: int| from <= j < i ==> !occurs_at(hay@, needle@, j)
            },
            None => forall|j: int| from <= j ==> !occurs_at(hay@, needle@, j),
        },
{
    let n = hay.len();
    let m = needle.len();
    if m > n {
        return None;
    }
    let mut i = from;
    while i <= n - m
        invariant
            n == hay@.len(),
            m == needle@.len(),
            m <= n,
            from <= i,
            forall|j: int| from <= j < i ==> !occurs_at(hay@, needle@, j),
        decreases n - i,
    {
        let mut k: usize = 0;
        while k < m && hay[i + k] == needle[k]
            invariant
                n == hay@.len(),
                m == needle@.len(),
                i + m <= n,
                k <= m,
                forall|t: int| 0 <= t < k ==> hay@[i + t] == needle@[t],
            decreases m - k,
        {
            k += 1;
        }
        if k == m {
            assert(hay@.subrange(i as int, i + m) =~= needle@);
            return Some(i);
        }
        assert(!occurs_at(hay@, needle@, i as int)) by {
            if occurs_at(hay@, needle@, i as int) {
                assert(hay@.subrange(i as int, i + m)[k as int] == needle@[k as int]);
            }
        }
        i += 1;
    }
    None
}

/// Whether `needle` occurs in `hay`.
pub fn contains_chars(hay: &Vec<char>, needle: &Vec<char>) -> (r: bool)
    ensures
        r == contains_seq(hay@, needle@),
{
    match find_from(hay, needle, 0) {
        Some(i) => true,
        None => false,
    }
}

/// Whether `needle` occurs in `hay` (as `str::contains` with a string pattern).
pub fn str_contains(hay: &str, needle: &str) -> (r: bool)
    ensures
        r == contains_seq(hay@, needle@),
{
    let h = chars_of(hay);
    let n = chars_of(needle);
    contains_chars(&h, &n)
}

/// `s` with each tab replaced by four spaces and each carriage return removed.
pub open spec fn sanitize(s: Seq<char>) -> Seq<char>
    decreases s.len(),
{
    if s.len() == 0 {
        Seq::empty()
    } else {
        let rest = sanitize(s.drop_last());
        let c = s.last();
        if c == '\t' {
            rest + seq![' ', ' ', ' ', ' ']
        } else if c == '\r' {
            rest
        } else {
            rest.push(c)
        }
    }
}

/// Replaces each tab of `cs[from..to]` by four spaces and drops each carriage return.
pub fn sanitize_range(cs: &Vec<char>, from: usize, to: usize) -> (r: String)
    requires
        from <= to <= cs@.len(),
    ensures
        r@ == sanitize(cs@.subrange(from as int, to as int)),
{
    let mut r = String::new();
    let mut i = from;
    assert(cs@.subrange(from as int, from as int) =~= Seq::<char>::empty());
    while i < to
        invariant
            from <= i <= to <= cs@.len(),
            r@ == sanitize(cs@.subrange(from as int, i as int)),
        decreases to - i,
    {
        let c = cs[i];
        let ghost next = cs@.subrange(from as int, i + 1);
        assert(next.drop_last() =~= cs@.subrange(from as int, i as int));
        assert(next.last() == c);
        if c == '\t' {
            string_push(&mut r, ' ');
            string_push(&mut r, ' ');
            string_push(&mut r, ' ');
            string_push(&mut r, ' ');
            assert(r@ =~= sanitize(next));
        } else if c == '\r' {
        } else {
            string_push(&mut r, c);
        }
        i += 1;
    }
    r
}

/// `s` with every occurrence of `pat` removed, scanning from the left (as
/// `str::replace(pat, "")` does).
pub open spec fn strip_all(s: Seq<char>, pat: Seq<char>) -> Seq<char>
    decreases s.len(),
{
    if pat.len() == 0 || s.len() < pat.len() {
        s
    } else if s.take(pat.len() as int) == pat {
        strip_all(s.skip(pat.len() as int), pat)
    } else {
        seq![s[0]] + strip_all(s.drop_first(), pat)
    }
}

/// `s` with every occurrence of `pat` removed, scanning from the left.
pub fn strip_all_str(s: &str, pat: &str) -> (r: String)
    ensures
        r@ == strip_all(s@, pat@),
{
    let cs = chars_of(s);
    let ps = chars_of(pat);
    let n = cs.len();
    let m = ps.len();
    if m == 0 {
        return string_from_chars(&cs);
    }
    let mut r = String::new();
    let mut i: usize = 0;
    assert(cs@.skip(0) =~= cs@);
    while i < n
        invariant
            i <= n,
            n == cs@.len(),
            m == ps@.len(),
            m > 0,
            cs@ == s@,
            ps@ == pat@,
            r@ + strip_all(cs@.skip(i as int), ps@) == strip_all(cs@, ps@),
        decreases n - i,
    {
        let ghost rest = cs@.skip(i as int);
        let mut k: usize = 0;
        if m <= n - i {
            while k < m && cs[i + k] == ps[k]
                invariant
                    n == cs@.len(),
                    m == ps@.len(),
                    i + m <= n,
                    k <= m,
                    forall|t: int| 0 <= t < k ==> cs@[i + t] == ps@[t],
                decreases m - k,
            {
                k += 1;
            }
        }
        if m <= n - i && k == m {
            assert(rest.take(m as int) =~= ps@);
            assert(rest.skip(m as int) =~= cs@.skip(i + m));
            i = i + m;
        } else {
            assert(rest.len() < m || rest.take(m as int) != ps@) by {
                if rest.len() >= m && rest.take(m as int) == ps@ {
                    assert(rest.take(m as int)[k as int] == ps@[k as int]);
                }
            }
            assert(rest.drop_first() =~= cs@.skip(i + 1));
            assert(rest[0] == cs@[i as int]);
            let ghost before = r@;
            string_push(&mut r, cs[i]);
            assert(r@ + strip_all(cs@.skip(i + 1), ps@) =~= before + (seq![cs@[i as int]]
                + strip_all(cs@.skip(i + 1), ps@)));
            i = i + 1;
        }
    }
    assert(cs@.skip(n as int) =~= Seq::<char>::empty());
    assert(r@ + Seq::<char>::empty() =~= r@);
    r
}

/// The text `str::to_lowercase` makes of `s`.
pub uninterp spec fn lowercase(s: Seq<char>) -> Seq<char>;

/// Calls `str::to_lowercase(s)`.  The contract names the result, which depends on `s`
/// alone; the Unicode case tables are not written out.
#[verifier::external_body]
pub(crate) fn to_lowercase(s: &str) -> (r: String)
    ensures
        r@ == lowercase(s@),
{
    s.to_lowercase()
}

/// The text `String::from_utf8_lossy` makes of `bytes`.
pub uninterp spec fn lossy_text(bytes: Seq<u8>) -> Seq<char>;

/// Calls `String::from_utf8_lossy(bytes)` and takes the text as an owned `String`.  The
/// contract names the result, which depends on `bytes` alone, and states what the
/// documentation promises: valid UTF-8 comes back as the text it encodes.  How invalid
/// sequences are replaced is not written out.
#[verifier::external_body]
pub(crate) fn decode_lossy(bytes: &[u8]) -> (r: String)
    ensures
        r@ == lossy_text(bytes@),
        valid_utf8(bytes@) ==> r@ == decode_utf8(bytes@),
{
    String::from_utf8_lossy(bytes).into_owned()
}

/// `line` without one trailing carriage return.
pub open spec fn strip_cr(line: Seq<char>) -> Seq<char> {
    if line.len() > 0 && line.last() == '\r' {
        line.drop_last()
    } else {
        line
    }
}

/// The lines of `s[i..]` when the current line so far is `cur`, as `str::lines` splits
/// them: at each `\n`, dropping a `\r` right before it; a last line without `\n` counts
/// only when it is not empty.
pub open spec fn lines_from(s: Seq<char>, i: int, cur: Seq<char>) -> Seq<Seq<char>>
    decreases s.len() - i,
{
    if i < 0 || i >= s.len() {
        if cur.len() > 0 {
            seq![cur]
        } else {
            Seq::empty()
        }
    } else if s[i] == '\n' {
        seq![strip_cr(cur)] + lines_from(s, i + 1, Seq::empty())
    } else {
        lines_from(s, i + 1, cur.push(s[i]))
    }
}

/// The lines of `s`, as `str::lines` gives them.
pub open spec fn lines_of(s: Seq<char>) -> Seq<Seq<char>> {
    lines_from(s, 0, Seq::empty())
}

/// The lines of `s`, as `str::lines` gives them.
pub fn split_lines(s: &str) -> (r: Vec<String>)
    ensures
        r@.len() == lines_of(s@).len(),
        forall|k: int| 0 <= k < r@.len() ==> #[trigger] r@[k]@ == lines_of(s@)[k],
{
    let cs = chars_of(s);
    let n = cs.len();
    let mut out: Vec<String> = Vec::new();
    let mut cur: Vec<char> = Vec::new();
    let mut i: usize = 0;
    let ghost total = lines_of(s@);
    while i < n
        invariant
            i <= n,
            n == cs@.len(),
            cs@ == s@,
            total == lines_of(s@),
            out@.len() + lines_from(cs@, i as int, cur@).len() == total.len(),
            forall|k: int| 0 <= k < out@.len() ==> #[trigger] out@[k]@ == total[k],
            forall|k: int|
                0 <= k < lines_from(cs@, i as int, cur@).len() ==> #[trigger] lines_from(
                    cs@,
                    i as int,
                    cur@,
                )[k] == total[out@.len() + k],
        decreases n - i,
    {
        let c = cs[i];
        if c == '\n' {
            let ghost rest = lines_from(cs@, i + 1, Seq::empty());
            let ghost cur_before = cur@;
            assert(lines_from(cs@, i as int, cur@) =~= seq![strip_cr(cur@)] + rest);
            let m = cur.len();
            let line = if m > 0 && cur[m - 1] == '\r' {
                assert(cur@.subrange(0, m - 1) =~= cur@.drop_last());
                string_from_range(&cur, 0, m - 1)
            } else {
                assert(cur@.subrange(0, m as int) =~= cur@);
                string_from_range(&cur, 0, m)
            };
            let ghost before = out@;
            assert(line@ == total[before.len() as int]) by {
                assert((seq![strip_cr(cur@)] + rest)[0] == strip_cr(cur@));
            }
            out.push(line);
            cur = Vec::new();
            proof {
                assert forall|k: int| 0 <= k < rest.len() implies #[trigger] rest[k] == total[out@.len()
                    + k] by {
                    assert((seq![strip_cr(cur_before)] + rest)[k + 1] == rest[k]);
                }
                assert(cur@ =~= Seq::<char>::empty());
            }
        } else {
            cur.push(c);
        }
        i += 1;
    }
    if cur.len() > 0 {
        assert(lines_from(cs@, n as int, cur@) =~= seq![cur@]);
        let line = string_from_chars(&cur);
        let ghost before = out@;
        assert(line@ == total[before.len() as int]) by {
            assert(lines_from(cs@, n as int, cur@)[0] == cur@);
        }
        out.push(line);
        assert forall|k: int| 0 <= k < out@.len() implies #[trigger] out@[k]@ == total[k] by {
            if k < before.len() {
                assert(out@[k] == before[k]);
            }
        }
    }
    out
}

} // verus!
