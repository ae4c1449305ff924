//! Journal entries as read from the system journal, and their ordering by time.
use vstd::prelude::*;
use std::collections::HashMap;
use crate::log_level::{LogLevel, level_of};
use crate::number::{parse_u64, parses_u64};

verus! {

/// One journal entry, with the fields the viewer shows.
pub struct JournalEntry {
    pub message: String,
    pub priority: LogLevel,
    pub unit: Option<String>,
    pub pid: Option<String>,
    pub hostname: Option<String>,
    /// Microseconds since the epoch, as the journal writes them.
    pub timestamp_usec: String,
    pub executable_path: Option<String>,
    pub command: Option<String>,
    pub cursor: String,
    /// Fields without a place of their own.
    pub extra_fields: HashMap<String, String>,
}

/// The raw fields of a journal entry, as the journal hands them out: each one may be
/// missing.
pub struct JournalRecord {
    /// `MESSAGE`
    pub message: Option<String>,
    /// `PRIORITY`
    pub priority: Option<String>,
    /// `_SYSTEMD_UNIT`
    pub unit: Option<String>,
    /// `_PID`
    pub pid: Option<String>,
    /// `_HOSTNAME`
    pub hostname: Option<String>,
    /// `__REALTIME_TIMESTAMP`
    pub timestamp: Option<String>,
    /// `_EXE`
    pub executable_path: Option<String>,
    /// `_COMM`
    pub command: Option<String>,
    /// `__CURSOR`
    pub cursor: Option<String>,
}

/// The text of an optional field, or the empty text.
pub open spec fn text_or_empty(o: Option<String>) -> Seq<char> {
    match o {
        Some(s) => s@,
        None => Seq::empty(),
    }
}

/// The level of the optional priority field; a missing priority counts as `"6"` (Info).
pub open spec fn priority_or_info(o: Option<String>) -> LogLevel {
    match o {
        Some(s) => level_of(s@),
        None => LogLevel::Info,
    }
}

/// The key by which entries are ordered: the timestamp read as a number, 0 when it
/// does not read as one.
pub open spec fn timestamp_key(e: JournalEntry) -> u64 {
    match parses_u64(e.timestamp_usec@) {
        Some(v) => v,
        None => 0,
    }
}

/// The entries of `s` whose key is `k`, in the order of `s`.
pub open spec fn entries_with_key(s: Seq<JournalEntry>, k: u64) -> Seq<JournalEntry>
    decreases s.len(),
{
    if s.len() == 0 {
        Seq::empty()
    } else if timestamp_key(s[0]) == k {
        seq![s[0]] + entries_with_key(s.drop_first(), k)
    } else {
        entries_with_key(s.drop_first(), k)
    }
}

/// `s` is ordered by key.
pub open spec fn sorted_by_key(s: Seq<JournalEntry>) -> bool {
    forall|i: int, j: int| 0 <= i < j < s.len() ==> timestamp_key(s[i]) <= timestamp_key(s[j])
}

/// Selecting by key distributes over concatenation.
proof fn lemma_entries_with_key_add(a: Seq<JournalEntry>, b: Seq<JournalEntry>, k: u64)
    ensures
        entries_with_key(a + b, k) == entries_with_key(a, k) + entries_with_key(b, k),
    decreases a.len(),
{
    if a.len() == 0 {
        assert(a + b =~= b);
        assert(entries_with_key(a, k) + entries_with_key(b, k) =~= entries_with_key(b, k));
    } else {
        lemma_entries_with_key_add(a.drop_first(), b, k);
        assert((a + b).drop_first() =~= a.drop_first() + b);
        assert((a + b)[0] == a[0]);
        if timestamp_key(a[0]) == k {
            assert(entries_with_key(a + b, k) =~= seq![a[0]] + (entries_with_key(a.drop_first(), k)
                + entries_with_key(b, k)));
        }
    }
}

/// No entry of `s` has key `k` when all of them have smaller keys.
proof fn lemma_entries_with_key_none(s: Seq<JournalEntry>, k: u64)
    requires
        forall|i: int| 0 <= i < s.len() ==> timestamp_key(#[trigger] s[i]) != k,
    ensures
        entries_with_key(s, k) == Seq::<JournalEntry>::empty(),
    decreases s.len(),
{
    if s.len() > 0 {
        assert forall|i: int| 0 <= i < s.drop_first().len() implies timestamp_key(
            #[trigger] s.drop_first()[i],
        ) != k by {
            assert(s.drop_first()[i] == s[i + 1]);
        }
        lemma_entries_with_key_none(s.drop_first(), k);
    }
}

impl JournalEntry {
    /// The entry made of the raw fields of `r`: missing message, timestamp and cursor are
    /// empty, a missing priority is Info, and no extra fields are kept.
    pub fn from_record(r: JournalRecord) -> (e: JournalEntry)
        ensures
            e.message@ == text_or_empty(r.message),
            e.priority == priority_or_info(r.priority),
            e.unit == r.unit,
            e.pid == r.pid,
            e.hostname == r.hostname,
            e.timestamp_usec@ == text_or_empty(r.timestamp),
            e.executable_path == r.executable_path,
            e.command == r.command,
            e.cursor@ == text_or_empty(r.cursor),
            e.extra_fields@ == Map::<String, String>::empty(),
    {
        let priority = match &r.priority {
            Some(p) => LogLevel::from_priority(p.as_str()),
            None => LogLevel::Info,
        };
        JournalEntry {
            message: match r.message {
                Some(s) => s,
                None => String::new(),
            },
            priority,
            unit: r.unit,
            pid: r.pid,
            hostname: r.hostname,
            timestamp_usec: match r.timestamp {
                Some(s) => s,
                None => String::new(),
            },
            executable_path: r.executable_path,
            command: r.command,
            cursor: match r.cursor {
                Some(s) => s,
                None => String::new(),
            },
            extra_fields: HashMap::new(),
        }
    }

    /// The key by which entries are ordered.
    pub fn timestamp_key(&self) -> (r: u64)
        ensures
            r == timestamp_key(*self),
    {
        match parse_u64(self.timestamp_usec.as_str()) {
            Some(v) => v,
            None => 0,
        }
    }
}

/// `e` is the entry that `JournalEntry::from_record` makes of `r`.
pub open spec fn made_from(e: JournalEntry, r: JournalRecord) -> bool {
    &&& e.message@ == text_or_empty(r.message)
    &&& e.priority == priority_or_info(r.priority)
    &&& e.unit == r.unit
    &&& e.pid == r.pid
    &&& e.hostname == r.hostname
    &&& e.timestamp_usec@ == text_or_empty(r.timestamp)
    &&& e.executable_path == r.executable_path
    &&& e.command == r.command
    &&& e.cursor@ == text_or_empty(r.cursor)
    &&& e.extra_fields@ == Map::<String, String>::empty()
}

/// `m` holds, at each place, the entry made of the record at that place in `rs`.
pub open spec fn made_from_each(m: Seq<JournalEntry>, rs: Seq<JournalRecord>) -> bool {
    &&& m.len() == rs.len()
    &&& forall|i: int| 0 <= i < m.len() ==> made_from(#[trigger] m[i], rs[i])
}

/// The entries made of `records`, one each, ordered by timestamp; entries with equal
/// timestamps keep the order of their records.
pub fn entries_from_records(records: Vec<JournalRecord>) -> (r: Vec<JournalEntry>)
    ensures
        r@.len() == records@.len(),
        sorted_by_key(r@),
        exists|m: Seq<JournalEntry>|
            #[trigger] made_from_each(m, records@) && forall|k: u64|
                entries_with_key(r@, k) == entries_with_key(m, k),
{
    let ghost recs = records@;
    let mut made: Vec<JournalEntry> = Vec::new();
    let mut rest = records;
    while rest.len() > 0
        invariant
            rest@ == recs.take(rest@.len() as int),
            rest@.len() <= recs.len(),
            made@.len() + rest@.len() == recs.len(),
            forall|i: int|
                0 <= i < made@.len() ==> made_from(#[trigger] made@[i], recs[rest@.len() + i]),
        decreases rest@.len(),
    {
        let rec = rest.pop().unwrap();
        let e = JournalEntry::from_record(rec);
        made.insert(0, e);
        assert(rest@ =~= recs.take(rest@.len() as int));
    }
    let ghost m = made@;
    let r = sort_by_timestamp(made);
    assert(made_from_each(m, records@));
    r
}

/// Orders `entries` by timestamp, keeping entries with equal keys in their order.
pub fn sort_by_timestamp(entries: Vec<JournalEntry>) -> (r: Vec<JournalEntry>)
    ensures
        r@.len() == entries@.len(),
        sorted_by_key(r@),
        forall|k: u64| entries_with_key(r@, k) == entries_with_key(entries@, k),
{
    let ghost orig = entries@;
    let mut rest = entries;
    let mut out: Vec<JournalEntry> = Vec::new();
    let mut keys: Vec<u64> = Vec::new();
    assert(orig.skip(orig.len() as int) =~= Seq::<JournalEntry>::empty());
    while rest.len() > 0
        invariant
            rest@ == orig.take(rest@.len() as int),
            rest@.len() <= orig.len(),
            out@.len() == keys@.len(),
            out@.len() + rest@.len() == orig.len(),
            forall|i: int| 0 <= i < out@.len() ==> keys@[i] == timestamp_key(#[trigger] out@[i]),
            sorted_by_key(out@),
            forall|k: u64|
                entries_with_key(out@, k) == entries_with_key(orig.skip(rest@.len() as int), k),
        decreases rest@.len(),
    {
        let ghost n = rest@.len() as int;
        let x = rest.pop().unwrap();
        let kx = x.timestamp_key();
        let mut p: usize = 0;
        while p < keys.len() && keys[p] < kx
            invariant
                p <= keys@.len(),
                out@.len() == keys@.len(),
                forall|i: int| 0 <= i < p ==> keys@[i] < kx,
            decreases keys@.len() - p,
        {
            p += 1;
        }
        let ghost before = out@;
        proof {
            assert(orig.skip(n - 1) =~= seq![x] + orig.skip(n));
            assert(before =~= before.take(p as int) + before.skip(p as int));
            assert forall|k: u64|
                entries_with_key(before.take(p as int) + seq![x] + before.skip(p as int), k)
                    == entries_with_key(orig.skip(n - 1), k) by {
                lemma_entries_with_key_add(before.take(p as int), seq![x], k);
                lemma_entries_with_key_add(
                    before.take(p as int) + seq![x],
                    before.skip(p as int),
                    k,
                );
                lemma_entries_with_key_add(before.take(p as int), before.skip(p as int), k);
                lemma_entries_with_key_add(seq![x], orig.skip(n), k);
                assert(seq![x].drop_first() =~= Seq::<JournalEntry>::empty());
                assert(entries_with_key(Seq::<JournalEntry>::empty(), k) =~= Seq::<JournalEntry>::empty());
                assert(seq![x][0] == x);
                if k == kx {
                    assert forall|i: int| 0 <= i < before.take(p as int).len() implies timestamp_key(
                        #[trigger] before.take(p as int)[i],
                    ) != k by {
                        assert(before.take(p as int)[i] == before[i]);
                    }
                    lemma_entries_with_key_none(before.take(p as int), k);
                    assert(entries_with_key(before.take(p as int), k) + entries_with_key(
                        seq![x],
                        k,
                    ) + entries_with_key(before.skip(p as int), k) =~= entries_with_key(seq![x], k)
                        + (entries_with_key(before.take(p as int), k) + entries_with_key(
                        before.skip(p as int),
                        k,
                    )));
                } else {
                    assert(entries_with_key(seq![x], k) =~= Seq::<JournalEntry>::empty());
                    assert(entries_with_key(before.take(p as int), k) + entries_with_key(
                        seq![x],
                        k,
                    ) + entries_with_key(before.skip(p as int), k) =~= entries_with_key(
                        before.take(p as int),
                        k,
                    ) + entries_with_key(before.skip(p as int), k));
                }
            }
        }
        out.insert(p, x);
        keys.insert(p, kx);
        proof {
            assert(out@ =~= before.take(p as int) + seq![x] + before.skip(p as int));
            assert(rest@ =~= orig.take(n - 1));
            assert forall|i: int, j: int| 0 <= i < j < out@.len() implies timestamp_key(out@[i])
                <= timestamp_key(out@[j]) by {
                if j < p {
                } else if j == p {
                    assert(keys@[i] < kx);
                } else if i < p {
                    assert(out@[j] == before[j - 1]);
                    assert(keys@[i] < kx);
                    if p < before.len() {
                        assert(!(keys@[p as int + 1] < kx));
                        assert(timestamp_key(before[p as int]) <= timestamp_key(before[j - 1]));
                    }
                } else if i == p {
                    assert(out@[j] == before[j - 1]);
                    assert(timestamp_key(before[p as int]) <= timestamp_key(before[j - 1]));
                    assert(!(keys@[p as int + 1] < kx));
                } else {
                    assert(out@[i] == before[i - 1]);
                    assert(out@[j] == before[j - 1]);
                }
            }
        }
    }
    assert(orig.skip(0) =~= orig);
    out
}

/// Selecting by key from a sequence with one more entry at its end.
proof fn lemma_entries_with_key_push(s: Seq<JournalEntry>, x: JournalEntry, k: u64)
    ensures
        entries_with_key(s.push(x), k) == if timestamp_key(x) == k {
            entries_with_key(s, k).push(x)
        } else {
            entries_with_key(s, k)
        },
{
    lemma_entries_with_key_add(s, seq![x], k);
    assert(s + seq![x] =~= s.push(x));
    assert(seq![x].drop_first() =~= Seq::<JournalEntry>::empty());
    assert(seq![x][0] == x);
    assert(entries_with_key(Seq::<JournalEntry>::empty(), k) =~= Seq::<JournalEntry>::empty());
    if timestamp_key(x) == k {
        assert(entries_with_key(seq![x], k) =~= seq![x]);
        assert(entries_with_key(s, k) + seq![x] =~= entries_with_key(s, k).push(x));
    } else {
        assert(entries_with_key(seq![x], k) =~= Seq::<JournalEntry>::empty());
        assert(entries_with_key(s, k) + Seq::<JournalEntry>::empty() =~= entries_with_key(s, k));
    }
}

/// An entry with key `k` is selected by `k`; what `k` selects comes from `s`.
proof fn lemma_entries_with_key_found(s: Seq<JournalEntry>, k: u64)
    ensures
        (exists|j: int| 0 <= j < s.len() && timestamp_key(#[trigger] s[j]) == k) <==> entries_with_key(
            s,
            k,
        ).len() > 0,
    decreases s.len(),
{
    if s.len() > 0 {
        lemma_entries_with_key_found(s.drop_first(), k);
        if exists|j: int| 0 <= j < s.len() && timestamp_key(#[trigger] s[j]) == k {
            let j = choose|j: int| 0 <= j < s.len() && timestamp_key(#[trigger] s[j]) == k;
            if j > 0 {
                assert(s.drop_first()[j - 1] == s[j]);
            }
        }
        if timestamp_key(s[0]) != k && entries_with_key(s, k).len() > 0 {
            let j = choose|j: int|
                0 <= j < s.drop_first().len() && timestamp_key(#[trigger] s.drop_first()[j]) == k;
            assert(s[j + 1] == s.drop_first()[j]);
        }
    }
}

/// The order that [`sort_by_timestamp`] promises is unique: two sequences ordered by
/// timestamp that hold, for each timestamp, the same entries in the same order are
/// equal.  So entries already in order come back unchanged, and sorting twice gives
/// what sorting once gives.
pub proof fn lemma_timestamp_order_is_unique(a: Seq<JournalEntry>, b: Seq<JournalEntry>)
    requires
        sorted_by_key(a),
        sorted_by_key(b),
        forall|k: u64| entries_with_key(a, k) == entries_with_key(b, k),
    ensures
        a == b,
    decreases a.len() + b.len(),
{
    if a.len() == 0 || b.len() == 0 {
        if a.len() > 0 {
            let k = timestamp_key(a[0]);
            lemma_entries_with_key_found(a, k);
            lemma_entries_with_key_found(b, k);
            assert(entries_with_key(a, k) == entries_with_key(b, k));
        } else if b.len() > 0 {
            let k = timestamp_key(b[0]);
            lemma_entries_with_key_found(a, k);
            lemma_entries_with_key_found(b, k);
            assert(entries_with_key(a, k) == entries_with_key(b, k));
        } else {
            assert(a =~= b);
        }
    } else {
        let ka = timestamp_key(a.last());
        let kb = timestamp_key(b.last());
        assert(a.drop_last().push(a.last()) =~= a);
        assert(b.drop_last().push(b.last()) =~= b);
        lemma_entries_with_key_push(a.drop_last(), a.last(), ka);
        lemma_entries_with_key_push(b.drop_last(), b.last(), kb);
        lemma_entries_with_key_found(a, kb);
        lemma_entries_with_key_found(b, ka);
        assert(entries_with_key(a, ka) == entries_with_key(b, ka));
        assert(entries_with_key(a, kb) == entries_with_key(b, kb));
        let ja = choose|j: int| 0 <= j < b.len() && timestamp_key(#[trigger] b[j]) == ka;
        let jb = choose|j: int| 0 <= j < a.len() && timestamp_key(#[trigger] a[j]) == kb;
        assert(timestamp_key(b[ja]) <= timestamp_key(b[b.len() - 1]));
        assert(timestamp_key(a[jb]) <= timestamp_key(a[a.len() - 1]));
        assert(ka == kb);
        let ea = entries_with_key(a, ka);
        assert(ea.last() == a.last());
        assert(ea.last() == b.last());
        assert forall|k: u64|
            entries_with_key(a.drop_last(), k) == entries_with_key(b.drop_last(), k) by {
            lemma_entries_with_key_push(a.drop_last(), a.last(), k);
            lemma_entries_with_key_push(b.drop_last(), b.last(), k);
            assert(entries_with_key(a, k) == entries_with_key(b, k));
            if k == ka {
                assert(entries_with_key(a.drop_last(), k) =~= entries_with_key(a, k).drop_last());
                assert(entries_with_key(b.drop_last(), k) =~= entries_with_key(b, k).drop_last());
            }
        }
        assert(sorted_by_key(a.drop_last()));
        assert(sorted_by_key(b.drop_last()));
        lemma_timestamp_order_is_unique(a.drop_last(), b.drop_last());
    }
}

} // verus!
