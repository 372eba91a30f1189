//! Cumulative FileIo event counts per trace configuration, kept across runs.
//!
//! Each configuration holds its counts per (opcode, version); on disk an event is
//! keyed by the text `opcode:version`.

use vstd::prelude::*;
use crate::compare::{OpcodeCount, counts_from_keys, count_pairs, pair_key};
use crate::flag_comparison::FileIoRawEvent;
use crate::scan::{accumulate, digit_value, parse_radix, parse_radix_spec, split, split_on, views};
use crate::tally::is_tally;
use crate::text::{chars_of, dec, digit_char, digits, push_char, push_dec, text_eq};

verus! {

/// `opcode:version` in decimal.
pub open spec fn event_key_text(opcode: u8, version: u8) -> Seq<char> {
    dec(opcode as nat) + seq![':'] + dec(version as nat)
}

/// The serialized key of an event: `opcode:version`.
pub fn event_key(opcode: u8, version: u8) -> (s: String)
    ensures
        s@ == event_key_text(opcode, version),
{
    let mut s = String::new();
    push_dec(&mut s, opcode as u64);
    push_char(&mut s, ':');
    push_dec(&mut s, version as u64);
    s
}

/// The (opcode, version) written in a key: two decimal bytes around one `:`.
pub open spec fn event_key_value(s: Seq<char>) -> Option<(u8, u8)> {
    let parts = split_on(s, ':');
    if parts.len() != 2 {
        None
    } else {
        match parse_radix_spec(parts[0], 10, 255) {
            Err(_) => None,
            Ok(a) => match parse_radix_spec(parts[1], 10, 255) {
                Err(_) => None,
                Ok(b) => Some((a as u8, b as u8)),
            },
        }
    }
}

/// Reads a serialized event key back.
pub fn parse_event_key(key: &str) -> (r: Option<(u8, u8)>)
    ensures
        r == event_key_value(key@),
{
    let chars = chars_of(key);
    let parts = split(&chars, ':');
    if parts.len() != 2 {
        return None;
    }
    proof {
        assert(views(parts@)[0] == parts@[0]@);
        assert(views(parts@)[1] == parts@[1]@);
    }
    let opcode = match parse_radix(&parts[0], 10, 255) {
        Ok(v) => v as u8,
        Err(_) => {
            return None;
        },
    };
    let version = match parse_radix(&parts[1], 10, 255) {
        Ok(v) => v as u8,
        Err(_) => {
            return None;
        },
    };
    Some((opcode, version))
}

proof fn lemma_decimal_digit(d: nat)
    requires
        d < 10,
    ensures
        '0' <= digit_char(d, false) <= '9',
        digit_value(digit_char(d, false), 10) == Some(d),
{
}

/// The decimal digits of `n` are digit characters.
proof fn lemma_dec_chars(n: nat)
    ensures
        dec(n).len() >= 1,
        forall|i: int| 0 <= i < dec(n).len() ==> '0' <= #[trigger] dec(n)[i] <= '9',
    decreases n,
{
    if n < 10 {
        lemma_decimal_digit(n % 16);
    } else {
        lemma_dec_chars(n / 10);
        lemma_decimal_digit(n % 10);
        assert forall|i: int| 0 <= i < dec(n).len() implies '0' <= #[trigger] dec(n)[i] <= '9' by {
            if i < dec(n / 10).len() {
                assert(dec(n)[i] == dec(n / 10)[i]);
            }
        }
    }
}

/// Reading one more character continues from the value read so far.
proof fn lemma_accumulate_push(acc: nat, s: Seq<char>, c: char, radix: nat, max: nat)
    ensures
        accumulate(acc, s.push(c), radix, max) == match accumulate(acc, s, radix, max) {
            Ok(v) => match digit_value(c, radix) {
                None => Err(crate::scan::IntErrorKind::InvalidDigit),
                Some(d) => if v * radix + d > max {
                    Err(crate::scan::IntErrorKind::PosOverflow)
                } else {
                    Ok(v * radix + d)
                },
            },
            Err(e) => Err(e),
        },
    decreases s.len(),
{
    reveal_with_fuel(accumulate, 2);
    if s.len() == 0 {
        assert(s.push(c).drop_first() =~= Seq::<char>::empty());
        assert(s.push(c)[0] == c);
    } else {
        assert(s.push(c)[0] == s[0]);
        assert(s.push(c).drop_first() =~= s.drop_first().push(c));
        if let Some(d) = digit_value(s[0], radix) {
            if acc * radix + d <= max {
                lemma_accumulate_push(acc * radix + d, s.drop_first(), c, radix, max);
            }
        }
    }
}

/// The decimal digits of `n` read back as `n`.
proof fn lemma_dec_reads_back(n: nat, max: nat)
    requires
        n <= max,
    ensures
        accumulate(0, dec(n), 10, max) == Ok::<nat, crate::scan::IntErrorKind>(n),
    decreases n,
{
    reveal_with_fuel(accumulate, 2);
    if n < 10 {
        lemma_decimal_digit(n);
        assert(n % 16 == n);
        assert(dec(n) =~= seq![digit_char(n, false)]);
        assert(dec(n).drop_first() =~= Seq::<char>::empty());
    } else {
        lemma_dec_reads_back(n / 10, max);
        lemma_decimal_digit(n % 10);
        assert(dec(n) == dec(n / 10).push(digit_char(n % 10, false)));
        lemma_accumulate_push(0, dec(n / 10), digit_char(n % 10, false), 10, max);
    }
}

/// Text without the separator is one piece.
proof fn lemma_split_whole(a: Seq<char>, sep: char)
    requires
        forall|i: int| 0 <= i < a.len() ==> a[i] != sep,
    ensures
        split_on(a, sep) == seq![a],
    decreases a.len(),
{
    if a.len() > 0 {
        lemma_split_whole(a.drop_last(), sep);
        assert(a.drop_last().push(a.last()) =~= a);
        assert(split_on(a, sep) =~= seq![a]);
    } else {
        assert(a =~= Seq::<char>::empty());
        assert(split_on(a, sep) =~= seq![a]);
    }
}

/// Two pieces without the separator, joined by it, split back into them.
proof fn lemma_split_pair(a: Seq<char>, sep: char, b: Seq<char>)
    requires
        forall|i: int| 0 <= i < a.len() ==> a[i] != sep,
        forall|i: int| 0 <= i < b.len() ==> b[i] != sep,
    ensures
        split_on(a + seq![sep] + b, sep) == seq![a, b],
    decreases b.len(),
{
    let s = a + seq![sep] + b;
    if b.len() == 0 {
        lemma_split_whole(a, sep);
        assert(b =~= Seq::<char>::empty());
        assert(s.drop_last() =~= a);
        assert(s.last() == sep);
        assert(split_on(s, sep) =~= seq![a, b]);
    } else {
        lemma_split_pair(a, sep, b.drop_last());
        assert(s.drop_last() =~= a + seq![sep] + b.drop_last());
        assert(b.drop_last().push(b.last()) =~= b);
        assert(split_on(s, sep) =~= seq![a, b]);
    }
}

/// A key written by `event_key` reads back as the same opcode and version.
pub proof fn law_event_key_roundtrip(opcode: u8, version: u8)
    ensures
        event_key_value(event_key_text(opcode, version)) == Some((opcode, version)),
{
    let a = dec(opcode as nat);
    let b = dec(version as nat);
    lemma_dec_chars(opcode as nat);
    lemma_dec_chars(version as nat);
    lemma_split_pair(a, ':', b);
    lemma_dec_reads_back(opcode as nat, 255);
    lemma_dec_reads_back(version as nat, 255);
    assert('0' <= a[0] <= '9');
    assert('0' <= b[0] <= '9');
}

/// The (opcode, version) keys of raw events, in order.
pub open spec fn raw_pair_keys(s: Seq<FileIoRawEvent>) -> Seq<u16>
    decreases s.len(),
{
    if s.len() == 0 {
        Seq::empty()
    } else {
        raw_pair_keys(s.drop_last()).push(pair_key(s.last().opcode, s.last().version))
    }
}

/// Per (opcode, version) counts of the events of one run, by opcode then version.
pub fn compute_counts(events: &Vec<FileIoRawEvent>) -> (counts: Vec<OpcodeCount>)
    ensures
        is_tally(count_pairs(counts@), raw_pair_keys(events@)),
{
    let mut keys: Vec<u16> = Vec::new();
    let mut i: usize = 0;
    while i < events.len()
        invariant
            i <= events@.len(),
            keys@ == raw_pair_keys(events@.subrange(0, i as int)),
        decreases events.len() - i,
    {
        proof {
            assert(events@.subrange(0, i + 1).drop_last() =~= events@.subrange(0, i as int));
        }
        keys.push(events[i].opcode as u16 * 256 + events[i].version as u16);
        i = i + 1;
    }
    assert(events@.subrange(0, events@.len() as int) =~= events@);
    counts_from_keys(&keys)
}

/// The counts of one configuration.
#[derive(Debug, Clone)]
pub struct ConfigCounts {
    pub config_name: String,
    pub counts: Vec<OpcodeCount>,
}

/// Counts accumulated over runs.
#[derive(Debug, Clone)]
pub struct PersistedData {
    /// Number of runs that contributed to these counts.
    pub total_runs: usize,
    /// The counts of each configuration.
    pub config_events: Vec<ConfigCounts>,
}

impl PersistedData {
    /// No runs and no counts.
    pub fn new() -> (d: Self)
        ensures
            d.total_runs == 0,
            d.config_events@.len() == 0,
    {
        PersistedData { total_runs: 0, config_events: Vec::new() }
    }
}

/// The key of a count entry.
pub open spec fn entry_key(e: OpcodeCount) -> u16 {
    pair_key(e.opcode, e.version)
}

/// The count that `t` holds for key `k` (summed over entries with that key).
pub open spec fn count_of(t: Seq<OpcodeCount>, k: u16) -> nat
    decreases t.len(),
{
    if t.len() == 0 {
        0
    } else {
        count_of(t.drop_last(), k) + if entry_key(t.last()) == k {
            t.last().count as nat
        } else {
            0nat
        }
    }
}

/// `t` has an entry for key `k`.
pub open spec fn holds_key(t: Seq<OpcodeCount>, k: u16) -> bool {
    exists|j: int| 0 <= j < t.len() && entry_key(t[j]) == k
}

/// No two entries of `t` share a key.
pub open spec fn keys_distinct(t: Seq<OpcodeCount>) -> bool {
    forall|j: int, l: int| 0 <= j < l < t.len() ==> entry_key(t[j]) != entry_key(t[l])
}

/// The count of key `k` under configuration `name` (summed over configurations
/// with that name).
pub open spec fn config_total(cs: Seq<ConfigCounts>, name: Seq<char>, k: u16) -> nat
    decreases cs.len(),
{
    if cs.len() == 0 {
        0
    } else {
        config_total(cs.drop_last(), name, k) + if cs.last().config_name@ == name {
            count_of(cs.last().counts@, k)
        } else {
            0nat
        }
    }
}

/// There is a configuration named `name`.
pub open spec fn has_config(cs: Seq<ConfigCounts>, name: Seq<char>) -> bool {
    exists|i: int| 0 <= i < cs.len() && cs[i].config_name@ == name
}

/// The configuration named `name` has an entry for key `k`.
pub open spec fn config_has_key(cs: Seq<ConfigCounts>, name: Seq<char>, k: u16) -> bool {
    exists|i: int| 0 <= i < cs.len() && cs[i].config_name@ == name && holds_key(cs[i].counts@, k)
}

/// Configuration names are distinct and so are the keys within each configuration.
pub open spec fn counts_wf(cs: Seq<ConfigCounts>) -> bool {
    &&& forall|i: int, j: int| 0 <= i < j < cs.len() ==> cs[i].config_name@ != cs[j].config_name@
    &&& forall|i: int| 0 <= i < cs.len() ==> keys_distinct(#[trigger] cs[i].counts@)
}

proof fn lemma_count_of_update(t: Seq<OpcodeCount>, p: int, e: OpcodeCount, k: u16)
    requires
        0 <= p < t.len(),
        entry_key(e) == entry_key(t[p]),
    ensures
        count_of(t.update(p, e), k) + (if entry_key(e) == k { t[p].count as nat } else { 0nat })
            == count_of(t, k) + (if entry_key(e) == k { e.count as nat } else { 0nat }),
    decreases t.len(),
{
    let u = t.update(p, e);
    if p == t.len() - 1 {
        assert(u.drop_last() =~= t.drop_last());
    } else {
        assert(u.drop_last() =~= t.drop_last().update(p, e));
        lemma_count_of_update(t.drop_last(), p, e, k);
    }
}

pub(crate) proof fn lemma_count_of_distinct(t: Seq<OpcodeCount>, k: u16)
    requires
        keys_distinct(t),
    ensures
        holds_key(t, k) ==> exists|j: int| 0 <= j < t.len() && entry_key(t[j]) == k && count_of(t, k) == t[j].count,
        !holds_key(t, k) ==> count_of(t, k) == 0,
    decreases t.len(),
{
    if t.len() > 0 {
        let s = t.drop_last();
        assert(keys_distinct(s));
        lemma_count_of_distinct(s, k);
        if entry_key(t.last()) == k {
            assert(!holds_key(s, k)) by {
                if holds_key(s, k) {
                    let j = choose|j: int| 0 <= j < s.len() && entry_key(s[j]) == k;
                    assert(entry_key(t[j]) != entry_key(t[t.len() - 1]));
                }
            }
            assert(entry_key(t[t.len() - 1]) == k);
        } else {
            if holds_key(t, k) {
                let j = choose|j: int| 0 <= j < t.len() && entry_key(t[j]) == k;
                assert(j < t.len() - 1);
                assert(s[j] == t[j]);
                assert(holds_key(s, k));
            }
            if holds_key(s, k) {
                let j = choose|j: int| 0 <= j < s.len() && entry_key(s[j]) == k && count_of(s, k) == s[j].count;
                assert(t[j] == s[j]);
            }
        }
    }
}

proof fn lemma_config_total_update(cs: Seq<ConfigCounts>, p: int, c: ConfigCounts, name: Seq<char>, k: u16)
    requires
        0 <= p < cs.len(),
        c.config_name@ == cs[p].config_name@,
    ensures
        config_total(cs.update(p, c), name, k) + (if c.config_name@ == name { count_of(cs[p].counts@, k) } else { 0nat })
            == config_total(cs, name, k) + (if c.config_name@ == name { count_of(c.counts@, k) } else { 0nat }),
    decreases cs.len(),
{
    let u = cs.update(p, c);
    if p == cs.len() - 1 {
        assert(u.drop_last() =~= cs.drop_last());
    } else {
        assert(u.drop_last() =~= cs.drop_last().update(p, c));
        lemma_config_total_update(cs.drop_last(), p, c, name, k);
    }
}

pub(crate) proof fn lemma_config_total_absent(cs: Seq<ConfigCounts>, name: Seq<char>, k: u16)
    requires
        !has_config(cs, name),
    ensures
        config_total(cs, name, k) == 0,
    decreases cs.len(),
{
    if cs.len() > 0 {
        assert(!has_config(cs.drop_last(), name)) by {
            if has_config(cs.drop_last(), name) {
                let i = choose|i: int| 0 <= i < cs.drop_last().len() && cs.drop_last()[i].config_name@ == name;
                assert(cs[i].config_name@ == name);
            }
        }
        lemma_config_total_absent(cs.drop_last(), name, k);
        assert(cs[cs.len() - 1].config_name@ != name);
    }
}

pub(crate) proof fn lemma_config_total_unique(cs: Seq<ConfigCounts>, p: int, k: u16)
    requires
        0 <= p < cs.len(),
        forall|i: int, j: int| 0 <= i < j < cs.len() ==> cs[i].config_name@ != cs[j].config_name@,
    ensures
        config_total(cs, cs[p].config_name@, k) == count_of(cs[p].counts@, k),
    decreases cs.len(),
{
    let name = cs[p].config_name@;
    if p == cs.len() - 1 {
        assert(!has_config(cs.drop_last(), name)) by {
            if has_config(cs.drop_last(), name) {
                let i = choose|i: int| 0 <= i < cs.drop_last().len() && cs.drop_last()[i].config_name@ == name;
                assert(cs[i].config_name@ == name);
            }
        }
        lemma_config_total_absent(cs.drop_last(), name, k);
    } else {
        lemma_config_total_unique(cs.drop_last(), p, k);
        assert(cs.drop_last()[p] == cs[p]);
        assert(cs[cs.len() - 1].config_name@ != name);
    }
}

/// `t` with the counts of `add` added, key by key.
fn add_counts(base: &Vec<OpcodeCount>, add: &Vec<OpcodeCount>) -> (r: Vec<OpcodeCount>)
    requires
        keys_distinct(base@),
        keys_distinct(add@),
        forall|k: u16| count_of(base@, k) + count_of(add@, k) <= usize::MAX,
    ensures
        keys_distinct(r@),
        forall|k: u16| count_of(r@, k) == count_of(base@, k) + count_of(add@, k),
        forall|k: u16| holds_key(r@, k) == (holds_key(base@, k) || holds_key(add@, k)),
{
    let mut r: Vec<OpcodeCount> = Vec::new();
    let mut i: usize = 0;
    while i < base.len()
        invariant
            i <= base@.len(),
            r@ == base@.subrange(0, i as int),
        decreases base.len() - i,
    {
        r.push(base[i]);
        i = i + 1;
        assert(r@ =~= base@.subrange(0, i as int));
    }
    assert(r@ =~= base@);
    let mut j: usize = 0;
    while j < add.len()
        invariant
            j <= add@.len(),
            keys_distinct(r@),
            keys_distinct(add@),
            forall|k: u16| count_of(base@, k) + count_of(add@, k) <= usize::MAX,
            forall|k: u16| #[trigger] count_of(r@, k) == count_of(base@, k) + count_of(add@.subrange(0, j as int), k),
            forall|k: u16| #[trigger] holds_key(r@, k) == (holds_key(base@, k) || holds_key(add@.subrange(0, j as int), k)),
        decreases add.len() - j,
    {
        let e = add[j];
        let ghost done = add@.subrange(0, j as int);
        let ghost next = add@.subrange(0, j + 1);
        let ghost ek = entry_key(e);
        proof {
            assert(next.drop_last() =~= done);
            assert(next.last() == e);
            assert forall|k: u16| #[trigger] holds_key(next, k) == (holds_key(done, k) || ek == k) by {
                if holds_key(next, k) && !(ek == k) {
                    let m = choose|m: int| 0 <= m < next.len() && entry_key(next[m]) == k;
                    assert(m < done.len() && done[m] == next[m]);
                }
                if holds_key(done, k) {
                    let m = choose|m: int| 0 <= m < done.len() && entry_key(done[m]) == k;
                    assert(next[m] == done[m]);
                }
                if ek == k {
                    assert(entry_key(next[j as int]) == k);
                }
            }
            // the key of e is new among the entries already added
            assert(!holds_key(done, ek)) by {
                if holds_key(done, ek) {
                    let m = choose|m: int| 0 <= m < done.len() && entry_key(done[m]) == ek;
                    assert(entry_key(add@[m]) != entry_key(add@[j as int]));
                }
            }
            lemma_count_of_distinct(done, ek);
            lemma_count_of_distinct(add@, ek);
            assert(count_of(add@, ek) == e.count) by {
                let m = choose|m: int| 0 <= m < add@.len() && entry_key(add@[m]) == ek && count_of(add@, ek) == add@[m].count;
                if m != j {
                    if m < j {
                        assert(entry_key(add@[m]) != entry_key(add@[j as int]));
                    } else {
                        assert(entry_key(add@[j as int]) != entry_key(add@[m]));
                    }
                }
            }
        }
        let mut p: usize = 0;
        while p < r.len() && !(r[p].opcode == e.opcode && r[p].version == e.version)
            invariant
                p <= r@.len(),
                forall|m: int| 0 <= m < p ==> entry_key(r@[m]) != ek,
                ek == entry_key(e),
            decreases r.len() - p,
        {
            p = p + 1;
        }
        if p < r.len() {
            let ghost old_r = r@;
            proof {
                assert(entry_key(old_r[p as int]) == ek);
                lemma_count_of_distinct(old_r, ek);
                let m = choose|m: int| 0 <= m < old_r.len() && entry_key(old_r[m]) == ek && count_of(old_r, ek) == old_r[m].count;
                if m != p {
                    if m < p {
                        assert(entry_key(old_r[m]) != entry_key(old_r[p as int]));
                    } else {
                        assert(entry_key(old_r[p as int]) != entry_key(old_r[m]));
                    }
                }
                assert(old_r[p as int].count + e.count <= usize::MAX);
            }
            let cur = r[p];
            let upd = OpcodeCount { opcode: cur.opcode, version: cur.version, count: cur.count + e.count };
            r.set(p, upd);
            proof {
                assert forall|k: u16| #[trigger] count_of(r@, k) == count_of(base@, k) + count_of(next, k) by {
                    lemma_count_of_update(old_r, p as int, upd, k);
                }
                assert forall|k: u16| #[trigger] holds_key(r@, k) == (holds_key(base@, k) || holds_key(next, k)) by {
                    if holds_key(old_r, k) {
                        let m = choose|m: int| 0 <= m < old_r.len() && entry_key(old_r[m]) == k;
                        assert(entry_key(r@[m]) == k);
                    }
                    if holds_key(r@, k) {
                        let m = choose|m: int| 0 <= m < r@.len() && entry_key(r@[m]) == k;
                        assert(entry_key(old_r[m]) == k);
                    }
                }
                assert(keys_distinct(r@)) by {
                    assert forall|a: int, b: int| 0 <= a < b < r@.len() implies entry_key(r@[a]) != entry_key(r@[b]) by {
                        assert(entry_key(r@[a]) == entry_key(old_r[a]));
                        assert(entry_key(r@[b]) == entry_key(old_r[b]));
                    }
                }
            }
        } else {
            let ghost old_r = r@;
            proof {
                assert(!holds_key(old_r, ek)) by {
                    if holds_key(old_r, ek) {
                        let m = choose|m: int| 0 <= m < old_r.len() && entry_key(old_r[m]) == ek;
                    }
                }
            }
            r.push(e);
            proof {
                assert(r@.drop_last() =~= old_r);
                assert forall|k: u16| #[trigger] count_of(r@, k) == count_of(base@, k) + count_of(next, k) by {
                    assert(r@.drop_last() =~= old_r);
                    assert(r@.last() == e);
                    assert(count_of(old_r, k) == count_of(base@, k) + count_of(done, k));
                    assert(next.drop_last() == done);
                    assert(count_of(next, k) == count_of(done, k) + if entry_key(e) == k { e.count as nat } else { 0nat });
                    assert(count_of(r@, k) == count_of(old_r, k) + if entry_key(e) == k { e.count as nat } else { 0nat });
                }
                assert forall|k: u16| #[trigger] holds_key(r@, k) == (holds_key(base@, k) || holds_key(next, k)) by {
                    if holds_key(old_r, k) {
                        let m = choose|m: int| 0 <= m < old_r.len() && entry_key(old_r[m]) == k;
                        assert(r@[m] == old_r[m]);
                    }
                    if holds_key(r@, k) && k != ek {
                        let m = choose|m: int| 0 <= m < r@.len() && entry_key(r@[m]) == k;
                        assert(m < old_r.len() && r@[m] == old_r[m]);
                    }
                    if k == ek {
                        assert(entry_key(r@[old_r.len() as int]) == k);
                    }
                }
                assert(keys_distinct(r@)) by {
                    assert forall|a: int, b: int| 0 <= a < b < r@.len() implies entry_key(r@[a]) != entry_key(r@[b]) by {
                        if b == old_r.len() {
                            assert(r@[a] == old_r[a]);
                        } else {
                            assert(r@[a] == old_r[a] && r@[b] == old_r[b]);
                        }
                    }
                }
            }
        }
        j = j + 1;
    }
    assert(add@.subrange(0, add@.len() as int) =~= add@);
    r
}

/// Index of the configuration named `name`, if there is one.
pub(crate) fn find_config(cs: &Vec<ConfigCounts>, name: &String) -> (r: Option<usize>)
    ensures
        match r {
            Some(i) => i < cs@.len() && cs@[i as int].config_name@ == name@,
            None => !has_config(cs@, name@),
        },
{
    let mut i: usize = 0;
    while i < cs.len()
        invariant
            i <= cs@.len(),
            forall|j: int| 0 <= j < i ==> cs@[j].config_name@ != name@,
        decreases cs.len() - i,
    {
        if text_eq(cs[i].config_name.as_str(), name.as_str()) {
            return Some(i);
        }
        i = i + 1;
    }
    None
}

/// Adds a run's counts to the persisted ones: one more run; for every
/// configuration and event, the count of the run is added to the persisted count,
/// and configurations and events seen for the first time are added, while those
/// not seen in this run are kept.
pub fn merge(persisted: &mut PersistedData, current: &Vec<ConfigCounts>)
    requires
        counts_wf(old(persisted).config_events@),
        counts_wf(current@),
        old(persisted).total_runs < usize::MAX,
        forall|name: Seq<char>, k: u16|
            config_total(old(persisted).config_events@, name, k) + config_total(current@, name, k)
                <= usize::MAX,
    ensures
        final(persisted).total_runs == old(persisted).total_runs + 1,
        counts_wf(final(persisted).config_events@),
        forall|name: Seq<char>, k: u16|
            #[trigger] config_total(final(persisted).config_events@, name, k) == config_total(
                old(persisted).config_events@,
                name,
                k,
            ) + config_total(current@, name, k),
        forall|name: Seq<char>|
            #[trigger] has_config(final(persisted).config_events@, name) == (has_config(
                old(persisted).config_events@,
                name,
            ) || has_config(current@, name)),
        forall|name: Seq<char>, k: u16|
            #[trigger] config_has_key(final(persisted).config_events@, name, k) == (config_has_key(
                old(persisted).config_events@,
                name,
                k,
            ) || config_has_key(current@, name, k)),
{
    persisted.total_runs = persisted.total_runs + 1;
    let ghost start = persisted.config_events@;
    let mut i: usize = 0;
    while i < current.len()
        invariant
            i <= current@.len(),
            persisted.total_runs == old(persisted).total_runs + 1,
            counts_wf(persisted.config_events@),
            counts_wf(current@),
            forall|name: Seq<char>, k: u16|
                config_total(start, name, k) + config_total(current@, name, k) <= usize::MAX,
            forall|name: Seq<char>, k: u16|
                #[trigger] config_total(persisted.config_events@, name, k) == config_total(start, name, k)
                    + config_total(current@.subrange(0, i as int), name, k),
            forall|name: Seq<char>|
                #[trigger] has_config(persisted.config_events@, name) == (has_config(start, name)
                    || has_config(current@.subrange(0, i as int), name)),
            forall|name: Seq<char>, k: u16|
                #[trigger] config_has_key(persisted.config_events@, name, k) == (config_has_key(start, name, k)
                    || config_has_key(current@.subrange(0, i as int), name, k)),
        decreases current.len() - i,
    {
        let cc = &current[i];
        let ghost name = cc.config_name@;
        let ghost done = current@.subrange(0, i as int);
        let ghost next = current@.subrange(0, i + 1);
        proof {
            assert(next.drop_last() =~= done);
            assert(next.last() == *cc);
            assert(!has_config(done, name)) by {
                if has_config(done, name) {
                    let m = choose|m: int| 0 <= m < done.len() && done[m].config_name@ == name;
                    assert(current@[m].config_name@ != current@[i as int].config_name@);
                }
            }
        }
        let idx = match find_config(&persisted.config_events, &cc.config_name) {
            Some(j) => j,
            None => {
                let ghost before = persisted.config_events@;
                persisted.config_events.push(
                    ConfigCounts { config_name: cc.config_name.clone(), counts: Vec::new() },
                );
                proof {
                    let after = persisted.config_events@;
                    assert(after.drop_last() =~= before);
                    assert(count_of(Seq::<OpcodeCount>::empty(), 0) == 0);
                    assert forall|n: Seq<char>, k: u16| #[trigger] config_total(after, n, k) == config_total(before, n, k) by {
                        assert(count_of(after.last().counts@, k) == 0);
                    }
                    assert forall|n: Seq<char>| #[trigger] has_config(after, n) == (has_config(before, n) || n == name) by {
                        if has_config(before, n) {
                            let m = choose|m: int| 0 <= m < before.len() && before[m].config_name@ == n;
                            assert(after[m] == before[m]);
                        }
                        if has_config(after, n) && n != name {
                            let m = choose|m: int| 0 <= m < after.len() && after[m].config_name@ == n;
                            assert(m < before.len() && after[m] == before[m]);
                        }
                        if n == name {
                            assert(after[before.len() as int].config_name@ == n);
                        }
                    }
                    assert forall|n: Seq<char>, k: u16| #[trigger] config_has_key(after, n, k) == config_has_key(before, n, k) by {
                        if config_has_key(after, n, k) {
                            let m = choose|m: int| 0 <= m < after.len() && after[m].config_name@ == n && holds_key(after[m].counts@, k);
                            if m == before.len() {
                                assert(!holds_key(after[m].counts@, k));
                            } else {
                                assert(after[m] == before[m]);
                            }
                        }
                        if config_has_key(before, n, k) {
                            let m = choose|m: int| 0 <= m < before.len() && before[m].config_name@ == n && holds_key(before[m].counts@, k);
                            assert(after[m] == before[m]);
                        }
                    }
                    assert(counts_wf(after)) by {
                        assert forall|a: int, b: int| 0 <= a < b < after.len() implies after[a].config_name@ != after[b].config_name@ by {
                            if b == before.len() {
                                assert(after[a] == before[a]);
                                assert(!has_config(before, name));
                            } else {
                                assert(after[a] == before[a] && after[b] == before[b]);
                            }
                        }
                        assert forall|a: int| 0 <= a < after.len() implies keys_distinct(#[trigger] after[a].counts@) by {
                            if a < before.len() {
                                assert(after[a] == before[a]);
                            }
                        }
                    }
                }
                persisted.config_events.len() - 1
            },
        };
        let ghost before = persisted.config_events@;
        proof {
            assert(keys_distinct(before[idx as int].counts@));
            assert(keys_distinct(current@[i as int].counts@));
            assert forall|k: u16| count_of(before[idx as int].counts@, k) + count_of(cc.counts@, k) <= usize::MAX by {
                lemma_config_total_unique(before, idx as int, k);
                lemma_config_total_unique(current@, i as int, k);
                lemma_config_total_absent(done, name, k);
            }
        }
        let merged = add_counts(&persisted.config_events[idx].counts, &cc.counts);
        let entry_name = persisted.config_events[idx].config_name.clone();
        let ghost new_entry = ConfigCounts { config_name: entry_name, counts: merged };
        persisted.config_events.set(idx, ConfigCounts { config_name: entry_name, counts: merged });
        proof {
            let after = persisted.config_events@;
            assert(after == before.update(idx as int, new_entry));
            assert forall|n: Seq<char>, k: u16| #[trigger] config_total(after, n, k) == config_total(start, n, k)
                + config_total(next, n, k) by {
                lemma_config_total_update(before, idx as int, new_entry, n, k);
            }
            assert forall|n: Seq<char>| #[trigger] has_config(after, n) == (has_config(start, n)
                || has_config(next, n)) by {
                if has_config(before, n) {
                    let m = choose|m: int| 0 <= m < before.len() && before[m].config_name@ == n;
                    assert(after[m].config_name@ == n);
                }
                if has_config(after, n) {
                    let m = choose|m: int| 0 <= m < after.len() && after[m].config_name@ == n;
                    assert(before[m].config_name@ == n);
                }
                if has_config(next, n) && !has_config(done, n) {
                    let m = choose|m: int| 0 <= m < next.len() && next[m].config_name@ == n;
                    if m < done.len() {
                        assert(done[m] == next[m]);
                    }
                    assert(n == name);
                    assert(after[idx as int].config_name@ == n);
                }
                if has_config(done, n) {
                    let m = choose|m: int| 0 <= m < done.len() && done[m].config_name@ == n;
                    assert(next[m] == done[m]);
                }
            }
            assert forall|n: Seq<char>, k: u16| #[trigger] config_has_key(after, n, k) == (config_has_key(start, n, k)
                || config_has_key(next, n, k)) by {
                if config_has_key(done, n, k) {
                    let m = choose|m: int| 0 <= m < done.len() && done[m].config_name@ == n && holds_key(done[m].counts@, k);
                    assert(next[m] == done[m]);
                }
                if config_has_key(next, n, k) && !config_has_key(done, n, k) {
                    let m = choose|m: int| 0 <= m < next.len() && next[m].config_name@ == n && holds_key(next[m].counts@, k);
                    if m < done.len() {
                        assert(done[m] == next[m]);
                    }
                    assert(m == i);
                    assert(holds_key(after[idx as int].counts@, k));
                }
                if config_has_key(before, n, k) {
                    let m = choose|m: int| 0 <= m < before.len() && before[m].config_name@ == n && holds_key(before[m].counts@, k);
                    if m == idx {
                        assert(holds_key(after[m].counts@, k));
                    } else {
                        assert(after[m] == before[m]);
                    }
                }
                if config_has_key(after, n, k) {
                    let m = choose|m: int| 0 <= m < after.len() && after[m].config_name@ == n && holds_key(after[m].counts@, k);
                    if m == idx {
                        if !holds_key(before[m].counts@, k) {
                            assert(holds_key(cc.counts@, k));
                            assert(next[i as int] == *cc);
                            assert(config_has_key(next, n, k));
                        }
                    } else {
                        assert(after[m] == before[m]);
                    }
                }
            }
            assert(counts_wf(after)) by {
                assert forall|a: int, b: int| 0 <= a < b < after.len() implies after[a].config_name@ != after[b].config_name@ by {
                    assert(after[a].config_name@ == before[a].config_name@);
                    assert(after[b].config_name@ == before[b].config_name@);
                }
                assert forall|a: int| 0 <= a < after.len() implies keys_distinct(#[trigger] after[a].counts@) by {
                    if a != idx {
                        assert(after[a] == before[a]);
                    }
                }
            }
        }
        i = i + 1;
    }
    assert(current@.subrange(0, current@.len() as int) =~= current@);
}

} // verus!
