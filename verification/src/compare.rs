//! Correlation of two concurrently collected sessions: both watch the same
//! live kernel event stream, so the same underlying event produces a record in
//! each session with the same identity key (opcode, version, raw timestamp,
//! pid, tid, payload signature). The two sessions' events are matched as
//! multisets of that key.

use vstd::prelude::*;
use vstd::multiset::Multiset;
use crate::flt_events::{FltEvent, FNV_OFFSET_BASIS, fnv_fold, major_function, payload_sig, sig_input};
use crate::tally::{is_tally, occurrences, tally};
use crate::opcode_sets::{flt_opcode_label, flt_opcode_text};
use crate::text::{chars_of, dec, join, join_strings, owned, pad_left, push_char, push_dec, push_str, str_views};

verus! {

broadcast use vstd::multiset::group_multiset_axioms, vstd::multiset::group_multiset_properties;

/// One event captured from a session.
#[derive(Debug, Clone, Copy, PartialEq, Eq)]
pub struct CapturedEvent {
    pub opcode: u8,
    pub version: u8,
    /// Raw kernel timestamp (100 ns units); identical between concurrent
    /// sessions for the same underlying kernel event.
    pub timestamp: u64,
    pub pid: u32,
    pub tid: u32,
    /// Payload signature of FltIo init/completion/failure events (96-101); 0 if not parsed.
    pub sig: u64,
    pub major: u32,
    pub parse_ok: bool,
}

/// Opcodes 96 to 101 are the FltIo init, completion and failure events.
pub open spec fn is_flt_opcode(opcode: u8) -> bool {
    96 <= opcode <= 101
}

impl CapturedEvent {
    /// The event is one of the FltIo events (opcodes 96 to 101).
    pub fn is_flt(&self) -> (b: bool)
        ensures
            b == is_flt_opcode(self.opcode),
    {
        96 <= self.opcode && self.opcode <= 101
    }
}

/// The captured form of an event with the given header fields and, for an
/// FltIo opcode, the parsed payload (`None` when it could not be parsed).
/// Payloads of other opcodes are not looked at.
pub fn capture_event(
    opcode: u8,
    version: u8,
    timestamp: u64,
    pid: u32,
    tid: u32,
    parsed: Option<FltEvent>,
) -> (e: CapturedEvent)
    ensures
        e.opcode == opcode && e.version == version && e.timestamp == timestamp,
        e.pid == pid && e.tid == tid,
        e.parse_ok == (is_flt_opcode(opcode) && parsed is Some),
        e.parse_ok ==> e.sig == fnv_fold(FNV_OFFSET_BASIS, sig_input(parsed->0)),
        !e.parse_ok ==> e.sig == 0 && e.major == 0,
        e.parse_ok ==> e.major == match parsed->0 {
            FltEvent::PreOpInitV3(v) | FltEvent::PostOpInitV3(v) => v.major_function,
            FltEvent::PreOpCompletionV3(v) | FltEvent::PostOpCompletionV3(v) => v.major_function,
            FltEvent::PreOpFailureV3(v) | FltEvent::PostOpFailureV3(v) => v.major_function,
        },
{
    let mut sig: u64 = 0;
    let mut major: u32 = 0;
    let mut parse_ok = false;
    if 96 <= opcode && opcode <= 101 {
        if let Some(ev) = parsed {
            sig = payload_sig(&ev);
            major = major_function(&ev);
            parse_ok = true;
        }
    }
    CapturedEvent { opcode, version, timestamp, pid, tid, sig, major, parse_ok }
}

/// Smallest timestamp of a nonempty event list.
pub open spec fn min_ts(s: Seq<CapturedEvent>) -> u64
    decreases s.len(),
{
    if s.len() <= 1 {
        s[0].timestamp
    } else if s.last().timestamp < min_ts(s.drop_last()) {
        s.last().timestamp
    } else {
        min_ts(s.drop_last())
    }
}

/// Largest timestamp of a nonempty event list.
pub open spec fn max_ts(s: Seq<CapturedEvent>) -> u64
    decreases s.len(),
{
    if s.len() <= 1 {
        s[0].timestamp
    } else if s.last().timestamp > max_ts(s.drop_last()) {
        s.last().timestamp
    } else {
        max_ts(s.drop_last())
    }
}

/// The events of `s` whose timestamp lies in `lo..=hi`, in order.
pub open spec fn in_window(s: Seq<CapturedEvent>, lo: u64, hi: u64) -> Seq<CapturedEvent>
    decreases s.len(),
{
    if s.len() == 0 {
        Seq::empty()
    } else if lo <= s.last().timestamp <= hi {
        in_window(s.drop_last(), lo, hi).push(s.last())
    } else {
        in_window(s.drop_last(), lo, hi)
    }
}

fn min_max_ts(s: &Vec<CapturedEvent>) -> (r: (u64, u64))
    requires
        s@.len() > 0,
    ensures
        r.0 == min_ts(s@),
        r.1 == max_ts(s@),
{
    let mut lo = s[0].timestamp;
    let mut hi = s[0].timestamp;
    let mut i: usize = 1;
    while i < s.len()
        invariant
            1 <= i <= s@.len(),
            lo == min_ts(s@.subrange(0, i as int)),
            hi == max_ts(s@.subrange(0, i as int)),
        decreases s.len() - i,
    {
        let t = s[i].timestamp;
        proof {
            assert(s@.subrange(0, i + 1).drop_last() =~= s@.subrange(0, i as int));
        }
        if t < lo {
            lo = t;
        }
        if t > hi {
            hi = t;
        }
        i = i + 1;
    }
    assert(s@.subrange(0, s@.len() as int) =~= s@);
    (lo, hi)
}

fn filter_window(s: &Vec<CapturedEvent>, lo: u64, hi: u64) -> (r: Vec<CapturedEvent>)
    ensures
        r@ == in_window(s@, lo, hi),
{
    let mut r: Vec<CapturedEvent> = Vec::new();
    let mut i: usize = 0;
    while i < s.len()
        invariant
            i <= s@.len(),
            r@ == in_window(s@.subrange(0, i as int), lo, hi),
        decreases s.len() - i,
    {
        proof {
            assert(s@.subrange(0, i + 1).drop_last() =~= s@.subrange(0, i as int));
        }
        if s[i].timestamp >= lo && s[i].timestamp <= hi {
            r.push(s[i]);
        }
        i = i + 1;
    }
    assert(s@.subrange(0, s@.len() as int) =~= s@);
    r
}

/// Both lists trimmed to their common time window; both empty when either is.
pub open spec fn trimmed(fast: Seq<CapturedEvent>, io: Seq<CapturedEvent>) -> (Seq<CapturedEvent>, Seq<CapturedEvent>) {
    if fast.len() == 0 || io.len() == 0 {
        (Seq::empty(), Seq::empty())
    } else {
        let lo = if min_ts(fast) >= min_ts(io) { min_ts(fast) } else { min_ts(io) };
        let hi = if max_ts(fast) <= max_ts(io) { max_ts(fast) } else { max_ts(io) };
        (in_window(fast, lo, hi), in_window(io, lo, hi))
    }
}

/// Trim both event lists to the common time window, so that session start
/// skew and teardown do not produce one-sided edge effects.
pub fn trim_window(fast: &Vec<CapturedEvent>, io: &Vec<CapturedEvent>) -> (r: (Vec<CapturedEvent>, Vec<CapturedEvent>))
    ensures
        (r.0@, r.1@) == trimmed(fast@, io@),
{
    if fast.len() == 0 || io.len() == 0 {
        return (Vec::new(), Vec::new());
    }
    let (t0a, t1a) = min_max_ts(fast);
    let (t0b, t1b) = min_max_ts(io);
    let lo = if t0a >= t0b { t0a } else { t0b };
    let hi = if t1a <= t1b { t1a } else { t1b };
    (filter_window(fast, lo, hi), filter_window(io, lo, hi))
}


/// Identity key of a captured event: opcode, version, timestamp, pid, tid, signature.
pub type MatchKey = (u8, u8, u64, u32, u32, u64);

/// The identity key of `e`.
pub open spec fn match_key(e: CapturedEvent) -> MatchKey {
    (e.opcode, e.version, e.timestamp, e.pid, e.tid, e.sig)
}

/// The multiset of identity keys of the events of `s`.
pub open spec fn key_multiset(s: Seq<CapturedEvent>) -> Multiset<MatchKey>
    decreases s.len(),
{
    if s.len() == 0 {
        Multiset::empty()
    } else {
        key_multiset(s.drop_last()).insert(match_key(s.last()))
    }
}

/// Number of events present in both lists, matched as multisets of identity keys.
pub open spec fn matched_count(a: Seq<CapturedEvent>, b: Seq<CapturedEvent>) -> nat {
    key_multiset(a).intersection_with(key_multiset(b)).len()
}

/// Keys of the events of `io` whose flag in `used` equals `want`.
spec fn marked(io: Seq<CapturedEvent>, used: Seq<bool>, want: bool) -> Multiset<MatchKey>
    decreases io.len(),
{
    if io.len() == 0 || used.len() != io.len() {
        Multiset::empty()
    } else if used.last() == want {
        marked(io.drop_last(), used.drop_last(), want).insert(match_key(io.last()))
    } else {
        marked(io.drop_last(), used.drop_last(), want)
    }
}

proof fn lemma_marked_split(io: Seq<CapturedEvent>, used: Seq<bool>)
    requires
        used.len() == io.len(),
    ensures
        marked(io, used, true).add(marked(io, used, false)) =~= key_multiset(io),
        marked(io, used, true).len() <= io.len(),
    decreases io.len(),
{
    if io.len() > 0 {
        lemma_marked_split(io.drop_last(), used.drop_last());
    }
}

proof fn lemma_marked_flip(io: Seq<CapturedEvent>, used: Seq<bool>, j: int)
    requires
        used.len() == io.len(),
        0 <= j < io.len(),
        !used[j],
    ensures
        marked(io, used.update(j, true), true) =~= marked(io, used, true).insert(match_key(io[j])),
    decreases io.len(),
{
    let u2 = used.update(j, true);
    if j == io.len() - 1 {
        assert(u2.drop_last() =~= used.drop_last());
    } else {
        assert(u2.drop_last() =~= used.drop_last().update(j, true));
        lemma_marked_flip(io.drop_last(), used.drop_last(), j);
    }
}

proof fn lemma_no_unused_key(io: Seq<CapturedEvent>, used: Seq<bool>, x: MatchKey)
    requires
        used.len() == io.len(),
        forall|j: int| 0 <= j < io.len() && !used[j] ==> match_key(io[j]) != x,
    ensures
        marked(io, used, false).count(x) == 0,
    decreases io.len(),
{
    if io.len() > 0 {
        lemma_no_unused_key(io.drop_last(), used.drop_last(), x);
    }
}

/// There are as many identity keys as events.
proof fn lemma_key_multiset_len(s: Seq<CapturedEvent>)
    ensures
        key_multiset(s).len() == s.len(),
    decreases s.len(),
{
    if s.len() > 0 {
        lemma_key_multiset_len(s.drop_last());
    }
}

/// Matching is symmetric: FAST against IO matches as many events as IO against
/// FAST.
pub proof fn law_matching_is_symmetric(a: Seq<CapturedEvent>, b: Seq<CapturedEvent>)
    ensures
        matched_count(a, b) == matched_count(b, a),
{
    assert(key_multiset(a).intersection_with(key_multiset(b)) =~= key_multiset(b).intersection_with(key_multiset(a)));
}

/// When every FAST event has its own IO partner (the FAST keys are a
/// sub-multiset of the IO keys), every FAST event is matched: none is FAST-only.
pub proof fn law_subset_matches_all(a: Seq<CapturedEvent>, b: Seq<CapturedEvent>)
    requires
        key_multiset(a).subset_of(key_multiset(b)),
    ensures
        matched_count(a, b) == a.len(),
{
    lemma_key_multiset_len(a);
    assert(key_multiset(a).intersection_with(key_multiset(b)) =~= key_multiset(a));
}

/// Two captured events are the same kernel event: equal opcode, version, raw
/// timestamp, process, thread and payload signature.
pub open spec fn same_identity(x: CapturedEvent, y: CapturedEvent) -> bool {
    &&& x.opcode == y.opcode
    &&& x.version == y.version
    &&& x.timestamp == y.timestamp
    &&& x.pid == y.pid
    &&& x.tid == y.tid
    &&& x.sig == y.sig
}

/// A key held in the key multiset of `s` is the key of one of its events.
proof fn lemma_key_multiset_has(s: Seq<CapturedEvent>, x: MatchKey)
    requires
        key_multiset(s).count(x) > 0,
    ensures
        exists|i: int| 0 <= i < s.len() && match_key(s[i]) == x,
    decreases s.len(),
{
    if s.len() > 0 {
        if match_key(s.last()) != x {
            lemma_key_multiset_has(s.drop_last(), x);
            let i = choose|i: int| 0 <= i < s.len() - 1 && match_key(s.drop_last()[i]) == x;
            assert(s[i] == s.drop_last()[i]);
        } else {
            assert(match_key(s[s.len() - 1]) == x);
        }
    }
}

/// Matching pairs events only with events of the same identity: whenever some
/// events are matched, there is an event of each side equal to the other in
/// opcode, version, raw timestamp, process, thread and signature. So events at
/// different timestamps are never matched, and two lists that share no
/// timestamp match nothing.
pub proof fn law_matches_need_same_identity(a: Seq<CapturedEvent>, b: Seq<CapturedEvent>)
    ensures
        matched_count(a, b) > 0 ==> exists|i: int, j: int|
            0 <= i < a.len() && 0 <= j < b.len() && #[trigger] same_identity(a[i], b[j]),
        (forall|i: int, j: int| 0 <= i < a.len() && 0 <= j < b.len() ==> a[i].timestamp != b[j].timestamp)
            ==> matched_count(a, b) == 0,
{
    let m = key_multiset(a).intersection_with(key_multiset(b));
    if matched_count(a, b) > 0 {
        let x = m.choose();
        assert(m.count(x) > 0);
        lemma_key_multiset_has(a, x);
        lemma_key_multiset_has(b, x);
        let i = choose|i: int| 0 <= i < a.len() && match_key(a[i]) == x;
        let j = choose|j: int| 0 <= j < b.len() && match_key(b[j]) == x;
        assert(same_identity(a[i], b[j]));
    }
}

/// Some event of `b` has the identity of `e`.
pub open spec fn has_partner(b: Seq<CapturedEvent>, e: CapturedEvent) -> bool {
    exists|j: int| 0 <= j < b.len() && #[trigger] same_identity(e, b[j])
}

/// The events of `a` that have an event of the same identity in `b`, in order.
pub open spec fn partnered(a: Seq<CapturedEvent>, b: Seq<CapturedEvent>) -> Seq<CapturedEvent>
    decreases a.len(),
{
    if a.len() == 0 {
        Seq::empty()
    } else if has_partner(b, a.last()) {
        partnered(a.drop_last(), b).push(a.last())
    } else {
        partnered(a.drop_last(), b)
    }
}

proof fn lemma_partnered_keys(a: Seq<CapturedEvent>, b: Seq<CapturedEvent>, x: MatchKey)
    requires
        key_multiset(b).count(x) > 0,
    ensures
        key_multiset(partnered(a, b)).count(x) == key_multiset(a).count(x),
    decreases a.len(),
{
    if a.len() > 0 {
        lemma_partnered_keys(a.drop_last(), b, x);
        let e = a.last();
        let prev = partnered(a.drop_last(), b);
        if match_key(e) == x {
            lemma_key_multiset_has(b, x);
            let j = choose|j: int| 0 <= j < b.len() && match_key(b[j]) == x;
            assert(same_identity(e, b[j]));
            assert(has_partner(b, e));
        }
        if has_partner(b, e) {
            assert(partnered(a, b) == prev.push(e));
            assert(prev.push(e).drop_last() =~= prev);
            assert(key_multiset(prev.push(e)) == key_multiset(prev).insert(match_key(e)));
        } else {
            assert(partnered(a, b) == prev);
        }
    }
}

/// No more events are matched than the FAST events that have an IO event of
/// the same identity (opcode, version, raw timestamp, process, thread,
/// signature): an event without such a partner is always one-sided.
pub proof fn law_matched_only_with_partners(a: Seq<CapturedEvent>, b: Seq<CapturedEvent>)
    ensures
        matched_count(a, b) <= partnered(a, b).len(),
{
    let ka = key_multiset(a);
    let kb = key_multiset(b);
    let m = ka.intersection_with(kb);
    let kp = key_multiset(partnered(a, b));
    assert forall|x: MatchKey| m.count(x) <= kp.count(x) by {
        if kb.count(x) > 0 {
            lemma_partnered_keys(a, b, x);
        }
    }
    assert(m.subset_of(kp));
    assert(kp =~= m.add(kp.sub(m)));
    lemma_key_multiset_len(partnered(a, b));
}

/// Matched events never outnumber the events of either side.
pub proof fn law_matched_within_both(a: Seq<CapturedEvent>, b: Seq<CapturedEvent>)
    ensures
        matched_count(a, b) <= a.len(),
        matched_count(a, b) <= b.len(),
{
    lemma_key_multiset_len(a);
    lemma_key_multiset_len(b);
    let ka = key_multiset(a);
    let kb = key_multiset(b);
    let i = ka.intersection_with(kb);
    assert(ka =~= i.add(ka.sub(i)));
    assert(kb =~= i.add(kb.sub(i)));
}

fn same_key(a: &CapturedEvent, b: &CapturedEvent) -> (r: bool)
    ensures
        r == (match_key(*a) == match_key(*b)),
{
    a.opcode == b.opcode && a.version == b.version && a.timestamp == b.timestamp && a.pid == b.pid
        && a.tid == b.tid && a.sig == b.sig
}

/// Number of events of `fast` that have a partner with the same identity key
/// in `io`, each `io` event partnering at most one `fast` event.
pub fn count_matched(fast: &Vec<CapturedEvent>, io: &Vec<CapturedEvent>) -> (matched: usize)
    ensures
        matched == matched_count(fast@, io@),
        matched <= fast@.len(),
        matched <= io@.len(),
{
    let mut used: Vec<bool> = Vec::new();
    let mut j: usize = 0;
    while j < io.len()
        invariant
            j <= io@.len(),
            used@.len() == j,
            forall|m: int| 0 <= m < j ==> !used@[m],
        decreases io.len() - j,
    {
        used.push(false);
        j = j + 1;
    }
    proof {
        assert(marked(io@, used@, true) =~= Multiset::empty()) by {
            lemma_marked_split(io@, used@);
            lemma_marked_true_empty(io@, used@);
        }
    }
    let mut matched: usize = 0;
    let mut i: usize = 0;
    while i < fast.len()
        invariant
            i <= fast@.len(),
            used@.len() == io@.len(),
            marked(io@, used@, true) =~= key_multiset(fast@.subrange(0, i as int)).intersection_with(
                key_multiset(io@),
            ),
            matched as nat == marked(io@, used@, true).len(),
            matched <= i,
            matched <= io@.len(),
        decreases fast.len() - i,
    {
        let e = fast[i];
        let ghost x = match_key(e);
        let ghost p = key_multiset(fast@.subrange(0, i as int));
        let ghost b = key_multiset(io@);
        proof {
            assert(fast@.subrange(0, i + 1).drop_last() =~= fast@.subrange(0, i as int));
            lemma_marked_split(io@, used@);
        }
        let mut k: usize = 0;
        let mut found = false;
        while k < io.len()
            invariant_except_break
                !found,
            invariant
                k <= io@.len(),
                used@.len() == io@.len(),
                forall|m: int| 0 <= m < k && !used@[m] ==> match_key(io@[m]) != x,
                x == match_key(e),
            ensures
                found ==> k < io@.len() && !used@[k as int] && match_key(io@[k as int]) == x,
                !found ==> forall|m: int| 0 <= m < io@.len() && !used@[m] ==> match_key(io@[m]) != x,
            decreases io.len() - k,
        {
            if !used[k] && same_key(&io[k], &e) {
                found = true;
                break;
            }
            k = k + 1;
        }
        if found {
            let ghost old_used = used@;
            proof {
                lemma_marked_flip(io@, used@, k as int);
                assert(marked(io@, used@, false).count(x) >= 1) by {
                    lemma_marked_has(io@, used@, k as int);
                }
                assert(p.insert(x).intersection_with(b) =~= p.intersection_with(b).insert(x));
            }
            used.set(k, true);
            proof {
                lemma_marked_split(io@, used@);
            }
            matched = matched + 1;
        } else {
            proof {
                lemma_no_unused_key(io@, used@, x);
                assert(p.insert(x).intersection_with(b) =~= p.intersection_with(b));
            }
        }
        i = i + 1;
    }
    proof {
        assert(fast@.subrange(0, fast@.len() as int) =~= fast@);
    }
    matched
}

proof fn lemma_marked_true_empty(io: Seq<CapturedEvent>, used: Seq<bool>)
    requires
        used.len() == io.len(),
        forall|m: int| 0 <= m < used.len() ==> !used[m],
    ensures
        marked(io, used, true) =~= Multiset::empty(),
    decreases io.len(),
{
    if io.len() > 0 {
        lemma_marked_true_empty(io.drop_last(), used.drop_last());
    }
}

proof fn lemma_marked_has(io: Seq<CapturedEvent>, used: Seq<bool>, j: int)
    requires
        used.len() == io.len(),
        0 <= j < io.len(),
        !used[j],
    ensures
        marked(io, used, false).count(match_key(io[j])) >= 1,
    decreases io.len(),
{
    if j < io.len() - 1 {
        lemma_marked_has(io.drop_last(), used.drop_last(), j);
    }
}


/// Number of events of one opcode and version.
#[derive(Debug, Clone, Copy, PartialEq, Eq)]
pub struct OpcodeCount {
    pub opcode: u8,
    pub version: u8,
    pub count: usize,
}

/// The (opcode, version) pair of an event as one 16-bit key, opcode high.
pub open spec fn pair_key(opcode: u8, version: u8) -> u16 {
    (opcode as int * 256 + version as int) as u16
}

/// The (opcode, version) keys of the events of `s`, in order.
pub open spec fn pair_keys(s: Seq<CapturedEvent>) -> Seq<u16>
    decreases s.len(),
{
    if s.len() == 0 {
        Seq::empty()
    } else {
        pair_keys(s.drop_last()).push(pair_key(s.last().opcode, s.last().version))
    }
}

/// An opcode table as (key, count) pairs.
pub open spec fn count_pairs(t: Seq<OpcodeCount>) -> Seq<(u16, usize)> {
    Seq::new(t.len(), |j: int| (pair_key(t[j].opcode, t[j].version), t[j].count))
}

fn pair_key_vec(evs: &Vec<CapturedEvent>) -> (keys: Vec<u16>)
    ensures
        keys@ == pair_keys(evs@),
{
    let mut keys: Vec<u16> = Vec::new();
    let mut i: usize = 0;
    while i < evs.len()
        invariant
            i <= evs@.len(),
            keys@ == pair_keys(evs@.subrange(0, i as int)),
        decreases evs.len() - i,
    {
        proof {
            assert(evs@.subrange(0, i + 1).drop_last() =~= evs@.subrange(0, i as int));
        }
        keys.push(evs[i].opcode as u16 * 256 + evs[i].version as u16);
        i = i + 1;
    }
    assert(evs@.subrange(0, evs@.len() as int) =~= evs@);
    keys
}

/// Per (opcode, version) counts of pair keys, ordered by opcode then version.
pub fn counts_from_keys(keys: &Vec<u16>) -> (counts: Vec<OpcodeCount>)
    ensures
        is_tally(count_pairs(counts@), keys@),
{
    let t = tally(keys);
    let mut counts: Vec<OpcodeCount> = Vec::new();
    let mut j: usize = 0;
    while j < t.len()
        invariant
            j <= t@.len(),
            counts@.len() == j,
            forall|m: int| 0 <= m < j ==> pair_key((#[trigger] counts@[m]).opcode, counts@[m].version) == t@[m].0 && counts@[m].count == t@[m].1,
        decreases t.len() - j,
    {
        let (k, c) = t[j];
        let op = (k / 256) as u8;
        let ver = (k % 256) as u8;
        counts.push(OpcodeCount { opcode: op, version: ver, count: c });
        assert(pair_key(op, ver) == k);
        j = j + 1;
    }
    assert(count_pairs(counts@) =~= t@);
    counts
}

/// Per (opcode, version) event counts, ordered by opcode then version.
pub fn opcode_counts(evs: &Vec<CapturedEvent>) -> (counts: Vec<OpcodeCount>)
    ensures
        is_tally(count_pairs(counts@), pair_keys(evs@)),
{
    let keys = pair_key_vec(evs);
    counts_from_keys(&keys)
}

/// Integer results of comparing a FAST session with an IO session.
#[derive(Debug, Clone)]
pub struct MatchCounts {
    pub fast_total: usize,
    pub io_total: usize,
    pub matched: usize,
    pub fast_only: usize,
    pub io_only: usize,
    pub fast_opcodes: Vec<OpcodeCount>,
    pub io_opcodes: Vec<OpcodeCount>,
    pub opcodes_identical: bool,
}

/// Some entry of `t` is for opcode `op` and version `ver`.
pub open spec fn holds_pair(t: Seq<OpcodeCount>, op: u8, ver: u8) -> bool {
    exists|j: int| 0 <= j < t.len() && t[j].opcode == op && t[j].version == ver
}

fn has_key(t: &Vec<OpcodeCount>, op: u8, ver: u8) -> (b: bool)
    ensures
        b == holds_pair(t@, op, ver),
{
    let mut j: usize = 0;
    while j < t.len()
        invariant
            j <= t@.len(),
            forall|m: int| 0 <= m < j ==> !(t@[m].opcode == op && t@[m].version == ver),
        decreases t.len() - j,
    {
        if t[j].opcode == op && t[j].version == ver {
            return true;
        }
        j = j + 1;
    }
    false
}

proof fn lemma_pair_key_injective(a: u8, b: u8, c: u8, d: u8)
    ensures
        pair_key(a, b) == pair_key(c, d) ==> a == c && b == d,
{
}

fn all_keys_in(a: &Vec<OpcodeCount>, b: &Vec<OpcodeCount>) -> (r: bool)
    ensures
        r == forall|j: int| 0 <= j < a@.len() ==> holds_pair(b@, #[trigger] a@[j].opcode, a@[j].version),
{
    let mut j: usize = 0;
    while j < a.len()
        invariant
            j <= a@.len(),
            forall|i: int| 0 <= i < j ==> holds_pair(b@, #[trigger] a@[i].opcode, a@[i].version),
        decreases a.len() - j,
    {
        if !has_key(b, a[j].opcode, a[j].version) {
            return false;
        }
        j = j + 1;
    }
    true
}

/// The two event lists have the same nonempty set of (opcode, version) pairs.
pub open spec fn same_pairs(a: Seq<CapturedEvent>, b: Seq<CapturedEvent>) -> bool {
    &&& a.len() > 0
    &&& forall|k: u16| occurrences(pair_keys(a), k) > 0 <==> occurrences(pair_keys(b), k) > 0
}

proof fn lemma_pair_keys_len(s: Seq<CapturedEvent>)
    ensures
        pair_keys(s).len() == s.len(),
        s.len() > 0 ==> occurrences(pair_keys(s), pair_key(s.last().opcode, s.last().version)) > 0,
    decreases s.len(),
{
    if s.len() > 0 {
        lemma_pair_keys_len(s.drop_last());
    }
}

/// Compare two concurrently collected sessions, trimmed to their common time
/// window; `fast` is the FAST side and `io` the IO side.
pub fn compare_counts(fast: &Vec<CapturedEvent>, io: &Vec<CapturedEvent>) -> (r: MatchCounts)
    ensures
        ({
            let (ft, it) = trimmed(fast@, io@);
            &&& r.fast_total == ft.len()
            &&& r.io_total == it.len()
            &&& r.matched == matched_count(ft, it)
            &&& r.fast_only == ft.len() - matched_count(ft, it)
            &&& r.io_only == it.len() - matched_count(ft, it)
            &&& is_tally(count_pairs(r.fast_opcodes@), pair_keys(ft))
            &&& is_tally(count_pairs(r.io_opcodes@), pair_keys(it))
            &&& r.opcodes_identical == same_pairs(ft, it)
        }),
{
    let (fast, io) = trim_window(fast, io);
    let matched = count_matched(&fast, &io);
    let fast_opcodes = opcode_counts(&fast);
    let io_opcodes = opcode_counts(&io);
    let forward = all_keys_in(&fast_opcodes, &io_opcodes);
    let backward = all_keys_in(&io_opcodes, &fast_opcodes);
    let opcodes_identical = fast_opcodes.len() > 0 && forward && backward;
    proof {
        assert(is_tally(count_pairs(fast_opcodes@), pair_keys(fast@)));
        if fast_opcodes@.len() > 0 {
            assert(occurrences(pair_keys(fast@), count_pairs(fast_opcodes@)[0].0) > 0);
            lemma_pair_keys_len(fast@);
            if fast@.len() == 0 {
                assert(pair_keys(fast@) =~= Seq::empty());
            }
        }
        let cf = count_pairs(fast_opcodes@);
        let ci = count_pairs(io_opcodes@);
        let kf = pair_keys(fast@);
        let ki = pair_keys(io@);
        lemma_pair_keys_len(fast@);
        if fast@.len() > 0 {
            let j = choose|j: int| 0 <= j < cf.len() && cf[j].0 == pair_key(fast@.last().opcode, fast@.last().version);
        }
        if opcodes_identical {
            assert forall|k: u16| occurrences(kf, k) > 0 <==> occurrences(ki, k) > 0 by {
                if occurrences(kf, k) > 0 {
                    let j = choose|j: int| 0 <= j < cf.len() && cf[j].0 == k;
                    assert(holds_pair(io_opcodes@, fast_opcodes@[j].opcode, fast_opcodes@[j].version));
                    let m = choose|m: int| 0 <= m < io_opcodes@.len() && io_opcodes@[m].opcode == fast_opcodes@[j].opcode && io_opcodes@[m].version == fast_opcodes@[j].version;
                    assert(ci[m].0 == k);
                }
                if occurrences(ki, k) > 0 {
                    let j = choose|j: int| 0 <= j < ci.len() && ci[j].0 == k;
                    assert(holds_pair(fast_opcodes@, io_opcodes@[j].opcode, io_opcodes@[j].version));
                    let m = choose|m: int| 0 <= m < fast_opcodes@.len() && fast_opcodes@[m].opcode == io_opcodes@[j].opcode && fast_opcodes@[m].version == io_opcodes@[j].version;
                    assert(cf[m].0 == k);
                }
            }
        }
        if same_pairs(fast@, io@) {
            assert(fast_opcodes@.len() > 0);
            assert forall|j: int| 0 <= j < fast_opcodes@.len() implies holds_pair(io_opcodes@, #[trigger] fast_opcodes@[j].opcode, fast_opcodes@[j].version) by {
                let k = cf[j].0;
                assert(occurrences(ki, k) > 0);
                let m = choose|m: int| 0 <= m < ci.len() && ci[m].0 == k;
                lemma_pair_key_injective(io_opcodes@[m].opcode, io_opcodes@[m].version, fast_opcodes@[j].opcode, fast_opcodes@[j].version);
            }
            assert forall|j: int| 0 <= j < io_opcodes@.len() implies holds_pair(fast_opcodes@, #[trigger] io_opcodes@[j].opcode, io_opcodes@[j].version) by {
                let k = ci[j].0;
                assert(occurrences(kf, k) > 0);
                let m = choose|m: int| 0 <= m < cf.len() && cf[m].0 == k;
                lemma_pair_key_injective(fast_opcodes@[m].opcode, fast_opcodes@[m].version, io_opcodes@[j].opcode, io_opcodes@[j].version);
            }
        }
        assert(opcodes_identical == same_pairs(fast@, io@));
    }
    MatchCounts {
        fast_total: fast.len(),
        io_total: io.len(),
        matched,
        fast_only: fast.len() - matched,
        io_only: io.len() - matched,
        fast_opcodes,
        io_opcodes,
        opcodes_identical,
    }
}

/// `same_pairs` does not depend on which side is which.
proof fn lemma_same_pairs_symmetric(a: Seq<CapturedEvent>, b: Seq<CapturedEvent>)
    ensures
        same_pairs(a, b) == same_pairs(b, a),
{
    lemma_pair_keys_len(a);
    lemma_pair_keys_len(b);
    if same_pairs(a, b) {
        let k = pair_key(a.last().opcode, a.last().version);
        assert(occurrences(pair_keys(b), k) > 0);
        if b.len() == 0 {
            assert(pair_keys(b) =~= Seq::<u16>::empty());
        }
    }
    if same_pairs(b, a) {
        let k = pair_key(b.last().opcode, b.last().version);
        assert(occurrences(pair_keys(a), k) > 0);
        if a.len() == 0 {
            assert(pair_keys(a) =~= Seq::<u16>::empty());
        }
    }
}

/// Comparing the sessions the other way round swaps the sides and nothing
/// else: the trimmed lists swap (so the two opcode tables, each the one tally
/// of its side's keys by `law_tally_is_unique`, swap too), while the matched
/// count and the verdict on the opcode sets stay the same.
pub proof fn law_comparison_is_symmetric(a: Seq<CapturedEvent>, b: Seq<CapturedEvent>)
    ensures
        trimmed(b, a).0 == trimmed(a, b).1,
        trimmed(b, a).1 == trimmed(a, b).0,
        matched_count(trimmed(b, a).0, trimmed(b, a).1) == matched_count(trimmed(a, b).0, trimmed(a, b).1),
        same_pairs(trimmed(b, a).0, trimmed(b, a).1) == same_pairs(trimmed(a, b).0, trimmed(a, b).1),
{
    let (fa, ia) = trimmed(a, b);
    law_matching_is_symmetric(fa, ia);
    lemma_same_pairs_symmetric(fa, ia);
}

/// `{label}(/op{opcode},ver{version})={count}` of one table entry.
pub open spec fn opcode_count_text(o: OpcodeCount) -> Seq<char> {
    flt_opcode_text(o.opcode) + "(/op"@ + dec(o.opcode as nat) + ",ver"@ + dec(o.version as nat) + ")="@ + dec(
        o.count as nat,
    )
}

/// An opcode table on one line: its entries separated by spaces, `(none)` when
/// it is empty.
pub open spec fn opcode_table_text(list: Seq<OpcodeCount>) -> Seq<char> {
    if list.len() == 0 {
        "(none)"@
    } else {
        join(list.map_values(|o: OpcodeCount| opcode_count_text(o)), " "@)
    }
}

/// Formats an opcode table on one line.
pub fn format_oc(list: &Vec<OpcodeCount>) -> (s: String)
    ensures
        s@ == opcode_table_text(list@),
{
    if list.len() == 0 {
        return owned("(none)");
    }
    let mut parts: Vec<String> = Vec::new();
    let mut i: usize = 0;
    while i < list.len()
        invariant
            i <= list@.len(),
            str_views(parts@) == list@.subrange(0, i as int).map_values(|o: OpcodeCount| opcode_count_text(o)),
        decreases list.len() - i,
    {
        let o = list[i];
        let mut t = owned(flt_opcode_label(o.opcode));
        push_str(&mut t, "(/op");
        push_dec(&mut t, o.opcode as u64);
        push_str(&mut t, ",ver");
        push_dec(&mut t, o.version as u64);
        push_str(&mut t, ")=");
        push_dec(&mut t, o.count as u64);
        assert(t@ =~= opcode_count_text(list@[i as int]));
        let ghost prev = str_views(parts@);
        parts.push(t);
        assert(str_views(parts@) =~= prev.push(opcode_count_text(list@[i as int])));
        assert(list@.subrange(0, i + 1) =~= list@.subrange(0, i as int).push(list@[i as int]));
        i = i + 1;
        assert(str_views(parts@) =~= list@.subrange(0, i as int).map_values(|o: OpcodeCount| opcode_count_text(o)));
    }
    assert(list@.subrange(0, list@.len() as int) =~= list@);
    join_strings(&parts, " ")
}

/// One line of an opcode table in the baseline report:
/// `    {tag} opcode={opcode:>3} ver={version}  {label}: {count}`.
pub open spec fn opcode_line_text(tag: Seq<char>, o: OpcodeCount) -> Seq<char> {
    "    "@ + tag + " opcode="@ + pad_left(dec(o.opcode as nat), 3, ' ') + " ver="@ + dec(o.version as nat)
        + "  "@ + flt_opcode_text(o.opcode) + ": "@ + dec(o.count as nat)
}

/// The lines of an opcode table in the baseline report; `    {tag} (none)` for
/// an empty table.
pub open spec fn opcode_lines_text(tag: Seq<char>, list: Seq<OpcodeCount>) -> Seq<Seq<char>> {
    if list.len() == 0 {
        seq!["    "@ + tag + " (none)"@]
    } else {
        list.map_values(|o: OpcodeCount| opcode_line_text(tag, o))
    }
}

fn opcode_line(tag: &str, o: OpcodeCount) -> (s: String)
    ensures
        s@ == opcode_line_text(tag@, o),
{
    let mut s = owned("    ");
    push_str(&mut s, tag);
    push_str(&mut s, " opcode=");
    let mut d = String::new();
    push_dec(&mut d, o.opcode as u64);
    let n = chars_of(d.as_str()).len();
    let ghost start = s@;
    if n < 3 {
        let mut k: usize = 0;
        while k < 3 - n
            invariant
                n < 3,
                k <= 3 - n,
                s@ == start + Seq::new(k as nat, |i: int| ' '),
            decreases 3 - n - k,
        {
            push_char(&mut s, ' ');
            k = k + 1;
            assert(s@ =~= start + Seq::new(k as nat, |i: int| ' '));
        }
    }
    push_str(&mut s, d.as_str());
    assert(s@ =~= start + pad_left(dec(o.opcode as nat), 3, ' '));
    push_str(&mut s, " ver=");
    push_dec(&mut s, o.version as u64);
    push_str(&mut s, "  ");
    push_str(&mut s, flt_opcode_label(o.opcode));
    push_str(&mut s, ": ");
    push_dec(&mut s, o.count as u64);
    s
}

/// The lines that list an opcode table (see `opcode_counts`) under `tag`.
pub fn opcode_lines(list: &Vec<OpcodeCount>, tag: &str) -> (r: Vec<String>)
    ensures
        str_views(r@) == opcode_lines_text(tag@, list@),
{
    let mut r: Vec<String> = Vec::new();
    if list.len() == 0 {
        let mut s = owned("    ");
        push_str(&mut s, tag);
        push_str(&mut s, " (none)");
        r.push(s);
        assert(str_views(r@) =~= opcode_lines_text(tag@, list@));
        return r;
    }
    let mut i: usize = 0;
    while i < list.len()
        invariant
            i <= list@.len(),
            str_views(r@) == list@.subrange(0, i as int).map_values(|o: OpcodeCount| opcode_line_text(tag@, o)),
        decreases list.len() - i,
    {
        let ghost prev = str_views(r@);
        r.push(opcode_line(tag, list[i]));
        assert(str_views(r@) =~= prev.push(opcode_line_text(tag@, list@[i as int])));
        assert(list@.subrange(0, i + 1) =~= list@.subrange(0, i as int).push(list@[i as int]));
        i = i + 1;
        assert(str_views(r@) =~= list@.subrange(0, i as int).map_values(|o: OpcodeCount| opcode_line_text(tag@, o)));
    }
    assert(list@.subrange(0, list@.len() as int) =~= list@);
    r
}

} // verus!
