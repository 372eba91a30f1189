//! FltIoCompletion fingerprints of the PERF_FLT_IO / PERF_FLT_FASTIO experiment:
//! how many events a configuration produced, how many were fast I/O (no IRP),
//! and how many of each IRP major function.

use vstd::prelude::*;
use std::collections::HashMap;
use crate::text::{chars_of, dec, owned, pad_left, push_char, push_dec, push_str, str_views};

verus! {

broadcast use vstd::std_specs::hash::group_hash_axioms;

/// Parsed FltIoCompletion event data (opcodes 98/99).
#[derive(Debug, Clone, Copy, PartialEq, Eq)]
pub struct FltIoCompletionEvent {
    pub initial_time: u64,
    pub routine_addr: usize,
    pub file_object: usize,
    pub file_context: usize,
    pub irp_ptr: usize,
    pub callback_data_ptr: usize,
    pub major_function: u32,
}

/// A received FltIoCompletion event.
#[derive(Debug, Clone, Copy, PartialEq, Eq)]
pub struct RawEvent {
    pub opcode: u8,
    pub event_id: u16,
    pub version: u8,
    pub timestamp: u64,
    pub process_id: u32,
    pub thread_id: u32,
    pub flt: FltIoCompletionEvent,
}

impl RawEvent {
    /// Fast I/O operations carry no IRP: their IrpPtr is 0.
    pub fn is_fast(&self) -> (b: bool)
        ensures
            b == (self.flt.irp_ptr == 0),
    {
        self.flt.irp_ptr == 0
    }

    /// The IRP major function of the operation.
    pub fn major_function(&self) -> (m: u32)
        ensures
            m == self.flt.major_function,
    {
        self.flt.major_function
    }
}

/// PERF_FLT_IO group value.
pub const PERF_FLT_IO: u32 = 0x80100000;
/// PERF_FLT_FASTIO group value.
pub const PERF_FLT_FASTIO: u32 = 0x80200000;

/// The trace configuration under test.
#[derive(Debug, Clone, Copy, PartialEq, Eq, Hash, Structural)]
pub enum Config {
    FastIoOnly,
    IoOnly,
    Both,
}

impl Config {
    /// The three configurations, in the order the experiment runs them.
    pub fn all() -> (a: [Config; 3])
        ensures
            a@ == seq![Config::FastIoOnly, Config::IoOnly, Config::Both],
    {
        let a = [Config::FastIoOnly, Config::IoOnly, Config::Both];
        assert(a@ =~= seq![Config::FastIoOnly, Config::IoOnly, Config::Both]);
        a
    }

    /// Short name: FASTIO, IO or BOTH.
    pub fn name(self) -> (s: &'static str)
        ensures
            s@ == match self {
                Config::FastIoOnly => "FASTIO"@,
                Config::IoOnly => "IO"@,
                Config::Both => "BOTH"@,
            },
    {
        match self {
            Config::FastIoOnly => "FASTIO",
            Config::IoOnly => "IO",
            Config::Both => "BOTH",
        }
    }

    /// PERFINFO group value of the configuration.
    pub fn group_value(self) -> (v: u32)
        ensures
            v == match self {
                Config::FastIoOnly => PERF_FLT_FASTIO,
                Config::IoOnly => PERF_FLT_IO,
                Config::Both => PERF_FLT_IO | PERF_FLT_FASTIO,
            },
    {
        match self {
            Config::FastIoOnly => PERF_FLT_FASTIO,
            Config::IoOnly => PERF_FLT_IO,
            Config::Both => PERF_FLT_IO | PERF_FLT_FASTIO,
        }
    }
}

/// Per-configuration fingerprint: event counts and counts per major function.
#[derive(Debug, Clone)]
pub struct Fingerprint {
    pub total: usize,
    pub fast: usize,
    pub nonfast: usize,
    /// major function -> count
    pub majors: HashMap<u32, usize>,
}

/// The count that a major-function map holds for `k` (0 when absent).
pub open spec fn major_count(m: Map<u32, usize>, k: u32) -> nat {
    if m.contains_key(k) {
        m[k] as nat
    } else {
        0
    }
}

/// Number of events of `s` that are fast I/O.
pub open spec fn count_fast(s: Seq<RawEvent>) -> nat
    decreases s.len(),
{
    if s.len() == 0 {
        0
    } else {
        count_fast(s.drop_last()) + if s.last().flt.irp_ptr == 0 { 1nat } else { 0nat }
    }
}

/// Number of events of `s` with major function `k`.
pub open spec fn count_major(s: Seq<RawEvent>, k: u32) -> nat
    decreases s.len(),
{
    if s.len() == 0 {
        0
    } else {
        count_major(s.drop_last(), k) + if s.last().flt.major_function == k { 1nat } else { 0nat }
    }
}

/// `fp` is the fingerprint of the events `s`.
pub open spec fn fingerprints(fp: Fingerprint, s: Seq<RawEvent>) -> bool {
    &&& fp.total == s.len()
    &&& fp.fast == count_fast(s)
    &&& fp.nonfast == s.len() - count_fast(s)
    &&& forall|k: u32| #[trigger] fp.majors@.contains_key(k) == (count_major(s, k) > 0)
    &&& forall|k: u32| #[trigger] major_count(fp.majors@, k) == count_major(s, k)
}

impl Default for Fingerprint {
    fn default() -> (fp: Self)
        ensures
            fp.total == 0 && fp.fast == 0 && fp.nonfast == 0,
            fp.majors@ == Map::<u32, usize>::empty(),
    {
        Fingerprint { total: 0, fast: 0, nonfast: 0, majors: HashMap::new() }
    }
}

impl Fingerprint {
    /// Counts one more event.
    pub fn add(&mut self, ev: &RawEvent)
        requires
            old(self).total < usize::MAX,
            ev.flt.irp_ptr == 0 ==> old(self).fast < usize::MAX,
            ev.flt.irp_ptr != 0 ==> old(self).nonfast < usize::MAX,
            major_count(old(self).majors@, ev.flt.major_function) < usize::MAX,
        ensures
            final(self).total == old(self).total + 1,
            final(self).fast == old(self).fast + if ev.flt.irp_ptr == 0 { 1int } else { 0int },
            final(self).nonfast == old(self).nonfast + if ev.flt.irp_ptr == 0 { 0int } else { 1int },
            final(self).majors@ == old(self).majors@.insert(
                ev.flt.major_function,
                (major_count(old(self).majors@, ev.flt.major_function) + 1) as usize,
            ),
    {
        self.total = self.total + 1;
        if ev.is_fast() {
            self.fast = self.fast + 1;
        } else {
            self.nonfast = self.nonfast + 1;
        }
        let mf = ev.major_function();
        let cur: usize = match self.majors.get(&mf) {
            Some(c) => *c,
            None => 0,
        };
        self.majors.insert(mf, cur + 1);
    }

    /// Adds the counts of `other` to this fingerprint.
    pub fn merge(&mut self, other: &Fingerprint)
        requires
            old(self).total + other.total <= usize::MAX,
            old(self).fast + other.fast <= usize::MAX,
            old(self).nonfast + other.nonfast <= usize::MAX,
            forall|k: u32| major_count(old(self).majors@, k) + major_count(other.majors@, k) <= usize::MAX,
        ensures
            final(self).total == old(self).total + other.total,
            final(self).fast == old(self).fast + other.fast,
            final(self).nonfast == old(self).nonfast + other.nonfast,
            forall|k: u32| #[trigger] final(self).majors@.contains_key(k) == (old(self).majors@.contains_key(k)
                || other.majors@.contains_key(k)),
            forall|k: u32| #[trigger] major_count(final(self).majors@, k) == major_count(old(self).majors@, k)
                + major_count(other.majors@, k),
    {
        self.total = self.total + other.total;
        self.fast = self.fast + other.fast;
        self.nonfast = self.nonfast + other.nonfast;
        let ghost m0 = self.majors@;
        for pair in it: other.majors.iter()
            invariant
                self.total == old(self).total + other.total,
                self.fast == old(self).fast + other.fast,
                self.nonfast == old(self).nonfast + other.nonfast,
                forall|k: u32| major_count(m0, k) + major_count(other.majors@, k) <= usize::MAX,
                forall|k: u32| #[trigger] self.majors@.contains_key(k) == (m0.contains_key(k)
                    || (exists|j: int| 0 <= j < it.index() && *it.seq()[j].0 == k)),
                forall|k: u32| #[trigger] major_count(self.majors@, k) == major_count(m0, k)
                    + if (exists|j: int| 0 <= j < it.index() && *it.seq()[j].0 == k) {
                    major_count(other.majors@, k)
                } else {
                    0
                },
                it.seq().no_duplicates(),
                forall|j: int| 0 <= j < it.seq().len() ==> other.majors@.contains_key(*it.seq()[j].0)
                    && other.majors@[*it.seq()[j].0] == *it.seq()[j].1,
        {
            let (k, v) = pair;
            let ghost idx = it.index();
            proof {
                assert(it.seq()[idx] == pair);
                assert(!(exists|j: int| 0 <= j < idx && *it.seq()[j].0 == *k)) by {
                    if exists|j: int| 0 <= j < idx && *it.seq()[j].0 == *k {
                        let j = choose|j: int| 0 <= j < idx && *it.seq()[j].0 == *k;
                        assert(it.seq()[j] != it.seq()[idx]);
                    }
                }
            }
            proof {
                assert(major_count(self.majors@, *k) == major_count(m0, *k));
                assert(other.majors@[*k] == *v);
            }
            let cur: usize = match self.majors.get(k) {
                Some(c) => *c,
                None => 0,
            };
            assert(cur == major_count(self.majors@, *k));
            let ghost before = self.majors@;
            self.majors.insert(*k, cur + *v);
            proof {
                assert forall|q: u32| #[trigger] major_count(self.majors@, q) == major_count(m0, q)
                    + if (exists|j: int| 0 <= j < idx + 1 && *it.seq()[j].0 == q) {
                    major_count(other.majors@, q)
                } else {
                    0
                } by {
                    if q == *k {
                        assert(*it.seq()[idx].0 == q);
                    } else {
                        assert(major_count(before, q) == major_count(self.majors@, q));
                        if exists|j: int| 0 <= j < idx + 1 && *it.seq()[j].0 == q {
                            let j = choose|j: int| 0 <= j < idx + 1 && *it.seq()[j].0 == q;
                            assert(j < idx);
                        }
                    }
                }
                assert forall|q: u32| #[trigger] self.majors@.contains_key(q) == (m0.contains_key(q)
                    || (exists|j: int| 0 <= j < idx + 1 && *it.seq()[j].0 == q)) by {
                    if q == *k {
                        assert(*it.seq()[idx].0 == q);
                    } else {
                        if exists|j: int| 0 <= j < idx + 1 && *it.seq()[j].0 == q {
                            let j = choose|j: int| 0 <= j < idx + 1 && *it.seq()[j].0 == q;
                            assert(j < idx);
                        }
                    }
                }
            }
        }
    }
}

/// An event is fast I/O.
pub open spec fn fast_pred() -> spec_fn(RawEvent) -> bool {
    |e: RawEvent| e.flt.irp_ptr == 0
}

/// An event is not fast I/O.
pub open spec fn nonfast_pred() -> spec_fn(RawEvent) -> bool {
    |e: RawEvent| e.flt.irp_ptr != 0
}

/// Events of `s` that are fast I/O, in order.
pub open spec fn fast_events(s: Seq<RawEvent>) -> Seq<RawEvent> {
    s.filter(fast_pred())
}

/// Events of `s` that are not fast I/O, in order.
pub open spec fn nonfast_events(s: Seq<RawEvent>) -> Seq<RawEvent> {
    s.filter(nonfast_pred())
}

proof fn lemma_counts_bounded(s: Seq<RawEvent>, k: u32)
    ensures
        count_fast(s) <= s.len(),
        count_major(s, k) <= s.len(),
    decreases s.len(),
{
    if s.len() > 0 {
        lemma_counts_bounded(s.drop_last(), k);
    }
}

/// The fingerprint of `events`.
pub fn fingerprint(events: &[RawEvent]) -> (fp: Fingerprint)
    ensures
        fingerprints(fp, events@),
{
    let mut fp = Fingerprint::default();
    let mut i: usize = 0;
    while i < events.len()
        invariant
            i <= events@.len(),
            fingerprints(fp, events@.subrange(0, i as int)),
        decreases events.len() - i,
    {
        let ghost pre = events@.subrange(0, i as int);
        let ghost post = events@.subrange(0, i + 1);
        let ev = events[i];
        proof {
            assert(post.drop_last() =~= pre);
            lemma_counts_bounded(pre, ev.flt.major_function);
            assert(post.last() == ev);
        }
        let ghost old_m = fp.majors@;
        fp.add(&ev);
        proof {
            assert forall|k: u32| #[trigger] fp.majors@.contains_key(k) == (count_major(post, k) > 0) by {
                assert(old_m.contains_key(k) == (count_major(pre, k) > 0));
            }
            assert forall|k: u32| #[trigger] major_count(fp.majors@, k) == count_major(post, k) by {
                assert(major_count(old_m, k) == count_major(pre, k));
            }
        }
        i = i + 1;
    }
    assert(events@.subrange(0, events@.len() as int) =~= events@);
    fp
}

/// Fingerprints of one pass: each configuration, and the BOTH run split by the
/// fast-I/O discriminator.
#[derive(Debug, Clone)]
pub struct PassResult {
    pub fastio: Fingerprint,
    pub io: Fingerprint,
    pub both: Fingerprint,
    pub both_fast: Fingerprint,
    pub both_nonfast: Fingerprint,
}

/// Fingerprints each configuration of one pass and splits the BOTH run into its
/// fast and non-fast events.
pub fn score_pass(_pass: usize, fastio: &[RawEvent], io: &[RawEvent], both: &[RawEvent]) -> (r: PassResult)
    ensures
        fingerprints(r.fastio, fastio@),
        fingerprints(r.io, io@),
        fingerprints(r.both, both@),
        fingerprints(r.both_fast, fast_events(both@)),
        fingerprints(r.both_nonfast, nonfast_events(both@)),
{
    let fp_fastio = fingerprint(fastio);
    let fp_io = fingerprint(io);
    let fp_both = fingerprint(both);
    let mut fast: Vec<RawEvent> = Vec::new();
    let mut nonfast: Vec<RawEvent> = Vec::new();
    let mut i: usize = 0;
    while i < both.len()
        invariant
            i <= both@.len(),
            fast@ == fast_events(both@.subrange(0, i as int)),
            nonfast@ == nonfast_events(both@.subrange(0, i as int)),
        decreases both.len() - i,
    {
        let ev = both[i];
        proof {
            let pre = both@.subrange(0, i as int);
            let post = both@.subrange(0, i + 1);
            assert(post.drop_last() =~= pre);
            assert(post.last() == ev);
            pre.lemma_filter_push(ev, fast_pred());
            pre.lemma_filter_push(ev, nonfast_pred());
            assert(pre.push(ev) =~= post);
        }
        if ev.is_fast() {
            fast.push(ev);
        } else {
            nonfast.push(ev);
        }
        i = i + 1;
    }
    assert(both@.subrange(0, both@.len() as int) =~= both@);
    let both_fast = fingerprint(fast.as_slice());
    let both_nonfast = fingerprint(nonfast.as_slice());
    PassResult { fastio: fp_fastio, io: fp_io, both: fp_both, both_fast, both_nonfast }
}

proof fn lemma_count_concat(a: Seq<RawEvent>, b: Seq<RawEvent>, k: u32)
    ensures
        count_fast(a + b) == count_fast(a) + count_fast(b),
        count_major(a + b, k) == count_major(a, k) + count_major(b, k),
    decreases b.len(),
{
    if b.len() == 0 {
        assert(a + b =~= a);
    } else {
        lemma_count_concat(a, b.drop_last(), k);
        assert((a + b).drop_last() =~= a + b.drop_last());
    }
}

/// Merging the fingerprints of two runs gives the fingerprint of both runs'
/// events together: pass results can be pooled in any grouping.
pub proof fn law_merge_is_fingerprint_of_concat(
    fa: Fingerprint,
    a: Seq<RawEvent>,
    fb: Fingerprint,
    b: Seq<RawEvent>,
    merged: Fingerprint,
)
    requires
        fingerprints(fa, a),
        fingerprints(fb, b),
        merged.total == fa.total + fb.total,
        merged.fast == fa.fast + fb.fast,
        merged.nonfast == fa.nonfast + fb.nonfast,
        forall|k: u32| #[trigger] merged.majors@.contains_key(k) == (fa.majors@.contains_key(k)
            || fb.majors@.contains_key(k)),
        forall|k: u32| #[trigger] major_count(merged.majors@, k) == major_count(fa.majors@, k)
            + major_count(fb.majors@, k),
    ensures
        fingerprints(merged, a + b),
{
    lemma_counts_bounded(a, 0);
    lemma_counts_bounded(b, 0);
    lemma_count_concat(a, b, 0);
    assert forall|k: u32| #[trigger] merged.majors@.contains_key(k) == (count_major(a + b, k) > 0) by {
        lemma_count_concat(a, b, k);
    }
    assert forall|k: u32| #[trigger] major_count(merged.majors@, k) == count_major(a + b, k) by {
        lemma_count_concat(a, b, k);
    }
}

/// Every event of a run is either fast or not: the split of the BOTH run adds
/// back up to the BOTH fingerprint.
pub proof fn law_split_adds_up(s: Seq<RawEvent>, k: u32)
    ensures
        fast_events(s).len() + nonfast_events(s).len() == s.len(),
        count_fast(fast_events(s)) == fast_events(s).len(),
        count_fast(nonfast_events(s)) == 0,
        count_major(fast_events(s), k) + count_major(nonfast_events(s), k) == count_major(s, k),
    decreases s.len(),
{
    if s.len() > 0 {
        let x = s.drop_last();
        law_split_adds_up(x, k);
        let e = s.last();
        x.lemma_filter_push(e, fast_pred());
        x.lemma_filter_push(e, nonfast_pred());
        assert(x.push(e) =~= s);
        assert(fast_events(x).push(e).drop_last() =~= fast_events(x));
        assert(nonfast_events(x).push(e).drop_last() =~= nonfast_events(x));
    } else {
        assert(fast_events(s) =~= Seq::<RawEvent>::empty());
        assert(nonfast_events(s) =~= Seq::<RawEvent>::empty());
    }
}

/// The hypotheses the experiment scores.
#[derive(Debug, Clone, Copy, PartialEq, Eq, Hash, Structural)]
pub enum Hypothesis {
    Disjoint,
    Subset,
    PartialOverlap,
    Same,
}

impl Hypothesis {
    /// How a hypothesis is shown.
    pub fn describe(&self) -> (s: &'static str)
        ensures
            s@ == match *self {
                Hypothesis::Disjoint => "Disjoint / exclusive"@,
                Hypothesis::Subset => "FASTIO is a (proper) subset of IO"@,
                Hypothesis::PartialOverlap => "Partial overlap"@,
                Hypothesis::Same => "Same events"@,
            },
    {
        match self {
            Hypothesis::Disjoint => "Disjoint / exclusive",
            Hypothesis::Subset => "FASTIO is a (proper) subset of IO",
            Hypothesis::PartialOverlap => "Partial overlap",
            Hypothesis::Same => "Same events",
        }
    }
}

/// The fingerprint of a pass that a pooled result is built from.
#[derive(Debug, Clone, Copy, PartialEq, Eq, Structural)]
pub enum PassField {
    FastIo,
    Io,
    Both,
    BothFast,
    BothNonFast,
}

/// The fingerprint `w` of pass `p`.
pub open spec fn field_of(p: PassResult, w: PassField) -> Fingerprint {
    match w {
        PassField::FastIo => p.fastio,
        PassField::Io => p.io,
        PassField::Both => p.both,
        PassField::BothFast => p.both_fast,
        PassField::BothNonFast => p.both_nonfast,
    }
}

fn select(p: &PassResult, w: PassField) -> (r: &Fingerprint)
    ensures
        *r == field_of(*p, w),
{
    match w {
        PassField::FastIo => &p.fastio,
        PassField::Io => &p.io,
        PassField::Both => &p.both,
        PassField::BothFast => &p.both_fast,
        PassField::BothNonFast => &p.both_nonfast,
    }
}

/// Sum of the totals of fingerprint `w` over the passes.
pub open spec fn sum_total(ps: Seq<PassResult>, w: PassField) -> nat
    decreases ps.len(),
{
    if ps.len() == 0 { 0 } else { sum_total(ps.drop_last(), w) + field_of(ps.last(), w).total as nat }
}

/// Sum of the fast counts of fingerprint `w` over the passes.
pub open spec fn sum_fast(ps: Seq<PassResult>, w: PassField) -> nat
    decreases ps.len(),
{
    if ps.len() == 0 { 0 } else { sum_fast(ps.drop_last(), w) + field_of(ps.last(), w).fast as nat }
}

/// Sum of the non-fast counts of fingerprint `w` over the passes.
pub open spec fn sum_nonfast(ps: Seq<PassResult>, w: PassField) -> nat
    decreases ps.len(),
{
    if ps.len() == 0 { 0 } else { sum_nonfast(ps.drop_last(), w) + field_of(ps.last(), w).nonfast as nat }
}

/// Sum of the counts of major function `k` in fingerprint `w` over the passes.
pub open spec fn sum_major(ps: Seq<PassResult>, w: PassField, k: u32) -> nat
    decreases ps.len(),
{
    if ps.len() == 0 {
        0
    } else {
        sum_major(ps.drop_last(), w, k) + major_count(field_of(ps.last(), w).majors@, k)
    }
}

/// Some pass has major function `k` in fingerprint `w`.
pub open spec fn any_major(ps: Seq<PassResult>, w: PassField, k: u32) -> bool {
    exists|i: int| 0 <= i < ps.len() && field_of(ps[i], w).majors@.contains_key(k)
}

/// The counts of fingerprint `w` of all passes pooled.
pub fn pool_passes(passes: &Vec<PassResult>, w: PassField) -> (fp: Fingerprint)
    requires
        sum_total(passes@, w) <= usize::MAX,
        sum_fast(passes@, w) <= usize::MAX,
        sum_nonfast(passes@, w) <= usize::MAX,
        forall|k: u32| sum_major(passes@, w, k) <= usize::MAX,
    ensures
        fp.total == sum_total(passes@, w),
        fp.fast == sum_fast(passes@, w),
        fp.nonfast == sum_nonfast(passes@, w),
        forall|k: u32| #[trigger] fp.majors@.contains_key(k) == any_major(passes@, w, k),
        forall|k: u32| #[trigger] major_count(fp.majors@, k) == sum_major(passes@, w, k),
{
    let mut fp = Fingerprint::default();
    let mut i: usize = 0;
    proof {
        lemma_sums_grow(passes@, w);
    }
    while i < passes.len()
        invariant
            i <= passes@.len(),
            sum_total(passes@, w) <= usize::MAX,
            sum_fast(passes@, w) <= usize::MAX,
            sum_nonfast(passes@, w) <= usize::MAX,
            forall|k: u32| sum_major(passes@, w, k) <= usize::MAX,
            forall|j: int| 0 <= j <= passes@.len() ==> sum_total(#[trigger] passes@.subrange(0, j), w)
                <= sum_total(passes@, w) && sum_fast(passes@.subrange(0, j), w) <= sum_fast(passes@, w)
                && sum_nonfast(passes@.subrange(0, j), w) <= sum_nonfast(passes@, w),
            forall|j: int, k: u32| 0 <= j <= passes@.len() ==> #[trigger] sum_major(passes@.subrange(0, j), w, k)
                <= sum_major(passes@, w, k),
            fp.total == sum_total(passes@.subrange(0, i as int), w),
            fp.fast == sum_fast(passes@.subrange(0, i as int), w),
            fp.nonfast == sum_nonfast(passes@.subrange(0, i as int), w),
            forall|k: u32| #[trigger] fp.majors@.contains_key(k) == any_major(passes@.subrange(0, i as int), w, k),
            forall|k: u32| #[trigger] major_count(fp.majors@, k) == sum_major(passes@.subrange(0, i as int), w, k),
        decreases passes.len() - i,
    {
        let ghost pre = passes@.subrange(0, i as int);
        let ghost post = passes@.subrange(0, i + 1);
        let other = select(&passes[i], w);
        proof {
            assert(post.drop_last() =~= pre);
            assert(post.last() == passes@[i as int]);
            assert forall|k: u32| major_count(fp.majors@, k) + major_count(other.majors@, k) <= usize::MAX by {
                assert(sum_major(post, w, k) <= sum_major(passes@, w, k));
            }
            assert(sum_total(post, w) <= sum_total(passes@, w));
            assert(sum_fast(post, w) <= sum_fast(passes@, w));
            assert(sum_nonfast(post, w) <= sum_nonfast(passes@, w));
        }
        let ghost old_m = fp.majors@;
        fp.merge(other);
        proof {
            assert forall|k: u32| #[trigger] fp.majors@.contains_key(k) == any_major(post, w, k) by {
                assert(old_m.contains_key(k) == any_major(pre, w, k));
                if any_major(post, w, k) && !other.majors@.contains_key(k) {
                    let m = choose|m: int| 0 <= m < post.len() && field_of(post[m], w).majors@.contains_key(k);
                    assert(m < pre.len() && post[m] == pre[m]);
                }
                if any_major(pre, w, k) {
                    let m = choose|m: int| 0 <= m < pre.len() && field_of(pre[m], w).majors@.contains_key(k);
                    assert(post[m] == pre[m]);
                }
                if other.majors@.contains_key(k) {
                    assert(field_of(post[i as int], w).majors@.contains_key(k));
                }
            }
            assert forall|k: u32| #[trigger] major_count(fp.majors@, k) == sum_major(post, w, k) by {
                assert(major_count(old_m, k) == sum_major(pre, w, k));
            }
        }
        i = i + 1;
    }
    assert(passes@.subrange(0, passes@.len() as int) =~= passes@);
    fp
}

proof fn lemma_sums_grow(ps: Seq<PassResult>, w: PassField)
    ensures
        forall|j: int| 0 <= j <= ps.len() ==> sum_total(#[trigger] ps.subrange(0, j), w) <= sum_total(ps, w)
            && sum_fast(ps.subrange(0, j), w) <= sum_fast(ps, w) && sum_nonfast(ps.subrange(0, j), w)
            <= sum_nonfast(ps, w),
        forall|j: int, k: u32| 0 <= j <= ps.len() ==> #[trigger] sum_major(ps.subrange(0, j), w, k)
            <= sum_major(ps, w, k),
    decreases ps.len(),
{
    if ps.len() > 0 {
        let x = ps.drop_last();
        lemma_sums_grow(x, w);
        assert forall|j: int| 0 <= j <= ps.len() implies sum_total(#[trigger] ps.subrange(0, j), w) <= sum_total(ps, w)
            && sum_fast(ps.subrange(0, j), w) <= sum_fast(ps, w) && sum_nonfast(ps.subrange(0, j), w)
            <= sum_nonfast(ps, w) by {
            if j == ps.len() {
                assert(ps.subrange(0, j) =~= ps);
            } else {
                assert(ps.subrange(0, j) =~= x.subrange(0, j));
                assert(sum_total(x.subrange(0, j), w) <= sum_total(x, w));
            }
        }
        assert forall|j: int, k: u32| 0 <= j <= ps.len() implies #[trigger] sum_major(ps.subrange(0, j), w, k)
            <= sum_major(ps, w, k) by {
            if j == ps.len() {
                assert(ps.subrange(0, j) =~= ps);
            } else {
                assert(ps.subrange(0, j) =~= x.subrange(0, j));
                assert(sum_major(x.subrange(0, j), w, k) <= sum_major(x, w, k));
            }
        }
    } else {
        assert forall|j: int| 0 <= j <= ps.len() implies sum_total(#[trigger] ps.subrange(0, j), w) <= sum_total(ps, w)
            && sum_fast(ps.subrange(0, j), w) <= sum_fast(ps, w) && sum_nonfast(ps.subrange(0, j), w)
            <= sum_nonfast(ps, w) by {
            assert(ps.subrange(0, j) =~= ps);
        }
        assert forall|j: int, k: u32| 0 <= j <= ps.len() implies #[trigger] sum_major(ps.subrange(0, j), w, k)
            <= sum_major(ps, w, k) by {
            assert(ps.subrange(0, j) =~= ps);
        }
    }
}

/// Major function codes strictly ascending.
pub open spec fn ascending_majors(v: Seq<u32>) -> bool {
    forall|a: int, b: int| 0 <= a < b < v.len() ==> v[a] < v[b]
}

fn insert_major(v: &mut Vec<u32>, x: u32)
    requires
        ascending_majors(old(v)@),
    ensures
        ascending_majors(final(v)@),
        forall|y: u32| final(v)@.contains(y) <==> (old(v)@.contains(y) || y == x),
{
    let mut i: usize = 0;
    while i < v.len() && v[i] < x
        invariant
            i <= v@.len(),
            v@ == old(v)@,
            forall|a: int| 0 <= a < i ==> v@[a] < x,
        decreases v.len() - i,
    {
        i = i + 1;
    }
    if i < v.len() && v[i] == x {
        return;
    }
    let ghost before = v@;
    v.insert(i, x);
    proof {
        let after = v@;
        assert(after =~= before.insert(i as int, x));
        assert forall|a: int, b: int| 0 <= a < b < after.len() implies after[a] < after[b] by {
            if b < i {
                assert(after[a] == before[a] && after[b] == before[b]);
            } else if b == i {
                assert(after[a] == before[a]);
            } else if a < i {
                assert(after[a] == before[a] && after[b] == before[b - 1]);
                assert(before[i as int] <= before[b - 1]);
            } else if a == i {
                assert(after[b] == before[b - 1]);
                assert(before[i as int] <= before[b - 1]);
            } else {
                assert(after[a] == before[a - 1] && after[b] == before[b - 1]);
            }
        }
        assert forall|y: u32| after.contains(y) <==> (before.contains(y) || y == x) by {
            if after.contains(y) {
                let a = choose|a: int| 0 <= a < after.len() && after[a] == y;
                if a < i {
                    assert(before[a] == y);
                } else if a > i {
                    assert(before[a - 1] == y);
                }
            }
            if before.contains(y) {
                let a = choose|a: int| 0 <= a < before.len() && before[a] == y;
                if a < i {
                    assert(after[a] == y);
                } else {
                    assert(after[a + 1] == y);
                }
            }
            if y == x {
                assert(after[i as int] == x);
            }
        }
    }
}

/// Adds the major function codes of `m` to an ascending list.
fn insert_keys(v: &mut Vec<u32>, m: &HashMap<u32, usize>)
    requires
        ascending_majors(old(v)@),
    ensures
        ascending_majors(final(v)@),
        forall|y: u32| final(v)@.contains(y) <==> (old(v)@.contains(y) || m@.contains_key(y)),
{
    let ghost v0 = v@;
    for pair in it: m.iter()
        invariant
            ascending_majors(v@),
            forall|y: u32| v@.contains(y) <==> (v0.contains(y) || (exists|j: int| 0 <= j < it.index() && *it.seq()[j].0 == y)),
            forall|j: int| 0 <= j < it.seq().len() ==> m@.contains_key(*it.seq()[j].0),
            forall|y: u32| m@.contains_key(y) ==> exists|j: int| 0 <= j < it.seq().len() && *it.seq()[j].0 == y,
    {
        let (k, _) = pair;
        let ghost idx = it.index();
        let ghost before = v@;
        insert_major(v, *k);
        proof {
            assert(it.seq()[idx] == pair);
            assert(forall|y: u32| before.contains(y) <==> (v0.contains(y) || (exists|j: int| 0 <= j < idx && *it.seq()[j].0 == y)));
            assert(forall|y: u32| v@.contains(y) <==> (before.contains(y) || y == *k));
            assert forall|y: u32| v@.contains(y) <==> (v0.contains(y) || (exists|j: int| 0 <= j < idx + 1 && *it.seq()[j].0 == y)) by {
                if y == *k {
                    assert(*it.seq()[idx].0 == y);
                }
                if exists|j: int| 0 <= j < idx + 1 && *it.seq()[j].0 == y {
                    let j = choose|j: int| 0 <= j < idx + 1 && *it.seq()[j].0 == y;
                    if j < idx {
                        assert(exists|j2: int| 0 <= j2 < idx && *it.seq()[j2].0 == y);
                    }
                }
            }
        }
    }
}

/// The line of one major function in the comparison table.
pub open spec fn major_line_text(
    k: u32,
    fastio: Map<u32, usize>,
    io: Map<u32, usize>,
    both_fast: Map<u32, usize>,
    both_nonfast: Map<u32, usize>,
) -> Seq<char> {
    "  MJ_"@ + pad_left(dec(k as nat), 2, ' ') + ": FASTIO="@ + dec(major_count(fastio, k)) + "  IO="@ + dec(
        major_count(io, k),
    ) + "  | BOTH-fast="@ + dec(major_count(both_fast, k)) + "  BOTH-nonfast="@ + dec(major_count(both_nonfast, k))
}

/// The major function comparison table: the codes seen in the BOTH or the FASTIO
/// configuration, ascending, and one line each.
#[derive(Debug, Clone)]
pub struct MajorTable {
    pub majors: Vec<u32>,
    pub lines: Vec<String>,
}

fn count_of(m: &HashMap<u32, usize>, k: u32) -> (c: usize)
    ensures
        c == major_count(m@, k),
{
    match m.get(&k) {
        Some(c) => *c,
        None => 0,
    }
}

/// Tabulates, per major function seen under BOTH or FASTIO, the counts of the
/// FASTIO, IO, BOTH-fast and BOTH-nonfast fingerprints.
pub fn major_table(
    both: &Fingerprint,
    fastio: &Fingerprint,
    io: &Fingerprint,
    both_fast: &Fingerprint,
    both_nonfast: &Fingerprint,
) -> (t: MajorTable)
    ensures
        ascending_majors(t.majors@),
        forall|k: u32| t.majors@.contains(k) <==> (both.majors@.contains_key(k) || fastio.majors@.contains_key(k)),
        str_views(t.lines@) == t.majors@.map_values(
            |k: u32| major_line_text(k, fastio.majors@, io.majors@, both_fast.majors@, both_nonfast.majors@),
        ),
{
    let mut majors: Vec<u32> = Vec::new();
    insert_keys(&mut majors, &both.majors);
    insert_keys(&mut majors, &fastio.majors);
    let mut lines: Vec<String> = Vec::new();
    let mut i: usize = 0;
    while i < majors.len()
        invariant
            i <= majors@.len(),
            str_views(lines@) == majors@.subrange(0, i as int).map_values(
                |k: u32| major_line_text(k, fastio.majors@, io.majors@, both_fast.majors@, both_nonfast.majors@),
            ),
        decreases majors.len() - i,
    {
        let k = majors[i];
        let mut m = owned("  MJ_");
        let mut d = String::new();
        push_dec(&mut d, k as u64);
        let n = chars_of(d.as_str()).len();
        let ghost start = m@;
        if n < 2 {
            push_char(&mut m, ' ');
            assert(m@ =~= start + Seq::new((2 - n) as nat, |j: int| ' '));
        }
        push_str(&mut m, d.as_str());
        assert(m@ =~= start + pad_left(dec(k as nat), 2, ' '));
        push_str(&mut m, ": FASTIO=");
        push_dec(&mut m, count_of(&fastio.majors, k) as u64);
        push_str(&mut m, "  IO=");
        push_dec(&mut m, count_of(&io.majors, k) as u64);
        push_str(&mut m, "  | BOTH-fast=");
        push_dec(&mut m, count_of(&both_fast.majors, k) as u64);
        push_str(&mut m, "  BOTH-nonfast=");
        push_dec(&mut m, count_of(&both_nonfast.majors, k) as u64);
        let ghost line = major_line_text(k, fastio.majors@, io.majors@, both_fast.majors@, both_nonfast.majors@);
        assert(m@ =~= line);
        let ghost prev = str_views(lines@);
        lines.push(m);
        proof {
            assert(str_views(lines@) =~= prev.push(line));
            assert(majors@.subrange(0, i + 1) =~= majors@.subrange(0, i as int).push(k));
        }
        i = i + 1;
    }
    assert(majors@.subrange(0, majors@.len() as int) =~= majors@);
    MajorTable { majors, lines }
}

/// What the best hypothesis means, as the report explains it.
pub open spec fn interpretation_text(h: Hypothesis) -> Seq<Seq<char>> {
    match h {
        Hypothesis::Disjoint => seq![
            "Interpretation: PERF_FLT_FASTIO and PERF_FLT_IO emit DIFFERENT event instances."@,
            "Fast I/O (cached, IrpPtr==0) vs IRP-based I/O; sets are mutually exclusive."@,
        ],
        Hypothesis::Subset => seq![
            "Interpretation: FASTIO events are a subset of IO events (same underlying event,"@,
            "  extra Fast I/O instances only surface under the IO flag)."@,
        ],
        Hypothesis::PartialOverlap => seq![
            "Interpretation: the two flags share some instances but each also emits unique ones."@,
        ],
        Hypothesis::Same => seq!["Interpretation: the flags are effectively identical for FltIoCompletion."@],
    }
}

/// The lines that explain the best hypothesis.
pub fn interpretation(h: Hypothesis) -> (v: Vec<String>)
    ensures
        str_views(v@) == interpretation_text(h),
{
    let mut v: Vec<String> = Vec::new();
    match h {
        Hypothesis::Disjoint => {
            v.push(owned("Interpretation: PERF_FLT_FASTIO and PERF_FLT_IO emit DIFFERENT event instances."));
            v.push(owned("Fast I/O (cached, IrpPtr==0) vs IRP-based I/O; sets are mutually exclusive."));
        },
        Hypothesis::Subset => {
            v.push(owned("Interpretation: FASTIO events are a subset of IO events (same underlying event,"));
            v.push(owned("  extra Fast I/O instances only surface under the IO flag)."));
        },
        Hypothesis::PartialOverlap => {
            v.push(owned("Interpretation: the two flags share some instances but each also emits unique ones."));
        },
        Hypothesis::Same => {
            v.push(owned("Interpretation: the flags are effectively identical for FltIoCompletion."));
        },
    }
    assert(str_views(v@) =~= interpretation_text(h));
    v
}

} // verus!
