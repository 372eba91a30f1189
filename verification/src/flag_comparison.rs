//! Comparison of FltIoCompletion events (opcodes 98/99) seen by two
//! concurrent sessions, one per flag, by first-fit timestamp matching.

use vstd::prelude::*;

verus! {

/// A raw FileIo event as the trace callbacks record it.
#[derive(Debug, Clone, Copy, PartialEq, Eq)]
pub struct FileIoRawEvent {
    pub opcode: u8,
    pub event_id: u16,
    pub version: u8,
    pub timestamp: u64,
    pub process_id: u32,
    pub thread_id: u32,
}

/// PreOpCompletion opcode.
pub const OPCODE_PRE_OP_COMPLETION: u8 = 98;
/// PostOpCompletion opcode.
pub const OPCODE_POST_OP_COMPLETION: u8 = 99;
/// Largest timestamp difference of two matched events (100 microseconds in ns).
pub const TIMESTAMP_TOLERANCE_NS: u64 = 100_000;

/// Results of one comparison run.
#[derive(Debug, Clone, Copy, PartialEq, Eq)]
pub struct RunResult {
    pub count_fastio: usize,
    pub count_flt_io: usize,
    /// FltIoCompletion events seen by the FASTIO session only.
    pub unique_to_fastio: usize,
    /// FltIoCompletion events seen by the FLT_IO session only.
    pub unique_to_flt_io: usize,
    /// Events matched across both sessions.
    pub matched_count: usize,
    pub pre_count_fastio: usize,
    pub pre_count_flt_io: usize,
    pub post_count_fastio: usize,
    pub post_count_flt_io: usize,
}

/// `e` is a FltIoCompletion event.
pub open spec fn is_completion(e: FileIoRawEvent) -> bool {
    e.opcode == OPCODE_PRE_OP_COMPLETION || e.opcode == OPCODE_POST_OP_COMPLETION
}

/// The events of `s` with opcode `op`, in order (`op` of 0 keeps both completion opcodes).
pub open spec fn completions(s: Seq<FileIoRawEvent>) -> Seq<FileIoRawEvent>
    decreases s.len(),
{
    if s.len() == 0 {
        Seq::empty()
    } else if is_completion(s.last()) {
        completions(s.drop_last()).push(s.last())
    } else {
        completions(s.drop_last())
    }
}

/// Number of events of `s` with opcode `op`.
pub open spec fn count_opcode(s: Seq<FileIoRawEvent>, op: u8) -> nat
    decreases s.len(),
{
    if s.len() == 0 {
        0
    } else {
        count_opcode(s.drop_last(), op) + if s.last().opcode == op {
            1nat
        } else {
            0nat
        }
    }
}

/// Number of `true` flags in `f`.
pub open spec fn count_true(f: Seq<bool>) -> nat
    decreases f.len(),
{
    if f.len() == 0 {
        0
    } else {
        count_true(f.drop_last()) + if f.last() {
            1nat
        } else {
            0nat
        }
    }
}

/// Two events can be matched: same opcode, timestamps at most the tolerance apart.
pub open spec fn partners(a: FileIoRawEvent, b: FileIoRawEvent) -> bool {
    a.opcode == b.opcode && (if a.timestamp >= b.timestamp {
        a.timestamp - b.timestamp
    } else {
        b.timestamp - a.timestamp
    }) <= TIMESTAMP_TOLERANCE_NS
}

/// Some event of `a` before the `i`-th is matched with the `j`-th event of `b`.
pub open spec fn taken_before(m: Seq<int>, i: int, j: int) -> bool {
    exists|k: int| 0 <= k < i && m[k] == j
}

/// `m` is the first-fit matching of `a` against `b`: `m[i]` is the index in `b`
/// of the partner of the `i`-th event of `a`, or -1 when it has none, where
/// - each matched pair has the same opcode and timestamps within the tolerance;
/// - no event of `b` is matched twice (the matching is one-to-one);
/// - each event of `a`, in order, takes the first partner in `b` not taken by an
///   earlier event of `a`, and is unmatched only when every partner is taken.
pub open spec fn is_first_fit(a: Seq<FileIoRawEvent>, b: Seq<FileIoRawEvent>, m: Seq<int>) -> bool {
    &&& m.len() == a.len()
    &&& forall|i: int| 0 <= i < a.len() ==> (m[i] == -1 || (0 <= m[i] < b.len() && partners(a[i], b[m[i]])))
    &&& forall|k: int, i: int| 0 <= k < i < a.len() && m[i] >= 0 ==> m[k] != m[i]
    &&& forall|i: int, j: int|
        0 <= i < a.len() && 0 <= j < b.len() && partners(a[i], b[j]) && (m[i] == -1 || j < m[i])
            ==> taken_before(m, i, j)
}

/// Number of matched events in `m`.
pub open spec fn matched_in(m: Seq<int>) -> nat
    decreases m.len(),
{
    if m.len() == 0 {
        0
    } else {
        matched_in(m.drop_last()) + if m.last() >= 0 {
            1nat
        } else {
            0nat
        }
    }
}

proof fn lemma_first_fit_prefix_agree(
    a: Seq<FileIoRawEvent>,
    b: Seq<FileIoRawEvent>,
    m1: Seq<int>,
    m2: Seq<int>,
    n: int,
)
    requires
        is_first_fit(a, b, m1),
        is_first_fit(a, b, m2),
        0 <= n <= a.len(),
    ensures
        forall|k: int| 0 <= k < n ==> m1[k] == m2[k],
    decreases n,
{
    if n > 0 {
        let i = n - 1;
        lemma_first_fit_prefix_agree(a, b, m1, m2, i);
        let x = m1[i];
        let y = m2[i];
        if x != y {
            if x >= 0 && (y == -1 || x < y) {
                // x is a partner that m2 passed over, so an earlier event of m2 took it,
                // and that event took it in m1 too.
                assert(taken_before(m2, i, x));
                let k = choose|k: int| 0 <= k < i && m2[k] == x;
                assert(m1[k] == x);
            } else {
                assert(y >= 0 && (x == -1 || y < x));
                assert(taken_before(m1, i, y));
                let k = choose|k: int| 0 <= k < i && m1[k] == y;
                assert(m2[k] == y);
            }
        }
    }
}

/// There is one first-fit matching: two that satisfy `is_first_fit` for the
/// same events are equal, so the counts below are fixed by the events alone.
pub proof fn law_first_fit_is_unique(a: Seq<FileIoRawEvent>, b: Seq<FileIoRawEvent>, m1: Seq<int>, m2: Seq<int>)
    requires
        is_first_fit(a, b, m1),
        is_first_fit(a, b, m2),
    ensures
        m1 == m2,
{
    lemma_first_fit_prefix_agree(a, b, m1, m2, a.len() as int);
    assert(m1 =~= m2);
}

proof fn lemma_count_true_none(n: nat)
    ensures
        count_true(Seq::new(n, |j: int| false)) == 0,
    decreases n,
{
    if n > 0 {
        assert(Seq::new(n, |j: int| false).drop_last() =~= Seq::new((n - 1) as nat, |j: int| false));
        lemma_count_true_none((n - 1) as nat);
    }
}

proof fn lemma_count_true_set(f: Seq<bool>, j: int)
    requires
        0 <= j < f.len(),
        !f[j],
    ensures
        count_true(f.update(j, true)) == count_true(f) + 1,
    decreases f.len(),
{
    if j < f.len() - 1 {
        assert(f.update(j, true).drop_last() =~= f.drop_last().update(j, true));
        lemma_count_true_set(f.drop_last(), j);
    } else {
        assert(f.update(j, true).drop_last() =~= f.drop_last());
    }
}

proof fn lemma_count_true_bound(f: Seq<bool>)
    ensures
        count_true(f) <= f.len(),
    decreases f.len(),
{
    if f.len() > 0 {
        lemma_count_true_bound(f.drop_last());
    }
}

/// The completion events split into pre and post completions.
proof fn lemma_completions_split(s: Seq<FileIoRawEvent>)
    ensures
        count_opcode(completions(s), OPCODE_PRE_OP_COMPLETION) + count_opcode(completions(s), OPCODE_POST_OP_COMPLETION)
            == completions(s).len(),
    decreases s.len(),
{
    if s.len() > 0 {
        lemma_completions_split(s.drop_last());
        if is_completion(s.last()) {
            assert(completions(s).drop_last() =~= completions(s.drop_last()));
        }
    }
}

fn keep_completions(s: &Vec<FileIoRawEvent>) -> (r: Vec<FileIoRawEvent>)
    ensures
        r@ == completions(s@),
{
    let mut r: Vec<FileIoRawEvent> = Vec::new();
    let mut i: usize = 0;
    while i < s.len()
        invariant
            i <= s@.len(),
            r@ == completions(s@.subrange(0, i as int)),
        decreases s.len() - i,
    {
        proof {
            assert(s@.subrange(0, i + 1).drop_last() =~= s@.subrange(0, i as int));
        }
        if s[i].opcode == OPCODE_PRE_OP_COMPLETION || s[i].opcode == OPCODE_POST_OP_COMPLETION {
            r.push(s[i]);
        }
        i = i + 1;
    }
    assert(s@.subrange(0, s@.len() as int) =~= s@);
    r
}

fn count_op(s: &Vec<FileIoRawEvent>, op: u8) -> (n: usize)
    ensures
        n == count_opcode(s@, op),
{
    let mut n: usize = 0;
    let mut i: usize = 0;
    while i < s.len()
        invariant
            i <= s@.len(),
            n == count_opcode(s@.subrange(0, i as int), op),
            n <= i,
        decreases s.len() - i,
    {
        proof {
            assert(s@.subrange(0, i + 1).drop_last() =~= s@.subrange(0, i as int));
        }
        if s[i].opcode == op {
            n = n + 1;
        }
        i = i + 1;
    }
    assert(s@.subrange(0, s@.len() as int) =~= s@);
    n
}

fn count_unmatched(f: &Vec<bool>) -> (n: usize)
    ensures
        n + count_true(f@) == f@.len(),
{
    let mut n: usize = 0;
    let mut i: usize = 0;
    while i < f.len()
        invariant
            i <= f@.len(),
            n + count_true(f@.subrange(0, i as int)) == i,
        decreases f.len() - i,
    {
        proof {
            assert(f@.subrange(0, i + 1).drop_last() =~= f@.subrange(0, i as int));
        }
        if !f[i] {
            n = n + 1;
        }
        i = i + 1;
    }
    assert(f@.subrange(0, f@.len() as int) =~= f@);
    n
}

/// Extending a first-fit matching of the first `i` events of `a` by the
/// partner the `i`-th event takes (`x`, or -1 when every partner is taken).
proof fn lemma_first_fit_step(a: Seq<FileIoRawEvent>, b: Seq<FileIoRawEvent>, m: Seq<int>, i: int, x: int)
    requires
        0 <= i < a.len(),
        m.len() == i,
        is_first_fit(a.subrange(0, i), b, m),
        x == -1 || (0 <= x < b.len() && partners(a[i], b[x]) && !taken_before(m, i, x)),
        forall|j: int| 0 <= j < b.len() && partners(a[i], b[j]) && (x == -1 || j < x) ==> taken_before(m, i, j),
    ensures
        is_first_fit(a.subrange(0, i + 1), b, m.push(x)),
{
    let a0 = a.subrange(0, i);
    let a1 = a.subrange(0, i + 1);
    let m1 = m.push(x);
    assert forall|k: int| 0 <= k < i implies a1[k] == a0[k] && m1[k] == m[k] by {}
    assert forall|q: int| 0 <= q < a1.len() implies (m1[q] == -1 || (0 <= m1[q] < b.len() && partners(a1[q], b[m1[q]]))) by {
        if q < i {
            assert(a1[q] == a0[q]);
        }
    }
    assert forall|k: int, q: int| 0 <= k < q < a1.len() && m1[q] >= 0 implies m1[k] != m1[q] by {
        if q == i {
            assert(m1[k] == m[k]);
            if m[k] == x {
                assert(taken_before(m, i, x));
            }
        } else {
            assert(m1[k] == m[k] && m1[q] == m[q]);
        }
    }
    assert forall|q: int, j: int|
        0 <= q < a1.len() && 0 <= j < b.len() && partners(a1[q], b[j]) && (m1[q] == -1 || j < m1[q])
        implies taken_before(m1, q, j) by {
        if q == i {
            assert(taken_before(m, i, j));
            let k = choose|k: int| 0 <= k < i && m[k] == j;
            assert(m1[k] == j);
        } else {
            assert(a1[q] == a0[q] && m1[q] == m[q]);
            assert(taken_before(m, q, j));
            let k = choose|k: int| 0 <= k < q && m[k] == j;
            assert(m1[k] == j);
        }
    }
}

/// Compare the FltIoCompletion events of a FASTIO session (`raw_a`) and a
/// FLT_IO session (`raw_b`): the completion events of each side are counted,
/// and matched one-to-one by the first-fit matching (`is_first_fit`): each
/// FASTIO event, in order, takes the first FLT_IO event not yet taken that has
/// its opcode and a timestamp at most `TIMESTAMP_TOLERANCE_NS` away.
pub fn analyze_results(raw_a: &Vec<FileIoRawEvent>, raw_b: &Vec<FileIoRawEvent>) -> (r: RunResult)
    ensures
        ({
            let fa = completions(raw_a@);
            let fb = completions(raw_b@);
            &&& r.count_fastio == fa.len()
            &&& r.count_flt_io == fb.len()
            &&& r.pre_count_fastio == count_opcode(fa, OPCODE_PRE_OP_COMPLETION)
            &&& r.pre_count_flt_io == count_opcode(fb, OPCODE_PRE_OP_COMPLETION)
            &&& r.post_count_fastio == count_opcode(fa, OPCODE_POST_OP_COMPLETION)
            &&& r.post_count_flt_io == count_opcode(fb, OPCODE_POST_OP_COMPLETION)
            &&& r.pre_count_fastio + r.post_count_fastio == r.count_fastio
            &&& r.pre_count_flt_io + r.post_count_flt_io == r.count_flt_io
            &&& exists|m: Seq<int>| is_first_fit(fa, fb, m) && r.matched_count == matched_in(m)
            &&& r.unique_to_fastio + r.matched_count == r.count_fastio
            &&& r.unique_to_flt_io + r.matched_count == r.count_flt_io
        }),
{
    let flt_a = keep_completions(raw_a);
    let flt_b = keep_completions(raw_b);
    let count_fastio = flt_a.len();
    let count_flt_io = flt_b.len();
    let pre_count_fastio = count_op(&flt_a, OPCODE_PRE_OP_COMPLETION);
    let pre_count_flt_io = count_op(&flt_b, OPCODE_PRE_OP_COMPLETION);
    let post_count_fastio = count_op(&flt_a, OPCODE_POST_OP_COMPLETION);
    let post_count_flt_io = count_op(&flt_b, OPCODE_POST_OP_COMPLETION);
    proof {
        lemma_completions_split(raw_a@);
        lemma_completions_split(raw_b@);
    }

    let mut matched: usize = 0;
    let mut matched_b: Vec<bool> = Vec::new();
    let mut j: usize = 0;
    while j < flt_b.len()
        invariant
            j <= flt_b@.len(),
            matched_b@ == Seq::new(j as nat, |m: int| false),
        decreases flt_b.len() - j,
    {
        matched_b.push(false);
        j = j + 1;
        assert(matched_b@ =~= Seq::new(j as nat, |m: int| false));
    }
    proof {
        lemma_count_true_none(flt_b@.len());
        assert(flt_a@.subrange(0, 0) =~= Seq::<FileIoRawEvent>::empty());
    }
    let ghost mut m: Seq<int> = Seq::empty();
    let mut i: usize = 0;
    while i < flt_a.len()
        invariant
            i <= flt_a@.len(),
            m.len() == i,
            is_first_fit(flt_a@.subrange(0, i as int), flt_b@, m),
            matched_b@.len() == flt_b@.len(),
            forall|jj: int| 0 <= jj < flt_b@.len() ==> matched_b@[jj] == taken_before(m, i as int, jj),
            matched == matched_in(m),
            matched == count_true(matched_b@),
            matched <= i,
        decreases flt_a.len() - i,
    {
        let ea = flt_a[i];
        proof {
            lemma_count_true_bound(matched_b@);
        }
        let mut k: usize = 0;
        let mut found = false;
        while k < flt_b.len()
            invariant_except_break
                !found,
                forall|jj: int| 0 <= jj < k ==> !(!matched_b@[jj] && partners(ea, flt_b@[jj])),
            invariant
                k <= flt_b@.len(),
                matched_b@.len() == flt_b@.len(),
            ensures
                found ==> k < flt_b@.len() && !matched_b@[k as int] && partners(ea, flt_b@[k as int])
                    && forall|jj: int| 0 <= jj < k ==> !(!matched_b@[jj] && partners(ea, flt_b@[jj])),
                !found ==> forall|jj: int| 0 <= jj < flt_b@.len() ==> !(!matched_b@[jj] && partners(ea, flt_b@[jj])),
            decreases flt_b.len() - k,
        {
            let eb = flt_b[k];
            if !matched_b[k] && ea.opcode == eb.opcode {
                let diff = if ea.timestamp >= eb.timestamp { ea.timestamp - eb.timestamp } else { eb.timestamp - ea.timestamp };
                if diff <= TIMESTAMP_TOLERANCE_NS {
                    found = true;
                    break;
                }
            }
            k = k + 1;
        }
        let ghost x: int = if found { k as int } else { -1 };
        proof {
            assert(ea == flt_a@[i as int]);
            assert forall|jj: int| 0 <= jj < flt_b@.len() && partners(ea, flt_b@[jj]) && (x == -1 || jj < x)
                implies taken_before(m, i as int, jj) by {
                assert(matched_b@[jj]);
            }
            lemma_first_fit_step(flt_a@, flt_b@, m, i as int, x);
        }
        let ghost mb0 = matched_b@;
        if found {
            proof {
                lemma_count_true_set(matched_b@, k as int);
            }
            matched_b.set(k, true);
            matched = matched + 1;
        }
        proof {
            let m1 = m.push(x);
            assert(m1.drop_last() =~= m);
            assert(m1[i as int] == x);
            assert forall|jj: int| 0 <= jj < flt_b@.len() implies matched_b@[jj] == taken_before(m1, i + 1, jj) by {
                assert(mb0[jj] == taken_before(m, i as int, jj));
                if found && jj == k {
                    assert(taken_before(m1, i + 1, jj));
                } else {
                    assert(matched_b@[jj] == mb0[jj]);
                }
                if taken_before(m, i as int, jj) {
                    let kk = choose|kk: int| 0 <= kk < i && m[kk] == jj;
                    assert(m1[kk] == jj);
                }
                if taken_before(m1, i + 1, jj) {
                    let kk = choose|kk: int| 0 <= kk < i + 1 && m1[kk] == jj;
                    if kk < i {
                        assert(m[kk] == jj);
                    } else {
                        assert(x == jj);
                    }
                }
            }
            m = m1;
        }
        i = i + 1;
    }
    proof {
        assert(flt_a@.subrange(0, flt_a@.len() as int) =~= flt_a@);
        lemma_count_true_bound(matched_b@);
    }
    let unique_to_fastio = count_fastio - matched;
    let unique_to_flt_io = count_unmatched(&matched_b);
    RunResult {
        count_fastio,
        count_flt_io,
        unique_to_fastio,
        unique_to_flt_io,
        matched_count: matched,
        pre_count_fastio,
        pre_count_flt_io,
        post_count_fastio,
        post_count_flt_io,
    }
}

/// The sum of `f` over the runs.
pub open spec fn run_total(rs: Seq<RunResult>, f: spec_fn(RunResult) -> usize) -> int
    decreases rs.len(),
{
    if rs.len() == 0 {
        0
    } else {
        run_total(rs.drop_last(), f) + f(rs.last()) as int
    }
}

proof fn lemma_run_total_prefix(rs: Seq<RunResult>, f: spec_fn(RunResult) -> usize, n: int)
    requires
        0 <= n <= rs.len(),
    ensures
        0 <= run_total(rs.subrange(0, n), f) <= run_total(rs, f),
    decreases rs.len(),
{
    if n < rs.len() {
        assert(rs.drop_last().subrange(0, n) =~= rs.subrange(0, n));
        lemma_run_total_prefix(rs.drop_last(), f, n);
    } else {
        assert(rs.subrange(0, n) =~= rs);
        lemma_run_total_nonneg(rs, f);
    }
}

proof fn lemma_run_total_nonneg(rs: Seq<RunResult>, f: spec_fn(RunResult) -> usize)
    ensures
        run_total(rs, f) >= 0,
    decreases rs.len(),
{
    if rs.len() > 0 {
        lemma_run_total_nonneg(rs.drop_last(), f);
    }
}

pub open spec fn fastio_of(r: RunResult) -> usize { r.count_fastio }
pub open spec fn flt_io_of(r: RunResult) -> usize { r.count_flt_io }
pub open spec fn unique_fastio_of(r: RunResult) -> usize { r.unique_to_fastio }
pub open spec fn unique_flt_io_of(r: RunResult) -> usize { r.unique_to_flt_io }
pub open spec fn matched_of(r: RunResult) -> usize { r.matched_count }
pub open spec fn pre_fastio_of(r: RunResult) -> usize { r.pre_count_fastio }
pub open spec fn pre_flt_io_of(r: RunResult) -> usize { r.pre_count_flt_io }
pub open spec fn post_fastio_of(r: RunResult) -> usize { r.post_count_fastio }
pub open spec fn post_flt_io_of(r: RunResult) -> usize { r.post_count_flt_io }

/// Every field total of the runs fits in a `usize`.
pub open spec fn totals_fit(rs: Seq<RunResult>) -> bool {
    &&& run_total(rs, |r: RunResult| fastio_of(r)) <= usize::MAX
    &&& run_total(rs, |r: RunResult| flt_io_of(r)) <= usize::MAX
    &&& run_total(rs, |r: RunResult| unique_fastio_of(r)) <= usize::MAX
    &&& run_total(rs, |r: RunResult| unique_flt_io_of(r)) <= usize::MAX
    &&& run_total(rs, |r: RunResult| matched_of(r)) <= usize::MAX
    &&& run_total(rs, |r: RunResult| pre_fastio_of(r)) <= usize::MAX
    &&& run_total(rs, |r: RunResult| pre_flt_io_of(r)) <= usize::MAX
    &&& run_total(rs, |r: RunResult| post_fastio_of(r)) <= usize::MAX
    &&& run_total(rs, |r: RunResult| post_flt_io_of(r)) <= usize::MAX
}

/// The field totals of the runs.
pub open spec fn totals_are(t: RunResult, rs: Seq<RunResult>) -> bool {
    &&& t.count_fastio == run_total(rs, |r: RunResult| fastio_of(r))
    &&& t.count_flt_io == run_total(rs, |r: RunResult| flt_io_of(r))
    &&& t.unique_to_fastio == run_total(rs, |r: RunResult| unique_fastio_of(r))
    &&& t.unique_to_flt_io == run_total(rs, |r: RunResult| unique_flt_io_of(r))
    &&& t.matched_count == run_total(rs, |r: RunResult| matched_of(r))
    &&& t.pre_count_fastio == run_total(rs, |r: RunResult| pre_fastio_of(r))
    &&& t.pre_count_flt_io == run_total(rs, |r: RunResult| pre_flt_io_of(r))
    &&& t.post_count_fastio == run_total(rs, |r: RunResult| post_fastio_of(r))
    &&& t.post_count_flt_io == run_total(rs, |r: RunResult| post_flt_io_of(r))
}

/// The totals over all runs of every count of a run.
pub fn aggregate_runs(results: &Vec<RunResult>) -> (t: RunResult)
    requires
        totals_fit(results@),
    ensures
        totals_are(t, results@),
{
    let mut t = RunResult {
        count_fastio: 0,
        count_flt_io: 0,
        unique_to_fastio: 0,
        unique_to_flt_io: 0,
        matched_count: 0,
        pre_count_fastio: 0,
        pre_count_flt_io: 0,
        post_count_fastio: 0,
        post_count_flt_io: 0,
    };
    let mut i: usize = 0;
    assert(results@.subrange(0, 0) =~= Seq::<RunResult>::empty());
    while i < results.len()
        invariant
            i <= results@.len(),
            totals_fit(results@),
            totals_are(t, results@.subrange(0, i as int)),
        decreases results.len() - i,
    {
        let r = results[i];
        let ghost pre = results@.subrange(0, i as int);
        let ghost next = results@.subrange(0, i + 1);
        proof {
            assert(next.drop_last() =~= pre);
            assert(next.last() == r);
            lemma_run_total_prefix(results@, |r: RunResult| fastio_of(r), i + 1);
            lemma_run_total_prefix(results@, |r: RunResult| flt_io_of(r), i + 1);
            lemma_run_total_prefix(results@, |r: RunResult| unique_fastio_of(r), i + 1);
            lemma_run_total_prefix(results@, |r: RunResult| unique_flt_io_of(r), i + 1);
            lemma_run_total_prefix(results@, |r: RunResult| matched_of(r), i + 1);
            lemma_run_total_prefix(results@, |r: RunResult| pre_fastio_of(r), i + 1);
            lemma_run_total_prefix(results@, |r: RunResult| pre_flt_io_of(r), i + 1);
            lemma_run_total_prefix(results@, |r: RunResult| post_fastio_of(r), i + 1);
            lemma_run_total_prefix(results@, |r: RunResult| post_flt_io_of(r), i + 1);
        }
        t = RunResult {
            count_fastio: t.count_fastio + r.count_fastio,
            count_flt_io: t.count_flt_io + r.count_flt_io,
            unique_to_fastio: t.unique_to_fastio + r.unique_to_fastio,
            unique_to_flt_io: t.unique_to_flt_io + r.unique_to_flt_io,
            matched_count: t.matched_count + r.matched_count,
            pre_count_fastio: t.pre_count_fastio + r.pre_count_fastio,
            pre_count_flt_io: t.pre_count_flt_io + r.pre_count_flt_io,
            post_count_fastio: t.post_count_fastio + r.post_count_fastio,
            post_count_flt_io: t.post_count_flt_io + r.post_count_flt_io,
        };
        i = i + 1;
    }
    assert(results@.subrange(0, results@.len() as int) =~= results@);
    t
}

} // verus!
