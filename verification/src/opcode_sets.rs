//! Comparison of the opcodes that two concurrent sessions (PERF_FLT_IO and
//! PERF_FLT_FASTIO) received: per-opcode counts, set relations and the verdict.

use vstd::prelude::*;

verus! {

/// An event received by one of the compared sessions.
#[derive(Debug, Clone, Copy, PartialEq, Eq)]
pub struct SessionEvent {
    pub opcode: u8,
    pub version: u8,
    pub timestamp: u64,
    pub process_id: u32,
    pub thread_id: u32,
}

/// The label of a FileIo opcode in the comparison tables.
pub open spec fn opcode_text(op: u8) -> Seq<char> {
    if op == 0 {
        "Name"@
    } else if op == 32 {
        "FileCreate"@
    } else if op == 35 {
        "FileDelete"@
    } else if op == 36 {
        "FileRundown"@
    } else if op == 64 {
        "Create"@
    } else if op == 65 {
        "Cleanup"@
    } else if op == 66 {
        "Close"@
    } else if op == 67 {
        "Read"@
    } else if op == 68 {
        "Write"@
    } else if op == 69 {
        "SetInfo"@
    } else if op == 70 {
        "DeleteInfo"@
    } else if op == 71 {
        "Rename"@
    } else if op == 72 {
        "DirEnum"@
    } else if op == 73 {
        "Flush"@
    } else if op == 74 {
        "QueryInfo"@
    } else if op == 75 {
        "FSControl"@
    } else if op == 76 {
        "OpEnd"@
    } else if op == 77 {
        "DirNotify"@
    } else if op == 79 {
        "DeletePath"@
    } else if op == 80 {
        "RenamePath"@
    } else if op == 81 {
        "SetLinkPath"@
    } else if op == 96 {
        "PreOpInit"@
    } else if op == 97 {
        "PostOpInit"@
    } else if op == 98 {
        "PreOpCompletion"@
    } else if op == 99 {
        "PostOpCompletion"@
    } else if op == 100 {
        "PreOpFailure"@
    } else if op == 101 {
        "PostOpFailure"@
    } else {
        "UNKNOWN"@
    }
}

/// The label of a FileIo opcode in the comparison tables.
pub fn opcode_label(op: u8) -> (s: &'static str)
    ensures
        s@ == opcode_text(op),
{
    match op {
        0 => "Name",
        32 => "FileCreate",
        35 => "FileDelete",
        36 => "FileRundown",
        64 => "Create",
        65 => "Cleanup",
        66 => "Close",
        67 => "Read",
        68 => "Write",
        69 => "SetInfo",
        70 => "DeleteInfo",
        71 => "Rename",
        72 => "DirEnum",
        73 => "Flush",
        74 => "QueryInfo",
        75 => "FSControl",
        76 => "OpEnd",
        77 => "DirNotify",
        79 => "DeletePath",
        80 => "RenamePath",
        81 => "SetLinkPath",
        96 => "PreOpInit",
        97 => "PostOpInit",
        98 => "PreOpCompletion",
        99 => "PostOpCompletion",
        100 => "PreOpFailure",
        101 => "PostOpFailure",
        _ => "UNKNOWN",
    }
}

/// The label of a FltIo opcode in the FAST/IO capture reports.
pub open spec fn flt_opcode_text(op: u8) -> Seq<char> {
    if op == 96 {
        "PreOpInit"@
    } else if op == 97 {
        "PostOpInit"@
    } else if op == 98 {
        "PreOpCompletion"@
    } else if op == 99 {
        "PostOpCompletion"@
    } else if op == 100 {
        "PreOpFailure"@
    } else if op == 101 {
        "PostOpFailure"@
    } else {
        "?(FLT?)"@
    }
}

/// The label of a FltIo opcode in the FAST/IO capture reports.
pub fn flt_opcode_label(op: u8) -> (s: &'static str)
    ensures
        s@ == flt_opcode_text(op),
{
    match op {
        96 => "PreOpInit",
        97 => "PostOpInit",
        98 => "PreOpCompletion",
        99 => "PostOpCompletion",
        100 => "PreOpFailure",
        101 => "PostOpFailure",
        _ => "?(FLT?)",
    }
}

/// Number of events of `s` with opcode `op`.
pub open spec fn opcode_count(s: Seq<SessionEvent>, op: int) -> nat
    decreases s.len(),
{
    if s.len() == 0 {
        0
    } else {
        opcode_count(s.drop_last(), op) + if s.last().opcode == op { 1nat } else { 0nat }
    }
}

proof fn lemma_opcode_count_bound(s: Seq<SessionEvent>, op: int)
    ensures
        opcode_count(s, op) <= s.len(),
    decreases s.len(),
{
    if s.len() > 0 {
        lemma_opcode_count_bound(s.drop_last(), op);
    }
}

/// The events of each opcode: entry `op` of the result counts opcode `op`.
pub fn count_by_opcode(events: &[SessionEvent]) -> (counts: Vec<usize>)
    ensures
        counts@.len() == 256,
        forall|op: int| 0 <= op < 256 ==> #[trigger] counts@[op] == opcode_count(events@, op),
{
    let mut counts: Vec<usize> = Vec::new();
    let mut k: usize = 0;
    while k < 256
        invariant
            k <= 256,
            counts@.len() == k,
            forall|op: int| 0 <= op < k ==> counts@[op] == 0,
        decreases 256 - k,
    {
        counts.push(0);
        k = k + 1;
    }
    let mut i: usize = 0;
    while i < events.len()
        invariant
            i <= events@.len(),
            counts@.len() == 256,
            forall|op: int| 0 <= op < 256 ==> #[trigger] counts@[op] == opcode_count(events@.subrange(0, i as int), op),
        decreases events.len() - i,
    {
        let ghost pre = events@.subrange(0, i as int);
        let ghost post = events@.subrange(0, i + 1);
        let op = events[i].opcode as usize;
        proof {
            assert(post.drop_last() =~= pre);
            assert(post.last() == events@[i as int]);
            lemma_opcode_count_bound(pre, op as int);
        }
        let c = counts[op];
        counts.set(op, c + 1);
        i = i + 1;
    }
    assert(events@.subrange(0, events@.len() as int) =~= events@);
    counts
}

/// One line of the distribution table: an opcode that either session received.
#[derive(Debug, Clone, Copy, PartialEq, Eq)]
pub struct OpcodeRow {
    pub opcode: u8,
    pub io_count: usize,
    pub fastio_count: usize,
}

/// How the opcode sets of the two sessions relate.
#[derive(Debug, Clone, Copy, PartialEq, Eq, Structural)]
pub enum SetVerdict {
    /// Both sessions received the same opcodes.
    Identical,
    /// The PERF_FLT_IO opcodes are a proper subset of the PERF_FLT_FASTIO ones.
    IoSubsetOfFastIo,
    /// The PERF_FLT_FASTIO opcodes are a proper subset of the PERF_FLT_IO ones.
    FastIoSubsetOfIo,
    /// No opcode was received by both.
    Exclusive,
    /// Some opcodes are shared but neither set contains the other.
    Collisions,
}

/// Everything the analysis decides from the two event lists (the ratios that the
/// report prints are computed from these counts).
#[derive(Debug, Clone)]
pub struct OpcodeComparison {
    /// Opcodes received by either session, ascending, with both counts.
    pub rows: Vec<OpcodeRow>,
    /// Opcodes received by both, ascending.
    pub shared: Vec<u8>,
    /// Opcodes received by the PERF_FLT_IO session only, ascending.
    pub io_only: Vec<u8>,
    /// Opcodes received by the PERF_FLT_FASTIO session only, ascending.
    pub fastio_only: Vec<u8>,
    pub io_subset_of_fastio: bool,
    pub fastio_subset_of_io: bool,
    pub identical: bool,
    /// Sum over opcodes of the smaller of the two counts.
    pub matched_count: u64,
    /// Sum over opcodes of the larger of the two counts.
    pub total_count: u64,
    /// Both sessions received the same FltIo opcodes (96..=101).
    pub flt_identical: bool,
    pub verdict: SetVerdict,
}

/// The opcodes `op` in `lo..hi` for which `keep(op)` holds, ascending.
pub open spec fn opcodes_where(lo: int, hi: int, keep: spec_fn(int) -> bool) -> Seq<u8>
    decreases hi - lo,
{
    if hi <= lo {
        Seq::empty()
    } else if keep(hi - 1) {
        opcodes_where(lo, hi - 1, keep).push((hi - 1) as u8)
    } else {
        opcodes_where(lo, hi - 1, keep)
    }
}

/// Sum over opcodes `op` in `0..hi` of `f(op)`.
pub open spec fn opcode_sum(hi: int, f: spec_fn(int) -> nat) -> nat
    decreases hi,
{
    if hi <= 0 {
        0
    } else {
        opcode_sum(hi - 1, f) + f(hi - 1)
    }
}

/// The verdict for the given set relations.
pub open spec fn verdict_of(identical: bool, io_sub: bool, fast_sub: bool, shared_empty: bool) -> SetVerdict {
    if identical {
        SetVerdict::Identical
    } else if io_sub {
        SetVerdict::IoSubsetOfFastIo
    } else if fast_sub {
        SetVerdict::FastIoSubsetOfIo
    } else if shared_empty {
        SetVerdict::Exclusive
    } else {
        SetVerdict::Collisions
    }
}

/// Events per opcode of `s`.
pub open spec fn count_fn(s: Seq<SessionEvent>) -> spec_fn(int) -> nat {
    |op: int| opcode_count(s, op)
}

/// Opcodes received by either list.
pub open spec fn union_pred(a: Seq<SessionEvent>, b: Seq<SessionEvent>) -> spec_fn(int) -> bool {
    |op: int| opcode_count(a, op) > 0 || opcode_count(b, op) > 0
}

/// Opcodes received by both lists.
pub open spec fn shared_pred(a: Seq<SessionEvent>, b: Seq<SessionEvent>) -> spec_fn(int) -> bool {
    |op: int| opcode_count(a, op) > 0 && opcode_count(b, op) > 0
}

/// Opcodes received by the first list only.
pub open spec fn only_pred(a: Seq<SessionEvent>, b: Seq<SessionEvent>) -> spec_fn(int) -> bool {
    |op: int| opcode_count(a, op) > 0 && opcode_count(b, op) == 0
}

/// The smaller of the two counts of each opcode.
pub open spec fn min_fn(a: Seq<SessionEvent>, b: Seq<SessionEvent>) -> spec_fn(int) -> nat {
    |op: int| if opcode_count(a, op) <= opcode_count(b, op) { opcode_count(a, op) } else { opcode_count(b, op) }
}

/// The larger of the two counts of each opcode.
pub open spec fn max_fn(a: Seq<SessionEvent>, b: Seq<SessionEvent>) -> spec_fn(int) -> nat {
    |op: int| if opcode_count(a, op) <= opcode_count(b, op) { opcode_count(b, op) } else { opcode_count(a, op) }
}

/// The verdict of two sessions follows the containment of their opcode sets
/// first: when one set strictly contains the other, the verdict is that
/// subset, even when nothing is shared (an empty set is a subset of every
/// set); Exclusive is given only when neither set contains the other.
pub proof fn law_subset_verdict_comes_first(io: Seq<SessionEvent>, fastio: Seq<SessionEvent>)
    ensures
        ({
            let io_sub = forall|op: int| 0 <= op < 256 && #[trigger] opcode_count(io, op) > 0 ==> opcode_count(fastio, op) > 0;
            let fast_sub = forall|op: int| 0 <= op < 256 && #[trigger] opcode_count(fastio, op) > 0 ==> opcode_count(io, op) > 0;
            let v = verdict_of(io_sub && fast_sub, io_sub, fast_sub, opcodes_where(0, 256, shared_pred(io, fastio)).len() == 0);
            &&& io_sub && !fast_sub ==> v == SetVerdict::IoSubsetOfFastIo
            &&& fast_sub && !io_sub ==> v == SetVerdict::FastIoSubsetOfIo
            &&& v == SetVerdict::Exclusive ==> !io_sub && !fast_sub
        }),
{
}

/// Compares the opcodes of the PERF_FLT_IO session (`io`) with those of the
/// PERF_FLT_FASTIO session (`fastio`).
#[verifier::spinoff_prover]
pub fn compare_opcode_sets(io: &[SessionEvent], fastio: &[SessionEvent]) -> (r: OpcodeComparison)
    requires
        io@.len() + fastio@.len() <= u64::MAX,
    ensures
        r.rows@.map_values(|row: OpcodeRow| row.opcode) == opcodes_where(0, 256, union_pred(io@, fastio@)),
        forall|j: int|
            0 <= j < r.rows@.len() ==> #[trigger] r.rows@[j].io_count == opcode_count(io@, r.rows@[j].opcode as int)
                && r.rows@[j].fastio_count == opcode_count(fastio@, r.rows@[j].opcode as int),
        r.shared@ == opcodes_where(0, 256, shared_pred(io@, fastio@)),
        r.io_only@ == opcodes_where(0, 256, only_pred(io@, fastio@)),
        r.fastio_only@ == opcodes_where(0, 256, only_pred(fastio@, io@)),
        r.io_subset_of_fastio == (forall|op: int|
            0 <= op < 256 && #[trigger] opcode_count(io@, op) > 0 ==> opcode_count(fastio@, op) > 0),
        r.fastio_subset_of_io == (forall|op: int|
            0 <= op < 256 && #[trigger] opcode_count(fastio@, op) > 0 ==> opcode_count(io@, op) > 0),
        r.identical == (r.io_subset_of_fastio && r.fastio_subset_of_io),
        r.matched_count == opcode_sum(256, min_fn(io@, fastio@)),
        r.total_count == opcode_sum(256, max_fn(io@, fastio@)),
        r.flt_identical == (forall|op: int|
            96 <= op <= 101 ==> (#[trigger] opcode_count(io@, op) > 0) == (opcode_count(fastio@, op) > 0)),
        r.verdict == verdict_of(r.identical, r.io_subset_of_fastio, r.fastio_subset_of_io, r.shared@.len() == 0),
        r.io_subset_of_fastio && !r.fastio_subset_of_io ==> r.verdict == SetVerdict::IoSubsetOfFastIo,
        r.fastio_subset_of_io && !r.io_subset_of_fastio ==> r.verdict == SetVerdict::FastIoSubsetOfIo,
        r.verdict == SetVerdict::Exclusive ==> !r.io_subset_of_fastio && !r.fastio_subset_of_io,
{
    let ca = count_by_opcode(io);
    let cb = count_by_opcode(fastio);
    let ghost a = count_fn(io@);
    let ghost b = count_fn(fastio@);
    let ghost in_union = union_pred(io@, fastio@);
    let ghost in_shared = shared_pred(io@, fastio@);
    let ghost in_io = only_pred(io@, fastio@);
    let ghost in_fast = only_pred(fastio@, io@);
    let ghost fmin = min_fn(io@, fastio@);
    let ghost fmax = max_fn(io@, fastio@);
    let mut rows: Vec<OpcodeRow> = Vec::new();
    let mut shared: Vec<u8> = Vec::new();
    let mut io_only: Vec<u8> = Vec::new();
    let mut fastio_only: Vec<u8> = Vec::new();
    let mut io_sub = true;
    let mut fast_sub = true;
    let mut matched: u64 = 0;
    let mut total: u64 = 0;
    let mut flt_same = true;
    let mut k: usize = 0;
    while k < 256
        invariant
            k <= 256,
            ca@.len() == 256,
            cb@.len() == 256,
            a == count_fn(io@),
            b == count_fn(fastio@),
            in_union == union_pred(io@, fastio@),
            in_shared == shared_pred(io@, fastio@),
            in_io == only_pred(io@, fastio@),
            in_fast == only_pred(fastio@, io@),
            fmin == min_fn(io@, fastio@),
            fmax == max_fn(io@, fastio@),
            io@.len() + fastio@.len() <= u64::MAX,
            forall|op: int| 0 <= op < 256 ==> #[trigger] ca@[op] == opcode_count(io@, op),
            forall|op: int| 0 <= op < 256 ==> #[trigger] cb@[op] == opcode_count(fastio@, op),
            rows@.map_values(|row: OpcodeRow| row.opcode) == opcodes_where(0, k as int, in_union),
            forall|j: int| 0 <= j < rows@.len() ==> #[trigger] rows@[j].io_count == opcode_count(io@, rows@[j].opcode as int)
                && rows@[j].fastio_count == opcode_count(fastio@, rows@[j].opcode as int),
            shared@ == opcodes_where(0, k as int, in_shared),
            io_only@ == opcodes_where(0, k as int, in_io),
            fastio_only@ == opcodes_where(0, k as int, in_fast),
            io_sub == (forall|op: int| 0 <= op < k && #[trigger] opcode_count(io@, op) > 0 ==> opcode_count(fastio@, op) > 0),
            fast_sub == (forall|op: int| 0 <= op < k && #[trigger] opcode_count(fastio@, op) > 0 ==> opcode_count(io@, op) > 0),
            matched == opcode_sum(k as int, fmin),
            total == opcode_sum(k as int, fmax),
            matched <= total,
            total <= opcode_sum(k as int, a) + opcode_sum(k as int, b),
            opcode_sum(k as int, a) <= io@.len(),
            opcode_sum(k as int, b) <= fastio@.len(),
            flt_same == (forall|op: int| 96 <= op <= 101 && op < k ==> (#[trigger] opcode_count(io@, op) > 0) == (opcode_count(fastio@, op) > 0)),
        decreases 256 - k,
    {
        let x = ca[k];
        let y = cb[k];
        let op = k as u8;
        proof {
            lemma_sum_split(io@, k as int);
            lemma_sum_split(fastio@, k as int);
        }
        let ghost old_rows = rows@;
        if x > 0 || y > 0 {
            rows.push(OpcodeRow { opcode: op, io_count: x, fastio_count: y });
            assert(rows@.map_values(|row: OpcodeRow| row.opcode) =~= old_rows.map_values(|row: OpcodeRow| row.opcode).push(op));
        } else {
            assert(rows@.map_values(|row: OpcodeRow| row.opcode) =~= old_rows.map_values(|row: OpcodeRow| row.opcode));
        }
        if x > 0 && y > 0 {
            shared.push(op);
        }
        if x > 0 && y == 0 {
            io_only.push(op);
        }
        if x == 0 && y > 0 {
            fastio_only.push(op);
        }
        if x > 0 && y == 0 {
            io_sub = false;
        }
        if y > 0 && x == 0 {
            fast_sub = false;
        }
        if 96 <= k && k <= 101 && ((x > 0) != (y > 0)) {
            flt_same = false;
        }
        let lo = if x <= y { x } else { y };
        let hi = if x <= y { y } else { x };
        matched = matched + lo as u64;
        total = total + hi as u64;
        k = k + 1;
    }
    let identical = io_sub && fast_sub;
    let verdict = if identical {
        SetVerdict::Identical
    } else if io_sub {
        SetVerdict::IoSubsetOfFastIo
    } else if fast_sub {
        SetVerdict::FastIoSubsetOfIo
    } else if shared.len() == 0 {
        SetVerdict::Exclusive
    } else {
        SetVerdict::Collisions
    };
    OpcodeComparison {
        rows,
        shared,
        io_only,
        fastio_only,
        io_subset_of_fastio: io_sub,
        fastio_subset_of_io: fast_sub,
        identical,
        matched_count: matched,
        total_count: total,
        flt_identical: flt_same,
        verdict,
    }
}

/// Counting the events of a list by opcode up to `k` never exceeds the list.
proof fn lemma_sum_split(s: Seq<SessionEvent>, k: int)
    requires
        0 <= k < 256,
    ensures
        opcode_sum(k + 1, count_fn(s)) <= s.len(),
{
    lemma_sum_counts(s, k + 1);
}

proof fn lemma_sum_counts(s: Seq<SessionEvent>, hi: int)
    requires
        0 <= hi <= 256,
    ensures
        opcode_sum(hi, count_fn(s)) <= s.len(),
    decreases s.len(),
{
    let f = count_fn(s);
    if s.len() == 0 {
        lemma_sum_zero(hi, f);
    } else {
        let t = s.drop_last();
        let g = count_fn(t);
        lemma_sum_counts(t, hi);
        lemma_sum_last(hi, f, g, s.last().opcode as int);
    }
}

proof fn lemma_sum_zero(hi: int, f: spec_fn(int) -> nat)
    requires
        forall|op: int| #[trigger] f(op) == 0,
    ensures
        opcode_sum(hi, f) == 0,
    decreases hi,
{
    if hi > 0 {
        lemma_sum_zero(hi - 1, f);
    }
}

proof fn lemma_sum_last(hi: int, f: spec_fn(int) -> nat, g: spec_fn(int) -> nat, o: int)
    requires
        forall|op: int| #[trigger] f(op) == g(op) + if op == o { 1nat } else { 0nat },
    ensures
        opcode_sum(hi, f) <= opcode_sum(hi, g) + 1,
    decreases hi,
{
    if hi > 0 {
        lemma_sum_last(hi - 1, f, g, o);
        if hi - 1 == o {
            lemma_sum_excludes(hi - 1, f, g, o);
        }
    }
}

proof fn lemma_sum_excludes(hi: int, f: spec_fn(int) -> nat, g: spec_fn(int) -> nat, o: int)
    requires
        hi <= o,
        forall|op: int| #[trigger] f(op) == g(op) + if op == o { 1nat } else { 0nat },
    ensures
        opcode_sum(hi, f) == opcode_sum(hi, g),
    decreases hi,
{
    if hi > 0 {
        lemma_sum_excludes(hi - 1, f, g, o);
    }
}

} // verus!
