//! Averaging the integer results of several comparison passes into one
//! representative pass.

use vstd::prelude::*;
use crate::compare::{MatchCounts, OpcodeCount, pair_key};
use crate::persist::{count_of, entry_key, holds_key};

verus! {

/// One of the five totals of a pass: 0 fast, 1 io, 2 matched, 3 fast only,
/// 4 io only.
pub open spec fn total_field(m: MatchCounts, which: int) -> nat {
    if which == 0 {
        m.fast_total as nat
    } else if which == 1 {
        m.io_total as nat
    } else if which == 2 {
        m.matched as nat
    } else if which == 3 {
        m.fast_only as nat
    } else {
        m.io_only as nat
    }
}

/// The sum over the passes of one of their totals.
pub open spec fn field_sum(ps: Seq<MatchCounts>, which: int) -> nat
    decreases ps.len(),
{
    if ps.len() == 0 {
        0
    } else {
        field_sum(ps.drop_last(), which) + total_field(ps.last(), which)
    }
}

/// The opcode table of a pass: of the FAST side or of the IO side.
pub open spec fn side_table(m: MatchCounts, fast_side: bool) -> Seq<OpcodeCount> {
    if fast_side {
        m.fast_opcodes@
    } else {
        m.io_opcodes@
    }
}

/// The count of key `k` summed over the tables of one side of all passes.
pub open spec fn side_total(ps: Seq<MatchCounts>, fast_side: bool, k: u16) -> nat
    decreases ps.len(),
{
    if ps.len() == 0 {
        0
    } else {
        side_total(ps.drop_last(), fast_side, k) + count_of(side_table(ps.last(), fast_side), k)
    }
}

/// Some pass has an entry for key `k` on that side.
pub open spec fn side_holds(ps: Seq<MatchCounts>, fast_side: bool, k: u16) -> bool {
    exists|p: int| 0 <= p < ps.len() && holds_key(side_table(ps[p], fast_side), k)
}

/// The keys below `hi` that some pass holds on that side, ascending.
pub open spec fn side_keys(ps: Seq<MatchCounts>, fast_side: bool, hi: int) -> Seq<int>
    decreases hi,
{
    if hi <= 0 {
        Seq::empty()
    } else if side_holds(ps, fast_side, (hi - 1) as u16) {
        side_keys(ps, fast_side, hi - 1).push(hi - 1)
    } else {
        side_keys(ps, fast_side, hi - 1)
    }
}

/// Every pass found the same opcode sets.
pub open spec fn all_identical(ps: Seq<MatchCounts>) -> bool {
    forall|p: int| 0 <= p < ps.len() ==> #[trigger] ps[p].opcodes_identical
}

/// The combined table is right for one side: one entry per key held by some pass,
/// ascending, with the count summed over all passes.
pub open spec fn combined_table(t: Seq<OpcodeCount>, ps: Seq<MatchCounts>, fast_side: bool) -> bool {
    &&& t.map_values(|e: OpcodeCount| entry_key(e) as int) == side_keys(ps, fast_side, 65536)
    &&& forall|j: int| 0 <= j < t.len() ==> (#[trigger] t[j]).count == side_total(ps, fast_side, entry_key(t[j]))
}

/// The count of key (`op`, `ver`) in one table.
fn table_count(t: &Vec<OpcodeCount>, op: u8, ver: u8) -> (r: (usize, bool))
    requires
        count_of(t@, pair_key(op, ver)) <= usize::MAX,
    ensures
        r.0 == count_of(t@, pair_key(op, ver)),
        r.1 == holds_key(t@, pair_key(op, ver)),
{
    let ghost k = pair_key(op, ver);
    let mut c: usize = 0;
    let mut held = false;
    let mut j: usize = 0;
    while j < t.len()
        invariant
            j <= t@.len(),
            k == pair_key(op, ver),
            count_of(t@, k) <= usize::MAX,
            c == count_of(t@.subrange(0, j as int), k),
            held == holds_key(t@.subrange(0, j as int), k),
        decreases t.len() - j,
    {
        let ghost pre = t@.subrange(0, j as int);
        let ghost next = t@.subrange(0, j + 1);
        proof {
            assert(next.drop_last() =~= pre);
            lemma_count_of_prefix(t@, j + 1, k);
            if holds_key(next, k) && !holds_key(pre, k) {
                let m = choose|m: int| 0 <= m < next.len() && entry_key(next[m]) == k;
                if m < j {
                    assert(pre[m] == next[m]);
                }
            }
            if holds_key(pre, k) {
                let m = choose|m: int| 0 <= m < pre.len() && entry_key(pre[m]) == k;
                assert(next[m] == pre[m]);
            }
        }
        let e = t[j];
        if e.opcode == op && e.version == ver {
            assert(entry_key(next[j as int]) == k);
            c = c + e.count;
            held = true;
        } else {
            assert(entry_key(e) != k) by {
                if entry_key(e) == k {
                    assert(e.opcode as int * 256 + e.version as int == op as int * 256 + ver as int);
                }
            }
        }
        j = j + 1;
    }
    assert(t@.subrange(0, t@.len() as int) =~= t@);
    (c, held)
}

/// The count of a prefix is at most that of the whole table.
proof fn lemma_count_of_prefix(t: Seq<OpcodeCount>, n: int, k: u16)
    requires
        0 <= n <= t.len(),
    ensures
        count_of(t.subrange(0, n), k) <= count_of(t, k),
    decreases t.len() - n,
{
    if n < t.len() {
        lemma_count_of_prefix(t, n + 1, k);
        assert(t.subrange(0, n + 1).drop_last() =~= t.subrange(0, n));
    } else {
        assert(t.subrange(0, n) =~= t);
    }
}

/// The side total over a prefix of the passes is at most that over all of them.
proof fn lemma_side_total_prefix(ps: Seq<MatchCounts>, n: int, fast_side: bool, k: u16)
    requires
        0 <= n <= ps.len(),
    ensures
        side_total(ps.subrange(0, n), fast_side, k) <= side_total(ps, fast_side, k),
    decreases ps.len() - n,
{
    if n < ps.len() {
        lemma_side_total_prefix(ps, n + 1, fast_side, k);
        assert(ps.subrange(0, n + 1).drop_last() =~= ps.subrange(0, n));
    } else {
        assert(ps.subrange(0, n) =~= ps);
    }
}

/// The field sum over a prefix of the passes is at most that over all of them.
proof fn lemma_field_sum_prefix(ps: Seq<MatchCounts>, n: int, which: int)
    requires
        0 <= n <= ps.len(),
    ensures
        field_sum(ps.subrange(0, n), which) <= field_sum(ps, which),
    decreases ps.len() - n,
{
    if n < ps.len() {
        lemma_field_sum_prefix(ps, n + 1, which);
        assert(ps.subrange(0, n + 1).drop_last() =~= ps.subrange(0, n));
    } else {
        assert(ps.subrange(0, n) =~= ps);
    }
}

/// The total and presence of key (`op`, `ver`) over one side of all passes.
fn side_count(passes: &Vec<MatchCounts>, fast_side: bool, op: u8, ver: u8) -> (r: (usize, bool))
    requires
        side_total(passes@, fast_side, pair_key(op, ver)) <= usize::MAX,
    ensures
        r.0 == side_total(passes@, fast_side, pair_key(op, ver)),
        r.1 == side_holds(passes@, fast_side, pair_key(op, ver)),
{
    let ghost k = pair_key(op, ver);
    let mut c: usize = 0;
    let mut held = false;
    let mut p: usize = 0;
    while p < passes.len()
        invariant
            p <= passes@.len(),
            k == pair_key(op, ver),
            side_total(passes@, fast_side, k) <= usize::MAX,
            c == side_total(passes@.subrange(0, p as int), fast_side, k),
            held == side_holds(passes@.subrange(0, p as int), fast_side, k),
        decreases passes.len() - p,
    {
        let ghost pre = passes@.subrange(0, p as int);
        let ghost next = passes@.subrange(0, p + 1);
        proof {
            assert(next.drop_last() =~= pre);
            lemma_side_total_prefix(passes@, p + 1, fast_side, k);
            if side_holds(next, fast_side, k) && !side_holds(pre, fast_side, k) {
                let m = choose|m: int| 0 <= m < next.len() && holds_key(side_table(next[m], fast_side), k);
                if m < p {
                    assert(pre[m] == next[m]);
                }
            }
            if side_holds(pre, fast_side, k) {
                let m = choose|m: int| 0 <= m < pre.len() && holds_key(side_table(pre[m], fast_side), k);
                assert(next[m] == pre[m]);
            }
        }
        let table = if fast_side { &passes[p].fast_opcodes } else { &passes[p].io_opcodes };
        assert(table@ == side_table(next.last(), fast_side));
        let (n, h) = table_count(table, op, ver);
        c = c + n;
        held = held || h;
        proof {
            if h {
                assert(holds_key(side_table(next[p as int], fast_side), k));
            }
        }
        p = p + 1;
    }
    assert(passes@.subrange(0, passes@.len() as int) =~= passes@);
    (c, held)
}

/// The opcode tables of one side of all passes combined: counts summed per
/// (opcode, version), ordered by opcode then version.
pub fn majority_opcodes(passes: &Vec<MatchCounts>, fast_side: bool) -> (t: Vec<OpcodeCount>)
    requires
        forall|k: u16| side_total(passes@, fast_side, k) <= usize::MAX,
    ensures
        combined_table(t@, passes@, fast_side),
{
    let mut t: Vec<OpcodeCount> = Vec::new();
    let mut k: usize = 0;
    while k < 65536
        invariant
            k <= 65536,
            forall|k: u16| side_total(passes@, fast_side, k) <= usize::MAX,
            t@.map_values(|e: OpcodeCount| entry_key(e) as int) == side_keys(passes@, fast_side, k as int),
            forall|j: int| 0 <= j < t@.len() ==> (#[trigger] t@[j]).count == side_total(passes@, fast_side, entry_key(t@[j])),
        decreases 65536 - k,
    {
        let op = (k / 256) as u8;
        let ver = (k % 256) as u8;
        assert(pair_key(op, ver) as int == k);
        let (c, held) = side_count(passes, fast_side, op, ver);
        if held {
            let ghost before = t@;
            t.push(OpcodeCount { opcode: op, version: ver, count: c });
            proof {
                assert(t@.map_values(|e: OpcodeCount| entry_key(e) as int) =~= before.map_values(
                    |e: OpcodeCount| entry_key(e) as int,
                ).push(k as int));
                assert forall|j: int| 0 <= j < t@.len() implies (#[trigger] t@[j]).count == side_total(passes@, fast_side, entry_key(t@[j])) by {
                    if j < before.len() {
                        assert(t@[j] == before[j]);
                    }
                }
            }
        } else {
            assert(t@.map_values(|e: OpcodeCount| entry_key(e) as int) =~= side_keys(passes@, fast_side, k + 1));
        }
        k = k + 1;
    }
    t
}

/// The sum of one total over all passes.
fn sum_field(passes: &Vec<MatchCounts>, which: usize) -> (s: usize)
    requires
        which < 5,
        field_sum(passes@, which as int) <= usize::MAX,
    ensures
        s == field_sum(passes@, which as int),
{
    let mut s: usize = 0;
    let mut p: usize = 0;
    while p < passes.len()
        invariant
            p <= passes@.len(),
            which < 5,
            field_sum(passes@, which as int) <= usize::MAX,
            s == field_sum(passes@.subrange(0, p as int), which as int),
        decreases passes.len() - p,
    {
        proof {
            assert(passes@.subrange(0, p + 1).drop_last() =~= passes@.subrange(0, p as int));
            lemma_field_sum_prefix(passes@, p + 1, which as int);
        }
        let m = &passes[p];
        let v = if which == 0 {
            m.fast_total
        } else if which == 1 {
            m.io_total
        } else if which == 2 {
            m.matched
        } else if which == 3 {
            m.fast_only
        } else {
            m.io_only
        };
        s = s + v;
        p = p + 1;
    }
    assert(passes@.subrange(0, passes@.len() as int) =~= passes@);
    s
}

/// Several passes averaged into one representative pass: each total is the
/// integer mean of the passes' totals, each opcode table sums the passes' tables,
/// and the opcode sets count as identical when they were so in every pass. With
/// no pass, everything is zero, empty or false.
pub fn aggregate_counts(passes: &Vec<MatchCounts>) -> (r: MatchCounts)
    requires
        forall|which: int| 0 <= which < 5 ==> #[trigger] field_sum(passes@, which) <= usize::MAX,
        forall|k: u16| #[trigger] side_total(passes@, true, k) <= usize::MAX,
        forall|k: u16| #[trigger] side_total(passes@, false, k) <= usize::MAX,
    ensures
        passes@.len() == 0 ==> r.fast_total == 0 && r.io_total == 0 && r.matched == 0 && r.fast_only == 0
            && r.io_only == 0 && r.fast_opcodes@.len() == 0 && r.io_opcodes@.len() == 0 && !r.opcodes_identical,
        passes@.len() > 0 ==> {
            &&& r.fast_total == field_sum(passes@, 0) / passes@.len()
            &&& r.io_total == field_sum(passes@, 1) / passes@.len()
            &&& r.matched == field_sum(passes@, 2) / passes@.len()
            &&& r.fast_only == field_sum(passes@, 3) / passes@.len()
            &&& r.io_only == field_sum(passes@, 4) / passes@.len()
            &&& combined_table(r.fast_opcodes@, passes@, true)
            &&& combined_table(r.io_opcodes@, passes@, false)
            &&& r.opcodes_identical == all_identical(passes@)
        },
{
    if passes.len() == 0 {
        return MatchCounts {
            fast_total: 0,
            io_total: 0,
            matched: 0,
            fast_only: 0,
            io_only: 0,
            fast_opcodes: Vec::new(),
            io_opcodes: Vec::new(),
            opcodes_identical: false,
        };
    }
    let n = passes.len();
    assert(field_sum(passes@, 0) <= usize::MAX);
    assert(field_sum(passes@, 1) <= usize::MAX);
    assert(field_sum(passes@, 2) <= usize::MAX);
    assert(field_sum(passes@, 3) <= usize::MAX);
    assert(field_sum(passes@, 4) <= usize::MAX);
    let fast_total = sum_field(passes, 0) / n;
    let io_total = sum_field(passes, 1) / n;
    let matched = sum_field(passes, 2) / n;
    let fast_only = sum_field(passes, 3) / n;
    let io_only = sum_field(passes, 4) / n;
    let fast_opcodes = majority_opcodes(passes, true);
    let io_opcodes = majority_opcodes(passes, false);
    let mut identical = true;
    let mut p: usize = 0;
    while p < passes.len()
        invariant
            p <= passes@.len(),
            identical == forall|q: int| 0 <= q < p ==> #[trigger] passes@[q].opcodes_identical,
        decreases passes.len() - p,
    {
        identical = identical && passes[p].opcodes_identical;
        p = p + 1;
    }
    MatchCounts {
        fast_total,
        io_total,
        matched,
        fast_only,
        io_only,
        fast_opcodes,
        io_opcodes,
        opcodes_identical: identical,
    }
}

} // verus!
