//! The flag discovery results as the tool shows them at the end of a search:
//! the discovered event types grouped by the size of their smallest flag
//! combinations and by combination, the event types never seen, and the
//! warnings.

use vstd::prelude::*;
use crate::discovery::{
    build_warnings, chosen_names, combo_key, combo_name, combos_valid, copy_indices, find_type, first_type_with,
    indices_valid, pairs_distinct, same_indices, sorted_vec, values_in, set_values_in, vers_str, warned_keys, warning_of,
    DiscoveredOpcode, EventTypeInfo, Flag, ObservedTrace, WarningEntry, WarningKind,
};
use crate::discovery_report::{first_combo_text, records_distinct, records_valid, undiscovered, undiscovered_upto};
use crate::cumulative::records_view;
use crate::log_format::{LogLevel, LogRecord};
use crate::text::{
    dec, join, join_strings, lemma_text_lt_irreflexive, lemma_text_lt_transitive, owned, push_dec, push_str,
    str_views, text_less, text_lt,
};

verus! {

/// One combination of a size group with the opcodes it is a smallest
/// combination of, ascending.
#[derive(Debug, Clone)]
pub struct ComboGroup {
    pub indices: Vec<usize>,
    pub opcodes: Vec<u8>,
}

/// The combinations of one best size.
#[derive(Debug, Clone)]
pub struct SizeGroup {
    pub size: usize,
    pub combos: Vec<ComboGroup>,
}

/// `c` is one of the smallest combinations of record `d`.
pub open spec fn has_combo(d: DiscoveredOpcode, c: Seq<usize>) -> bool {
    exists|k: int| 0 <= k < d.discovery.combinations@.len() && #[trigger] d.discovery.combinations@[k]@ == c
}

/// Some record has best size `s`.
pub open spec fn size_present(ds: Seq<DiscoveredOpcode>, s: usize) -> bool {
    exists|q: int| 0 <= q < ds.len() && #[trigger] ds[q].discovery.best_size == s
}

/// Some record of best size `s` has `c` among its smallest combinations.
pub open spec fn combo_present(ds: Seq<DiscoveredOpcode>, s: usize, c: Seq<usize>) -> bool {
    exists|q: int| 0 <= q < ds.len() && ds[q].discovery.best_size == s && #[trigger] has_combo(ds[q], c)
}

/// The record of `op` has best size `s` and `c` among its smallest combinations.
pub open spec fn op_present(ds: Seq<DiscoveredOpcode>, s: usize, c: Seq<usize>, op: u8) -> bool {
    exists|q: int|
        0 <= q < ds.len() && ds[q].opcode == op && ds[q].discovery.best_size == s && #[trigger] has_combo(
            ds[q],
            c,
        )
}

/// The sort key of a combination: its flag names joined by `+`.
pub open spec fn combo_sort_key(flags: Seq<Flag>, c: Seq<usize>) -> Seq<char> {
    join(chosen_names(flags, c), "+"@)
}

/// Values strictly ascending.
pub open spec fn ascending_sizes(v: Seq<usize>) -> bool {
    forall|a: int, b: int| 0 <= a < b < v.len() ==> v[a] < v[b]
}

/// Adds `x` to an ascending list of distinct values.
fn insert_sorted(v: &mut Vec<usize>, x: usize)
    requires
        ascending_sizes(old(v)@),
    ensures
        ascending_sizes(final(v)@),
        forall|y: usize| final(v)@.contains(y) <==> (old(v)@.contains(y) || y == x),
{
    let mut i: usize = 0;
    while i < v.len() && v[i] < x
        invariant
            i <= v@.len(),
            v@ == old(v)@,
            forall|a: int| 0 <= a < i ==> v@[a] < x,
        decreases v.len() - i,
    {
        i = i + 1;
    }
    if i < v.len() && v[i] == x {
        return;
    }
    let ghost before = v@;
    v.insert(i, x);
    proof {
        let after = v@;
        assert(after =~= before.insert(i as int, x));
        assert forall|a: int, b: int| 0 <= a < b < after.len() implies after[a] < after[b] by {
            if b < i {
                assert(after[a] == before[a] && after[b] == before[b]);
            } else if b == i {
                assert(after[a] == before[a]);
            } else if a < i {
                assert(after[a] == before[a] && after[b] == before[b - 1]);
                if i < before.len() {
                    assert(before[i as int] > x);
                    assert(before[i as int] <= before[b - 1]);
                }
            } else if a == i {
                assert(after[b] == before[b - 1]);
                assert(before[i as int] > x);
                assert(before[i as int] <= before[b - 1]);
            } else {
                assert(after[a] == before[a - 1] && after[b] == before[b - 1]);
            }
        }
        assert forall|y: usize| after.contains(y) <==> (before.contains(y) || y == x) by {
            if after.contains(y) {
                let a = choose|a: int| 0 <= a < after.len() && after[a] == y;
                if a < i {
                    assert(before[a] == y);
                } else if a > i {
                    assert(before[a - 1] == y);
                }
            }
            if before.contains(y) {
                let a = choose|a: int| 0 <= a < before.len() && before[a] == y;
                if a < i {
                    assert(after[a] == y);
                } else {
                    assert(after[a + 1] == y);
                }
            }
            if y == x {
                assert(after[i as int] == x);
            }
        }
    }
}

/// The best sizes of the records, ascending, each once.
fn distinct_sizes(ds: &Vec<DiscoveredOpcode>) -> (r: Vec<usize>)
    ensures
        ascending_sizes(r@),
        forall|s: usize| r@.contains(s) <==> size_present(ds@, s),
{
    let mut r: Vec<usize> = Vec::new();
    let mut q: usize = 0;
    while q < ds.len()
        invariant
            q <= ds@.len(),
            ascending_sizes(r@),
            forall|s: usize| r@.contains(s) <==> (exists|p: int| 0 <= p < q && #[trigger] ds@[p].discovery.best_size == s),
        decreases ds.len() - q,
    {
        insert_sorted(&mut r, ds[q].discovery.best_size);
        proof {
            assert forall|s: usize| r@.contains(s) <==> (exists|p: int| 0 <= p < q + 1 && #[trigger] ds@[p].discovery.best_size == s) by {
                if s == ds@[q as int].discovery.best_size {
                    assert(ds@[q as int].discovery.best_size == s);
                }
            }
        }
        q = q + 1;
    }
    r
}

/// The keys of a list of keyed combinations never decrease.
pub open spec fn keys_ordered(r: Seq<(Vec<usize>, String)>) -> bool {
    forall|a: int, b: int| 0 <= a < b < r.len() ==> !text_lt(r[b].1@, r[a].1@)
}

/// The combination `c` is in the list.
pub open spec fn listed(r: Seq<(Vec<usize>, String)>, c: Seq<usize>) -> bool {
    exists|a: int| 0 <= a < r.len() && #[trigger] r[a].0@ == c
}

/// Inserts `e` after every entry whose key is not above its own.
fn insert_by_key(r: &mut Vec<(Vec<usize>, String)>, e: (Vec<usize>, String))
    requires
        keys_ordered(old(r)@),
    ensures
        keys_ordered(final(r)@),
        exists|p: int| 0 <= p <= old(r)@.len() && final(r)@ == old(r)@.insert(p, e),
{
    let mut p: usize = 0;
    while p < r.len() && !text_less(e.1.as_str(), r[p].1.as_str())
        invariant
            p <= r@.len(),
            r@ == old(r)@,
            forall|a: int| 0 <= a < p ==> !text_lt(e.1@, #[trigger] r@[a].1@),
        decreases r.len() - p,
    {
        p = p + 1;
    }
    let ghost before = r@;
    let ghost k = e.1@;
    r.insert(p, e);
    proof {
        let after = r@;
        assert(after =~= before.insert(p as int, e));
        assert forall|a: int, b: int| 0 <= a < b < after.len() implies !text_lt(after[b].1@, after[a].1@) by {
            if b < p {
                assert(after[a] == before[a] && after[b] == before[b]);
            } else if b == p {
                assert(after[a] == before[a]);
            } else if a < p {
                assert(after[a] == before[a] && after[b] == before[b - 1]);
            } else if a == p {
                assert(after[b] == before[b - 1]);
                assert(text_lt(k, before[p as int].1@));
                if text_lt(before[b - 1].1@, k) {
                    lemma_text_lt_transitive(before[b - 1].1@, k, before[p as int].1@);
                    if b - 1 == p {
                        lemma_text_lt_irreflexive(before[p as int].1@);
                    }
                }
            } else {
                assert(after[a] == before[a - 1] && after[b] == before[b - 1]);
            }
        }
    }
}

/// After an insertion, a combination is listed if it was or if it is the new one.
proof fn lemma_insert_listed(r: Seq<(Vec<usize>, String)>, p: int, e: (Vec<usize>, String))
    requires
        0 <= p <= r.len(),
    ensures
        forall|c: Seq<usize>| listed(r.insert(p, e), c) <==> (listed(r, c) || e.0@ == c),
{
    let n = r.insert(p, e);
    assert forall|c: Seq<usize>| listed(n, c) <==> (listed(r, c) || e.0@ == c) by {
        if listed(n, c) {
            let a = choose|a: int| 0 <= a < n.len() && #[trigger] n[a].0@ == c;
            if a < p {
                assert(r[a] == n[a]);
            } else if a > p {
                assert(r[a - 1] == n[a]);
            }
        }
        if listed(r, c) {
            let a = choose|a: int| 0 <= a < r.len() && #[trigger] r[a].0@ == c;
            if a < p {
                assert(n[a] == r[a]);
            } else {
                assert(n[a + 1] == r[a]);
            }
        }
        if e.0@ == c {
            assert(n[p] == e);
        }
    }
}

fn is_listed(r: &Vec<(Vec<usize>, String)>, c: &Vec<usize>) -> (b: bool)
    ensures
        b == listed(r@, c@),
{
    let mut a: usize = 0;
    while a < r.len()
        invariant
            a <= r@.len(),
            forall|x: int| 0 <= x < a ==> #[trigger] r@[x].0@ != c@,
        decreases r.len() - a,
    {
        if same_indices(&r[a].0, c) {
            return true;
        }
        a = a + 1;
    }
    false
}

/// The distinct smallest combinations of the records of best size `s`, each with
/// its sort key, ordered by key.
fn combos_of_size(ds: &Vec<DiscoveredOpcode>, flags: &Vec<Flag>, s: usize) -> (r: Vec<(Vec<usize>, String)>)
    requires
        records_valid(ds@, flags@),
    ensures
        keys_ordered(r@),
        forall|a: int| 0 <= a < r@.len() ==> (#[trigger] r@[a]).1@ == combo_sort_key(flags@, r@[a].0@),
        forall|a: int, b: int| 0 <= a < b < r@.len() ==> r@[a].0@ != r@[b].0@,
        forall|c: Seq<usize>| listed(r@, c) <==> combo_present(ds@, s, c),
{
    let mut r: Vec<(Vec<usize>, String)> = Vec::new();
    let mut q: usize = 0;
    while q < ds.len()
        invariant
            q <= ds@.len(),
            records_valid(ds@, flags@),
            keys_ordered(r@),
            forall|a: int| 0 <= a < r@.len() ==> (#[trigger] r@[a]).1@ == combo_sort_key(flags@, r@[a].0@),
            forall|a: int, b: int| 0 <= a < b < r@.len() ==> r@[a].0@ != r@[b].0@,
            forall|c: Seq<usize>|
                listed(r@, c) <==> (exists|p: int|
                    0 <= p < q && ds@[p].discovery.best_size == s && #[trigger] has_combo(ds@[p], c)),
        decreases ds.len() - q,
    {
        let d = &ds[q];
        if d.discovery.best_size == s {
            let mut k: usize = 0;
            while k < d.discovery.combinations.len()
                invariant
                    q < ds@.len(),
                    *d == ds@[q as int],
                    d.discovery.best_size == s,
                    k <= d.discovery.combinations@.len(),
                    records_valid(ds@, flags@),
                    keys_ordered(r@),
                    forall|a: int| 0 <= a < r@.len() ==> (#[trigger] r@[a]).1@ == combo_sort_key(flags@, r@[a].0@),
                    forall|a: int, b: int| 0 <= a < b < r@.len() ==> r@[a].0@ != r@[b].0@,
                    forall|c: Seq<usize>|
                        listed(r@, c) <==> ((exists|p: int|
                            0 <= p < q && ds@[p].discovery.best_size == s && #[trigger] has_combo(ds@[p], c)) || (
                        exists|j: int| 0 <= j < k && #[trigger] d.discovery.combinations@[j]@ == c)),
                decreases d.discovery.combinations.len() - k,
            {
                let c = &d.discovery.combinations[k];
                let ghost start_r = r@;
                if !is_listed(&r, c) {
                    assert(crate::discovery::indices_valid(flags@, ds@[q as int].discovery.combinations@[k as int]@));
                    let key = combo_key(flags, c);
                    let e = (copy_indices(c), key);
                    let ghost before = r@;
                    insert_by_key(&mut r, e);
                    proof {
                        let p = choose|p: int| 0 <= p <= before.len() && r@ == before.insert(p, e);
                        lemma_insert_listed(before, p, e);
                        assert(forall|c2: Seq<usize>| listed(r@, c2) <==> (listed(before, c2) || c@ == c2));
                        assert forall|a: int| 0 <= a < r@.len() implies (#[trigger] r@[a]).1@ == combo_sort_key(
                            flags@,
                            r@[a].0@,
                        ) by {
                            if a < p {
                                assert(r@[a] == before[a]);
                            } else if a > p {
                                assert(r@[a] == before[a - 1]);
                            }
                        }
                        assert forall|a: int, b: int| 0 <= a < b < r@.len() implies r@[a].0@ != r@[b].0@ by {
                            if a == p {
                                assert(r@[b] == before[b - 1]);
                                assert(listed(before, r@[b].0@));
                            } else if b == p {
                                assert(r@[a] == before[a]);
                                assert(listed(before, r@[a].0@));
                            } else {
                                let a2 = if a < p { a } else { a - 1 };
                                let b2 = if b < p { b } else { b - 1 };
                                assert(r@[a] == before[a2] && r@[b] == before[b2]);
                            }
                        }
                    }
                }
                proof {
                    assert(forall|c2: Seq<usize>| listed(r@, c2) <==> (listed(start_r, c2) || c@ == c2));
                    assert forall|c2: Seq<usize>|
                        listed(r@, c2) <==> ((exists|p: int|
                            0 <= p < q && ds@[p].discovery.best_size == s && #[trigger] has_combo(ds@[p], c2)) || (
                        exists|j: int| 0 <= j < k + 1 && #[trigger] d.discovery.combinations@[j]@ == c2)) by {
                        assert(d.discovery.combinations@[k as int]@ == c@);
                        let bk = exists|j: int| 0 <= j < k && #[trigger] d.discovery.combinations@[j]@ == c2;
                        let bk1 = exists|j: int| 0 <= j < k + 1 && #[trigger] d.discovery.combinations@[j]@ == c2;
                        assert(listed(start_r, c2) <==> ((exists|p: int|
                            0 <= p < q && ds@[p].discovery.best_size == s && #[trigger] has_combo(ds@[p], c2)) || bk));
                        if bk1 {
                            let j = choose|j: int| 0 <= j < k + 1 && #[trigger] d.discovery.combinations@[j]@ == c2;
                            if j < k {
                                assert(bk);
                            } else {
                                assert(c@ == c2);
                            }
                        }
                        if bk {
                            let j = choose|j: int| 0 <= j < k && #[trigger] d.discovery.combinations@[j]@ == c2;
                            assert(d.discovery.combinations@[j]@ == c2);
                            assert(bk1);
                        }
                        if c@ == c2 {
                            assert(bk1);
                        }
                    }
                }
                k = k + 1;
            }
            proof {
                assert forall|c: Seq<usize>|
                    listed(r@, c) <==> (exists|p: int|
                        0 <= p < q + 1 && ds@[p].discovery.best_size == s && #[trigger] has_combo(ds@[p], c)) by {
                    if exists|j: int| 0 <= j < d.discovery.combinations@.len() && #[trigger] d.discovery.combinations@[j]@ == c {
                        assert(has_combo(ds@[q as int], c));
                    }
                    if has_combo(ds@[q as int], c) {
                        let j = choose|j: int| 0 <= j < d.discovery.combinations@.len() && #[trigger] d.discovery.combinations@[j]@ == c;
                        assert(d.discovery.combinations@[j]@ == c);
                    }
                }
            }
        } else {
            proof {
                assert forall|c: Seq<usize>|
                    listed(r@, c) <==> (exists|p: int|
                        0 <= p < q + 1 && ds@[p].discovery.best_size == s && #[trigger] has_combo(ds@[p], c)) by {
                    if exists|p: int| 0 <= p < q + 1 && ds@[p].discovery.best_size == s && #[trigger] has_combo(ds@[p], c) {
                        let p = choose|p: int| 0 <= p < q + 1 && ds@[p].discovery.best_size == s && #[trigger] has_combo(ds@[p], c);
                        assert(p != q);
                    }
                }
            }
        }
        q = q + 1;
    }
    r
}

fn record_has_combo(d: &DiscoveredOpcode, c: &Vec<usize>) -> (b: bool)
    ensures
        b == has_combo(*d, c@),
{
    let mut k: usize = 0;
    while k < d.discovery.combinations.len()
        invariant
            k <= d.discovery.combinations@.len(),
            forall|j: int| 0 <= j < k ==> #[trigger] d.discovery.combinations@[j]@ != c@,
        decreases d.discovery.combinations.len() - k,
    {
        if same_indices(&d.discovery.combinations[k], c) {
            return true;
        }
        k = k + 1;
    }
    false
}

/// Opcodes strictly ascending.
pub open spec fn ascending_opcodes(v: Seq<u8>) -> bool {
    forall|a: int, b: int| 0 <= a < b < v.len() ==> v[a] < v[b]
}

/// The opcodes whose records have best size `s` and `c` among their smallest
/// combinations, ascending.
fn opcodes_of(ds: &Vec<DiscoveredOpcode>, s: usize, c: &Vec<usize>) -> (r: Vec<u8>)
    ensures
        ascending_opcodes(r@),
        forall|op: u8| r@.contains(op) <==> op_present(ds@, s, c@, op),
{
    let mut vals: Vec<u8> = Vec::new();
    let mut q: usize = 0;
    while q < ds.len()
        invariant
            q <= ds@.len(),
            forall|op: u8|
                vals@.contains(op) <==> (exists|p: int|
                    0 <= p < q && ds@[p].opcode == op && ds@[p].discovery.best_size == s && #[trigger] has_combo(
                        ds@[p],
                        c@,
                    )),
        decreases ds.len() - q,
    {
        let ghost before = vals@;
        if ds[q].discovery.best_size == s && record_has_combo(&ds[q], c) {
            vals.push(ds[q].opcode);
        }
        proof {
            assert forall|op: u8|
                vals@.contains(op) <==> (exists|p: int|
                    0 <= p < q + 1 && ds@[p].opcode == op && ds@[p].discovery.best_size == s && #[trigger] has_combo(
                        ds@[p],
                        c@,
                    )) by {
                if vals@.len() > before.len() {
                    assert(vals@ == before.push(ds@[q as int].opcode));
                    if vals@.contains(op) && op != ds@[q as int].opcode {
                        let y = choose|y: int| 0 <= y < vals@.len() && vals@[y] == op;
                        assert(before[y] == op);
                    }
                    if before.contains(op) {
                        let y = choose|y: int| 0 <= y < before.len() && before[y] == op;
                        assert(vals@[y] == op);
                    }
                    if op == ds@[q as int].opcode {
                        assert(vals@[before.len() as int] == op);
                    }
                } else {
                    if exists|p: int|
                        0 <= p < q + 1 && ds@[p].opcode == op && ds@[p].discovery.best_size == s && #[trigger] has_combo(
                            ds@[p],
                            c@,
                        ) {
                        let p = choose|p: int|
                            0 <= p < q + 1 && ds@[p].opcode == op && ds@[p].discovery.best_size == s && #[trigger] has_combo(
                                ds@[p],
                                c@,
                            );
                        assert(p != q);
                    }
                }
            }
        }
        q = q + 1;
    }
    let r = sorted_vec(&vals);
    proof {
        assert forall|op: u8| r@.contains(op) <==> vals@.contains(op) by {
            assert(r@.to_set().contains(op) == vals@.to_set().contains(op));
        }
    }
    r
}

/// A combination group lists the opcodes of `c` at size `s`, ascending.
pub open spec fn combo_group_ok(ds: Seq<DiscoveredOpcode>, s: usize, g: ComboGroup) -> bool {
    &&& combo_present(ds, s, g.indices@)
    &&& ascending_opcodes(g.opcodes@)
    &&& forall|op: u8| g.opcodes@.contains(op) <==> op_present(ds, s, g.indices@, op)
}

/// A size group lists each combination of its size once, ordered by sort key.
pub open spec fn size_group_ok(ds: Seq<DiscoveredOpcode>, flags: Seq<Flag>, g: SizeGroup) -> bool {
    &&& size_present(ds, g.size)
    &&& forall|a: int| 0 <= a < g.combos@.len() ==> combo_group_ok(ds, g.size, #[trigger] g.combos@[a])
    &&& forall|a: int, b: int| 0 <= a < b < g.combos@.len() ==> g.combos@[a].indices@ != g.combos@[b].indices@
    &&& forall|a: int, b: int|
        0 <= a < b < g.combos@.len() ==> !text_lt(
            combo_sort_key(flags, g.combos@[b].indices@),
            combo_sort_key(flags, g.combos@[a].indices@),
        )
    &&& forall|c: Seq<usize>|
        combo_present(ds, g.size, c) ==> exists|a: int| 0 <= a < g.combos@.len() && #[trigger] g.combos@[a].indices@ == c
}

/// The groups: one per best size, ascending.
pub open spec fn grouping_ok(ds: Seq<DiscoveredOpcode>, flags: Seq<Flag>, gs: Seq<SizeGroup>) -> bool {
    &&& forall|a: int| 0 <= a < gs.len() ==> size_group_ok(ds, flags, #[trigger] gs[a])
    &&& forall|a: int, b: int| 0 <= a < b < gs.len() ==> gs[a].size < gs[b].size
    &&& forall|s: usize| size_present(ds, s) ==> exists|a: int| 0 <= a < gs.len() && #[trigger] gs[a].size == s
}

/// The discovery records grouped for display: by best size, ascending; within a
/// size by smallest combination, ordered by the `+`-joined flag names; each
/// combination with the opcodes it is a smallest combination of, ascending.
pub fn group_discoveries(discovered: &Vec<DiscoveredOpcode>, flags: &Vec<Flag>) -> (gs: Vec<SizeGroup>)
    requires
        records_valid(discovered@, flags@),
    ensures
        grouping_ok(discovered@, flags@, gs@),
{
    let sizes = distinct_sizes(discovered);
    let mut gs: Vec<SizeGroup> = Vec::new();
    let mut i: usize = 0;
    while i < sizes.len()
        invariant
            i <= sizes@.len(),
            records_valid(discovered@, flags@),
            ascending_sizes(sizes@),
            forall|s: usize| sizes@.contains(s) <==> size_present(discovered@, s),
            gs@.len() == i,
            forall|a: int| 0 <= a < i ==> (#[trigger] gs@[a]).size == sizes@[a],
            forall|a: int| 0 <= a < i ==> size_group_ok(discovered@, flags@, #[trigger] gs@[a]),
        decreases sizes.len() - i,
    {
        let s = sizes[i];
        let keyed = combos_of_size(discovered, flags, s);
        let mut combos: Vec<ComboGroup> = Vec::new();
        let mut j: usize = 0;
        while j < keyed.len()
            invariant
                j <= keyed@.len(),
                combos@.len() == j,
                forall|a: int| 0 <= a < j ==> (#[trigger] combos@[a]).indices@ == keyed@[a].0@,
                forall|a: int| 0 <= a < j ==> combo_group_ok(discovered@, s, #[trigger] combos@[a]),
                forall|c: Seq<usize>| listed(keyed@, c) <==> combo_present(discovered@, s, c),
            decreases keyed.len() - j,
        {
            let ops = opcodes_of(discovered, s, &keyed[j].0);
            proof {
                assert(listed(keyed@, keyed@[j as int].0@));
            }
            combos.push(ComboGroup { indices: copy_indices(&keyed[j].0), opcodes: ops });
            j = j + 1;
        }
        proof {
            assert(sizes@.contains(s));
            let g = SizeGroup { size: s, combos };
            assert forall|c: Seq<usize>| combo_present(discovered@, s, c) implies exists|a: int|
                0 <= a < g.combos@.len() && #[trigger] g.combos@[a].indices@ == c by {
                assert(listed(keyed@, c));
                let a = choose|a: int| 0 <= a < keyed@.len() && #[trigger] keyed@[a].0@ == c;
                assert(g.combos@[a].indices@ == c);
            }
            assert forall|a: int, b: int| 0 <= a < b < g.combos@.len() implies !text_lt(
                combo_sort_key(flags@, g.combos@[b].indices@),
                combo_sort_key(flags@, g.combos@[a].indices@),
            ) by {
                assert(keyed@[a].1@ == combo_sort_key(flags@, keyed@[a].0@));
                assert(keyed@[b].1@ == combo_sort_key(flags@, keyed@[b].0@));
            }
        }
        gs.push(SizeGroup { size: s, combos });
        i = i + 1;
    }
    proof {
        assert forall|s: usize| size_present(discovered@, s) implies exists|a: int|
            0 <= a < gs@.len() && #[trigger] gs@[a].size == s by {
            assert(sizes@.contains(s));
            let a = choose|a: int| 0 <= a < sizes@.len() && sizes@[a] == s;
            assert(gs@[a].size == s);
        }
    }
    gs
}

/// The versions seen of the first record of `op`, ascending and joined by
/// commas; empty without a record.
pub open spec fn versions_text_of(ds: Seq<DiscoveredOpcode>, op: u8) -> Seq<char>
    decreases ds.len(),
{
    if ds.len() == 0 {
        Seq::empty()
    } else if ds[0].opcode == op {
        join(set_values_in(ds[0].discovery.observed_versions@, 0, 256).map_values(|v: u8| dec(v as nat)), ","@)
    } else {
        versions_text_of(ds.drop_first(), op)
    }
}

fn versions_of_op(ds: &Vec<DiscoveredOpcode>, op: u8) -> (s: String)
    ensures
        s@ == versions_text_of(ds@, op),
{
    let mut i: usize = 0;
    assert(ds@.subrange(0, ds@.len() as int) =~= ds@);
    while i < ds.len()
        invariant
            i <= ds@.len(),
            versions_text_of(ds@, op) == versions_text_of(ds@.subrange(i as int, ds@.len() as int), op),
        decreases ds.len() - i,
    {
        let ghost rest = ds@.subrange(i as int, ds@.len() as int);
        assert(rest[0] == ds@[i as int]);
        assert(rest.drop_first() =~= ds@.subrange(i + 1, ds@.len() as int));
        if ds[i].opcode == op {
            return vers_str(Some(&ds[i].discovery));
        }
        i = i + 1;
    }
    assert(ds@.subrange(i as int, ds@.len() as int) =~= Seq::<DiscoveredOpcode>::empty());
    String::new()
}

/// The record of one opcode of a combination: its name, class, opcode and
/// versions; none when no event type has the opcode.
pub open spec fn op_records(types: Seq<EventTypeInfo>, ds: Seq<DiscoveredOpcode>, op: u8) -> Seq<(LogLevel, Seq<char>)> {
    match first_type_with(types, op) {
        Some(et) => seq![
            (
                LogLevel::Info,
                "    "@ + et.event_name@ + " ["@ + et.class_name@ + "] (Opcode="@ + dec(op as nat) + ", Versions={"@
                    + versions_text_of(ds, op) + "})"@,
            ),
        ],
        None => Seq::empty(),
    }
}

/// The records of the opcodes of a combination, in order.
pub open spec fn ops_records(types: Seq<EventTypeInfo>, ds: Seq<DiscoveredOpcode>, ops: Seq<u8>) -> Seq<(LogLevel, Seq<char>)>
    decreases ops.len(),
{
    if ops.len() == 0 {
        Seq::empty()
    } else {
        ops_records(types, ds, ops.drop_last()) + op_records(types, ds, ops.last())
    }
}

/// The records of a combination: its ` + `-joined flag names, then its opcodes.
pub open spec fn combo_records(
    flags: Seq<Flag>,
    types: Seq<EventTypeInfo>,
    ds: Seq<DiscoveredOpcode>,
    g: ComboGroup,
) -> Seq<(LogLevel, Seq<char>)> {
    seq![(LogLevel::Info, "  "@ + join(chosen_names(flags, g.indices@), " + "@) + ":"@)] + ops_records(
        types,
        ds,
        g.opcodes@,
    )
}

/// The records of the combinations of a size, in order.
pub open spec fn combos_records(
    flags: Seq<Flag>,
    types: Seq<EventTypeInfo>,
    ds: Seq<DiscoveredOpcode>,
    cs: Seq<ComboGroup>,
) -> Seq<(LogLevel, Seq<char>)>
    decreases cs.len(),
{
    if cs.len() == 0 {
        Seq::empty()
    } else {
        combos_records(flags, types, ds, cs.drop_last()) + combo_records(flags, types, ds, cs.last())
    }
}

/// The records of the size groups, in order, each headed by its size.
pub open spec fn groups_records(
    flags: Seq<Flag>,
    types: Seq<EventTypeInfo>,
    ds: Seq<DiscoveredOpcode>,
    gs: Seq<SizeGroup>,
) -> Seq<(LogLevel, Seq<char>)>
    decreases gs.len(),
{
    if gs.len() == 0 {
        Seq::empty()
    } else {
        groups_records(flags, types, ds, gs.drop_last()) + seq![
            (LogLevel::Info, "\n--- Size "@ + dec(gs.last().size as nat) + " ---"@),
        ] + combos_records(flags, types, ds, gs.last().combos@)
    }
}

/// The opcodes of the event types never discovered, ascending, each once.
pub open spec fn missing_opcodes(ds: Seq<DiscoveredOpcode>, types: Seq<EventTypeInfo>) -> Seq<u8> {
    values_in(
        undiscovered_upto(ds, types, types.len() as int).map_values(|t: EventTypeInfo| t.opcode),
        0,
        256,
    )
}

/// The warning record of one undiscovered opcode (none without an event type).
pub open spec fn missing_record(types: Seq<EventTypeInfo>, op: u8) -> Seq<(LogLevel, Seq<char>)> {
    match first_type_with(types, op) {
        Some(et) => seq![
            (LogLevel::Warn, "  "@ + et.event_name@ + " ["@ + et.class_name@ + "] (Opcode="@ + dec(op as nat) + ")"@),
        ],
        None => Seq::empty(),
    }
}

/// The warning records of the undiscovered opcodes, in order.
pub open spec fn missing_records(types: Seq<EventTypeInfo>, ops: Seq<u8>) -> Seq<(LogLevel, Seq<char>)>
    decreases ops.len(),
{
    if ops.len() == 0 {
        Seq::empty()
    } else {
        missing_records(types, ops.drop_last()) + missing_record(types, ops.last())
    }
}

/// The undiscovered section: a heading with their number, then one record each;
/// nothing when every event type was discovered.
pub open spec fn undiscovered_records(types: Seq<EventTypeInfo>, ops: Seq<u8>) -> Seq<(LogLevel, Seq<char>)> {
    if ops.len() == 0 {
        Seq::empty()
    } else {
        seq![
            (
                LogLevel::Warn,
                "\n--- Undiscovered Events ---\nThe following "@ + dec(ops.len()) + " event type(s) were never observed:"@,
            ),
        ] + missing_records(types, ops)
    }
}

/// The message of a warning.
pub open spec fn warning_message(w: WarningEntry) -> Seq<char> {
    match w.kind {
        WarningKind::UnknownOpcode => "Unknown opcode: opcode="@ + dec(w.opcode as nat) + " version="@ + dec(
            w.version as nat,
        ) + " count="@ + dec(w.count as nat) + " class=\""@ + w.class_name@ + "\" name=\""@ + w.event_name@
            + "\" first combo: ["@ + first_combo_text(w) + "]"@,
        WarningKind::HigherVersion { max_known } => "Version higher than known: "@ + w.event_name@ + " ["@
            + w.class_name@ + "] opcode="@ + dec(w.opcode as nat) + " version="@ + dec(w.version as nat)
            + " max known V"@ + dec(max_known as nat) + " count="@ + dec(w.count as nat) + " first combo: ["@
            + first_combo_text(w) + "]"@,
    }
}

/// The warnings section: a heading, then one record per warning; nothing
/// without warnings.
pub open spec fn warning_records(ws: Seq<WarningEntry>) -> Seq<(LogLevel, Seq<char>)> {
    if ws.len() == 0 {
        Seq::empty()
    } else {
        seq![(LogLevel::Warn, "\n--- Warnings ---"@)] + ws.map_values(
            |w: WarningEntry| (LogLevel::Warn, warning_message(w)),
        )
    }
}

/// All records of the results display.
pub open spec fn results_records(
    flags: Seq<Flag>,
    types: Seq<EventTypeInfo>,
    ds: Seq<DiscoveredOpcode>,
    gs: Seq<SizeGroup>,
    ws: Seq<WarningEntry>,
) -> Seq<(LogLevel, Seq<char>)> {
    seq![(LogLevel::Info, "\n=== FLAG DISCOVERY RESULTS ==="@)] + groups_records(flags, types, ds, gs)
        + undiscovered_records(types, missing_opcodes(ds, types)) + warning_records(ws)
}

/// Every combination of every group is a combination of `flags`.
pub open spec fn groups_indices_valid(flags: Seq<Flag>, gs: Seq<SizeGroup>) -> bool {
    forall|a: int, b: int|
        0 <= a < gs.len() && 0 <= b < gs[a].combos@.len() ==> indices_valid(flags, #[trigger] gs[a].combos@[b].indices@)
}

fn record(level: LogLevel, message: String) -> (r: LogRecord)
    ensures
        r.level == level,
        r.message@ == message@,
{
    LogRecord { level, message }
}

fn push_op_record(
    records: &mut Vec<LogRecord>,
    types: &Vec<EventTypeInfo>,
    ds: &Vec<DiscoveredOpcode>,
    op: u8,
)
    ensures
        records_view(final(records)@) == records_view(old(records)@) + op_records(types@, ds@, op),
{
    let ghost before = records_view(records@);
    match find_type(types, op) {
        Some(et) => {
            let mut m = owned("    ");
            push_str(&mut m, et.event_name);
            push_str(&mut m, " [");
            push_str(&mut m, et.class_name);
            push_str(&mut m, "] (Opcode=");
            push_dec(&mut m, op as u64);
            push_str(&mut m, ", Versions={");
            let v = versions_of_op(ds, op);
            push_str(&mut m, v.as_str());
            push_str(&mut m, "})");
            records.push(record(LogLevel::Info, m));
            assert(records_view(records@) =~= before + op_records(types@, ds@, op));
        },
        None => {
            assert(records_view(records@) =~= before + op_records(types@, ds@, op));
        },
    }
}

fn push_combo_records(
    records: &mut Vec<LogRecord>,
    flags: &Vec<Flag>,
    types: &Vec<EventTypeInfo>,
    ds: &Vec<DiscoveredOpcode>,
    g: &ComboGroup,
)
    requires
        indices_valid(flags@, g.indices@),
    ensures
        records_view(final(records)@) == records_view(old(records)@) + combo_records(flags@, types@, ds@, *g),
{
    let ghost before = records_view(records@);
    let mut m = owned("  ");
    let name = combo_name(flags, &g.indices);
    push_str(&mut m, name.as_str());
    push_str(&mut m, ":");
    records.push(record(LogLevel::Info, m));
    let ghost head = records_view(records@);
    assert(head =~= before + seq![(LogLevel::Info, "  "@ + join(chosen_names(flags@, g.indices@), " + "@) + ":"@)]);
    let mut k: usize = 0;
    while k < g.opcodes.len()
        invariant
            k <= g.opcodes@.len(),
            records_view(records@) == head + ops_records(types@, ds@, g.opcodes@.subrange(0, k as int)),
        decreases g.opcodes.len() - k,
    {
        push_op_record(records, types, ds, g.opcodes[k]);
        proof {
            assert(g.opcodes@.subrange(0, k + 1).drop_last() =~= g.opcodes@.subrange(0, k as int));
        }
        k = k + 1;
    }
    assert(g.opcodes@.subrange(0, g.opcodes@.len() as int) =~= g.opcodes@);
}

/// The records that show the discovery results: a heading; per size group,
/// ascending, its size and per combination its flag names and the event types
/// it enables, with the versions seen; the event types never discovered (by
/// opcode, ascending); and the warnings.
pub fn render_results(
    groups: &Vec<SizeGroup>,
    discovered: &Vec<DiscoveredOpcode>,
    flags: &Vec<Flag>,
    types: &Vec<EventTypeInfo>,
    warnings: &Vec<WarningEntry>,
) -> (r: Vec<LogRecord>)
    requires
        groups_indices_valid(flags@, groups@),
    ensures
        records_view(r@) == results_records(flags@, types@, discovered@, groups@, warnings@),
{
    let mut records: Vec<LogRecord> = Vec::new();
    records.push(record(LogLevel::Info, owned("\n=== FLAG DISCOVERY RESULTS ===")));
    let ghost head = records_view(records@);
    assert(head =~= seq![(LogLevel::Info, "\n=== FLAG DISCOVERY RESULTS ==="@)]);
    let mut i: usize = 0;
    while i < groups.len()
        invariant
            i <= groups@.len(),
            groups_indices_valid(flags@, groups@),
            records_view(records@) == head + groups_records(flags@, types@, discovered@, groups@.subrange(0, i as int)),
        decreases groups.len() - i,
    {
        let g = &groups[i];
        let ghost before = records_view(records@);
        let mut m = owned("\n--- Size ");
        push_dec(&mut m, g.size as u64);
        push_str(&mut m, " ---");
        records.push(record(LogLevel::Info, m));
        let ghost with_head = records_view(records@);
        assert(with_head =~= before + seq![(LogLevel::Info, "\n--- Size "@ + dec(g.size as nat) + " ---"@)]);
        let mut j: usize = 0;
        while j < g.combos.len()
            invariant
                i < groups@.len(),
                *g == groups@[i as int],
                j <= g.combos@.len(),
                groups_indices_valid(flags@, groups@),
                records_view(records@) == with_head + combos_records(
                    flags@,
                    types@,
                    discovered@,
                    g.combos@.subrange(0, j as int),
                ),
            decreases g.combos.len() - j,
        {
            assert(indices_valid(flags@, groups@[i as int].combos@[j as int].indices@));
            push_combo_records(&mut records, flags, types, discovered, &g.combos[j]);
            proof {
                assert(g.combos@.subrange(0, j + 1).drop_last() =~= g.combos@.subrange(0, j as int));
            }
            j = j + 1;
        }
        proof {
            assert(g.combos@.subrange(0, g.combos@.len() as int) =~= g.combos@);
            assert(groups@.subrange(0, i + 1).drop_last() =~= groups@.subrange(0, i as int));
        }
        i = i + 1;
    }
    assert(groups@.subrange(0, groups@.len() as int) =~= groups@);
    let ghost body = records_view(records@);
    let un = undiscovered(discovered, types);
    let mut ops_all: Vec<u8> = Vec::new();
    let mut k: usize = 0;
    while k < un.len()
        invariant
            k <= un@.len(),
            ops_all@ == un@.subrange(0, k as int).map_values(|t: EventTypeInfo| t.opcode),
        decreases un.len() - k,
    {
        ops_all.push(un[k].opcode);
        k = k + 1;
        assert(ops_all@ =~= un@.subrange(0, k as int).map_values(|t: EventTypeInfo| t.opcode));
    }
    assert(un@.subrange(0, un@.len() as int) =~= un@);
    let miss = sorted_vec(&ops_all);
    assert(miss@ == missing_opcodes(discovered@, types@));
    if miss.len() > 0 {
        let mut m = owned("\n--- Undiscovered Events ---\nThe following ");
        push_dec(&mut m, miss.len() as u64);
        push_str(&mut m, " event type(s) were never observed:");
        records.push(record(LogLevel::Warn, m));
        let ghost mhead = records_view(records@);
        let mut k: usize = 0;
        while k < miss.len()
            invariant
                k <= miss@.len(),
                records_view(records@) == mhead + missing_records(types@, miss@.subrange(0, k as int)),
            decreases miss.len() - k,
        {
            let ghost prev = records_view(records@);
            let op = miss[k];
            match find_type(types, op) {
                Some(et) => {
                    let mut m = owned("  ");
                    push_str(&mut m, et.event_name);
                    push_str(&mut m, " [");
                    push_str(&mut m, et.class_name);
                    push_str(&mut m, "] (Opcode=");
                    push_dec(&mut m, op as u64);
                    push_str(&mut m, ")");
                    records.push(record(LogLevel::Warn, m));
                },
                None => {},
            }
            proof {
                assert(records_view(records@) =~= prev + missing_record(types@, op));
                assert(miss@.subrange(0, k + 1).drop_last() =~= miss@.subrange(0, k as int));
            }
            k = k + 1;
        }
        assert(miss@.subrange(0, miss@.len() as int) =~= miss@);
        assert(records_view(records@) =~= body + undiscovered_records(types@, miss@));
    } else {
        assert(records_view(records@) =~= body + undiscovered_records(types@, miss@));
    }
    let ghost before_warnings = records_view(records@);
    if warnings.len() > 0 {
        records.push(record(LogLevel::Warn, owned("\n--- Warnings ---")));
        let ghost whead = records_view(records@);
        let mut j: usize = 0;
        while j < warnings.len()
            invariant
                j <= warnings@.len(),
                records_view(records@) == whead + warnings@.subrange(0, j as int).map_values(
                    |w: WarningEntry| (LogLevel::Warn, warning_message(w)),
                ),
            decreases warnings.len() - j,
        {
            let ghost prev = records_view(records@);
            let w = &warnings[j];
            let combo = join_strings(&w.first_combo, " + ");
            let mut m = String::new();
            match w.kind {
                WarningKind::UnknownOpcode => {
                    push_str(&mut m, "Unknown opcode: opcode=");
                    push_dec(&mut m, w.opcode as u64);
                    push_str(&mut m, " version=");
                    push_dec(&mut m, w.version as u64);
                    push_str(&mut m, " count=");
                    push_dec(&mut m, w.count);
                    push_str(&mut m, " class=\"");
                    push_str(&mut m, w.class_name.as_str());
                    push_str(&mut m, "\" name=\"");
                    push_str(&mut m, w.event_name.as_str());
                    push_str(&mut m, "\" first combo: [");
                    push_str(&mut m, combo.as_str());
                    push_str(&mut m, "]");
                },
                WarningKind::HigherVersion { max_known } => {
                    push_str(&mut m, "Version higher than known: ");
                    push_str(&mut m, w.event_name.as_str());
                    push_str(&mut m, " [");
                    push_str(&mut m, w.class_name.as_str());
                    push_str(&mut m, "] opcode=");
                    push_dec(&mut m, w.opcode as u64);
                    push_str(&mut m, " version=");
                    push_dec(&mut m, w.version as u64);
                    push_str(&mut m, " max known V");
                    push_dec(&mut m, max_known as u64);
                    push_str(&mut m, " count=");
                    push_dec(&mut m, w.count);
                    push_str(&mut m, " first combo: [");
                    push_str(&mut m, combo.as_str());
                    push_str(&mut m, "]");
                },
            }
            assert(m@ =~= warning_message(*w));
            records.push(record(LogLevel::Warn, m));
            proof {
                assert(records_view(records@) =~= prev.push((LogLevel::Warn, warning_message(warnings@[j as int]))));
                assert(warnings@.subrange(0, j + 1).map_values(|w: WarningEntry| (LogLevel::Warn, warning_message(w)))
                    =~= warnings@.subrange(0, j as int).map_values(|w: WarningEntry| (LogLevel::Warn, warning_message(w))).push(
                    (LogLevel::Warn, warning_message(warnings@[j as int])),
                ));
            }
            j = j + 1;
        }
        assert(warnings@.subrange(0, warnings@.len() as int) =~= warnings@);
    }
    assert(records_view(records@) =~= results_records(flags@, types@, discovered@, groups@, warnings@));
    records
}

/// Grouped records have combinations of `flags` only.
proof fn lemma_groups_indices_valid(ds: Seq<DiscoveredOpcode>, flags: Seq<Flag>, gs: Seq<SizeGroup>)
    requires
        records_valid(ds, flags),
        grouping_ok(ds, flags, gs),
    ensures
        groups_indices_valid(flags, gs),
{
    assert forall|a: int, b: int| 0 <= a < gs.len() && 0 <= b < gs[a].combos@.len() implies indices_valid(
        flags,
        #[trigger] gs[a].combos@[b].indices@,
    ) by {
        assert(size_group_ok(ds, flags, gs[a]));
        assert(combo_group_ok(ds, gs[a].size, gs[a].combos@[b]));
        let c = gs[a].combos@[b].indices@;
        let q = choose|q: int| 0 <= q < ds.len() && ds[q].discovery.best_size == gs[a].size && #[trigger] has_combo(ds[q], c);
        let k = choose|k: int| 0 <= k < ds[q].discovery.combinations@.len() && #[trigger] ds[q].discovery.combinations@[k]@ == c;
        assert(indices_valid(flags, ds[q].discovery.combinations@[k]@));
    }
}

/// Each discovered opcode is shown under its own best size only, with exactly
/// the smallest combinations of its record.
pub proof fn law_opcode_shown_under_best_size(
    ds: Seq<DiscoveredOpcode>,
    flags: Seq<Flag>,
    gs: Seq<SizeGroup>,
    q: int,
    a: int,
    b: int,
)
    requires
        records_distinct(ds),
        grouping_ok(ds, flags, gs),
        0 <= q < ds.len(),
        0 <= a < gs.len(),
        0 <= b < gs[a].combos@.len(),
    ensures
        gs[a].combos@[b].opcodes@.contains(ds[q].opcode) <==> (gs[a].size == ds[q].discovery.best_size
            && has_combo(ds[q], gs[a].combos@[b].indices@)),
{
    assert(size_group_ok(ds, flags, gs[a]));
    let g = gs[a].combos@[b];
    assert(combo_group_ok(ds, gs[a].size, g));
    let op = ds[q].opcode;
    if op_present(ds, gs[a].size, g.indices@, op) {
        let p = choose|p: int|
            0 <= p < ds.len() && ds[p].opcode == op && ds[p].discovery.best_size == gs[a].size && #[trigger] has_combo(
                ds[p],
                g.indices@,
            );
        if p != q {
            if p < q {
                assert(ds[p].opcode != ds[q].opcode);
            } else {
                assert(ds[q].opcode != ds[p].opcode);
            }
        }
    }
    if gs[a].size == ds[q].discovery.best_size && has_combo(ds[q], g.indices@) {
        assert(op_present(ds, gs[a].size, g.indices@, op));
    }
}

/// The discovery results as shown at the end of a search, with the groups and
/// warnings they show.
#[derive(Debug, Clone)]
pub struct DiscoveryDisplay {
    pub groups: Vec<SizeGroup>,
    pub warnings: Vec<WarningEntry>,
    pub records: Vec<LogRecord>,
}

/// The display of the discovery results: the records grouped by best size and
/// combination (see `group_discoveries`), the warnings about the observed pairs
/// (see `build_warnings`), and the records that show them (see `render_results`).
pub fn display(
    discovered: &Vec<DiscoveredOpcode>,
    flags: &Vec<Flag>,
    types: &Vec<EventTypeInfo>,
    observed: &ObservedTrace,
) -> (d: DiscoveryDisplay)
    requires
        records_valid(discovered@, flags@),
        pairs_distinct(observed.pairs@),
        combos_valid(observed.pairs@, flags@),
    ensures
        grouping_ok(discovered@, flags@, d.groups@),
        d.warnings@.map_values(|w: WarningEntry| w.opcode as int * 256 + w.version as int) == warned_keys(
            observed.pairs@,
            0,
            65536,
        ),
        forall|j: int|
            0 <= j < d.warnings@.len() ==> warning_of(
                #[trigger] d.warnings@[j],
                observed.pairs@,
                flags@,
                d.warnings@[j].opcode,
                d.warnings@[j].version,
            ),
        records_view(d.records@) == results_records(flags@, types@, discovered@, d.groups@, d.warnings@),
{
    let groups = group_discoveries(discovered, flags);
    proof {
        lemma_groups_indices_valid(discovered@, flags@, groups@);
    }
    let warnings = build_warnings(observed, flags);
    let records = render_results(&groups, discovered, flags, types, &warnings);
    DiscoveryDisplay { groups, warnings, records }
}

} // verus!
