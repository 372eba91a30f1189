//! Enumeration of flag combinations: every `k`-element subset of `0..n`, as a
//! strictly increasing index list, in lexicographic order.

use vstd::prelude::*;

verus! {

broadcast use vstd::std_specs::vec::group_vec_axioms;

/// `c` is strictly increasing.
pub open spec fn increasing(c: Seq<usize>) -> bool {
    forall|j: int, l: int| 0 <= j < l < c.len() ==> c[j] < c[l]
}

/// `c` lists a `k`-element subset of `0..n` in increasing order.
pub open spec fn is_combination(c: Seq<usize>, n: nat, k: nat) -> bool {
    &&& c.len() == k
    &&& increasing(c)
    &&& forall|j: int| 0 <= j < c.len() ==> c[j] < n
}

/// `a` comes before `b` in lexicographic order: they agree up to a position
/// where `a` holds the smaller value.
pub open spec fn lex_before(a: Seq<usize>, b: Seq<usize>) -> bool {
    exists|m: int|
        #![trigger a[m], b[m]]
        0 <= m < a.len() && m < b.len() && a[m] < b[m] && forall|j: int|
            0 <= j < m ==> a[j] == b[j]
}

/// Every earlier entry of `s` comes before every later one, lexicographically.
pub open spec fn lex_sorted(s: Seq<Seq<usize>>) -> bool {
    forall|j: int, l: int| 0 <= j < l < s.len() ==> lex_before(s[j], s[l])
}

/// The combinations that extend `prefix` with values from `start` on, in the
/// order the enumeration produces them.
pub open spec fn ext(n: nat, k: nat, start: nat, prefix: Seq<usize>) -> Seq<Seq<usize>>
    decreases k - prefix.len(), n + 1 - start, 1nat,
{
    if prefix.len() >= k {
        seq![prefix]
    } else if start > n {
        Seq::empty()
    } else {
        ext_from(n, k, start, prefix)
    }
}

/// The extensions of `prefix` whose next value is at least `i`.
pub open spec fn ext_from(n: nat, k: nat, i: nat, prefix: Seq<usize>) -> Seq<Seq<usize>>
    decreases k - prefix.len(), n + 1 - i, 0nat,
{
    if i >= n || prefix.len() >= k {
        Seq::empty()
    } else {
        ext(n, k, i + 1, prefix.push(i as usize)) + ext_from(n, k, i + 1, prefix)
    }
}

/// `c` is a combination that starts with `prefix` and continues with values from `start` on.
pub open spec fn extends(c: Seq<usize>, prefix: Seq<usize>, start: nat, n: nat, k: nat) -> bool {
    &&& c.len() == k
    &&& prefix.len() <= c.len()
    &&& c.subrange(0, prefix.len() as int) == prefix
    &&& increasing(c)
    &&& (forall|j: int| 0 <= j < c.len() ==> c[j] < n)
    &&& (prefix.len() < k ==> c[prefix.len() as int] >= start)
}

/// `prefix` can be extended by values from `start` on.
pub open spec fn good_prefix(prefix: Seq<usize>, start: nat, n: nat, k: nat) -> bool {
    &&& prefix.len() <= k
    &&& increasing(prefix)
    &&& (forall|j: int| 0 <= j < prefix.len() ==> prefix[j] < start && prefix[j] < n)
    &&& start <= n + 1
    &&& n <= usize::MAX
}

proof fn lemma_ext_members(n: nat, k: nat, start: nat, prefix: Seq<usize>)
    requires
        good_prefix(prefix, start, n, k),
    ensures
        forall|idx: int|
            0 <= idx < ext(n, k, start, prefix).len() ==> extends(
                #[trigger] ext(n, k, start, prefix)[idx],
                prefix,
                start,
                n,
                k,
            ),
        forall|c: Seq<usize>|
            extends(c, prefix, start, n, k) ==> exists|idx: int|
                0 <= idx < ext(n, k, start, prefix).len() && #[trigger] ext(n, k, start, prefix)[idx]
                    == c,
        lex_sorted(ext(n, k, start, prefix)),
    decreases k - prefix.len(), n + 1 - start, 1nat,
{
    let e = ext(n, k, start, prefix);
    if prefix.len() >= k {
        assert(prefix.subrange(0, prefix.len() as int) =~= prefix);
        assert(e[0] == prefix);
        assert(extends(e[0], prefix, start, n, k));
        assert forall|c: Seq<usize>| extends(c, prefix, start, n, k) implies exists|idx: int|
            0 <= idx < e.len() && #[trigger] e[idx] == c by {
            assert(c =~= c.subrange(0, prefix.len() as int));
            assert(e[0] == c);
        }
    } else if start > n {
        assert forall|c: Seq<usize>| extends(c, prefix, start, n, k) implies exists|idx: int|
            0 <= idx < e.len() && #[trigger] e[idx] == c by {
            assert(c[prefix.len() as int] < n);
        }
    } else {
        lemma_ext_from_members(n, k, start, prefix);
    }
}

proof fn lemma_ext_from_members(n: nat, k: nat, i: nat, prefix: Seq<usize>)
    requires
        good_prefix(prefix, i, n, k),
        prefix.len() < k,
        i <= n,
    ensures
        forall|idx: int|
            0 <= idx < ext_from(n, k, i, prefix).len() ==> extends(
                #[trigger] ext_from(n, k, i, prefix)[idx],
                prefix,
                i,
                n,
                k,
            ),
        forall|c: Seq<usize>|
            extends(c, prefix, i, n, k) ==> exists|idx: int|
                0 <= idx < ext_from(n, k, i, prefix).len() && #[trigger] ext_from(n, k, i, prefix)[idx]
                    == c,
        lex_sorted(ext_from(n, k, i, prefix)),
    decreases k - prefix.len(), n + 1 - i, 0nat,
{
    let e = ext_from(n, k, i, prefix);
    let plen = prefix.len() as int;
    if i >= n {
        assert forall|c: Seq<usize>| extends(c, prefix, i, n, k) implies exists|idx: int|
            0 <= idx < e.len() && #[trigger] e[idx] == c by {
            assert(c[plen] < n);
        }
    } else {
        let p2 = prefix.push(i as usize);
        assert(good_prefix(p2, i + 1, n, k));
        lemma_ext_members(n, k, i + 1, p2);
        lemma_ext_from_members(n, k, i + 1, prefix);
        let a = ext(n, k, i + 1, p2);
        let b = ext_from(n, k, i + 1, prefix);
        assert(e == a + b);
        // members of the first part extend prefix with value i next
        assert forall|idx: int| 0 <= idx < a.len() implies extends(#[trigger] a[idx], prefix, i, n, k)
            && a[idx][plen] == i by {
            let c = a[idx];
            assert(extends(c, p2, i + 1, n, k));
            assert(c.subrange(0, plen + 1) == p2);
            assert(c.subrange(0, plen) =~= c.subrange(0, plen + 1).subrange(0, plen));
            assert(p2.subrange(0, plen) =~= prefix);
            assert(c[plen] == c.subrange(0, plen + 1)[plen]);
        }
        assert forall|idx: int| 0 <= idx < b.len() implies extends(#[trigger] b[idx], prefix, i, n, k)
            && b[idx][plen] >= i + 1 by {
        }
        assert forall|idx: int| 0 <= idx < e.len() implies extends(#[trigger] e[idx], prefix, i, n, k) by {
            if idx < a.len() {
                assert(e[idx] == a[idx]);
            } else {
                assert(e[idx] == b[idx - a.len()]);
            }
        }
        assert forall|c: Seq<usize>| extends(c, prefix, i, n, k) implies exists|idx: int|
            0 <= idx < e.len() && #[trigger] e[idx] == c by {
            if c[plen] == i {
                assert(c.subrange(0, plen + 1) =~= p2) by {
                    assert forall|j: int| 0 <= j < plen implies c.subrange(0, plen + 1)[j] == p2[j] by {
                        assert(c.subrange(0, plen)[j] == prefix[j]);
                    }
                }
                if plen + 1 < k {
                    assert(c[plen + 1] > c[plen]);
                }
                assert(extends(c, p2, i + 1, n, k));
                let idx = choose|idx: int| 0 <= idx < a.len() && a[idx] == c;
                assert(e[idx] == c);
            } else {
                assert(extends(c, prefix, i + 1, n, k));
                let idx = choose|idx: int| 0 <= idx < b.len() && b[idx] == c;
                assert(e[idx + a.len()] == c);
            }
        }
        assert forall|j: int, l: int| 0 <= j < l < e.len() implies lex_before(e[j], e[l]) by {
            if l < a.len() {
                assert(e[j] == a[j] && e[l] == a[l]);
            } else if j >= a.len() {
                assert(e[j] == b[j - a.len()] && e[l] == b[l - a.len()]);
            } else {
                let x = a[j];
                let y = b[l - a.len()];
                assert(e[j] == x && e[l] == y);
                assert(x[plen] == i);
                assert(y[plen] >= i + 1);
                assert forall|m: int| 0 <= m < plen implies x[m] == y[m] by {
                    assert(x.subrange(0, plen)[m] == prefix[m]);
                    assert(y.subrange(0, plen)[m] == prefix[m]);
                }
                assert(lex_before(x, y));
            }
        }
    }
}

/// A strictly increasing list of values below `n` has at most `n` entries.
proof fn lemma_combination_fits(c: Seq<usize>, n: nat)
    requires
        increasing(c),
        forall|j: int| 0 <= j < c.len() ==> c[j] < n,
    ensures
        c.len() <= n,
    decreases c.len(),
{
    if c.len() > 0 {
        let d = c.drop_last();
        assert forall|j: int| 0 <= j < d.len() implies d[j] < c[c.len() - 1] by {
            assert(d[j] == c[j]);
        }
        lemma_combination_fits(d, c[c.len() - 1] as nat);
    }
}

/// Appends to `result` every combination that extends `combo` with values from
/// `start` on, restoring `combo` afterwards.
fn gen_recursive(n: usize, k: usize, start: usize, combo: &mut Vec<usize>, result: &mut Vec<Vec<usize>>)
    requires
        old(combo)@.len() <= k,
    ensures
        final(result).deep_view() == old(result).deep_view() + ext(
            n as nat,
            k as nat,
            start as nat,
            old(combo)@,
        ),
        final(combo)@ == old(combo)@,
    decreases k - old(combo)@.len(),
{
    if combo.len() == k {
        let c = combo.clone();
        assert(c.deep_view() =~= combo@);
        result.push(c);
        assert(result.deep_view() =~= old(result).deep_view() + ext(
            n as nat,
            k as nat,
            start as nat,
            old(combo)@,
        ));
        return;
    }
    let ghost c0 = combo@;
    let ghost r0 = result.deep_view();
    let mut i = start;
    while i < n
        invariant
            c0.len() < k,
            combo@ == c0,
            old(combo)@ == c0,
            start <= i,
            i <= n || i == start,
            result.deep_view() + ext_from(n as nat, k as nat, i as nat, c0) == r0 + ext_from(
                n as nat,
                k as nat,
                start as nat,
                c0,
            ),
        decreases n - i,
    {
        let ghost before = result.deep_view();
        combo.push(i);
        gen_recursive(n, k, i + 1, combo, result);
        combo.pop();
        proof {
            let a = ext(n as nat, k as nat, (i + 1) as nat, c0.push(i));
            let b = ext_from(n as nat, k as nat, (i + 1) as nat, c0);
            assert(ext_from(n as nat, k as nat, i as nat, c0) == a + b);
            assert(result.deep_view() == before + a);
            assert(before + (a + b) =~= (before + a) + b);
        }
        assert(combo@ =~= c0);
        i = i + 1;
    }
    proof {
        assert(ext_from(n as nat, k as nat, i as nat, c0) =~= Seq::empty());
        assert(result.deep_view() + Seq::<Seq<usize>>::empty() =~= result.deep_view());
        if start as nat > n as nat {
            assert(ext(n as nat, k as nat, start as nat, c0) =~= Seq::empty());
            assert(ext_from(n as nat, k as nat, start as nat, c0) =~= Seq::empty());
        } else {
            assert(ext(n as nat, k as nat, start as nat, c0) == ext_from(n as nat, k as nat, start as nat, c0));
        }
    }
}

/// Every `k`-element subset of `0..n`, each as an increasing index list, in
/// lexicographic order.
pub fn gen_combos(n: usize, k: usize) -> (combos: Vec<Vec<usize>>)
    ensures
        forall|c: Seq<usize>| combos.deep_view().contains(c) <==> is_combination(c, n as nat, k as nat),
        lex_sorted(combos.deep_view()),
{
    if k == 0 {
        let mut combos: Vec<Vec<usize>> = Vec::new();
        combos.push(Vec::new());
        proof {
            let s = combos.deep_view();
            assert(s[0] =~= Seq::<usize>::empty());
            assert forall|c: Seq<usize>| s.contains(c) <==> is_combination(c, n as nat, k as nat) by {
                if is_combination(c, n as nat, k as nat) {
                    assert(c =~= s[0]);
                }
            }
        }
        return combos;
    }
    if k > n {
        let combos: Vec<Vec<usize>> = Vec::new();
        proof {
            assert forall|c: Seq<usize>| combos.deep_view().contains(c) <==> is_combination(c, n as nat, k as nat) by {
                if is_combination(c, n as nat, k as nat) {
                    lemma_combination_fits(c, n as nat);
                }
            }
        }
        return combos;
    }
    let mut result: Vec<Vec<usize>> = Vec::new();
    let mut combo: Vec<usize> = Vec::new();
    gen_recursive(n, k, 0, &mut combo, &mut result);
    proof {
        let e = ext(n as nat, k as nat, 0, Seq::<usize>::empty());
        assert(result.deep_view() =~= e);
        lemma_ext_members(n as nat, k as nat, 0, Seq::<usize>::empty());
        assert forall|c: Seq<usize>| result.deep_view().contains(c) <==> is_combination(c, n as nat, k as nat) by {
            if is_combination(c, n as nat, k as nat) {
                assert(c.subrange(0, 0) =~= Seq::<usize>::empty());
                assert(extends(c, Seq::<usize>::empty(), 0, n as nat, k as nat));
            }
            if result.deep_view().contains(c) {
                let idx = choose|idx: int| 0 <= idx < e.len() && e[idx] == c;
                assert(extends(e[idx], Seq::<usize>::empty(), 0, n as nat, k as nat));
            }
        }
    }
    result
}

} // verus!
