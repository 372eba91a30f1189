//! Counting occurrences of small integer keys into a key-sorted table.

use vstd::prelude::*;

verus! {

/// Number of occurrences of `k` in `s`.
pub open spec fn occurrences(s: Seq<u16>, k: u16) -> nat
    decreases s.len(),
{
    if s.len() == 0 {
        0
    } else {
        occurrences(s.drop_last(), k) + if s.last() == k {
            1nat
        } else {
            0nat
        }
    }
}

/// `t` lists, by increasing key, each key of `s` once with its number of occurrences.
pub open spec fn is_tally(t: Seq<(u16, usize)>, s: Seq<u16>) -> bool {
    &&& forall|j: int, l: int| 0 <= j < l < t.len() ==> t[j].0 < t[l].0
    &&& forall|j: int| 0 <= j < t.len() ==> t[j].1 == occurrences(s, t[j].0) && t[j].1 > 0
    &&& forall|k: u16| occurrences(s, k) > 0 ==> exists|j: int| 0 <= j < t.len() && t[j].0 == k
}

/// Some entry of `t` has key `k`.
spec fn lists_key(t: Seq<(u16, usize)>, k: u16) -> bool {
    exists|j: int| 0 <= j < t.len() && t[j].0 == k
}

/// Two tables with strictly increasing keys and the same key set have the same
/// keys, position by position.
proof fn lemma_sorted_same_keys(t1: Seq<(u16, usize)>, t2: Seq<(u16, usize)>)
    requires
        forall|j: int, l: int| 0 <= j < l < t1.len() ==> t1[j].0 < t1[l].0,
        forall|j: int, l: int| 0 <= j < l < t2.len() ==> t2[j].0 < t2[l].0,
        forall|k: u16| lists_key(t1, k) <==> lists_key(t2, k),
    ensures
        t1.len() == t2.len(),
        forall|j: int| 0 <= j < t1.len() ==> t1[j].0 == t2[j].0,
    decreases t1.len(),
{
    if t1.len() == 0 {
        if t2.len() > 0 {
            assert(lists_key(t2, t2[0].0));
        }
    } else if t2.len() == 0 {
        assert(lists_key(t1, t1[0].0));
    } else {
        let k1 = t1[0].0;
        let k2 = t2[0].0;
        assert(lists_key(t1, k1));
        assert(lists_key(t2, k2));
        let j2 = choose|j: int| 0 <= j < t2.len() && t2[j].0 == k1;
        let j1 = choose|j: int| 0 <= j < t1.len() && t1[j].0 == k2;
        assert(k2 <= k1);
        assert(k1 <= k2);
        let r1 = t1.drop_first();
        let r2 = t2.drop_first();
        assert forall|k: u16| lists_key(r1, k) <==> lists_key(r2, k) by {
            if lists_key(r1, k) {
                let j = choose|j: int| 0 <= j < r1.len() && r1[j].0 == k;
                assert(t1[j + 1].0 == k);
                assert(lists_key(t1, k));
                let l = choose|l: int| 0 <= l < t2.len() && t2[l].0 == k;
                assert(l != 0);
                assert(r2[l - 1].0 == k);
            }
            if lists_key(r2, k) {
                let j = choose|j: int| 0 <= j < r2.len() && r2[j].0 == k;
                assert(t2[j + 1].0 == k);
                assert(lists_key(t2, k));
                let l = choose|l: int| 0 <= l < t1.len() && t1[l].0 == k;
                assert(l != 0);
                assert(r1[l - 1].0 == k);
            }
        }
        lemma_sorted_same_keys(r1, r2);
        assert forall|j: int| 0 <= j < t1.len() implies t1[j].0 == t2[j].0 by {
            if j > 0 {
                assert(r1[j - 1].0 == r2[j - 1].0);
            }
        }
    }
}

/// A tally is unique: two tables that both tally `s` are equal.
pub proof fn law_tally_is_unique(t1: Seq<(u16, usize)>, t2: Seq<(u16, usize)>, s: Seq<u16>)
    requires
        is_tally(t1, s),
        is_tally(t2, s),
    ensures
        t1 == t2,
{
    assert forall|k: u16| lists_key(t1, k) <==> lists_key(t2, k) by {
        if lists_key(t1, k) {
            let j = choose|j: int| 0 <= j < t1.len() && t1[j].0 == k;
            assert(occurrences(s, t1[j].0) > 0);
        }
        if lists_key(t2, k) {
            let j = choose|j: int| 0 <= j < t2.len() && t2[j].0 == k;
            assert(occurrences(s, t2[j].0) > 0);
        }
    }
    lemma_sorted_same_keys(t1, t2);
    assert(t1 =~= t2);
}

proof fn lemma_occurrences_bound(s: Seq<u16>, k: u16)
    ensures
        occurrences(s, k) <= s.len(),
    decreases s.len(),
{
    if s.len() > 0 {
        lemma_occurrences_bound(s.drop_last(), k);
    }
}

/// The tally of `keys`: each distinct key with its number of occurrences, by increasing key.
pub fn tally(keys: &Vec<u16>) -> (t: Vec<(u16, usize)>)
    ensures
        is_tally(t@, keys@),
{
    let mut t: Vec<(u16, usize)> = Vec::new();
    let mut i: usize = 0;
    while i < keys.len()
        invariant
            i <= keys@.len(),
            is_tally(t@, keys@.subrange(0, i as int)),
        decreases keys.len() - i,
    {
        let k = keys[i];
        let ghost pre = keys@.subrange(0, i as int);
        let ghost post = keys@.subrange(0, i + 1);
        proof {
            assert(post.drop_last() =~= pre);
            assert(post.last() == k);
            assert forall|x: u16| occurrences(post, x) == occurrences(pre, x) + if x == k { 1nat } else { 0nat } by {}
            lemma_occurrences_bound(pre, k);
        }
        // first position whose key is not below k
        let mut p: usize = 0;
        while p < t.len() && t[p].0 < k
            invariant
                p <= t@.len(),
                forall|j: int| 0 <= j < p ==> t@[j].0 < k,
            decreases t.len() - p,
        {
            p = p + 1;
        }
        if p < t.len() && t[p].0 == k {
            let ghost old_t = t@;
            let c = t[p].1;
            t.set(p, (k, c + 1));
            proof {
                assert forall|j: int| 0 <= j < t@.len() implies t@[j].1 == occurrences(post, t@[j].0) && t@[j].1 > 0 by {
                    if j != p {
                        assert(old_t[j].0 != k);
                    }
                }
                assert forall|x: u16| occurrences(post, x) > 0 implies exists|j: int| 0 <= j < t@.len() && t@[j].0 == x by {
                    if x == k {
                        assert(t@[p as int].0 == x);
                    } else {
                        let j = choose|j: int| 0 <= j < old_t.len() && old_t[j].0 == x;
                        assert(t@[j].0 == x);
                    }
                }
            }
        } else {
            let ghost old_t = t@;
            proof {
                assert forall|j: int| 0 <= j < old_t.len() implies old_t[j].0 != k by {
                    if j >= p {
                        if j > p {
                            assert(old_t[p as int].0 < old_t[j].0);
                        }
                    }
                }
                assert(occurrences(pre, k) == 0) by {
                    if occurrences(pre, k) > 0 {
                        let j = choose|j: int| 0 <= j < old_t.len() && old_t[j].0 == k;
                    }
                }
            }
            t.insert(p, (k, 1));
            proof {
                assert forall|j: int, l: int| 0 <= j < l < t@.len() implies t@[j].0 < t@[l].0 by {
                    if j < p && l == p {
                    } else if j == p && l > p {
                        assert(t@[l] == old_t[l - 1]);
                        if l - 1 > p {
                            assert(old_t[p as int].0 < old_t[l - 1].0);
                        }
                    } else if j < p && l > p {
                        assert(t@[l] == old_t[l - 1]);
                    } else if j > p {
                        assert(t@[l] == old_t[l - 1] && t@[j] == old_t[j - 1]);
                    }
                }
                assert forall|j: int| 0 <= j < t@.len() implies t@[j].1 == occurrences(post, t@[j].0) && t@[j].1 > 0 by {
                    if j < p {
                        assert(t@[j] == old_t[j]);
                    } else if j > p {
                        assert(t@[j] == old_t[j - 1]);
                    }
                }
                assert forall|x: u16| occurrences(post, x) > 0 implies exists|j: int| 0 <= j < t@.len() && t@[j].0 == x by {
                    if x == k {
                        assert(t@[p as int].0 == x);
                    } else {
                        let j = choose|j: int| 0 <= j < old_t.len() && old_t[j].0 == x;
                        if j < p {
                            assert(t@[j] == old_t[j]);
                        } else {
                            assert(t@[j + 1] == old_t[j]);
                        }
                    }
                }
            }
        }
        i = i + 1;
    }
    assert(keys@.subrange(0, keys@.len() as int) =~= keys@);
    t
}

} // verus!
