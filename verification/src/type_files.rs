//! The files the TDH enumerator writes per event type: keys made safe for file
//! names, the schema and observation file names, and the observation counts.

use vstd::prelude::*;
use crate::tdh_types::EventTypeInfo;
use crate::text::{chars_of, dec, owned, push_char, push_dec, push_str, text_eq};

verus! {

/// Whether `char::is_alphanumeric` holds of `c` (Unicode Alphabetic or Numeric).
pub uninterp spec fn alphanumeric(c: char) -> bool;

/// Calls `char::is_alphanumeric`. Its documentation defines it as Unicode
/// Alphabetic or Numeric; within ASCII that is exactly the letters and the
/// digits, which is all that is stated here of characters below U+0080. What it
/// gives for other characters is named, not stated.
#[verifier::external_body]
fn char_is_alphanumeric(c: char) -> (b: bool)
    ensures
        b == alphanumeric(c),
        (c as u32) < 128 ==> (b <==> ('a' <= c <= 'z' || 'A' <= c <= 'Z' || '0' <= c <= '9')),
{
    c.is_alphanumeric()
}

/// A character of a key as it appears in a file name: letters, digits and `_`
/// are kept, anything else becomes `_`.
pub open spec fn file_char(c: char) -> char {
    if alphanumeric(c) || c == '_' {
        c
    } else {
        '_'
    }
}

/// A key made safe for a file name.
pub open spec fn sanitized(s: Seq<char>) -> Seq<char> {
    s.map_values(|c: char| file_char(c))
}

/// Making a key safe twice changes nothing more: a key that is already safe,
/// such as one built by `type_file_key`, names the same files.
pub proof fn law_sanitize_idempotent(s: Seq<char>)
    ensures
        sanitized(sanitized(s)) == sanitized(s),
{
    assert(sanitized(sanitized(s)) =~= sanitized(s));
}

/// Replaces every character but letters, digits and `_` by `_`.
pub fn sanitize_key(s: &str) -> (r: String)
    ensures
        r@ == sanitized(s@),
{
    let chars = chars_of(s);
    let mut r = String::new();
    let mut i: usize = 0;
    while i < chars.len()
        invariant
            i <= chars@.len(),
            chars@ == s@,
            r@ == chars@.subrange(0, i as int).map_values(|c: char| file_char(c)),
        decreases chars.len() - i,
    {
        let c = chars[i];
        let d = if char_is_alphanumeric(c) || c == '_' {
            c
        } else {
            '_'
        };
        push_char(&mut r, d);
        proof {
            assert(chars@.subrange(0, i + 1).map_values(|c: char| file_char(c)) =~= chars@.subrange(
                0,
                i as int,
            ).map_values(|c: char| file_char(c)).push(file_char(c)));
        }
        i = i + 1;
    }
    assert(chars@.subrange(0, chars@.len() as int) =~= chars@);
    r
}

/// `{provider}_{id}_v{version}_op{opcode}` with the provider name made safe.
pub open spec fn type_file_key_text(t: EventTypeInfo) -> Seq<char> {
    sanitized(t.provider_name@) + seq!['_'] + dec(t.event_id as nat) + "_v"@ + dec(t.version as nat) + "_op"@
        + dec(t.opcode as nat)
}

/// The key under which an event type's files are written.
pub fn type_file_key(info: &EventTypeInfo) -> (s: String)
    ensures
        s@ == type_file_key_text(*info),
{
    let mut s = sanitize_key(info.provider_name.as_str());
    let ghost start = s@;
    push_char(&mut s, '_');
    push_dec(&mut s, info.event_id as u64);
    push_str(&mut s, "_v");
    push_dec(&mut s, info.version as u64);
    push_str(&mut s, "_op");
    push_dec(&mut s, info.opcode as u64);
    assert(s@ =~= type_file_key_text(*info));
    s
}

/// `{prefix}/{key}_schema.json` with the key made safe.
pub open spec fn schema_path_text(prefix: Seq<char>, key: Seq<char>) -> Seq<char> {
    prefix + seq!['/'] + sanitized(key) + "_schema.json"@
}

/// `{prefix}/{key}_observations.jsonl` with the key made safe.
pub open spec fn observations_path_text(prefix: Seq<char>, key: Seq<char>) -> Seq<char> {
    prefix + seq!['/'] + sanitized(key) + "_observations.jsonl"@
}

/// The path of the schema file of an event type key.
pub fn schema_path(prefix: &str, key: &str) -> (p: String)
    ensures
        p@ == schema_path_text(prefix@, key@),
{
    let mut p = owned(prefix);
    push_char(&mut p, '/');
    let k = sanitize_key(key);
    push_str(&mut p, k.as_str());
    push_str(&mut p, "_schema.json");
    p
}

/// The path of the observations file of an event type key.
pub fn observations_path(prefix: &str, key: &str) -> (p: String)
    ensures
        p@ == observations_path_text(prefix@, key@),
{
    let mut p = owned(prefix);
    push_char(&mut p, '/');
    let k = sanitize_key(key);
    push_str(&mut p, k.as_str());
    push_str(&mut p, "_observations.jsonl");
    p
}

/// Observations counted per type key, in the order the keys first came.
#[derive(Debug, Clone)]
pub struct ObservationCounts {
    pub counts: Vec<(String, u64)>,
}

/// The count of `key` (0 when it has none).
pub open spec fn count_for(cs: Seq<(String, u64)>, key: Seq<char>) -> nat
    decreases cs.len(),
{
    if cs.len() == 0 {
        0
    } else if cs.last().0@ == key {
        cs.last().1 as nat
    } else {
        count_for(cs.drop_last(), key)
    }
}

/// No key is counted twice.
pub open spec fn keys_unique(cs: Seq<(String, u64)>) -> bool {
    forall|a: int, b: int| 0 <= a < b < cs.len() ==> cs[a].0@ != cs[b].0@
}

/// `key` has an entry.
pub open spec fn has_count(cs: Seq<(String, u64)>, key: Seq<char>) -> bool {
    exists|a: int| 0 <= a < cs.len() && cs[a].0@ == key
}

proof fn lemma_count_for_at(cs: Seq<(String, u64)>, a: int)
    requires
        keys_unique(cs),
        0 <= a < cs.len(),
    ensures
        count_for(cs, cs[a].0@) == cs[a].1,
    decreases cs.len(),
{
    if a < cs.len() - 1 {
        assert(cs.last().0@ != cs[a].0@);
        assert(cs.drop_last()[a] == cs[a]);
        lemma_count_for_at(cs.drop_last(), a);
    }
}

proof fn lemma_count_for_absent(cs: Seq<(String, u64)>, key: Seq<char>)
    requires
        !has_count(cs, key),
    ensures
        count_for(cs, key) == 0,
    decreases cs.len(),
{
    if cs.len() > 0 {
        assert(!has_count(cs.drop_last(), key)) by {
            if has_count(cs.drop_last(), key) {
                let a = choose|a: int| 0 <= a < cs.drop_last().len() && cs.drop_last()[a].0@ == key;
                assert(cs[a].0@ == key);
            }
        }
        assert(cs[cs.len() - 1].0@ != key);
        lemma_count_for_absent(cs.drop_last(), key);
    }
}

proof fn lemma_count_for_update(cs: Seq<(String, u64)>, a: int, e: (String, u64), key: Seq<char>)
    requires
        keys_unique(cs),
        0 <= a < cs.len(),
        e.0@ == cs[a].0@,
    ensures
        keys_unique(cs.update(a, e)),
        count_for(cs.update(a, e), key) == if key == e.0@ { e.1 as nat } else { count_for(cs, key) },
    decreases cs.len(),
{
    let u = cs.update(a, e);
    assert forall|x: int, y: int| 0 <= x < y < u.len() implies u[x].0@ != u[y].0@ by {
        assert(u[x].0@ == cs[x].0@ && u[y].0@ == cs[y].0@);
    }
    if a == cs.len() - 1 {
        assert(u.drop_last() =~= cs.drop_last());
        if key != e.0@ {
            assert(u.last().0@ == cs.last().0@);
        }
    } else {
        assert(u.drop_last() =~= cs.drop_last().update(a, e));
        assert(u.last() == cs.last());
        assert(cs.last().0@ != cs[a].0@);
        lemma_count_for_update(cs.drop_last(), a, e, key);
    }
}

impl ObservationCounts {
    /// No type counted yet.
    pub fn new() -> (o: Self)
        ensures
            o.counts@.len() == 0,
    {
        ObservationCounts { counts: Vec::new() }
    }

    /// Makes `key` known with its count unchanged (0 for a new key): a new type
    /// was announced.
    pub fn register(&mut self, key: &String)
        requires
            keys_unique(old(self).counts@),
        ensures
            keys_unique(final(self).counts@),
            has_count(final(self).counts@, key@),
            forall|k: Seq<char>| #[trigger] count_for(final(self).counts@, k) == count_for(old(self).counts@, k),
            forall|k: Seq<char>| k != key@ ==> (#[trigger] has_count(final(self).counts@, k) == has_count(old(self).counts@, k)),
    {
        let mut a: usize = 0;
        while a < self.counts.len()
            invariant
                a <= self.counts@.len(),
                self.counts@ == old(self).counts@,
                keys_unique(self.counts@),
                forall|m: int| 0 <= m < a ==> self.counts@[m].0@ != key@,
            decreases self.counts.len() - a,
        {
            if text_eq(self.counts[a].0.as_str(), key.as_str()) {
                assert(self.counts@[a as int].0@ == key@);
                return;
            }
            a = a + 1;
        }
        let ghost before = self.counts@;
        proof {
            assert(!has_count(before, key@));
            lemma_count_for_absent(before, key@);
        }
        self.counts.push((key.clone(), 0));
        proof {
            let n = self.counts@;
            assert(n.drop_last() =~= before);
            assert(n[before.len() as int].0@ == key@);
            assert forall|x: int, y: int| 0 <= x < y < n.len() implies n[x].0@ != n[y].0@ by {
                if y == before.len() {
                    assert(n[x] == before[x]);
                } else {
                    assert(n[x] == before[x] && n[y] == before[y]);
                }
            }
            assert forall|k: Seq<char>| k != key@ implies (#[trigger] has_count(n, k) == has_count(before, k)) by {
                if has_count(n, k) {
                    let x = choose|x: int| 0 <= x < n.len() && n[x].0@ == k;
                    assert(x < before.len() && n[x] == before[x]);
                }
                if has_count(before, k) {
                    let x = choose|x: int| 0 <= x < before.len() && before[x].0@ == k;
                    assert(n[x] == before[x]);
                }
            }
        }
    }

    /// The number of observations counted for `key` (0 for a key never counted).
    pub fn observed(&self, key: &String) -> (n: u64)
        requires
            keys_unique(self.counts@),
        ensures
            n == count_for(self.counts@, key@),
    {
        let mut a: usize = 0;
        while a < self.counts.len()
            invariant
                a <= self.counts@.len(),
                keys_unique(self.counts@),
                forall|m: int| 0 <= m < a ==> self.counts@[m].0@ != key@,
            decreases self.counts.len() - a,
        {
            if text_eq(self.counts[a].0.as_str(), key.as_str()) {
                proof {
                    lemma_count_for_at(self.counts@, a as int);
                }
                return self.counts[a].1;
            }
            a = a + 1;
        }
        proof {
            lemma_count_for_absent(self.counts@, key@);
        }
        0
    }

    /// Counts one more observation of `key`.
    pub fn count(&mut self, key: &String)
        requires
            keys_unique(old(self).counts@),
            count_for(old(self).counts@, key@) < u64::MAX,
        ensures
            keys_unique(final(self).counts@),
            count_for(final(self).counts@, key@) == count_for(old(self).counts@, key@) + 1,
            forall|k: Seq<char>| k != key@ ==> #[trigger] count_for(final(self).counts@, k) == count_for(old(self).counts@, k),
            forall|k: Seq<char>| #[trigger] has_count(final(self).counts@, k) == (has_count(old(self).counts@, k) || k == key@),
    {
        self.register(key);
        let ghost mid = self.counts@;
        let mut a: usize = 0;
        while a < self.counts.len() && !text_eq(self.counts[a].0.as_str(), key.as_str())
            invariant
                a <= self.counts@.len(),
                self.counts@ == mid,
                forall|m: int| 0 <= m < a ==> self.counts@[m].0@ != key@,
            decreases self.counts.len() - a,
        {
            a = a + 1;
        }
        if a < self.counts.len() {
            proof {
                lemma_count_for_at(mid, a as int);
            }
            let n = self.counts[a].1 + 1;
            let e = (self.counts[a].0.clone(), n);
            self.counts.set(a, e);
            proof {
                assert forall|k: Seq<char>| true implies #[trigger] count_for(self.counts@, k) == if k == e.0@ {
                    e.1 as nat
                } else {
                    count_for(mid, k)
                } by {
                    lemma_count_for_update(mid, a as int, e, k);
                }
                lemma_count_for_update(mid, a as int, e, key@);
                assert forall|k: Seq<char>| #[trigger] has_count(self.counts@, k) == has_count(mid, k) by {
                    if has_count(self.counts@, k) {
                        let x = choose|x: int| 0 <= x < self.counts@.len() && self.counts@[x].0@ == k;
                        assert(mid[x].0@ == k);
                    }
                    if has_count(mid, k) {
                        let x = choose|x: int| 0 <= x < mid.len() && mid[x].0@ == k;
                        assert(self.counts@[x].0@ == k);
                    }
                }
            }
        } else {
            proof {
                assert(has_count(mid, key@));
                let x = choose|x: int| 0 <= x < mid.len() && mid[x].0@ == key@;
                assert(mid[x].0@ != key@);
            }
        }
    }
}

} // verus!
