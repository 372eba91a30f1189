//! Flag discovery: which EnableFlags / group-mask flags, alone or combined, make
//! the kernel emit each FileIo event type.
//!
//! The runs themselves (sessions, file operations, waiting) are done by the
//! caller; the functions here decide what to run and what the runs showed.

use vstd::prelude::*;
use std::collections::HashSet;
use crate::fileio_registry::{FileIoEventDef, event_registry, registry};
use crate::flag_comparison::FileIoRawEvent;
use crate::group_mask::{build_group_mask, mask_word, zero_masks};
use crate::text::{dec, join, join_strings, owned, push_dec, push_str, str_views, string_of, chars_of};

verus! {

broadcast use vstd::std_specs::hash::group_hash_axioms;

/// A flag under test: an EnableFlags bit or a group-mask value.
#[derive(Debug, Clone)]
pub struct Flag {
    pub name: String,
    pub enable_flags: Option<u32>,
    pub group_mask: Option<u32>,
}

/// The flags under test: name, EnableFlags value, group-mask value.
pub open spec fn flag_table() -> Seq<(Seq<char>, Option<u32>, Option<u32>)> {
    seq![
        ("EF:DISK_FILE_IO"@, Some(0x00000200u32), None),
        ("EF:FILE_IO"@, Some(0x02000000u32), None),
        ("EF:FILE_IO_INIT"@, Some(0x04000000u32), None),
        ("EF:VAMAP"@, Some(0x00008000u32), None),
        ("GM:PERF_FILENAME"@, None, Some(0x00000200u32)),
        ("GM:PERF_FILE_IO"@, None, Some(0x02000000u32)),
        ("GM:PERF_FILE_IO_INIT"@, None, Some(0x04000000u32)),
        ("GM:PERF_VAMAP"@, None, Some(0x00008000u32)),
        ("GM:PERF_FLT_IO_INIT"@, None, Some(0x80080000u32)),
        ("GM:PERF_FLT_IO"@, None, Some(0x80100000u32)),
        ("GM:PERF_FLT_FASTIO"@, None, Some(0x80200000u32)),
        ("GM:PERF_FLT_IO_FAILURE"@, None, Some(0x80400000u32)),
    ]
}

/// A flag as a (name, EnableFlags, group mask) triple.
pub open spec fn flag_view(f: Flag) -> (Seq<char>, Option<u32>, Option<u32>) {
    (f.name@, f.enable_flags, f.group_mask)
}

fn flag(name: &str, enable_flags: Option<u32>, group_mask: Option<u32>) -> (f: Flag)
    ensures
        flag_view(f) == (name@, enable_flags, group_mask),
{
    Flag { name: owned(name), enable_flags, group_mask }
}

/// The twelve flags under test, EnableFlags first.
pub fn build_all_flags() -> (flags: Vec<Flag>)
    ensures
        flags@.map_values(|f: Flag| flag_view(f)) == flag_table(),
{
    let mut v: Vec<Flag> = Vec::new();
    v.push(flag("EF:DISK_FILE_IO", Some(0x00000200), None));
    v.push(flag("EF:FILE_IO", Some(0x02000000), None));
    v.push(flag("EF:FILE_IO_INIT", Some(0x04000000), None));
    v.push(flag("EF:VAMAP", Some(0x00008000), None));
    v.push(flag("GM:PERF_FILENAME", None, Some(0x00000200)));
    v.push(flag("GM:PERF_FILE_IO", None, Some(0x02000000)));
    v.push(flag("GM:PERF_FILE_IO_INIT", None, Some(0x04000000)));
    v.push(flag("GM:PERF_VAMAP", None, Some(0x00008000)));
    v.push(flag("GM:PERF_FLT_IO_INIT", None, Some(0x80080000)));
    v.push(flag("GM:PERF_FLT_IO", None, Some(0x80100000)));
    v.push(flag("GM:PERF_FLT_FASTIO", None, Some(0x80200000)));
    v.push(flag("GM:PERF_FLT_IO_FAILURE", None, Some(0x80400000)));
    assert(v@.map_values(|f: Flag| flag_view(f)) =~= flag_table());
    v
}

/// A trace session to run: its name, EnableFlags and group mask.
#[derive(Debug, Clone)]
pub struct TraceConfig {
    pub session_name: String,
    pub enable_flags: Option<u32>,
    pub group_mask: Option<[u32; 8]>,
}

/// All indices are flags of `flags`.
pub open spec fn indices_valid(flags: Seq<Flag>, indices: Seq<usize>) -> bool {
    forall|j: int| 0 <= j < indices.len() ==> indices[j] < flags.len()
}

/// The EnableFlags bits of the chosen flags, or-ed together.
pub open spec fn enable_bits(flags: Seq<Flag>, indices: Seq<usize>) -> u32
    decreases indices.len(),
{
    if indices.len() == 0 {
        0
    } else {
        enable_bits(flags, indices.drop_last()) | match flags[indices.last() as int].enable_flags {
            Some(v) => v,
            None => 0u32,
        }
    }
}

/// The group-mask values of the chosen flags, or-ed together.
pub open spec fn group_bits(flags: Seq<Flag>, indices: Seq<usize>) -> u32
    decreases indices.len(),
{
    if indices.len() == 0 {
        0
    } else {
        group_bits(flags, indices.drop_last()) | match flags[indices.last() as int].group_mask {
            Some(v) => v,
            None => 0u32,
        }
    }
}

/// A flag name made safe for a session name: `:` and `+` become `_`.
pub open spec fn session_safe(name: Seq<char>) -> Seq<char> {
    name.map_values(|c: char| if c == ':' || c == '+' { '_' } else { c })
}

/// The names of the chosen flags.
pub open spec fn chosen_names(flags: Seq<Flag>, indices: Seq<usize>) -> Seq<Seq<char>> {
    Seq::new(indices.len(), |j: int| flags[indices[j] as int].name@)
}

/// The session name of a combination: `FlagDiscovery-` and the safe names joined by `__`.
pub open spec fn session_name_text(flags: Seq<Flag>, indices: Seq<usize>) -> Seq<char> {
    "FlagDiscovery-"@ + join(
        Seq::new(indices.len(), |j: int| session_safe(flags[indices[j] as int].name@)),
        "__"@,
    )
}

fn safe_name(name: &String) -> (s: String)
    ensures
        s@ == session_safe(name@),
{
    let chars = chars_of(name.as_str());
    let mut out: Vec<char> = Vec::new();
    let mut i: usize = 0;
    while i < chars.len()
        invariant
            i <= chars@.len(),
            chars@ == name@,
            out@ == session_safe(chars@.subrange(0, i as int)),
        decreases chars.len() - i,
    {
        let c = chars[i];
        if c == ':' || c == '+' {
            out.push('_');
        } else {
            out.push(c);
        }
        i = i + 1;
        assert(out@ =~= session_safe(chars@.subrange(0, i as int)));
    }
    assert(chars@.subrange(0, chars@.len() as int) =~= chars@);
    string_of(&out)
}

/// The trace configuration of a combination of flags: the or of their
/// EnableFlags and of their group-mask values (each absent when zero), under a
/// session name built from the flag names.
pub fn merge_flags(flags: &Vec<Flag>, indices: &Vec<usize>) -> (c: TraceConfig)
    requires
        indices_valid(flags@, indices@),
    ensures
        c.session_name@ == session_name_text(flags@, indices@),
        c.enable_flags == (if enable_bits(flags@, indices@) != 0 {
            Some(enable_bits(flags@, indices@))
        } else {
            None
        }),
        match c.group_mask {
            Some(m) => group_bits(flags@, indices@) != 0 && m@ == zero_masks().update(
                mask_word(group_bits(flags@, indices@)),
                group_bits(flags@, indices@),
            ),
            None => group_bits(flags@, indices@) == 0,
        },
{
    let mut enable: u32 = 0;
    let mut group: u32 = 0;
    let mut names: Vec<String> = Vec::new();
    let mut i: usize = 0;
    while i < indices.len()
        invariant
            i <= indices@.len(),
            indices_valid(flags@, indices@),
            enable == enable_bits(flags@, indices@.subrange(0, i as int)),
            group == group_bits(flags@, indices@.subrange(0, i as int)),
            names@.len() == i,
            str_views(names@) == Seq::new(i as nat, |j: int| session_safe(flags@[indices@[j] as int].name@)),
        decreases indices.len() - i,
    {
        let idx = indices[i];
        proof {
            assert(indices@.subrange(0, i + 1).drop_last() =~= indices@.subrange(0, i as int));
        }
        match flags[idx].enable_flags {
            Some(ef) => {
                enable = enable | ef;
            },
            None => {
                enable = enable | 0;
            },
        }
        match flags[idx].group_mask {
            Some(gm) => {
                group = group | gm;
            },
            None => {
                group = group | 0;
            },
        }
        let ghost before = names@;
        let nm = safe_name(&flags[idx].name);
        names.push(nm);
        proof {
            assert forall|j: int| 0 <= j < i + 1 implies #[trigger] str_views(names@)[j]
                == session_safe(flags@[indices@[j] as int].name@) by {
                if j < i {
                    assert(names@[j] == before[j]);
                    assert(str_views(before)[j] == before[j]@);
                }
            }
        }
        i = i + 1;
        assert(str_views(names@) =~= Seq::new(i as nat, |j: int| session_safe(flags@[indices@[j] as int].name@)));
    }
    assert(indices@.subrange(0, indices@.len() as int) =~= indices@);
    let mut session_name = owned("FlagDiscovery-");
    let joined = join_strings(&names, "__");
    push_str(&mut session_name, joined.as_str());
    TraceConfig {
        session_name,
        enable_flags: if enable != 0 { Some(enable) } else { None },
        group_mask: if group != 0 { Some(build_group_mask(group)) } else { None },
    }
}

pub(crate) fn names_of(flags: &Vec<Flag>, indices: &Vec<usize>) -> (names: Vec<String>)
    requires
        indices_valid(flags@, indices@),
    ensures
        str_views(names@) == chosen_names(flags@, indices@),
{
    let mut names: Vec<String> = Vec::new();
    let mut i: usize = 0;
    while i < indices.len()
        invariant
            i <= indices@.len(),
            indices_valid(flags@, indices@),
            names@.len() == i,
            str_views(names@) == Seq::new(i as nat, |j: int| flags@[indices@[j] as int].name@),
        decreases indices.len() - i,
    {
        let ghost before = names@;
        let nm = flags[indices[i]].name.clone();
        names.push(nm);
        proof {
            assert forall|j: int| 0 <= j < i + 1 implies #[trigger] str_views(names@)[j]
                == flags@[indices@[j] as int].name@ by {
                if j < i {
                    assert(names@[j] == before[j]);
                    assert(str_views(before)[j] == before[j]@);
                }
            }
        }
        i = i + 1;
        assert(str_views(names@) =~= Seq::new(i as nat, |j: int| flags@[indices@[j] as int].name@));
    }
    names
}

/// The display name of a combination: the flag names joined by ` + `.
pub fn combo_name(flags: &Vec<Flag>, indices: &Vec<usize>) -> (s: String)
    requires
        indices_valid(flags@, indices@),
    ensures
        s@ == join(chosen_names(flags@, indices@), " + "@),
{
    let names = names_of(flags, indices);
    join_strings(&names, " + ")
}

/// The sort key of a combination: the flag names joined by `+`.
pub fn combo_key(flags: &Vec<Flag>, indices: &Vec<usize>) -> (s: String)
    requires
        indices_valid(flags@, indices@),
    ensures
        s@ == join(chosen_names(flags@, indices@), "+"@),
{
    let names = names_of(flags, indices);
    join_strings(&names, "+")
}

/// One event type to discover: an opcode with the name and class of its
/// highest known version.
#[derive(Debug, Clone, Copy)]
pub struct EventTypeInfo {
    pub opcode: u8,
    pub event_name: &'static str,
    pub class_name: &'static str,
}

/// Registry entry `i` is the last one of its event id (the registry is ordered
/// by id, then version).
pub open spec fn last_of_id(i: int) -> bool {
    i == registry().len() - 1 || registry()[i + 1].event_id != registry()[i].event_id
}

/// The event type of a registry entry.
pub open spec fn type_of(e: FileIoEventDef) -> EventTypeInfo {
    EventTypeInfo { opcode: e.event_id as u8, event_name: e.event_name, class_name: e.class_name }
}

/// The event types of the first `n` registry entries: one per event id, from the
/// last entry of that id.
pub open spec fn types_upto(n: int) -> Seq<EventTypeInfo>
    decreases n,
{
    if n <= 0 {
        Seq::empty()
    } else if last_of_id(n - 1) {
        types_upto(n - 1).push(type_of(registry()[n - 1]))
    } else {
        types_upto(n - 1)
    }
}

/// The event types to discover: one per opcode of the registry, ascending, named
/// after the opcode's highest known version.
pub fn build_event_types() -> (types: Vec<EventTypeInfo>)
    ensures
        types@ == types_upto(registry().len() as int),
{
    let defs = event_registry();
    let mut types: Vec<EventTypeInfo> = Vec::new();
    let mut i: usize = 0;
    while i < defs.len()
        invariant
            i <= defs@.len(),
            defs@ == registry(),
            types@ == types_upto(i as int),
        decreases defs.len() - i,
    {
        let e = defs[i];
        if i + 1 == defs.len() || defs[i + 1].event_id != e.event_id {
            types.push(EventTypeInfo { opcode: e.event_id as u8, event_name: e.event_name, class_name: e.class_name });
        }
        i = i + 1;
    }
    types
}

/// The entry of the last registry index `i` of an id has the highest version of
/// that id.
pub proof fn law_event_type_is_highest_version(i: int, j: int)
    requires
        0 <= i < registry().len(),
        0 <= j < registry().len(),
        last_of_id(i),
        registry()[j].event_id == registry()[i].event_id,
    ensures
        registry()[j].version <= registry()[i].version,
{
    crate::fileio_registry::lemma_registry_sorted();
    if j > i {
        assert(crate::fileio_registry::reg_rank(registry()[i]) < crate::fileio_registry::reg_rank(registry()[i + 1]));
        assert(crate::fileio_registry::reg_rank(registry()[i + 1]) <= crate::fileio_registry::reg_rank(registry()[j])) by {
            if i + 1 < j {
                assert(crate::fileio_registry::reg_rank(registry()[i + 1]) < crate::fileio_registry::reg_rank(registry()[j]));
            }
        }
    } else if j < i {
        assert(crate::fileio_registry::reg_rank(registry()[j]) < crate::fileio_registry::reg_rank(registry()[i]));
    }
}

/// The registry has an entry for opcode `op`.
pub open spec fn opcode_known(op: u8) -> bool {
    exists|i: int| 0 <= i < registry().len() && registry()[i].event_id == op
}

/// The registry entry for `op` with the highest version, if there is one.
pub fn canonical_def(op: u8) -> (r: Option<FileIoEventDef>)
    ensures
        r is None <==> !opcode_known(op),
        r matches Some(e) ==> (exists|i: int| 0 <= i < registry().len() && registry()[i] == e)
            && e.event_id == op && forall|j: int|
            0 <= j < registry().len() && registry()[j].event_id == op ==> registry()[j].version
                <= e.version,
{
    let defs = event_registry();
    let mut best: Option<FileIoEventDef> = None;
    let mut i: usize = 0;
    while i < defs.len()
        invariant
            i <= defs@.len(),
            defs@ == registry(),
            best is None <==> !(exists|j: int| 0 <= j < i && registry()[j].event_id == op),
            best matches Some(e) ==> (exists|j: int| 0 <= j < i && registry()[j] == e) && e.event_id == op
                && forall|j: int| 0 <= j < i && registry()[j].event_id == op ==> registry()[j].version <= e.version,
        decreases defs.len() - i,
    {
        let e = defs[i];
        if e.event_id == op as u16 {
            match best {
                None => {
                    best = Some(e);
                },
                Some(b) => {
                    if e.version >= b.version {
                        best = Some(e);
                    }
                },
            }
        }
        i = i + 1;
    }
    best
}

/// The highest registry version of opcode `op`, if the registry knows it.
pub fn max_known_version(op: u8) -> (r: Option<u8>)
    ensures
        r is None <==> !opcode_known(op),
        r matches Some(v) ==> (exists|i: int| 0 <= i < registry().len() && registry()[i].event_id == op
            && registry()[i].version == v) && forall|j: int|
            0 <= j < registry().len() && registry()[j].event_id == op ==> registry()[j].version <= v,
{
    match canonical_def(op) {
        Some(e) => Some(e.version),
        None => None,
    }
}

/// An (opcode, version) pair seen in some run: how often, and the first flag
/// combination that produced it.
#[derive(Debug, Clone)]
pub struct ObservedPair {
    pub opcode: u8,
    pub version: u8,
    pub count: u64,
    pub first_combo: Vec<usize>,
}

/// Every (opcode, version) pair observed across all runs.
#[derive(Debug, Clone)]
pub struct ObservedTrace {
    pub pairs: Vec<ObservedPair>,
}

/// Entry `j` of `ps` is the pair (`op`, `ver`).
pub open spec fn is_pair(ps: Seq<ObservedPair>, j: int, op: u8, ver: u8) -> bool {
    0 <= j < ps.len() && ps[j].opcode == op && ps[j].version == ver
}

/// No two entries of `ps` are the same pair.
pub open spec fn pairs_distinct(ps: Seq<ObservedPair>) -> bool {
    forall|j: int, l: int|
        0 <= j < l < ps.len() ==> !(ps[j].opcode == ps[l].opcode && ps[j].version == ps[l].version)
}

/// The count recorded for (`op`, `ver`): 0 when the pair was never seen.
pub open spec fn observed_count(ps: Seq<ObservedPair>, op: u8, ver: u8) -> nat {
    if exists|j: int| is_pair(ps, j, op, ver) {
        ps[choose|j: int| is_pair(ps, j, op, ver)].count as nat
    } else {
        0
    }
}

/// Number of events of `s` with opcode `op` and version `ver`.
pub open spec fn pair_occurrences(s: Seq<FileIoRawEvent>, op: u8, ver: u8) -> nat
    decreases s.len(),
{
    if s.len() == 0 {
        0
    } else {
        pair_occurrences(s.drop_last(), op, ver) + if s.last().opcode == op && s.last().version == ver {
            1nat
        } else {
            0nat
        }
    }
}

proof fn lemma_pair_unique(ps: Seq<ObservedPair>, j: int, op: u8, ver: u8)
    requires
        pairs_distinct(ps),
        is_pair(ps, j, op, ver),
    ensures
        observed_count(ps, op, ver) == ps[j].count,
        forall|l: int| is_pair(ps, l, op, ver) ==> l == j,
{
    let c = choose|l: int| is_pair(ps, l, op, ver);
    assert forall|l: int| is_pair(ps, l, op, ver) implies l == j by {
        if l < j {
            assert(!(ps[l].opcode == ps[j].opcode && ps[l].version == ps[j].version));
        } else if l > j {
            assert(!(ps[j].opcode == ps[l].opcode && ps[j].version == ps[l].version));
        }
    }
    assert(c == j);
}

pub(crate) fn copy_indices(v: &Vec<usize>) -> (r: Vec<usize>)
    ensures
        r@ == v@,
{
    let mut r: Vec<usize> = Vec::new();
    let mut i: usize = 0;
    while i < v.len()
        invariant
            i <= v@.len(),
            r@ == v@.subrange(0, i as int),
        decreases v.len() - i,
    {
        r.push(v[i]);
        i = i + 1;
        assert(r@ =~= v@.subrange(0, i as int));
    }
    assert(v@.subrange(0, v@.len() as int) =~= v@);
    r
}

impl ObservedTrace {
    /// Nothing observed yet.
    pub fn new() -> (t: Self)
        ensures
            t.pairs@.len() == 0,
    {
        ObservedTrace { pairs: Vec::new() }
    }

    /// Adds the events of one run of combination `indices`: each pair's count
    /// grows by its events, and a pair seen for the first time remembers
    /// `indices` as its first combination.
    #[verifier::spinoff_prover]
    pub fn record_run(&mut self, events: &Vec<FileIoRawEvent>, indices: &Vec<usize>)
        requires
            pairs_distinct(old(self).pairs@),
            forall|op: u8, ver: u8| observed_count(old(self).pairs@, op, ver) + pair_occurrences(events@, op, ver)
                <= u64::MAX,
        ensures
            pairs_distinct(final(self).pairs@),
            forall|op: u8, ver: u8| #[trigger] observed_count(final(self).pairs@, op, ver) == observed_count(
                old(self).pairs@,
                op,
                ver,
            ) + pair_occurrences(events@, op, ver),
            forall|op: u8, ver: u8, j: int| #[trigger] is_pair(final(self).pairs@, j, op, ver) ==> (if exists|l: int|
                is_pair(old(self).pairs@, l, op, ver) {
                final(self).pairs@[j].first_combo@ == old(self).pairs@[choose|l: int|
                    is_pair(old(self).pairs@, l, op, ver)].first_combo@
            } else {
                final(self).pairs@[j].first_combo@ == indices@
            }),
            forall|op: u8, ver: u8| (exists|j: int| #[trigger] is_pair(final(self).pairs@, j, op, ver)) == ((exists|j: int|
                is_pair(old(self).pairs@, j, op, ver)) || pair_occurrences(events@, op, ver) > 0),
    {
        let ghost start = self.pairs@;
        let mut i: usize = 0;
        while i < events.len()
            invariant
                i <= events@.len(),
                pairs_distinct(self.pairs@),
                forall|op: u8, ver: u8| observed_count(start, op, ver) + pair_occurrences(events@, op, ver)
                    <= u64::MAX,
                forall|op: u8, ver: u8| #[trigger] observed_count(self.pairs@, op, ver) == observed_count(start, op, ver)
                    + pair_occurrences(events@.subrange(0, i as int), op, ver),
                forall|op: u8, ver: u8, j: int| #[trigger] is_pair(self.pairs@, j, op, ver) ==> (if exists|l: int|
                    is_pair(start, l, op, ver) {
                    self.pairs@[j].first_combo@ == start[choose|l: int| is_pair(start, l, op, ver)].first_combo@
                } else {
                    self.pairs@[j].first_combo@ == indices@
                }),
                forall|op: u8, ver: u8| (exists|j: int| #[trigger] is_pair(self.pairs@, j, op, ver)) == ((exists|j: int|
                    is_pair(start, j, op, ver)) || pair_occurrences(events@.subrange(0, i as int), op, ver) > 0),
            decreases events.len() - i,
        {
            let op = events[i].opcode;
            let ver = events[i].version;
            let ghost pre = events@.subrange(0, i as int);
            let ghost post = events@.subrange(0, i + 1);
            proof {
                assert(post.drop_last() =~= pre);
                assert(post.last() == events@[i as int]);
                lemma_occurrences_grow(events@, i as int + 1, op, ver);
            }
            let mut p: usize = 0;
            while p < self.pairs.len() && !(self.pairs[p].opcode == op && self.pairs[p].version == ver)
                invariant
                    p <= self.pairs@.len(),
                    forall|m: int| 0 <= m < p ==> !is_pair(self.pairs@, m, op, ver),
                decreases self.pairs.len() - p,
            {
                p = p + 1;
            }
            let ghost before = self.pairs@;
            if p < self.pairs.len() {
                proof {
                    lemma_pair_unique(before, p as int, op, ver);
                }
                let e = self.pairs.remove(p);
                let updated = ObservedPair { opcode: e.opcode, version: e.version, count: e.count + 1, first_combo: e.first_combo };
                self.pairs.insert(p, updated);
                proof {
                    assert(self.pairs@ == before.update(p as int, updated));
                    assert forall|o: u8, v: u8, j: int| is_pair(self.pairs@, j, o, v) <==> is_pair(before, j, o, v) by {}
                    assert forall|o: u8, v: u8, j: int| #[trigger] is_pair(self.pairs@, j, o, v) implies (if exists|l: int|
                        is_pair(start, l, o, v) {
                        self.pairs@[j].first_combo@ == start[choose|l: int| is_pair(start, l, o, v)].first_combo@
                    } else {
                        self.pairs@[j].first_combo@ == indices@
                    }) by {
                        assert(is_pair(before, j, o, v));
                        assert(self.pairs@[j].first_combo == before[j].first_combo);
                    }
                    assert forall|o: u8, v: u8| #[trigger] observed_count(self.pairs@, o, v) == observed_count(start, o, v)
                        + pair_occurrences(post, o, v) by {
                        assert(observed_count(before, o, v) == observed_count(start, o, v) + pair_occurrences(pre, o, v));
                        if exists|j: int| is_pair(before, j, o, v) {
                            let j = choose|j: int| is_pair(before, j, o, v);
                            lemma_pair_unique(before, j, o, v);
                            lemma_pair_unique(self.pairs@, j, o, v);
                        } else {
                            if exists|j: int| is_pair(self.pairs@, j, o, v) {
                                let j = choose|j: int| is_pair(self.pairs@, j, o, v);
                                assert(is_pair(before, j, o, v));
                            }
                            assert(!(o == op && v == ver));
                        }
                    }
                    assert forall|o: u8, v: u8| (exists|j: int| #[trigger] is_pair(self.pairs@, j, o, v)) == ((exists|j: int|
                        is_pair(start, j, o, v)) || pair_occurrences(post, o, v) > 0) by {
                        assert((exists|j: int| is_pair(before, j, o, v)) == ((exists|j: int|
                            is_pair(start, j, o, v)) || pair_occurrences(pre, o, v) > 0));
                        assert(pair_occurrences(post, o, v) == pair_occurrences(pre, o, v) + if o == op && v == ver {
                            1nat
                        } else {
                            0nat
                        });
                        if exists|j: int| is_pair(before, j, o, v) {
                            let j = choose|j: int| is_pair(before, j, o, v);
                            assert(is_pair(self.pairs@, j, o, v));
                        }
                        if exists|j: int| is_pair(self.pairs@, j, o, v) {
                            let j = choose|j: int| is_pair(self.pairs@, j, o, v);
                            assert(is_pair(before, j, o, v));
                        }
                        if o == op && v == ver {
                            assert(is_pair(before, p as int, o, v));
                        }
                    }
                }
            } else {
                let combo = copy_indices(indices);
                self.pairs.push(ObservedPair { opcode: op, version: ver, count: 1, first_combo: combo });
                proof {
                    assert(self.pairs@.drop_last() == before);
                    assert(!(exists|j: int| is_pair(before, j, op, ver)));
                    assert(pair_occurrences(pre, op, ver) == 0);
                    assert(pairs_distinct(self.pairs@)) by {
                        assert forall|j: int, l: int| 0 <= j < l < self.pairs@.len() implies !(self.pairs@[j].opcode
                            == self.pairs@[l].opcode && self.pairs@[j].version == self.pairs@[l].version) by {
                            if l == before.len() {
                                assert(!is_pair(before, j, op, ver));
                            } else {
                                assert(self.pairs@[j] == before[j] && self.pairs@[l] == before[l]);
                            }
                        }
                    }
                    assert forall|o: u8, v: u8, j: int| #[trigger] is_pair(self.pairs@, j, o, v) <==> (is_pair(before, j, o, v)
                        || (j == before.len() && o == op && v == ver)) by {}
                    assert forall|o: u8, v: u8| #[trigger] observed_count(self.pairs@, o, v) == observed_count(start, o, v)
                        + pair_occurrences(post, o, v) by {
                        assert(observed_count(before, o, v) == observed_count(start, o, v) + pair_occurrences(pre, o, v));
                        if o == op && v == ver {
                            lemma_pair_unique(self.pairs@, before.len() as int, o, v);
                        } else if exists|j: int| is_pair(before, j, o, v) {
                            let j = choose|j: int| is_pair(before, j, o, v);
                            lemma_pair_unique(before, j, o, v);
                            lemma_pair_unique(self.pairs@, j, o, v);
                        } else {
                            assert(!(exists|j: int| is_pair(self.pairs@, j, o, v)));
                        }
                    }
                    assert(!(exists|l: int| is_pair(start, l, op, ver)));
                    assert forall|o: u8, v: u8| (exists|j: int| #[trigger] is_pair(self.pairs@, j, o, v)) == ((exists|j: int|
                        is_pair(start, j, o, v)) || pair_occurrences(post, o, v) > 0) by {
                        assert((exists|j: int| is_pair(before, j, o, v)) == ((exists|j: int|
                            is_pair(start, j, o, v)) || pair_occurrences(pre, o, v) > 0));
                        assert(pair_occurrences(post, o, v) == pair_occurrences(pre, o, v) + if o == op && v == ver {
                            1nat
                        } else {
                            0nat
                        });
                        if exists|j: int| is_pair(before, j, o, v) {
                            let j = choose|j: int| is_pair(before, j, o, v);
                            assert(is_pair(self.pairs@, j, o, v));
                        }
                        if exists|j: int| is_pair(self.pairs@, j, o, v) {
                            let j = choose|j: int| is_pair(self.pairs@, j, o, v);
                            if j < before.len() {
                                assert(is_pair(before, j, o, v));
                            }
                        }
                        if o == op && v == ver {
                            assert(is_pair(self.pairs@, before.len() as int, o, v));
                        }
                    }
                    assert forall|o: u8, v: u8, j: int| #[trigger] is_pair(self.pairs@, j, o, v) implies (if exists|l: int|
                        is_pair(start, l, o, v) {
                        self.pairs@[j].first_combo@ == start[choose|l: int| is_pair(start, l, o, v)].first_combo@
                    } else {
                        self.pairs@[j].first_combo@ == indices@
                    }) by {
                        if j < before.len() {
                            assert(is_pair(before, j, o, v));
                            assert(self.pairs@[j] == before[j]);
                        }
                    }
                }
            }
            i = i + 1;
        }
        assert(events@.subrange(0, events@.len() as int) =~= events@);
    }
}

proof fn lemma_occurrences_grow(s: Seq<FileIoRawEvent>, n: int, op: u8, ver: u8)
    requires
        0 <= n <= s.len(),
    ensures
        pair_occurrences(s.subrange(0, n), op, ver) <= pair_occurrences(s, op, ver),
    decreases s.len() - n,
{
    if n < s.len() {
        lemma_occurrences_grow(s, n + 1, op, ver);
        assert(s.subrange(0, n + 1).drop_last() =~= s.subrange(0, n));
    } else {
        assert(s.subrange(0, n) =~= s);
    }
}

/// The flag combinations of the smallest size found to produce one event type,
/// and the versions of it that were seen.
#[derive(Debug)]
pub struct EventDiscovery {
    pub best_size: usize,
    pub combinations: Vec<Vec<usize>>,
    pub observed_versions: HashSet<u8>,
}

/// The discovery record of one opcode.
#[derive(Debug)]
pub struct DiscoveredOpcode {
    pub opcode: u8,
    pub discovery: EventDiscovery,
}

/// A discovery record as (opcode, best size, combinations, versions).
pub open spec fn disc_view(d: DiscoveredOpcode) -> (u8, usize, Seq<Seq<usize>>, Set<u8>) {
    (
        d.opcode,
        d.discovery.best_size,
        d.discovery.combinations@.map_values(|c: Vec<usize>| c@),
        d.discovery.observed_versions@,
    )
}

/// All discovery records as views.
pub open spec fn disc_views(ds: Seq<DiscoveredOpcode>) -> Seq<(u8, usize, Seq<Seq<usize>>, Set<u8>)> {
    ds.map_values(|d: DiscoveredOpcode| disc_view(d))
}

/// No two records are for the same opcode.
pub open spec fn opcodes_distinct(vs: Seq<(u8, usize, Seq<Seq<usize>>, Set<u8>)>) -> bool {
    forall|j: int, l: int| 0 <= j < l < vs.len() ==> vs[j].0 != vs[l].0
}

/// One record after a run of `size` flags, combination `indices`, showed the
/// versions `versions`: a smaller size replaces the combinations, an equal size
/// adds a new combination, and the versions accumulate.
pub open spec fn update_entry(
    e: (u8, usize, Seq<Seq<usize>>, Set<u8>),
    size: usize,
    indices: Seq<usize>,
    versions: Set<u8>,
) -> (u8, usize, Seq<Seq<usize>>, Set<u8>) {
    let vs = e.3.union(versions);
    if size < e.1 {
        (e.0, size, seq![indices], vs)
    } else if size == e.1 && !e.2.contains(indices) {
        (e.0, e.1, e.2.push(indices), vs)
    } else {
        (e.0, e.1, e.2, vs)
    }
}

/// Position of the record for `op`, if any.
pub open spec fn has_record(vs: Seq<(u8, usize, Seq<Seq<usize>>, Set<u8>)>, op: u8) -> bool {
    exists|q: int| 0 <= q < vs.len() && vs[q].0 == op
}

/// The best size recorded for `op` (`usize::MAX` when there is no record).
pub open spec fn best_size_of(vs: Seq<(u8, usize, Seq<Seq<usize>>, Set<u8>)>, op: u8) -> usize {
    if has_record(vs, op) {
        vs[choose|q: int| 0 <= q < vs.len() && vs[q].0 == op].1
    } else {
        usize::MAX
    }
}

/// All records after one update for `op` (a new record is appended).
pub open spec fn update_all(
    vs: Seq<(u8, usize, Seq<Seq<usize>>, Set<u8>)>,
    op: u8,
    size: usize,
    indices: Seq<usize>,
    versions: Set<u8>,
) -> Seq<(u8, usize, Seq<Seq<usize>>, Set<u8>)> {
    if has_record(vs, op) {
        let q = choose|q: int| 0 <= q < vs.len() && vs[q].0 == op;
        vs.update(q, update_entry(vs[q], size, indices, versions))
    } else {
        vs.push(update_entry((op, usize::MAX, Seq::empty(), Set::empty()), size, indices, versions))
    }
}

/// A run never makes a best size worse: after the update of `op` by a run of
/// `size` flags, the best size of `op` is the smaller of its former best size
/// (`usize::MAX` without a record) and `size`; every other opcode keeps its own.
pub proof fn law_best_size_is_minimum(
    vs: Seq<(u8, usize, Seq<Seq<usize>>, Set<u8>)>,
    op: u8,
    size: usize,
    indices: Seq<usize>,
    versions: Set<u8>,
    other: u8,
)
    requires
        opcodes_distinct(vs),
    ensures
        best_size_of(update_all(vs, op, size, indices, versions), op) == if size < best_size_of(vs, op) {
            size
        } else {
            best_size_of(vs, op)
        },
        other != op ==> best_size_of(update_all(vs, op, size, indices, versions), other) == best_size_of(vs, other),
{
    let u = update_all(vs, op, size, indices, versions);
    if has_record(vs, op) {
        let q = choose|q: int| 0 <= q < vs.len() && vs[q].0 == op;
        assert(u == vs.update(q, update_entry(vs[q], size, indices, versions)));
        assert(u[q].0 == op);
        assert(has_record(u, op));
        let c = choose|c: int| 0 <= c < u.len() && u[c].0 == op;
        if c != q {
            assert(vs[c].0 == u[c].0);
            if c < q {
                assert(vs[c].0 != vs[q].0);
            } else {
                assert(vs[q].0 != vs[c].0);
            }
        }
        if other != op {
            if has_record(vs, other) {
                let p = choose|p: int| 0 <= p < vs.len() && vs[p].0 == other;
                assert(u[p] == vs[p]);
                assert(has_record(u, other));
                let d = choose|d: int| 0 <= d < u.len() && u[d].0 == other;
                if d != p {
                    assert(d != q);
                    assert(vs[d] == u[d]);
                    if d < p {
                        assert(vs[d].0 != vs[p].0);
                    } else {
                        assert(vs[p].0 != vs[d].0);
                    }
                }
            } else {
                assert(!has_record(u, other)) by {
                    if has_record(u, other) {
                        let d = choose|d: int| 0 <= d < u.len() && u[d].0 == other;
                        assert(d != q);
                        assert(vs[d] == u[d]);
                    }
                }
            }
        }
    } else {
        let n = vs.len() as int;
        assert(u == vs.push(update_entry((op, usize::MAX, Seq::empty(), Set::empty()), size, indices, versions)));
        assert(u[n].0 == op);
        assert(has_record(u, op));
        let c = choose|c: int| 0 <= c < u.len() && u[c].0 == op;
        if c != n {
            assert(vs[c] == u[c]);
            assert(has_record(vs, op));
        }
        if other != op {
            if has_record(vs, other) {
                let p = choose|p: int| 0 <= p < vs.len() && vs[p].0 == other;
                assert(u[p] == vs[p]);
                assert(has_record(u, other));
                let d = choose|d: int| 0 <= d < u.len() && u[d].0 == other;
                if d != p {
                    assert(d != n);
                    assert(vs[d] == u[d]);
                    if d < p {
                        assert(vs[d].0 != vs[p].0);
                    } else {
                        assert(vs[p].0 != vs[d].0);
                    }
                }
            } else {
                assert(!has_record(u, other)) by {
                    if has_record(u, other) {
                        let d = choose|d: int| 0 <= d < u.len() && u[d].0 == other;
                        assert(d != n);
                        assert(vs[d] == u[d]);
                    }
                }
            }
        }
    }
}

/// The first event type with opcode `op`.
pub open spec fn first_type_with(types: Seq<EventTypeInfo>, op: u8) -> Option<EventTypeInfo>
    decreases types.len(),
{
    if types.len() == 0 {
        None
    } else if types[0].opcode == op {
        Some(types[0])
    } else {
        first_type_with(types.drop_first(), op)
    }
}

/// `{name} [{class}] (Opcode={op})`: the announcement of a newly found event type.
pub open spec fn found_text(et: EventTypeInfo, op: u8) -> Seq<char> {
    et.event_name@ + " ["@ + et.class_name@ + "] (Opcode="@ + dec(op as nat) + ")"@
}

/// The announcements after an update: one when `op` gets a smaller best size and
/// has an event type.
pub open spec fn announce(
    texts: Seq<Seq<char>>,
    vs: Seq<(u8, usize, Seq<Seq<usize>>, Set<u8>)>,
    types: Seq<EventTypeInfo>,
    op: u8,
    size: usize,
) -> Seq<Seq<char>> {
    if size < best_size_of(vs, op) && first_type_with(types, op) is Some {
        texts.push(found_text(first_type_with(types, op)->0, op))
    } else {
        texts
    }
}

pub(crate) fn same_indices(a: &Vec<usize>, b: &Vec<usize>) -> (r: bool)
    ensures
        r == (a@ == b@),
{
    if a.len() != b.len() {
        return false;
    }
    let mut i: usize = 0;
    while i < a.len()
        invariant
            i <= a@.len(),
            a@.len() == b@.len(),
            forall|j: int| 0 <= j < i ==> a@[j] == b@[j],
        decreases a.len() - i,
    {
        if a[i] != b[i] {
            return false;
        }
        i = i + 1;
    }
    assert(a@ =~= b@);
    true
}

pub(crate) fn find_type(types: &Vec<EventTypeInfo>, op: u8) -> (r: Option<EventTypeInfo>)
    ensures
        r == first_type_with(types@, op),
{
    let mut i: usize = 0;
    assert(types@.subrange(0, types@.len() as int) =~= types@);
    while i < types.len()
        invariant
            i <= types@.len(),
            first_type_with(types@, op) == first_type_with(types@.subrange(i as int, types@.len() as int), op),
        decreases types.len() - i,
    {
        let ghost rest = types@.subrange(i as int, types@.len() as int);
        assert(rest[0] == types@[i as int]);
        assert(rest.drop_first() =~= types@.subrange(i + 1, types@.len() as int));
        if types[i].opcode == op {
            return Some(types[i]);
        }
        i = i + 1;
    }
    assert(types@.subrange(i as int, types@.len() as int) =~= Seq::<EventTypeInfo>::empty());
    None
}

/// Records what a run showed for `opcode`: the versions seen (`run_versions`)
/// join the record's versions; a smaller `size` than the best so far makes
/// `indices` the only combination of the new best size and announces the event
/// type; an equal size adds `indices` if it is new.
pub fn update_discovery(
    discovered: &mut Vec<DiscoveredOpcode>,
    opcode: u8,
    size: usize,
    indices: &Vec<usize>,
    run_versions: &Vec<u8>,
    event_types: &Vec<EventTypeInfo>,
    new_this_phase: &mut Vec<String>,
)
    requires
        opcodes_distinct(disc_views(old(discovered)@)),
    ensures
        opcodes_distinct(disc_views(final(discovered)@)),
        disc_views(final(discovered)@) == update_all(
            disc_views(old(discovered)@),
            opcode,
            size,
            indices@,
            run_versions@.to_set(),
        ),
        crate::text::str_views(final(new_this_phase)@) == announce(
            crate::text::str_views(old(new_this_phase)@),
            disc_views(old(discovered)@),
            event_types@,
            opcode,
            size,
        ),
{
    let ghost vs0 = disc_views(discovered@);
    let mut q: usize = 0;
    while q < discovered.len() && discovered[q].opcode != opcode
        invariant
            q <= discovered@.len(),
            forall|m: int| 0 <= m < q ==> discovered@[m].opcode != opcode,
        decreases discovered.len() - q,
    {
        q = q + 1;
    }
    let found = q < discovered.len();
    proof {
        if found {
            assert(vs0[q as int].0 == opcode);
            assert(has_record(vs0, opcode));
            let c = choose|c: int| 0 <= c < vs0.len() && vs0[c].0 == opcode;
            if c != q {
                if c < q {
                    assert(discovered@[c].opcode != opcode);
                } else {
                    assert(vs0[q as int].0 != vs0[c].0);
                }
            }
        } else {
            assert(!has_record(vs0, opcode)) by {
                if has_record(vs0, opcode) {
                    let c = choose|c: int| 0 <= c < vs0.len() && vs0[c].0 == opcode;
                    assert(discovered@[c].opcode != opcode);
                }
            }
        }
    }
    let mut e = if found {
        discovered.remove(q)
    } else {
        DiscoveredOpcode {
            opcode,
            discovery: EventDiscovery { best_size: usize::MAX, combinations: Vec::new(), observed_versions: HashSet::new() },
        }
    };
    let ghost e0 = disc_view(e);
    proof {
        if !found {
            assert(e0.2 =~= Seq::<Seq<usize>>::empty());
            assert(e0.3 =~= Set::<u8>::empty());
        }
    }
    // versions
    let mut k: usize = 0;
    while k < run_versions.len()
        invariant
            k <= run_versions@.len(),
            e.opcode == e0.0,
            e.discovery.best_size == e0.1,
            e.discovery.combinations@.map_values(|c: Vec<usize>| c@) == e0.2,
            e.discovery.observed_versions@ == e0.3.union(run_versions@.subrange(0, k as int).to_set()),
        decreases run_versions.len() - k,
    {
        let v = run_versions[k];
        e.discovery.observed_versions.insert(v);
        proof {
            let done = run_versions@.subrange(0, k as int);
            let next = run_versions@.subrange(0, k + 1);
            assert(next =~= done.push(v));
            assert(next.to_set() =~= done.to_set().insert(v)) by {
                assert forall|x: u8| next.to_set().contains(x) <==> done.to_set().insert(v).contains(x) by {
                    if next.to_set().contains(x) {
                        let y = choose|y: int| 0 <= y < next.len() && next[y] == x;
                        if y < done.len() {
                            assert(done[y] == x);
                        }
                    }
                    if done.to_set().contains(x) {
                        let y = choose|y: int| 0 <= y < done.len() && done[y] == x;
                        assert(next[y] == x);
                    }
                    if x == v {
                        assert(next[k as int] == x);
                    }
                }
            }
            assert(e.discovery.observed_versions@ =~= e0.3.union(next.to_set()));
        }
        k = k + 1;
    }
    assert(run_versions@.subrange(0, run_versions@.len() as int) =~= run_versions@);
    let ghost old_best = e.discovery.best_size;
    let ghost texts0 = crate::text::str_views(new_this_phase@);
    if size < e.discovery.best_size {
        e.discovery.best_size = size;
        let mut combos: Vec<Vec<usize>> = Vec::new();
        combos.push(copy_indices(indices));
        e.discovery.combinations = combos;
        assert(e.discovery.combinations@.map_values(|c: Vec<usize>| c@) =~= seq![indices@]);
        match find_type(event_types, opcode) {
            Some(et) => {
                let mut s = owned(et.event_name);
                push_str(&mut s, " [");
                push_str(&mut s, et.class_name);
                push_str(&mut s, "] (Opcode=");
                push_dec(&mut s, opcode as u64);
                push_str(&mut s, ")");
                new_this_phase.push(s);
                assert(crate::text::str_views(new_this_phase@) =~= texts0.push(found_text(et, opcode)));
            },
            None => {},
        }
    } else if size == e.discovery.best_size {
        let mut seen = false;
        let mut m: usize = 0;
        while m < e.discovery.combinations.len()
            invariant
                m <= e.discovery.combinations@.len(),
                e.discovery.combinations@.map_values(|c: Vec<usize>| c@) == e0.2,
                seen == (exists|x: int| 0 <= x < m && e0.2[x] == indices@),
            decreases e.discovery.combinations.len() - m,
        {
            assert(e0.2[m as int] == e.discovery.combinations@[m as int]@);
            if same_indices(&e.discovery.combinations[m], indices) {
                seen = true;
            }
            m = m + 1;
        }
        if !seen {
            let ghost before = e.discovery.combinations@;
            e.discovery.combinations.push(copy_indices(indices));
            assert(e.discovery.combinations@.map_values(|c: Vec<usize>| c@) =~= e0.2.push(indices@));
        } else {
            assert(e0.2.contains(indices@));
        }
    }
    let ghost e1 = disc_view(e);
    assert(e1 == update_entry(e0, size, indices@, run_versions@.to_set()));
    let ghost before_insert = discovered@;
    if found {
        discovered.insert(q, e);
        proof {
            assert(disc_views(discovered@) =~= vs0.update(q as int, e1));
            assert forall|a: int, b: int| 0 <= a < b < disc_views(discovered@).len() implies disc_views(discovered@)[a].0 != disc_views(discovered@)[b].0 by {
                assert(disc_views(discovered@)[a].0 == vs0[a].0);
                assert(disc_views(discovered@)[b].0 == vs0[b].0);
            }
        }
    } else {
        discovered.push(e);
        proof {
            assert(disc_views(discovered@) =~= vs0.push(e1));
            assert forall|a: int, b: int| 0 <= a < b < disc_views(discovered@).len() implies disc_views(discovered@)[a].0 != disc_views(discovered@)[b].0 by {
                if b == vs0.len() {
                    assert(vs0[a].0 != opcode);
                } else {
                    assert(disc_views(discovered@)[a].0 == vs0[a].0);
                    assert(disc_views(discovered@)[b].0 == vs0[b].0);
                }
            }
        }
    }
    proof {
        if found {
            assert(best_size_of(vs0, opcode) == old_best);
        } else {
            assert(best_size_of(vs0, opcode) == usize::MAX);
        }
    }
}

/// The versions that events of `s` with opcode `op` carry.
pub open spec fn versions_of(s: Seq<FileIoRawEvent>, op: u8) -> Set<u8> {
    Set::new(|v: u8| exists|j: int| 0 <= j < s.len() && s[j].opcode == op && s[j].version == v)
}

/// Some event of `s` has opcode `op`.
pub open spec fn run_has(s: Seq<FileIoRawEvent>, op: u8) -> bool {
    exists|j: int| 0 <= j < s.len() && s[j].opcode == op
}

/// The distinct versions of the events of `events` with opcode `op`.
pub fn versions_in_run(events: &Vec<FileIoRawEvent>, op: u8) -> (r: Vec<u8>)
    ensures
        r@.to_set() == versions_of(events@, op),
        r@.no_duplicates(),
{
    let mut r: Vec<u8> = Vec::new();
    let mut i: usize = 0;
    while i < events.len()
        invariant
            i <= events@.len(),
            r@.no_duplicates(),
            forall|v: u8| r@.contains(v) <==> exists|j: int| 0 <= j < i && events@[j].opcode == op && events@[j].version == v,
        decreases events.len() - i,
    {
        let e = events[i];
        if e.opcode == op {
            let mut present = false;
            let mut m: usize = 0;
            while m < r.len()
                invariant
                    m <= r@.len(),
                    present == (exists|x: int| 0 <= x < m && r@[x] == e.version),
                decreases r.len() - m,
            {
                if r[m] == e.version {
                    present = true;
                }
                m = m + 1;
            }
            if !present {
                let ghost before = r@;
                r.push(e.version);
                proof {
                    assert forall|v: u8| r@.contains(v) <==> exists|j: int| 0 <= j < i + 1 && events@[j].opcode == op && events@[j].version == v by {
                        if r@.contains(v) {
                            let x = choose|x: int| 0 <= x < r@.len() && r@[x] == v;
                            if x < before.len() {
                                assert(before.contains(v));
                            } else {
                                assert(events@[i as int].version == v);
                            }
                        }
                        if exists|j: int| 0 <= j < i + 1 && events@[j].opcode == op && events@[j].version == v {
                            let j = choose|j: int| 0 <= j < i + 1 && events@[j].opcode == op && events@[j].version == v;
                            if j < i {
                                assert(before.contains(v));
                                let x = choose|x: int| 0 <= x < before.len() && before[x] == v;
                                assert(r@[x] == v);
                            } else {
                                assert(r@[before.len() as int] == v);
                            }
                        }
                    }
                }
            } else {
                proof {
                    assert forall|v: u8| r@.contains(v) <==> exists|j: int| 0 <= j < i + 1 && events@[j].opcode == op && events@[j].version == v by {
                        if exists|j: int| 0 <= j < i + 1 && events@[j].opcode == op && events@[j].version == v {
                            let j = choose|j: int| 0 <= j < i + 1 && events@[j].opcode == op && events@[j].version == v;
                            if j == i {
                                let x = choose|x: int| 0 <= x < m && r@[x] == e.version;
                                assert(r@[x] == v);
                            }
                        }
                    }
                }
            }
        } else {
            proof {
                assert forall|v: u8| r@.contains(v) <==> exists|j: int| 0 <= j < i + 1 && events@[j].opcode == op && events@[j].version == v by {
                    if exists|j: int| 0 <= j < i + 1 && events@[j].opcode == op && events@[j].version == v {
                        let j = choose|j: int| 0 <= j < i + 1 && events@[j].opcode == op && events@[j].version == v;
                        assert(j < i);
                    }
                }
            }
        }
        i = i + 1;
    }
    assert(r@.to_set() =~= versions_of(events@, op));
    r
}

/// The records and announcements after applying, opcode by opcode up to `k`,
/// the update for each opcode that the run showed and that is an event type.
pub open spec fn fold_updates(
    vs: Seq<(u8, usize, Seq<Seq<usize>>, Set<u8>)>,
    texts: Seq<Seq<char>>,
    k: int,
    size: usize,
    indices: Seq<usize>,
    events: Seq<FileIoRawEvent>,
    types: Seq<EventTypeInfo>,
) -> (Seq<(u8, usize, Seq<Seq<usize>>, Set<u8>)>, Seq<Seq<char>>)
    decreases k,
{
    if k <= 0 {
        (vs, texts)
    } else {
        let prev = fold_updates(vs, texts, k - 1, size, indices, events, types);
        let op = (k - 1) as u8;
        if run_has(events, op) && first_type_with(types, op) is Some {
            (
                update_all(prev.0, op, size, indices, versions_of(events, op)),
                announce(prev.1, prev.0, types, op, size),
            )
        } else {
            prev
        }
    }
}

/// Records one run of combination `indices` (of `size` flags): its pairs join
/// the observed trace, and each opcode it showed that is an event type, in
/// ascending order, updates that opcode's discovery record.
pub fn process_run(
    discovered: &mut Vec<DiscoveredOpcode>,
    observed: &mut ObservedTrace,
    new_this_phase: &mut Vec<String>,
    size: usize,
    indices: &Vec<usize>,
    events: &Vec<FileIoRawEvent>,
    event_types: &Vec<EventTypeInfo>,
)
    requires
        opcodes_distinct(disc_views(old(discovered)@)),
        pairs_distinct(old(observed).pairs@),
        forall|op: u8, ver: u8| observed_count(old(observed).pairs@, op, ver) + pair_occurrences(events@, op, ver)
            <= u64::MAX,
    ensures
        opcodes_distinct(disc_views(final(discovered)@)),
        pairs_distinct(final(observed).pairs@),
        forall|op: u8, ver: u8| #[trigger] observed_count(final(observed).pairs@, op, ver) == observed_count(
            old(observed).pairs@,
            op,
            ver,
        ) + pair_occurrences(events@, op, ver),
        (disc_views(final(discovered)@), crate::text::str_views(final(new_this_phase)@)) == fold_updates(
            disc_views(old(discovered)@),
            crate::text::str_views(old(new_this_phase)@),
            256,
            size,
            indices@,
            events@,
            event_types@,
        ),
{
    observed.record_run(events, indices);
    let ghost vs0 = disc_views(discovered@);
    let ghost t0 = crate::text::str_views(new_this_phase@);
    let mut k: usize = 0;
    while k < 256
        invariant
            k <= 256,
            opcodes_distinct(disc_views(discovered@)),
            (disc_views(discovered@), crate::text::str_views(new_this_phase@)) == fold_updates(
                vs0,
                t0,
                k as int,
                size,
                indices@,
                events@,
                event_types@,
            ),
        decreases 256 - k,
    {
        let op = k as u8;
        let versions = versions_in_run(events, op);
        let is_type = match find_type(event_types, op) {
            Some(_) => true,
            None => false,
        };
        proof {
            assert(run_has(events@, op) == (versions@.len() > 0)) by {
                if run_has(events@, op) {
                    let j = choose|j: int| 0 <= j < events@.len() && events@[j].opcode == op;
                    assert(versions_of(events@, op).contains(events@[j].version));
                    assert(versions@.to_set().contains(events@[j].version));
                }
                if versions@.len() > 0 {
                    assert(versions@.to_set().contains(versions@[0]));
                }
            }
        }
        if versions.len() > 0 && is_type {
            update_discovery(discovered, op, size, indices, &versions, event_types, new_this_phase);
        }
        k = k + 1;
    }
}

/// Number of records whose best size is at most `size`.
pub open spec fn count_within(vs: Seq<(u8, usize, Seq<Seq<usize>>, Set<u8>)>, size: usize) -> nat
    decreases vs.len(),
{
    if vs.len() == 0 {
        0
    } else {
        count_within(vs.drop_last(), size) + if vs.last().1 <= size { 1nat } else { 0nat }
    }
}

/// The discovery progress only grows as the phases grow: a record found in an
/// earlier, smaller phase stays counted in every later one.
pub proof fn law_progress_never_decreases(vs: Seq<(u8, usize, Seq<Seq<usize>>, Set<u8>)>, s1: usize, s2: usize)
    requires
        s1 <= s2,
    ensures
        count_within(vs, s1) <= count_within(vs, s2),
    decreases vs.len(),
{
    if vs.len() > 0 {
        law_progress_never_decreases(vs.drop_last(), s1, s2);
    }
}

/// Once the phase size reaches every record's best size, every record counts
/// as discovered; a phase smaller than every best size counts none.
pub proof fn law_progress_counts_each_found_record(vs: Seq<(u8, usize, Seq<Seq<usize>>, Set<u8>)>, size: usize)
    ensures
        (forall|i: int| 0 <= i < vs.len() ==> #[trigger] vs[i].1 <= size) ==> count_within(vs, size) == vs.len(),
        (forall|i: int| 0 <= i < vs.len() ==> #[trigger] vs[i].1 > size) ==> count_within(vs, size) == 0,
    decreases vs.len(),
{
    if vs.len() > 0 {
        law_progress_counts_each_found_record(vs.drop_last(), size);
        let p = vs.drop_last();
        assert(forall|i: int| 0 <= i < p.len() ==> p[i] == vs[i]);
        assert(vs.last() == vs[vs.len() - 1]);
    }
}

/// How many event types the phases up to `size` have discovered, and whether
/// that is all `total` of them (the search then stops).
pub fn phase_progress(discovered: &Vec<DiscoveredOpcode>, size: usize, total: usize) -> (r: (usize, bool))
    ensures
        r.0 == count_within(disc_views(discovered@), size),
        r.1 == (r.0 >= total),
{
    let mut count: usize = 0;
    let mut i: usize = 0;
    while i < discovered.len()
        invariant
            i <= discovered@.len(),
            count <= i,
            count == count_within(disc_views(discovered@.subrange(0, i as int)), size),
        decreases discovered.len() - i,
    {
        proof {
            assert(disc_views(discovered@.subrange(0, i + 1)).drop_last() =~= disc_views(discovered@.subrange(0, i as int)));
        }
        if discovered[i].discovery.best_size <= size {
            count = count + 1;
        }
        i = i + 1;
    }
    assert(discovered@.subrange(0, discovered@.len() as int) =~= discovered@);
    (count, count >= total)
}

/// What is odd about an observed pair.
#[derive(Debug, Clone, Copy, PartialEq, Eq, Structural)]
pub enum WarningKind {
    /// The registry does not know the opcode.
    UnknownOpcode,
    /// The version is above every version the registry knows for the opcode.
    HigherVersion { max_known: u8 },
}

/// An observed pair that the registry does not account for.
#[derive(Debug, Clone)]
pub struct WarningEntry {
    pub opcode: u8,
    pub version: u8,
    pub count: u64,
    pub class_name: String,
    pub event_name: String,
    pub max_known_version: Option<u8>,
    pub first_combo: Vec<String>,
    pub kind: WarningKind,
}

/// The pair (`op`, `ver`) was observed and is unknown or newer than known.
pub open spec fn is_warned(ps: Seq<ObservedPair>, op: u8, ver: u8) -> bool {
    &&& exists|j: int| is_pair(ps, j, op, ver)
    &&& (!opcode_known(op) || forall|i: int|
        0 <= i < registry().len() && registry()[i].event_id == op ==> registry()[i].version < ver)
}

/// The keys `k` (opcode * 256 + version) in `lo..hi` whose pair is warned about, ascending.
pub open spec fn warned_keys(ps: Seq<ObservedPair>, lo: int, hi: int) -> Seq<int>
    decreases hi - lo,
{
    if hi <= lo {
        Seq::empty()
    } else if is_warned(ps, ((hi - 1) / 256) as u8, ((hi - 1) % 256) as u8) {
        warned_keys(ps, lo, hi - 1).push(hi - 1)
    } else {
        warned_keys(ps, lo, hi - 1)
    }
}

/// `w` is the warning of pair (`op`, `ver`) of `ps`.
pub open spec fn warning_of(w: WarningEntry, ps: Seq<ObservedPair>, flags: Seq<Flag>, op: u8, ver: u8) -> bool {
    let j = choose|j: int| is_pair(ps, j, op, ver);
    &&& w.opcode == op
    &&& w.version == ver
    &&& w.count == ps[j].count
    &&& crate::text::str_views(w.first_combo@) == chosen_names(flags, ps[j].first_combo@)
    &&& if !opcode_known(op) {
        &&& w.kind == WarningKind::UnknownOpcode
        &&& w.max_known_version is None
        &&& w.class_name@ == Seq::<char>::empty()
        &&& w.event_name@ == Seq::<char>::empty()
    } else {
        exists|i: int|
            0 <= i < registry().len() && registry()[i].event_id == op && (forall|l: int|
                0 <= l < registry().len() && registry()[l].event_id == op ==> registry()[l].version
                    <= registry()[i].version) && w.kind == (WarningKind::HigherVersion {
                max_known: registry()[i].version,
            }) && w.max_known_version == Some(registry()[i].version) && w.class_name@
                == registry()[i].class_name@ && w.event_name@ == registry()[i].event_name@
    }
}

/// The first combinations of all observed pairs are combinations of `flags`.
pub open spec fn combos_valid(ps: Seq<ObservedPair>, flags: Seq<Flag>) -> bool {
    forall|j: int| 0 <= j < ps.len() ==> indices_valid(flags, #[trigger] ps[j].first_combo@)
}

fn find_pair(observed: &ObservedTrace, op: u8, ver: u8) -> (r: Option<usize>)
    ensures
        match r {
            Some(j) => is_pair(observed.pairs@, j as int, op, ver),
            None => !(exists|j: int| is_pair(observed.pairs@, j, op, ver)),
        },
{
    let mut j: usize = 0;
    while j < observed.pairs.len()
        invariant
            j <= observed.pairs@.len(),
            forall|m: int| 0 <= m < j ==> !is_pair(observed.pairs@, m, op, ver),
        decreases observed.pairs.len() - j,
    {
        if observed.pairs[j].opcode == op && observed.pairs[j].version == ver {
            return Some(j);
        }
        j = j + 1;
    }
    None
}

/// The warnings about the observed pairs, ordered by opcode and then version:
/// pairs of opcodes the registry does not know, and pairs newer than every known
/// version of their opcode.
pub fn build_warnings(observed: &ObservedTrace, flags: &Vec<Flag>) -> (r: Vec<WarningEntry>)
    requires
        pairs_distinct(observed.pairs@),
        combos_valid(observed.pairs@, flags@),
    ensures
        r@.map_values(|w: WarningEntry| w.opcode as int * 256 + w.version as int) == warned_keys(
            observed.pairs@,
            0,
            65536,
        ),
        forall|j: int| 0 <= j < r@.len() ==> warning_of(#[trigger] r@[j], observed.pairs@, flags@, r@[j].opcode, r@[j].version),
{
    let ghost ps = observed.pairs@;
    let mut r: Vec<WarningEntry> = Vec::new();
    let mut k: usize = 0;
    while k < 65536
        invariant
            k <= 65536,
            ps == observed.pairs@,
            pairs_distinct(ps),
            combos_valid(ps, flags@),
            r@.map_values(|w: WarningEntry| w.opcode as int * 256 + w.version as int) == warned_keys(ps, 0, k as int),
            forall|j: int| 0 <= j < r@.len() ==> warning_of(#[trigger] r@[j], ps, flags@, r@[j].opcode, r@[j].version),
        decreases 65536 - k,
    {
        let op = (k / 256) as u8;
        let ver = (k % 256) as u8;
        let ghost before = r@;
        match find_pair(observed, op, ver) {
            None => {
                assert(!is_warned(ps, op, ver));
                assert(r@.map_values(|w: WarningEntry| w.opcode as int * 256 + w.version as int) =~= warned_keys(ps, 0, k + 1));
            },
            Some(j) => {
                proof {
                    lemma_pair_unique(ps, j as int, op, ver);
                }
                let pair = &observed.pairs[j];
                let canon = canonical_def(op);
                let warn: Option<(WarningKind, Option<u8>, String, String)> = match canon {
                    None => Some((WarningKind::UnknownOpcode, None, String::new(), String::new())),
                    Some(e) => if ver > e.version {
                        proof {
                            assert forall|i: int| 0 <= i < registry().len() && registry()[i].event_id == op implies registry()[i].version < ver by {
                                assert(registry()[i].version <= e.version);
                            }
                        }
                        Some((WarningKind::HigherVersion { max_known: e.version }, Some(e.version), owned(e.class_name), owned(e.event_name)))
                    } else {
                        proof {
                            let i = choose|i: int| 0 <= i < registry().len() && registry()[i] == e;
                            assert(registry()[i].event_id == op && !(registry()[i].version < ver));
                        }
                        None
                    },
                };
                match warn {
                    None => {
                        assert(!is_warned(ps, op, ver));
                        assert(r@.map_values(|w: WarningEntry| w.opcode as int * 256 + w.version as int) =~= warned_keys(ps, 0, k + 1));
                    },
                    Some((kind, max_known_version, class_name, event_name)) => {
                        let names = names_of(flags, &pair.first_combo);
                        let w = WarningEntry {
                            opcode: op,
                            version: ver,
                            count: pair.count,
                            class_name,
                            event_name,
                            max_known_version,
                            first_combo: names,
                            kind,
                        };
                        proof {
                            assert(is_warned(ps, op, ver));
                            assert(op as int * 256 + ver as int == k);
                            if opcode_known(op) {
                                let e = canon->0;
                                let i = choose|i: int| 0 <= i < registry().len() && registry()[i] == e;
                                assert(0 <= i < registry().len() && registry()[i].event_id == op);
                            }
                            assert(warning_of(w, ps, flags@, op, ver));
                        }
                        r.push(w);
                        proof {
                            assert(r@.map_values(|w: WarningEntry| w.opcode as int * 256 + w.version as int) =~= before.map_values(
                                |w: WarningEntry| w.opcode as int * 256 + w.version as int).push(k as int));
                            assert forall|m: int| 0 <= m < r@.len() implies warning_of(#[trigger] r@[m], ps, flags@, r@[m].opcode, r@[m].version) by {
                                if m < before.len() {
                                    assert(r@[m] == before[m]);
                                }
                            }
                        }
                    },
                }
            },
        }
        k = k + 1;
    }
    r
}

/// The values in `lo..hi` that occur in `values`, ascending.
pub open spec fn values_in(values: Seq<u8>, lo: int, hi: int) -> Seq<u8>
    decreases hi - lo,
{
    if hi <= lo {
        Seq::empty()
    } else if values.contains((hi - 1) as u8) {
        values_in(values, lo, hi - 1).push((hi - 1) as u8)
    } else {
        values_in(values, lo, hi - 1)
    }
}

/// The members of `values` in `lo..hi`, ascending.
pub open spec fn set_values_in(values: Set<u8>, lo: int, hi: int) -> Seq<u8>
    decreases hi - lo,
{
    if hi <= lo {
        Seq::empty()
    } else if values.contains((hi - 1) as u8) {
        set_values_in(values, lo, hi - 1).push((hi - 1) as u8)
    } else {
        set_values_in(values, lo, hi - 1)
    }
}

/// The versions of a record, ascending.
pub fn ascending_versions(versions: &HashSet<u8>) -> (r: Vec<u8>)
    ensures
        r@ == set_values_in(versions@, 0, 256),
{
    let mut r: Vec<u8> = Vec::new();
    let mut x: u16 = 0;
    while x < 256
        invariant
            x <= 256,
            r@ == set_values_in(versions@, 0, x as int),
        decreases 256 - x,
    {
        let v = x as u8;
        if versions.contains(&v) {
            r.push(v);
        }
        x = x + 1;
    }
    r
}

/// The distinct values of `values`, ascending.
pub fn sorted_vec(values: &Vec<u8>) -> (r: Vec<u8>)
    ensures
        r@ == values_in(values@, 0, 256),
        forall|a: int, b: int| 0 <= a < b < r@.len() ==> r@[a] < r@[b],
        r@.to_set() == values@.to_set(),
{
    let mut seen: Vec<bool> = Vec::new();
    let mut k: usize = 0;
    while k < 256
        invariant
            k <= 256,
            seen@.len() == k,
            forall|x: int| 0 <= x < k ==> !seen@[x],
        decreases 256 - k,
    {
        seen.push(false);
        k = k + 1;
    }
    let mut i: usize = 0;
    while i < values.len()
        invariant
            i <= values@.len(),
            seen@.len() == 256,
            forall|x: int| 0 <= x < 256 ==> (#[trigger] seen@[x] <==> values@.subrange(0, i as int).contains(x as u8)),
        decreases values.len() - i,
    {
        let v = values[i];
        seen.set(v as usize, true);
        proof {
            let pre = values@.subrange(0, i as int);
            let post = values@.subrange(0, i + 1);
            assert(post =~= pre.push(v));
            assert forall|x: int| 0 <= x < 256 implies (#[trigger] seen@[x] <==> post.contains(x as u8)) by {
                if post.contains(x as u8) && x != v as int {
                    let y = choose|y: int| 0 <= y < post.len() && post[y] == x as u8;
                    assert(y < pre.len() && pre[y] == x as u8);
                }
                if pre.contains(x as u8) {
                    let y = choose|y: int| 0 <= y < pre.len() && pre[y] == x as u8;
                    assert(post[y] == x as u8);
                }
                if x == v as int {
                    assert(post[i as int] == v);
                }
            }
        }
        i = i + 1;
    }
    assert(values@.subrange(0, values@.len() as int) =~= values@);
    let mut r: Vec<u8> = Vec::new();
    let mut x: usize = 0;
    while x < 256
        invariant
            x <= 256,
            seen@.len() == 256,
            forall|y: int| 0 <= y < 256 ==> (#[trigger] seen@[y] <==> values@.contains(y as u8)),
            forall|a: int, b: int| 0 <= a < b < r@.len() ==> r@[a] < r@[b],
            forall|a: int| 0 <= a < r@.len() ==> r@[a] < x,
            forall|v: u8| r@.contains(v) <==> (v < x && values@.contains(v)),
            r@ == values_in(values@, 0, x as int),
        decreases 256 - x,
    {
        if seen[x] {
            let ghost before = r@;
            r.push(x as u8);
            proof {
                assert forall|v: u8| r@.contains(v) <==> (v < x + 1 && values@.contains(v)) by {
                    if r@.contains(v) {
                        let y = choose|y: int| 0 <= y < r@.len() && r@[y] == v;
                        if y < before.len() {
                            assert(before.contains(v));
                        }
                    }
                    if v < x + 1 && values@.contains(v) {
                        if v < x {
                            assert(before.contains(v));
                            let y = choose|y: int| 0 <= y < before.len() && before[y] == v;
                            assert(r@[y] == v);
                        } else {
                            assert(r@[before.len() as int] == v);
                        }
                    }
                }
            }
        } else {
            proof {
                assert forall|v: u8| r@.contains(v) <==> (v < x + 1 && values@.contains(v)) by {
                    if v == x {
                        assert(!seen@[x as int]);
                    }
                }
            }
        }
        x = x + 1;
    }
    proof {
        assert forall|v: u8| r@.to_set().contains(v) <==> values@.to_set().contains(v) by {}
        assert(r@.to_set() =~= values@.to_set());
    }
    r
}

/// The decimal versions of a record, ascending, joined by commas (empty without
/// a record).
pub fn vers_str(d: Option<&EventDiscovery>) -> (s: String)
    ensures
        match d {
            None => s@ == Seq::<char>::empty(),
            Some(e) => s@ == join(
                set_values_in(e.observed_versions@, 0, 256).map_values(|v: u8| dec(v as nat)),
                ","@,
            ),
        },
{
    match d {
        None => String::new(),
        Some(e) => {
            let vs = ascending_versions(&e.observed_versions);
            let mut parts: Vec<String> = Vec::new();
            let mut i: usize = 0;
            while i < vs.len()
                invariant
                    i <= vs@.len(),
                    crate::text::str_views(parts@) == vs@.subrange(0, i as int).map_values(|v: u8| dec(v as nat)),
                decreases vs.len() - i,
            {
                let mut p = String::new();
                push_dec(&mut p, vs[i] as u64);
                let ghost before = parts@;
                parts.push(p);
                proof {
                    assert(crate::text::str_views(parts@) =~= crate::text::str_views(before).push(p@));
                    assert(vs@.subrange(0, i + 1).map_values(|v: u8| dec(v as nat)) =~= vs@.subrange(0, i as int).map_values(
                        |v: u8| dec(v as nat)).push(dec(vs@[i as int] as nat)));
                }
                i = i + 1;
            }
            assert(vs@.subrange(0, vs@.len() as int) =~= vs@);
            join_strings(&parts, ",")
        },
    }
}

} // verus!
