//! The comparison of parsed FileIo events across the test configurations: per
//! event type, which configurations produced it, with a sample of the parsed
//! data, and a closer look at the FltIo completion events of the PERF_FLT_FASTIO
//! and PERF_FLT_IO configurations.

use vstd::prelude::*;
use crate::cumulative::{label, label_text, records_view};
use crate::log_format::{LogLevel, LogRecord};
use crate::provider_decl::{ascending_ids, insert_id};
use crate::fileio_registry::{has_key, is_known, law_registry_keys_unique, lookup_event, registry};
use crate::text::{dec, join, join_strings, lemma_text_lt_transitive, owned, push_dec, push_str, str_views, text_eq, text_less, text_lt};

verus! {

/// One parsed event: its header and its parsed data as text.
#[derive(Debug, Clone)]
pub struct ParsedEvent {
    pub opcode: u8,
    pub version: u8,
    pub process_id: u32,
    pub thread_id: u32,
    pub data: String,
}

/// The parsed events of one configuration.
#[derive(Debug, Clone)]
pub struct ParsedRun {
    pub config_name: String,
    pub events: Vec<ParsedEvent>,
}

/// One event type with the configurations that produced it, by name.
#[derive(Debug, Clone)]
pub struct TypeGroup {
    pub opcode: u8,
    pub version: u8,
    pub configs: Vec<usize>,
}

/// The key of an (opcode, version) pair, opcode high.
pub open spec fn type_key(op: u8, ver: u8) -> int {
    op as int * 256 + ver as int
}

/// Run `r` has an event of (`op`, `ver`).
pub open spec fn run_has(r: ParsedRun, op: u8, ver: u8) -> bool {
    exists|e: int| 0 <= e < r.events@.len() && r.events@[e].opcode == op && #[trigger] r.events@[e].version == ver
}

/// Some run has an event whose key is `k`.
pub open spec fn key_present(rs: Seq<ParsedRun>, k: int) -> bool {
    exists|a: int, e: int|
        0 <= a < rs.len() && 0 <= e < rs[a].events@.len() && #[trigger] type_key(
            rs[a].events@[e].opcode,
            rs[a].events@[e].version,
        ) == k
}

/// No two runs have the same configuration name.
pub open spec fn names_distinct(rs: Seq<ParsedRun>) -> bool {
    forall|a: int, b: int| 0 <= a < b < rs.len() ==> rs[a].config_name@ != rs[b].config_name@
}

/// A group lists, by name, exactly the runs that have its event type.
pub open spec fn type_group_ok(rs: Seq<ParsedRun>, g: TypeGroup) -> bool {
    &&& forall|j: int| 0 <= j < g.configs@.len() ==> #[trigger] g.configs@[j] < rs.len()
    &&& forall|i: int, j: int|
        0 <= i < j < g.configs@.len() ==> text_lt(rs[g.configs@[i] as int].config_name@, rs[g.configs@[j] as int].config_name@)
    &&& forall|a: int| 0 <= a < rs.len() ==> (g.configs@.contains(a as usize) <==> run_has(rs[a], g.opcode, g.version))
}

/// The groups: one per event type that some run has, by increasing
/// (opcode, version).
pub open spec fn groups_ok(rs: Seq<ParsedRun>, gs: Seq<TypeGroup>) -> bool {
    &&& forall|j: int| 0 <= j < gs.len() ==> type_group_ok(rs, #[trigger] gs[j])
    &&& forall|i: int, j: int| 0 <= i < j < gs.len() ==> type_key(gs[i].opcode, gs[i].version) < type_key(gs[j].opcode, gs[j].version)
    &&& forall|k: int| key_present(rs, k) ==> exists|j: int| 0 <= j < gs.len() && type_key(gs[j].opcode, gs[j].version) == k
    &&& forall|j: int| 0 <= j < gs.len() ==> key_present(rs, type_key(gs[j].opcode, gs[j].version))
}

/// The keys of all parsed events, ascending, each once.
fn present_keys(rs: &Vec<ParsedRun>) -> (r: Vec<u16>)
    ensures
        ascending_ids(r@),
        forall|k: u16| r@.contains(k) <==> key_present(rs@, k as int),
{
    let mut r: Vec<u16> = Vec::new();
    let mut a: usize = 0;
    while a < rs.len()
        invariant
            a <= rs@.len(),
            ascending_ids(r@),
            forall|k: u16|
                r@.contains(k) <==> (exists|a2: int, e: int|
                    0 <= a2 < a && 0 <= e < rs@[a2].events@.len() && #[trigger] type_key(
                        rs@[a2].events@[e].opcode,
                        rs@[a2].events@[e].version,
                    ) == k),
        decreases rs.len() - a,
    {
        let run = &rs[a];
        let mut e: usize = 0;
        while e < run.events.len()
            invariant
                a < rs@.len(),
                *run == rs@[a as int],
                e <= run.events@.len(),
                ascending_ids(r@),
                forall|k: u16|
                    r@.contains(k) <==> ((exists|a2: int, e2: int|
                        0 <= a2 < a && 0 <= e2 < rs@[a2].events@.len() && #[trigger] type_key(
                            rs@[a2].events@[e2].opcode,
                            rs@[a2].events@[e2].version,
                        ) == k) || (exists|e2: int| 0 <= e2 < e && #[trigger] type_key(
                            run.events@[e2].opcode,
                            run.events@[e2].version,
                        ) == k)),
            decreases run.events.len() - e,
        {
            let ev = &run.events[e];
            let k: u16 = ev.opcode as u16 * 256 + ev.version as u16;
            let ghost before = r@;
            insert_id(&mut r, k);
            proof {
                assert(type_key(run.events@[e as int].opcode, run.events@[e as int].version) == k);
                assert forall|k2: u16|
                    r@.contains(k2) <==> ((exists|a2: int, e2: int|
                        0 <= a2 < a && 0 <= e2 < rs@[a2].events@.len() && #[trigger] type_key(
                            rs@[a2].events@[e2].opcode,
                            rs@[a2].events@[e2].version,
                        ) == k2) || (exists|e2: int| 0 <= e2 < e + 1 && #[trigger] type_key(
                            run.events@[e2].opcode,
                            run.events@[e2].version,
                        ) == k2)) by {
                    if exists|e2: int| 0 <= e2 < e + 1 && #[trigger] type_key(run.events@[e2].opcode, run.events@[e2].version) == k2 {
                        let e2 = choose|e2: int| 0 <= e2 < e + 1 && #[trigger] type_key(run.events@[e2].opcode, run.events@[e2].version) == k2;
                        if e2 < e {
                            assert(exists|e3: int| 0 <= e3 < e && #[trigger] type_key(run.events@[e3].opcode, run.events@[e3].version) == k2);
                        }
                    }
                }
            }
            e = e + 1;
        }
        proof {
            assert forall|k: u16|
                r@.contains(k) <==> (exists|a2: int, e2: int|
                    0 <= a2 < a + 1 && 0 <= e2 < rs@[a2].events@.len() && #[trigger] type_key(
                        rs@[a2].events@[e2].opcode,
                        rs@[a2].events@[e2].version,
                    ) == k) by {
                if exists|a2: int, e2: int|
                    0 <= a2 < a + 1 && 0 <= e2 < rs@[a2].events@.len() && #[trigger] type_key(
                        rs@[a2].events@[e2].opcode,
                        rs@[a2].events@[e2].version,
                    ) == k {
                    let (a2, e2) = choose|a2: int, e2: int|
                        0 <= a2 < a + 1 && 0 <= e2 < rs@[a2].events@.len() && #[trigger] type_key(
                            rs@[a2].events@[e2].opcode,
                            rs@[a2].events@[e2].version,
                        ) == k;
                    if a2 == a {
                        assert(type_key(run.events@[e2].opcode, run.events@[e2].version) == k);
                    } else {
                        assert(exists|a3: int, e3: int|
                            0 <= a3 < a && 0 <= e3 < rs@[a3].events@.len() && #[trigger] type_key(
                                rs@[a3].events@[e3].opcode,
                                rs@[a3].events@[e3].version,
                            ) == k);
                    }
                }
                if exists|e2: int| 0 <= e2 < run.events@.len() && #[trigger] type_key(run.events@[e2].opcode, run.events@[e2].version) == k {
                    let e2 = choose|e2: int| 0 <= e2 < run.events@.len() && #[trigger] type_key(run.events@[e2].opcode, run.events@[e2].version) == k;
                    assert(type_key(rs@[a as int].events@[e2].opcode, rs@[a as int].events@[e2].version) == k);
                }
            }
        }
        a = a + 1;
    }
    r
}

fn has_type(r: &ParsedRun, op: u8, ver: u8) -> (b: bool)
    ensures
        b == run_has(*r, op, ver),
{
    let mut e: usize = 0;
    while e < r.events.len()
        invariant
            e <= r.events@.len(),
            forall|x: int| 0 <= x < e ==> !(r.events@[x].opcode == op && r.events@[x].version == ver),
        decreases r.events.len() - e,
    {
        if r.events[e].opcode == op && r.events[e].version == ver {
            return true;
        }
        e = e + 1;
    }
    false
}

/// The runs that have (`op`, `ver`), by name.
fn configs_with(rs: &Vec<ParsedRun>, op: u8, ver: u8) -> (r: Vec<usize>)
    requires
        names_distinct(rs@),
    ensures
        type_group_ok(rs@, TypeGroup { opcode: op, version: ver, configs: r }),
{
    let mut r: Vec<usize> = Vec::new();
    let mut a: usize = 0;
    while a < rs.len()
        invariant
            a <= rs@.len(),
            names_distinct(rs@),
            forall|j: int| 0 <= j < r@.len() ==> #[trigger] r@[j] < a,
            forall|i: int, j: int|
                0 <= i < j < r@.len() ==> text_lt(rs@[r@[i] as int].config_name@, rs@[r@[j] as int].config_name@),
            forall|x: int| 0 <= x < rs@.len() ==> (r@.contains(x as usize) <==> (x < a && run_has(rs@[x], op, ver))),
        decreases rs.len() - a,
    {
        if has_type(&rs[a], op, ver) {
            let mut p: usize = 0;
            while p < r.len() && text_less(rs[r[p]].config_name.as_str(), rs[a].config_name.as_str())
                invariant
                    p <= r@.len(),
                    a < rs@.len(),
                    forall|j: int| 0 <= j < r@.len() ==> #[trigger] r@[j] < a,
                    forall|j: int| 0 <= j < p ==> text_lt(rs@[r@[j] as int].config_name@, rs@[a as int].config_name@),
                decreases r.len() - p,
            {
                p = p + 1;
            }
            let ghost before = r@;
            r.insert(p, a);
            proof {
                let after = r@;
                assert(after =~= before.insert(p as int, a));
                let na = rs@[a as int].config_name@;
                if p < before.len() {
                    assert(!text_lt(rs@[before[p as int] as int].config_name@, na));
                    assert(rs@[before[p as int] as int].config_name@ != na);
                    crate::text::lemma_text_lt_total(rs@[before[p as int] as int].config_name@, na);
                }
                assert forall|i: int, j: int| 0 <= i < j < after.len() implies text_lt(
                    rs@[after[i] as int].config_name@,
                    rs@[after[j] as int].config_name@,
                ) by {
                    if j < p {
                        assert(after[i] == before[i] && after[j] == before[j]);
                    } else if j == p {
                        assert(after[i] == before[i]);
                    } else if i < p {
                        assert(after[i] == before[i] && after[j] == before[j - 1]);
                        assert(text_lt(rs@[before[i] as int].config_name@, na));
                        assert(text_lt(na, rs@[before[p as int] as int].config_name@));
                        lemma_text_lt_transitive(rs@[before[i] as int].config_name@, na, rs@[before[p as int] as int].config_name@);
                        if j - 1 > p {
                            lemma_text_lt_transitive(
                                rs@[before[i] as int].config_name@,
                                rs@[before[p as int] as int].config_name@,
                                rs@[before[j - 1] as int].config_name@,
                            );
                        }
                    } else if i == p {
                        assert(after[j] == before[j - 1]);
                        if j - 1 > p {
                            lemma_text_lt_transitive(
                                na,
                                rs@[before[p as int] as int].config_name@,
                                rs@[before[j - 1] as int].config_name@,
                            );
                        }
                    } else {
                        assert(after[i] == before[i - 1] && after[j] == before[j - 1]);
                    }
                }
                assert forall|x: int| 0 <= x < rs@.len() implies (after.contains(x as usize) <==> (x < a + 1 && run_has(
                    rs@[x],
                    op,
                    ver,
                ))) by {
                    if after.contains(x as usize) {
                        let y = choose|y: int| 0 <= y < after.len() && after[y] == x as usize;
                        if y < p {
                            assert(before[y] == x as usize);
                        } else if y > p {
                            assert(before[y - 1] == x as usize);
                        }
                    }
                    if x < a && run_has(rs@[x], op, ver) {
                        assert(before.contains(x as usize));
                        let y = choose|y: int| 0 <= y < before.len() && before[y] == x as usize;
                        if y < p {
                            assert(after[y] == x as usize);
                        } else {
                            assert(after[y + 1] == x as usize);
                        }
                    }
                    if x == a {
                        assert(after[p as int] == a);
                    }
                }
                assert forall|j: int| 0 <= j < after.len() implies #[trigger] after[j] < a + 1 by {
                    if j < p {
                        assert(after[j] == before[j]);
                    } else if j > p {
                        assert(after[j] == before[j - 1]);
                    }
                }
            }
        } else {
            proof {
                assert forall|x: int| 0 <= x < rs@.len() implies (r@.contains(x as usize) <==> (x < a + 1 && run_has(
                    rs@[x],
                    op,
                    ver,
                ))) by {
                    if r@.contains(x as usize) {
                        let y = choose|y: int| 0 <= y < r@.len() && r@[y] == x as usize;
                        assert(r@[y] < a);
                    }
                }
            }
        }
        a = a + 1;
    }
    r
}

/// The event types of the runs, each with the runs that produced it by name,
/// by increasing (opcode, version).
pub fn group_types(rs: &Vec<ParsedRun>) -> (gs: Vec<TypeGroup>)
    requires
        names_distinct(rs@),
    ensures
        groups_ok(rs@, gs@),
{
    let keys = present_keys(rs);
    let mut gs: Vec<TypeGroup> = Vec::new();
    let mut i: usize = 0;
    while i < keys.len()
        invariant
            i <= keys@.len(),
            names_distinct(rs@),
            ascending_ids(keys@),
            forall|k: u16| keys@.contains(k) <==> key_present(rs@, k as int),
            gs@.len() == i,
            forall|j: int| 0 <= j < i ==> type_key((#[trigger] gs@[j]).opcode, gs@[j].version) == keys@[j] as int,
            forall|j: int| 0 <= j < i ==> type_group_ok(rs@, #[trigger] gs@[j]),
        decreases keys.len() - i,
    {
        let k = keys[i];
        let op = (k / 256) as u8;
        let ver = (k % 256) as u8;
        assert(type_key(op, ver) == k as int);
        let configs = configs_with(rs, op, ver);
        gs.push(TypeGroup { opcode: op, version: ver, configs });
        i = i + 1;
    }
    proof {
        assert forall|k: int| key_present(rs@, k) implies exists|j: int|
            0 <= j < gs@.len() && type_key(gs@[j].opcode, gs@[j].version) == k by {
            let (a, e) = choose|a: int, e: int|
                0 <= a < rs@.len() && 0 <= e < rs@[a].events@.len() && #[trigger] type_key(
                    rs@[a].events@[e].opcode,
                    rs@[a].events@[e].version,
                ) == k;
            let ku = k as u16;
            assert(0 <= k < 65536);
            assert(key_present(rs@, ku as int));
            assert(keys@.contains(ku));
            let j = choose|j: int| 0 <= j < keys@.len() && keys@[j] == ku;
            assert(type_key(gs@[j].opcode, gs@[j].version) == k);
        }
        assert forall|j: int| 0 <= j < gs@.len() implies key_present(rs@, type_key(gs@[j].opcode, gs@[j].version)) by {
            assert(keys@.contains(keys@[j]));
        }
    }
    gs
}

/// The events of `s` of (`op`, `ver`), in order.
pub open spec fn type_events(s: Seq<ParsedEvent>, op: u8, ver: u8) -> Seq<ParsedEvent>
    decreases s.len(),
{
    if s.len() == 0 {
        Seq::empty()
    } else if s.last().opcode == op && s.last().version == ver {
        type_events(s.drop_last(), op, ver).push(s.last())
    } else {
        type_events(s.drop_last(), op, ver)
    }
}

/// `    [k+1] PID=.. TID=.. data=..` of the sample event at position `k`.
pub open spec fn sample_text(k: int, e: ParsedEvent) -> Seq<char> {
    "    ["@ + dec((k + 1) as nat) + "] PID="@ + dec(e.process_id as nat) + " TID="@ + dec(e.thread_id as nat)
        + " data="@ + e.data@
}

/// The records of one configuration under an event type: its count, its first
/// three events, and how many more there are.
pub open spec fn config_records(r: ParsedRun, op: u8, ver: u8) -> Seq<(LogLevel, Seq<char>)> {
    let evs = type_events(r.events@, op, ver);
    let shown = if evs.len() > 3 { 3 } else { evs.len() as int };
    seq![(LogLevel::Info, "  "@ + r.config_name@ + ": "@ + dec(evs.len()) + " events"@)] + Seq::new(
        shown as nat,
        |k: int| (LogLevel::Info, sample_text(k, evs[k])),
    ) + if evs.len() > 3 {
        seq![(LogLevel::Info, "    ... and "@ + dec((evs.len() - 3) as nat) + " more"@)]
    } else {
        Seq::empty()
    }
}

/// The records of the configurations `cs`, in order.
pub open spec fn configs_records(rs: Seq<ParsedRun>, cs: Seq<usize>, op: u8, ver: u8) -> Seq<(LogLevel, Seq<char>)>
    decreases cs.len(),
{
    if cs.len() == 0 {
        Seq::empty()
    } else {
        configs_records(rs, cs.drop_last(), op, ver) + config_records(rs[cs.last() as int], op, ver)
    }
}

/// The names of the first `n` runs that are not among `cs`, in order.
pub open spec fn absent_names(rs: Seq<ParsedRun>, cs: Seq<usize>, n: int) -> Seq<Seq<char>>
    decreases n,
{
    if n <= 0 {
        Seq::empty()
    } else if cs.contains((n - 1) as usize) {
        absent_names(rs, cs, n - 1)
    } else {
        absent_names(rs, cs, n - 1).push(rs[n - 1].config_name@)
    }
}

/// The records of an event type: its label, its configurations, and the
/// configurations it is missing from.
pub open spec fn group_records(rs: Seq<ParsedRun>, g: TypeGroup) -> Seq<(LogLevel, Seq<char>)> {
    let absent = absent_names(rs, g.configs@, rs.len() as int);
    seq![(LogLevel::Info, label_text(g.opcode, g.version))] + configs_records(rs, g.configs@, g.opcode, g.version)
        + if g.configs@.len() < rs.len() && absent.len() > 0 {
        seq![(LogLevel::Info, "  NOT present in: "@ + join(absent, ", "@))]
    } else {
        Seq::empty()
    }
}

/// The records of the event types, in order.
pub open spec fn groups_records(rs: Seq<ParsedRun>, gs: Seq<TypeGroup>) -> Seq<(LogLevel, Seq<char>)>
    decreases gs.len(),
{
    if gs.len() == 0 {
        Seq::empty()
    } else {
        groups_records(rs, gs.drop_last()) + group_records(rs, gs.last())
    }
}

fn record(level: LogLevel, message: String) -> (r: LogRecord)
    ensures
        r.level == level,
        r.message@ == message@,
{
    LogRecord { level, message }
}

/// Positions of the events of (`op`, `ver`), in order.
fn type_positions(s: &Vec<ParsedEvent>, op: u8, ver: u8) -> (ix: Vec<usize>)
    ensures
        forall|j: int| 0 <= j < ix@.len() ==> #[trigger] ix@[j] < s@.len(),
        ix@.map_values(|i: usize| s@[i as int]) == type_events(s@, op, ver),
{
    let mut ix: Vec<usize> = Vec::new();
    let mut e: usize = 0;
    while e < s.len()
        invariant
            e <= s@.len(),
            forall|j: int| 0 <= j < ix@.len() ==> #[trigger] ix@[j] < e,
            ix@.map_values(|i: usize| s@[i as int]) == type_events(s@.subrange(0, e as int), op, ver),
        decreases s.len() - e,
    {
        let ghost before = ix@;
        if s[e].opcode == op && s[e].version == ver {
            ix.push(e);
        }
        proof {
            assert(s@.subrange(0, e + 1).drop_last() =~= s@.subrange(0, e as int));
            assert(s@.subrange(0, e + 1).last() == s@[e as int]);
            if ix@.len() > before.len() {
                assert(ix@.map_values(|i: usize| s@[i as int]) =~= before.map_values(|i: usize| s@[i as int]).push(s@[e as int]));
            }
        }
        e = e + 1;
    }
    assert(s@.subrange(0, s@.len() as int) =~= s@);
    ix
}

fn push_config_records(records: &mut Vec<LogRecord>, r: &ParsedRun, op: u8, ver: u8)
    ensures
        records_view(final(records)@) == records_view(old(records)@) + config_records(*r, op, ver),
{
    let ghost start = records_view(records@);
    let ghost evs = type_events(r.events@, op, ver);
    let ix = type_positions(&r.events, op, ver);
    assert(ix@.len() == evs.len());
    let mut m = owned("  ");
    push_str(&mut m, r.config_name.as_str());
    push_str(&mut m, ": ");
    push_dec(&mut m, ix.len() as u64);
    push_str(&mut m, " events");
    let ghost first = seq![(LogLevel::Info, "  "@ + r.config_name@ + ": "@ + dec(evs.len()) + " events"@)];
    assert(m@ =~= first[0].1);
    records.push(record(LogLevel::Info, m));
    let ghost head = records_view(records@);
    assert(head =~= start + first);
    let shown: usize = if ix.len() > 3 { 3 } else { ix.len() };
    let mut k: usize = 0;
    while k < shown
        invariant
            shown <= ix@.len(),
            shown <= 3,
            k <= shown,
            forall|j: int| 0 <= j < ix@.len() ==> #[trigger] ix@[j] < r.events@.len(),
            ix@.map_values(|i: usize| r.events@[i as int]) == evs,
            records_view(records@) == head + Seq::new(k as nat, |j: int| (LogLevel::Info, sample_text(j, evs[j]))),
        decreases shown - k,
    {
        let e = &r.events[ix[k]];
        assert(*e == evs[k as int]);
        let mut m = owned("    [");
        push_dec(&mut m, (k + 1) as u64);
        push_str(&mut m, "] PID=");
        push_dec(&mut m, e.process_id as u64);
        push_str(&mut m, " TID=");
        push_dec(&mut m, e.thread_id as u64);
        push_str(&mut m, " data=");
        push_str(&mut m, e.data.as_str());
        let ghost prev = records_view(records@);
        records.push(record(LogLevel::Info, m));
        proof {
            assert(records_view(records@) =~= prev.push((LogLevel::Info, sample_text(k as int, evs[k as int]))));
            assert(Seq::new((k + 1) as nat, |j: int| (LogLevel::Info, sample_text(j, evs[j]))) =~= Seq::new(
                k as nat,
                |j: int| (LogLevel::Info, sample_text(j, evs[j])),
            ).push((LogLevel::Info, sample_text(k as int, evs[k as int]))));
        }
        k = k + 1;
    }
    let ghost samples = Seq::new(shown as nat, |j: int| (LogLevel::Info, sample_text(j, evs[j])));
    assert(records_view(records@) == head + samples);
    let ghost tail = if evs.len() > 3 {
        seq![(LogLevel::Info, "    ... and "@ + dec((evs.len() - 3) as nat) + " more"@)]
    } else {
        Seq::<(LogLevel, Seq<char>)>::empty()
    };
    if ix.len() > 3 {
        let mut m = owned("    ... and ");
        push_dec(&mut m, (ix.len() - 3) as u64);
        push_str(&mut m, " more");
        assert(m@ =~= tail[0].1);
        records.push(record(LogLevel::Info, m));
        assert(records_view(records@) =~= head + samples + tail);
    } else {
        assert(records_view(records@) =~= head + samples + tail);
    }
    assert(config_records(*r, op, ver) == first + samples + tail);
    assert(records_view(records@) =~= start + config_records(*r, op, ver));
}

/// The names of the runs that are not among `cs`, in order.
fn absent_list(rs: &Vec<ParsedRun>, cs: &Vec<usize>) -> (v: Vec<String>)
    ensures
        str_views(v@) == absent_names(rs@, cs@, rs@.len() as int),
{
    let mut v: Vec<String> = Vec::new();
    let mut a: usize = 0;
    while a < rs.len()
        invariant
            a <= rs@.len(),
            str_views(v@) == absent_names(rs@, cs@, a as int),
        decreases rs.len() - a,
    {
        let mut found = false;
        let mut j: usize = 0;
        while j < cs.len()
            invariant
                j <= cs@.len(),
                found == (exists|x: int| 0 <= x < j && cs@[x] == a),
            decreases cs.len() - j,
        {
            if cs[j] == a {
                found = true;
            }
            j = j + 1;
        }
        proof {
            if found {
                let x = choose|x: int| 0 <= x < cs@.len() && cs@[x] == a;
                assert(cs@.contains(a));
            } else {
                assert(!cs@.contains(a));
            }
        }
        if !found {
            let ghost prev = str_views(v@);
            v.push(owned(rs[a].config_name.as_str()));
            assert(str_views(v@) =~= prev.push(rs@[a as int].config_name@));
        }
        a = a + 1;
    }
    v
}

fn push_group_records(records: &mut Vec<LogRecord>, rs: &Vec<ParsedRun>, g: &TypeGroup)
    requires
        forall|j: int| 0 <= j < g.configs@.len() ==> #[trigger] g.configs@[j] < rs@.len(),
    ensures
        records_view(final(records)@) == records_view(old(records)@) + group_records(rs@, *g),
{
    let ghost start = records_view(records@);
    records.push(record(LogLevel::Info, label(g.opcode, g.version)));
    let ghost head = records_view(records@);
    let mut k: usize = 0;
    while k < g.configs.len()
        invariant
            k <= g.configs@.len(),
            forall|j: int| 0 <= j < g.configs@.len() ==> #[trigger] g.configs@[j] < rs@.len(),
            records_view(records@) == head + configs_records(rs@, g.configs@.subrange(0, k as int), g.opcode, g.version),
        decreases g.configs.len() - k,
    {
        assert(g.configs@[k as int] < rs@.len());
        push_config_records(records, &rs[g.configs[k]], g.opcode, g.version);
        proof {
            assert(g.configs@.subrange(0, k + 1).drop_last() =~= g.configs@.subrange(0, k as int));
        }
        k = k + 1;
    }
    assert(g.configs@.subrange(0, g.configs@.len() as int) =~= g.configs@);
    let ghost body = records_view(records@);
    assert(head =~= start + seq![(LogLevel::Info, label_text(g.opcode, g.version))]);
    let ghost absent_v = absent_names(rs@, g.configs@, rs@.len() as int);
    let ghost tail = if g.configs@.len() < rs@.len() && absent_v.len() > 0 {
        seq![(LogLevel::Info, "  NOT present in: "@ + join(absent_v, ", "@))]
    } else {
        Seq::<(LogLevel, Seq<char>)>::empty()
    };
    if g.configs.len() < rs.len() {
        let absent = absent_list(rs, &g.configs);
        assert(absent@.len() == absent_v.len());
        if absent.len() > 0 {
            let mut m = owned("  NOT present in: ");
            let j = join_strings(&absent, ", ");
            push_str(&mut m, j.as_str());
            assert(m@ =~= tail[0].1);
            records.push(record(LogLevel::Info, m));
        }
    }
    assert(records_view(records@) =~= body + tail);
    assert(group_records(rs@, *g) == seq![(LogLevel::Info, label_text(g.opcode, g.version))] + configs_records(
        rs@,
        g.configs@,
        g.opcode,
        g.version,
    ) + tail);
    assert(records_view(records@) =~= start + group_records(rs@, *g));
}

/// The name of the version-3 event of `op` in the registry, `UNKNOWN` when it
/// has none.
pub open spec fn flt_label(op: u8) -> Seq<char> {
    if is_known(op as u16, 3) {
        registry()[choose|i: int| #[trigger] has_key(registry(), i, op as u16, 3u8)].event_name@
    } else {
        "UNKNOWN"@
    }
}

fn flt_label_exec(op: u8) -> (s: String)
    ensures
        s@ == flt_label(op),
{
    match lookup_event(op as u16, 3) {
        Some(known) => {
            proof {
                let i = choose|i: int| has_key(registry(), i, op as u16, 3u8) && registry()[i] == known;
                let c = choose|i: int| #[trigger] has_key(registry(), i, op as u16, 3u8);
                law_registry_keys_unique(i, c);
            }
            owned(known.event_name)
        },
        None => owned("UNKNOWN"),
    }
}

/// The first of the first `n` runs named `name`, if any.
pub open spec fn first_named(rs: Seq<ParsedRun>, name: Seq<char>, n: int) -> Option<int>
    decreases n,
{
    if n <= 0 {
        None
    } else {
        match first_named(rs, name, n - 1) {
            Some(a) => Some(a),
            None => if rs[n - 1].config_name@ == name {
                Some(n - 1)
            } else {
                None
            },
        }
    }
}

fn find_named(rs: &Vec<ParsedRun>, name: &str) -> (r: Option<usize>)
    ensures
        r matches Some(a) ==> a < rs@.len() && first_named(rs@, name@, rs@.len() as int) == Some(a as int),
        r is None ==> first_named(rs@, name@, rs@.len() as int) is None,
{
    let mut a: usize = 0;
    while a < rs.len()
        invariant
            a <= rs@.len(),
            first_named(rs@, name@, a as int) is None,
        decreases rs.len() - a,
    {
        if text_eq(rs[a].config_name.as_str(), name) {
            proof {
                assert(first_named(rs@, name@, a + 1) == Some(a as int));
                lemma_first_named_stays(rs@, name@, a + 1, rs@.len() as int);
            }
            return Some(a);
        }
        a = a + 1;
    }
    None
}

proof fn lemma_first_named_stays(rs: Seq<ParsedRun>, name: Seq<char>, n: int, m: int)
    requires
        n <= m,
        first_named(rs, name, n) is Some,
    ensures
        first_named(rs, name, m) == first_named(rs, name, n),
        first_named(rs, name, n) matches Some(a) && 0 <= a < n,
    decreases m - n,
{
    if n < m {
        lemma_first_named_stays(rs, name, n, m - 1);
    } else {
        lemma_first_named_in_range(rs, name, n);
    }
}

proof fn lemma_first_named_in_range(rs: Seq<ParsedRun>, name: Seq<char>, n: int)
    ensures
        first_named(rs, name, n) matches Some(a) ==> 0 <= a < n,
    decreases n,
{
    if n > 0 {
        lemma_first_named_in_range(rs, name, n - 1);
    }
}

/// The data of the events of `s` with opcode `op` (any version), in order.
pub open spec fn opcode_data(s: Seq<ParsedEvent>, op: u8) -> Seq<Seq<char>>
    decreases s.len(),
{
    if s.len() == 0 {
        Seq::empty()
    } else if s.last().opcode == op {
        opcode_data(s.drop_last(), op).push(s.last().data@)
    } else {
        opcode_data(s.drop_last(), op)
    }
}

/// The distinct texts of `s`, in the order they first appear.
pub open spec fn distinct_texts(s: Seq<Seq<char>>) -> Seq<Seq<char>>
    decreases s.len(),
{
    if s.len() == 0 {
        Seq::empty()
    } else if distinct_texts(s.drop_last()).contains(s.last()) {
        distinct_texts(s.drop_last())
    } else {
        distinct_texts(s.drop_last()).push(s.last())
    }
}

/// `  {cfg}: {n} events` for the events of `op` of the run named `cfg`, or
/// `  {cfg}: no data` without such a run.
pub open spec fn flt_count_records(rs: Seq<ParsedRun>, cfg: Seq<char>, op: u8) -> Seq<(LogLevel, Seq<char>)> {
    match first_named(rs, cfg, rs.len() as int) {
        Some(a) => seq![
            (LogLevel::Info, "  "@ + cfg + ": "@ + dec(opcode_data(rs[a].events@, op).len()) + " events"@),
        ],
        None => seq![(LogLevel::Info, "  "@ + cfg + ": no data"@)],
    }
}

/// The distinct data values of the events of `op` of the run named `cfg`: their
/// number, the first five, and how many more there are; nothing when the run is
/// missing or has no such event.
pub open spec fn flt_unique_records(rs: Seq<ParsedRun>, cfg: Seq<char>, op: u8) -> Seq<(LogLevel, Seq<char>)> {
    match first_named(rs, cfg, rs.len() as int) {
        Some(a) => if opcode_data(rs[a].events@, op).len() > 0 {
            let u = distinct_texts(opcode_data(rs[a].events@, op));
            let shown = if u.len() > 5 { 5 } else { u.len() as int };
            seq![(LogLevel::Info, "  "@ + cfg + " unique data values: "@ + dec(u.len()))] + Seq::new(
                shown as nat,
                |k: int| (LogLevel::Info, "    ["@ + dec((k + 1) as nat) + "] "@ + u[k]),
            ) + if u.len() > 5 {
                seq![(LogLevel::Info, "    ... and "@ + dec((u.len() - 5) as nat) + " more unique values"@)]
            } else {
                Seq::empty()
            }
        } else {
            Seq::empty()
        },
        None => Seq::empty(),
    }
}

/// The FltIo completion comparison of one opcode between the PERF_FLT_FASTIO and
/// PERF_FLT_IO configurations.
pub open spec fn flt_op_records(rs: Seq<ParsedRun>, op: u8) -> Seq<(LogLevel, Seq<char>)> {
    seq![(LogLevel::Info, flt_label(op) + " (Opcode="@ + dec(op as nat) + "):"@)] + flt_count_records(
        rs,
        "GM:PERF_FLT_FASTIO"@,
        op,
    ) + flt_count_records(rs, "GM:PERF_FLT_IO"@, op) + flt_unique_records(rs, "GM:PERF_FLT_FASTIO"@, op)
        + flt_unique_records(rs, "GM:PERF_FLT_IO"@, op)
}

/// Positions of the events of `s` with opcode `op`, in order.
fn opcode_positions(s: &Vec<ParsedEvent>, op: u8) -> (ix: Vec<usize>)
    ensures
        forall|j: int| 0 <= j < ix@.len() ==> #[trigger] ix@[j] < s@.len(),
        ix@.map_values(|i: usize| s@[i as int].data@) == opcode_data(s@, op),
{
    let mut ix: Vec<usize> = Vec::new();
    let mut e: usize = 0;
    while e < s.len()
        invariant
            e <= s@.len(),
            forall|j: int| 0 <= j < ix@.len() ==> #[trigger] ix@[j] < e,
            ix@.map_values(|i: usize| s@[i as int].data@) == opcode_data(s@.subrange(0, e as int), op),
        decreases s.len() - e,
    {
        let ghost before = ix@;
        if s[e].opcode == op {
            ix.push(e);
        }
        proof {
            assert(s@.subrange(0, e + 1).drop_last() =~= s@.subrange(0, e as int));
            assert(s@.subrange(0, e + 1).last() == s@[e as int]);
            if ix@.len() > before.len() {
                assert(ix@.map_values(|i: usize| s@[i as int].data@) =~= before.map_values(|i: usize| s@[i as int].data@).push(
                    s@[e as int].data@,
                ));
            }
        }
        e = e + 1;
    }
    assert(s@.subrange(0, s@.len() as int) =~= s@);
    ix
}

/// The distinct data values, as positions of their first events.
fn distinct_positions(s: &Vec<ParsedEvent>, ix: &Vec<usize>) -> (u: Vec<usize>)
    requires
        forall|j: int| 0 <= j < ix@.len() ==> #[trigger] ix@[j] < s@.len(),
    ensures
        forall|j: int| 0 <= j < u@.len() ==> #[trigger] u@[j] < s@.len(),
        u@.map_values(|i: usize| s@[i as int].data@) == distinct_texts(ix@.map_values(|i: usize| s@[i as int].data@)),
{
    let ghost d = ix@.map_values(|i: usize| s@[i as int].data@);
    let mut u: Vec<usize> = Vec::new();
    let mut k: usize = 0;
    while k < ix.len()
        invariant
            k <= ix@.len(),
            d == ix@.map_values(|i: usize| s@[i as int].data@),
            forall|j: int| 0 <= j < ix@.len() ==> #[trigger] ix@[j] < s@.len(),
            forall|j: int| 0 <= j < u@.len() ==> #[trigger] u@[j] < s@.len(),
            u@.map_values(|i: usize| s@[i as int].data@) == distinct_texts(d.subrange(0, k as int)),
        decreases ix.len() - k,
    {
        let ghost uv = u@.map_values(|i: usize| s@[i as int].data@);
        let x = &s[ix[k]].data;
        let mut found = false;
        let mut j: usize = 0;
        while j < u.len()
            invariant
                j <= u@.len(),
                k < ix@.len(),
                uv == u@.map_values(|i: usize| s@[i as int].data@),
                forall|q: int| 0 <= q < u@.len() ==> #[trigger] u@[q] < s@.len(),
                *x == s@[ix@[k as int] as int].data,
                found == (exists|q: int| 0 <= q < j && uv[q] == x@),
            decreases u.len() - j,
        {
            assert(uv[j as int] == s@[u@[j as int] as int].data@);
            if text_eq(s[u[j]].data.as_str(), x.as_str()) {
                found = true;
            }
            j = j + 1;
        }
        proof {
            assert(d.subrange(0, k + 1).drop_last() =~= d.subrange(0, k as int));
            assert(d.subrange(0, k + 1).last() == x@);
            if found {
                let q = choose|q: int| 0 <= q < u@.len() && uv[q] == x@;
                assert(uv.contains(x@));
            } else {
                assert(!uv.contains(x@));
            }
        }
        if !found {
            let ghost before = u@;
            u.push(ix[k]);
            assert(u@.map_values(|i: usize| s@[i as int].data@) =~= uv.push(x@));
        }
        k = k + 1;
    }
    assert(d.subrange(0, ix@.len() as int) =~= d);
    u
}

fn push_flt_count(records: &mut Vec<LogRecord>, rs: &Vec<ParsedRun>, cfg: &str, op: u8)
    ensures
        records_view(final(records)@) == records_view(old(records)@) + flt_count_records(rs@, cfg@, op),
{
    let ghost start = records_view(records@);
    match find_named(rs, cfg) {
        Some(a) => {
            assert(first_named(rs@, cfg@, rs@.len() as int) == Some(a as int));
            let ix = opcode_positions(&rs[a].events, op);
            assert(ix@.len() == opcode_data(rs@[a as int].events@, op).len());
            let mut m = owned("  ");
            push_str(&mut m, cfg);
            push_str(&mut m, ": ");
            push_dec(&mut m, ix.len() as u64);
            push_str(&mut m, " events");
            assert(m@ =~= "  "@ + cfg@ + ": "@ + dec(opcode_data(rs@[a as int].events@, op).len()) + " events"@);
            records.push(record(LogLevel::Info, m));
            assert(flt_count_records(rs@, cfg@, op) == seq![
                (LogLevel::Info, "  "@ + cfg@ + ": "@ + dec(opcode_data(rs@[a as int].events@, op).len()) + " events"@),
            ]);
        },
        None => {
            let mut m = owned("  ");
            push_str(&mut m, cfg);
            push_str(&mut m, ": no data");
            assert(m@ =~= "  "@ + cfg@ + ": no data"@);
            records.push(record(LogLevel::Info, m));
            assert(first_named(rs@, cfg@, rs@.len() as int) is None);
        },
    }
    assert(records_view(records@) =~= start + flt_count_records(rs@, cfg@, op));
}

fn push_flt_unique(records: &mut Vec<LogRecord>, rs: &Vec<ParsedRun>, cfg: &str, op: u8)
    ensures
        records_view(final(records)@) == records_view(old(records)@) + flt_unique_records(rs@, cfg@, op),
{
    let ghost start = records_view(records@);
    match find_named(rs, cfg) {
        Some(a) => {
            assert(first_named(rs@, cfg@, rs@.len() as int) == Some(a as int));
            let run = &rs[a];
            let ix = opcode_positions(&run.events, op);
            assert(*run == rs@[a as int]);
            assert(ix@.len() == opcode_data(run.events@, op).len());
            if ix.len() > 0 {
                let u = distinct_positions(&run.events, &ix);
                let ghost uv = distinct_texts(opcode_data(run.events@, op));
                assert(u@.len() == uv.len());
                let mut m = owned("  ");
                push_str(&mut m, cfg);
                push_str(&mut m, " unique data values: ");
                push_dec(&mut m, u.len() as u64);
                let ghost first = seq![(LogLevel::Info, "  "@ + cfg@ + " unique data values: "@ + dec(uv.len()))];
                assert(m@ =~= first[0].1);
                records.push(record(LogLevel::Info, m));
                let ghost head = records_view(records@);
                assert(head =~= start + first);
                let shown: usize = if u.len() > 5 { 5 } else { u.len() };
                let mut k: usize = 0;
                while k < shown
                    invariant
                        shown <= u@.len(),
                        k <= shown,
                        forall|j: int| 0 <= j < u@.len() ==> #[trigger] u@[j] < run.events@.len(),
                        u@.map_values(|i: usize| run.events@[i as int].data@) == uv,
                        records_view(records@) == head + Seq::new(
                            k as nat,
                            |j: int| (LogLevel::Info, "    ["@ + dec((j + 1) as nat) + "] "@ + uv[j]),
                        ),
                    decreases shown - k,
                {
                    let mut m = owned("    [");
                    push_dec(&mut m, (k + 1) as u64);
                    push_str(&mut m, "] ");
                    push_str(&mut m, run.events[u[k]].data.as_str());
                    assert(run.events@[u@[k as int] as int].data@ == uv[k as int]);
                    assert(m@ =~= "    ["@ + dec((k + 1) as nat) + "] "@ + uv[k as int]);
                    let ghost prev = records_view(records@);
                    records.push(record(LogLevel::Info, m));
                    proof {
                        assert(records_view(records@) =~= prev.push(
                            (LogLevel::Info, "    ["@ + dec((k + 1) as nat) + "] "@ + uv[k as int]),
                        ));
                        assert(Seq::new((k + 1) as nat, |j: int| (LogLevel::Info, "    ["@ + dec((j + 1) as nat) + "] "@ + uv[j]))
                            =~= Seq::new(k as nat, |j: int| (LogLevel::Info, "    ["@ + dec((j + 1) as nat) + "] "@ + uv[j])).push(
                            (LogLevel::Info, "    ["@ + dec((k + 1) as nat) + "] "@ + uv[k as int]),
                        ));
                    }
                    k = k + 1;
                }
                let ghost samples = Seq::new(
                    shown as nat,
                    |j: int| (LogLevel::Info, "    ["@ + dec((j + 1) as nat) + "] "@ + uv[j]),
                );
                let ghost tail = if uv.len() > 5 {
                    seq![(LogLevel::Info, "    ... and "@ + dec((uv.len() - 5) as nat) + " more unique values"@)]
                } else {
                    Seq::<(LogLevel, Seq<char>)>::empty()
                };
                if u.len() > 5 {
                    let mut m = owned("    ... and ");
                    push_dec(&mut m, (u.len() - 5) as u64);
                    push_str(&mut m, " more unique values");
                    assert(m@ =~= tail[0].1);
                    records.push(record(LogLevel::Info, m));
                }
                assert(records_view(records@) =~= head + samples + tail);
                assert(flt_unique_records(rs@, cfg@, op) == first + samples + tail);
            }
        },
        None => {},
    }
    assert(records_view(records@) =~= start + flt_unique_records(rs@, cfg@, op));
}

/// The records of the parsed event comparison: a heading, each event type (see
/// `group_types`) with its configurations, samples and the configurations it is
/// missing from, then the FltIo completion comparison (opcodes 98 and 99)
/// between the PERF_FLT_FASTIO and PERF_FLT_IO configurations.
pub open spec fn comparison_records(rs: Seq<ParsedRun>, gs: Seq<TypeGroup>) -> Seq<(LogLevel, Seq<char>)> {
    seq![
        (LogLevel::Info, Seq::<char>::empty()),
        (LogLevel::Info, "=== PARSED EVENT COMPARISON ==="@),
        (LogLevel::Info, "Comparing parsed event data across flag combinations to identify differences."@),
        (LogLevel::Info, Seq::<char>::empty()),
    ] + groups_records(rs, gs) + seq![
        (LogLevel::Info, Seq::<char>::empty()),
        (LogLevel::Info, "=== FLT IO COMPLETION COMPARISON ==="@),
        (LogLevel::Info, "Comparing FltIoCompletion events between PERF_FLT_FASTIO and PERF_FLT_IO"@),
        (LogLevel::Info, Seq::<char>::empty()),
    ] + flt_op_records(rs, 98) + flt_op_records(rs, 99)
}

fn push_flt_op(records: &mut Vec<LogRecord>, rs: &Vec<ParsedRun>, op: u8)
    ensures
        records_view(final(records)@) == records_view(old(records)@) + flt_op_records(rs@, op),
{
    let ghost start = records_view(records@);
    let mut m = flt_label_exec(op);
    push_str(&mut m, " (Opcode=");
    push_dec(&mut m, op as u64);
    push_str(&mut m, "):");
    records.push(record(LogLevel::Info, m));
    push_flt_count(records, rs, "GM:PERF_FLT_FASTIO", op);
    push_flt_count(records, rs, "GM:PERF_FLT_IO", op);
    push_flt_unique(records, rs, "GM:PERF_FLT_FASTIO", op);
    push_flt_unique(records, rs, "GM:PERF_FLT_IO", op);
    assert(records_view(records@) =~= start + flt_op_records(rs@, op));
}

/// The parsed event comparison and the groups it shows.
#[derive(Debug, Clone)]
pub struct ParsedComparison {
    pub groups: Vec<TypeGroup>,
    pub records: Vec<LogRecord>,
}

/// Compares the parsed events of the configurations (each name once).
pub fn parsed_comparison(runs: &Vec<ParsedRun>) -> (c: ParsedComparison)
    requires
        names_distinct(runs@),
    ensures
        groups_ok(runs@, c.groups@),
        records_view(c.records@) == comparison_records(runs@, c.groups@),
{
    let groups = group_types(runs);
    let mut records: Vec<LogRecord> = Vec::new();
    records.push(record(LogLevel::Info, String::new()));
    records.push(record(LogLevel::Info, owned("=== PARSED EVENT COMPARISON ===")));
    records.push(record(LogLevel::Info, owned("Comparing parsed event data across flag combinations to identify differences.")));
    records.push(record(LogLevel::Info, String::new()));
    let ghost head = records_view(records@);
    let mut i: usize = 0;
    while i < groups.len()
        invariant
            i <= groups@.len(),
            groups_ok(runs@, groups@),
            records_view(records@) == head + groups_records(runs@, groups@.subrange(0, i as int)),
        decreases groups.len() - i,
    {
        assert(type_group_ok(runs@, groups@[i as int]));
        push_group_records(&mut records, runs, &groups[i]);
        proof {
            assert(groups@.subrange(0, i + 1).drop_last() =~= groups@.subrange(0, i as int));
        }
        i = i + 1;
    }
    assert(groups@.subrange(0, groups@.len() as int) =~= groups@);
    records.push(record(LogLevel::Info, String::new()));
    records.push(record(LogLevel::Info, owned("=== FLT IO COMPLETION COMPARISON ===")));
    records.push(record(LogLevel::Info, owned("Comparing FltIoCompletion events between PERF_FLT_FASTIO and PERF_FLT_IO")));
    records.push(record(LogLevel::Info, String::new()));
    let ghost mid = records_view(records@);
    assert(mid =~= head + groups_records(runs@, groups@) + seq![
        (LogLevel::Info, Seq::<char>::empty()),
        (LogLevel::Info, "=== FLT IO COMPLETION COMPARISON ==="@),
        (LogLevel::Info, "Comparing FltIoCompletion events between PERF_FLT_FASTIO and PERF_FLT_IO"@),
        (LogLevel::Info, Seq::<char>::empty()),
    ]);
    push_flt_op(&mut records, runs, 98);
    push_flt_op(&mut records, runs, 99);
    assert(records_view(records@) =~= comparison_records(runs@, groups@));
    ParsedComparison { groups, records }
}

} // verus!
