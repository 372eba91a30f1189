//! The results of flag discovery as they are written out: one entry per
//! discovered event type with its flag names and versions, the event types never
//! discovered, and the text summary.

use vstd::prelude::*;
use crate::discovery::{
    DiscoveredOpcode, EventTypeInfo, Flag, chosen_names, find_type, first_type_with, indices_valid,
    names_of, sorted_vec, values_in, set_values_in, ascending_versions,
};
use crate::discovery::{WarningEntry, WarningKind};
use crate::text::{dec, hex8_upper, join, join_strings, owned, push_dec, push_padded, push_str, str_views};

verus! {

broadcast use vstd::seq_lib::group_to_multiset_ensures;

/// A discovered event type as written out.
#[derive(Debug, Clone)]
pub struct DiscoveredEntry {
    pub opcode: u8,
    pub event_name: String,
    pub class_name: String,
    pub best_size: usize,
    /// The smallest combinations, each as its flag names.
    pub combinations: Vec<Vec<String>>,
    /// The versions seen, ascending.
    pub observed_versions: Vec<u8>,
}

/// Some record is for opcode `op`.
pub open spec fn has_opcode(ds: Seq<DiscoveredOpcode>, op: int) -> bool {
    exists|q: int| 0 <= q < ds.len() && ds[q].opcode as int == op
}

/// The record for opcode `op` (the one there is when opcodes are distinct).
pub open spec fn record_for(ds: Seq<DiscoveredOpcode>, op: u8) -> DiscoveredOpcode {
    ds[choose|q: int| 0 <= q < ds.len() && ds[q].opcode == op]
}

/// The opcodes below `hi` that have a record, ascending.
pub open spec fn recorded_opcodes(ds: Seq<DiscoveredOpcode>, hi: int) -> Seq<int>
    decreases hi,
{
    if hi <= 0 {
        Seq::empty()
    } else if has_opcode(ds, hi - 1) {
        recorded_opcodes(ds, hi - 1).push(hi - 1)
    } else {
        recorded_opcodes(ds, hi - 1)
    }
}

/// No two records are for the same opcode.
pub open spec fn records_distinct(ds: Seq<DiscoveredOpcode>) -> bool {
    forall|a: int, b: int| 0 <= a < b < ds.len() ==> ds[a].opcode != ds[b].opcode
}

/// Every combination of every record is a combination of `flags`.
pub open spec fn records_valid(ds: Seq<DiscoveredOpcode>, flags: Seq<Flag>) -> bool {
    forall|q: int, c: int|
        0 <= q < ds.len() && 0 <= c < ds[q].discovery.combinations@.len() ==> indices_valid(
            flags,
            #[trigger] ds[q].discovery.combinations@[c]@,
        )
}

/// The name of the event type of `op`, empty without one.
pub open spec fn type_name_of(types: Seq<EventTypeInfo>, op: u8) -> Seq<char> {
    match first_type_with(types, op) {
        Some(t) => t.event_name@,
        None => Seq::empty(),
    }
}

/// The class of the event type of `op`, empty without one.
pub open spec fn type_class_of(types: Seq<EventTypeInfo>, op: u8) -> Seq<char> {
    match first_type_with(types, op) {
        Some(t) => t.class_name@,
        None => Seq::empty(),
    }
}

/// The combinations of a record as flag names.
pub open spec fn combination_names(d: DiscoveredOpcode, flags: Seq<Flag>) -> Seq<Seq<Seq<char>>> {
    d.discovery.combinations@.map_values(|c: Vec<usize>| chosen_names(flags, c@))
}

/// The combinations of an entry as text.
pub open spec fn entry_combinations(e: DiscoveredEntry) -> Seq<Seq<Seq<char>>> {
    e.combinations@.map_values(|c: Vec<String>| str_views(c@))
}

/// `e` is the entry of record `d`.
pub open spec fn entry_of(e: DiscoveredEntry, d: DiscoveredOpcode, flags: Seq<Flag>, types: Seq<EventTypeInfo>) -> bool {
    &&& e.opcode == d.opcode
    &&& e.event_name@ == type_name_of(types, d.opcode)
    &&& e.class_name@ == type_class_of(types, d.opcode)
    &&& e.best_size == d.discovery.best_size
    &&& entry_combinations(e) == combination_names(d, flags)
    &&& e.observed_versions@ == set_values_in(d.discovery.observed_versions@, 0, 256)
}

fn entry_for(d: &DiscoveredOpcode, flags: &Vec<Flag>, types: &Vec<EventTypeInfo>) -> (e: DiscoveredEntry)
    requires
        forall|c: int| 0 <= c < d.discovery.combinations@.len() ==> indices_valid(flags@, #[trigger] d.discovery.combinations@[c]@),
    ensures
        entry_of(e, *d, flags@, types@),
{
    let (event_name, class_name) = match find_type(types, d.opcode) {
        Some(t) => (t.event_name.to_string(), t.class_name.to_string()),
        None => (String::new(), String::new()),
    };
    let combos = &d.discovery.combinations;
    let mut combinations: Vec<Vec<String>> = Vec::new();
    let mut c: usize = 0;
    while c < combos.len()
        invariant
            c <= combos@.len(),
            forall|k: int| 0 <= k < combos@.len() ==> indices_valid(flags@, #[trigger] combos@[k]@),
            combinations@.map_values(|x: Vec<String>| str_views(x@)) == combos@.subrange(0, c as int).map_values(
                |x: Vec<usize>| chosen_names(flags@, x@),
            ),
        decreases combos.len() - c,
    {
        let ghost before = combinations@;
        combinations.push(names_of(flags, &combos[c]));
        proof {
            assert(combinations@.map_values(|x: Vec<String>| str_views(x@)) =~= before.map_values(
                |x: Vec<String>| str_views(x@),
            ).push(chosen_names(flags@, combos@[c as int]@)));
            assert(combos@.subrange(0, c + 1).map_values(|x: Vec<usize>| chosen_names(flags@, x@)) =~= combos@.subrange(
                0,
                c as int,
            ).map_values(|x: Vec<usize>| chosen_names(flags@, x@)).push(chosen_names(flags@, combos@[c as int]@)));
        }
        c = c + 1;
    }
    assert(combos@.subrange(0, combos@.len() as int) =~= combos@);
    DiscoveredEntry {
        opcode: d.opcode,
        event_name,
        class_name,
        best_size: d.discovery.best_size,
        combinations,
        observed_versions: ascending_versions(&d.discovery.observed_versions),
    }
}

/// The discovered event types as written out, by opcode: their names (empty
/// without an event type), best size, combinations as flag names, and versions.
pub fn discovered_entries(
    discovered: &Vec<DiscoveredOpcode>,
    flags: &Vec<Flag>,
    types: &Vec<EventTypeInfo>,
) -> (r: Vec<DiscoveredEntry>)
    requires
        records_distinct(discovered@),
        records_valid(discovered@, flags@),
    ensures
        r@.map_values(|e: DiscoveredEntry| e.opcode as int) == recorded_opcodes(discovered@, 256),
        forall|j: int| 0 <= j < r@.len() ==> entry_of(#[trigger] r@[j], record_for(discovered@, r@[j].opcode), flags@, types@),
{
    let ghost ds = discovered@;
    let mut r: Vec<DiscoveredEntry> = Vec::new();
    let mut op: usize = 0;
    while op < 256
        invariant
            op <= 256,
            ds == discovered@,
            records_distinct(ds),
            records_valid(ds, flags@),
            r@.map_values(|e: DiscoveredEntry| e.opcode as int) == recorded_opcodes(ds, op as int),
            forall|j: int| 0 <= j < r@.len() ==> entry_of(#[trigger] r@[j], record_for(ds, r@[j].opcode), flags@, types@),
        decreases 256 - op,
    {
        let mut q: usize = 0;
        while q < discovered.len() && discovered[q].opcode as usize != op
            invariant
                q <= ds.len(),
                ds == discovered@,
                forall|m: int| 0 <= m < q ==> ds[m].opcode as int != op,
            decreases discovered.len() - q,
        {
            q = q + 1;
        }
        let ghost before = r@;
        if q < discovered.len() {
            let d = &discovered[q];
            proof {
                assert(has_opcode(ds, op as int));
                let w = choose|w: int| 0 <= w < ds.len() && ds[w].opcode == op as u8;
                if w != q {
                    if w < q {
                        assert(ds[w].opcode != ds[q as int].opcode);
                    } else {
                        assert(ds[q as int].opcode != ds[w].opcode);
                    }
                }
                assert(record_for(ds, op as u8) == *d);
                assert forall|c: int| 0 <= c < d.discovery.combinations@.len() implies indices_valid(flags@, #[trigger] d.discovery.combinations@[c]@) by {
                    assert(indices_valid(flags@, ds[q as int].discovery.combinations@[c]@));
                }
            }
            let e = entry_for(d, flags, types);
            r.push(e);
            proof {
                assert(r@.map_values(|e: DiscoveredEntry| e.opcode as int) =~= before.map_values(
                    |e: DiscoveredEntry| e.opcode as int,
                ).push(op as int));
                assert forall|j: int| 0 <= j < r@.len() implies entry_of(#[trigger] r@[j], record_for(ds, r@[j].opcode), flags@, types@) by {
                    if j < before.len() {
                        assert(r@[j] == before[j]);
                    }
                }
            }
        } else {
            proof {
                assert(!has_opcode(ds, op as int));
                assert(r@.map_values(|e: DiscoveredEntry| e.opcode as int) =~= recorded_opcodes(ds, op + 1));
            }
        }
        op = op + 1;
    }
    r
}

/// The first `n` event types that no record is for, in order.
pub open spec fn undiscovered_upto(ds: Seq<DiscoveredOpcode>, types: Seq<EventTypeInfo>, n: int) -> Seq<EventTypeInfo>
    decreases n,
{
    if n <= 0 {
        Seq::empty()
    } else if !has_opcode(ds, types[n - 1].opcode as int) {
        undiscovered_upto(ds, types, n - 1).push(types[n - 1])
    } else {
        undiscovered_upto(ds, types, n - 1)
    }
}

/// The event types that were never discovered, in their order.
pub fn undiscovered(discovered: &Vec<DiscoveredOpcode>, types: &Vec<EventTypeInfo>) -> (r: Vec<EventTypeInfo>)
    ensures
        r@ == undiscovered_upto(discovered@, types@, types@.len() as int),
{
    let mut r: Vec<EventTypeInfo> = Vec::new();
    let mut i: usize = 0;
    while i < types.len()
        invariant
            i <= types@.len(),
            r@ == undiscovered_upto(discovered@, types@, i as int),
        decreases types.len() - i,
    {
        let t = types[i];
        let mut q: usize = 0;
        while q < discovered.len() && discovered[q].opcode != t.opcode
            invariant
                q <= discovered@.len(),
                t == types@[i as int],
                forall|m: int| 0 <= m < q ==> discovered@[m].opcode != t.opcode,
            decreases discovered.len() - q,
        {
            q = q + 1;
        }
        if q == discovered.len() {
            r.push(t);
        } else {
            assert(has_opcode(discovered@, t.opcode as int));
        }
        i = i + 1;
    }
    r
}

/// The order in which the summary lists entries: by best size, then opcode.
pub open spec fn size_key(e: DiscoveredEntry) -> int {
    e.best_size as int * 256 + e.opcode as int
}

/// The entries are strictly ordered by best size, then opcode.
pub open spec fn by_size_order(es: Seq<DiscoveredEntry>) -> bool {
    forall|a: int, b: int| 0 <= a < b < es.len() ==> size_key(es[a]) < size_key(es[b])
}

/// The entries reordered by best size, then opcode (the summary's grouping by
/// size keeps the opcode order within a size).
pub fn group_by_size(entries: Vec<DiscoveredEntry>) -> (r: Vec<DiscoveredEntry>)
    requires
        forall|a: int, b: int| 0 <= a < b < entries@.len() ==> entries@[a].opcode != entries@[b].opcode,
    ensures
        by_size_order(r@),
        r@.to_multiset() == entries@.to_multiset(),
{
    let ghost all = entries@;
    let mut rest = entries;
    let mut r: Vec<DiscoveredEntry> = Vec::new();
    while rest.len() > 0
        invariant
            by_size_order(r@),
            r@.to_multiset().add(rest@.to_multiset()) == all.to_multiset(),
            forall|a: int, b: int| 0 <= a < b < all.len() ==> all[a].opcode != all[b].opcode,
            forall|x: DiscoveredEntry| #[trigger] r@.to_multiset().count(x) > 0 ==> all.to_multiset().count(x) > 0,
            forall|x: DiscoveredEntry, y: DiscoveredEntry|
                #![trigger r@.to_multiset().count(x), rest@.to_multiset().count(y)]
                r@.to_multiset().count(x) > 0 && rest@.to_multiset().count(y) > 0 ==> x.opcode != y.opcode,
            forall|a: int, b: int| 0 <= a < b < rest@.len() ==> rest@[a].opcode != rest@[b].opcode,
        decreases rest.len(),
    {
        let ghost rest_before = rest@;
        let ghost r_before = r@;
        let e = rest.pop().unwrap();
        proof {
            assert(rest_before =~= rest@.push(e));
            vstd::seq_lib::to_multiset_build(rest@, e);
        }
        let key = e.best_size as u128 * 256 + e.opcode as u128;
        let mut p: usize = 0;
        while p < r.len() && (r[p].best_size as u128 * 256 + r[p].opcode as u128) < key
            invariant
                p <= r@.len(),
                r@ == r_before,
                key == size_key(e),
                forall|m: int| 0 <= m < p ==> size_key(r@[m]) < size_key(e),
            decreases r.len() - p,
        {
            p = p + 1;
        }
        proof {
            if p < r_before.len() {
                assert(r_before.to_multiset().count(r_before[p as int]) > 0);
                assert(rest_before.to_multiset().count(e) > 0);
                assert(r_before[p as int].opcode != e.opcode);
                assert(size_key(r_before[p as int]) != size_key(e));
            }
        }
        r.insert(p, e);
        proof {
            vstd::seq_lib::to_multiset_insert(r_before, p as int, e);
            let n = r@;
            assert forall|a: int, b: int| 0 <= a < b < n.len() implies size_key(n[a]) < size_key(n[b]) by {
                if b < p {
                    assert(n[a] == r_before[a] && n[b] == r_before[b]);
                } else if b == p {
                    assert(n[a] == r_before[a]);
                } else if a < p {
                    assert(n[a] == r_before[a] && n[b] == r_before[b - 1]);
                } else if a == p {
                    assert(n[b] == r_before[b - 1]);
                    assert(size_key(r_before[p as int]) <= size_key(r_before[b - 1]));
                } else {
                    assert(n[a] == r_before[a - 1] && n[b] == r_before[b - 1]);
                }
            }
            assert(r@.to_multiset().add(rest@.to_multiset()) =~= all.to_multiset());
            assert forall|a: int, b: int| 0 <= a < b < rest@.len() implies rest@[a].opcode != rest@[b].opcode by {
                assert(rest@[a] == rest_before[a] && rest@[b] == rest_before[b]);
            }
            assert forall|x: DiscoveredEntry| #[trigger] r@.to_multiset().count(x) > 0 implies all.to_multiset().count(x) > 0 by {
            }
            assert forall|x: DiscoveredEntry, y: DiscoveredEntry|
                #![trigger r@.to_multiset().count(x), rest@.to_multiset().count(y)]
                r@.to_multiset().count(x) > 0 && rest@.to_multiset().count(y) > 0 implies x.opcode != y.opcode by {
                assert(rest_before.to_multiset().count(y) > 0);
                if x == e {
                    let iy = choose|iy: int| 0 <= iy < rest@.len() && rest@[iy] == y;
                    assert(rest_before[iy] == y);
                    assert(rest_before[rest_before.len() - 1] == e);
                    assert(iy < rest_before.len() - 1);
                } else {
                    assert(r_before.to_multiset().count(x) > 0);
                }
            }
        }
    }
    proof {
        assert(rest@ =~= Seq::<DiscoveredEntry>::empty());
        assert(rest@.to_multiset() =~= vstd::multiset::Multiset::empty());
        assert(r@.to_multiset().add(rest@.to_multiset()) =~= r@.to_multiset());
    }
    r
}

/// `Some("0x........")` or `None`: the debug form of an optional flag value.
pub open spec fn opt_hex_text(v: Option<u32>) -> Seq<char> {
    match v {
        Some(x) => "Some(\"0x"@ + hex8_upper(x) + "\")"@,
        None => "None"@,
    }
}

/// The summary line of flag `i`.
pub open spec fn flag_line(i: int, f: Flag) -> Seq<char> {
    "  ["@ + dec(i as nat) + "] "@ + f.name@ + " (EF="@ + opt_hex_text(f.enable_flags) + ", GM="@ + opt_hex_text(
        f.group_mask,
    ) + ")\n"@
}

/// The summary lines of the flags, numbered from 0.
pub open spec fn flags_text(fs: Seq<Flag>) -> Seq<char>
    decreases fs.len(),
{
    if fs.len() == 0 {
        Seq::empty()
    } else {
        flags_text(fs.drop_last()) + flag_line(fs.len() - 1, fs.last())
    }
}

/// The versions of an entry, comma-separated.
pub open spec fn versions_text(vs: Seq<u8>) -> Seq<char> {
    join(vs.map_values(|v: u8| dec(v as nat)), ","@)
}

/// The summary line of one combination of an entry.
pub open spec fn combo_line(e: DiscoveredEntry, c: Seq<Seq<char>>) -> Seq<char> {
    "  "@ + join(c, " + "@) + " -> "@ + e.event_name@ + " ["@ + e.class_name@ + "] (Opcode="@ + dec(e.opcode as nat)
        + ", V={"@ + versions_text(e.observed_versions@) + "})\n"@
}

/// The summary lines of the first `n` combinations of an entry.
pub open spec fn combos_text(e: DiscoveredEntry, n: int) -> Seq<char>
    decreases n,
{
    if n <= 0 {
        Seq::empty()
    } else {
        combos_text(e, n - 1) + combo_line(e, entry_combinations(e)[n - 1])
    }
}

/// Entry `i` of `es` starts a group of its size.
pub open spec fn starts_group(es: Seq<DiscoveredEntry>, i: int) -> bool {
    i == 0 || es[i - 1].best_size != es[i].best_size
}

/// The size groups of the entries without the final blank line: each group is
/// headed by its size and followed by a blank line before the next group.
pub open spec fn groups_body(es: Seq<DiscoveredEntry>) -> Seq<char>
    decreases es.len(),
{
    if es.len() == 0 {
        Seq::empty()
    } else {
        let i = es.len() - 1;
        let e = es[i];
        groups_body(es.drop_last()) + (if starts_group(es, i) {
            (if i > 0 { "\n"@ } else { Seq::empty() }) + "--- Size "@ + dec(e.best_size as nat) + " ---\n"@
        } else {
            Seq::empty()
        }) + combos_text(e, e.combinations@.len() as int)
    }
}

/// The size groups of the summary.
pub open spec fn groups_text(es: Seq<DiscoveredEntry>) -> Seq<char> {
    groups_body(es) + if es.len() > 0 { "\n"@ } else { Seq::empty() }
}

/// The summary line of an undiscovered event type.
pub open spec fn undiscovered_line(t: EventTypeInfo) -> Seq<char> {
    "  "@ + t.event_name@ + " ["@ + t.class_name@ + "] (Opcode="@ + dec(t.opcode as nat) + ")\n"@
}

/// The summary lines of the undiscovered event types.
pub open spec fn undiscovered_lines(ts: Seq<EventTypeInfo>) -> Seq<char>
    decreases ts.len(),
{
    if ts.len() == 0 {
        Seq::empty()
    } else {
        undiscovered_lines(ts.drop_last()) + undiscovered_line(ts.last())
    }
}

/// The first combination of a warning, as ` + `-joined flag names.
pub open spec fn first_combo_text(w: WarningEntry) -> Seq<char> {
    join(str_views(w.first_combo@), " + "@)
}

/// The summary line of a warning about an unknown opcode.
pub open spec fn unknown_line(w: WarningEntry) -> Seq<char> {
    "  opcode="@ + dec(w.opcode as nat) + " version="@ + dec(w.version as nat) + " (count="@ + dec(w.count as nat)
        + ", class=\""@ + w.class_name@ + "\", name=\""@ + w.event_name@ + "\", first combo: ["@ + first_combo_text(w)
        + "])\n"@
}

/// The summary line of a warning about a version above the known ones.
pub open spec fn higher_line(w: WarningEntry, max_known: u8) -> Seq<char> {
    "  "@ + w.event_name@ + " ["@ + w.class_name@ + "] opcode="@ + dec(w.opcode as nat) + " version="@ + dec(
        w.version as nat,
    ) + " (max known V"@ + dec(max_known as nat) + ", count="@ + dec(w.count as nat) + ", first combo: ["@
        + first_combo_text(w) + "])\n"@
}

/// The lines of the unknown-opcode warnings, in order.
pub open spec fn unknown_lines(ws: Seq<WarningEntry>) -> Seq<char>
    decreases ws.len(),
{
    if ws.len() == 0 {
        Seq::empty()
    } else {
        unknown_lines(ws.drop_last()) + match ws.last().kind {
            WarningKind::UnknownOpcode => unknown_line(ws.last()),
            WarningKind::HigherVersion { .. } => Seq::empty(),
        }
    }
}

/// The lines of the higher-version warnings, in order.
pub open spec fn higher_lines(ws: Seq<WarningEntry>) -> Seq<char>
    decreases ws.len(),
{
    if ws.len() == 0 {
        Seq::empty()
    } else {
        higher_lines(ws.drop_last()) + match ws.last().kind {
            WarningKind::UnknownOpcode => Seq::empty(),
            WarningKind::HigherVersion { max_known } => higher_line(ws.last(), max_known),
        }
    }
}

/// Some warning is about an unknown opcode.
pub open spec fn any_unknown(ws: Seq<WarningEntry>) -> bool {
    exists|j: int| 0 <= j < ws.len() && ws[j].kind == WarningKind::UnknownOpcode
}

/// Some warning is about a higher version.
pub open spec fn any_higher(ws: Seq<WarningEntry>) -> bool {
    exists|j: int| 0 <= j < ws.len() && ws[j].kind is HigherVersion
}

/// The warnings section of the summary.
pub open spec fn warnings_text(ws: Seq<WarningEntry>) -> Seq<char> {
    if ws.len() == 0 {
        Seq::empty()
    } else {
        "\n--- Warnings ---\n"@ + (if any_unknown(ws) {
            "Unknown opcode events:\n"@ + unknown_lines(ws)
        } else {
            Seq::empty()
        }) + (if any_higher(ws) {
            "Version higher than known:\n"@ + higher_lines(ws)
        } else {
            Seq::empty()
        }) + "\n"@
    }
}

/// The text summary of flag discovery.
pub open spec fn final_summary_text(
    flags: Seq<Flag>,
    groups: Seq<DiscoveredEntry>,
    undiscovered: Seq<EventTypeInfo>,
    warnings: Seq<WarningEntry>,
) -> Seq<char> {
    "=== FLAG DISCOVERY RESULTS ===\n\nFlags tested:\n"@ + flags_text(flags) + "\n"@ + groups_text(groups) + (if undiscovered.len()
        > 0 {
        "--- Undiscovered Events ---\n"@ + undiscovered_lines(undiscovered)
    } else {
        Seq::empty()
    }) + warnings_text(warnings)
}

fn push_opt_hex(s: &mut String, v: Option<u32>)
    ensures
        final(s)@ == old(s)@ + opt_hex_text(v),
{
    match v {
        Some(x) => {
            push_str(s, "Some(\"0x");
            push_padded(s, x as u64, 16, true, 8);
            push_str(s, "\")");
        },
        None => push_str(s, "None"),
    }
}

fn push_flag_line(s: &mut String, i: usize, f: &Flag)
    ensures
        final(s)@ == old(s)@ + flag_line(i as int, *f),
{
    let ghost start = s@;
    push_str(s, "  [");
    push_dec(s, i as u64);
    push_str(s, "] ");
    push_str(s, f.name.as_str());
    push_str(s, " (EF=");
    push_opt_hex(s, f.enable_flags);
    push_str(s, ", GM=");
    push_opt_hex(s, f.group_mask);
    push_str(s, ")\n");
    assert(s@ =~= start + flag_line(i as int, *f));
}

fn versions_string(vs: &Vec<u8>) -> (t: String)
    ensures
        t@ == versions_text(vs@),
{
    let mut parts: Vec<String> = Vec::new();
    let mut i: usize = 0;
    while i < vs.len()
        invariant
            i <= vs@.len(),
            str_views(parts@) == vs@.subrange(0, i as int).map_values(|v: u8| dec(v as nat)),
        decreases vs.len() - i,
    {
        let mut p = String::new();
        push_dec(&mut p, vs[i] as u64);
        let ghost before = parts@;
        parts.push(p);
        proof {
            assert(str_views(parts@) =~= str_views(before).push(p@));
            assert(vs@.subrange(0, i + 1).map_values(|v: u8| dec(v as nat)) =~= vs@.subrange(0, i as int).map_values(
                |v: u8| dec(v as nat),
            ).push(dec(vs@[i as int] as nat)));
        }
        i = i + 1;
    }
    assert(vs@.subrange(0, vs@.len() as int) =~= vs@);
    join_strings(&parts, ",")
}

fn push_entry(s: &mut String, e: &DiscoveredEntry)
    ensures
        final(s)@ == old(s)@ + combos_text(*e, e.combinations@.len() as int),
{
    let ghost start = s@;
    let versions = versions_string(&e.observed_versions);
    let mut c: usize = 0;
    while c < e.combinations.len()
        invariant
            c <= e.combinations@.len(),
            versions@ == versions_text(e.observed_versions@),
            s@ == start + combos_text(*e, c as int),
        decreases e.combinations.len() - c,
    {
        let ghost before = s@;
        let names = join_strings(&e.combinations[c], " + ");
        push_str(s, "  ");
        push_str(s, names.as_str());
        push_str(s, " -> ");
        push_str(s, e.event_name.as_str());
        push_str(s, " [");
        push_str(s, e.class_name.as_str());
        push_str(s, "] (Opcode=");
        push_dec(s, e.opcode as u64);
        push_str(s, ", V={");
        push_str(s, versions.as_str());
        push_str(s, "})\n");
        proof {
            assert(entry_combinations(*e)[c as int] == str_views(e.combinations@[c as int]@));
            assert(s@ =~= before + combo_line(*e, entry_combinations(*e)[c as int]));
        }
        c = c + 1;
    }
}

fn push_unknown_line(s: &mut String, w: &WarningEntry)
    ensures
        final(s)@ == old(s)@ + unknown_line(*w),
{
    let ghost start = s@;
    let combo = join_strings(&w.first_combo, " + ");
    push_str(s, "  opcode=");
    push_dec(s, w.opcode as u64);
    push_str(s, " version=");
    push_dec(s, w.version as u64);
    push_str(s, " (count=");
    push_dec(s, w.count);
    push_str(s, ", class=\"");
    push_str(s, w.class_name.as_str());
    push_str(s, "\", name=\"");
    push_str(s, w.event_name.as_str());
    push_str(s, "\", first combo: [");
    push_str(s, combo.as_str());
    push_str(s, "])\n");
    assert(s@ =~= start + unknown_line(*w));
}

fn push_higher_line(s: &mut String, w: &WarningEntry, max_known: u8)
    ensures
        final(s)@ == old(s)@ + higher_line(*w, max_known),
{
    let ghost start = s@;
    let combo = join_strings(&w.first_combo, " + ");
    push_str(s, "  ");
    push_str(s, w.event_name.as_str());
    push_str(s, " [");
    push_str(s, w.class_name.as_str());
    push_str(s, "] opcode=");
    push_dec(s, w.opcode as u64);
    push_str(s, " version=");
    push_dec(s, w.version as u64);
    push_str(s, " (max known V");
    push_dec(s, max_known as u64);
    push_str(s, ", count=");
    push_dec(s, w.count);
    push_str(s, ", first combo: [");
    push_str(s, combo.as_str());
    push_str(s, "])\n");
    assert(s@ =~= start + higher_line(*w, max_known));
}

fn push_warnings(s: &mut String, warnings: &Vec<WarningEntry>)
    ensures
        final(s)@ == old(s)@ + warnings_text(warnings@),
{
    if warnings.len() == 0 {
        return;
    }
    let ghost start = s@;
    push_str(s, "\n--- Warnings ---\n");
    let ghost head = s@;
    let mut unknown = String::new();
    let mut higher = String::new();
    let mut any_u = false;
    let mut any_h = false;
    let mut j: usize = 0;
    while j < warnings.len()
        invariant
            j <= warnings@.len(),
            unknown@ == unknown_lines(warnings@.subrange(0, j as int)),
            higher@ == higher_lines(warnings@.subrange(0, j as int)),
            any_u == any_unknown(warnings@.subrange(0, j as int)),
            any_h == any_higher(warnings@.subrange(0, j as int)),
        decreases warnings.len() - j,
    {
        let ghost pre = warnings@.subrange(0, j as int);
        let ghost post = warnings@.subrange(0, j + 1);
        let w = &warnings[j];
        proof {
            assert(post.drop_last() =~= pre);
            assert(post.last() == *w);
        }
        match w.kind {
            WarningKind::UnknownOpcode => {
                push_unknown_line(&mut unknown, w);
                any_u = true;
                proof {
                    assert(post[j as int].kind == WarningKind::UnknownOpcode);
                    if any_higher(post) {
                        let m = choose|m: int| 0 <= m < post.len() && post[m].kind is HigherVersion;
                        assert(m < j && pre[m] == post[m]);
                    }
                }
            },
            WarningKind::HigherVersion { max_known } => {
                push_higher_line(&mut higher, w, max_known);
                any_h = true;
                proof {
                    assert(post[j as int].kind is HigherVersion);
                    if any_unknown(post) {
                        let m = choose|m: int| 0 <= m < post.len() && post[m].kind == WarningKind::UnknownOpcode;
                        assert(m < j && pre[m] == post[m]);
                    }
                }
            },
        }
        proof {
            if any_unknown(pre) {
                let m = choose|m: int| 0 <= m < pre.len() && pre[m].kind == WarningKind::UnknownOpcode;
                assert(post[m] == pre[m]);
            }
            if any_higher(pre) {
                let m = choose|m: int| 0 <= m < pre.len() && pre[m].kind is HigherVersion;
                assert(post[m] == pre[m]);
            }
        }
        j = j + 1;
    }
    assert(warnings@.subrange(0, warnings@.len() as int) =~= warnings@);
    if any_u {
        push_str(s, "Unknown opcode events:\n");
        push_str(s, unknown.as_str());
    }
    if any_h {
        push_str(s, "Version higher than known:\n");
        push_str(s, higher.as_str());
    }
    push_str(s, "\n");
    assert(s@ =~= start + warnings_text(warnings@));
}

/// The text summary of flag discovery: the flags tested, the discovered event
/// types by size group (`groups` as `group_by_size` orders them), the event types
/// never discovered, and the warnings, unknown opcodes first.
pub fn final_summary(
    flags: &Vec<Flag>,
    groups: &Vec<DiscoveredEntry>,
    undiscovered: &Vec<EventTypeInfo>,
    warnings: &Vec<WarningEntry>,
) -> (s: String)
    ensures
        s@ == final_summary_text(flags@, groups@, undiscovered@, warnings@),
{
    let mut s = owned("=== FLAG DISCOVERY RESULTS ===\n\nFlags tested:\n");
    let ghost head = s@;
    let mut i: usize = 0;
    while i < flags.len()
        invariant
            i <= flags@.len(),
            s@ == head + flags_text(flags@.subrange(0, i as int)),
        decreases flags.len() - i,
    {
        let ghost before = s@;
        push_flag_line(&mut s, i, &flags[i]);
        proof {
            assert(flags@.subrange(0, i + 1).drop_last() =~= flags@.subrange(0, i as int));
            assert(s@ =~= head + flags_text(flags@.subrange(0, i + 1)));
        }
        i = i + 1;
    }
    assert(flags@.subrange(0, flags@.len() as int) =~= flags@);
    push_str(&mut s, "\n");
    let ghost mid = s@;
    let mut k: usize = 0;
    while k < groups.len()
        invariant
            k <= groups@.len(),
            s@ == mid + groups_body(groups@.subrange(0, k as int)),
        decreases groups.len() - k,
    {
        let ghost before = s@;
        let ghost sub = groups@.subrange(0, k + 1);
        let e = &groups[k];
        proof {
            assert(sub.drop_last() =~= groups@.subrange(0, k as int));
            assert(sub[k as int] == *e);
            if k > 0 {
                assert(sub[k - 1] == groups@[k - 1]);
            }
        }
        if k == 0 || groups[k - 1].best_size != e.best_size {
            if k > 0 {
                push_str(&mut s, "\n");
            }
            push_str(&mut s, "--- Size ");
            push_dec(&mut s, e.best_size as u64);
            push_str(&mut s, " ---\n");
        }
        push_entry(&mut s, e);
        proof {
            assert(s@ =~= mid + groups_body(sub));
        }
        k = k + 1;
    }
    assert(groups@.subrange(0, groups@.len() as int) =~= groups@);
    if groups.len() > 0 {
        push_str(&mut s, "\n");
    }
    let ghost after_groups = s@;
    assert(after_groups == mid + groups_text(groups@));
    if undiscovered.len() > 0 {
        push_str(&mut s, "--- Undiscovered Events ---\n");
        let ghost und_head = s@;
        let mut u: usize = 0;
        while u < undiscovered.len()
            invariant
                u <= undiscovered@.len(),
                s@ == und_head + undiscovered_lines(undiscovered@.subrange(0, u as int)),
            decreases undiscovered.len() - u,
        {
            let ghost before = s@;
            let t = undiscovered[u];
            push_str(&mut s, "  ");
            push_str(&mut s, t.event_name);
            push_str(&mut s, " [");
            push_str(&mut s, t.class_name);
            push_str(&mut s, "] (Opcode=");
            push_dec(&mut s, t.opcode as u64);
            push_str(&mut s, ")\n");
            proof {
                assert(undiscovered@.subrange(0, u + 1).drop_last() =~= undiscovered@.subrange(0, u as int));
                assert(s@ =~= und_head + undiscovered_lines(undiscovered@.subrange(0, u + 1)));
            }
            u = u + 1;
        }
        assert(undiscovered@.subrange(0, undiscovered@.len() as int) =~= undiscovered@);
    }
    push_warnings(&mut s, warnings);
    assert(s@ =~= final_summary_text(flags@, groups@, undiscovered@, warnings@));
    s
}

} // verus!
