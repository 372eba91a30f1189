//! The cumulative report over persisted counts: for every event received in any
//! run, the configurations that received it, by name, with this run's count and
//! the cumulative one; then the known events that no run ever received.

use vstd::prelude::*;
use crate::compare::{OpcodeCount, pair_key};
use crate::persist::{
    ConfigCounts, PersistedData, config_has_key, config_total, count_of, counts_wf, entry_key,
    find_config, has_config, holds_key, keys_distinct, lemma_config_total_absent,
    lemma_config_total_unique, lemma_count_of_distinct,
};
use crate::fileio_registry::{FileIoEventDef, event_registry, has_key, is_known, law_registry_keys_unique, lookup_event, registry};
use crate::log_format::{LogLevel, LogRecord};
use crate::text::{dec, lemma_text_lt_total, lemma_text_lt_transitive, owned, push_dec, push_str, text_less, text_lt};

verus! {

/// One configuration under an event of the report.
#[derive(Debug, Clone)]
pub struct ConfigLine {
    pub config_name: String,
    /// The count of this run.
    pub current: usize,
    /// The count over all runs.
    pub cumulative: usize,
}

/// One event of the report, with the configurations that received it.
#[derive(Debug, Clone)]
pub struct EventReport {
    pub opcode: u8,
    pub version: u8,
    pub configs: Vec<ConfigLine>,
}

/// Some configuration of `cs` holds a count for key `k`.
pub open spec fn received(cs: Seq<ConfigCounts>, k: u16) -> bool {
    exists|i: int| 0 <= i < cs.len() && holds_key(cs[i].counts@, k)
}

/// The keys below `hi` that some configuration of `cs` holds, ascending.
pub open spec fn received_keys(cs: Seq<ConfigCounts>, hi: int) -> Seq<int>
    decreases hi,
{
    if hi <= 0 {
        Seq::empty()
    } else if received(cs, (hi - 1) as u16) {
        received_keys(cs, hi - 1).push(hi - 1)
    } else {
        received_keys(cs, hi - 1)
    }
}

/// The lines are ordered by configuration name, strictly.
pub open spec fn names_ascending(ls: Seq<ConfigLine>) -> bool {
    forall|a: int, b: int| 0 <= a < b < ls.len() ==> text_lt(ls[a].config_name@, ls[b].config_name@)
}

/// `l` is the line of its configuration for key `k`: the configuration holds `k`,
/// and the counts are its cumulative count and the count of this run.
pub open spec fn line_of(l: ConfigLine, cs: Seq<ConfigCounts>, current: Seq<ConfigCounts>, k: u16) -> bool {
    &&& config_has_key(cs, l.config_name@, k)
    &&& l.cumulative == config_total(cs, l.config_name@, k)
    &&& l.current == config_total(current, l.config_name@, k)
}

/// `ls` are the lines of key `k`: one for each configuration holding it, by name.
pub open spec fn lines_of_key(ls: Seq<ConfigLine>, cs: Seq<ConfigCounts>, current: Seq<ConfigCounts>, k: u16) -> bool {
    &&& names_ascending(ls)
    &&& forall|j: int| 0 <= j < ls.len() ==> line_of(#[trigger] ls[j], cs, current, k)
    &&& forall|name: Seq<char>|
        #[trigger] config_has_key(cs, name, k) ==> exists|j: int| 0 <= j < ls.len() && ls[j].config_name@ == name
}

/// The key of a reported event.
pub open spec fn report_key(e: EventReport) -> int {
    pair_key(e.opcode, e.version) as int
}

/// One of the first `n` configurations of `cs` is named `name`.
pub open spec fn name_among(cs: Seq<ConfigCounts>, n: int, name: Seq<char>) -> bool {
    exists|m: int| 0 <= m < n && cs[m].config_name@ == name
}

/// The count that `t` holds for (`op`, `ver`), if it holds one.
fn find_count(t: &Vec<OpcodeCount>, op: u8, ver: u8) -> (r: Option<usize>)
    requires
        keys_distinct(t@),
    ensures
        match r {
            Some(c) => holds_key(t@, pair_key(op, ver)) && count_of(t@, pair_key(op, ver)) == c,
            None => !holds_key(t@, pair_key(op, ver)) && count_of(t@, pair_key(op, ver)) == 0,
        },
{
    let ghost k = pair_key(op, ver);
    let mut j: usize = 0;
    while j < t.len()
        invariant
            j <= t@.len(),
            k == pair_key(op, ver),
            keys_distinct(t@),
            forall|m: int| 0 <= m < j ==> entry_key(t@[m]) != k,
        decreases t.len() - j,
    {
        if t[j].opcode == op && t[j].version == ver {
            proof {
                assert(entry_key(t@[j as int]) == k);
                lemma_count_of_distinct(t@, k);
                let m = choose|m: int| 0 <= m < t@.len() && entry_key(t@[m]) == k && count_of(t@, k) == t@[m].count;
                if m != j {
                    if m < j {
                        assert(entry_key(t@[m]) != entry_key(t@[j as int]));
                    } else {
                        assert(entry_key(t@[j as int]) != entry_key(t@[m]));
                    }
                }
            }
            return Some(t[j].count);
        }
        proof {
            assert(entry_key(t@[j as int]) != k) by {
                if entry_key(t@[j as int]) == k {
                    assert(t@[j as int].opcode as int * 256 + t@[j as int].version as int == op as int * 256 + ver as int);
                }
            }
        }
        j = j + 1;
    }
    proof {
        lemma_count_of_distinct(t@, k);
    }
    None
}

/// The count of this run for configuration `name` and (`op`, `ver`).
fn current_count(current: &Vec<ConfigCounts>, name: &String, op: u8, ver: u8) -> (c: usize)
    requires
        counts_wf(current@),
    ensures
        c == config_total(current@, name@, pair_key(op, ver)),
{
    let ghost k = pair_key(op, ver);
    match find_config(current, name) {
        None => {
            proof {
                lemma_config_total_absent(current@, name@, k);
            }
            0
        },
        Some(ci) => {
            proof {
                lemma_config_total_unique(current@, ci as int, k);
                assert(keys_distinct(current@[ci as int].counts@));
            }
            match find_count(&current[ci].counts, op, ver) {
                Some(c) => c,
                None => 0,
            }
        },
    }
}

/// Inserts `line` among lines ordered by name, where no line has its name.
fn insert_by_name(lines: &mut Vec<ConfigLine>, line: ConfigLine)
    requires
        names_ascending(old(lines)@),
        forall|j: int| 0 <= j < old(lines)@.len() ==> old(lines)@[j].config_name@ != line.config_name@,
    ensures
        names_ascending(final(lines)@),
        exists|p: int| 0 <= p <= old(lines)@.len() && final(lines)@ == old(lines)@.insert(p, line),
{
    let ghost start = lines@;
    let mut p: usize = 0;
    while p < lines.len() && text_less(lines[p].config_name.as_str(), line.config_name.as_str())
        invariant
            lines@ == start,
            p <= lines@.len(),
            forall|m: int| 0 <= m < p ==> text_lt(lines@[m].config_name@, line.config_name@),
        decreases lines.len() - p,
    {
        p = p + 1;
    }
    proof {
        if p < start.len() {
            assert(!text_lt(start[p as int].config_name@, line.config_name@));
            assert(start[p as int].config_name@ != line.config_name@);
            lemma_text_lt_total(start[p as int].config_name@, line.config_name@);
            assert(text_lt(line.config_name@, start[p as int].config_name@));
        }
    }
    lines.insert(p, line);
    proof {
        let n = lines@;
        assert(n == start.insert(p as int, line));
        assert forall|a: int, b: int| 0 <= a < b < n.len() implies text_lt(n[a].config_name@, n[b].config_name@) by {
            if b < p {
                assert(n[a] == start[a] && n[b] == start[b]);
            } else if b == p {
                assert(n[a] == start[a]);
            } else if a < p {
                assert(n[a] == start[a] && n[b] == start[b - 1]);
            } else if a == p {
                assert(n[b] == start[b - 1]);
                if b - 1 > p {
                    lemma_text_lt_transitive(line.config_name@, start[p as int].config_name@, start[b - 1].config_name@);
                }
            } else {
                assert(n[a] == start[a - 1] && n[b] == start[b - 1]);
            }
        }
    }
}

/// The lines of key (`op`, `ver`): one per persisted configuration holding it,
/// ordered by name.
fn lines_for(persisted: &PersistedData, current: &Vec<ConfigCounts>, op: u8, ver: u8) -> (ls: Vec<ConfigLine>)
    requires
        counts_wf(persisted.config_events@),
        counts_wf(current@),
    ensures
        lines_of_key(ls@, persisted.config_events@, current@, pair_key(op, ver)),
{
    let ghost cs = persisted.config_events@;
    let ghost k = pair_key(op, ver);
    let mut ls: Vec<ConfigLine> = Vec::new();
    let mut i: usize = 0;
    while i < persisted.config_events.len()
        invariant
            i <= cs.len(),
            cs == persisted.config_events@,
            k == pair_key(op, ver),
            counts_wf(cs),
            counts_wf(current@),
            names_ascending(ls@),
            forall|j: int| 0 <= j < ls@.len() ==> line_of(#[trigger] ls@[j], cs, current@, k),
            forall|j: int| 0 <= j < ls@.len() ==> name_among(cs, i as int, #[trigger] ls@[j].config_name@),
            forall|m: int| 0 <= m < i && holds_key(#[trigger] cs[m].counts@, k) ==> exists|j: int| 0 <= j < ls@.len() && ls@[j].config_name@ == cs[m].config_name@,
        decreases cs.len() - i,
    {
        let cfg = &persisted.config_events[i];
        proof {
            assert(keys_distinct(cs[i as int].counts@));
        }
        match find_count(&cfg.counts, op, ver) {
            None => {
                proof {
                    assert forall|j: int| 0 <= j < ls@.len() implies name_among(cs, i + 1, #[trigger] ls@[j].config_name@) by {
                        let m = choose|m: int| 0 <= m < i && cs[m].config_name@ == ls@[j].config_name@;
                        assert(0 <= m < i + 1);
                    }
                }
            },
            Some(cum) => {
                let cur = current_count(current, &cfg.config_name, op, ver);
                let line = ConfigLine { config_name: cfg.config_name.clone(), current: cur, cumulative: cum };
                proof {
                    lemma_config_total_unique(cs, i as int, k);
                    assert(cs[i as int].config_name@ == line.config_name@ && holds_key(cs[i as int].counts@, k));
                    assert(config_has_key(cs, line.config_name@, k));
                    assert forall|j: int| 0 <= j < ls@.len() implies ls@[j].config_name@ != line.config_name@ by {
                        assert(name_among(cs, i as int, ls@[j].config_name@));
                        let m = choose|m: int| 0 <= m < i && cs[m].config_name@ == ls@[j].config_name@;
                        assert(cs[m].config_name@ != cs[i as int].config_name@);
                    }
                }
                let ghost before = ls@;
                insert_by_name(&mut ls, line);
                proof {
                    let p = choose|p: int| 0 <= p <= before.len() && ls@ == before.insert(p, line);
                    assert forall|j: int| 0 <= j < ls@.len() implies line_of(#[trigger] ls@[j], cs, current@, k) by {
                        if j < p {
                            assert(ls@[j] == before[j]);
                        } else if j > p {
                            assert(ls@[j] == before[j - 1]);
                        }
                    }
                    assert forall|j: int| 0 <= j < ls@.len() implies name_among(cs, i + 1, #[trigger] ls@[j].config_name@) by {
                        let q = if j < p { j } else if j > p { j - 1 } else { 0 };
                        if j != p {
                            assert(ls@[j] == before[q]);
                            assert(name_among(cs, i as int, before[q].config_name@));
                            let m = choose|m: int| 0 <= m < i && cs[m].config_name@ == before[q].config_name@;
                            assert(0 <= m < i + 1);
                        } else {
                            assert(cs[i as int].config_name@ == ls@[j].config_name@);
                        }
                    }
                    assert forall|m: int| 0 <= m < i + 1 && holds_key(#[trigger] cs[m].counts@, k) implies exists|j: int| 0 <= j < ls@.len() && ls@[j].config_name@ == cs[m].config_name@ by {
                        if m < i {
                            let j = choose|j: int| 0 <= j < before.len() && before[j].config_name@ == cs[m].config_name@;
                            if j < p {
                                assert(ls@[j] == before[j]);
                            } else {
                                assert(ls@[j + 1] == before[j]);
                            }
                        } else {
                            assert(ls@[p] == line);
                        }
                    }
                }
            },
        }
        i = i + 1;
    }
    proof {
        assert forall|name: Seq<char>| #[trigger] config_has_key(cs, name, k) implies exists|j: int| 0 <= j < ls@.len() && ls@[j].config_name@ == name by {
            let m = choose|m: int| 0 <= m < cs.len() && cs[m].config_name@ == name && holds_key(cs[m].counts@, k);
            assert(holds_key(cs[m].counts@, k));
        }
    }
    ls
}

/// The events received in any run, by opcode and then version, each with the
/// configurations that received it, by name, and their counts of this run and
/// over all runs.
pub fn cumulative_report(persisted: &PersistedData, current: &Vec<ConfigCounts>) -> (r: Vec<EventReport>)
    requires
        counts_wf(persisted.config_events@),
        counts_wf(current@),
    ensures
        r@.map_values(|e: EventReport| report_key(e)) == received_keys(persisted.config_events@, 65536),
        forall|j: int| 0 <= j < r@.len() ==> lines_of_key(
            #[trigger] r@[j].configs@,
            persisted.config_events@,
            current@,
            pair_key(r@[j].opcode, r@[j].version),
        ),
{
    let ghost cs = persisted.config_events@;
    let mut r: Vec<EventReport> = Vec::new();
    let mut k: usize = 0;
    while k < 65536
        invariant
            k <= 65536,
            cs == persisted.config_events@,
            counts_wf(cs),
            counts_wf(current@),
            r@.map_values(|e: EventReport| report_key(e)) == received_keys(cs, k as int),
            forall|j: int| 0 <= j < r@.len() ==> lines_of_key(
                #[trigger] r@[j].configs@,
                cs,
                current@,
                pair_key(r@[j].opcode, r@[j].version),
            ),
        decreases 65536 - k,
    {
        let op = (k / 256) as u8;
        let ver = (k % 256) as u8;
        let ghost key = pair_key(op, ver);
        assert(key as int == k);
        let ls = lines_for(persisted, current, op, ver);
        proof {
            if received(cs, key) {
                let m = choose|m: int| 0 <= m < cs.len() && holds_key(cs[m].counts@, key);
                assert(config_has_key(cs, cs[m].config_name@, key));
            }
            if ls@.len() > 0 {
                assert(line_of(ls@[0], cs, current@, key));
                let m = choose|m: int| 0 <= m < cs.len() && cs[m].config_name@ == ls@[0].config_name@ && holds_key(cs[m].counts@, key);
                assert(received(cs, key));
            }
        }
        if ls.len() > 0 {
            let ghost before = r@;
            r.push(EventReport { opcode: op, version: ver, configs: ls });
            proof {
                assert(r@.map_values(|e: EventReport| report_key(e)) =~= before.map_values(|e: EventReport| report_key(e)).push(k as int));
                assert forall|j: int| 0 <= j < r@.len() implies lines_of_key(
                    #[trigger] r@[j].configs@,
                    cs,
                    current@,
                    pair_key(r@[j].opcode, r@[j].version),
                ) by {
                    if j < before.len() {
                        assert(r@[j] == before[j]);
                    }
                }
            }
        } else {
            assert(r@.map_values(|e: EventReport| report_key(e)) =~= received_keys(cs, k + 1));
        }
        k = k + 1;
    }
    r
}

/// Whether some configuration holds a count for (`op`, `ver`).
fn is_received(cs: &Vec<ConfigCounts>, op: u8, ver: u8) -> (r: bool)
    requires
        counts_wf(cs@),
    ensures
        r == received(cs@, pair_key(op, ver)),
{
    let mut i: usize = 0;
    while i < cs.len()
        invariant
            i <= cs@.len(),
            counts_wf(cs@),
            forall|m: int| 0 <= m < i ==> !holds_key(#[trigger] cs@[m].counts@, pair_key(op, ver)),
        decreases cs.len() - i,
    {
        proof {
            assert(keys_distinct(cs@[i as int].counts@));
        }
        if find_count(&cs[i].counts, op, ver).is_some() {
            return true;
        }
        i = i + 1;
    }
    false
}

/// A known event that no run received.
pub open spec fn never_received(cs: Seq<ConfigCounts>, d: FileIoEventDef) -> bool {
    !(d.event_id < 256 && received(cs, pair_key(d.event_id as u8, d.version)))
}

/// The first `n` known events that no run received, in registry order.
pub open spec fn unreceived_upto(cs: Seq<ConfigCounts>, n: int) -> Seq<FileIoEventDef>
    decreases n,
{
    if n <= 0 {
        Seq::empty()
    } else if never_received(cs, registry()[n - 1]) {
        unreceived_upto(cs, n - 1).push(registry()[n - 1])
    } else {
        unreceived_upto(cs, n - 1)
    }
}

/// The known events that no run received, in registry order (by event id, then
/// version).
pub fn unreceived_events(persisted: &PersistedData) -> (r: Vec<FileIoEventDef>)
    requires
        counts_wf(persisted.config_events@),
    ensures
        r@ == unreceived_upto(persisted.config_events@, registry().len() as int),
{
    let defs = event_registry();
    let mut r: Vec<FileIoEventDef> = Vec::new();
    let mut i: usize = 0;
    while i < defs.len()
        invariant
            i <= defs@.len(),
            defs@ == registry(),
            counts_wf(persisted.config_events@),
            r@ == unreceived_upto(persisted.config_events@, i as int),
        decreases defs.len() - i,
    {
        let d = defs[i];
        let seen = d.event_id < 256 && is_received(&persisted.config_events, d.event_id as u8, d.version);
        if !seen {
            r.push(d);
        }
        i = i + 1;
    }
    r
}

/// The level and text of each record.
pub open spec fn records_view(r: Seq<LogRecord>) -> Seq<(LogLevel, Seq<char>)> {
    r.map_values(|x: LogRecord| (x.level, x.message@))
}

/// The label of an event: its name, class and key when the registry knows it.
pub open spec fn label_text(op: u8, ver: u8) -> Seq<char> {
    if is_known(op as u16, ver) {
        let e = registry()[choose|i: int| #[trigger] has_key(registry(), i, op as u16, ver)];
        e.event_name@ + " ["@ + e.class_name@ + "] (Opcode="@ + dec(op as nat) + ", Version="@ + dec(ver as nat) + ")"@
    } else {
        "UNKNOWN (Opcode="@ + dec(op as nat) + ", Version="@ + dec(ver as nat) + ")"@
    }
}

/// The line of one configuration under an event.
pub open spec fn config_line_text(l: ConfigLine) -> Seq<char> {
    if l.current > 0 {
        "    "@ + l.config_name@ + ": "@ + dec(l.current as nat) + " this run, "@ + dec(l.cumulative as nat)
            + " cumulative"@
    } else {
        "    "@ + l.config_name@ + ": 0 this run, "@ + dec(l.cumulative as nat) + " cumulative (persisted)"@
    }
}

/// The records of the configuration lines of an event.
pub open spec fn config_records(ls: Seq<ConfigLine>) -> Seq<(LogLevel, Seq<char>)> {
    ls.map_values(|l: ConfigLine| (LogLevel::Info, config_line_text(l)))
}

/// The records of one event: a blank line, its label and its configurations.
pub open spec fn event_records(e: EventReport) -> Seq<(LogLevel, Seq<char>)> {
    seq![(LogLevel::Info, Seq::<char>::empty()), (LogLevel::Info, label_text(e.opcode, e.version))]
        + config_records(e.configs@)
}

/// The records of the events, in order.
pub open spec fn events_records(es: Seq<EventReport>) -> Seq<(LogLevel, Seq<char>)>
    decreases es.len(),
{
    if es.len() == 0 {
        Seq::empty()
    } else {
        events_records(es.drop_last()) + event_records(es.last())
    }
}

/// The warning line of a known event that was never received.
pub open spec fn unreceived_text(d: FileIoEventDef) -> Seq<char> {
    "  "@ + d.event_name@ + " ["@ + d.class_name@ + "] (Opcode="@ + dec(d.event_id as nat) + ", Version="@
        + dec(d.version as nat) + ")"@
}

/// The records of the cumulative report: a heading with the number of runs, the
/// events, then, at warning level, the known events never received.
pub open spec fn display_records(
    total_runs: usize,
    events: Seq<EventReport>,
    unreceived: Seq<FileIoEventDef>,
) -> Seq<(LogLevel, Seq<char>)> {
    seq![
        (LogLevel::Info, Seq::<char>::empty()),
        (LogLevel::Info, "=== CUMULATIVE RESULTS ("@ + dec(total_runs as nat) + " total runs) ==="@),
    ] + events_records(events) + if unreceived.len() == 0 {
        Seq::empty()
    } else {
        seq![
            (LogLevel::Warn, Seq::<char>::empty()),
            (LogLevel::Warn, "Defined events NEVER received across all runs:"@),
            (LogLevel::Warn, "-----------------------------------------------"@),
        ] + unreceived.map_values(|d: FileIoEventDef| (LogLevel::Warn, unreceived_text(d)))
    }
}

/// The cumulative report and its records.
#[derive(Debug, Clone)]
pub struct CumulativeDisplay {
    pub events: Vec<EventReport>,
    pub unreceived: Vec<FileIoEventDef>,
    pub records: Vec<LogRecord>,
}

pub(crate) fn label(op: u8, ver: u8) -> (s: String)
    ensures
        s@ == label_text(op, ver),
{
    match lookup_event(op as u16, ver) {
        Some(known) => {
            proof {
                let i = choose|i: int| has_key(registry(), i, op as u16, ver) && registry()[i] == known;
                let c = choose|i: int| #[trigger] has_key(registry(), i, op as u16, ver);
                law_registry_keys_unique(i, c);
            }
            let mut s = owned(known.event_name);
            push_str(&mut s, " [");
            push_str(&mut s, known.class_name);
            push_str(&mut s, "] (Opcode=");
            push_dec(&mut s, op as u64);
            push_str(&mut s, ", Version=");
            push_dec(&mut s, ver as u64);
            push_str(&mut s, ")");
            s
        },
        None => {
            let mut s = owned("UNKNOWN (Opcode=");
            push_dec(&mut s, op as u64);
            push_str(&mut s, ", Version=");
            push_dec(&mut s, ver as u64);
            push_str(&mut s, ")");
            s
        },
    }
}

fn config_line(l: &ConfigLine) -> (s: String)
    ensures
        s@ == config_line_text(*l),
{
    let mut s = owned("    ");
    push_str(&mut s, l.config_name.as_str());
    if l.current > 0 {
        push_str(&mut s, ": ");
        push_dec(&mut s, l.current as u64);
        push_str(&mut s, " this run, ");
        push_dec(&mut s, l.cumulative as u64);
        push_str(&mut s, " cumulative");
    } else {
        push_str(&mut s, ": 0 this run, ");
        push_dec(&mut s, l.cumulative as u64);
        push_str(&mut s, " cumulative (persisted)");
    }
    s
}

fn unreceived_line(d: &FileIoEventDef) -> (s: String)
    ensures
        s@ == unreceived_text(*d),
{
    let mut s = owned("  ");
    push_str(&mut s, d.event_name);
    push_str(&mut s, " [");
    push_str(&mut s, d.class_name);
    push_str(&mut s, "] (Opcode=");
    push_dec(&mut s, d.event_id as u64);
    push_str(&mut s, ", Version=");
    push_dec(&mut s, d.version as u64);
    push_str(&mut s, ")");
    s
}

fn record(level: LogLevel, message: String) -> (r: LogRecord)
    ensures
        r.level == level,
        r.message@ == message@,
{
    LogRecord { level, message }
}

/// The cumulative results over all runs: the events received in any run with the
/// configurations that received them (see `cumulative_report`), the known events
/// never received (see `unreceived_events`), and the records that show them.
pub fn display(persisted: &PersistedData, current: &Vec<ConfigCounts>) -> (d: CumulativeDisplay)
    requires
        counts_wf(persisted.config_events@),
        counts_wf(current@),
    ensures
        d.events@.map_values(|e: EventReport| report_key(e)) == received_keys(persisted.config_events@, 65536),
        forall|j: int| 0 <= j < d.events@.len() ==> lines_of_key(
            #[trigger] d.events@[j].configs@,
            persisted.config_events@,
            current@,
            pair_key(d.events@[j].opcode, d.events@[j].version),
        ),
        d.unreceived@ == unreceived_upto(persisted.config_events@, registry().len() as int),
        records_view(d.records@) == display_records(persisted.total_runs, d.events@, d.unreceived@),
{
    let events = cumulative_report(persisted, current);
    let unreceived = unreceived_events(persisted);
    let mut records: Vec<LogRecord> = Vec::new();
    records.push(record(LogLevel::Info, String::new()));
    let mut head = owned("=== CUMULATIVE RESULTS (");
    push_dec(&mut head, persisted.total_runs as u64);
    push_str(&mut head, " total runs) ===");
    records.push(record(LogLevel::Info, head));
    let ghost heading = records_view(records@);
    assert(heading =~= seq![
        (LogLevel::Info, Seq::<char>::empty()),
        (LogLevel::Info, "=== CUMULATIVE RESULTS ("@ + dec(persisted.total_runs as nat) + " total runs) ==="@),
    ]);
    let mut i: usize = 0;
    while i < events.len()
        invariant
            i <= events@.len(),
            records_view(records@) == heading + events_records(events@.subrange(0, i as int)),
        decreases events.len() - i,
    {
        let e = &events[i];
        let ghost before = records_view(records@);
        records.push(record(LogLevel::Info, String::new()));
        records.push(record(LogLevel::Info, label(e.opcode, e.version)));
        let mut j: usize = 0;
        while j < e.configs.len()
            invariant
                j <= e.configs@.len(),
                records_view(records@) == before + seq![
                    (LogLevel::Info, Seq::<char>::empty()),
                    (LogLevel::Info, label_text(e.opcode, e.version)),
                ] + config_records(e.configs@.subrange(0, j as int)),
            decreases e.configs.len() - j,
        {
            let ghost prev = records_view(records@);
            records.push(record(LogLevel::Info, config_line(&e.configs[j])));
            proof {
                assert(records_view(records@) =~= prev.push((LogLevel::Info, config_line_text(e.configs@[j as int]))));
                assert(config_records(e.configs@.subrange(0, j + 1)) =~= config_records(e.configs@.subrange(0, j as int)).push(
                    (LogLevel::Info, config_line_text(e.configs@[j as int])),
                ));
            }
            j = j + 1;
        }
        proof {
            assert(e.configs@.subrange(0, e.configs@.len() as int) =~= e.configs@);
            assert(events@.subrange(0, i + 1).drop_last() =~= events@.subrange(0, i as int));
            assert(records_view(records@) =~= heading + events_records(events@.subrange(0, i + 1)));
        }
        i = i + 1;
    }
    assert(events@.subrange(0, events@.len() as int) =~= events@);
    let ghost body = records_view(records@);
    if unreceived.len() > 0 {
        records.push(record(LogLevel::Warn, String::new()));
        records.push(record(LogLevel::Warn, owned("Defined events NEVER received across all runs:")));
        records.push(record(LogLevel::Warn, owned("-----------------------------------------------")));
        let mut j: usize = 0;
        while j < unreceived.len()
            invariant
                j <= unreceived@.len(),
                records_view(records@) == body + seq![
                    (LogLevel::Warn, Seq::<char>::empty()),
                    (LogLevel::Warn, "Defined events NEVER received across all runs:"@),
                    (LogLevel::Warn, "-----------------------------------------------"@),
                ] + unreceived@.subrange(0, j as int).map_values(|d: FileIoEventDef| (LogLevel::Warn, unreceived_text(d))),
            decreases unreceived.len() - j,
        {
            let ghost prev = records_view(records@);
            records.push(record(LogLevel::Warn, unreceived_line(&unreceived[j])));
            proof {
                assert(records_view(records@) =~= prev.push((LogLevel::Warn, unreceived_text(unreceived@[j as int]))));
                assert(unreceived@.subrange(0, j + 1).map_values(|d: FileIoEventDef| (LogLevel::Warn, unreceived_text(d)))
                    =~= unreceived@.subrange(0, j as int).map_values(|d: FileIoEventDef| (LogLevel::Warn, unreceived_text(d))).push(
                    (LogLevel::Warn, unreceived_text(unreceived@[j as int])),
                ));
            }
            j = j + 1;
        }
        assert(unreceived@.subrange(0, unreceived@.len() as int) =~= unreceived@);
    }
    assert(records_view(records@) =~= display_records(persisted.total_runs, events@, unreceived@));
    CumulativeDisplay { events, unreceived, records }
}

} // verus!
