//! The FileIo trace test: the kernel trace configurations it runs, the name of
//! each run's session, and the text summary of the cumulative counts.

use vstd::prelude::*;
use crate::cumulative::{ConfigLine, EventReport, label_text, unreceived_text};
use crate::fileio_registry::{FileIoEventDef, has_key, law_registry_keys_unique, lookup_event, registry};
use crate::group_mask::{build_group_mask, mask_word, zero_masks};
use crate::text::{
    chars_of, dec, hex8_upper, join, lemma_join_push, owned, push_char, push_dec, push_padded, push_str,
};

verus! {

/// One trace configuration of the test: EnableFlags, a group mask, or both.
#[derive(Debug, Clone)]
pub struct TestConfig {
    pub name: String,
    pub enable_flags: Option<u32>,
    pub group_mask: Option<[u32; 8]>,
}

/// The configurations of the test as (name, EnableFlags, group-mask value); the
/// group mask is built from the value by `build_group_mask`.
pub open spec fn test_config_table() -> Seq<(Seq<char>, Option<u32>, Option<u32>)> {
    seq![
        ("EF:DISK_FILE_IO"@, Some(0x00000200u32), None),
        ("EF:FILE_IO"@, Some(0x02000000u32), None),
        ("EF:FILE_IO_INIT"@, Some(0x04000000u32), None),
        ("EF:VAMAP"@, Some(0x00008000u32), None),
        ("GM:PERF_FILENAME"@, None, Some(0x00000200u32)),
        ("GM:PERF_FILE_IO"@, None, Some(0x02000000u32)),
        ("GM:PERF_FILE_IO_INIT"@, None, Some(0x04000000u32)),
        ("GM:PERF_VAMAP"@, None, Some(0x00008000u32)),
        ("GM:PERF_FLT_IO_INIT"@, None, Some(0x80080000u32)),
        ("GM:PERF_FLT_IO"@, None, Some(0x80100000u32)),
        ("GM:PERF_FLT_FASTIO"@, None, Some(0x80200000u32)),
        ("GM:PERF_FLT_IO_FAILURE"@, None, Some(0x80400000u32)),
        ("COMBO:ALL_EF_FLAGS"@, Some(0x06008200u32), None),
        ("COMBO:ALL_FLT_MASKS"@, None, Some(0x80780000u32)),
        ("COMBO:ALL_EF+ALL_FLT"@, Some(0x06008200u32), Some(0x80780000u32)),
    ]
}

/// A configuration matches a table row: same name and EnableFlags, and the
/// group mask of the row's value.
pub open spec fn config_matches(c: TestConfig, row: (Seq<char>, Option<u32>, Option<u32>)) -> bool {
    &&& c.name@ == row.0
    &&& c.enable_flags == row.1
    &&& match row.2 {
        None => c.group_mask is None,
        Some(v) => c.group_mask matches Some(m) && m@ == zero_masks().update(mask_word(v), v),
    }
}

fn config(name: &str, enable_flags: Option<u32>, mask_value: Option<u32>) -> (c: TestConfig)
    ensures
        config_matches(c, (name@, enable_flags, mask_value)),
{
    let group_mask = match mask_value {
        None => None,
        Some(v) => Some(build_group_mask(v)),
    };
    TestConfig { name: owned(name), enable_flags, group_mask }
}

/// The fifteen configurations: the four EnableFlags alone, the same four bits as
/// group masks, the four minifilter group masks, then three combinations.
pub fn build_test_configs() -> (cs: Vec<TestConfig>)
    ensures
        cs@.len() == test_config_table().len(),
        forall|i: int| 0 <= i < cs@.len() ==> config_matches(#[trigger] cs@[i], test_config_table()[i]),
{
    let mut cs: Vec<TestConfig> = Vec::new();
    cs.push(config("EF:DISK_FILE_IO", Some(0x00000200), None));
    cs.push(config("EF:FILE_IO", Some(0x02000000), None));
    cs.push(config("EF:FILE_IO_INIT", Some(0x04000000), None));
    cs.push(config("EF:VAMAP", Some(0x00008000), None));
    cs.push(config("GM:PERF_FILENAME", None, Some(0x00000200)));
    cs.push(config("GM:PERF_FILE_IO", None, Some(0x02000000)));
    cs.push(config("GM:PERF_FILE_IO_INIT", None, Some(0x04000000)));
    cs.push(config("GM:PERF_VAMAP", None, Some(0x00008000)));
    cs.push(config("GM:PERF_FLT_IO_INIT", None, Some(0x80080000)));
    cs.push(config("GM:PERF_FLT_IO", None, Some(0x80100000)));
    cs.push(config("GM:PERF_FLT_FASTIO", None, Some(0x80200000)));
    cs.push(config("GM:PERF_FLT_IO_FAILURE", None, Some(0x80400000)));
    assert(0x00000200u32 | 0x02000000u32 | 0x04000000u32 | 0x00008000u32 == 0x06008200u32) by (bit_vector);
    assert(0x80080000u32 | 0x80100000u32 | 0x80200000u32 | 0x80400000u32 == 0x80780000u32) by (bit_vector);
    cs.push(config("COMBO:ALL_EF_FLAGS", Some(0x00000200 | 0x02000000 | 0x04000000 | 0x00008000), None));
    cs.push(config("COMBO:ALL_FLT_MASKS", None, Some(0x80080000 | 0x80100000 | 0x80200000 | 0x80400000)));
    cs.push(
        config(
            "COMBO:ALL_EF+ALL_FLT",
            Some(0x00000200 | 0x02000000 | 0x04000000 | 0x00008000),
            Some(0x80080000 | 0x80100000 | 0x80200000 | 0x80400000),
        ),
    );
    cs
}

/// A character of a configuration name as it appears in a session name: space,
/// `+` and `:` become `_`.
pub open spec fn session_char(c: char) -> char {
    if c == ' ' || c == '+' || c == ':' {
        '_'
    } else {
        c
    }
}

/// `FileIoTest-{name}` with the name's spaces, `+` and `:` replaced by `_`.
pub open spec fn session_name_text(name: Seq<char>) -> Seq<char> {
    "FileIoTest-"@ + name.map_values(|c: char| session_char(c))
}

/// The name of the trace session of a configuration.
pub fn session_name(config_name: &str) -> (s: String)
    ensures
        s@ == session_name_text(config_name@),
{
    let chars = chars_of(config_name);
    let mut s = owned("FileIoTest-");
    let ghost start = s@;
    let mut i: usize = 0;
    while i < chars.len()
        invariant
            i <= chars@.len(),
            chars@ == config_name@,
            s@ == start + chars@.subrange(0, i as int).map_values(|c: char| session_char(c)),
        decreases chars.len() - i,
    {
        let c = chars[i];
        let d = if c == ' ' || c == '+' || c == ':' {
            '_'
        } else {
            c
        };
        push_char(&mut s, d);
        proof {
            assert(chars@.subrange(0, i + 1).map_values(|c: char| session_char(c)) =~= chars@.subrange(
                0,
                i as int,
            ).map_values(|c: char| session_char(c)).push(session_char(c)));
        }
        i = i + 1;
    }
    assert(chars@.subrange(0, chars@.len() as int) =~= chars@);
    s
}

/// `0x........` of the EnableFlags, or `None`.
pub open spec fn flags_text(f: Option<u32>) -> Seq<char> {
    match f {
        Some(v) => "0x"@ + hex8_upper(v),
        None => "None"@,
    }
}

/// `[........,........,...]` of the eight group-mask words, or `None`.
pub open spec fn mask_text(m: Option<[u32; 8]>) -> Seq<char> {
    match m {
        Some(w) => "["@ + join(w@.map_values(|v: u32| hex8_upper(v)), ","@) + "]"@,
        None => "None"@,
    }
}

/// The summary line of one configuration.
pub open spec fn config_text(c: TestConfig) -> Seq<char> {
    "  "@ + c.name@ + ": EF="@ + flags_text(c.enable_flags) + ", GM="@ + mask_text(c.group_mask) + "\n"@
}

/// The summary lines of the configurations, in order.
pub open spec fn configs_text(cs: Seq<TestConfig>) -> Seq<char>
    decreases cs.len(),
{
    if cs.len() == 0 {
        Seq::empty()
    } else {
        configs_text(cs.drop_last()) + config_text(cs.last())
    }
}

/// The summary line of one configuration under an event.
pub open spec fn count_line_text(l: ConfigLine) -> Seq<char> {
    if l.current > 0 {
        "    "@ + l.config_name@ + ": "@ + dec(l.current as nat) + " this run, "@ + dec(l.cumulative as nat)
            + " cumulative\n"@
    } else {
        "    "@ + l.config_name@ + ": 0 this run, "@ + dec(l.cumulative as nat) + " cumulative\n"@
    }
}

/// The summary lines of the configurations under an event.
pub open spec fn count_lines_text(ls: Seq<ConfigLine>) -> Seq<char>
    decreases ls.len(),
{
    if ls.len() == 0 {
        Seq::empty()
    } else {
        count_lines_text(ls.drop_last()) + count_line_text(ls.last())
    }
}

/// The summary block of one event: its label, its configurations, a blank line.
pub open spec fn event_text(e: EventReport) -> Seq<char> {
    label_text(e.opcode, e.version) + "\n"@ + count_lines_text(e.configs@) + "\n"@
}

/// The summary blocks of the events, in order.
pub open spec fn events_text(es: Seq<EventReport>) -> Seq<char>
    decreases es.len(),
{
    if es.len() == 0 {
        Seq::empty()
    } else {
        events_text(es.drop_last()) + event_text(es.last())
    }
}

/// The summary lines of the known events never received.
pub open spec fn never_text(ds: Seq<FileIoEventDef>) -> Seq<char>
    decreases ds.len(),
{
    if ds.len() == 0 {
        Seq::empty()
    } else {
        never_text(ds.drop_last()) + unreceived_text(ds.last()) + "\n"@
    }
}

/// The text summary of the test.
pub open spec fn summary_text(
    total_runs: usize,
    configs: Seq<TestConfig>,
    events: Seq<EventReport>,
    unreceived: Seq<FileIoEventDef>,
) -> Seq<char> {
    "=== FileIo ETW Trace Test Results ===\n\n"@ + "Total runs: "@ + dec(total_runs as nat) + "\n\n"@
        + "Configurations tested:\n"@ + configs_text(configs) + "\n"@ + "=== Cumulative Event Counts ===\n\n"@
        + events_text(events) + if unreceived.len() == 0 {
        Seq::empty()
    } else {
        "--- Events NEVER received ---\n"@ + never_text(unreceived)
    }
}

fn push_flags(s: &mut String, f: Option<u32>)
    ensures
        final(s)@ == old(s)@ + flags_text(f),
{
    match f {
        Some(v) => {
            push_str(s, "0x");
            push_padded(s, v as u64, 16, true, 8);
        },
        None => push_str(s, "None"),
    }
}

fn push_mask(s: &mut String, m: Option<[u32; 8]>)
    ensures
        final(s)@ == old(s)@ + mask_text(m),
{
    match m {
        None => push_str(s, "None"),
        Some(w) => {
            let ghost start = s@;
            push_str(s, "[");
            let mut i: usize = 0;
            while i < 8
                invariant
                    i <= 8,
                    w@.len() == 8,
                    s@ == start + "["@ + join(w@.subrange(0, i as int).map_values(|v: u32| hex8_upper(v)), ","@),
                decreases 8 - i,
            {
                let ghost prev = w@.subrange(0, i as int).map_values(|v: u32| hex8_upper(v));
                proof {
                    lemma_join_push(prev, ","@, hex8_upper(w@[i as int]));
                    assert(w@.subrange(0, i + 1).map_values(|v: u32| hex8_upper(v)) =~= prev.push(hex8_upper(w@[i as int])));
                }
                if i > 0 {
                    push_str(s, ",");
                }
                push_padded(s, w[i] as u64, 16, true, 8);
                i = i + 1;
            }
            push_str(s, "]");
            assert(w@.subrange(0, 8) =~= w@);
        },
    }
}

fn push_label(s: &mut String, op: u8, ver: u8)
    ensures
        final(s)@ == old(s)@ + label_text(op, ver),
{
    match lookup_event(op as u16, ver) {
        Some(known) => {
            proof {
                let i = choose|i: int| has_key(registry(), i, op as u16, ver) && registry()[i] == known;
                let c = choose|i: int| #[trigger] has_key(registry(), i, op as u16, ver);
                law_registry_keys_unique(i, c);
            }
            push_str(s, known.event_name);
            push_str(s, " [");
            push_str(s, known.class_name);
            push_str(s, "] (Opcode=");
        },
        None => {
            push_str(s, "UNKNOWN (Opcode=");
        },
    }
    push_dec(s, op as u64);
    push_str(s, ", Version=");
    push_dec(s, ver as u64);
    push_str(s, ")");
}

fn push_config_line(s: &mut String, c: &TestConfig)
    ensures
        final(s)@ == old(s)@ + config_text(*c),
{
    let ghost start = s@;
    push_str(s, "  ");
    push_str(s, c.name.as_str());
    push_str(s, ": EF=");
    push_flags(s, c.enable_flags);
    push_str(s, ", GM=");
    push_mask(s, c.group_mask);
    push_str(s, "\n");
    assert(s@ =~= start + config_text(*c));
}

fn push_never_line(s: &mut String, d: &FileIoEventDef)
    ensures
        final(s)@ == old(s)@ + unreceived_text(*d) + "\n"@,
{
    let ghost start = s@;
    push_str(s, "  ");
    push_str(s, d.event_name);
    push_str(s, " [");
    push_str(s, d.class_name);
    push_str(s, "] (Opcode=");
    push_dec(s, d.event_id as u64);
    push_str(s, ", Version=");
    push_dec(s, d.version as u64);
    push_str(s, ")");
    push_str(s, "\n");
    assert(s@ =~= start + unreceived_text(*d) + "\n"@);
}

/// The text summary of the cumulative counts: the number of runs, the
/// configurations tested, each event of the cumulative report with its
/// configurations, and the known events never received (`events` and
/// `unreceived` as `cumulative::display` gives them).
pub fn text_summary(
    total_runs: usize,
    test_configs: &Vec<TestConfig>,
    events: &Vec<EventReport>,
    unreceived: &Vec<FileIoEventDef>,
) -> (s: String)
    ensures
        s@ == summary_text(total_runs, test_configs@, events@, unreceived@),
{
    let mut s = owned("=== FileIo ETW Trace Test Results ===\n\n");
    push_str(&mut s, "Total runs: ");
    push_dec(&mut s, total_runs as u64);
    push_str(&mut s, "\n\n");
    push_str(&mut s, "Configurations tested:\n");
    let ghost head = s@;
    let mut i: usize = 0;
    while i < test_configs.len()
        invariant
            i <= test_configs@.len(),
            s@ == head + configs_text(test_configs@.subrange(0, i as int)),
        decreases test_configs.len() - i,
    {
        let ghost prev = s@;
        push_config_line(&mut s, &test_configs[i]);
        proof {
            assert(test_configs@.subrange(0, i + 1).drop_last() =~= test_configs@.subrange(0, i as int));
            assert(s@ =~= head + configs_text(test_configs@.subrange(0, i + 1)));
        }
        i = i + 1;
    }
    assert(test_configs@.subrange(0, test_configs@.len() as int) =~= test_configs@);
    push_str(&mut s, "\n");
    push_str(&mut s, "=== Cumulative Event Counts ===\n\n");
    let ghost mid = s@;
    let mut i: usize = 0;
    while i < events.len()
        invariant
            i <= events@.len(),
            s@ == mid + events_text(events@.subrange(0, i as int)),
        decreases events.len() - i,
    {
        let e = &events[i];
        let ghost before = s@;
        push_label(&mut s, e.opcode, e.version);
        push_str(&mut s, "\n");
        let ghost lines_start = s@;
        let mut j: usize = 0;
        while j < e.configs.len()
            invariant
                j <= e.configs@.len(),
                s@ == lines_start + count_lines_text(e.configs@.subrange(0, j as int)),
            decreases e.configs.len() - j,
        {
            let l = &e.configs[j];
            push_str(&mut s, "    ");
            push_str(&mut s, l.config_name.as_str());
            if l.current > 0 {
                push_str(&mut s, ": ");
                push_dec(&mut s, l.current as u64);
                push_str(&mut s, " this run, ");
            } else {
                push_str(&mut s, ": 0 this run, ");
            }
            push_dec(&mut s, l.cumulative as u64);
            push_str(&mut s, " cumulative\n");
            proof {
                assert(e.configs@.subrange(0, j + 1).drop_last() =~= e.configs@.subrange(0, j as int));
            }
            j = j + 1;
        }
        push_str(&mut s, "\n");
        proof {
            assert(e.configs@.subrange(0, e.configs@.len() as int) =~= e.configs@);
            assert(events@.subrange(0, i + 1).drop_last() =~= events@.subrange(0, i as int));
        }
        i = i + 1;
    }
    assert(events@.subrange(0, events@.len() as int) =~= events@);
    if unreceived.len() > 0 {
        push_str(&mut s, "--- Events NEVER received ---\n");
        let ghost tail = s@;
        let mut k: usize = 0;
        while k < unreceived.len()
            invariant
                k <= unreceived@.len(),
                s@ == tail + never_text(unreceived@.subrange(0, k as int)),
            decreases unreceived.len() - k,
        {
            push_never_line(&mut s, &unreceived[k]);
            proof {
                assert(unreceived@.subrange(0, k + 1).drop_last() =~= unreceived@.subrange(0, k as int));
                assert(s@ =~= tail + never_text(unreceived@.subrange(0, k + 1)));
            }
            k = k + 1;
        }
        assert(unreceived@.subrange(0, unreceived@.len() as int) =~= unreceived@);
    }
    s
}

} // verus!
