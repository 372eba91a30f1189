use fileio_etw::compare::OpcodeCount;
use fileio_etw::cumulative::{cumulative_report, display, unreceived_events};
use fileio_etw::fileio_registry::event_registry;
use fileio_etw::flag_comparison::{aggregate_runs, analyze_results, FileIoRawEvent, RunResult};
use fileio_etw::log_format::LogLevel;
use fileio_etw::persist::{compute_counts, event_key, merge, parse_event_key, ConfigCounts, PersistedData};
use fileio_etw::trace_test::{build_test_configs, session_name, text_summary, TestConfig};

fn raw(opcode: u8, version: u8, timestamp: u64) -> FileIoRawEvent {
    FileIoRawEvent { opcode, event_id: opcode as u16, version, timestamp, process_id: 1, thread_id: 2 }
}

fn oc(opcode: u8, version: u8, count: usize) -> OpcodeCount {
    OpcodeCount { opcode, version, count }
}

fn config(name: &str, counts: Vec<OpcodeCount>) -> ConfigCounts {
    ConfigCounts { config_name: name.to_string(), counts }
}

fn count_in(d: &PersistedData, name: &str, opcode: u8, version: u8) -> Option<usize> {
    let c = d.config_events.iter().find(|c| c.config_name == name)?;
    c.counts.iter().find(|e| e.opcode == opcode && e.version == version).map(|e| e.count)
}

#[test]
fn event_key_round_trip() {
    assert_eq!(event_key(98, 3), "98:3");
    assert_eq!(event_key(0, 0), "0:0");
    assert_eq!(parse_event_key("98:3"), Some((98, 3)));
    for (op, ver) in [(0u8, 0u8), (7, 2), (255, 255), (64, 3)] {
        assert_eq!(parse_event_key(&event_key(op, ver)), Some((op, ver)));
    }
}

#[test]
fn parse_event_key_rejects_bad_keys() {
    assert_eq!(parse_event_key("98"), None);
    assert_eq!(parse_event_key("98:3:1"), None);
    assert_eq!(parse_event_key("256:1"), None);
    assert_eq!(parse_event_key("a:1"), None);
    assert_eq!(parse_event_key(":1"), None);
    assert_eq!(parse_event_key("+7:1"), Some((7, 1)));
}

#[test]
fn compute_counts_tallies_opcode_version() {
    let evs = vec![raw(67, 2, 1), raw(64, 3, 2), raw(67, 2, 3), raw(67, 3, 4)];
    assert_eq!(compute_counts(&evs), vec![oc(64, 3, 1), oc(67, 2, 2), oc(67, 3, 1)]);
    assert!(compute_counts(&vec![]).is_empty());
}

#[test]
fn merge_adds_counts_and_keeps_the_rest() {
    let mut d = PersistedData::new();
    assert_eq!(d.total_runs, 0);
    merge(&mut d, &vec![config("EF:FILE_IO", vec![oc(76, 2, 3)]), config("GM:PERF_FLT_IO", vec![oc(98, 3, 5)])]);
    assert_eq!(d.total_runs, 1);
    merge(&mut d, &vec![config("EF:FILE_IO", vec![oc(76, 2, 4), oc(64, 3, 1)]), config("EF:VAMAP", vec![oc(37, 2, 2)])]);
    assert_eq!(d.total_runs, 2);
    assert_eq!(count_in(&d, "EF:FILE_IO", 76, 2), Some(7));
    assert_eq!(count_in(&d, "EF:FILE_IO", 64, 3), Some(1));
    assert_eq!(count_in(&d, "GM:PERF_FLT_IO", 98, 3), Some(5));
    assert_eq!(count_in(&d, "EF:VAMAP", 37, 2), Some(2));
    assert_eq!(d.config_events.len(), 3);
}

#[test]
fn cumulative_report_orders_events_and_configs() {
    let mut d = PersistedData::new();
    let current = vec![config("b", vec![oc(98, 3, 2)]), config("a", vec![oc(98, 3, 1), oc(0, 2, 4)])];
    merge(&mut d, &vec![config("c", vec![oc(98, 3, 9)])]);
    merge(&mut d, &current);
    let r = cumulative_report(&d, &current);
    let keys: Vec<(u8, u8)> = r.iter().map(|e| (e.opcode, e.version)).collect();
    assert_eq!(keys, vec![(0, 2), (98, 3)]);
    let names: Vec<&str> = r[1].configs.iter().map(|l| l.config_name.as_str()).collect();
    assert_eq!(names, vec!["a", "b", "c"]);
    let counts: Vec<(usize, usize)> = r[1].configs.iter().map(|l| (l.current, l.cumulative)).collect();
    assert_eq!(counts, vec![(1, 1), (2, 2), (0, 9)]);
    assert_eq!(r[0].configs.len(), 1);
    assert_eq!(r[0].configs[0].config_name, "a");
}

#[test]
fn unreceived_events_are_the_registry_minus_received() {
    let mut d = PersistedData::new();
    assert_eq!(unreceived_events(&d).len(), event_registry().len());
    merge(&mut d, &vec![config("x", vec![oc(0, 0, 1), oc(0, 1, 1)])]);
    let un = unreceived_events(&d);
    assert_eq!(un.len(), event_registry().len() - 2);
    assert!(un.iter().all(|e| !(e.event_id == 0 && e.version <= 1)));
}

#[test]
fn display_records_layout() {
    let mut d = PersistedData::new();
    let current = vec![config("GM:PERF_FLT_IO", vec![oc(98, 3, 2)])];
    merge(&mut d, &vec![config("GM:PERF_FLT_FASTIO", vec![oc(250, 1, 3)])]);
    merge(&mut d, &current);
    let out = display(&d, &current);
    let lines: Vec<(LogLevel, &str)> = out.records.iter().map(|r| (r.level, r.message.as_str())).collect();
    assert_eq!(lines[0], (LogLevel::Info, ""));
    assert_eq!(lines[1], (LogLevel::Info, "=== CUMULATIVE RESULTS (2 total runs) ==="));
    assert_eq!(lines[2], (LogLevel::Info, ""));
    assert_eq!(lines[3].1, "PreOpCompletion [FltIoCompletion] (Opcode=98, Version=3)");
    assert_eq!(lines[4].1, "    GM:PERF_FLT_IO: 2 this run, 2 cumulative");
    assert_eq!(lines[5].1, "");
    assert_eq!(lines[6].1, "UNKNOWN (Opcode=250, Version=1)");
    assert_eq!(lines[7].1, "    GM:PERF_FLT_FASTIO: 0 this run, 3 cumulative (persisted)");
    assert_eq!(lines[8], (LogLevel::Warn, ""));
    assert_eq!(lines[9], (LogLevel::Warn, "Defined events NEVER received across all runs:"));
    assert_eq!(lines[10].1, "-----------------------------------------------");
    assert_eq!(lines[11], (LogLevel::Warn, "  Name [FileIo_V0_Name] (Opcode=0, Version=0)"));
    assert_eq!(lines.len(), 11 + out.unreceived.len());
    assert_eq!(out.events.len(), 2);
}

#[test]
fn analyze_results_matches_within_tolerance() {
    // two FASTIO completions; the first has a FLT_IO partner 50 us away, the
    // second only one 200 us away (outside the tolerance)
    let a = vec![raw(98, 3, 1_000_000), raw(99, 3, 2_000_000), raw(64, 3, 5)];
    let b = vec![raw(98, 3, 1_050_000), raw(99, 3, 2_200_000), raw(99, 3, 3_000_000)];
    let r = analyze_results(&a, &b);
    assert_eq!(r.count_fastio, 2);
    assert_eq!(r.count_flt_io, 3);
    assert_eq!(r.matched_count, 1);
    assert_eq!(r.unique_to_fastio, 1);
    assert_eq!(r.unique_to_flt_io, 2);
    assert_eq!((r.pre_count_fastio, r.post_count_fastio), (1, 1));
    assert_eq!((r.pre_count_flt_io, r.post_count_flt_io), (1, 2));
}

#[test]
fn analyze_results_each_partner_used_once() {
    let a = vec![raw(98, 3, 100), raw(98, 3, 110)];
    let b = vec![raw(98, 3, 105)];
    let r = analyze_results(&a, &b);
    assert_eq!(r.matched_count, 1);
    assert_eq!(r.unique_to_fastio, 1);
    assert_eq!(r.unique_to_flt_io, 0);
}

#[test]
fn analyze_results_takes_first_free_partner() {
    // the first FASTIO event could match either FLT_IO event and takes the
    // earlier one; the second then takes the one left, so both are matched
    let a = vec![raw(99, 3, 1_000), raw(99, 3, 60_000)];
    let b = vec![raw(99, 3, 50_000), raw(99, 3, 90_000)];
    let r = analyze_results(&a, &b);
    assert_eq!(r.matched_count, 2);
    assert_eq!((r.unique_to_fastio, r.unique_to_flt_io), (0, 0));
    // the opcodes must agree: a post completion never matches a pre completion
    let c = vec![raw(98, 3, 1_000)];
    let d = vec![raw(99, 3, 1_000)];
    let q = analyze_results(&c, &d);
    assert_eq!(q.matched_count, 0);
    assert_eq!(q.pre_count_fastio + q.post_count_fastio, q.count_fastio);
}

#[test]
fn trace_test_configs() {
    let cs = build_test_configs();
    assert_eq!(cs.len(), 15);
    assert_eq!(cs[0].name, "EF:DISK_FILE_IO");
    assert_eq!(cs[0].enable_flags, Some(0x200));
    assert_eq!(cs[0].group_mask, None);
    assert_eq!(cs[9].name, "GM:PERF_FLT_IO");
    assert_eq!(cs[9].group_mask, Some([0, 0, 0, 0, 0x8010_0000, 0, 0, 0]));
    assert_eq!(cs[14].name, "COMBO:ALL_EF+ALL_FLT");
    assert_eq!(cs[14].enable_flags, Some(0x0600_8200));
    assert_eq!(cs[14].group_mask, Some([0, 0, 0, 0, 0x8078_0000, 0, 0, 0]));
}

#[test]
fn trace_session_names() {
    assert_eq!(session_name("COMBO:ALL_EF+ALL_FLT"), "FileIoTest-COMBO_ALL_EF_ALL_FLT");
    assert_eq!(session_name("a b"), "FileIoTest-a_b");
    assert_eq!(session_name(""), "FileIoTest-");
}

#[test]
fn text_summary_layout() {
    let mut d = PersistedData::new();
    let current = vec![config("EF:FILE_IO", vec![oc(76, 3, 2)])];
    merge(&mut d, &vec![config("GM:X", vec![oc(76, 3, 1)])]);
    merge(&mut d, &current);
    let out = display(&d, &current);
    let configs = vec![
        TestConfig { name: "EF:FILE_IO".to_string(), enable_flags: Some(0x0200_0000), group_mask: None },
        TestConfig { name: "GM:X".to_string(), enable_flags: None, group_mask: Some([0, 0, 0, 0, 0x8010_0000, 0, 0, 0]) },
    ];
    let text = text_summary(d.total_runs, &configs, &out.events, &out.unreceived);
    let expected_head = "=== FileIo ETW Trace Test Results ===\n\nTotal runs: 2\n\nConfigurations tested:\n  EF:FILE_IO: EF=0x02000000, GM=None\n  GM:X: EF=None, GM=[00000000,00000000,00000000,00000000,80100000,00000000,00000000,00000000]\n\n=== Cumulative Event Counts ===\n\nOperationEnd [FileIo_OpEnd] (Opcode=76, Version=3)\n    EF:FILE_IO: 2 this run, 2 cumulative\n    GM:X: 0 this run, 1 cumulative\n\n--- Events NEVER received ---\n  Name [FileIo_V0_Name] (Opcode=0, Version=0)\n";
    assert!(text.starts_with(expected_head), "{}", text);
    assert_eq!(text.lines().filter(|l| l.starts_with("  ") && l.contains("(Opcode=")).count(), out.unreceived.len());
}

#[test]
fn run_results_totalled_field_by_field() {
    let r = |k: usize| RunResult {
        count_fastio: k,
        count_flt_io: 2 * k,
        unique_to_fastio: 3 * k,
        unique_to_flt_io: 4 * k,
        matched_count: 5 * k,
        pre_count_fastio: 6 * k,
        pre_count_flt_io: 7 * k,
        post_count_fastio: 8 * k,
        post_count_flt_io: 9 * k,
    };
    assert_eq!(aggregate_runs(&vec![r(1), r(10), r(100)]), r(111));
    assert_eq!(aggregate_runs(&vec![]), r(0));
}
