use fileio_etw::discovery_display::display;
use fileio_etw::log_format::LogLevel;
use fileio_etw::discovery::{
    build_all_flags, build_event_types, build_warnings, canonical_def, combo_key, combo_name, max_known_version,
    merge_flags, phase_progress, process_run, sorted_vec, update_discovery, vers_str, versions_in_run,
    DiscoveredOpcode, EventDiscovery, ObservedTrace, WarningKind,
};
use fileio_etw::discovery_report::{discovered_entries, final_summary, group_by_size, undiscovered};
use fileio_etw::flag_comparison::FileIoRawEvent;

fn raw(opcode: u8, version: u8) -> FileIoRawEvent {
    FileIoRawEvent { opcode, event_id: opcode as u16, version, timestamp: 0, process_id: 0, thread_id: 0 }
}

fn record<'a>(ds: &'a [DiscoveredOpcode], op: u8) -> Option<&'a EventDiscovery> {
    ds.iter().find(|d| d.opcode == op).map(|d| &d.discovery)
}

#[test]
fn twelve_flags_enable_flags_first() {
    let flags = build_all_flags();
    assert_eq!(flags.len(), 12);
    assert_eq!(flags[0].name, "EF:DISK_FILE_IO");
    assert_eq!(flags[0].enable_flags, Some(0x200));
    assert_eq!(flags[9].name, "GM:PERF_FLT_IO");
    assert_eq!(flags[9].group_mask, Some(0x8010_0000));
    assert!(flags[..4].iter().all(|f| f.enable_flags.is_some() && f.group_mask.is_none()));
}

#[test]
fn merge_flags_builds_session() {
    let flags = build_all_flags();
    let c = merge_flags(&flags, &vec![0, 9]);
    assert_eq!(c.session_name, "FlagDiscovery-EF_DISK_FILE_IO__GM_PERF_FLT_IO");
    assert_eq!(c.enable_flags, Some(0x200));
    assert_eq!(c.group_mask, Some([0, 0, 0, 0, 0x8010_0000, 0, 0, 0]));
    let gm_only = merge_flags(&flags, &vec![9, 10]);
    assert_eq!(gm_only.enable_flags, None);
    assert_eq!(gm_only.group_mask, Some([0, 0, 0, 0, 0x8030_0000, 0, 0, 0]));
    let ef_only = merge_flags(&flags, &vec![1, 2]);
    assert_eq!(ef_only.enable_flags, Some(0x0600_0000));
    assert_eq!(ef_only.group_mask, None);
}

#[test]
fn combo_names_and_keys() {
    let flags = build_all_flags();
    assert_eq!(combo_name(&flags, &vec![0, 9]), "EF:DISK_FILE_IO + GM:PERF_FLT_IO");
    assert_eq!(combo_key(&flags, &vec![0, 9]), "EF:DISK_FILE_IO+GM:PERF_FLT_IO");
    assert_eq!(combo_name(&flags, &vec![]), "");
}

#[test]
fn event_types_one_per_opcode_highest_version() {
    let types = build_event_types();
    let ops: Vec<u8> = types.iter().map(|t| t.opcode).collect();
    let mut sorted = ops.clone();
    sorted.sort();
    sorted.dedup();
    assert_eq!(ops, sorted);
    let name = types.iter().find(|t| t.opcode == 0).unwrap();
    assert_eq!(name.class_name, "FileIo_Name");
    assert_eq!(canonical_def(0).unwrap().version, 3);
    assert_eq!(max_known_version(0), Some(3));
    assert_eq!(max_known_version(37), Some(2));
    assert_eq!(max_known_version(200), None);
    assert!(canonical_def(200).is_none());
}

#[test]
fn observed_trace_counts_and_first_combo() {
    let mut t = ObservedTrace::new();
    t.record_run(&vec![raw(64, 3), raw(64, 3), raw(67, 3)], &vec![0]);
    t.record_run(&vec![raw(64, 3), raw(68, 2)], &vec![1, 2]);
    let get = |op: u8, ver: u8| t.pairs.iter().find(|p| p.opcode == op && p.version == ver).unwrap();
    assert_eq!(get(64, 3).count, 3);
    assert_eq!(get(64, 3).first_combo, vec![0]);
    assert_eq!(get(68, 2).first_combo, vec![1, 2]);
    assert_eq!(t.pairs.len(), 3);
}

#[test]
fn versions_in_run_are_distinct() {
    let evs = vec![raw(64, 3), raw(64, 2), raw(64, 3), raw(67, 3)];
    let mut v = versions_in_run(&evs, 64);
    v.sort();
    assert_eq!(v, vec![2, 3]);
    assert!(versions_in_run(&evs, 99).is_empty());
}

#[test]
fn update_discovery_keeps_smallest_combinations() {
    let types = build_event_types();
    let mut ds: Vec<DiscoveredOpcode> = Vec::new();
    let mut news: Vec<String> = Vec::new();
    update_discovery(&mut ds, 64, 2, &vec![0, 1], &vec![3], &types, &mut news);
    assert_eq!(news, vec!["Create [FileIo_Create] (Opcode=64)".to_string()]);
    update_discovery(&mut ds, 64, 2, &vec![0, 2], &vec![2], &types, &mut news);
    update_discovery(&mut ds, 64, 2, &vec![0, 1], &vec![3], &types, &mut news);
    let d = record(&ds, 64).unwrap();
    assert_eq!(d.best_size, 2);
    assert_eq!(d.combinations, vec![vec![0, 1], vec![0, 2]]);
    assert_eq!(news.len(), 1);
    update_discovery(&mut ds, 64, 1, &vec![5], &vec![3], &types, &mut news);
    let d = record(&ds, 64).unwrap();
    assert_eq!(d.best_size, 1);
    assert_eq!(d.combinations, vec![vec![5]]);
    assert_eq!(news.len(), 2);
    update_discovery(&mut ds, 64, 3, &vec![1, 2, 3], &vec![4], &types, &mut news);
    let d = record(&ds, 64).unwrap();
    assert_eq!(d.combinations, vec![vec![5]]);
    assert_eq!(vers_str(Some(d)), "2,3,4");
    assert_eq!(vers_str(None), "");
}

#[test]
fn process_run_updates_event_types_only() {
    let types = build_event_types();
    let mut ds: Vec<DiscoveredOpcode> = Vec::new();
    let mut obs = ObservedTrace::new();
    let mut news: Vec<String> = Vec::new();
    process_run(&mut ds, &mut obs, &mut news, 1, &vec![3], &vec![raw(67, 3), raw(64, 3), raw(250, 1)], &types);
    let ops: Vec<u8> = ds.iter().map(|d| d.opcode).collect();
    assert_eq!(ops, vec![64, 67]);
    assert_eq!(news.len(), 2);
    assert_eq!(obs.pairs.len(), 3);
    assert_eq!(phase_progress(&ds, 1, types.len()), (2, false));
    assert_eq!(phase_progress(&ds, 0, 2), (0, false));
    assert_eq!(phase_progress(&ds, 1, 2), (2, true));
}

#[test]
fn warnings_for_unknown_and_newer_versions() {
    let flags = build_all_flags();
    let mut t = ObservedTrace::new();
    t.record_run(&vec![raw(250, 1), raw(64, 3), raw(64, 9), raw(64, 9)], &vec![0, 9]);
    let w = build_warnings(&t, &flags);
    assert_eq!(w.len(), 2);
    assert_eq!((w[0].opcode, w[0].version, w[0].count), (64, 9, 2));
    assert_eq!(w[0].kind, WarningKind::HigherVersion { max_known: 3 });
    assert_eq!(w[0].max_known_version, Some(3));
    assert_eq!(w[0].event_name, "Create");
    assert_eq!(w[0].first_combo, vec!["EF:DISK_FILE_IO".to_string(), "GM:PERF_FLT_IO".to_string()]);
    assert_eq!((w[1].opcode, w[1].version), (250, 1));
    assert_eq!(w[1].kind, WarningKind::UnknownOpcode);
    assert_eq!(w[1].class_name, "");
}

#[test]
fn sorted_vec_dedups_ascending() {
    assert_eq!(sorted_vec(&vec![3, 1, 3, 255, 0]), vec![0, 1, 3, 255]);
    assert_eq!(sorted_vec(&vec![]), Vec::<u8>::new());
}

#[test]
fn discovery_results_and_summary() {
    let flags = build_all_flags();
    let types = build_event_types();
    let mut ds: Vec<DiscoveredOpcode> = Vec::new();
    let mut news: Vec<String> = Vec::new();
    update_discovery(&mut ds, 67, 2, &vec![1, 2], &vec![3, 2], &types, &mut news);
    update_discovery(&mut ds, 64, 1, &vec![2], &vec![3], &types, &mut news);
    update_discovery(&mut ds, 67, 2, &vec![0, 2], &vec![3], &types, &mut news);
    let entries = discovered_entries(&ds, &flags, &types);
    let ops: Vec<u8> = entries.iter().map(|e| e.opcode).collect();
    assert_eq!(ops, vec![64, 67]);
    assert_eq!(entries[1].event_name, "Read");
    assert_eq!(entries[1].class_name, "FileIo_ReadWrite");
    assert_eq!(entries[1].observed_versions, vec![2, 3]);
    assert_eq!(
        entries[1].combinations,
        vec![
            vec!["EF:FILE_IO".to_string(), "EF:FILE_IO_INIT".to_string()],
            vec!["EF:DISK_FILE_IO".to_string(), "EF:FILE_IO_INIT".to_string()],
        ]
    );
    let missing = undiscovered(&ds, &types);
    assert_eq!(missing.len(), types.len() - 2);
    assert!(missing.iter().all(|t| t.opcode != 64 && t.opcode != 67));

    let mut t = ObservedTrace::new();
    t.record_run(&vec![raw(250, 1)], &vec![3]);
    t.record_run(&vec![raw(64, 7)], &vec![0, 1]);
    let warnings = build_warnings(&t, &flags);
    let groups = group_by_size(entries);
    let sizes: Vec<(usize, u8)> = groups.iter().map(|e| (e.best_size, e.opcode)).collect();
    assert_eq!(sizes, vec![(1, 64), (2, 67)]);
    let text = final_summary(&flags[..2].to_vec(), &groups, &missing[..1].to_vec(), &warnings);
    let expected = "=== FLAG DISCOVERY RESULTS ===\n\nFlags tested:\n  [0] EF:DISK_FILE_IO (EF=Some(\"0x00000200\"), GM=None)\n  [1] EF:FILE_IO (EF=Some(\"0x02000000\"), GM=None)\n\n--- Size 1 ---\n  EF:FILE_IO_INIT -> Create [FileIo_Create] (Opcode=64, V={3})\n\n--- Size 2 ---\n  EF:FILE_IO + EF:FILE_IO_INIT -> Read [FileIo_ReadWrite] (Opcode=67, V={2,3})\n  EF:DISK_FILE_IO + EF:FILE_IO_INIT -> Read [FileIo_ReadWrite] (Opcode=67, V={2,3})\n\n";
    assert!(text.starts_with(expected), "{}", text);
    let rest = &text[expected.len()..];
    assert!(rest.starts_with("--- Undiscovered Events ---\n  Name [FileIo_Name] (Opcode=0)\n"), "{}", rest);
    assert!(rest.ends_with(
        "\n--- Warnings ---\nUnknown opcode events:\n  opcode=250 version=1 (count=1, class=\"\", name=\"\", first combo: [EF:VAMAP])\nVersion higher than known:\n  Create [FileIo_Create] opcode=64 version=7 (max known V3, count=1, first combo: [EF:DISK_FILE_IO + EF:FILE_IO])\n\n"
    ), "{}", rest);
}

#[test]
fn discovery_display_groups_and_records() {
    let flags = build_all_flags();
    let types = build_event_types();
    let mut ds: Vec<DiscoveredOpcode> = Vec::new();
    let mut news: Vec<String> = Vec::new();
    update_discovery(&mut ds, 67, 2, &vec![1, 2], &vec![3, 2], &types, &mut news);
    update_discovery(&mut ds, 64, 1, &vec![2], &vec![3], &types, &mut news);
    update_discovery(&mut ds, 67, 2, &vec![0, 2], &vec![3], &types, &mut news);
    let mut t = ObservedTrace::new();
    t.record_run(&vec![raw(250, 1)], &vec![3]);
    t.record_run(&vec![raw(64, 7)], &vec![0, 1]);
    let d = display(&ds, &flags, &types, &t);
    let sizes: Vec<usize> = d.groups.iter().map(|g| g.size).collect();
    assert_eq!(sizes, vec![1, 2]);
    assert_eq!(d.groups[1].combos[0].indices, vec![0, 2]);
    assert_eq!(d.groups[1].combos[1].indices, vec![1, 2]);
    assert_eq!(d.groups[1].combos[1].opcodes, vec![67]);
    let msgs: Vec<(LogLevel, String)> = d.records.iter().map(|r| (r.level, r.message.clone())).collect();
    let info = |s: &str| (LogLevel::Info, s.to_string());
    assert_eq!(
        msgs[..9].to_vec(),
        vec![
            info("\n=== FLAG DISCOVERY RESULTS ==="),
            info("\n--- Size 1 ---"),
            info("  EF:FILE_IO_INIT:"),
            info("    Create [FileIo_Create] (Opcode=64, Versions={3})"),
            info("\n--- Size 2 ---"),
            info("  EF:DISK_FILE_IO + EF:FILE_IO_INIT:"),
            info("    Read [FileIo_ReadWrite] (Opcode=67, Versions={2,3})"),
            info("  EF:FILE_IO + EF:FILE_IO_INIT:"),
            info("    Read [FileIo_ReadWrite] (Opcode=67, Versions={2,3})"),
        ]
    );
    let n = types.len() - 2;
    assert_eq!(
        msgs[9],
        (LogLevel::Warn, format!("\n--- Undiscovered Events ---\nThe following {} event type(s) were never observed:", n))
    );
    assert_eq!(msgs[10], (LogLevel::Warn, "  Name [FileIo_Name] (Opcode=0)".to_string()));
    assert_eq!(msgs.len(), 10 + n + 3);
    assert_eq!(msgs[10 + n], (LogLevel::Warn, "\n--- Warnings ---".to_string()));
    assert_eq!(
        msgs[12 + n].1,
        "Unknown opcode: opcode=250 version=1 count=1 class=\"\" name=\"\" first combo: [EF:VAMAP]"
    );
    assert_eq!(
        msgs[11 + n].1,
        "Version higher than known: Create [FileIo_Create] opcode=64 version=7 max known V3 count=1 first combo: [EF:DISK_FILE_IO + EF:FILE_IO]"
    );
}
