use fileio_etw::parsed_comparison::{parsed_comparison, ParsedEvent, ParsedRun};

fn pe(opcode: u8, version: u8, pid: u32, tid: u32, data: &str) -> ParsedEvent {
    ParsedEvent { opcode, version, process_id: pid, thread_id: tid, data: data.to_string() }
}

fn run(name: &str, events: Vec<ParsedEvent>) -> ParsedRun {
    ParsedRun { config_name: name.to_string(), events }
}

#[test]
fn parsed_events_compared_across_configs() {
    let runs = vec![
        run(
            "GM:PERF_FLT_IO",
            vec![pe(98, 3, 5, 6, "x"), pe(98, 3, 5, 6, "x"), pe(98, 3, 5, 6, "y"), pe(64, 2, 5, 6, "d")],
        ),
        run(
            "EF:FILE_IO",
            vec![pe(64, 2, 1, 2, "a"), pe(64, 2, 1, 2, "b"), pe(67, 2, 1, 2, "c"), pe(64, 2, 1, 2, "e"), pe(64, 2, 1, 2, "f")],
        ),
        run("GM:PERF_FLT_FASTIO", vec![]),
    ];
    let c = parsed_comparison(&runs);
    let keys: Vec<(u8, u8, Vec<usize>)> = c.groups.iter().map(|g| (g.opcode, g.version, g.configs.clone())).collect();
    assert_eq!(keys, vec![(64, 2, vec![1, 0]), (67, 2, vec![1]), (98, 3, vec![0])]);
    let msgs: Vec<String> = c.records.iter().map(|r| r.message.clone()).collect();
    let expected = vec![
        "",
        "=== PARSED EVENT COMPARISON ===",
        "Comparing parsed event data across flag combinations to identify differences.",
        "",
        "Create [FileIo_V2_Create] (Opcode=64, Version=2)",
        "  EF:FILE_IO: 4 events",
        "    [1] PID=1 TID=2 data=a",
        "    [2] PID=1 TID=2 data=b",
        "    [3] PID=1 TID=2 data=e",
        "    ... and 1 more",
        "  GM:PERF_FLT_IO: 1 events",
        "    [1] PID=5 TID=6 data=d",
        "  NOT present in: GM:PERF_FLT_FASTIO",
        "Read [FileIo_V2_ReadWrite] (Opcode=67, Version=2)",
        "  EF:FILE_IO: 1 events",
        "    [1] PID=1 TID=2 data=c",
        "  NOT present in: GM:PERF_FLT_IO, GM:PERF_FLT_FASTIO",
        "PreOpCompletion [FltIoCompletion] (Opcode=98, Version=3)",
        "  GM:PERF_FLT_IO: 3 events",
        "    [1] PID=5 TID=6 data=x",
        "    [2] PID=5 TID=6 data=x",
        "    [3] PID=5 TID=6 data=y",
        "  NOT present in: EF:FILE_IO, GM:PERF_FLT_FASTIO",
        "",
        "=== FLT IO COMPLETION COMPARISON ===",
        "Comparing FltIoCompletion events between PERF_FLT_FASTIO and PERF_FLT_IO",
        "",
        "PreOpCompletion (Opcode=98):",
        "  GM:PERF_FLT_FASTIO: 0 events",
        "  GM:PERF_FLT_IO: 3 events",
        "  GM:PERF_FLT_IO unique data values: 2",
        "    [1] x",
        "    [2] y",
        "PostOpCompletion (Opcode=99):",
        "  GM:PERF_FLT_FASTIO: 0 events",
        "  GM:PERF_FLT_IO: 0 events",
    ];
    assert_eq!(msgs, expected);
}

#[test]
fn flt_comparison_without_configs() {
    let c = parsed_comparison(&vec![run("EF:FILE_IO", vec![pe(99, 3, 1, 1, "z")])]);
    let msgs: Vec<String> = c.records.iter().map(|r| r.message.clone()).collect();
    assert_eq!(msgs[4], "PostOpCompletion [FltIoCompletion] (Opcode=99, Version=3)");
    assert_eq!(msgs[7..].to_vec(), vec![
        "",
        "=== FLT IO COMPLETION COMPARISON ===",
        "Comparing FltIoCompletion events between PERF_FLT_FASTIO and PERF_FLT_IO",
        "",
        "PreOpCompletion (Opcode=98):",
        "  GM:PERF_FLT_FASTIO: no data",
        "  GM:PERF_FLT_IO: no data",
        "PostOpCompletion (Opcode=99):",
        "  GM:PERF_FLT_FASTIO: no data",
        "  GM:PERF_FLT_IO: no data",
    ]);
}
