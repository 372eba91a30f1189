use fileio_etw::compare::{count_matched, CapturedEvent};
use fileio_etw::guid::guid_readable;
use fileio_etw::guid_literal::guid_literal_from_str;
use fileio_etw::tdh_types::EventTypeInfo;
use fileio_etw::type_files::{observations_path, sanitize_key, schema_path, type_file_key, ObservationCounts};

fn event(opcode: u8, timestamp: u64, tid: u32) -> CapturedEvent {
    CapturedEvent { opcode, version: 0, timestamp, pid: 4, tid, sig: 0, major: 0, parse_ok: false }
}

#[test]
fn sanitize_key_replaces_separators() {
    assert_eq!(sanitize_key("Microsoft-Windows-Kernel-File"), "Microsoft_Windows_Kernel_File");
    assert_eq!(sanitize_key("a b/c:d_e9"), "a_b_c_d_e9");
    assert_eq!(sanitize_key(""), "");
}

#[test]
fn sanitize_key_keeps_unicode_letters() {
    assert_eq!(sanitize_key("café-1"), "café_1");
}

#[test]
fn type_file_key_format() {
    let info = EventTypeInfo {
        provider_guid: String::from("{90CBDC39-4A3E-11D1-84F4-0000F80464E3}"),
        event_id: 0,
        opcode: 64,
        version: 3,
        provider_name: String::from("MSNT_SystemTrace FileIo"),
        opcode_name: String::from("Create"),
        properties: Vec::new(),
    };
    assert_eq!(type_file_key(&info), "MSNT_SystemTrace_FileIo_0_v3_op64");
}

#[test]
fn schema_and_observation_paths() {
    assert_eq!(schema_path("out/tdh", "File-Io_0_v3_op64"), "out/tdh/File_Io_0_v3_op64_schema.json");
    assert_eq!(observations_path("out/tdh", "File-Io_0_v3_op64"), "out/tdh/File_Io_0_v3_op64_observations.jsonl");
}

#[test]
fn observation_counts_register_and_count() {
    let mut c = ObservationCounts::new();
    let a = String::from("A_0_v0_op1");
    let b = String::from("B_0_v0_op2");
    c.register(&a);
    assert_eq!(c.counts, vec![(a.clone(), 0)]);
    c.count(&a);
    c.count(&a);
    c.count(&b);
    c.register(&a);
    assert_eq!(c.counts, vec![(a.clone(), 2), (b.clone(), 1)]);
    assert_eq!(c.observed(&a), 2);
    assert_eq!(c.observed(&"C_0_v0_op3".to_string()), 0);
}

#[test]
fn guid_readable_accepts_braced_and_plain() {
    assert!(guid_readable("{90CBDC39-4A3E-11D1-84F4-0000F80464E3}"));
    assert!(guid_readable("90cbdc39-4a3e-11d1-84f4-0000f80464e3"));
}

#[test]
fn guid_readable_refuses_split_characters() {
    assert!(!guid_readable("1-2-3-0é00-000000000000"));
}

#[test]
fn guid_readable_accepts_inputs_that_only_fail() {
    assert!(guid_readable("not a guid"));
    assert!(guid_readable("90CBDC39-4A3E-11D1-84F4"));
    assert!(guid_readable("XYZ-4A3E-11D1-84F4-0000F80464E3"));
}

#[test]
fn matching_counts_agree_both_ways() {
    let a = vec![event(96, 10, 1), event(97, 11, 1), event(98, 12, 2)];
    let b = vec![event(96, 10, 1), event(98, 12, 2), event(99, 13, 3), event(98, 12, 2)];
    assert_eq!(count_matched(&a, &b), 2);
    assert_eq!(count_matched(&b, &a), 2);
}

#[test]
fn guid_literal_reads_fields() {
    assert_eq!(
        guid_literal_from_str("90cbdc39-4a3e-11D1-84F4-0000f80464e3"),
        Ok((0x90cbdc39, 0x4a3e, 0x11d1, [0x84, 0xf4, 0x00, 0x00, 0xf8, 0x04, 0x64, 0xe3]))
    );
}

#[test]
fn guid_literal_errors() {
    assert_eq!(
        guid_literal_from_str("{90cbdc39-4a3e-11d1-84f4-0000f80464e3}"),
        Err("GUID string must be exactly 36 characters (format: XXXXXXXX-XXXX-XXXX-XXXX-XXXXXXXXXXXX)".to_string())
    );
    assert_eq!(
        guid_literal_from_str("90cbdc39_4a3e-11d1-84f4-0000f80464e3"),
        Err("GUID format must be XXXXXXXX-XXXX-XXXX-XXXX-XXXXXXXXXXXX".to_string())
    );
    assert_eq!(
        guid_literal_from_str("90cbdc39-4a3e-11d1-84f4-0000f8046zz3"),
        Err("invalid hex character 'z' in GUID".to_string())
    );
    assert_eq!(
        guid_literal_from_str("9xcbdc39-4a3e-11d1-84f4-0000f80464ez"),
        Err("invalid hex character 'x' in GUID".to_string())
    );
}

#[test]
fn sanitizing_twice_is_sanitizing_once() {
    for k in ["Microsoft-Windows-Kernel-File", "a b/c:d_e9", "café-1", "__x__"] {
        let once = sanitize_key(k);
        assert_eq!(sanitize_key(&once), once);
    }
}
