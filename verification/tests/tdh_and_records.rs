use fileio_etw::fabricate::{
    fileio_provider_guid, make_descriptor, system_trace_provider_guid, FabricatedRecord, EVENT_RECORD_SIZE,
};
use fileio_etw::fileio_registry::{event_registry, log_event, lookup_event, UnknownEventTracker};
use fileio_etw::guid::Guid;
use fileio_etw::log_format::LogLevel;
use fileio_etw::tdh_result::{allocation_failed, fetch_outcome, size_query_outcome, tdh_error_name, TdhResult};
use fileio_etw::tdh_types::{
    build_observation, build_type_id, decode_property, decoding_source_name, error_code_name, hex_of_bytes,
    in_type_label, in_type_name, out_type_label, out_type_name, EventTypeInfo, PropertyCountInfo,
    PropertyLengthInfo, SerializedObservation,
};

fn fileio_guid() -> Guid {
    Guid { data1: 0x90cbdc39, data2: 0x4a3e, data3: 0x11d1, data4: [0x84, 0xf4, 0, 0, 0xf8, 0x04, 0x64, 0xe3] }
}

#[test]
fn tdh_error_names() {
    assert_eq!(tdh_error_name(0), "ERROR_SUCCESS");
    assert_eq!(tdh_error_name(1168), "UNKNOWN(1168)");
    assert_eq!(tdh_error_name(4317), "ERROR_NOT_FOUND");
    assert_eq!(error_code_name(1168), "ERROR_NOT_FOUND");
    assert_eq!(error_code_name(5), "UNKNOWN");
}

#[test]
fn tdh_outcomes() {
    match size_query_outcome(1168, 0) {
        Some(TdhResult::Error { error_code, error_name }) => {
            assert_eq!(error_code, 1168);
            assert_eq!(error_name, "UNKNOWN(1168)");
        }
        other => panic!("unexpected {:?}", other),
    }
    assert!(matches!(size_query_outcome(122, 0), Some(TdhResult::ZeroBuffer)));
    assert!(size_query_outcome(122, 64).is_none());
    assert!(fetch_outcome(0).is_none());
    assert!(matches!(fetch_outcome(87), Some(TdhResult::Error { error_code: 87, .. })));
    match allocation_failed() {
        TdhResult::Error { error_code, error_name } => {
            assert_eq!(error_code, 8);
            assert_eq!(error_name, "Allocation failed");
        }
        other => panic!("unexpected {:?}", other),
    }
}

#[test]
fn tdh_summaries() {
    let ok = TdhResult::Success {
        provider_name: "MSNT_SystemTrace".to_string(),
        task_name: "FileIo".to_string(),
        opcode_name: "Create".to_string(),
        decoding_source: "WMI MOF".to_string(),
        property_count: 9,
    };
    assert!(ok.is_success());
    assert_eq!(ok.summary(), "OK: provider=MSNT_SystemTrace, opcode=Create, props=9, source=WMI MOF");
    let err = TdhResult::Error { error_code: 1168, error_name: "ERROR_NOT_FOUND".to_string() };
    assert!(!err.is_success());
    assert_eq!(err.summary(), "ERR(1168): ERROR_NOT_FOUND");
    assert_eq!(TdhResult::ZeroBuffer.summary(), "ERR: zero buffer size");
}

#[test]
fn type_names_and_labels() {
    assert_eq!(in_type_name(1), "InTypeUnicodeString");
    assert_eq!(in_type_name(301), "InTypeCountedAnsiString");
    assert_eq!(in_type_name(22), "Unknown");
    assert_eq!(in_type_label(22), "Unknown(22)");
    assert_eq!(in_type_label(8), "InTypeUInt32");
    assert_eq!(out_type_name(1), out_type_label(1).as_str());
    assert_eq!(out_type_label(33), "Unknown(33)");
    assert_eq!(decoding_source_name(1), "WMI MOF");
    assert_eq!(decoding_source_name(3), "TraceLogging");
    assert_eq!(decoding_source_name(-5), "Unknown(-5)");
    assert_eq!(decoding_source_name(7), "Unknown(7)");
}

#[test]
fn event_type_keys() {
    let t = build_type_id(fileio_guid(), 64, 3, 64);
    assert_eq!(t.format_key(), "90cbdc39-4a3e-11d1_64_v3_op64");
    assert_eq!(t.observation_key(), "90cbdc39_4a3e_11d1_84f40000f80464e3_64_v3_op64");
}

#[test]
fn decode_and_describe_properties() {
    let p = decode_property("FileName".to_string(), 0, 1, 1, 0, 1);
    assert_eq!(p.length, PropertyLengthInfo::Fixed(0));
    assert_eq!(p.count, None);
    assert_eq!(p.describe(), format!("FileName: InType=InTypeUnicodeString OutType={} Len=0", out_type_name(1)));
    let q = decode_property("Data".to_string(), 6, 14, 0, 2, 3);
    assert_eq!(q.length, PropertyLengthInfo::Index(2));
    assert_eq!(q.count, Some(PropertyCountInfo::Index(3)));
    assert_eq!(q.describe(), format!("Data: InType=InTypeBinary OutType={} LenIdx=2 CountIdx=3 Flags=0x00000006", out_type_name(0)));
    let s = decode_property("Sub".to_string(), 1, 8, 8, 4, 2);
    assert_eq!((s.in_type, s.out_type), (0, 0));
    assert_eq!(s.count, Some(PropertyCountInfo::Fixed(2)));
    let info = EventTypeInfo {
        provider_guid: "{90CBDC39-4A3E-11D1-84F4-0000F80464E3}".to_string(),
        event_id: 64,
        opcode: 64,
        version: 3,
        provider_name: "MSNT_SystemTrace".to_string(),
        opcode_name: "Create".to_string(),
        properties: vec![p, q],
    };
    assert_eq!(info.describe(), "MSNT_SystemTrace Create (opcode=64, v3, id=64) - 2 properties");
}

#[test]
fn observations_serialize_user_data_as_hex() {
    let o = build_observation("k", 4, 8, -1, &[0x00, 0xab, 0x10]);
    assert_eq!(o.user_data_bytes, vec![0x00, 0xab, 0x10]);
    let s = SerializedObservation::from_observation(&o);
    assert_eq!(s.user_data_hex, "00ab10");
    assert_eq!(s.type_key, "k");
    assert_eq!(s.timestamp, -1);
    assert_eq!(hex_of_bytes(&vec![]), "");
}

#[test]
fn fabricated_record_layout() {
    let mut r = FabricatedRecord::new();
    let b = r.record_bytes();
    assert_eq!(b.len(), EVENT_RECORD_SIZE);
    assert_eq!(&b[0..2], &[80, 0]);
    assert!(b[2..].iter().all(|x| *x == 0));
    r.set_provider_id(fileio_guid());
    r.set_descriptor(64, 3, 0, 4, 64, 0, 0x10);
    r.set_process_thread(0x1234, 0x5678);
    r.set_timestamp(-2);
    r.set_flags(0x0240);
    r.set_event_property(1);
    r.set_buffer_context(7, 3);
    r.set_user_data(&[1, 2, 3]);
    let b = r.record_bytes();
    assert_eq!(&b[24..40], &[0x39, 0xdc, 0xcb, 0x90, 0x3e, 0x4a, 0xd1, 0x11, 0x84, 0xf4, 0, 0, 0xf8, 0x04, 0x64, 0xe3]);
    assert_eq!(&b[40..56], &[64, 0, 3, 0, 4, 64, 0, 0, 0x10, 0, 0, 0, 0, 0, 0, 0]);
    assert_eq!(&b[12..16], &[0x34, 0x12, 0, 0]);
    assert_eq!(&b[8..12], &[0x78, 0x56, 0, 0]);
    assert_eq!(&b[16..24], &[0xfe, 0xff, 0xff, 0xff, 0xff, 0xff, 0xff, 0xff]);
    assert_eq!(&b[4..6], &[0x40, 0x02]);
    assert_eq!(&b[6..8], &[1, 0]);
    assert_eq!(&b[82..84], &[7, 0]);
    assert_eq!(b[80], 3);
    assert_eq!(&b[86..88], &[3, 0]);
    assert_eq!(r.user_data_bytes(), vec![1, 2, 3]);
}

#[test]
fn fabricated_record_from_bytes_pads_or_cuts() {
    let r = FabricatedRecord::from_bytes(&[9, 8, 7]);
    let b = r.record_bytes();
    assert_eq!(b.len(), 112);
    assert_eq!(&b[0..4], &[9, 8, 7, 0]);
    let long: Vec<u8> = (0..200u32).map(|x| x as u8).collect();
    let r = FabricatedRecord::from_bytes(&long);
    assert_eq!(r.record_bytes(), long[0..112].to_vec());
    let mut r = FabricatedRecord::new();
    r.set_event_descriptor(make_descriptor(1, 2, 3, 4, 5, 6, 7));
    assert_eq!(&r.record_bytes()[40..48], &[1, 0, 2, 3, 4, 5, 6, 0]);
    r.set_activity_id(system_trace_provider_guid());
    assert_eq!(&r.record_bytes()[64..68], &[0x3c, 0xba, 0x9b, 0x9e]);
    assert_eq!(fileio_provider_guid(), fileio_guid());
}

#[test]
fn registry_lookup() {
    let defs = event_registry();
    assert!(defs.len() > 40);
    let e = lookup_event(67, 3).unwrap();
    assert_eq!(e.event_name, "Read");
    assert_eq!(e.class_name, "FileIo_ReadWrite");
    assert!(lookup_event(67, 9).is_none());
    // keys are unique
    for (i, a) in defs.iter().enumerate() {
        for b in &defs[i + 1..] {
            assert!((a.event_id, a.version) < (b.event_id, b.version));
        }
    }
}

#[test]
fn unknown_events_are_warned_once() {
    let mut t = UnknownEventTracker::new();
    let first = log_event(&mut t, 500, 1, 0, 10, 20);
    assert_eq!(first.level, LogLevel::Warn);
    assert_eq!(first.message, "Unknown FileIo event: ID=500, Version=1 (first occurrence, PID=10, TID=20)");
    let again = log_event(&mut t, 500, 1, 0, 11, 21);
    assert_eq!(again.level, LogLevel::Debug);
    assert_eq!(again.message, "Unknown FileIo event: ID=500, Version=1 (PID=11, TID=21)");
    let known = log_event(&mut t, 67, 3, 0, 1, 2);
    assert_eq!(known.level, LogLevel::Trace);
    assert_eq!(known.message, "FileIo Event: Read (ID=67, Version=3, Class=FileIo_ReadWrite) PID=1 TID=2");
    let other = log_event(&mut t, 501, 1, 0, 1, 2);
    assert_eq!(other.level, LogLevel::Warn);
}
