use fileio_etw::fabricate::{FabricatedRecord, OFFSET_DESCRIPTOR};
use fileio_etw::probe_lines::{
    detail, outcome_line, real_user_data_line, sized_label, status_cell, user_data_hex, user_data_line,
    version_line, Detail,
};
use fileio_etw::tdh_result::TdhResult;

fn success() -> TdhResult {
    TdhResult::Success {
        provider_name: String::from("FileIo"),
        task_name: String::from("FileIo"),
        opcode_name: String::from("Create"),
        decoding_source: String::from("DecodingSourceWbem"),
        property_count: 5,
    }
}

fn not_found() -> TdhResult {
    TdhResult::Error { error_code: 4317, error_name: String::from("ERROR_NOT_FOUND") }
}

#[test]
fn user_data_hex_is_lower_case_pairs() {
    assert_eq!(user_data_hex(&[0x01, 0xab, 0xff, 0x00]), "01abff00");
    assert_eq!(user_data_hex(&[]), "");
}

#[test]
fn user_data_line_short_and_cut() {
    assert_eq!(user_data_line(""), None);
    assert_eq!(user_data_line("01abff"), Some(String::from("    UserData (3 bytes): 01abff")));
    let long = "00".repeat(21);
    assert_eq!(user_data_line(&long), Some(format!("    UserData (21 bytes): {}...", "0".repeat(40))));
    let exact = "ab".repeat(20);
    assert_eq!(user_data_line(&exact), Some(format!("    UserData (20 bytes): {}", exact)));
}

#[test]
fn real_user_data_line_decodes() {
    assert_eq!(real_user_data_line(""), None);
    assert_eq!(real_user_data_line("0102"), Some(String::from("  Real UserData (2 bytes): 0102...")));
    assert_eq!(real_user_data_line("0A0b"), Some(String::from("  Real UserData (2 bytes): 0A0b...")));
    let bytes: Vec<u8> = (0u8..22).collect();
    let hex = user_data_hex(&bytes);
    assert_eq!(
        real_user_data_line(&hex),
        Some(String::from("  Real UserData (22 bytes): 000102030405060708090a0b0c0d0e0f10111213..."))
    );
}

#[test]
fn real_user_data_line_of_bad_hex() {
    assert_eq!(real_user_data_line("zz"), Some(String::from("  Real UserData (0 bytes): zz...")));
    assert_eq!(real_user_data_line("123"), Some(String::from("  Real UserData (0 bytes): 123...")));
}

#[test]
fn status_cells_are_right_aligned() {
    assert_eq!(status_cell(true, "OK"), "  OK");
    assert_eq!(status_cell(true, "OK "), " OK ");
    assert_eq!(status_cell(false, "OK"), "FAIL");
}

#[test]
fn details_by_kind() {
    assert_eq!(detail(&success(), Detail::StillWorks), "still works");
    assert_eq!(detail(&success(), Detail::OpcodeAndProps), "opcode_name=Create, props=5");
    assert_eq!(
        detail(&success(), Detail::Summary),
        "OK: provider=FileIo, opcode=Create, props=5, source=DecodingSourceWbem"
    );
    assert_eq!(detail(&not_found(), Detail::StillWorks), "ERR(4317): ERROR_NOT_FOUND");
    assert_eq!(detail(&TdhResult::ZeroBuffer, Detail::OpcodeAndProps), "ERR: zero buffer size");
}

#[test]
fn outcome_and_version_lines() {
    assert_eq!(
        outcome_line("OK ", "Zero Flags", &not_found(), Detail::StillWorks),
        "  [FAIL] Zero Flags -> ERR(4317): ERROR_NOT_FOUND"
    );
    assert_eq!(outcome_line("OK ", "Zero Flags", &success(), Detail::StillWorks), "  [ OK ] Zero Flags -> still works");
    assert_eq!(version_line(3, &success()), "    v3 -> [ OK ] opcode_name=Create, props=5");
    assert_eq!(sized_label("8 bytes zeros", 8), "8 bytes zeros (8 bytes)");
}

#[test]
fn descriptor_bytes_and_header_size() {
    let mut fab = FabricatedRecord::new();
    fab.set_descriptor(64, 2, 0, 0xFF, 0, 0, 0);
    fab.set_descriptor_byte(0, 65);
    fab.set_descriptor_byte(2, 99);
    fab.set_header_size(0);
    let b = fab.record_bytes();
    assert_eq!(b[OFFSET_DESCRIPTOR], 65);
    assert_eq!(b[OFFSET_DESCRIPTOR + 1], 0);
    assert_eq!(b[OFFSET_DESCRIPTOR + 2], 99);
    assert_eq!(b[OFFSET_DESCRIPTOR + 4], 0xFF);
    assert_eq!(&b[0..2], &[0, 0]);
}
