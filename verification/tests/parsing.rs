use fileio_etw::guid::{format_guid, parse_guid, sanitize_key_static, Guid};
use fileio_etw::scan::{parse_hex, parse_radix, split, trim, IntErrorKind};
use fileio_etw::tdh_config::{merged_group_mask, run_session, AppConfig, SessionPlan, TraceMode};

fn chars(s: &str) -> Vec<char> {
    s.chars().collect()
}

fn config(mode: TraceMode) -> AppConfig {
    AppConfig {
        mode,
        guid: "90cbdc39-4a3e-11d1-84f4-0000f80464e3".to_string(),
        duration: 5,
        enable_flags: None,
        group_mask: None,
        keyword: None,
        level: 255,
        output: "output".to_string(),
        output_prefix: "tdh_output".to_string(),
        verbose: false,
        no_trigger: false,
    }
}

#[test]
fn parse_hex_like_from_str_radix() {
    assert_eq!(parse_hex(&chars("ff"), 0xff), Ok(255));
    assert_eq!(parse_hex(&chars("+1A"), 0xffff), Ok(26));
    assert_eq!(parse_hex(&chars(""), 0xff), Err(IntErrorKind::Empty));
    assert_eq!(parse_hex(&chars("+"), 0xff), Err(IntErrorKind::InvalidDigit));
    assert_eq!(parse_hex(&chars("-1"), 0xff), Err(IntErrorKind::InvalidDigit));
    assert_eq!(parse_hex(&chars("100"), 0xff), Err(IntErrorKind::PosOverflow));
    assert_eq!(parse_hex(&chars("fffffffffz"), 0xffff_ffff), Err(IntErrorKind::PosOverflow));
    assert_eq!(parse_hex(&chars("zfff"), 0xffff_ffff), Err(IntErrorKind::InvalidDigit));
    assert_eq!(parse_radix(&chars("255"), 10, 255), Ok(255));
    assert_eq!(parse_radix(&chars("256"), 10, 255), Err(IntErrorKind::PosOverflow));
}

#[test]
fn int_error_messages_match_std() {
    for (text, kind) in [("", IntErrorKind::Empty), ("x", IntErrorKind::InvalidDigit), ("1ff", IntErrorKind::PosOverflow)] {
        let std_err = u8::from_str_radix(text, 16).unwrap_err();
        assert_eq!(kind.message(), std_err.to_string());
    }
}

#[test]
fn trim_and_split() {
    assert_eq!(trim(&chars(" \t a b \n")), chars("a b"));
    assert_eq!(trim(&chars("\u{3000}x\u{a0}")), chars("x"));
    let parts = split(&chars("a,,b,"), ',');
    assert_eq!(parts, vec![chars("a"), chars(""), chars("b"), chars("")]);
    assert_eq!(split(&chars(""), ','), vec![chars("")]);
}

#[test]
fn parse_guid_reads_the_fileio_provider() {
    let g = parse_guid(" {90cbdc39-4a3e-11d1-84f4-0000f80464e3} ").unwrap();
    assert_eq!(g.data1, 0x90cbdc39);
    assert_eq!(g.data2, 0x4a3e);
    assert_eq!(g.data3, 0x11d1);
    assert_eq!(g.data4, [0x84, 0xf4, 0x00, 0x00, 0xf8, 0x04, 0x64, 0xe3]);
}

#[test]
fn parse_guid_errors_name_the_field() {
    assert_eq!(parse_guid("abc").unwrap_err(), "Invalid GUID format: abc");
    assert_eq!(
        parse_guid("zz-4a3e-11d1-84f4-0000f80464e3").unwrap_err(),
        "Invalid data1: invalid digit found in string"
    );
    assert_eq!(
        parse_guid("1-4a3e1-11d1-84f4-0000f80464e3").unwrap_err(),
        "Invalid data2: number too large to fit in target type"
    );
    assert_eq!(
        parse_guid("1-2--84f4-0000f80464e3").unwrap_err(),
        "Invalid data3: cannot parse integer from empty string"
    );
    assert_eq!(
        parse_guid("1-2-3-84f4-0000f80464zz").unwrap_err(),
        "Invalid data4[7]: invalid digit found in string"
    );
}

#[test]
fn guid_printing() {
    let g = Guid { data1: 0x90cbdc39, data2: 0x4a3e, data3: 0x11d1, data4: [0x84, 0xf4, 0, 0, 0xf8, 0x04, 0x64, 0xe3] };
    assert_eq!(format_guid(g.data1, g.data2, g.data3, &g.data4), "{90CBDC39-4A3E-11D1-84F4-0000F80464E3}");
    assert_eq!(sanitize_key_static(&g), "90cbdc39_4a3e_11d1_84f40000f80464e3");
}

#[test]
fn app_config_parsers() {
    let mut c = config(TraceMode::Kernel);
    assert_eq!(c.parse_enable_flags(), None);
    c.enable_flags = Some("0x02000000".to_string());
    assert_eq!(c.parse_enable_flags(), Some(0x0200_0000));
    c.enable_flags = Some("0X0x10".to_string());
    assert_eq!(c.parse_enable_flags(), None);
    c.enable_flags = Some("0x0x10".to_string());
    assert_eq!(c.parse_enable_flags(), Some(0x10));
    assert_eq!(c.parse_keyword(), 0);
    c.keyword = Some("0xffffffffffffffff".to_string());
    assert_eq!(c.parse_keyword(), u64::MAX);
    c.keyword = Some("nothex".to_string());
    assert_eq!(c.parse_keyword(), 0);
    c.group_mask = Some(" 0x1, 2 ,0X3,4,5,6,7,0x80000000".to_string());
    assert_eq!(c.parse_group_mask(), Some([1, 2, 3, 4, 5, 6, 7, 0x8000_0000]));
    c.group_mask = Some("1,2,3".to_string());
    assert_eq!(c.parse_group_mask(), None);
    c.group_mask = Some("1,2,3,4,5,6,7,x".to_string());
    assert_eq!(c.parse_group_mask(), None);
}

#[test]
fn session_plans() {
    let mut c = config(TraceMode::Kernel);
    c.enable_flags = Some("0x200".to_string());
    c.group_mask = Some("1,0,0,0,0,0,0,0".to_string());
    match run_session(&c).unwrap() {
        SessionPlan::Kernel { session_name, enable_flags, group_mask, provider } => {
            assert_eq!(session_name, "TdhEnumeratorKernel");
            assert_eq!(enable_flags, 0x200);
            assert_eq!(group_mask, Some([0x201, 0, 0, 0, 0, 0, 0, 0]));
            assert_eq!(provider.data1, 0x90cbdc39);
        }
        _ => panic!("expected a kernel plan"),
    }
    let mut u = config(TraceMode::User);
    u.keyword = Some("0x10".to_string());
    match run_session(&u).unwrap() {
        SessionPlan::User { session_name, keyword, .. } => {
            assert_eq!(session_name, "TdhEnumeratorUser");
            assert_eq!(keyword, 0x10);
        }
        _ => panic!("expected a user plan"),
    }
    let mut bad = config(TraceMode::User);
    bad.guid = "nope".to_string();
    assert_eq!(run_session(&bad).unwrap_err(), "Invalid GUID format: nope");
    assert_eq!(merged_group_mask([1, 2, 0, 0, 0, 0, 0, 0], 4), [5, 2, 0, 0, 0, 0, 0, 0]);
}

#[test]
fn printed_guid_reads_back() {
    let cases = [
        Guid { data1: 0x90cbdc39, data2: 0x4a3e, data3: 0x11d1, data4: [0x84, 0xf4, 0, 0, 0xf8, 0x04, 0x64, 0xe3] },
        Guid { data1: 0, data2: 0, data3: 0, data4: [0; 8] },
        Guid { data1: 0xffff_ffff, data2: 0xffff, data3: 0x1, data4: [0xff, 0x10, 0x01, 0xab, 0, 0x7f, 0x80, 0x0f] },
    ];
    for g in cases {
        let text = format_guid(g.data1, g.data2, g.data3, &g.data4);
        assert_eq!(parse_guid(&text), Ok(g));
    }
}
