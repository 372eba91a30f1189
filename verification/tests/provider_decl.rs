use fileio_etw::provider_decl::{
    check_declarations, check_event_attr, check_provider, check_provider_attr, field_type, filter_event_ids, fileio_variant,
    field_read, kernel_enable_flags, parsed_variant, read_attributes, user_keyword_mask, EventDecl, FieldRead, OuterAttr, ProviderAttr,
    ProviderKind,
};

fn ev(id: u16, version: Option<u8>, template: &str) -> EventDecl {
    EventDecl {
        id,
        version,
        name: format!("E{}", id),
        template: template.to_string(),
        keyword_mask: None,
        enable_flag: None,
        skip: false,
    }
}

fn names(v: &[&str]) -> Vec<String> {
    v.iter().map(|s| s.to_string()).collect()
}

#[test]
fn provider_attribute_fits_kind() {
    let user = ProviderAttr { kind: ProviderKind::User, keyword_mask: Some(0x10), enable_flag: None };
    assert_eq!(check_provider_attr(&user), Ok(()));
    let bad_user = ProviderAttr { kind: ProviderKind::User, keyword_mask: None, enable_flag: Some(1) };
    assert_eq!(
        check_provider_attr(&bad_user),
        Err("`enable_flag` on `#[etw_provider(...)]` is only valid for kernel providers (use `keyword_mask` for user providers)".to_string())
    );
    let bad_kernel = ProviderAttr { kind: ProviderKind::Kernel, keyword_mask: Some(1), enable_flag: None };
    assert_eq!(
        check_provider_attr(&bad_kernel),
        Err("`keyword_mask` on `#[etw_provider(...)]` is only valid for user providers (use `enable_flag` for kernel providers)".to_string())
    );
}

#[test]
fn event_attributes_fit_kind() {
    let mut e = ev(64, Some(3), "Create");
    assert_eq!(
        check_event_attr(ProviderKind::Kernel, false, &e),
        Err("`enable_flag` is required on each event when no provider-wide `enable_flag` is set on `#[etw_provider(...)]`".to_string())
    );
    assert_eq!(check_event_attr(ProviderKind::Kernel, true, &e), Ok(()));
    e.enable_flag = Some(0x200);
    assert_eq!(check_event_attr(ProviderKind::Kernel, false, &e), Ok(()));
    assert_eq!(
        check_event_attr(ProviderKind::User, false, &e),
        Err("`enable_flag` is only valid on events in kernel `etw_provider!` blocks (use `keyword_mask` for user providers)".to_string())
    );
    e.enable_flag = None;
    e.keyword_mask = Some(1);
    assert_eq!(
        check_event_attr(ProviderKind::Kernel, true, &e),
        Err("`keyword_mask` is only valid on events in user `etw_provider!` blocks (use `enable_flag` for kernel providers)".to_string())
    );
}

#[test]
fn declarations_refused() {
    let ts = names(&["Create", "Rw", "Create"]);
    assert_eq!(check_declarations(&ts, &vec![]), Err("duplicate template name `Create`".to_string()));
    let ts = names(&["Create", "Rw"]);
    assert_eq!(check_declarations(&ts, &vec![ev(64, Some(3), "Create"), ev(67, None, "Rw")]), Ok(()));
    assert_eq!(
        check_declarations(&ts, &vec![ev(64, Some(3), "Create"), ev(64, Some(3), "Rw")]),
        Err("duplicate (id, version) pair (64, 3) in etw_provider! block".to_string())
    );
    assert_eq!(
        check_declarations(&ts, &vec![ev(67, None, "Rw"), ev(67, None, "Rw")]),
        Err("duplicate (id, version) pair (67, any (no version)) in etw_provider! block".to_string())
    );
    assert_eq!(
        check_declarations(&ts, &vec![ev(64, Some(2), "Gone"), ev(64, Some(2), "Create")]),
        Err("template `Gone` not found".to_string())
    );
}

fn provider(kind: ProviderKind, keyword_mask: Option<u64>, enable_flag: Option<u32>) -> OuterAttr {
    OuterAttr { path: "etw_provider".to_string(), args: ProviderAttr { kind, keyword_mask, enable_flag } }
}

fn other(path: &str) -> OuterAttr {
    OuterAttr {
        path: path.to_string(),
        args: ProviderAttr { kind: ProviderKind::User, keyword_mask: None, enable_flag: None },
    }
}

fn one_event_attr(n: usize) -> Vec<Vec<String>> {
    vec![names(&["etw_event"]); n]
}

#[test]
fn whole_provider_checked_in_order() {
    let attrs = vec![provider(ProviderKind::Kernel, None, None)];
    let ts = names(&["Create", "Create"]);
    let es = vec![ev(64, Some(3), "Create")];
    assert_eq!(
        check_provider(&attrs, &ts, &one_event_attr(1), &es),
        Err("`enable_flag` is required on each event when no provider-wide `enable_flag` is set on `#[etw_provider(...)]`".to_string())
    );
    let attrs = vec![provider(ProviderKind::Kernel, None, Some(0x200))];
    assert_eq!(
        check_provider(&attrs, &ts, &one_event_attr(1), &es),
        Err("duplicate template name `Create`".to_string())
    );
    let ts = names(&["Create"]);
    let kernel = ProviderAttr { kind: ProviderKind::Kernel, keyword_mask: None, enable_flag: Some(0x200) };
    assert_eq!(check_provider(&attrs, &ts, &one_event_attr(1), &es), Ok(kernel));
}

#[test]
fn outer_attributes_must_be_etw_provider() {
    let es = vec![ev(64, Some(3), "Create")];
    assert_eq!(
        read_attributes(&vec![other("doc"), provider(ProviderKind::User, None, None)], &one_event_attr(1), &es),
        Err("unsupported attribute; expected `#[etw_provider(...)]`".to_string())
    );
    // an attribute is checked with its own arguments before the next is looked at
    assert_eq!(
        read_attributes(&vec![provider(ProviderKind::User, None, Some(1)), other("doc")], &one_event_attr(1), &es),
        Err("`enable_flag` on `#[etw_provider(...)]` is only valid for kernel providers (use `keyword_mask` for user providers)".to_string())
    );
    // without any, the provider is a user provider with no mask or flag
    assert_eq!(
        read_attributes(&vec![], &one_event_attr(1), &es),
        Ok(ProviderAttr { kind: ProviderKind::User, keyword_mask: None, enable_flag: None })
    );
}

#[test]
fn last_etw_provider_attribute_wins() {
    let attrs = vec![provider(ProviderKind::User, Some(0x10), None), provider(ProviderKind::Kernel, None, Some(0x200))];
    let es = vec![ev(64, Some(3), "Create")];
    assert_eq!(
        read_attributes(&attrs, &one_event_attr(1), &es),
        Ok(ProviderAttr { kind: ProviderKind::Kernel, keyword_mask: None, enable_flag: Some(0x200) })
    );
    let mut user_event = ev(64, Some(3), "Create");
    user_event.keyword_mask = Some(1);
    assert_eq!(
        read_attributes(&attrs, &one_event_attr(1), &vec![user_event]),
        Err("`keyword_mask` is only valid on events in user `etw_provider!` blocks (use `enable_flag` for kernel providers)".to_string())
    );
}

#[test]
fn each_event_needs_exactly_one_etw_event() {
    let attrs = vec![provider(ProviderKind::User, None, None)];
    let es = vec![ev(64, Some(3), "Create"), ev(67, Some(3), "Rw")];
    assert_eq!(
        read_attributes(&attrs, &vec![names(&["etw_event"]), names(&["doc"])], &es),
        Err("event referencing template `Rw` is missing required #[etw_event(...)] attribute".to_string())
    );
    assert_eq!(
        read_attributes(&attrs, &vec![names(&["etw_event", "doc", "etw_event"]), names(&[])], &es),
        Err("event referencing template `Create` has multiple #[etw_event(...)] attributes; expected exactly one".to_string())
    );
    // events are checked one after the other: the first event's kind error
    // comes before the second event's missing attribute
    let mut bad = ev(64, Some(3), "Create");
    bad.enable_flag = Some(1);
    assert_eq!(
        read_attributes(&attrs, &vec![names(&["doc", "etw_event"]), names(&[])], &vec![bad, ev(67, Some(3), "Rw")]),
        Err("`enable_flag` is only valid on events in kernel `etw_provider!` blocks (use `keyword_mask` for user providers)".to_string())
    );
    assert_eq!(
        read_attributes(&attrs, &vec![names(&["doc", "etw_event"]), names(&["etw_event"])], &es),
        Ok(ProviderAttr { kind: ProviderKind::User, keyword_mask: None, enable_flag: None })
    );
}

#[test]
fn received_events_read_by_exact_then_any_version() {
    let mut skipped = ev(67, Some(2), "Rw");
    skipped.skip = true;
    let es = vec![ev(67, None, "Rw"), skipped, ev(67, Some(3), "Rw"), ev(64, Some(3), "Create")];
    assert_eq!(parsed_variant(&es, 67, 3), Some(2));
    assert_eq!(parsed_variant(&es, 67, 2), Some(0));
    assert_eq!(parsed_variant(&es, 64, 3), Some(3));
    assert_eq!(parsed_variant(&es, 64, 2), None);
}

#[test]
fn provider_filters_and_flags() {
    let mut a = ev(68, Some(3), "Rw");
    a.enable_flag = Some(0x0200_0000);
    a.keyword_mask = Some(0x20);
    let mut b = ev(64, Some(3), "Create");
    b.enable_flag = Some(0x0400_0000);
    let mut c = ev(70, Some(3), "Create");
    c.enable_flag = Some(0x1);
    c.keyword_mask = Some(0x4);
    c.skip = true;
    let es = vec![a, b, c, ev(64, Some(2), "Create")];
    assert_eq!(filter_event_ids(&es), vec![64, 68]);
    assert_eq!(kernel_enable_flags(Some(0x200), &es), 0x0600_0200);
    assert_eq!(kernel_enable_flags(None, &vec![]), 0);
    assert_eq!(user_keyword_mask(None, &es), Some(0x20));
    assert_eq!(user_keyword_mask(Some(0x100), &es), Some(0x120));
    assert_eq!(user_keyword_mask(None, &vec![ev(1, None, "T")]), None);
}

#[test]
fn field_keywords() {
    assert_eq!(field_type("pointer"), Ok(("usize".to_string(), true)));
    assert_eq!(field_type("filetime"), Ok(("u64".to_string(), false)));
    assert_eq!(field_type("string"), Ok(("String".to_string(), false)));
    assert_eq!(
        field_type("u16"),
        Err("unknown field type `u16`; expected one of: pointer, string, u32, u64, i32, i64, filetime".to_string())
    );
}

#[test]
fn fileio_events_read_by_opcode_and_version() {
    let es = vec![(64u8, 2u8), (64, 3), (67, 3), (64, 3)];
    assert_eq!(fileio_variant(&es, 64, 3), Some(1));
    assert_eq!(fileio_variant(&es, 67, 3), Some(2));
    assert_eq!(fileio_variant(&es, 67, 2), None);
    assert_eq!(fileio_variant(&es, 65, 3), None);
}

#[test]
fn derive_field_readings() {
    assert_eq!(
        field_read(false, "", false, false, false),
        Err("missing #[etw_prop(name = \"...\")] attribute on field".to_string())
    );
    assert_eq!(
        field_read(true, "FileName", false, true, true),
        Err("`convert_with` requires `parse_as` to also be specified".to_string())
    );
    assert_eq!(field_read(true, "FileName", false, false, true), Ok(FieldRead::Default));
    assert_eq!(field_read(true, "FileName", false, false, false), Ok(FieldRead::Direct { prop: "FileName".to_string() }));
    assert_eq!(
        field_read(true, "FileObject", true, true, false),
        Ok(FieldRead::Converted { prop: "FileObject".to_string(), custom: true })
    );
}
