use fileio_etw::aggregate::{aggregate_counts, majority_opcodes};
use fileio_etw::compare::{
    capture_event, compare_counts, count_matched, counts_from_keys, format_oc, opcode_counts, opcode_lines, trim_window, CapturedEvent,
    MatchCounts, OpcodeCount,
};
use fileio_etw::flt_events::{major_function, payload_sig, FltEvent, FltIoCompletion, FltIoFailure, FltIoInit, Fnv64};

fn ev(opcode: u8, version: u8, timestamp: u64, sig: u64) -> CapturedEvent {
    CapturedEvent { opcode, version, timestamp, pid: 4, tid: 8, sig, major: 0, parse_ok: false }
}

fn oc(opcode: u8, version: u8, count: usize) -> OpcodeCount {
    OpcodeCount { opcode, version, count }
}

fn fnv(bytes: &[u8]) -> u64 {
    let mut h: u64 = 0xcbf29ce484222325;
    for b in bytes {
        h ^= *b as u64;
        h = h.wrapping_mul(0x100000001b3);
    }
    h
}

fn completion() -> FltIoCompletion {
    FltIoCompletion {
        initial_time: 0x0102030405060708,
        routine_addr: 0x1000,
        file_object: 0x2000,
        file_context: 0x3000,
        irp_ptr: 0x4000,
        callback_data_ptr: 0x5000,
        major_function: 3,
    }
}

#[test]
fn fnv_hasher_steps() {
    let mut h = Fnv64::default();
    assert_eq!(h.finish(), 0xcbf29ce484222325);
    h.byte(0x61);
    assert_eq!(h.finish(), 0xaf63dc4c8601ec8c);
    assert_eq!(h.finish(), fnv(&[0x61]));
    h.u32(0x04030201);
    assert_eq!(h.finish(), fnv(&[0x61, 1, 2, 3, 4]));
    h.bytes(&[9, 9]);
    assert_eq!(h.finish(), fnv(&[0x61, 1, 2, 3, 4, 9, 9]));
}

#[test]
fn payload_signature_hashes_fields_in_order() {
    let c = completion();
    let mut fields: Vec<u8> = Vec::new();
    fields.extend_from_slice(&c.initial_time.to_le_bytes());
    for p in [c.routine_addr, c.file_object, c.file_context, c.irp_ptr, c.callback_data_ptr] {
        fields.extend_from_slice(&(p as u64).to_le_bytes());
    }
    fields.extend_from_slice(&c.major_function.to_le_bytes());
    let mut pre = vec![98u8];
    pre.extend_from_slice(&fields);
    let mut post = vec![99u8];
    post.extend_from_slice(&fields);
    assert_eq!(payload_sig(&FltEvent::PreOpCompletionV3(c)), fnv(&pre));
    assert_eq!(payload_sig(&FltEvent::PostOpCompletionV3(c)), fnv(&post));
    assert_ne!(payload_sig(&FltEvent::PreOpCompletionV3(c)), payload_sig(&FltEvent::PostOpCompletionV3(c)));
    assert_ne!(payload_sig(&FltEvent::PreOpCompletionV3(c)), 0);
    assert_eq!(major_function(&FltEvent::PreOpCompletionV3(c)), 3);
    let f = FltIoFailure {
        routine_addr: 1,
        file_object: 2,
        file_context: 3,
        irp_ptr: 4,
        callback_data_ptr: 5,
        major_function: 6,
        status: 0xC000_0001,
    };
    assert_eq!(major_function(&FltEvent::PostOpFailureV3(f)), 6);
}

#[test]
fn payload_signature_of_zero_fields_tells_opcodes_apart() {
    let z = FltIoInit { routine_addr: 0, file_object: 0, file_context: 0, irp_ptr: 0, callback_data_ptr: 0, major_function: 0 };
    let pre = payload_sig(&FltEvent::PreOpInitV3(z));
    let post = payload_sig(&FltEvent::PostOpInitV3(z));
    let mut input = vec![96u8];
    input.extend_from_slice(&[0u8; 44]);
    assert_eq!(pre, fnv(&input));
    assert_ne!(pre, 0);
    assert_ne!(post, 0);
    assert_ne!(pre, post);
}

#[test]
fn capture_event_parses_only_flt_opcodes() {
    let c = completion();
    let e = capture_event(98, 3, 77, 1, 2, Some(FltEvent::PreOpCompletionV3(c)));
    assert!(e.parse_ok);
    assert!(e.is_flt());
    assert_eq!(e.major, 3);
    assert_eq!(e.sig, payload_sig(&FltEvent::PreOpCompletionV3(c)));
    let other = capture_event(64, 3, 77, 1, 2, Some(FltEvent::PreOpCompletionV3(c)));
    assert!(!other.parse_ok);
    assert!(!other.is_flt());
    assert_eq!((other.sig, other.major), (0, 0));
    let unparsed = capture_event(99, 3, 77, 1, 2, None);
    assert!(!unparsed.parse_ok);
    assert_eq!(unparsed.sig, 0);
}

#[test]
fn trim_window_keeps_common_time_range() {
    let fast = vec![ev(98, 3, 10, 0), ev(98, 3, 20, 0), ev(98, 3, 30, 0)];
    let io = vec![ev(98, 3, 15, 0), ev(98, 3, 25, 0), ev(98, 3, 40, 0)];
    let (f, i) = trim_window(&fast, &io);
    assert_eq!(f, vec![ev(98, 3, 20, 0), ev(98, 3, 30, 0)]);
    assert_eq!(i, vec![ev(98, 3, 15, 0), ev(98, 3, 25, 0)]);
    let (f, i) = trim_window(&fast, &vec![]);
    assert!(f.is_empty() && i.is_empty());
}

#[test]
fn count_matched_is_multiset_intersection() {
    let fast = vec![ev(98, 3, 10, 1), ev(98, 3, 10, 1), ev(99, 3, 11, 2)];
    let io = vec![ev(98, 3, 10, 1), ev(99, 3, 11, 2), ev(99, 3, 11, 3)];
    assert_eq!(count_matched(&fast, &io), 2);
    assert_eq!(count_matched(&fast, &vec![]), 0);
}

#[test]
fn opcode_counts_by_opcode_then_version() {
    let evs = vec![ev(99, 3, 1, 0), ev(98, 3, 2, 0), ev(99, 3, 3, 0), ev(98, 2, 4, 0)];
    assert_eq!(opcode_counts(&evs), vec![oc(98, 2, 1), oc(98, 3, 1), oc(99, 3, 2)]);
    assert_eq!(counts_from_keys(&vec![98 * 256 + 3, 98 * 256 + 3]), vec![oc(98, 3, 2)]);
}

#[test]
fn compare_counts_subset_case() {
    // FAST is a subset of IO within the common window
    let fast = vec![ev(98, 3, 10, 1), ev(99, 3, 20, 2)];
    let io = vec![ev(98, 3, 10, 1), ev(98, 3, 15, 5), ev(99, 3, 20, 2)];
    let r = compare_counts(&fast, &io);
    assert_eq!((r.fast_total, r.io_total, r.matched, r.fast_only, r.io_only), (2, 3, 2, 0, 1));
    assert_eq!(r.fast_opcodes, vec![oc(98, 3, 1), oc(99, 3, 1)]);
    assert_eq!(r.io_opcodes, vec![oc(98, 3, 2), oc(99, 3, 1)]);
    assert!(r.opcodes_identical);
}

#[test]
fn compare_counts_swapped_sessions_swap_sides() {
    let fast = vec![ev(98, 3, 10, 1), ev(99, 3, 20, 2), ev(96, 3, 30, 7)];
    let io = vec![ev(98, 3, 10, 1), ev(98, 3, 15, 5), ev(99, 3, 20, 2), ev(99, 3, 40, 9)];
    let r = compare_counts(&fast, &io);
    let s = compare_counts(&io, &fast);
    assert_eq!((r.fast_total, r.io_total), (s.io_total, s.fast_total));
    assert_eq!((r.fast_only, r.io_only), (s.io_only, s.fast_only));
    assert_eq!(r.matched, s.matched);
    assert_eq!(r.matched, 2);
    assert_eq!(r.fast_opcodes, s.io_opcodes);
    assert_eq!(r.io_opcodes, s.fast_opcodes);
    assert_eq!(r.opcodes_identical, s.opcodes_identical);
}

#[test]
fn compare_counts_disjoint_opcodes() {
    let fast = vec![ev(98, 3, 10, 1), ev(98, 3, 20, 1)];
    let io = vec![ev(99, 3, 10, 1), ev(99, 3, 20, 1)];
    let r = compare_counts(&fast, &io);
    assert_eq!((r.matched, r.fast_only, r.io_only), (0, 2, 2));
    assert!(!r.opcodes_identical);
    let empty = compare_counts(&vec![], &vec![]);
    assert!(!empty.opcodes_identical);
    assert_eq!(empty.fast_total, 0);
}

fn pass(fast_total: usize, matched: usize, fast: Vec<OpcodeCount>, io: Vec<OpcodeCount>, identical: bool) -> MatchCounts {
    MatchCounts {
        fast_total,
        io_total: fast_total + 1,
        matched,
        fast_only: fast_total - matched,
        io_only: fast_total + 1 - matched,
        fast_opcodes: fast,
        io_opcodes: io,
        opcodes_identical: identical,
    }
}

#[test]
fn aggregate_means_and_summed_tables() {
    let a = pass(10, 7, vec![oc(98, 3, 4), oc(99, 3, 6)], vec![oc(99, 3, 11)], true);
    let b = pass(5, 5, vec![oc(99, 3, 5)], vec![oc(98, 3, 1), oc(99, 3, 5)], true);
    let r = aggregate_counts(&vec![a.clone(), b.clone()]);
    assert_eq!(r.fast_total, 7); // (10 + 5) / 2
    assert_eq!(r.io_total, 8); // (11 + 6) / 2
    assert_eq!(r.matched, 6);
    assert_eq!(r.fast_only, 1);
    assert_eq!(r.io_only, 2);
    assert_eq!(r.fast_opcodes, vec![oc(98, 3, 4), oc(99, 3, 11)]);
    assert_eq!(r.io_opcodes, vec![oc(98, 3, 1), oc(99, 3, 16)]);
    assert!(r.opcodes_identical);
    let c = pass(1, 0, vec![], vec![], false);
    assert!(!aggregate_counts(&vec![a, c]).opcodes_identical);
}

#[test]
fn aggregate_of_nothing_is_empty() {
    let r = aggregate_counts(&vec![]);
    assert_eq!((r.fast_total, r.io_total, r.matched, r.fast_only, r.io_only), (0, 0, 0, 0, 0));
    assert!(r.fast_opcodes.is_empty() && r.io_opcodes.is_empty());
    assert!(!r.opcodes_identical);
}

#[test]
fn majority_opcodes_sums_duplicates() {
    let a = pass(1, 1, vec![oc(98, 3, 2), oc(98, 3, 3)], vec![], true);
    assert_eq!(majority_opcodes(&vec![a.clone(), a], true), vec![oc(98, 3, 10)]);
}

#[test]
fn opcode_table_on_one_line() {
    assert_eq!(format_oc(&vec![]), "(none)");
    assert_eq!(
        format_oc(&vec![oc(96, 3, 12), oc(99, 3, 4), oc(7, 0, 1)]),
        "PreOpInit(/op96,ver3)=12 PostOpCompletion(/op99,ver3)=4 ?(FLT?)(/op7,ver0)=1"
    );
}

#[test]
fn opcode_lines_of_baseline() {
    assert_eq!(opcode_lines(&vec![], "IO  "), vec!["    IO   (none)".to_string()]);
    let evs = vec![ev(98, 3, 1, 0), ev(96, 3, 2, 0), ev(98, 3, 3, 0), ev(5, 1, 4, 0)];
    assert_eq!(
        opcode_lines(&opcode_counts(&evs), "FAST"),
        vec![
            "    FAST opcode=  5 ver=1  ?(FLT?): 1".to_string(),
            "    FAST opcode= 96 ver=3  PreOpInit: 1".to_string(),
            "    FAST opcode= 98 ver=3  PreOpCompletion: 2".to_string(),
        ]
    );
}
