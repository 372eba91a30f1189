use fileio_etw::flag_test::{event_class, flag_session, opcode_name, EventCollector, FileIoClass, FlagSession};
use fileio_etw::opcode_sets::{compare_opcode_sets, count_by_opcode, flt_opcode_label, opcode_label, SessionEvent, SetVerdict};
use fileio_etw::perf_analysis::{
    fingerprint, interpretation, major_table, pool_passes, score_pass, Config, FltIoCompletionEvent, Fingerprint, Hypothesis,
    PassField, RawEvent,
};

fn raw(irp_ptr: usize, major_function: u32) -> RawEvent {
    RawEvent {
        opcode: 98,
        event_id: 98,
        version: 3,
        timestamp: 1,
        process_id: 2,
        thread_id: 3,
        flt: FltIoCompletionEvent {
            initial_time: 0,
            routine_addr: 0,
            file_object: 0,
            file_context: 0,
            irp_ptr,
            callback_data_ptr: 0,
            major_function,
        },
    }
}

fn session(opcode: u8) -> SessionEvent {
    SessionEvent { opcode, version: 3, timestamp: 0, process_id: 0, thread_id: 0 }
}

fn major(fp: &Fingerprint, k: u32) -> usize {
    fp.majors.get(&k).copied().unwrap_or(0)
}

#[test]
fn raw_event_fast_means_no_irp() {
    assert!(raw(0, 3).is_fast());
    assert!(!raw(0x1000, 3).is_fast());
    assert_eq!(raw(0, 4).major_function(), 4);
}

#[test]
fn config_names_and_group_values() {
    assert_eq!(Config::all(), [Config::FastIoOnly, Config::IoOnly, Config::Both]);
    assert_eq!(Config::FastIoOnly.name(), "FASTIO");
    assert_eq!(Config::Both.name(), "BOTH");
    assert_eq!(Config::FastIoOnly.group_value(), 0x8020_0000);
    assert_eq!(Config::IoOnly.group_value(), 0x8010_0000);
    assert_eq!(Config::Both.group_value(), 0x8030_0000);
    assert_eq!(Hypothesis::Same.describe(), "Same events");
    assert_eq!(Hypothesis::Subset.describe(), "FASTIO is a (proper) subset of IO");
}

#[test]
fn fingerprint_counts_fast_and_majors() {
    let evs = vec![raw(0, 3), raw(0x10, 3), raw(0x20, 4), raw(0, 4), raw(0, 4)];
    let fp = fingerprint(&evs);
    assert_eq!((fp.total, fp.fast, fp.nonfast), (5, 3, 2));
    assert_eq!(major(&fp, 3), 2);
    assert_eq!(major(&fp, 4), 3);
    assert_eq!(fp.majors.len(), 2);
    let empty = fingerprint(&[]);
    assert_eq!((empty.total, empty.fast, empty.nonfast), (0, 0, 0));
    assert!(empty.majors.is_empty());
}

#[test]
fn fingerprint_add_and_merge() {
    let mut a = Fingerprint::default();
    a.add(&raw(0, 1));
    a.add(&raw(5, 1));
    let mut b = Fingerprint::default();
    b.add(&raw(0, 2));
    // merging is the fingerprint of both runs together
    a.merge(&b);
    let together = fingerprint(&[raw(0, 1), raw(5, 1), raw(0, 2)]);
    assert_eq!((a.total, a.fast, a.nonfast), (together.total, together.fast, together.nonfast));
    assert_eq!(a.majors, together.majors);
}

#[test]
fn score_pass_splits_both_run() {
    let both = vec![raw(0, 3), raw(7, 3), raw(0, 4)];
    let r = score_pass(1, &[raw(0, 3)], &[raw(9, 3), raw(9, 5)], &both);
    assert_eq!(r.fastio.total, 1);
    assert_eq!(r.io.total, 2);
    assert_eq!(r.both.total, 3);
    assert_eq!((r.both_fast.total, r.both_nonfast.total), (2, 1));
    // the split adds back up to the BOTH fingerprint
    assert_eq!(r.both_fast.total + r.both_nonfast.total, r.both.total);
    assert_eq!(major(&r.both_fast, 3) + major(&r.both_nonfast, 3), major(&r.both, 3));
    assert_eq!(r.both_nonfast.fast, 0);
}

#[test]
fn pool_passes_sums_one_field() {
    let p1 = score_pass(1, &[raw(0, 3)], &[raw(9, 3)], &[raw(0, 3), raw(1, 4)]);
    let p2 = score_pass(2, &[raw(0, 4), raw(0, 4)], &[], &[raw(2, 4)]);
    let fast = pool_passes(&vec![p1.clone(), p2.clone()], PassField::FastIo);
    assert_eq!((fast.total, fast.fast, fast.nonfast), (3, 3, 0));
    assert_eq!(major(&fast, 3), 1);
    assert_eq!(major(&fast, 4), 2);
    let nonfast = pool_passes(&vec![p1, p2], PassField::BothNonFast);
    assert_eq!(nonfast.total, 2);
    assert_eq!(major(&nonfast, 4), 2);
}

#[test]
fn opcode_labels() {
    assert_eq!(opcode_label(0), "Name");
    assert_eq!(opcode_label(75), "FSControl");
    assert_eq!(opcode_label(200), "UNKNOWN");
    assert_eq!(flt_opcode_label(98), "PreOpCompletion");
    assert_eq!(flt_opcode_label(64), "?(FLT?)");
}

#[test]
fn count_by_opcode_has_256_slots() {
    let c = count_by_opcode(&[session(98), session(98), session(255)]);
    assert_eq!(c.len(), 256);
    assert_eq!(c[98], 2);
    assert_eq!(c[255], 1);
    assert_eq!(c.iter().sum::<usize>(), 3);
}

#[test]
fn compare_opcode_sets_subset() {
    let io = vec![session(98), session(99), session(99)];
    let fast = vec![session(98), session(98)];
    let r = compare_opcode_sets(&io, &fast);
    let rows: Vec<(u8, usize, usize)> = r.rows.iter().map(|x| (x.opcode, x.io_count, x.fastio_count)).collect();
    assert_eq!(rows, vec![(98, 1, 2), (99, 2, 0)]);
    assert_eq!(r.shared, vec![98]);
    assert_eq!(r.io_only, vec![99]);
    assert!(r.fastio_only.is_empty());
    assert!(r.fastio_subset_of_io && !r.io_subset_of_fastio && !r.identical);
    assert_eq!(r.matched_count, 1);
    assert_eq!(r.total_count, 4);
    assert!(!r.flt_identical);
    assert_eq!(r.verdict, SetVerdict::FastIoSubsetOfIo);
}

#[test]
fn compare_opcode_sets_verdicts() {
    let same = compare_opcode_sets(&[session(98)], &[session(98), session(98)]);
    assert_eq!(same.verdict, SetVerdict::Identical);
    assert!(same.flt_identical);
    let excl = compare_opcode_sets(&[session(98)], &[session(99)]);
    assert_eq!(excl.verdict, SetVerdict::Exclusive);
    let coll = compare_opcode_sets(&[session(98), session(97)], &[session(98), session(99)]);
    assert_eq!(coll.verdict, SetVerdict::Collisions);
    let io_sub = compare_opcode_sets(&[session(98)], &[session(98), session(99)]);
    assert_eq!(io_sub.verdict, SetVerdict::IoSubsetOfFastIo);
    let none = compare_opcode_sets(&[], &[]);
    assert_eq!(none.verdict, SetVerdict::Identical);
    assert!(none.rows.is_empty());
}

#[test]
fn event_collector_keeps_distinct_types() {
    let mut c = EventCollector::new();
    c.record_event(64, 3);
    c.record_event(64, 3);
    c.record_event(67, 3);
    assert_eq!(c.total_count(), 3);
    let mut seen = c.seen();
    seen.sort();
    assert_eq!(seen, vec![(64, 3), (67, 3)]);
}

#[test]
fn flag_sessions() {
    assert_eq!(flag_session(0x0400_0000), FlagSession::FileIoInit);
    assert_eq!(flag_session(0x0200_0000), FlagSession::FileIo);
    assert_eq!(flag_session(0x0000_0200), FlagSession::DiskFileIo);
    assert_eq!(flag_session(0x0000_8000), FlagSession::Vamap);
    assert_eq!(flag_session(0x0600_0000), FlagSession::GroupMask([0x0600_0000, 0, 0, 0, 0, 0, 0, 0]));
    assert_eq!(flag_session(0x0600_8200), FlagSession::GroupMask([0x0600_8200, 0, 0, 0, 0, 0, 0, 0]));
    assert_eq!(flag_session(0), FlagSession::GroupMask([0; 8]));
}

#[test]
fn event_classes_and_names() {
    assert_eq!(event_class(32), Some(FileIoClass::Name));
    assert_eq!(event_class(64), Some(FileIoClass::Create));
    assert_eq!(event_class(73), Some(FileIoClass::SimpleOp));
    assert_eq!(event_class(68), Some(FileIoClass::ReadWrite));
    assert_eq!(event_class(71), Some(FileIoClass::Info));
    assert_eq!(event_class(77), Some(FileIoClass::DirEnum));
    assert_eq!(event_class(76), Some(FileIoClass::OpEnd));
    assert_eq!(event_class(98), None);
    assert_eq!(opcode_name(70), "Delete");
    assert_eq!(opcode_name(77), "DirNotify");
    assert_eq!(opcode_name(99), "Unknown");
}

fn fp_with(majors: &[(u32, usize)]) -> Fingerprint {
    let total = majors.iter().map(|(_, c)| *c).sum();
    Fingerprint { total, fast: 0, nonfast: total, majors: majors.iter().copied().collect() }
}

#[test]
fn major_function_table() {
    let both = fp_with(&[(3, 5), (14, 1)]);
    let fastio = fp_with(&[(0, 2), (3, 1)]);
    let io = fp_with(&[(3, 4), (18, 9)]);
    let both_fast = fp_with(&[(0, 1)]);
    let both_nonfast = fp_with(&[(3, 5), (14, 1)]);
    let t = major_table(&both, &fastio, &io, &both_fast, &both_nonfast);
    assert_eq!(t.majors, vec![0, 3, 14]);
    assert_eq!(
        t.lines,
        vec![
            "  MJ_ 0: FASTIO=2  IO=0  | BOTH-fast=1  BOTH-nonfast=0".to_string(),
            "  MJ_ 3: FASTIO=1  IO=4  | BOTH-fast=0  BOTH-nonfast=5".to_string(),
            "  MJ_14: FASTIO=0  IO=0  | BOTH-fast=0  BOTH-nonfast=1".to_string(),
        ]
    );
}

#[test]
fn hypothesis_interpretations() {
    assert_eq!(interpretation(Hypothesis::Same), vec!["Interpretation: the flags are effectively identical for FltIoCompletion.".to_string()]);
    assert_eq!(interpretation(Hypothesis::Subset).len(), 2);
    assert_eq!(
        interpretation(Hypothesis::Disjoint)[1],
        "Fast I/O (cached, IrpPtr==0) vs IRP-based I/O; sets are mutually exclusive."
    );
}
