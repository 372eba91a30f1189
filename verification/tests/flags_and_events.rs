use fileio_etw::combos::gen_combos;
use fileio_etw::event_defs::{EventDefs, EventKey};
use fileio_etw::group_mask::{
    build_group_mask, clear_masks, group_index, set_mask, single, TestConfig, PERF_FILE_IO, PERF_FLT_FASTIO,
    PERF_FLT_IO, PERF_VAMAP,
};
use fileio_etw::tally::tally;

#[test]
fn gen_combos_lists_subsets_in_order() {
    assert_eq!(gen_combos(4, 2), vec![vec![0, 1], vec![0, 2], vec![0, 3], vec![1, 2], vec![1, 3], vec![2, 3]]);
    assert_eq!(gen_combos(3, 0), vec![Vec::<usize>::new()]);
    assert_eq!(gen_combos(2, 3), Vec::<Vec<usize>>::new());
    assert_eq!(gen_combos(3, 3), vec![vec![0, 1, 2]]);
    assert_eq!(gen_combos(12, 2).len(), 66);
    assert_eq!(gen_combos(12, 3).len(), 220);
}

#[test]
fn event_key_new_keeps_fields() {
    let k = EventKey::new(64, 3);
    assert_eq!(k.id, 64);
    assert_eq!(k.version, 3);
}

#[test]
fn event_defs_versions_and_lookup() {
    assert_eq!(EventDefs::v0().len(), 1);
    assert_eq!(EventDefs::v1().len(), 2);
    let all = EventDefs::all();
    assert_eq!(
        all.len(),
        EventDefs::v0().len() + EventDefs::v1().len() + EventDefs::v2().len() + EventDefs::v3().len()
    );
    assert_eq!(all[0].name, "Name");
    assert_eq!(all[0].mof_class, "FileIo_V0_Name");
    let create = EventDefs::lookup(32, 1).unwrap();
    assert_eq!(create.name, "FileCreate");
    assert_eq!(create.mof_class, "FileIo_V1_Name");
    let post = EventDefs::lookup(99, 3).unwrap();
    assert_eq!(post.name, "FltPostOpCompletion");
    assert!(EventDefs::lookup(99, 1).is_none());
    assert!(EventDefs::lookup(500, 2).is_none());
}

#[test]
fn group_index_is_top_three_bits() {
    assert_eq!(group_index(0x8010_0000), 4);
    assert_eq!(group_index(0x0200_0000), 0);
    assert_eq!(group_index(0xffff_ffff), 7);
}

#[test]
fn set_mask_strips_index_bits() {
    let mut m = [0u32; 8];
    set_mask(&mut m, PERF_FLT_IO);
    set_mask(&mut m, PERF_FLT_FASTIO);
    set_mask(&mut m, PERF_FILE_IO);
    assert_eq!(m, [0x0200_0000, 0, 0, 0, 0x0030_0000, 0, 0, 0]);
    // setting a flag twice changes nothing
    let before = m;
    set_mask(&mut m, PERF_FLT_IO);
    assert_eq!(m, before);
    clear_masks(&mut m);
    assert_eq!(m, [0u32; 8]);
    assert_eq!(single(PERF_VAMAP), [0x8000, 0, 0, 0, 0, 0, 0, 0]);
}

#[test]
fn build_group_mask_keeps_index_bits() {
    assert_eq!(build_group_mask(0x8010_0000), [0, 0, 0, 0, 0x8010_0000, 0, 0, 0]);
    assert_eq!(build_group_mask(0x0000_0200), [0x200, 0, 0, 0, 0, 0, 0, 0]);
}

#[test]
fn test_config_names() {
    assert_eq!(TestConfig::EnableFlags(0x0400_0000).name(), "EnableFlags=0x04000000");
    assert_eq!(
        TestConfig::GroupMask([0x200, 0, 0, 0, 0x0030_0000, 0, 0, 0]).name(),
        "GroupMask(Masks[0]=0x00000200, Masks[4]=0x00300000)"
    );
    assert_eq!(TestConfig::GroupMask([0; 8]).name(), "GroupMask()");
}

#[test]
fn fileio_test_cases_table() {
    let cases = TestConfig::fileio_test_cases();
    assert_eq!(cases.len(), 13);
    assert_eq!(cases[0].0, "EVENT_TRACE_FLAG_FILE_IO_INIT");
    assert_eq!(cases[6].0, "ALL_FILEIO_FLAGS");
    assert_eq!(cases[6].1.name(), "EnableFlags=0x06008200");
    assert_eq!(cases[11].1.name(), "GroupMask(Masks[4]=0x00780000)");
    assert_eq!(cases[12].0, "ALL_FILEIO_MASKS");
    assert_eq!(cases[12].1.name(), "GroupMask(Masks[0]=0x06008200, Masks[4]=0x00780000)");
}

#[test]
fn tally_counts_sorted_keys() {
    assert_eq!(tally(&vec![5, 3, 5, 1, 3, 5]), vec![(1, 1), (3, 2), (5, 3)]);
    assert_eq!(tally(&vec![]), vec![]);
    assert_eq!(tally(&vec![65535, 0]), vec![(0, 1), (65535, 1)]);
}
