//! EnableFlags and PERFINFO_GROUPMASK arithmetic.
//!
//! A group-mask flag value carries the index of the `Masks[]` word it belongs to
//! in its top three bits; the low 29 bits are the bits to set in that word.

use vstd::prelude::*;
use crate::text::{dec, hex8_upper, join, lemma_join_push, owned, push_dec, push_padded, push_str};

verus! {

/// EVENT_TRACE_FLAG_DISK_FILE_IO: enables FileIo_Name events.
pub const EVENT_TRACE_FLAG_DISK_FILE_IO: u32 = 0x00000200;
/// EVENT_TRACE_FLAG_FILE_IO: enables FileIo_OpEnd.
pub const EVENT_TRACE_FLAG_FILE_IO: u32 = 0x02000000;
/// EVENT_TRACE_FLAG_FILE_IO_INIT: enables Create/SimpleOp/ReadWrite/Info/DirEnum.
pub const EVENT_TRACE_FLAG_FILE_IO_INIT: u32 = 0x04000000;
/// EVENT_TRACE_FLAG_VAMAP: enables MapFile/UnmapFile.
pub const EVENT_TRACE_FLAG_VAMAP: u32 = 0x00008000;

/// Bits of a flag value that hold the Masks[] index.
pub const PERF_MASK_INDEX: u32 = 0xe0000000;
/// Bits of a flag value that are set in the selected Masks[] word.
pub const PERF_MASK_GROUP: u32 = 0x1fffffff;

pub const PERF_FILE_IO: u32 = 0x02000000;
pub const PERF_FILE_IO_INIT: u32 = 0x04000000;
pub const PERF_FILENAME: u32 = 0x00000200;
pub const PERF_VAMAP: u32 = 0x00008000;
pub const PERF_FLT_IO_INIT: u32 = 0x80080000;
pub const PERF_FLT_IO: u32 = 0x80100000;
pub const PERF_FLT_FASTIO: u32 = 0x80200000;
pub const PERF_FLT_IO_FAILURE: u32 = 0x80400000;
pub const PERF_DISK_IO_INIT: u32 = 0x00000400;
pub const PERF_DISK_IO: u32 = 0x00000300;

/// The Masks[] word selected by a flag value: its top three bits.
pub open spec fn mask_word(flag: u32) -> int {
    flag as int / 0x2000_0000
}

/// The bits a flag value sets in its Masks[] word: its low 29 bits.
pub open spec fn mask_bits(flag: u32) -> u32 {
    (flag as int % 0x2000_0000) as u32
}

/// Eight zero words.
pub open spec fn zero_masks() -> Seq<u32> {
    seq![0u32, 0u32, 0u32, 0u32, 0u32, 0u32, 0u32, 0u32]
}

proof fn lemma_split_flag(flag: u32)
    ensures
        (flag & PERF_MASK_INDEX) >> 29u32 == flag / 0x2000_0000,
        flag & PERF_MASK_GROUP == flag % 0x2000_0000,
        flag / 0x2000_0000 < 8,
{
    assert((flag & 0xe0000000u32) >> 29u32 == flag / 0x2000_0000u32) by (bit_vector);
    assert(flag & 0x1fffffffu32 == flag % 0x2000_0000u32) by (bit_vector);
}

/// Index of the Masks[] word for `mask_value` (its top three bits).
pub fn group_index(mask_value: u32) -> (index: usize)
    ensures
        index == mask_word(mask_value),
        index < 8,
{
    assert((mask_value >> 29u32) & 0x07u32 == mask_value / 0x2000_0000u32) by (bit_vector);
    assert(mask_value / 0x2000_0000u32 < 8) by (bit_vector);
    ((mask_value >> 29) & 0x07) as usize
}

/// Set the bits of `flag` in the Masks[] word that `flag` selects.
pub fn set_mask(masks: &mut [u32; 8], flag: u32)
    ensures
        final(masks)@ == old(masks)@.update(
            mask_word(flag),
            old(masks)@[mask_word(flag)] | mask_bits(flag),
        ),
{
    proof { lemma_split_flag(flag); }
    let index = ((flag & PERF_MASK_INDEX) >> 29) as usize;
    masks[index] = masks[index] | (flag & PERF_MASK_GROUP);
}


/// The Masks[] words after setting `flag` in `masks`.
pub open spec fn with_flag(masks: Seq<u32>, flag: u32) -> Seq<u32> {
    masks.update(mask_word(flag), masks[mask_word(flag)] | mask_bits(flag))
}

/// Clear every Masks[] word.
pub fn clear_masks(masks: &mut [u32; 8])
    ensures
        final(masks)@ == zero_masks(),
{
    let mut i: usize = 0;
    while i < 8
        invariant
            i <= 8,
            masks@.len() == 8,
            forall|j: int| 0 <= j < i ==> masks@[j] == 0,
        decreases 8 - i,
    {
        masks[i] = 0;
        i = i + 1;
    }
    assert(masks@ =~= zero_masks());
}

/// A group mask with the single flag `flag` set.
pub fn single(flag: u32) -> (masks: [u32; 8])
    ensures
        masks@ == with_flag(zero_masks(), flag),
{
    let mut masks = [0u32; 8];
    assert(masks@ =~= zero_masks());
    set_mask(&mut masks, flag);
    masks
}

/// A group mask whose word `mask_word(mask_value)` holds the whole `mask_value`
/// (index bits included) and whose other words are zero.
pub fn build_group_mask(mask_value: u32) -> (masks: [u32; 8])
    ensures
        masks@ == zero_masks().update(mask_word(mask_value), mask_value),
{
    let mut masks = [0u32; 8];
    assert(masks@ =~= zero_masks());
    let index = group_index(mask_value);
    masks[index] = mask_value;
    masks
}

/// Setting the same flag twice leaves the masks as setting it once.
pub proof fn law_set_mask_idempotent(masks: Seq<u32>, flag: u32)
    requires
        masks.len() == 8,
    ensures
        with_flag(with_flag(masks, flag), flag) == with_flag(masks, flag),
{
    let w = mask_word(flag);
    let b = mask_bits(flag);
    let x = masks[w];
    assert((x | b) | b == x | b) by (bit_vector);
    assert(with_flag(with_flag(masks, flag), flag) =~= with_flag(masks, flag));
}

/// The order in which two flags are set does not matter.
pub proof fn law_set_mask_commutes(masks: Seq<u32>, f: u32, g: u32)
    requires
        masks.len() == 8,
    ensures
        with_flag(with_flag(masks, f), g) == with_flag(with_flag(masks, g), f),
{
    let bf = mask_bits(f);
    let bg = mask_bits(g);
    if mask_word(f) == mask_word(g) {
        let x = masks[mask_word(f)];
        assert((x | bf) | bg == (x | bg) | bf) by (bit_vector);
    }
    assert(with_flag(with_flag(masks, f), g) =~= with_flag(with_flag(masks, g), f));
}

/// For a flag of word 0 (an EnableFlags value), the single-flag mask and the
/// whole-value mask coincide.
pub proof fn law_word_zero_single_is_whole(flag: u32)
    requires
        flag < 0x2000_0000,
    ensures
        with_flag(zero_masks(), flag) == zero_masks().update(mask_word(flag), flag),
{
    assert(0u32 | flag == flag) by (bit_vector);
    assert(with_flag(zero_masks(), flag) =~= zero_masks().update(mask_word(flag), flag));
}

/// Every flag selects one of the eight Masks[] words.
pub proof fn law_mask_word_in_range(flag: u32)
    ensures
        0 <= mask_word(flag) < 8,
{
}


/// A kernel trace configuration under test: an EnableFlags value, or a full
/// PERFINFO_GROUPMASK.
#[derive(Debug, Clone)]
pub enum TestConfig {
    /// EnableFlags only (the documented path).
    EnableFlags(u32),
    /// A PERFINFO_GROUPMASK (the extended path).
    GroupMask([u32; 8]),
}

/// The `Masks[i]=0x........` label of one group-mask word.
pub open spec fn mask_entry(i: int, v: u32) -> Seq<char> {
    "Masks["@ + dec(i as nat) + "]=0x"@ + hex8_upper(v)
}

/// Labels of the nonzero words among the first `k` words of `m`, in order.
pub open spec fn mask_entries(m: Seq<u32>, k: int) -> Seq<Seq<char>>
    decreases k,
{
    if k <= 0 {
        Seq::empty()
    } else if m[k - 1] != 0 {
        mask_entries(m, k - 1).push(mask_entry(k - 1, m[k - 1]))
    } else {
        mask_entries(m, k - 1)
    }
}

/// The display name of a configuration.
pub open spec fn config_name(c: TestConfig) -> Seq<char> {
    match c {
        TestConfig::EnableFlags(f) => "EnableFlags=0x"@ + hex8_upper(f),
        TestConfig::GroupMask(m) => "GroupMask("@ + join(mask_entries(m@, 8), ", "@) + ")"@,
    }
}

/// `c` is the EnableFlags configuration `flags` (when `flags` is some) or the
/// group-mask configuration with words `masks`.
pub open spec fn config_is(c: TestConfig, flags: Option<u32>, masks: Seq<u32>) -> bool {
    match c {
        TestConfig::EnableFlags(f) => flags == Some(f),
        TestConfig::GroupMask(m) => flags is None && m@ == masks,
    }
}

fn push_hex8(s: &mut String, v: u32)
    ensures
        final(s)@ == old(s)@ + hex8_upper(v),
{
    push_padded(s, v as u64, 16, true, 8);
}

impl TestConfig {
    /// `EnableFlags=0x........` or `GroupMask(Masks[i]=0x........, ...)` listing
    /// the nonzero words.
    pub fn name(&self) -> (s: String)
        ensures
            s@ == config_name(*self),
    {
        match self {
            TestConfig::EnableFlags(flags) => {
                let mut s = owned("EnableFlags=0x");
                push_hex8(&mut s, *flags);
                s
            },
            TestConfig::GroupMask(masks) => {
                let mut s = owned("GroupMask(");
                let ghost start = s@;
                let mut i: usize = 0;
                let mut any = false;
                while i < 8
                    invariant
                        i <= 8,
                        masks@.len() == 8,
                        any == (mask_entries(masks@, i as int).len() > 0),
                        s@ == start + join(mask_entries(masks@, i as int), ", "@),
                    decreases 8 - i,
                {
                    let v = masks[i];
                    if v != 0 {
                        let ghost before = s@;
                        let ghost parts = mask_entries(masks@, i as int);
                        if any {
                            push_str(&mut s, ", ");
                        }
                        any = true;
                        push_str(&mut s, "Masks[");
                        push_dec(&mut s, i as u64);
                        push_str(&mut s, "]=0x");
                        push_hex8(&mut s, v);
                        proof {
                            lemma_join_push(parts, ", "@, mask_entry(i as int, v));
                            assert(mask_entries(masks@, i + 1) == parts.push(mask_entry(i as int, v)));
                            assert(s@ =~= start + join(mask_entries(masks@, i + 1), ", "@));
                        }
                    } else {
                        assert(mask_entries(masks@, i + 1) == mask_entries(masks@, i as int));
                    }
                    i = i + 1;
                }
                push_str(&mut s, ")");
                s
            },
        }
    }
}


/// Names of the FileIo test cases, in the order they are run.
pub open spec fn fileio_case_names() -> Seq<Seq<char>> {
    seq![
        "EVENT_TRACE_FLAG_FILE_IO_INIT"@,
        "EVENT_TRACE_FLAG_FILE_IO"@,
        "EVENT_TRACE_FLAG_DISK_FILE_IO"@,
        "EVENT_TRACE_FLAG_VAMAP"@,
        "FILE_IO_INIT + FILE_IO"@,
        "FILE_IO_INIT + FILE_IO + DISK_FILE_IO"@,
        "ALL_FILEIO_FLAGS"@,
        "PERF_FLT_IO_INIT"@,
        "PERF_FLT_IO"@,
        "PERF_FLT_IO_FAILURE"@,
        "PERF_FLT_FASTIO"@,
        "ALL_FLT_MASKS"@,
        "ALL_FILEIO_MASKS"@,
    ]
}

/// EnableFlags of the first seven FileIo test cases (the others are group masks).
pub open spec fn fileio_case_flags(i: int) -> Option<u32> {
    if i == 0 {
        Some(0x0400_0000u32)
    } else if i == 1 {
        Some(0x0200_0000u32)
    } else if i == 2 {
        Some(0x0000_0200u32)
    } else if i == 3 {
        Some(0x0000_8000u32)
    } else if i == 4 {
        Some(0x0600_0000u32)
    } else if i == 5 {
        Some(0x0600_0200u32)
    } else if i == 6 {
        Some(0x0600_8200u32)
    } else {
        None
    }
}

/// Group-mask words of the group-mask FileIo test cases (indices 7 to 12).
pub open spec fn fileio_case_masks(i: int) -> Seq<u32> {
    if i == 7 {
        zero_masks().update(4, 0x0008_0000u32)
    } else if i == 8 {
        zero_masks().update(4, 0x0010_0000u32)
    } else if i == 9 {
        zero_masks().update(4, 0x0040_0000u32)
    } else if i == 10 {
        zero_masks().update(4, 0x0020_0000u32)
    } else if i == 11 {
        zero_masks().update(4, 0x0078_0000u32)
    } else if i == 12 {
        zero_masks().update(0, 0x0600_8200u32).update(4, 0x0078_0000u32)
    } else {
        zero_masks()
    }
}

impl TestConfig {
    /// Every individual FileIo test configuration, with its name.
    pub fn fileio_test_cases() -> (cases: Vec<(String, TestConfig)>)
        ensures
            cases@.len() == 13,
            forall|i: int|
                0 <= i < 13 ==> (#[trigger] cases@[i]).0@ == fileio_case_names()[i]
                    && config_is(cases@[i].1, fileio_case_flags(i), fileio_case_masks(i)),
    {
        let mut cases: Vec<(String, TestConfig)> = Vec::new();
        cases.push((owned("EVENT_TRACE_FLAG_FILE_IO_INIT"), TestConfig::EnableFlags(EVENT_TRACE_FLAG_FILE_IO_INIT)));
        cases.push((owned("EVENT_TRACE_FLAG_FILE_IO"), TestConfig::EnableFlags(EVENT_TRACE_FLAG_FILE_IO)));
        cases.push((owned("EVENT_TRACE_FLAG_DISK_FILE_IO"), TestConfig::EnableFlags(EVENT_TRACE_FLAG_DISK_FILE_IO)));
        cases.push((owned("EVENT_TRACE_FLAG_VAMAP"), TestConfig::EnableFlags(EVENT_TRACE_FLAG_VAMAP)));
        assert(EVENT_TRACE_FLAG_FILE_IO_INIT | EVENT_TRACE_FLAG_FILE_IO == 0x0600_0000u32) by (bit_vector);
        cases.push((owned("FILE_IO_INIT + FILE_IO"), TestConfig::EnableFlags(EVENT_TRACE_FLAG_FILE_IO_INIT | EVENT_TRACE_FLAG_FILE_IO)));
        assert(EVENT_TRACE_FLAG_FILE_IO_INIT | EVENT_TRACE_FLAG_FILE_IO | EVENT_TRACE_FLAG_DISK_FILE_IO == 0x0600_0200u32) by (bit_vector);
        cases.push((owned("FILE_IO_INIT + FILE_IO + DISK_FILE_IO"), TestConfig::EnableFlags(EVENT_TRACE_FLAG_FILE_IO_INIT | EVENT_TRACE_FLAG_FILE_IO | EVENT_TRACE_FLAG_DISK_FILE_IO)));
        assert(EVENT_TRACE_FLAG_FILE_IO_INIT | EVENT_TRACE_FLAG_FILE_IO | EVENT_TRACE_FLAG_DISK_FILE_IO | EVENT_TRACE_FLAG_VAMAP == 0x0600_8200u32) by (bit_vector);
        cases.push((owned("ALL_FILEIO_FLAGS"), TestConfig::EnableFlags(EVENT_TRACE_FLAG_FILE_IO_INIT | EVENT_TRACE_FLAG_FILE_IO | EVENT_TRACE_FLAG_DISK_FILE_IO | EVENT_TRACE_FLAG_VAMAP)));
        assert(0u32 | 0x0008_0000u32 == 0x0008_0000u32) by (bit_vector);
        assert(0u32 | 0x0010_0000u32 == 0x0010_0000u32) by (bit_vector);
        assert(0u32 | 0x0040_0000u32 == 0x0040_0000u32) by (bit_vector);
        assert(0u32 | 0x0020_0000u32 == 0x0020_0000u32) by (bit_vector);
        let m = single(PERF_FLT_IO_INIT);
        assert(m@ =~= fileio_case_masks(7));
        cases.push((owned("PERF_FLT_IO_INIT"), TestConfig::GroupMask(m)));
        let m = single(PERF_FLT_IO);
        assert(m@ =~= fileio_case_masks(8));
        cases.push((owned("PERF_FLT_IO"), TestConfig::GroupMask(m)));
        let m = single(PERF_FLT_IO_FAILURE);
        assert(m@ =~= fileio_case_masks(9));
        cases.push((owned("PERF_FLT_IO_FAILURE"), TestConfig::GroupMask(m)));
        let m = single(PERF_FLT_FASTIO);
        assert(m@ =~= fileio_case_masks(10));
        cases.push((owned("PERF_FLT_FASTIO"), TestConfig::GroupMask(m)));

        let mut m = [0u32; 8];
        set_mask(&mut m, PERF_FLT_IO_INIT);
        set_mask(&mut m, PERF_FLT_IO);
        set_mask(&mut m, PERF_FLT_IO_FAILURE);
        set_mask(&mut m, PERF_FLT_FASTIO);
        assert(((0u32 | 0x0008_0000u32) | 0x0010_0000u32 | 0x0040_0000u32) | 0x0020_0000u32 == 0x0078_0000u32) by (bit_vector);
        assert(m@ =~= fileio_case_masks(11));
        cases.push((owned("ALL_FLT_MASKS"), TestConfig::GroupMask(m)));

        let mut m = [0u32; 8];
        set_mask(&mut m, PERF_FILE_IO);
        set_mask(&mut m, PERF_FILE_IO_INIT);
        set_mask(&mut m, PERF_FILENAME);
        set_mask(&mut m, PERF_VAMAP);
        set_mask(&mut m, PERF_FLT_IO_INIT);
        set_mask(&mut m, PERF_FLT_IO);
        set_mask(&mut m, PERF_FLT_IO_FAILURE);
        set_mask(&mut m, PERF_FLT_FASTIO);
        assert((((0u32 | 0x0200_0000u32) | 0x0400_0000u32) | 0x0000_0200u32) | 0x0000_8000u32 == 0x0600_8200u32) by (bit_vector);
        assert(m@ =~= fileio_case_masks(12));
        cases.push((owned("ALL_FILEIO_MASKS"), TestConfig::GroupMask(m)));
        cases
    }
}

} // verus!
