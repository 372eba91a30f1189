//! The flag/mask test of single kernel flags: which provider a flag value
//! selects, how combined flags become a group mask, and the collector that
//! records the event types a run sees.

use vstd::prelude::*;
use std::collections::HashSet;
use crate::group_mask::{
    EVENT_TRACE_FLAG_DISK_FILE_IO, EVENT_TRACE_FLAG_FILE_IO, EVENT_TRACE_FLAG_FILE_IO_INIT,
    EVENT_TRACE_FLAG_VAMAP, PERF_FILENAME, PERF_FILE_IO, PERF_FILE_IO_INIT, PERF_VAMAP, set_mask,
    with_flag, zero_masks,
};

verus! {

broadcast use vstd::std_specs::hash::group_hash_axioms;

/// The set key of event type (`id`, `version`): `id * 256 + version`.
pub open spec fn type_key(id: u16, version: u8) -> u32 {
    (id as int * 256 + version as int) as u32
}

/// The event type of set key `k`.
pub open spec fn key_type(k: u32) -> (u16, u8) {
    ((k / 256) as u16, (k % 256) as u8)
}

proof fn lemma_type_key(id: u16, version: u8)
    ensures
        type_key(id, version) == id as int * 256 + version as int,
        type_key(id, version) < 0x100_0000,
        key_type(type_key(id, version)) == (id, version),
{
    assert((id as int) * 256 + (version as int) < 0x100_0000) by (nonlinear_arith)
        requires
            id < 0x1_0000,
            version < 256,
    ;
    let k = id as int * 256 + version as int;
    assert(k / 256 == id as int && k % 256 == version as int) by (nonlinear_arith)
        requires
            k == id as int * 256 + version as int,
            0 <= version < 256,
            0 <= id,
    ;
}

/// The event types (id, version) a run has seen, and how many events it got.
/// The types are a `HashSet` keyed by `type_key` (vstd gives `HashSet` its
/// key model for integer keys, not for tuples).
#[derive(Debug)]
pub struct EventCollector {
    seen: HashSet<u32>,
    total_count: u64,
}

impl EventCollector {
    /// Every key is the key of an event type.
    #[verifier::type_invariant]
    spec fn keys_valid(self) -> bool {
        forall|k: u32| self.seen@.contains(k) ==> k < 0x100_0000
    }

    /// The event types seen so far.
    pub closed spec fn seen_types(self) -> Set<(u16, u8)> {
        Set::new(|p: (u16, u8)| self.seen@.contains(type_key(p.0, p.1)))
    }

    /// The number of events recorded.
    pub closed spec fn event_count(self) -> u64 {
        self.total_count
    }

    /// Nothing seen yet.
    pub fn new() -> (c: Self)
        ensures
            c.seen_types() == Set::<(u16, u8)>::empty(),
            c.event_count() == 0,
    {
        let c = EventCollector { seen: HashSet::new(), total_count: 0 };
        assert(c.seen_types() =~= Set::<(u16, u8)>::empty());
        c
    }

    /// The event types seen, each once, in the set's own order.
    pub fn seen(&self) -> (r: Vec<(u16, u8)>)
        ensures
            r@.to_set() == self.seen_types(),
            r@.no_duplicates(),
    {
        proof {
            use_type_invariant(self);
        }
        let mut r: Vec<(u16, u8)> = Vec::new();
        for k in it: self.seen.iter()
            invariant
                it.seq().no_duplicates(),
                it.seq().unref().to_set() == self.seen@,
                it.seq().len() == self.seen@.len(),
                forall|q: u32| self.seen@.contains(q) ==> q < 0x100_0000,
                r@.len() == it.index(),
                forall|j: int| 0 <= j < r@.len() ==> self.seen@.contains(#[trigger] type_key(r@[j].0, r@[j].1)),
                forall|j: int| 0 <= j < r@.len() ==> type_key(r@[j].0, r@[j].1) == *it.seq()[j],
                r@.no_duplicates(),
                forall|q: u32|
                    self.seen@.contains(q) && !(exists|j: int| 0 <= j < r@.len() && #[trigger] type_key(r@[j].0, r@[j].1) == q)
                        ==> exists|j: int| it.index() <= j < it.seq().len() && *it.seq()[j] == q,
        {
            let ghost idx = it.index();
            let ghost ks = it.seq().unref();
            let ghost r0 = r@;
            proof {
                assert(ks[idx] == *k);
                assert(ks.to_set().contains(*k));
                assert(self.seen@.contains(*k));
                let kk = *k;
                assert(kk == (kk / 256) * 256 + kk % 256 && kk / 256 < 0x1_0000) by (nonlinear_arith)
                    requires kk < 0x100_0000;
            }
            r.push(((*k / 256) as u16, (*k % 256) as u8));
            proof {
                let kk = *k;
                assert(type_key(r@[idx].0, r@[idx].1) == kk);
                assert forall|a: int, b: int| 0 <= a < b < r@.len() implies r@[a] != r@[b] by {
                    if b == idx {
                        assert(r@[a] == r0[a]);
                        assert(type_key(r0[a].0, r0[a].1) == *it.seq()[a]);
                        assert(it.seq()[a] != it.seq()[idx]);
                    } else {
                        assert(r@[a] == r0[a] && r@[b] == r0[b]);
                    }
                }
                assert forall|q: u32|
                    self.seen@.contains(q) && !(exists|j: int| 0 <= j < r@.len() && #[trigger] type_key(r@[j].0, r@[j].1) == q)
                        implies exists|j: int| idx + 1 <= j < it.seq().len() && *it.seq()[j] == q by {
                    assert(type_key(r@[idx].0, r@[idx].1) == kk);
                    assert(q != kk);
                    assert forall|j: int| 0 <= j < r0.len() implies type_key(r0[j].0, r0[j].1) != q by {
                        assert(r@[j] == r0[j]);
                    }
                    let j = choose|j: int| idx <= j < it.seq().len() && *it.seq()[j] == q;
                    assert(j != idx);
                }
            }
        }
        proof {
            assert forall|p: (u16, u8)| r@.to_set().contains(p) <==> self.seen_types().contains(p) by {
                lemma_type_key(p.0, p.1);
                if r@.to_set().contains(p) {
                    let j = choose|j: int| 0 <= j < r@.len() && r@[j] == p;
                    assert(self.seen@.contains(type_key(r@[j].0, r@[j].1)));
                }
                if self.seen_types().contains(p) {
                    let q = type_key(p.0, p.1);
                    assert(self.seen@.contains(q));
                    let j = choose|j: int| 0 <= j < r@.len() && #[trigger] type_key(r@[j].0, r@[j].1) == q;
                    lemma_type_key(r@[j].0, r@[j].1);
                    assert(key_type(q) == p);
                    assert(r@[j] == p);
                }
            }
            assert(r@.to_set() =~= self.seen_types());
        }
        r
    }

    /// The number of events recorded.
    pub fn total_count(&self) -> (n: u64)
        ensures
            n == self.event_count(),
    {
        self.total_count
    }

    /// Records one event of type (`id`, `version`).
    pub fn record_event(&mut self, id: u16, version: u8)
        requires
            old(self).event_count() < u64::MAX,
        ensures
            final(self).seen_types() == old(self).seen_types().insert((id, version)),
            final(self).event_count() == old(self).event_count() + 1,
    {
        proof {
            use_type_invariant(&*self);
            lemma_type_key(id, version);
        }
        let ghost before = self.seen@;
        let mut keys: HashSet<u32> = HashSet::new();
        std::mem::swap(&mut keys, &mut self.seen);
        keys.insert(id as u32 * 256 + version as u32);
        self.seen = keys;
        self.total_count = self.total_count + 1;
        proof {
            assert forall|p: (u16, u8)| self.seen_types().contains(p) <==> old(self).seen_types().insert((id, version)).contains(p) by {
                lemma_type_key(p.0, p.1);
                if type_key(p.0, p.1) == type_key(id, version) {
                    assert(key_type(type_key(p.0, p.1)) == key_type(type_key(id, version)));
                }
            }
            assert(self.seen_types() =~= old(self).seen_types().insert((id, version)));
        }
    }
}

/// The session a flag value is run with: one of the four single-flag kernel
/// providers, or, for any other value, the group mask of the flags it holds.
#[derive(Debug, Clone, Copy, PartialEq, Eq)]
pub enum FlagSession {
    FileIoInit,
    FileIo,
    DiskFileIo,
    Vamap,
    GroupMask([u32; 8]),
}

/// The group mask for a combination of EnableFlags: the PERF group of each flag
/// it holds (FILE_IO_INIT, FILE_IO, DISK_FILE_IO, VAMAP, in that order).
pub open spec fn combined_mask(flags: u32) -> Seq<u32> {
    let m0 = zero_masks();
    let m1 = if flags & EVENT_TRACE_FLAG_FILE_IO_INIT != 0 { with_flag(m0, PERF_FILE_IO_INIT) } else { m0 };
    let m2 = if flags & EVENT_TRACE_FLAG_FILE_IO != 0 { with_flag(m1, PERF_FILE_IO) } else { m1 };
    let m3 = if flags & EVENT_TRACE_FLAG_DISK_FILE_IO != 0 { with_flag(m2, PERF_FILENAME) } else { m2 };
    if flags & EVENT_TRACE_FLAG_VAMAP != 0 { with_flag(m3, PERF_VAMAP) } else { m3 }
}

/// How a test of EnableFlags value `flags` is run.
pub fn flag_session(flags: u32) -> (s: FlagSession)
    ensures
        flags == EVENT_TRACE_FLAG_FILE_IO_INIT ==> s == FlagSession::FileIoInit,
        flags == EVENT_TRACE_FLAG_FILE_IO ==> s == FlagSession::FileIo,
        flags == EVENT_TRACE_FLAG_DISK_FILE_IO ==> s == FlagSession::DiskFileIo,
        flags == EVENT_TRACE_FLAG_VAMAP ==> s == FlagSession::Vamap,
        flags != EVENT_TRACE_FLAG_FILE_IO_INIT && flags != EVENT_TRACE_FLAG_FILE_IO && flags
            != EVENT_TRACE_FLAG_DISK_FILE_IO && flags != EVENT_TRACE_FLAG_VAMAP ==> (s matches FlagSession::GroupMask(m)
            && m@ == combined_mask(flags)),
{
    if flags == EVENT_TRACE_FLAG_FILE_IO_INIT {
        FlagSession::FileIoInit
    } else if flags == EVENT_TRACE_FLAG_FILE_IO {
        FlagSession::FileIo
    } else if flags == EVENT_TRACE_FLAG_DISK_FILE_IO {
        FlagSession::DiskFileIo
    } else if flags == EVENT_TRACE_FLAG_VAMAP {
        FlagSession::Vamap
    } else {
        let mut masks = [0u32; 8];
        assert(masks@ =~= zero_masks());
        if flags & EVENT_TRACE_FLAG_FILE_IO_INIT != 0 {
            set_mask(&mut masks, PERF_FILE_IO_INIT);
        }
        if flags & EVENT_TRACE_FLAG_FILE_IO != 0 {
            set_mask(&mut masks, PERF_FILE_IO);
        }
        if flags & EVENT_TRACE_FLAG_DISK_FILE_IO != 0 {
            set_mask(&mut masks, PERF_FILENAME);
        }
        if flags & EVENT_TRACE_FLAG_VAMAP != 0 {
            set_mask(&mut masks, PERF_VAMAP);
        }
        FlagSession::GroupMask(masks)
    }
}

/// The MOF class whose fields a kernel FileIo opcode carries.
#[derive(Debug, Clone, Copy, PartialEq, Eq, Structural)]
pub enum FileIoClass {
    Name,
    Create,
    SimpleOp,
    ReadWrite,
    Info,
    DirEnum,
    OpEnd,
}

/// The class of the fields of opcode `op`, if the example parses it.
pub open spec fn class_of(op: u8) -> Option<FileIoClass> {
    if op == 0 || op == 32 || op == 35 || op == 36 {
        Some(FileIoClass::Name)
    } else if op == 64 {
        Some(FileIoClass::Create)
    } else if op == 65 || op == 66 || op == 73 {
        Some(FileIoClass::SimpleOp)
    } else if op == 67 || op == 68 {
        Some(FileIoClass::ReadWrite)
    } else if op == 69 || op == 70 || op == 71 || op == 74 || op == 75 {
        Some(FileIoClass::Info)
    } else if op == 72 || op == 77 {
        Some(FileIoClass::DirEnum)
    } else if op == 76 {
        Some(FileIoClass::OpEnd)
    } else {
        None
    }
}

/// Which MOF class the fields of a FileIo event of opcode `op` are read as.
pub fn event_class(op: u8) -> (c: Option<FileIoClass>)
    ensures
        c == class_of(op),
{
    match op {
        0 | 32 | 35 | 36 => Some(FileIoClass::Name),
        64 => Some(FileIoClass::Create),
        65 | 66 | 73 => Some(FileIoClass::SimpleOp),
        67 | 68 => Some(FileIoClass::ReadWrite),
        69 | 70 | 71 | 74 | 75 => Some(FileIoClass::Info),
        72 | 77 => Some(FileIoClass::DirEnum),
        76 => Some(FileIoClass::OpEnd),
        _ => None,
    }
}

/// The name of a kernel FileIo opcode as the trace example prints it.
pub open spec fn opcode_name_text(op: u8) -> Seq<char> {
    if op == 0 { "Name"@ }
    else if op == 32 { "FileCreate"@ }
    else if op == 35 { "FileDelete"@ }
    else if op == 36 { "FileRundown"@ }
    else if op == 64 { "Create"@ }
    else if op == 65 { "Cleanup"@ }
    else if op == 66 { "Close"@ }
    else if op == 67 { "Read"@ }
    else if op == 68 { "Write"@ }
    else if op == 69 { "SetInfo"@ }
    else if op == 70 { "Delete"@ }
    else if op == 71 { "Rename"@ }
    else if op == 72 { "DirEnum"@ }
    else if op == 73 { "Flush"@ }
    else if op == 74 { "QueryInfo"@ }
    else if op == 75 { "FSControl"@ }
    else if op == 76 { "OperationEnd"@ }
    else if op == 77 { "DirNotify"@ }
    else { "Unknown"@ }
}

/// The name of a kernel FileIo opcode as the trace example prints it.
pub fn opcode_name(op: u8) -> (s: &'static str)
    ensures
        s@ == opcode_name_text(op),
{
    match op {
        0 => "Name",
        32 => "FileCreate",
        35 => "FileDelete",
        36 => "FileRundown",
        64 => "Create",
        65 => "Cleanup",
        66 => "Close",
        67 => "Read",
        68 => "Write",
        69 => "SetInfo",
        70 => "Delete",
        71 => "Rename",
        72 => "DirEnum",
        73 => "Flush",
        74 => "QueryInfo",
        75 => "FSControl",
        76 => "OperationEnd",
        77 => "DirNotify",
        _ => "Unknown",
    }
}

} // verus!
