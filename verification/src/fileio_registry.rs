//! Registry of the known FileIo events (event id and version, MOF class, name,
//! description) and the logging of received events, with one warning per
//! unknown event type.

use vstd::prelude::*;
use crate::log_format::{LogLevel, LogRecord};
use crate::text::{dec, owned, push_dec, push_str};

verus! {

/// A known FileIo event type.
#[derive(Debug, Clone, Copy)]
pub struct FileIoEventDef {
    pub event_id: u16,
    pub version: u8,
    pub class_name: &'static str,
    pub event_name: &'static str,
    pub description: &'static str,
}

/// A received FileIo event.
#[derive(Debug, Clone, Copy, PartialEq, Eq)]
pub struct FileIoEvent {
    pub event_id: u16,
    pub version: u8,
    pub timestamp: u64,
    pub process_id: u32,
    pub thread_id: u32,
}

/// The known FileIo events, ordered by event id and then version.
pub open spec fn registry() -> Seq<FileIoEventDef> {
    seq![
        FileIoEventDef { event_id: 0, version: 0, class_name: "FileIo_V0_Name", event_name: "Name", description: "File name event (V0)" },
        FileIoEventDef { event_id: 0, version: 1, class_name: "FileIo_V1_Name", event_name: "Name", description: "File name event (V1)" },
        FileIoEventDef { event_id: 0, version: 2, class_name: "FileIo_V2_Name", event_name: "Name", description: "File name event (V2)" },
        FileIoEventDef { event_id: 0, version: 3, class_name: "FileIo_Name", event_name: "Name", description: "File name event (V3)" },
        FileIoEventDef { event_id: 32, version: 1, class_name: "FileIo_V1_Name", event_name: "FileCreate", description: "File create event (V1)" },
        FileIoEventDef { event_id: 32, version: 2, class_name: "FileIo_V2_Name", event_name: "FileCreate", description: "File create event (V2)" },
        FileIoEventDef { event_id: 32, version: 3, class_name: "FileIo_Name", event_name: "FileCreate", description: "File create event (V3)" },
        FileIoEventDef { event_id: 35, version: 2, class_name: "FileIo_V2_Name", event_name: "FileDelete", description: "File delete event (V2)" },
        FileIoEventDef { event_id: 35, version: 3, class_name: "FileIo_Name", event_name: "FileDelete", description: "File delete event (V3)" },
        FileIoEventDef { event_id: 36, version: 2, class_name: "FileIo_V2_Name", event_name: "FileRundown", description: "File rundown event (V2)" },
        FileIoEventDef { event_id: 36, version: 3, class_name: "FileIo_Name", event_name: "FileRundown", description: "File rundown event (V3)" },
        FileIoEventDef { event_id: 37, version: 2, class_name: "FileIo_V2_MapFile", event_name: "MapFile", description: "Memory-mapped file event (V2)" },
        FileIoEventDef { event_id: 38, version: 2, class_name: "FileIo_V2_MapFile", event_name: "UnmapFile", description: "Memory-unmap file event (V2)" },
        FileIoEventDef { event_id: 39, version: 2, class_name: "FileIo_V2_MapFile", event_name: "MapFileDCStart", description: "Memory-mapped file DC start event (V2)" },
        FileIoEventDef { event_id: 40, version: 2, class_name: "FileIo_V2_MapFile", event_name: "MapFileDCEnd", description: "Memory-mapped file DC end event (V2)" },
        FileIoEventDef { event_id: 64, version: 2, class_name: "FileIo_V2_Create", event_name: "Create", description: "File create event (V2)" },
        FileIoEventDef { event_id: 64, version: 3, class_name: "FileIo_Create", event_name: "Create", description: "File create event (V3)" },
        FileIoEventDef { event_id: 65, version: 2, class_name: "FileIo_V2_SimpleOp", event_name: "Cleanup", description: "File cleanup event (V2)" },
        FileIoEventDef { event_id: 65, version: 3, class_name: "FileIo_SimpleOp", event_name: "Cleanup", description: "File cleanup event (V3)" },
        FileIoEventDef { event_id: 66, version: 2, class_name: "FileIo_V2_SimpleOp", event_name: "Close", description: "File close event (V2)" },
        FileIoEventDef { event_id: 66, version: 3, class_name: "FileIo_SimpleOp", event_name: "Close", description: "File close event (V3)" },
        FileIoEventDef { event_id: 67, version: 2, class_name: "FileIo_V2_ReadWrite", event_name: "Read", description: "File read event (V2)" },
        FileIoEventDef { event_id: 67, version: 3, class_name: "FileIo_ReadWrite", event_name: "Read", description: "File read event (V3)" },
        FileIoEventDef { event_id: 68, version: 2, class_name: "FileIo_V2_ReadWrite", event_name: "Write", description: "File write event (V2)" },
        FileIoEventDef { event_id: 68, version: 3, class_name: "FileIo_ReadWrite", event_name: "Write", description: "File write event (V3)" },
        FileIoEventDef { event_id: 69, version: 2, class_name: "FileIo_V2_Info", event_name: "SetInfo", description: "File set info event (V2)" },
        FileIoEventDef { event_id: 69, version: 3, class_name: "FileIo_Info", event_name: "SetInfo", description: "File set info event (V3)" },
        FileIoEventDef { event_id: 70, version: 2, class_name: "FileIo_V2_Info", event_name: "Delete", description: "File delete info event (V2)" },
        FileIoEventDef { event_id: 70, version: 3, class_name: "FileIo_Info", event_name: "Delete", description: "File delete info event (V3)" },
        FileIoEventDef { event_id: 71, version: 2, class_name: "FileIo_V2_Info", event_name: "Rename", description: "File rename event (V2)" },
        FileIoEventDef { event_id: 71, version: 3, class_name: "FileIo_Info", event_name: "Rename", description: "File rename event (V3)" },
        FileIoEventDef { event_id: 72, version: 2, class_name: "FileIo_V2_DirEnum", event_name: "DirEnum", description: "Directory enumeration event (V2)" },
        FileIoEventDef { event_id: 72, version: 3, class_name: "FileIo_DirEnum", event_name: "DirEnum", description: "Directory enumeration event (V3)" },
        FileIoEventDef { event_id: 73, version: 2, class_name: "FileIo_V2_SimpleOp", event_name: "Flush", description: "File flush event (V2)" },
        FileIoEventDef { event_id: 73, version: 3, class_name: "FileIo_SimpleOp", event_name: "Flush", description: "File flush event (V3)" },
        FileIoEventDef { event_id: 74, version: 2, class_name: "FileIo_V2_Info", event_name: "QueryInfo", description: "File query info event (V2)" },
        FileIoEventDef { event_id: 74, version: 3, class_name: "FileIo_Info", event_name: "QueryInfo", description: "File query info event (V3)" },
        FileIoEventDef { event_id: 75, version: 2, class_name: "FileIo_V2_Info", event_name: "FSControl", description: "File system control event (V2)" },
        FileIoEventDef { event_id: 75, version: 3, class_name: "FileIo_Info", event_name: "FSControl", description: "File system control event (V3)" },
        FileIoEventDef { event_id: 76, version: 2, class_name: "FileIo_V2_OpEnd", event_name: "OperationEnd", description: "File operation end event (V2)" },
        FileIoEventDef { event_id: 76, version: 3, class_name: "FileIo_OpEnd", event_name: "OperationEnd", description: "File operation end event (V3)" },
        FileIoEventDef { event_id: 77, version: 2, class_name: "FileIo_V2_DirEnum", event_name: "DirNotify", description: "Directory notification event (V2)" },
        FileIoEventDef { event_id: 77, version: 3, class_name: "FileIo_DirEnum", event_name: "DirNotify", description: "Directory notification event (V3)" },
        FileIoEventDef { event_id: 79, version: 3, class_name: "FileIo_PathOperation", event_name: "DeletePath", description: "File path delete event (V3)" },
        FileIoEventDef { event_id: 80, version: 3, class_name: "FileIo_PathOperation", event_name: "RenamePath", description: "File path rename event (V3)" },
        FileIoEventDef { event_id: 81, version: 3, class_name: "FileIo_PathOperation", event_name: "SetLinkPath", description: "File path set link event (V3)" },
        FileIoEventDef { event_id: 96, version: 3, class_name: "FltIoInit", event_name: "PreOpInit", description: "Minifilter pre-operation init event (V3)" },
        FileIoEventDef { event_id: 97, version: 3, class_name: "FltIoInit", event_name: "PostOpInit", description: "Minifilter post-operation init event (V3)" },
        FileIoEventDef { event_id: 98, version: 3, class_name: "FltIoCompletion", event_name: "PreOpCompletion", description: "Minifilter pre-operation completion event (V3)" },
        FileIoEventDef { event_id: 99, version: 3, class_name: "FltIoCompletion", event_name: "PostOpCompletion", description: "Minifilter post-operation completion event (V3)" },
        FileIoEventDef { event_id: 100, version: 3, class_name: "FltIoFailure", event_name: "PreOpFailure", description: "Minifilter pre-operation failure event (V3)" },
        FileIoEventDef { event_id: 101, version: 3, class_name: "FltIoFailure", event_name: "PostOpFailure", description: "Minifilter post-operation failure event (V3)" },
    ]
}

/// The known FileIo events, ordered by event id and then version.
pub fn event_registry() -> (defs: Vec<FileIoEventDef>)
    ensures
        defs@ == registry(),
{
    let mut defs: Vec<FileIoEventDef> = Vec::new();
    defs.push(FileIoEventDef { event_id: 0, version: 0, class_name: "FileIo_V0_Name", event_name: "Name", description: "File name event (V0)" });
    defs.push(FileIoEventDef { event_id: 0, version: 1, class_name: "FileIo_V1_Name", event_name: "Name", description: "File name event (V1)" });
    defs.push(FileIoEventDef { event_id: 0, version: 2, class_name: "FileIo_V2_Name", event_name: "Name", description: "File name event (V2)" });
    defs.push(FileIoEventDef { event_id: 0, version: 3, class_name: "FileIo_Name", event_name: "Name", description: "File name event (V3)" });
    defs.push(FileIoEventDef { event_id: 32, version: 1, class_name: "FileIo_V1_Name", event_name: "FileCreate", description: "File create event (V1)" });
    defs.push(FileIoEventDef { event_id: 32, version: 2, class_name: "FileIo_V2_Name", event_name: "FileCreate", description: "File create event (V2)" });
    defs.push(FileIoEventDef { event_id: 32, version: 3, class_name: "FileIo_Name", event_name: "FileCreate", description: "File create event (V3)" });
    defs.push(FileIoEventDef { event_id: 35, version: 2, class_name: "FileIo_V2_Name", event_name: "FileDelete", description: "File delete event (V2)" });
    defs.push(FileIoEventDef { event_id: 35, version: 3, class_name: "FileIo_Name", event_name: "FileDelete", description: "File delete event (V3)" });
    defs.push(FileIoEventDef { event_id: 36, version: 2, class_name: "FileIo_V2_Name", event_name: "FileRundown", description: "File rundown event (V2)" });
    defs.push(FileIoEventDef { event_id: 36, version: 3, class_name: "FileIo_Name", event_name: "FileRundown", description: "File rundown event (V3)" });
    defs.push(FileIoEventDef { event_id: 37, version: 2, class_name: "FileIo_V2_MapFile", event_name: "MapFile", description: "Memory-mapped file event (V2)" });
    defs.push(FileIoEventDef { event_id: 38, version: 2, class_name: "FileIo_V2_MapFile", event_name: "UnmapFile", description: "Memory-unmap file event (V2)" });
    defs.push(FileIoEventDef { event_id: 39, version: 2, class_name: "FileIo_V2_MapFile", event_name: "MapFileDCStart", description: "Memory-mapped file DC start event (V2)" });
    defs.push(FileIoEventDef { event_id: 40, version: 2, class_name: "FileIo_V2_MapFile", event_name: "MapFileDCEnd", description: "Memory-mapped file DC end event (V2)" });
    defs.push(FileIoEventDef { event_id: 64, version: 2, class_name: "FileIo_V2_Create", event_name: "Create", description: "File create event (V2)" });
    defs.push(FileIoEventDef { event_id: 64, version: 3, class_name: "FileIo_Create", event_name: "Create", description: "File create event (V3)" });
    defs.push(FileIoEventDef { event_id: 65, version: 2, class_name: "FileIo_V2_SimpleOp", event_name: "Cleanup", description: "File cleanup event (V2)" });
    defs.push(FileIoEventDef { event_id: 65, version: 3, class_name: "FileIo_SimpleOp", event_name: "Cleanup", description: "File cleanup event (V3)" });
    defs.push(FileIoEventDef { event_id: 66, version: 2, class_name: "FileIo_V2_SimpleOp", event_name: "Close", description: "File close event (V2)" });
    defs.push(FileIoEventDef { event_id: 66, version: 3, class_name: "FileIo_SimpleOp", event_name: "Close", description: "File close event (V3)" });
    defs.push(FileIoEventDef { event_id: 67, version: 2, class_name: "FileIo_V2_ReadWrite", event_name: "Read", description: "File read event (V2)" });
    defs.push(FileIoEventDef { event_id: 67, version: 3, class_name: "FileIo_ReadWrite", event_name: "Read", description: "File read event (V3)" });
    defs.push(FileIoEventDef { event_id: 68, version: 2, class_name: "FileIo_V2_ReadWrite", event_name: "Write", description: "File write event (V2)" });
    defs.push(FileIoEventDef { event_id: 68, version: 3, class_name: "FileIo_ReadWrite", event_name: "Write", description: "File write event (V3)" });
    defs.push(FileIoEventDef { event_id: 69, version: 2, class_name: "FileIo_V2_Info", event_name: "SetInfo", description: "File set info event (V2)" });
    defs.push(FileIoEventDef { event_id: 69, version: 3, class_name: "FileIo_Info", event_name: "SetInfo", description: "File set info event (V3)" });
    defs.push(FileIoEventDef { event_id: 70, version: 2, class_name: "FileIo_V2_Info", event_name: "Delete", description: "File delete info event (V2)" });
    defs.push(FileIoEventDef { event_id: 70, version: 3, class_name: "FileIo_Info", event_name: "Delete", description: "File delete info event (V3)" });
    defs.push(FileIoEventDef { event_id: 71, version: 2, class_name: "FileIo_V2_Info", event_name: "Rename", description: "File rename event (V2)" });
    defs.push(FileIoEventDef { event_id: 71, version: 3, class_name: "FileIo_Info", event_name: "Rename", description: "File rename event (V3)" });
    defs.push(FileIoEventDef { event_id: 72, version: 2, class_name: "FileIo_V2_DirEnum", event_name: "DirEnum", description: "Directory enumeration event (V2)" });
    defs.push(FileIoEventDef { event_id: 72, version: 3, class_name: "FileIo_DirEnum", event_name: "DirEnum", description: "Directory enumeration event (V3)" });
    defs.push(FileIoEventDef { event_id: 73, version: 2, class_name: "FileIo_V2_SimpleOp", event_name: "Flush", description: "File flush event (V2)" });
    defs.push(FileIoEventDef { event_id: 73, version: 3, class_name: "FileIo_SimpleOp", event_name: "Flush", description: "File flush event (V3)" });
    defs.push(FileIoEventDef { event_id: 74, version: 2, class_name: "FileIo_V2_Info", event_name: "QueryInfo", description: "File query info event (V2)" });
    defs.push(FileIoEventDef { event_id: 74, version: 3, class_name: "FileIo_Info", event_name: "QueryInfo", description: "File query info event (V3)" });
    defs.push(FileIoEventDef { event_id: 75, version: 2, class_name: "FileIo_V2_Info", event_name: "FSControl", description: "File system control event (V2)" });
    defs.push(FileIoEventDef { event_id: 75, version: 3, class_name: "FileIo_Info", event_name: "FSControl", description: "File system control event (V3)" });
    defs.push(FileIoEventDef { event_id: 76, version: 2, class_name: "FileIo_V2_OpEnd", event_name: "OperationEnd", description: "File operation end event (V2)" });
    defs.push(FileIoEventDef { event_id: 76, version: 3, class_name: "FileIo_OpEnd", event_name: "OperationEnd", description: "File operation end event (V3)" });
    defs.push(FileIoEventDef { event_id: 77, version: 2, class_name: "FileIo_V2_DirEnum", event_name: "DirNotify", description: "Directory notification event (V2)" });
    defs.push(FileIoEventDef { event_id: 77, version: 3, class_name: "FileIo_DirEnum", event_name: "DirNotify", description: "Directory notification event (V3)" });
    defs.push(FileIoEventDef { event_id: 79, version: 3, class_name: "FileIo_PathOperation", event_name: "DeletePath", description: "File path delete event (V3)" });
    defs.push(FileIoEventDef { event_id: 80, version: 3, class_name: "FileIo_PathOperation", event_name: "RenamePath", description: "File path rename event (V3)" });
    defs.push(FileIoEventDef { event_id: 81, version: 3, class_name: "FileIo_PathOperation", event_name: "SetLinkPath", description: "File path set link event (V3)" });
    defs.push(FileIoEventDef { event_id: 96, version: 3, class_name: "FltIoInit", event_name: "PreOpInit", description: "Minifilter pre-operation init event (V3)" });
    defs.push(FileIoEventDef { event_id: 97, version: 3, class_name: "FltIoInit", event_name: "PostOpInit", description: "Minifilter post-operation init event (V3)" });
    defs.push(FileIoEventDef { event_id: 98, version: 3, class_name: "FltIoCompletion", event_name: "PreOpCompletion", description: "Minifilter pre-operation completion event (V3)" });
    defs.push(FileIoEventDef { event_id: 99, version: 3, class_name: "FltIoCompletion", event_name: "PostOpCompletion", description: "Minifilter post-operation completion event (V3)" });
    defs.push(FileIoEventDef { event_id: 100, version: 3, class_name: "FltIoFailure", event_name: "PreOpFailure", description: "Minifilter pre-operation failure event (V3)" });
    defs.push(FileIoEventDef { event_id: 101, version: 3, class_name: "FltIoFailure", event_name: "PostOpFailure", description: "Minifilter post-operation failure event (V3)" });
    assert(defs@ =~= registry());
    defs
}

/// The order of the registry: by event id, then by version.
pub open spec fn reg_rank(e: FileIoEventDef) -> int {
    e.event_id as int * 0x100 + e.version as int
}

proof fn lemma_rank_step(t: Seq<FileIoEventDef>, j: int, k: int)
    requires
        0 <= j < k < t.len(),
        forall|m: int| 0 <= m < t.len() - 1 ==> reg_rank(#[trigger] t[m]) < reg_rank(t[m + 1]),
    ensures
        reg_rank(t[j]) < reg_rank(t[k]),
    decreases k - j,
{
    if k > j + 1 {
        lemma_rank_step(t, j, k - 1);
        assert(reg_rank(t[k - 1]) < reg_rank(t[k]));
    } else {
        assert(reg_rank(t[j]) < reg_rank(t[j + 1]));
    }
}

/// The registry is strictly ordered by event id and version.
pub proof fn lemma_registry_sorted()
    ensures
        forall|j: int, k: int|
            0 <= j < k < registry().len() ==> reg_rank(registry()[j]) < reg_rank(registry()[k]),
{
    let t = registry();
    assert(reg_rank(t[0]) < reg_rank(t[1]));
    assert(reg_rank(t[1]) < reg_rank(t[2]));
    assert(reg_rank(t[2]) < reg_rank(t[3]));
    assert(reg_rank(t[3]) < reg_rank(t[4]));
    assert(reg_rank(t[4]) < reg_rank(t[5]));
    assert(reg_rank(t[5]) < reg_rank(t[6]));
    assert(reg_rank(t[6]) < reg_rank(t[7]));
    assert(reg_rank(t[7]) < reg_rank(t[8]));
    assert(reg_rank(t[8]) < reg_rank(t[9]));
    assert(reg_rank(t[9]) < reg_rank(t[10]));
    assert(reg_rank(t[10]) < reg_rank(t[11]));
    assert(reg_rank(t[11]) < reg_rank(t[12]));
    assert(reg_rank(t[12]) < reg_rank(t[13]));
    assert(reg_rank(t[13]) < reg_rank(t[14]));
    assert(reg_rank(t[14]) < reg_rank(t[15]));
    assert(reg_rank(t[15]) < reg_rank(t[16]));
    assert(reg_rank(t[16]) < reg_rank(t[17]));
    assert(reg_rank(t[17]) < reg_rank(t[18]));
    assert(reg_rank(t[18]) < reg_rank(t[19]));
    assert(reg_rank(t[19]) < reg_rank(t[20]));
    assert(reg_rank(t[20]) < reg_rank(t[21]));
    assert(reg_rank(t[21]) < reg_rank(t[22]));
    assert(reg_rank(t[22]) < reg_rank(t[23]));
    assert(reg_rank(t[23]) < reg_rank(t[24]));
    assert(reg_rank(t[24]) < reg_rank(t[25]));
    assert(reg_rank(t[25]) < reg_rank(t[26]));
    assert(reg_rank(t[26]) < reg_rank(t[27]));
    assert(reg_rank(t[27]) < reg_rank(t[28]));
    assert(reg_rank(t[28]) < reg_rank(t[29]));
    assert(reg_rank(t[29]) < reg_rank(t[30]));
    assert(reg_rank(t[30]) < reg_rank(t[31]));
    assert(reg_rank(t[31]) < reg_rank(t[32]));
    assert(reg_rank(t[32]) < reg_rank(t[33]));
    assert(reg_rank(t[33]) < reg_rank(t[34]));
    assert(reg_rank(t[34]) < reg_rank(t[35]));
    assert(reg_rank(t[35]) < reg_rank(t[36]));
    assert(reg_rank(t[36]) < reg_rank(t[37]));
    assert(reg_rank(t[37]) < reg_rank(t[38]));
    assert(reg_rank(t[38]) < reg_rank(t[39]));
    assert(reg_rank(t[39]) < reg_rank(t[40]));
    assert(reg_rank(t[40]) < reg_rank(t[41]));
    assert(reg_rank(t[41]) < reg_rank(t[42]));
    assert(reg_rank(t[42]) < reg_rank(t[43]));
    assert(reg_rank(t[43]) < reg_rank(t[44]));
    assert(reg_rank(t[44]) < reg_rank(t[45]));
    assert(reg_rank(t[45]) < reg_rank(t[46]));
    assert(reg_rank(t[46]) < reg_rank(t[47]));
    assert(reg_rank(t[47]) < reg_rank(t[48]));
    assert(reg_rank(t[48]) < reg_rank(t[49]));
    assert(reg_rank(t[49]) < reg_rank(t[50]));
    assert(reg_rank(t[50]) < reg_rank(t[51]));
    assert forall|j: int, k: int| 0 <= j < k < t.len() implies reg_rank(t[j]) < reg_rank(t[k]) by {
        lemma_rank_step(t, j, k);
    }
}

/// `t[i]` has key (`id`, `version`).
pub open spec fn has_key(t: Seq<FileIoEventDef>, i: int, id: u16, version: u8) -> bool {
    0 <= i < t.len() && t[i].event_id == id && t[i].version == version
}

/// The definition of event `id` at `version`, if the registry knows it.
pub fn lookup_event(id: u16, version: u8) -> (r: Option<FileIoEventDef>)
    ensures
        match r {
            Some(e) => exists|i: int| has_key(registry(), i, id, version) && registry()[i] == e,
            None => forall|i: int| !has_key(registry(), i, id, version),
        },
{
    let defs = event_registry();
    let mut i: usize = 0;
    while i < defs.len()
        invariant
            i <= defs@.len(),
            defs@ == registry(),
            forall|j: int| 0 <= j < i ==> !has_key(registry(), j, id, version),
        decreases defs.len() - i,
    {
        if defs[i].event_id == id && defs[i].version == version {
            assert(has_key(registry(), i as int, id, version));
            return Some(defs[i]);
        }
        i = i + 1;
    }
    None
}

/// Each registry entry is the only one with its key, so looking up its key
/// finds it.
pub proof fn law_registry_keys_unique(i: int, j: int)
    requires
        0 <= i < registry().len(),
        0 <= j < registry().len(),
        registry()[i].event_id == registry()[j].event_id,
        registry()[i].version == registry()[j].version,
    ensures
        i == j,
{
    lemma_registry_sorted();
    if i < j {
        assert(reg_rank(registry()[i]) < reg_rank(registry()[j]));
    } else if j < i {
        assert(reg_rank(registry()[j]) < reg_rank(registry()[i]));
    }
}

/// The event keys that have already been warned about as unknown.
pub struct UnknownEventTracker {
    warned: Vec<(u16, u8)>,
}

impl UnknownEventTracker {
    /// The keys warned about so far, in order.
    pub closed spec fn warned(&self) -> Seq<(u16, u8)> {
        self.warned@
    }

    /// A tracker that has warned about nothing.
    pub fn new() -> (t: Self)
        ensures
            t.warned() == Seq::<(u16, u8)>::empty(),
    {
        UnknownEventTracker { warned: Vec::new() }
    }
}

/// The registry knows event `id` at `version`.
pub open spec fn is_known(id: u16, version: u8) -> bool {
    exists|i: int| has_key(registry(), i, id, version)
}

/// The level at which an event is logged: trace for a known one, a warning the
/// first time an unknown one is seen, debug after that.
pub open spec fn event_level(warned: Seq<(u16, u8)>, id: u16, version: u8) -> LogLevel {
    if is_known(id, version) {
        LogLevel::Trace
    } else if warned.contains((id, version)) {
        LogLevel::Debug
    } else {
        LogLevel::Warn
    }
}

/// The warned keys after logging an event.
pub open spec fn warned_after(warned: Seq<(u16, u8)>, id: u16, version: u8) -> Seq<(u16, u8)> {
    if event_level(warned, id, version) == LogLevel::Warn {
        warned.push((id, version))
    } else {
        warned
    }
}

/// The message logged for an event.
pub open spec fn event_message(
    warned: Seq<(u16, u8)>,
    id: u16,
    version: u8,
    process_id: u32,
    thread_id: u32,
) -> Seq<char> {
    if is_known(id, version) {
        let e = registry()[choose|i: int| has_key(registry(), i, id, version)];
        "FileIo Event: "@ + e.event_name@ + " (ID="@ + dec(id as nat) + ", Version="@ + dec(
            version as nat,
        ) + ", Class="@ + e.class_name@ + ") PID="@ + dec(process_id as nat) + " TID="@ + dec(
            thread_id as nat,
        )
    } else if warned.contains((id, version)) {
        "Unknown FileIo event: ID="@ + dec(id as nat) + ", Version="@ + dec(version as nat)
            + " (PID="@ + dec(process_id as nat) + ", TID="@ + dec(thread_id as nat) + ")"@
    } else {
        "Unknown FileIo event: ID="@ + dec(id as nat) + ", Version="@ + dec(version as nat)
            + " (first occurrence, PID="@ + dec(process_id as nat) + ", TID="@ + dec(
            thread_id as nat,
        ) + ")"@
    }
}

fn push_ids(s: &mut String, id: u16, version: u8)
    ensures
        final(s)@ == old(s)@ + dec(id as nat) + ", Version="@ + dec(version as nat),
{
    let ghost start = s@;
    push_dec(s, id as u64);
    push_str(s, ", Version=");
    push_dec(s, version as u64);
    assert(s@ =~= start + dec(id as nat) + ", Version="@ + dec(version as nat));
}

/// The record to log for a received event, with one warning per unknown event type.
pub fn log_event(
    tracker: &mut UnknownEventTracker,
    event_id: u16,
    version: u8,
    timestamp: u64,
    process_id: u32,
    thread_id: u32,
) -> (r: LogRecord)
    ensures
        r.level == event_level(old(tracker).warned(), event_id, version),
        r.message@ == event_message(old(tracker).warned(), event_id, version, process_id, thread_id),
        final(tracker).warned() == warned_after(old(tracker).warned(), event_id, version),
{
    match lookup_event(event_id, version) {
        Some(known) => {
            proof {
                let i = choose|i: int| has_key(registry(), i, event_id, version) && registry()[i] == known;
                let c = choose|i: int| has_key(registry(), i, event_id, version);
                law_registry_keys_unique(i, c);
            }
            let mut s = owned("FileIo Event: ");
            push_str(&mut s, known.event_name);
            push_str(&mut s, " (ID=");
            push_ids(&mut s, event_id, version);
            push_str(&mut s, ", Class=");
            push_str(&mut s, known.class_name);
            push_str(&mut s, ") PID=");
            push_dec(&mut s, process_id as u64);
            push_str(&mut s, " TID=");
            push_dec(&mut s, thread_id as u64);
            LogRecord { level: LogLevel::Trace, message: s }
        },
        None => {
            let mut seen = false;
            let mut i: usize = 0;
            while i < tracker.warned.len()
                invariant
                    i <= tracker.warned@.len(),
                    seen == exists|j: int| 0 <= j < i && tracker.warned@[j] == (event_id, version),
                decreases tracker.warned.len() - i,
            {
                let (a, b) = tracker.warned[i];
                if a == event_id && b == version {
                    seen = true;
                }
                i = i + 1;
            }
            proof {
                if seen {
                    let j = choose|j: int| 0 <= j < i && tracker.warned@[j] == (event_id, version);
                    assert(tracker.warned@.contains((event_id, version)));
                } else {
                    assert(!tracker.warned@.contains((event_id, version)));
                }
            }
            let mut s = owned("Unknown FileIo event: ID=");
            push_ids(&mut s, event_id, version);
            if seen {
                push_str(&mut s, " (PID=");
            } else {
                push_str(&mut s, " (first occurrence, PID=");
            }
            push_dec(&mut s, process_id as u64);
            push_str(&mut s, ", TID=");
            push_dec(&mut s, thread_id as u64);
            push_str(&mut s, ")");
            if seen {
                LogRecord { level: LogLevel::Debug, message: s }
            } else {
                tracker.warned.push((event_id, version));
                LogRecord { level: LogLevel::Warn, message: s }
            }
        },
    }
}

/// An unknown event type is warned about once: after it has been logged, logging
/// it again is at debug level.
pub proof fn law_unknown_event_warned_once(warned: Seq<(u16, u8)>, id: u16, version: u8)
    requires
        !is_known(id, version),
    ensures
        event_level(warned_after(warned, id, version), id, version) == LogLevel::Debug,
{
    assert(warned.push((id, version))[warned.len() as int] == (id, version));
}

/// Known events are never warned about and never enter the warned list.
pub proof fn law_known_event_never_warned(warned: Seq<(u16, u8)>, id: u16, version: u8)
    requires
        is_known(id, version),
    ensures
        event_level(warned, id, version) == LogLevel::Trace,
        warned_after(warned, id, version) == warned,
{
}

} // verus!
