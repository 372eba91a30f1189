//! Known FileIo event definitions (id and version) with their names and MOF classes.

use vstd::prelude::*;

verus! {

/// Identity of a FileIo event type: its id and its version.
#[derive(Debug, Clone, Copy, PartialEq, Eq, Hash)]
pub struct EventKey {
    pub id: u16,
    pub version: u8,
}

impl EventKey {
    /// The key of event `id` at `version`.
    pub fn new(id: u16, version: u8) -> (k: EventKey)
        ensures
            k.id == id,
            k.version == version,
    {
        EventKey { id, version }
    }
}

/// Metadata of a known FileIo event type.
#[derive(Debug, Clone, Copy)]
pub struct EventInfo {
    pub key: EventKey,
    pub name: &'static str,
    pub mof_class: &'static str,
}

/// All known FileIo event definitions, grouped by version.
pub struct EventDefs;

/// FileIo version 0 definitions (Windows 2000).
pub open spec fn v0_defs() -> Seq<EventInfo> {
    seq![
        EventInfo { key: EventKey { id: 0, version: 0 }, name: "Name", mof_class: "FileIo_V0_Name" },
    ]
}

/// FileIo version 1 definitions (Windows XP).
pub open spec fn v1_defs() -> Seq<EventInfo> {
    seq![
        EventInfo { key: EventKey { id: 0, version: 1 }, name: "Name", mof_class: "FileIo_V1_Name" },
        EventInfo { key: EventKey { id: 32, version: 1 }, name: "FileCreate", mof_class: "FileIo_V1_Name" },
    ]
}

/// FileIo version 2 definitions (Windows Vista and later).
pub open spec fn v2_defs() -> Seq<EventInfo> {
    seq![
        EventInfo { key: EventKey { id: 0, version: 2 }, name: "Name", mof_class: "FileIo_Name" },
        EventInfo { key: EventKey { id: 32, version: 2 }, name: "FileCreate", mof_class: "FileIo_Name" },
        EventInfo { key: EventKey { id: 35, version: 2 }, name: "FileDelete", mof_class: "FileIo_Name" },
        EventInfo { key: EventKey { id: 36, version: 2 }, name: "FileRundown", mof_class: "FileIo_Name" },
        EventInfo { key: EventKey { id: 37, version: 2 }, name: "MapFile", mof_class: "FileIo_V2_MapFile" },
        EventInfo { key: EventKey { id: 38, version: 2 }, name: "UnmapFile", mof_class: "FileIo_V2_MapFile" },
        EventInfo { key: EventKey { id: 39, version: 2 }, name: "MapFileDCStart", mof_class: "FileIo_V2_MapFile" },
        EventInfo { key: EventKey { id: 40, version: 2 }, name: "MapFileDCEnd", mof_class: "FileIo_V2_MapFile" },
        EventInfo { key: EventKey { id: 64, version: 2 }, name: "Create", mof_class: "FileIo_Create" },
        EventInfo { key: EventKey { id: 65, version: 2 }, name: "Cleanup", mof_class: "FileIo_SimpleOp" },
        EventInfo { key: EventKey { id: 66, version: 2 }, name: "Close", mof_class: "FileIo_SimpleOp" },
        EventInfo { key: EventKey { id: 73, version: 2 }, name: "Flush", mof_class: "FileIo_SimpleOp" },
        EventInfo { key: EventKey { id: 67, version: 2 }, name: "Read", mof_class: "FileIo_ReadWrite" },
        EventInfo { key: EventKey { id: 68, version: 2 }, name: "Write", mof_class: "FileIo_ReadWrite" },
        EventInfo { key: EventKey { id: 69, version: 2 }, name: "SetInfo", mof_class: "FileIo_Info" },
        EventInfo { key: EventKey { id: 70, version: 2 }, name: "Delete", mof_class: "FileIo_Info" },
        EventInfo { key: EventKey { id: 71, version: 2 }, name: "Rename", mof_class: "FileIo_Info" },
        EventInfo { key: EventKey { id: 74, version: 2 }, name: "QueryInfo", mof_class: "FileIo_Info" },
        EventInfo { key: EventKey { id: 75, version: 2 }, name: "FSControl", mof_class: "FileIo_Info" },
        EventInfo { key: EventKey { id: 72, version: 2 }, name: "DirEnum", mof_class: "FileIo_DirEnum" },
        EventInfo { key: EventKey { id: 77, version: 2 }, name: "DirNotify", mof_class: "FileIo_DirEnum" },
        EventInfo { key: EventKey { id: 76, version: 2 }, name: "OperationEnd", mof_class: "FileIo_OpEnd" },
        EventInfo { key: EventKey { id: 79, version: 2 }, name: "DeletePath", mof_class: "FileIo_PathOperation" },
        EventInfo { key: EventKey { id: 80, version: 2 }, name: "RenamePath", mof_class: "FileIo_PathOperation" },
        EventInfo { key: EventKey { id: 81, version: 2 }, name: "SetLinkPath", mof_class: "FileIo_PathOperation" },
    ]
}

/// FileIo version 3 definitions (current, with the minifilter events).
pub open spec fn v3_defs() -> Seq<EventInfo> {
    seq![
        EventInfo { key: EventKey { id: 0, version: 3 }, name: "Name", mof_class: "FileIo_Name" },
        EventInfo { key: EventKey { id: 32, version: 3 }, name: "FileCreate", mof_class: "FileIo_Name" },
        EventInfo { key: EventKey { id: 35, version: 3 }, name: "FileDelete", mof_class: "FileIo_Name" },
        EventInfo { key: EventKey { id: 36, version: 3 }, name: "FileRundown", mof_class: "FileIo_Name" },
        EventInfo { key: EventKey { id: 64, version: 3 }, name: "Create", mof_class: "FileIo_Create" },
        EventInfo { key: EventKey { id: 65, version: 3 }, name: "Cleanup", mof_class: "FileIo_SimpleOp" },
        EventInfo { key: EventKey { id: 66, version: 3 }, name: "Close", mof_class: "FileIo_SimpleOp" },
        EventInfo { key: EventKey { id: 73, version: 3 }, name: "Flush", mof_class: "FileIo_SimpleOp" },
        EventInfo { key: EventKey { id: 67, version: 3 }, name: "Read", mof_class: "FileIo_ReadWrite" },
        EventInfo { key: EventKey { id: 68, version: 3 }, name: "Write", mof_class: "FileIo_ReadWrite" },
        EventInfo { key: EventKey { id: 69, version: 3 }, name: "SetInfo", mof_class: "FileIo_Info" },
        EventInfo { key: EventKey { id: 70, version: 3 }, name: "Delete", mof_class: "FileIo_Info" },
        EventInfo { key: EventKey { id: 71, version: 3 }, name: "Rename", mof_class: "FileIo_Info" },
        EventInfo { key: EventKey { id: 74, version: 3 }, name: "QueryInfo", mof_class: "FileIo_Info" },
        EventInfo { key: EventKey { id: 75, version: 3 }, name: "FSControl", mof_class: "FileIo_Info" },
        EventInfo { key: EventKey { id: 72, version: 3 }, name: "DirEnum", mof_class: "FileIo_DirEnum" },
        EventInfo { key: EventKey { id: 77, version: 3 }, name: "DirNotify", mof_class: "FileIo_DirEnum" },
        EventInfo { key: EventKey { id: 76, version: 3 }, name: "OperationEnd", mof_class: "FileIo_OpEnd" },
        EventInfo { key: EventKey { id: 79, version: 3 }, name: "DeletePath", mof_class: "FileIo_PathOperation" },
        EventInfo { key: EventKey { id: 80, version: 3 }, name: "RenamePath", mof_class: "FileIo_PathOperation" },
        EventInfo { key: EventKey { id: 81, version: 3 }, name: "SetLinkPath", mof_class: "FileIo_PathOperation" },
        EventInfo { key: EventKey { id: 96, version: 3 }, name: "FltPreOpInit", mof_class: "FltIoInit" },
        EventInfo { key: EventKey { id: 97, version: 3 }, name: "FltPostOpInit", mof_class: "FltIoInit" },
        EventInfo { key: EventKey { id: 98, version: 3 }, name: "FltPreOpCompletion", mof_class: "FltIoCompletion" },
        EventInfo { key: EventKey { id: 99, version: 3 }, name: "FltPostOpCompletion", mof_class: "FltIoCompletion" },
        EventInfo { key: EventKey { id: 100, version: 3 }, name: "FltPreOpFailure", mof_class: "FltIoFailure" },
        EventInfo { key: EventKey { id: 101, version: 3 }, name: "FltPostOpFailure", mof_class: "FltIoFailure" },
    ]
}

/// Every known definition in lookup order (by version, then id).
pub open spec fn event_table() -> Seq<EventInfo> {
    seq![
        EventInfo { key: EventKey { id: 0, version: 0 }, name: "Name", mof_class: "FileIo_V0_Name" },
        EventInfo { key: EventKey { id: 0, version: 1 }, name: "Name", mof_class: "FileIo_V1_Name" },
        EventInfo { key: EventKey { id: 32, version: 1 }, name: "FileCreate", mof_class: "FileIo_V1_Name" },
        EventInfo { key: EventKey { id: 0, version: 2 }, name: "Name", mof_class: "FileIo_Name" },
        EventInfo { key: EventKey { id: 32, version: 2 }, name: "FileCreate", mof_class: "FileIo_Name" },
        EventInfo { key: EventKey { id: 35, version: 2 }, name: "FileDelete", mof_class: "FileIo_Name" },
        EventInfo { key: EventKey { id: 36, version: 2 }, name: "FileRundown", mof_class: "FileIo_Name" },
        EventInfo { key: EventKey { id: 37, version: 2 }, name: "MapFile", mof_class: "FileIo_V2_MapFile" },
        EventInfo { key: EventKey { id: 38, version: 2 }, name: "UnmapFile", mof_class: "FileIo_V2_MapFile" },
        EventInfo { key: EventKey { id: 39, version: 2 }, name: "MapFileDCStart", mof_class: "FileIo_V2_MapFile" },
        EventInfo { key: EventKey { id: 40, version: 2 }, name: "MapFileDCEnd", mof_class: "FileIo_V2_MapFile" },
        EventInfo { key: EventKey { id: 64, version: 2 }, name: "Create", mof_class: "FileIo_Create" },
        EventInfo { key: EventKey { id: 65, version: 2 }, name: "Cleanup", mof_class: "FileIo_SimpleOp" },
        EventInfo { key: EventKey { id: 66, version: 2 }, name: "Close", mof_class: "FileIo_SimpleOp" },
        EventInfo { key: EventKey { id: 67, version: 2 }, name: "Read", mof_class: "FileIo_ReadWrite" },
        EventInfo { key: EventKey { id: 68, version: 2 }, name: "Write", mof_class: "FileIo_ReadWrite" },
        EventInfo { key: EventKey { id: 69, version: 2 }, name: "SetInfo", mof_class: "FileIo_Info" },
        EventInfo { key: EventKey { id: 70, version: 2 }, name: "Delete", mof_class: "FileIo_Info" },
        EventInfo { key: EventKey { id: 71, version: 2 }, name: "Rename", mof_class: "FileIo_Info" },
        EventInfo { key: EventKey { id: 72, version: 2 }, name: "DirEnum", mof_class: "FileIo_DirEnum" },
        EventInfo { key: EventKey { id: 73, version: 2 }, name: "Flush", mof_class: "FileIo_SimpleOp" },
        EventInfo { key: EventKey { id: 74, version: 2 }, name: "QueryInfo", mof_class: "FileIo_Info" },
        EventInfo { key: EventKey { id: 75, version: 2 }, name: "FSControl", mof_class: "FileIo_Info" },
        EventInfo { key: EventKey { id: 76, version: 2 }, name: "OperationEnd", mof_class: "FileIo_OpEnd" },
        EventInfo { key: EventKey { id: 77, version: 2 }, name: "DirNotify", mof_class: "FileIo_DirEnum" },
        EventInfo { key: EventKey { id: 79, version: 2 }, name: "DeletePath", mof_class: "FileIo_PathOperation" },
        EventInfo { key: EventKey { id: 80, version: 2 }, name: "RenamePath", mof_class: "FileIo_PathOperation" },
        EventInfo { key: EventKey { id: 81, version: 2 }, name: "SetLinkPath", mof_class: "FileIo_PathOperation" },
        EventInfo { key: EventKey { id: 0, version: 3 }, name: "Name", mof_class: "FileIo_Name" },
        EventInfo { key: EventKey { id: 32, version: 3 }, name: "FileCreate", mof_class: "FileIo_Name" },
        EventInfo { key: EventKey { id: 35, version: 3 }, name: "FileDelete", mof_class: "FileIo_Name" },
        EventInfo { key: EventKey { id: 36, version: 3 }, name: "FileRundown", mof_class: "FileIo_Name" },
        EventInfo { key: EventKey { id: 64, version: 3 }, name: "Create", mof_class: "FileIo_Create" },
        EventInfo { key: EventKey { id: 65, version: 3 }, name: "Cleanup", mof_class: "FileIo_SimpleOp" },
        EventInfo { key: EventKey { id: 66, version: 3 }, name: "Close", mof_class: "FileIo_SimpleOp" },
        EventInfo { key: EventKey { id: 67, version: 3 }, name: "Read", mof_class: "FileIo_ReadWrite" },
        EventInfo { key: EventKey { id: 68, version: 3 }, name: "Write", mof_class: "FileIo_ReadWrite" },
        EventInfo { key: EventKey { id: 69, version: 3 }, name: "SetInfo", mof_class: "FileIo_Info" },
        EventInfo { key: EventKey { id: 70, version: 3 }, name: "Delete", mof_class: "FileIo_Info" },
        EventInfo { key: EventKey { id: 71, version: 3 }, name: "Rename", mof_class: "FileIo_Info" },
        EventInfo { key: EventKey { id: 72, version: 3 }, name: "DirEnum", mof_class: "FileIo_DirEnum" },
        EventInfo { key: EventKey { id: 73, version: 3 }, name: "Flush", mof_class: "FileIo_SimpleOp" },
        EventInfo { key: EventKey { id: 74, version: 3 }, name: "QueryInfo", mof_class: "FileIo_Info" },
        EventInfo { key: EventKey { id: 75, version: 3 }, name: "FSControl", mof_class: "FileIo_Info" },
        EventInfo { key: EventKey { id: 76, version: 3 }, name: "OperationEnd", mof_class: "FileIo_OpEnd" },
        EventInfo { key: EventKey { id: 77, version: 3 }, name: "DirNotify", mof_class: "FileIo_DirEnum" },
        EventInfo { key: EventKey { id: 79, version: 3 }, name: "DeletePath", mof_class: "FileIo_PathOperation" },
        EventInfo { key: EventKey { id: 80, version: 3 }, name: "RenamePath", mof_class: "FileIo_PathOperation" },
        EventInfo { key: EventKey { id: 81, version: 3 }, name: "SetLinkPath", mof_class: "FileIo_PathOperation" },
        EventInfo { key: EventKey { id: 96, version: 3 }, name: "FltPreOpInit", mof_class: "FltIoInit" },
        EventInfo { key: EventKey { id: 97, version: 3 }, name: "FltPostOpInit", mof_class: "FltIoInit" },
        EventInfo { key: EventKey { id: 98, version: 3 }, name: "FltPreOpCompletion", mof_class: "FltIoCompletion" },
        EventInfo { key: EventKey { id: 99, version: 3 }, name: "FltPostOpCompletion", mof_class: "FltIoCompletion" },
        EventInfo { key: EventKey { id: 100, version: 3 }, name: "FltPreOpFailure", mof_class: "FltIoFailure" },
        EventInfo { key: EventKey { id: 101, version: 3 }, name: "FltPostOpFailure", mof_class: "FltIoFailure" },
    ]
}

impl EventDefs {
    /// FileIo version 0 definitions (Windows 2000).
    pub fn v0() -> (defs: Vec<EventInfo>)
        ensures
            defs@ == v0_defs(),
    {
        let defs =         vec![
            EventInfo { key: EventKey { id: 0, version: 0 }, name: "Name", mof_class: "FileIo_V0_Name" },
        ];
        assert(defs@ =~= v0_defs());
        defs
    }

    /// FileIo version 1 definitions (Windows XP).
    pub fn v1() -> (defs: Vec<EventInfo>)
        ensures
            defs@ == v1_defs(),
    {
        let defs =         vec![
            EventInfo { key: EventKey { id: 0, version: 1 }, name: "Name", mof_class: "FileIo_V1_Name" },
            EventInfo { key: EventKey { id: 32, version: 1 }, name: "FileCreate", mof_class: "FileIo_V1_Name" },
        ];
        assert(defs@ =~= v1_defs());
        defs
    }

    /// FileIo version 2 definitions (Windows Vista and later).
    pub fn v2() -> (defs: Vec<EventInfo>)
        ensures
            defs@ == v2_defs(),
    {
        let defs =         vec![
            EventInfo { key: EventKey { id: 0, version: 2 }, name: "Name", mof_class: "FileIo_Name" },
            EventInfo { key: EventKey { id: 32, version: 2 }, name: "FileCreate", mof_class: "FileIo_Name" },
            EventInfo { key: EventKey { id: 35, version: 2 }, name: "FileDelete", mof_class: "FileIo_Name" },
            EventInfo { key: EventKey { id: 36, version: 2 }, name: "FileRundown", mof_class: "FileIo_Name" },
            EventInfo { key: EventKey { id: 37, version: 2 }, name: "MapFile", mof_class: "FileIo_V2_MapFile" },
            EventInfo { key: EventKey { id: 38, version: 2 }, name: "UnmapFile", mof_class: "FileIo_V2_MapFile" },
            EventInfo { key: EventKey { id: 39, version: 2 }, name: "MapFileDCStart", mof_class: "FileIo_V2_MapFile" },
            EventInfo { key: EventKey { id: 40, version: 2 }, name: "MapFileDCEnd", mof_class: "FileIo_V2_MapFile" },
            EventInfo { key: EventKey { id: 64, version: 2 }, name: "Create", mof_class: "FileIo_Create" },
            EventInfo { key: EventKey { id: 65, version: 2 }, name: "Cleanup", mof_class: "FileIo_SimpleOp" },
            EventInfo { key: EventKey { id: 66, version: 2 }, name: "Close", mof_class: "FileIo_SimpleOp" },
            EventInfo { key: EventKey { id: 73, version: 2 }, name: "Flush", mof_class: "FileIo_SimpleOp" },
            EventInfo { key: EventKey { id: 67, version: 2 }, name: "Read", mof_class: "FileIo_ReadWrite" },
            EventInfo { key: EventKey { id: 68, version: 2 }, name: "Write", mof_class: "FileIo_ReadWrite" },
            EventInfo { key: EventKey { id: 69, version: 2 }, name: "SetInfo", mof_class: "FileIo_Info" },
            EventInfo { key: EventKey { id: 70, version: 2 }, name: "Delete", mof_class: "FileIo_Info" },
            EventInfo { key: EventKey { id: 71, version: 2 }, name: "Rename", mof_class: "FileIo_Info" },
            EventInfo { key: EventKey { id: 74, version: 2 }, name: "QueryInfo", mof_class: "FileIo_Info" },
            EventInfo { key: EventKey { id: 75, version: 2 }, name: "FSControl", mof_class: "FileIo_Info" },
            EventInfo { key: EventKey { id: 72, version: 2 }, name: "DirEnum", mof_class: "FileIo_DirEnum" },
            EventInfo { key: EventKey { id: 77, version: 2 }, name: "DirNotify", mof_class: "FileIo_DirEnum" },
            EventInfo { key: EventKey { id: 76, version: 2 }, name: "OperationEnd", mof_class: "FileIo_OpEnd" },
            EventInfo { key: EventKey { id: 79, version: 2 }, name: "DeletePath", mof_class: "FileIo_PathOperation" },
            EventInfo { key: EventKey { id: 80, version: 2 }, name: "RenamePath", mof_class: "FileIo_PathOperation" },
            EventInfo { key: EventKey { id: 81, version: 2 }, name: "SetLinkPath", mof_class: "FileIo_PathOperation" },
        ];
        assert(defs@ =~= v2_defs());
        defs
    }

    /// FileIo version 3 definitions (current, with the minifilter events).
    pub fn v3() -> (defs: Vec<EventInfo>)
        ensures
            defs@ == v3_defs(),
    {
        let defs =         vec![
            EventInfo { key: EventKey { id: 0, version: 3 }, name: "Name", mof_class: "FileIo_Name" },
            EventInfo { key: EventKey { id: 32, version: 3 }, name: "FileCreate", mof_class: "FileIo_Name" },
            EventInfo { key: EventKey { id: 35, version: 3 }, name: "FileDelete", mof_class: "FileIo_Name" },
            EventInfo { key: EventKey { id: 36, version: 3 }, name: "FileRundown", mof_class: "FileIo_Name" },
            EventInfo { key: EventKey { id: 64, version: 3 }, name: "Create", mof_class: "FileIo_Create" },
            EventInfo { key: EventKey { id: 65, version: 3 }, name: "Cleanup", mof_class: "FileIo_SimpleOp" },
            EventInfo { key: EventKey { id: 66, version: 3 }, name: "Close", mof_class: "FileIo_SimpleOp" },
            EventInfo { key: EventKey { id: 73, version: 3 }, name: "Flush", mof_class: "FileIo_SimpleOp" },
            EventInfo { key: EventKey { id: 67, version: 3 }, name: "Read", mof_class: "FileIo_ReadWrite" },
            EventInfo { key: EventKey { id: 68, version: 3 }, name: "Write", mof_class: "FileIo_ReadWrite" },
            EventInfo { key: EventKey { id: 69, version: 3 }, name: "SetInfo", mof_class: "FileIo_Info" },
            EventInfo { key: EventKey { id: 70, version: 3 }, name: "Delete", mof_class: "FileIo_Info" },
            EventInfo { key: EventKey { id: 71, version: 3 }, name: "Rename", mof_class: "FileIo_Info" },
            EventInfo { key: EventKey { id: 74, version: 3 }, name: "QueryInfo", mof_class: "FileIo_Info" },
            EventInfo { key: EventKey { id: 75, version: 3 }, name: "FSControl", mof_class: "FileIo_Info" },
            EventInfo { key: EventKey { id: 72, version: 3 }, name: "DirEnum", mof_class: "FileIo_DirEnum" },
            EventInfo { key: EventKey { id: 77, version: 3 }, name: "DirNotify", mof_class: "FileIo_DirEnum" },
            EventInfo { key: EventKey { id: 76, version: 3 }, name: "OperationEnd", mof_class: "FileIo_OpEnd" },
            EventInfo { key: EventKey { id: 79, version: 3 }, name: "DeletePath", mof_class: "FileIo_PathOperation" },
            EventInfo { key: EventKey { id: 80, version: 3 }, name: "RenamePath", mof_class: "FileIo_PathOperation" },
            EventInfo { key: EventKey { id: 81, version: 3 }, name: "SetLinkPath", mof_class: "FileIo_PathOperation" },
            EventInfo { key: EventKey { id: 96, version: 3 }, name: "FltPreOpInit", mof_class: "FltIoInit" },
            EventInfo { key: EventKey { id: 97, version: 3 }, name: "FltPostOpInit", mof_class: "FltIoInit" },
            EventInfo { key: EventKey { id: 98, version: 3 }, name: "FltPreOpCompletion", mof_class: "FltIoCompletion" },
            EventInfo { key: EventKey { id: 99, version: 3 }, name: "FltPostOpCompletion", mof_class: "FltIoCompletion" },
            EventInfo { key: EventKey { id: 100, version: 3 }, name: "FltPreOpFailure", mof_class: "FltIoFailure" },
            EventInfo { key: EventKey { id: 101, version: 3 }, name: "FltPostOpFailure", mof_class: "FltIoFailure" },
        ];
        assert(defs@ =~= v3_defs());
        defs
    }

    /// Every known definition, version 0 first.
    pub fn all() -> (defs: Vec<EventInfo>)
        ensures
            defs@ == v0_defs() + v1_defs() + v2_defs() + v3_defs(),
    {
        let mut defs = Self::v0();
        let mut more = Self::v1();
        defs.append(&mut more);
        let mut more = Self::v2();
        defs.append(&mut more);
        let mut more = Self::v3();
        defs.append(&mut more);
        defs
    }
}

/// The lookup table of every known definition.
fn get_all_events() -> (defs: Vec<EventInfo>)
    ensures
        defs@ == event_table(),
{
    let defs =         vec![
        EventInfo { key: EventKey { id: 0, version: 0 }, name: "Name", mof_class: "FileIo_V0_Name" },
        EventInfo { key: EventKey { id: 0, version: 1 }, name: "Name", mof_class: "FileIo_V1_Name" },
        EventInfo { key: EventKey { id: 32, version: 1 }, name: "FileCreate", mof_class: "FileIo_V1_Name" },
        EventInfo { key: EventKey { id: 0, version: 2 }, name: "Name", mof_class: "FileIo_Name" },
        EventInfo { key: EventKey { id: 32, version: 2 }, name: "FileCreate", mof_class: "FileIo_Name" },
        EventInfo { key: EventKey { id: 35, version: 2 }, name: "FileDelete", mof_class: "FileIo_Name" },
        EventInfo { key: EventKey { id: 36, version: 2 }, name: "FileRundown", mof_class: "FileIo_Name" },
        EventInfo { key: EventKey { id: 37, version: 2 }, name: "MapFile", mof_class: "FileIo_V2_MapFile" },
        EventInfo { key: EventKey { id: 38, version: 2 }, name: "UnmapFile", mof_class: "FileIo_V2_MapFile" },
        EventInfo { key: EventKey { id: 39, version: 2 }, name: "MapFileDCStart", mof_class: "FileIo_V2_MapFile" },
        EventInfo { key: EventKey { id: 40, version: 2 }, name: "MapFileDCEnd", mof_class: "FileIo_V2_MapFile" },
        EventInfo { key: EventKey { id: 64, version: 2 }, name: "Create", mof_class: "FileIo_Create" },
        EventInfo { key: EventKey { id: 65, version: 2 }, name: "Cleanup", mof_class: "FileIo_SimpleOp" },
        EventInfo { key: EventKey { id: 66, version: 2 }, name: "Close", mof_class: "FileIo_SimpleOp" },
        EventInfo { key: EventKey { id: 67, version: 2 }, name: "Read", mof_class: "FileIo_ReadWrite" },
        EventInfo { key: EventKey { id: 68, version: 2 }, name: "Write", mof_class: "FileIo_ReadWrite" },
        EventInfo { key: EventKey { id: 69, version: 2 }, name: "SetInfo", mof_class: "FileIo_Info" },
        EventInfo { key: EventKey { id: 70, version: 2 }, name: "Delete", mof_class: "FileIo_Info" },
        EventInfo { key: EventKey { id: 71, version: 2 }, name: "Rename", mof_class: "FileIo_Info" },
        EventInfo { key: EventKey { id: 72, version: 2 }, name: "DirEnum", mof_class: "FileIo_DirEnum" },
        EventInfo { key: EventKey { id: 73, version: 2 }, name: "Flush", mof_class: "FileIo_SimpleOp" },
        EventInfo { key: EventKey { id: 74, version: 2 }, name: "QueryInfo", mof_class: "FileIo_Info" },
        EventInfo { key: EventKey { id: 75, version: 2 }, name: "FSControl", mof_class: "FileIo_Info" },
        EventInfo { key: EventKey { id: 76, version: 2 }, name: "OperationEnd", mof_class: "FileIo_OpEnd" },
        EventInfo { key: EventKey { id: 77, version: 2 }, name: "DirNotify", mof_class: "FileIo_DirEnum" },
        EventInfo { key: EventKey { id: 79, version: 2 }, name: "DeletePath", mof_class: "FileIo_PathOperation" },
        EventInfo { key: EventKey { id: 80, version: 2 }, name: "RenamePath", mof_class: "FileIo_PathOperation" },
        EventInfo { key: EventKey { id: 81, version: 2 }, name: "SetLinkPath", mof_class: "FileIo_PathOperation" },
        EventInfo { key: EventKey { id: 0, version: 3 }, name: "Name", mof_class: "FileIo_Name" },
        EventInfo { key: EventKey { id: 32, version: 3 }, name: "FileCreate", mof_class: "FileIo_Name" },
        EventInfo { key: EventKey { id: 35, version: 3 }, name: "FileDelete", mof_class: "FileIo_Name" },
        EventInfo { key: EventKey { id: 36, version: 3 }, name: "FileRundown", mof_class: "FileIo_Name" },
        EventInfo { key: EventKey { id: 64, version: 3 }, name: "Create", mof_class: "FileIo_Create" },
        EventInfo { key: EventKey { id: 65, version: 3 }, name: "Cleanup", mof_class: "FileIo_SimpleOp" },
        EventInfo { key: EventKey { id: 66, version: 3 }, name: "Close", mof_class: "FileIo_SimpleOp" },
        EventInfo { key: EventKey { id: 67, version: 3 }, name: "Read", mof_class: "FileIo_ReadWrite" },
        EventInfo { key: EventKey { id: 68, version: 3 }, name: "Write", mof_class: "FileIo_ReadWrite" },
        EventInfo { key: EventKey { id: 69, version: 3 }, name: "SetInfo", mof_class: "FileIo_Info" },
        EventInfo { key: EventKey { id: 70, version: 3 }, name: "Delete", mof_class: "FileIo_Info" },
        EventInfo { key: EventKey { id: 71, version: 3 }, name: "Rename", mof_class: "FileIo_Info" },
        EventInfo { key: EventKey { id: 72, version: 3 }, name: "DirEnum", mof_class: "FileIo_DirEnum" },
        EventInfo { key: EventKey { id: 73, version: 3 }, name: "Flush", mof_class: "FileIo_SimpleOp" },
        EventInfo { key: EventKey { id: 74, version: 3 }, name: "QueryInfo", mof_class: "FileIo_Info" },
        EventInfo { key: EventKey { id: 75, version: 3 }, name: "FSControl", mof_class: "FileIo_Info" },
        EventInfo { key: EventKey { id: 76, version: 3 }, name: "OperationEnd", mof_class: "FileIo_OpEnd" },
        EventInfo { key: EventKey { id: 77, version: 3 }, name: "DirNotify", mof_class: "FileIo_DirEnum" },
        EventInfo { key: EventKey { id: 79, version: 3 }, name: "DeletePath", mof_class: "FileIo_PathOperation" },
        EventInfo { key: EventKey { id: 80, version: 3 }, name: "RenamePath", mof_class: "FileIo_PathOperation" },
        EventInfo { key: EventKey { id: 81, version: 3 }, name: "SetLinkPath", mof_class: "FileIo_PathOperation" },
        EventInfo { key: EventKey { id: 96, version: 3 }, name: "FltPreOpInit", mof_class: "FltIoInit" },
        EventInfo { key: EventKey { id: 97, version: 3 }, name: "FltPostOpInit", mof_class: "FltIoInit" },
        EventInfo { key: EventKey { id: 98, version: 3 }, name: "FltPreOpCompletion", mof_class: "FltIoCompletion" },
        EventInfo { key: EventKey { id: 99, version: 3 }, name: "FltPostOpCompletion", mof_class: "FltIoCompletion" },
        EventInfo { key: EventKey { id: 100, version: 3 }, name: "FltPreOpFailure", mof_class: "FltIoFailure" },
        EventInfo { key: EventKey { id: 101, version: 3 }, name: "FltPostOpFailure", mof_class: "FltIoFailure" },
    ];
    assert(defs@ =~= event_table());
    defs
}

/// `t[i]` is the first entry of `t` with key (`id`, `version`).
pub open spec fn first_with_key(t: Seq<EventInfo>, i: int, id: u16, version: u8) -> bool {
    &&& 0 <= i < t.len()
    &&& t[i].key.id == id && t[i].key.version == version
    &&& forall|j: int| 0 <= j < i ==> !(t[j].key.id == id && t[j].key.version == version)
}

/// No entry of `t` has key (`id`, `version`).
pub open spec fn no_key(t: Seq<EventInfo>, id: u16, version: u8) -> bool {
    forall|j: int| 0 <= j < t.len() ==> !(t[j].key.id == id && t[j].key.version == version)
}

impl EventDefs {
    /// The definition of event `id` at `version`, if it is known.
    pub fn lookup(id: u16, version: u8) -> (info: Option<EventInfo>)
        ensures
            match info {
                Some(e) => exists|i: int| first_with_key(event_table(), i, id, version) && e == event_table()[i],
                None => no_key(event_table(), id, version),
            },
    {
        let defs = get_all_events();
        let mut i: usize = 0;
        while i < defs.len()
            invariant
                i <= defs@.len(),
                defs@ == event_table(),
                forall|j: int| 0 <= j < i ==> !(defs@[j].key.id == id && defs@[j].key.version == version),
            decreases defs.len() - i,
        {
            if defs[i].key.id == id && defs[i].key.version == version {
                assert(first_with_key(event_table(), i as int, id, version));
                return Some(defs[i]);
            }
            i = i + 1;
        }
        None
    }
}



/// The key order of the lookup table: by version, then by id.
pub open spec fn key_rank(e: EventInfo) -> int {
    e.key.version as int * 0x10000 + e.key.id as int
}

proof fn lemma_table_sorted()
    ensures
        forall|j: int, k: int| 0 <= j < k < event_table().len() ==> key_rank(event_table()[j]) < key_rank(event_table()[k]),
{
    let t = event_table();
    assert(key_rank(t[0]) < key_rank(t[1]));
    assert(key_rank(t[1]) < key_rank(t[2]));
    assert(key_rank(t[2]) < key_rank(t[3]));
    assert(key_rank(t[3]) < key_rank(t[4]));
    assert(key_rank(t[4]) < key_rank(t[5]));
    assert(key_rank(t[5]) < key_rank(t[6]));
    assert(key_rank(t[6]) < key_rank(t[7]));
    assert(key_rank(t[7]) < key_rank(t[8]));
    assert(key_rank(t[8]) < key_rank(t[9]));
    assert(key_rank(t[9]) < key_rank(t[10]));
    assert(key_rank(t[10]) < key_rank(t[11]));
    assert(key_rank(t[11]) < key_rank(t[12]));
    assert(key_rank(t[12]) < key_rank(t[13]));
    assert(key_rank(t[13]) < key_rank(t[14]));
    assert(key_rank(t[14]) < key_rank(t[15]));
    assert(key_rank(t[15]) < key_rank(t[16]));
    assert(key_rank(t[16]) < key_rank(t[17]));
    assert(key_rank(t[17]) < key_rank(t[18]));
    assert(key_rank(t[18]) < key_rank(t[19]));
    assert(key_rank(t[19]) < key_rank(t[20]));
    assert(key_rank(t[20]) < key_rank(t[21]));
    assert(key_rank(t[21]) < key_rank(t[22]));
    assert(key_rank(t[22]) < key_rank(t[23]));
    assert(key_rank(t[23]) < key_rank(t[24]));
    assert(key_rank(t[24]) < key_rank(t[25]));
    assert(key_rank(t[25]) < key_rank(t[26]));
    assert(key_rank(t[26]) < key_rank(t[27]));
    assert(key_rank(t[27]) < key_rank(t[28]));
    assert(key_rank(t[28]) < key_rank(t[29]));
    assert(key_rank(t[29]) < key_rank(t[30]));
    assert(key_rank(t[30]) < key_rank(t[31]));
    assert(key_rank(t[31]) < key_rank(t[32]));
    assert(key_rank(t[32]) < key_rank(t[33]));
    assert(key_rank(t[33]) < key_rank(t[34]));
    assert(key_rank(t[34]) < key_rank(t[35]));
    assert(key_rank(t[35]) < key_rank(t[36]));
    assert(key_rank(t[36]) < key_rank(t[37]));
    assert(key_rank(t[37]) < key_rank(t[38]));
    assert(key_rank(t[38]) < key_rank(t[39]));
    assert(key_rank(t[39]) < key_rank(t[40]));
    assert(key_rank(t[40]) < key_rank(t[41]));
    assert(key_rank(t[41]) < key_rank(t[42]));
    assert(key_rank(t[42]) < key_rank(t[43]));
    assert(key_rank(t[43]) < key_rank(t[44]));
    assert(key_rank(t[44]) < key_rank(t[45]));
    assert(key_rank(t[45]) < key_rank(t[46]));
    assert(key_rank(t[46]) < key_rank(t[47]));
    assert(key_rank(t[47]) < key_rank(t[48]));
    assert(key_rank(t[48]) < key_rank(t[49]));
    assert(key_rank(t[49]) < key_rank(t[50]));
    assert(key_rank(t[50]) < key_rank(t[51]));
    assert(key_rank(t[51]) < key_rank(t[52]));
    assert(key_rank(t[52]) < key_rank(t[53]));
    assert(key_rank(t[53]) < key_rank(t[54]));
    assert forall|j: int, k: int| 0 <= j < k < t.len() implies key_rank(t[j]) < key_rank(t[k]) by {
        lemma_sorted_step(t, j, k);
    }
}

proof fn lemma_sorted_step(t: Seq<EventInfo>, j: int, k: int)
    requires
        0 <= j < k < t.len(),
        forall|m: int| 0 <= m < t.len() - 1 ==> key_rank(#[trigger] t[m]) < key_rank(t[m + 1]),
    ensures
        key_rank(t[j]) < key_rank(t[k]),
    decreases k - j,
{
    if k > j + 1 {
        lemma_sorted_step(t, j, k - 1);
        assert(key_rank(t[k - 1]) < key_rank(t[k]));
    } else {
        assert(key_rank(t[j]) < key_rank(t[j + 1]));
    }
}

/// Position in the lookup table of the `i`-th definition listed by `EventDefs::all`.
pub open spec fn table_position(i: int) -> int {
    if i == 0 { 0 } else if i == 1 { 1 } else if i == 2 { 2 } else if i == 3 { 3 } else if i == 4 { 4 } else if i == 5 { 5 } else if i == 6 { 6 } else if i == 7 { 7 } else if i == 8 { 8 } else if i == 9 { 9 } else if i == 10 { 10 } else if i == 11 { 11 } else if i == 12 { 12 } else if i == 13 { 13 } else if i == 14 { 20 } else if i == 15 { 14 } else if i == 16 { 15 } else if i == 17 { 16 } else if i == 18 { 17 } else if i == 19 { 18 } else if i == 20 { 21 } else if i == 21 { 22 } else if i == 22 { 19 } else if i == 23 { 24 } else if i == 24 { 23 } else if i == 25 { 25 } else if i == 26 { 26 } else if i == 27 { 27 } else if i == 28 { 28 } else if i == 29 { 29 } else if i == 30 { 30 } else if i == 31 { 31 } else if i == 32 { 32 } else if i == 33 { 33 } else if i == 34 { 34 } else if i == 35 { 41 } else if i == 36 { 35 } else if i == 37 { 36 } else if i == 38 { 37 } else if i == 39 { 38 } else if i == 40 { 39 } else if i == 41 { 42 } else if i == 42 { 43 } else if i == 43 { 40 } else if i == 44 { 45 } else if i == 45 { 44 } else if i == 46 { 46 } else if i == 47 { 47 } else if i == 48 { 48 } else if i == 49 { 49 } else if i == 50 { 50 } else if i == 51 { 51 } else if i == 52 { 52 } else if i == 53 { 53 } else if i == 54 { 54 } else { -1 }
}

proof fn lemma_positions()
    ensures
        forall|i: int| 0 <= i < 55 ==> {
            let k = #[trigger] table_position(i);
            0 <= k < event_table().len() && event_table()[k] == (v0_defs() + v1_defs() + v2_defs() + v3_defs())[i]
        },
{
    let t = event_table();
    let all = v0_defs() + v1_defs() + v2_defs() + v3_defs();
    assert(all.len() == 55);
    assert(t[0] == all[0]);
    assert(t[1] == all[1]);
    assert(t[2] == all[2]);
    assert(t[3] == all[3]);
    assert(t[4] == all[4]);
    assert(t[5] == all[5]);
    assert(t[6] == all[6]);
    assert(t[7] == all[7]);
    assert(t[8] == all[8]);
    assert(t[9] == all[9]);
    assert(t[10] == all[10]);
    assert(t[11] == all[11]);
    assert(t[12] == all[12]);
    assert(t[13] == all[13]);
    assert(t[20] == all[14]);
    assert(t[14] == all[15]);
    assert(t[15] == all[16]);
    assert(t[16] == all[17]);
    assert(t[17] == all[18]);
    assert(t[18] == all[19]);
    assert(t[21] == all[20]);
    assert(t[22] == all[21]);
    assert(t[19] == all[22]);
    assert(t[24] == all[23]);
    assert(t[23] == all[24]);
    assert(t[25] == all[25]);
    assert(t[26] == all[26]);
    assert(t[27] == all[27]);
    assert(t[28] == all[28]);
    assert(t[29] == all[29]);
    assert(t[30] == all[30]);
    assert(t[31] == all[31]);
    assert(t[32] == all[32]);
    assert(t[33] == all[33]);
    assert(t[34] == all[34]);
    assert(t[41] == all[35]);
    assert(t[35] == all[36]);
    assert(t[36] == all[37]);
    assert(t[37] == all[38]);
    assert(t[38] == all[39]);
    assert(t[39] == all[40]);
    assert(t[42] == all[41]);
    assert(t[43] == all[42]);
    assert(t[40] == all[43]);
    assert(t[45] == all[44]);
    assert(t[44] == all[45]);
    assert(t[46] == all[46]);
    assert(t[47] == all[47]);
    assert(t[48] == all[48]);
    assert(t[49] == all[49]);
    assert(t[50] == all[50]);
    assert(t[51] == all[51]);
    assert(t[52] == all[52]);
    assert(t[53] == all[53]);
    assert(t[54] == all[54]);
}

/// Every definition listed by `EventDefs::all` is what `EventDefs::lookup`
/// gives back for its id and version.
pub proof fn law_all_definitions_are_found(i: int)
    requires
        0 <= i < (v0_defs() + v1_defs() + v2_defs() + v3_defs()).len(),
    ensures
        ({
            let e = (v0_defs() + v1_defs() + v2_defs() + v3_defs())[i];
            exists|k: int| first_with_key(event_table(), k, e.key.id, e.key.version) && event_table()[k] == e
        }),
{
    let all = v0_defs() + v1_defs() + v2_defs() + v3_defs();
    let t = event_table();
    lemma_positions();
    lemma_table_sorted();
    let k = table_position(i);
    let e = all[i];
    assert(0 <= k < t.len() && t[k] == e);
    assert forall|j: int| 0 <= j < k implies !(t[j].key.id == e.key.id && t[j].key.version == e.key.version) by {
        assert(key_rank(t[j]) < key_rank(t[k]));
    }
    assert(first_with_key(t, k, e.key.id, e.key.version));
}

/// Position in the list of `EventDefs::all` of the `k`-th entry of the lookup table.
pub open spec fn all_position(k: int) -> int {
    if k == 0 { 0 } else if k == 1 { 1 } else if k == 2 { 2 } else if k == 3 { 3 } else if k == 4 { 4 } else if k == 5 { 5 } else if k == 6 { 6 } else if k == 7 { 7 } else if k == 8 { 8 } else if k == 9 { 9 } else if k == 10 { 10 } else if k == 11 { 11 } else if k == 12 { 12 } else if k == 13 { 13 } else if k == 14 { 15 } else if k == 15 { 16 } else if k == 16 { 17 } else if k == 17 { 18 } else if k == 18 { 19 } else if k == 19 { 22 } else if k == 20 { 14 } else if k == 21 { 20 } else if k == 22 { 21 } else if k == 23 { 24 } else if k == 24 { 23 } else if k == 25 { 25 } else if k == 26 { 26 } else if k == 27 { 27 } else if k == 28 { 28 } else if k == 29 { 29 } else if k == 30 { 30 } else if k == 31 { 31 } else if k == 32 { 32 } else if k == 33 { 33 } else if k == 34 { 34 } else if k == 35 { 36 } else if k == 36 { 37 } else if k == 37 { 38 } else if k == 38 { 39 } else if k == 39 { 40 } else if k == 40 { 43 } else if k == 41 { 35 } else if k == 42 { 41 } else if k == 43 { 42 } else if k == 44 { 45 } else if k == 45 { 44 } else if k == 46 { 46 } else if k == 47 { 47 } else if k == 48 { 48 } else if k == 49 { 49 } else if k == 50 { 50 } else if k == 51 { 51 } else if k == 52 { 52 } else if k == 53 { 53 } else if k == 54 { 54 } else { -1 }
}

proof fn lemma_positions_inverse()
    ensures
        forall|k: int| 0 <= k < 55 ==> 0 <= #[trigger] all_position(k) < 55 && table_position(all_position(k)) == k,
{
    assert(table_position(all_position(0)) == 0);
    assert(table_position(all_position(1)) == 1);
    assert(table_position(all_position(2)) == 2);
    assert(table_position(all_position(3)) == 3);
    assert(table_position(all_position(4)) == 4);
    assert(table_position(all_position(5)) == 5);
    assert(table_position(all_position(6)) == 6);
    assert(table_position(all_position(7)) == 7);
    assert(table_position(all_position(8)) == 8);
    assert(table_position(all_position(9)) == 9);
    assert(table_position(all_position(10)) == 10);
    assert(table_position(all_position(11)) == 11);
    assert(table_position(all_position(12)) == 12);
    assert(table_position(all_position(13)) == 13);
    assert(table_position(all_position(14)) == 14);
    assert(table_position(all_position(15)) == 15);
    assert(table_position(all_position(16)) == 16);
    assert(table_position(all_position(17)) == 17);
    assert(table_position(all_position(18)) == 18);
    assert(table_position(all_position(19)) == 19);
    assert(table_position(all_position(20)) == 20);
    assert(table_position(all_position(21)) == 21);
    assert(table_position(all_position(22)) == 22);
    assert(table_position(all_position(23)) == 23);
    assert(table_position(all_position(24)) == 24);
    assert(table_position(all_position(25)) == 25);
    assert(table_position(all_position(26)) == 26);
    assert(table_position(all_position(27)) == 27);
    assert(table_position(all_position(28)) == 28);
    assert(table_position(all_position(29)) == 29);
    assert(table_position(all_position(30)) == 30);
    assert(table_position(all_position(31)) == 31);
    assert(table_position(all_position(32)) == 32);
    assert(table_position(all_position(33)) == 33);
    assert(table_position(all_position(34)) == 34);
    assert(table_position(all_position(35)) == 35);
    assert(table_position(all_position(36)) == 36);
    assert(table_position(all_position(37)) == 37);
    assert(table_position(all_position(38)) == 38);
    assert(table_position(all_position(39)) == 39);
    assert(table_position(all_position(40)) == 40);
    assert(table_position(all_position(41)) == 41);
    assert(table_position(all_position(42)) == 42);
    assert(table_position(all_position(43)) == 43);
    assert(table_position(all_position(44)) == 44);
    assert(table_position(all_position(45)) == 45);
    assert(table_position(all_position(46)) == 46);
    assert(table_position(all_position(47)) == 47);
    assert(table_position(all_position(48)) == 48);
    assert(table_position(all_position(49)) == 49);
    assert(table_position(all_position(50)) == 50);
    assert(table_position(all_position(51)) == 51);
    assert(table_position(all_position(52)) == 52);
    assert(table_position(all_position(53)) == 53);
    assert(table_position(all_position(54)) == 54);
}

/// What `EventDefs::lookup` gives back is a definition listed by
/// `EventDefs::all`, and it gives back nothing exactly when `EventDefs::all`
/// lists no definition with that id and version.
pub proof fn law_lookup_gives_only_listed_definitions(id: u16, version: u8)
    ensures
        ({
            let all = v0_defs() + v1_defs() + v2_defs() + v3_defs();
            &&& forall|k: int| #[trigger] first_with_key(event_table(), k, id, version) ==> exists|i: int|
                0 <= i < all.len() && all[i] == event_table()[k]
            &&& no_key(event_table(), id, version) <==> forall|i: int|
                0 <= i < all.len() ==> !(#[trigger] all[i].key.id == id && all[i].key.version == version)
        }),
{
    let all = v0_defs() + v1_defs() + v2_defs() + v3_defs();
    let t = event_table();
    lemma_positions();
    lemma_positions_inverse();
    assert(all.len() == 55 && t.len() == 55);
    assert forall|k: int| #[trigger] first_with_key(t, k, id, version) implies exists|i: int|
        0 <= i < all.len() && all[i] == t[k] by {
        let i = all_position(k);
        assert(t[table_position(i)] == all[i]);
    }
    if no_key(t, id, version) {
        assert forall|i: int| 0 <= i < all.len() implies !(#[trigger] all[i].key.id == id && all[i].key.version == version) by {
            let k = table_position(i);
            assert(t[k] == all[i]);
        }
    } else {
        let k = choose|k: int| 0 <= k < t.len() && t[k].key.id == id && t[k].key.version == version;
        let i = all_position(k);
        assert(t[table_position(i)] == all[i]);
    }
}

} // verus!
