//! TDH schema records of the event enumerator: type names, property descriptions,
//! event type keys and observations.

use vstd::prelude::*;
use crate::guid::{Guid, file_key_text, hex_pad, sanitize_key_static};
use crate::text::{dec, dec_signed_padded, owned, push_char, push_dec, push_dec_signed_padded, push_padded, push_str};

verus! {

/// The `TDH_INTYPE_*` values of the Windows TDH API (tdh.h).
pub const TDH_INTYPE_NULL: u16 = 0;
pub const TDH_INTYPE_UNICODESTRING: u16 = 1;
pub const TDH_INTYPE_ANSISTRING: u16 = 2;
pub const TDH_INTYPE_INT8: u16 = 3;
pub const TDH_INTYPE_UINT8: u16 = 4;
pub const TDH_INTYPE_INT16: u16 = 5;
pub const TDH_INTYPE_UINT16: u16 = 6;
pub const TDH_INTYPE_INT32: u16 = 7;
pub const TDH_INTYPE_UINT32: u16 = 8;
pub const TDH_INTYPE_INT64: u16 = 9;
pub const TDH_INTYPE_UINT64: u16 = 10;
pub const TDH_INTYPE_FLOAT: u16 = 11;
pub const TDH_INTYPE_DOUBLE: u16 = 12;
pub const TDH_INTYPE_BOOLEAN: u16 = 13;
pub const TDH_INTYPE_BINARY: u16 = 14;
pub const TDH_INTYPE_GUID: u16 = 15;
pub const TDH_INTYPE_POINTER: u16 = 16;
pub const TDH_INTYPE_FILETIME: u16 = 17;
pub const TDH_INTYPE_SYSTEMTIME: u16 = 18;
pub const TDH_INTYPE_SID: u16 = 19;
pub const TDH_INTYPE_HEXINT32: u16 = 20;
pub const TDH_INTYPE_HEXINT64: u16 = 21;
pub const TDH_INTYPE_COUNTEDSTRING: u16 = 300;
pub const TDH_INTYPE_COUNTEDANSISTRING: u16 = 301;

/// The `TDH_OUTTYPE_*` values of the Windows TDH API (tdh.h).
pub const TDH_OUTTYPE_NULL: u16 = 0;
pub const TDH_OUTTYPE_STRING: u16 = 1;
pub const TDH_OUTTYPE_DATETIME: u16 = 2;
pub const TDH_OUTTYPE_BYTE: u16 = 3;
pub const TDH_OUTTYPE_UNSIGNEDBYTE: u16 = 4;
pub const TDH_OUTTYPE_SHORT: u16 = 5;
pub const TDH_OUTTYPE_UNSIGNEDSHORT: u16 = 6;
pub const TDH_OUTTYPE_INT: u16 = 7;
pub const TDH_OUTTYPE_UNSIGNEDINT: u16 = 8;
pub const TDH_OUTTYPE_LONG: u16 = 9;
pub const TDH_OUTTYPE_UNSIGNEDLONG: u16 = 10;
pub const TDH_OUTTYPE_FLOAT: u16 = 11;
pub const TDH_OUTTYPE_DOUBLE: u16 = 12;
pub const TDH_OUTTYPE_BOOLEAN: u16 = 13;
pub const TDH_OUTTYPE_GUID: u16 = 14;
pub const TDH_OUTTYPE_HEXBINARY: u16 = 15;
pub const TDH_OUTTYPE_HEXINT8: u16 = 16;
pub const TDH_OUTTYPE_HEXINT16: u16 = 17;
pub const TDH_OUTTYPE_HEXINT32: u16 = 18;
pub const TDH_OUTTYPE_HEXINT64: u16 = 19;
pub const TDH_OUTTYPE_PID: u16 = 20;
pub const TDH_OUTTYPE_TID: u16 = 21;
pub const TDH_OUTTYPE_PORT: u16 = 22;
pub const TDH_OUTTYPE_IPV4: u16 = 23;
pub const TDH_OUTTYPE_IPV6: u16 = 24;
pub const TDH_OUTTYPE_WIN32ERROR: u16 = 30;
pub const TDH_OUTTYPE_NTSTATUS: u16 = 31;
pub const TDH_OUTTYPE_HRESULT: u16 = 32;
pub const TDH_OUTTYPE_JSON: u16 = 34;
pub const TDH_OUTTYPE_UTF8: u16 = 35;
pub const TDH_OUTTYPE_PKCS7_WITH_TYPE_INFO: u16 = 36;
pub const TDH_OUTTYPE_CODE_POINTER: u16 = 37;
pub const TDH_OUTTYPE_DATETIME_UTC: u16 = 38;

/// The type names follow the Windows TDH constants: each `TDH_INTYPE_*` and
/// `TDH_OUTTYPE_*` value is named after its own constant (a pointer property,
/// `TDH_INTYPE_POINTER`, is an `InTypePointer`, a file time, `TDH_INTYPE_FILETIME`,
/// an `InTypeFileTime`), and a value that is no such constant has no name.
pub proof fn law_type_names_follow_tdh_constants(v: u16)
    ensures
        in_type_known(TDH_INTYPE_NULL) == Some("InTypeNull"@),
        in_type_known(TDH_INTYPE_UNICODESTRING) == Some("InTypeUnicodeString"@),
        in_type_known(TDH_INTYPE_ANSISTRING) == Some("InTypeAnsiString"@),
        in_type_known(TDH_INTYPE_INT8) == Some("InTypeInt8"@),
        in_type_known(TDH_INTYPE_UINT8) == Some("InTypeUInt8"@),
        in_type_known(TDH_INTYPE_INT16) == Some("InTypeInt16"@),
        in_type_known(TDH_INTYPE_UINT16) == Some("InTypeUInt16"@),
        in_type_known(TDH_INTYPE_INT32) == Some("InTypeInt32"@),
        in_type_known(TDH_INTYPE_UINT32) == Some("InTypeUInt32"@),
        in_type_known(TDH_INTYPE_INT64) == Some("InTypeInt64"@),
        in_type_known(TDH_INTYPE_UINT64) == Some("InTypeUInt64"@),
        in_type_known(TDH_INTYPE_FLOAT) == Some("InTypeFloat"@),
        in_type_known(TDH_INTYPE_DOUBLE) == Some("InTypeDouble"@),
        in_type_known(TDH_INTYPE_BOOLEAN) == Some("InTypeBoolean"@),
        in_type_known(TDH_INTYPE_BINARY) == Some("InTypeBinary"@),
        in_type_known(TDH_INTYPE_GUID) == Some("InTypeGuid"@),
        in_type_known(TDH_INTYPE_POINTER) == Some("InTypePointer"@),
        in_type_known(TDH_INTYPE_FILETIME) == Some("InTypeFileTime"@),
        in_type_known(TDH_INTYPE_SYSTEMTIME) == Some("InTypeSystemTime"@),
        in_type_known(TDH_INTYPE_SID) == Some("InTypeSid"@),
        in_type_known(TDH_INTYPE_HEXINT32) == Some("InTypeHexInt32"@),
        in_type_known(TDH_INTYPE_HEXINT64) == Some("InTypeHexInt64"@),
        in_type_known(TDH_INTYPE_COUNTEDSTRING) == Some("InTypeCountedString"@),
        in_type_known(TDH_INTYPE_COUNTEDANSISTRING) == Some("InTypeCountedAnsiString"@),
        out_type_known(TDH_OUTTYPE_NULL) == Some("OutTypeNull"@),
        out_type_known(TDH_OUTTYPE_STRING) == Some("OutTypeString"@),
        out_type_known(TDH_OUTTYPE_DATETIME) == Some("OutTypeDateTime"@),
        out_type_known(TDH_OUTTYPE_BYTE) == Some("OutTypeInt8"@),
        out_type_known(TDH_OUTTYPE_UNSIGNEDBYTE) == Some("OutTypeUInt8"@),
        out_type_known(TDH_OUTTYPE_SHORT) == Some("OutTypeInt16"@),
        out_type_known(TDH_OUTTYPE_UNSIGNEDSHORT) == Some("OutTypeUInt16"@),
        out_type_known(TDH_OUTTYPE_INT) == Some("OutTypeInt32"@),
        out_type_known(TDH_OUTTYPE_UNSIGNEDINT) == Some("OutTypeUInt32"@),
        out_type_known(TDH_OUTTYPE_LONG) == Some("OutTypeInt64"@),
        out_type_known(TDH_OUTTYPE_UNSIGNEDLONG) == Some("OutTypeUInt64"@),
        out_type_known(TDH_OUTTYPE_FLOAT) == Some("OutTypeFloat"@),
        out_type_known(TDH_OUTTYPE_DOUBLE) == Some("OutTypeDouble"@),
        out_type_known(TDH_OUTTYPE_BOOLEAN) == Some("OutTypeBoolean"@),
        out_type_known(TDH_OUTTYPE_GUID) == Some("OutTypeGuid"@),
        out_type_known(TDH_OUTTYPE_HEXBINARY) == Some("OutTypeHexBinary"@),
        out_type_known(TDH_OUTTYPE_HEXINT8) == Some("OutTypeHexInt8"@),
        out_type_known(TDH_OUTTYPE_HEXINT16) == Some("OutTypeHexInt16"@),
        out_type_known(TDH_OUTTYPE_HEXINT32) == Some("OutTypeHexInt32"@),
        out_type_known(TDH_OUTTYPE_HEXINT64) == Some("OutTypeHexInt64"@),
        out_type_known(TDH_OUTTYPE_PID) == Some("OutTypePid"@),
        out_type_known(TDH_OUTTYPE_TID) == Some("OutTypeTid"@),
        out_type_known(TDH_OUTTYPE_PORT) == Some("OutTypePort"@),
        out_type_known(TDH_OUTTYPE_IPV4) == Some("OutTypeIpv4"@),
        out_type_known(TDH_OUTTYPE_IPV6) == Some("OutTypeIpv6"@),
        out_type_known(TDH_OUTTYPE_WIN32ERROR) == Some("OutTypeWin32Error"@),
        out_type_known(TDH_OUTTYPE_NTSTATUS) == Some("OutTypeNtStatus"@),
        out_type_known(TDH_OUTTYPE_HRESULT) == Some("OutTypeHResult"@),
        out_type_known(TDH_OUTTYPE_JSON) == Some("OutTypeJson"@),
        out_type_known(TDH_OUTTYPE_UTF8) == Some("OutTypeUtf8"@),
        out_type_known(TDH_OUTTYPE_PKCS7_WITH_TYPE_INFO) == Some("OutTypePkcs7"@),
        out_type_known(TDH_OUTTYPE_CODE_POINTER) == Some("OutTypeCodePointer"@),
        out_type_known(TDH_OUTTYPE_DATETIME_UTC) == Some("OutTypeDatetimeUtc"@),
        v != TDH_INTYPE_NULL && v != TDH_INTYPE_UNICODESTRING && v != TDH_INTYPE_ANSISTRING && v != TDH_INTYPE_INT8 && v != TDH_INTYPE_UINT8 && v != TDH_INTYPE_INT16 && v != TDH_INTYPE_UINT16 && v != TDH_INTYPE_INT32 && v != TDH_INTYPE_UINT32 && v != TDH_INTYPE_INT64 && v != TDH_INTYPE_UINT64 && v != TDH_INTYPE_FLOAT && v != TDH_INTYPE_DOUBLE && v != TDH_INTYPE_BOOLEAN && v != TDH_INTYPE_BINARY && v != TDH_INTYPE_GUID && v != TDH_INTYPE_POINTER && v != TDH_INTYPE_FILETIME && v != TDH_INTYPE_SYSTEMTIME && v != TDH_INTYPE_SID && v != TDH_INTYPE_HEXINT32 && v != TDH_INTYPE_HEXINT64 && v != TDH_INTYPE_COUNTEDSTRING && v != TDH_INTYPE_COUNTEDANSISTRING ==> in_type_known(v) is None,
        v != TDH_OUTTYPE_NULL && v != TDH_OUTTYPE_STRING && v != TDH_OUTTYPE_DATETIME && v != TDH_OUTTYPE_BYTE && v != TDH_OUTTYPE_UNSIGNEDBYTE && v != TDH_OUTTYPE_SHORT && v != TDH_OUTTYPE_UNSIGNEDSHORT && v != TDH_OUTTYPE_INT && v != TDH_OUTTYPE_UNSIGNEDINT && v != TDH_OUTTYPE_LONG && v != TDH_OUTTYPE_UNSIGNEDLONG && v != TDH_OUTTYPE_FLOAT && v != TDH_OUTTYPE_DOUBLE && v != TDH_OUTTYPE_BOOLEAN && v != TDH_OUTTYPE_GUID && v != TDH_OUTTYPE_HEXBINARY && v != TDH_OUTTYPE_HEXINT8 && v != TDH_OUTTYPE_HEXINT16 && v != TDH_OUTTYPE_HEXINT32 && v != TDH_OUTTYPE_HEXINT64 && v != TDH_OUTTYPE_PID && v != TDH_OUTTYPE_TID && v != TDH_OUTTYPE_PORT && v != TDH_OUTTYPE_IPV4 && v != TDH_OUTTYPE_IPV6 && v != TDH_OUTTYPE_WIN32ERROR && v != TDH_OUTTYPE_NTSTATUS && v != TDH_OUTTYPE_HRESULT && v != TDH_OUTTYPE_JSON && v != TDH_OUTTYPE_UTF8 && v != TDH_OUTTYPE_PKCS7_WITH_TYPE_INFO && v != TDH_OUTTYPE_CODE_POINTER && v != TDH_OUTTYPE_DATETIME_UTC ==> out_type_known(v) is None,
{
}

/// The TDH name of an input type, if it has one.
pub open spec fn in_type_known(v: u16) -> Option<Seq<char>> {
    if v == 0 {
        Some("InTypeNull"@)
    } else if v == 1 {
        Some("InTypeUnicodeString"@)
    } else if v == 2 {
        Some("InTypeAnsiString"@)
    } else if v == 3 {
        Some("InTypeInt8"@)
    } else if v == 4 {
        Some("InTypeUInt8"@)
    } else if v == 5 {
        Some("InTypeInt16"@)
    } else if v == 6 {
        Some("InTypeUInt16"@)
    } else if v == 7 {
        Some("InTypeInt32"@)
    } else if v == 8 {
        Some("InTypeUInt32"@)
    } else if v == 9 {
        Some("InTypeInt64"@)
    } else if v == 10 {
        Some("InTypeUInt64"@)
    } else if v == 11 {
        Some("InTypeFloat"@)
    } else if v == 12 {
        Some("InTypeDouble"@)
    } else if v == 13 {
        Some("InTypeBoolean"@)
    } else if v == 14 {
        Some("InTypeBinary"@)
    } else if v == 15 {
        Some("InTypeGuid"@)
    } else if v == 16 {
        Some("InTypePointer"@)
    } else if v == 17 {
        Some("InTypeFileTime"@)
    } else if v == 18 {
        Some("InTypeSystemTime"@)
    } else if v == 19 {
        Some("InTypeSid"@)
    } else if v == 20 {
        Some("InTypeHexInt32"@)
    } else if v == 21 {
        Some("InTypeHexInt64"@)
    } else if v == 300 {
        Some("InTypeCountedString"@)
    } else if v == 301 {
        Some("InTypeCountedAnsiString"@)
    } else {
        None
    }
}

/// The TDH name of an output type, if it has one.
pub open spec fn out_type_known(v: u16) -> Option<Seq<char>> {
    if v == 0 {
        Some("OutTypeNull"@)
    } else if v == 1 {
        Some("OutTypeString"@)
    } else if v == 2 {
        Some("OutTypeDateTime"@)
    } else if v == 3 {
        Some("OutTypeInt8"@)
    } else if v == 4 {
        Some("OutTypeUInt8"@)
    } else if v == 5 {
        Some("OutTypeInt16"@)
    } else if v == 6 {
        Some("OutTypeUInt16"@)
    } else if v == 7 {
        Some("OutTypeInt32"@)
    } else if v == 8 {
        Some("OutTypeUInt32"@)
    } else if v == 9 {
        Some("OutTypeInt64"@)
    } else if v == 10 {
        Some("OutTypeUInt64"@)
    } else if v == 11 {
        Some("OutTypeFloat"@)
    } else if v == 12 {
        Some("OutTypeDouble"@)
    } else if v == 13 {
        Some("OutTypeBoolean"@)
    } else if v == 14 {
        Some("OutTypeGuid"@)
    } else if v == 15 {
        Some("OutTypeHexBinary"@)
    } else if v == 16 {
        Some("OutTypeHexInt8"@)
    } else if v == 17 {
        Some("OutTypeHexInt16"@)
    } else if v == 18 {
        Some("OutTypeHexInt32"@)
    } else if v == 19 {
        Some("OutTypeHexInt64"@)
    } else if v == 20 {
        Some("OutTypePid"@)
    } else if v == 21 {
        Some("OutTypeTid"@)
    } else if v == 22 {
        Some("OutTypePort"@)
    } else if v == 23 {
        Some("OutTypeIpv4"@)
    } else if v == 24 {
        Some("OutTypeIpv6"@)
    } else if v == 30 {
        Some("OutTypeWin32Error"@)
    } else if v == 31 {
        Some("OutTypeNtStatus"@)
    } else if v == 32 {
        Some("OutTypeHResult"@)
    } else if v == 34 {
        Some("OutTypeJson"@)
    } else if v == 35 {
        Some("OutTypeUtf8"@)
    } else if v == 36 {
        Some("OutTypePkcs7"@)
    } else if v == 37 {
        Some("OutTypeCodePointer"@)
    } else if v == 38 {
        Some("OutTypeDatetimeUtc"@)
    } else {
        None
    }
}

/// The name of a Windows error code that the tools know.
pub open spec fn error_code_known(v: u32) -> Option<Seq<char>> {
    if v == 0 {
        Some("ERROR_SUCCESS"@)
    } else if v == 2 {
        Some("ERROR_FILE_NOT_FOUND"@)
    } else if v == 6 {
        Some("ERROR_INVALID_HANDLE"@)
    } else if v == 8 {
        Some("ERROR_NOT_ENOUGH_MEMORY"@)
    } else if v == 13 {
        Some("ERROR_INVALID_DATA"@)
    } else if v == 87 {
        Some("ERROR_INVALID_PARAMETER"@)
    } else if v == 111 {
        Some("ERROR_ALREADY_EXISTS"@)
    } else if v == 1223 {
        Some("ERROR_CANCELLED"@)
    } else if v == 1168 {
        Some("ERROR_NOT_FOUND"@)
    } else if v == 4317 {
        Some("ERROR_NOT_FOUND"@)
    } else {
        None
    }
}

/// The name of an input type, `Unknown` for others.
pub fn in_type_name(v: u16) -> (s: &'static str)
    ensures
        s@ == match in_type_known(v) {
            Some(t) => t,
            None => "Unknown"@,
        },
{
    match v {
        0 => "InTypeNull",
        1 => "InTypeUnicodeString",
        2 => "InTypeAnsiString",
        3 => "InTypeInt8",
        4 => "InTypeUInt8",
        5 => "InTypeInt16",
        6 => "InTypeUInt16",
        7 => "InTypeInt32",
        8 => "InTypeUInt32",
        9 => "InTypeInt64",
        10 => "InTypeUInt64",
        11 => "InTypeFloat",
        12 => "InTypeDouble",
        13 => "InTypeBoolean",
        14 => "InTypeBinary",
        15 => "InTypeGuid",
        16 => "InTypePointer",
        17 => "InTypeFileTime",
        18 => "InTypeSystemTime",
        19 => "InTypeSid",
        20 => "InTypeHexInt32",
        21 => "InTypeHexInt64",
        300 => "InTypeCountedString",
        301 => "InTypeCountedAnsiString",
        _ => "Unknown",
    }
}

/// The name of an output type, `Unknown` for others.
pub fn out_type_name(v: u16) -> (s: &'static str)
    ensures
        s@ == match out_type_known(v) {
            Some(t) => t,
            None => "Unknown"@,
        },
{
    match v {
        0 => "OutTypeNull",
        1 => "OutTypeString",
        2 => "OutTypeDateTime",
        3 => "OutTypeInt8",
        4 => "OutTypeUInt8",
        5 => "OutTypeInt16",
        6 => "OutTypeUInt16",
        7 => "OutTypeInt32",
        8 => "OutTypeUInt32",
        9 => "OutTypeInt64",
        10 => "OutTypeUInt64",
        11 => "OutTypeFloat",
        12 => "OutTypeDouble",
        13 => "OutTypeBoolean",
        14 => "OutTypeGuid",
        15 => "OutTypeHexBinary",
        16 => "OutTypeHexInt8",
        17 => "OutTypeHexInt16",
        18 => "OutTypeHexInt32",
        19 => "OutTypeHexInt64",
        20 => "OutTypePid",
        21 => "OutTypeTid",
        22 => "OutTypePort",
        23 => "OutTypeIpv4",
        24 => "OutTypeIpv6",
        30 => "OutTypeWin32Error",
        31 => "OutTypeNtStatus",
        32 => "OutTypeHResult",
        34 => "OutTypeJson",
        35 => "OutTypeUtf8",
        36 => "OutTypePkcs7",
        37 => "OutTypeCodePointer",
        38 => "OutTypeDatetimeUtc",
        _ => "Unknown",
    }
}

/// The name of a Windows error code, `UNKNOWN` for others.
pub fn error_code_name(v: u32) -> (s: &'static str)
    ensures
        s@ == match error_code_known(v) {
            Some(t) => t,
            None => "UNKNOWN"@,
        },
{
    match v {
        0 => "ERROR_SUCCESS",
        2 => "ERROR_FILE_NOT_FOUND",
        6 => "ERROR_INVALID_HANDLE",
        8 => "ERROR_NOT_ENOUGH_MEMORY",
        13 => "ERROR_INVALID_DATA",
        87 => "ERROR_INVALID_PARAMETER",
        111 => "ERROR_ALREADY_EXISTS",
        1223 => "ERROR_CANCELLED",
        1168 => "ERROR_NOT_FOUND",
        4317 => "ERROR_NOT_FOUND",
        _ => "UNKNOWN",
    }
}

/// The name of an input type, `Unknown(n)` for others.
pub open spec fn in_type_label_text(v: u16) -> Seq<char> {
    match in_type_known(v) {
        Some(t) => t,
        None => "Unknown("@ + dec(v as nat) + ")"@,
    }
}

/// The name of an output type, `Unknown(n)` for others.
pub open spec fn out_type_label_text(v: u16) -> Seq<char> {
    match out_type_known(v) {
        Some(t) => t,
        None => "Unknown("@ + dec(v as nat) + ")"@,
    }
}

fn unknown_label(v: u64) -> (s: String)
    ensures
        s@ == "Unknown("@ + dec(v as nat) + ")"@,
{
    let mut s = owned("Unknown(");
    push_dec(&mut s, v);
    push_str(&mut s, ")");
    s
}

/// The name of an input type, with the number of an unknown one.
pub fn in_type_label(v: u16) -> (s: String)
    ensures
        s@ == in_type_label_text(v),
{
    let name = in_type_name(v);
    if in_type_is_known(v) {
        owned(name)
    } else {
        unknown_label(v as u64)
    }
}

/// The name of an output type, with the number of an unknown one.
pub fn out_type_label(v: u16) -> (s: String)
    ensures
        s@ == out_type_label_text(v),
{
    let name = out_type_name(v);
    if out_type_is_known(v) {
        owned(name)
    } else {
        unknown_label(v as u64)
    }
}

fn in_type_is_known(v: u16) -> (b: bool)
    ensures
        b == in_type_known(v) is Some,
{
    v <= 21 || v == 300 || v == 301
}

fn out_type_is_known(v: u16) -> (b: bool)
    ensures
        b == out_type_known(v) is Some,
{
    v <= 24 || (30 <= v && v <= 32) || (34 <= v && v <= 38)
}

/// The decoding source of a schema: `XML File`, `WMI MOF`, `WPP`, `TraceLogging`,
/// or `Unknown(n)`.
pub open spec fn decoding_source_text(v: i32) -> Seq<char> {
    if v == 0 {
        "XML File"@
    } else if v == 1 {
        "WMI MOF"@
    } else if v == 2 {
        "WPP"@
    } else if v == 3 {
        "TraceLogging"@
    } else {
        "Unknown("@ + dec_signed_padded(v as int, 0) + ")"@
    }
}

/// Names the decoding source of a schema.
pub fn decoding_source_name(v: i32) -> (s: String)
    ensures
        s@ == decoding_source_text(v),
{
    if v == 0 {
        owned("XML File")
    } else if v == 1 {
        owned("WMI MOF")
    } else if v == 2 {
        owned("WPP")
    } else if v == 3 {
        owned("TraceLogging")
    } else {
        let mut s = owned("Unknown(");
        push_dec_signed_padded(&mut s, v as i64, 0);
        push_str(&mut s, ")");
        s
    }
}

/// Identity of an event type: provider, event id, version and opcode.
#[derive(Debug, Clone, Copy, PartialEq, Eq)]
pub struct EventTypeId {
    pub provider_guid: Guid,
    pub event_id: u16,
    pub version: u8,
    pub opcode: u8,
}

/// `xxxxxxxx-xxxx-xxxx_{id}_v{version}_op{opcode}` of an event type.
pub open spec fn type_key_text(t: EventTypeId) -> Seq<char> {
    hex_pad(t.provider_guid.data1 as nat, 8, false) + seq!['-'] + hex_pad(
        t.provider_guid.data2 as nat,
        4,
        false,
    ) + seq!['-'] + hex_pad(t.provider_guid.data3 as nat, 4, false) + seq!['_'] + dec(
        t.event_id as nat,
    ) + "_v"@ + dec(t.version as nat) + "_op"@ + dec(t.opcode as nat)
}

/// `{file key of the provider}_{id}_v{version}_op{opcode}`: the key under which
/// observations of an event type are filed.
pub open spec fn observation_key_text(t: EventTypeId) -> Seq<char> {
    file_key_text(t.provider_guid) + seq!['_'] + dec(t.event_id as nat) + "_v"@ + dec(
        t.version as nat,
    ) + "_op"@ + dec(t.opcode as nat)
}

fn push_id_version_opcode(s: &mut String, t: &EventTypeId)
    ensures
        final(s)@ == old(s)@ + dec(t.event_id as nat) + "_v"@ + dec(t.version as nat) + "_op"@
            + dec(t.opcode as nat),
{
    let ghost start = s@;
    push_dec(s, t.event_id as u64);
    push_str(s, "_v");
    push_dec(s, t.version as u64);
    push_str(s, "_op");
    push_dec(s, t.opcode as u64);
    assert(s@ =~= start + dec(t.event_id as nat) + "_v"@ + dec(t.version as nat) + "_op"@ + dec(
        t.opcode as nat,
    ));
}

impl EventTypeId {
    /// The key of this event type.
    pub fn format_key(&self) -> (s: String)
        ensures
            s@ == type_key_text(*self),
    {
        let mut s = String::new();
        push_padded(&mut s, self.provider_guid.data1 as u64, 16, false, 8);
        push_char(&mut s, '-');
        push_padded(&mut s, self.provider_guid.data2 as u64, 16, false, 4);
        push_char(&mut s, '-');
        push_padded(&mut s, self.provider_guid.data3 as u64, 16, false, 4);
        push_char(&mut s, '_');
        push_id_version_opcode(&mut s, self);
        assert(s@ =~= type_key_text(*self));
        s
    }

    /// The key under which observations of this event type are filed.
    pub fn observation_key(&self) -> (s: String)
        ensures
            s@ == observation_key_text(*self),
    {
        let mut s = sanitize_key_static(&self.provider_guid);
        push_char(&mut s, '_');
        push_id_version_opcode(&mut s, self);
        assert(s@ =~= observation_key_text(*self));
        s
    }
}

/// The identity of the event type of a record with these fields.
pub fn build_type_id(provider_guid: Guid, event_id: u16, version: u8, opcode: u8) -> (t: EventTypeId)
    ensures
        t == (EventTypeId { provider_guid, event_id, version, opcode }),
{
    EventTypeId { provider_guid, event_id, version, opcode }
}

/// Length of a property: a fixed size, or the index of the property that holds it.
#[derive(Debug, Clone, Copy, PartialEq, Eq, Structural)]
pub enum PropertyLengthInfo {
    Fixed(u16),
    Index(u16),
}

/// Count of a property: a fixed count, or the index of the property that holds it.
#[derive(Debug, Clone, Copy, PartialEq, Eq, Structural)]
pub enum PropertyCountInfo {
    Fixed(u16),
    Index(u16),
}

/// One property of an event schema.
#[derive(Debug, Clone)]
pub struct PropertyInfo {
    pub name: String,
    pub in_type: u16,
    pub out_type: u16,
    pub length: PropertyLengthInfo,
    pub count: Option<PropertyCountInfo>,
    pub flags: u32,
}

/// The property described by the raw fields of an `EVENT_PROPERTY_INFO`: the
/// types are read only for non-struct properties (flag 0x1 clear), flag 0x2 makes
/// the length a property index, flag 0x4 makes the count one; a fixed count is
/// kept only above 1.
pub fn decode_property(
    name: String,
    flags: u32,
    in_type_raw: u16,
    out_type_raw: u16,
    length_raw: u16,
    count_raw: u16,
) -> (p: PropertyInfo)
    ensures
        p.name@ == name@,
        p.flags == flags,
        p.in_type == (if flags & 1 == 0 { in_type_raw } else { 0 }),
        p.out_type == (if flags & 1 == 0 { out_type_raw } else { 0 }),
        p.length == (if flags & 2 != 0 {
            PropertyLengthInfo::Index(length_raw)
        } else {
            PropertyLengthInfo::Fixed(length_raw)
        }),
        p.count == (if flags & 4 != 0 {
            Some(PropertyCountInfo::Index(count_raw))
        } else if count_raw > 1 {
            Some(PropertyCountInfo::Fixed(count_raw))
        } else {
            None
        }),
{
    let (in_type, out_type) = if flags & 1 == 0 { (in_type_raw, out_type_raw) } else { (0, 0) };
    let length = if flags & 2 != 0 {
        PropertyLengthInfo::Index(length_raw)
    } else {
        PropertyLengthInfo::Fixed(length_raw)
    };
    let count = if flags & 4 != 0 {
        Some(PropertyCountInfo::Index(count_raw))
    } else if count_raw > 1 {
        Some(PropertyCountInfo::Fixed(count_raw))
    } else {
        None
    };
    PropertyInfo { name, in_type, out_type, length, count, flags }
}

/// The one-line description of a property.
pub open spec fn property_text(p: PropertyInfo) -> Seq<char> {
    p.name@ + ": InType="@ + match in_type_known(p.in_type) {
        Some(t) => t,
        None => "Unknown"@,
    } + " OutType="@ + match out_type_known(p.out_type) {
        Some(t) => t,
        None => "Unknown"@,
    } + match p.length {
        PropertyLengthInfo::Fixed(l) => " Len="@ + dec(l as nat),
        PropertyLengthInfo::Index(i) => " LenIdx="@ + dec(i as nat),
    } + match p.count {
        None => Seq::empty(),
        Some(PropertyCountInfo::Fixed(c)) => " Count="@ + dec(c as nat),
        Some(PropertyCountInfo::Index(i)) => " CountIdx="@ + dec(i as nat),
    } + if p.flags != 0 {
        " Flags=0x"@ + hex_pad(p.flags as nat, 8, false)
    } else {
        Seq::empty()
    }
}

impl PropertyInfo {
    /// `{name}: InType={..} OutType={..}` with the length, the count if any and the
    /// flags if set.
    pub fn describe(&self) -> (s: String)
        ensures
            s@ == property_text(*self),
    {
        let mut s = self.name.clone();
        push_str(&mut s, ": InType=");
        push_str(&mut s, in_type_name(self.in_type));
        push_str(&mut s, " OutType=");
        push_str(&mut s, out_type_name(self.out_type));
        let ghost head = s@;
        match self.length {
            PropertyLengthInfo::Fixed(l) => {
                push_str(&mut s, " Len=");
                push_dec(&mut s, l as u64);
            },
            PropertyLengthInfo::Index(i) => {
                push_str(&mut s, " LenIdx=");
                push_dec(&mut s, i as u64);
            },
        }
        match self.count {
            None => {},
            Some(PropertyCountInfo::Fixed(c)) => {
                push_str(&mut s, " Count=");
                push_dec(&mut s, c as u64);
            },
            Some(PropertyCountInfo::Index(i)) => {
                push_str(&mut s, " CountIdx=");
                push_dec(&mut s, i as u64);
            },
        }
        if self.flags != 0 {
            push_str(&mut s, " Flags=0x");
            push_padded(&mut s, self.flags as u64, 16, false, 8);
        }
        assert(s@ =~= property_text(*self));
        s
    }
}

/// Schema of an event type, with its properties.
#[derive(Debug, Clone)]
pub struct EventTypeInfo {
    pub provider_guid: String,
    pub event_id: u16,
    pub opcode: u8,
    pub version: u8,
    pub provider_name: String,
    pub opcode_name: String,
    pub properties: Vec<PropertyInfo>,
}

/// `{provider} {opcode name} (opcode={}, v{}, id={}) - {n} properties`.
pub open spec fn type_info_text(t: EventTypeInfo) -> Seq<char> {
    t.provider_name@ + seq![' '] + t.opcode_name@ + " (opcode="@ + dec(t.opcode as nat) + ", v"@
        + dec(t.version as nat) + ", id="@ + dec(t.event_id as nat) + ") - "@ + dec(
        t.properties@.len(),
    ) + " properties"@
}

impl EventTypeInfo {
    /// The one-line description of the schema.
    pub fn describe(&self) -> (s: String)
        ensures
            s@ == type_info_text(*self),
    {
        let mut s = self.provider_name.clone();
        push_char(&mut s, ' ');
        push_str(&mut s, self.opcode_name.as_str());
        push_str(&mut s, " (opcode=");
        push_dec(&mut s, self.opcode as u64);
        push_str(&mut s, ", v");
        push_dec(&mut s, self.version as u64);
        push_str(&mut s, ", id=");
        push_dec(&mut s, self.event_id as u64);
        push_str(&mut s, ") - ");
        push_dec(&mut s, self.properties.len() as u64);
        push_str(&mut s, " properties");
        assert(s@ =~= type_info_text(*self));
        s
    }
}

/// One observed event: its type key, process, thread, time and user data.
#[derive(Debug, Clone)]
pub struct EventObservation {
    pub type_key: String,
    pub process_id: u32,
    pub thread_id: u32,
    pub timestamp: i64,
    pub user_data_bytes: Vec<u8>,
}

/// The observation of a record with these fields.
pub fn build_observation(
    type_key: &str,
    process_id: u32,
    thread_id: u32,
    timestamp: i64,
    user_data: &[u8],
) -> (o: EventObservation)
    ensures
        o.type_key@ == type_key@,
        o.process_id == process_id,
        o.thread_id == thread_id,
        o.timestamp == timestamp,
        o.user_data_bytes@ == user_data@,
{
    let mut bytes: Vec<u8> = Vec::new();
    let mut k: usize = 0;
    while k < user_data.len()
        invariant
            k <= user_data@.len(),
            bytes@ == user_data@.subrange(0, k as int),
        decreases user_data.len() - k,
    {
        bytes.push(user_data[k]);
        k = k + 1;
        assert(bytes@ =~= user_data@.subrange(0, k as int));
    }
    assert(user_data@.subrange(0, user_data@.len() as int) =~= user_data@);
    EventObservation {
        type_key: owned(type_key),
        process_id,
        thread_id,
        timestamp,
        user_data_bytes: bytes,
    }
}

/// Lower-case hex of each byte, two digits per byte.
pub open spec fn hex_lower(b: Seq<u8>) -> Seq<char>
    decreases b.len(),
{
    if b.len() == 0 {
        Seq::empty()
    } else {
        hex_lower(b.drop_last()) + hex_pad(b.last() as nat, 2, false)
    }
}

/// Lower-case hex of `b`.
pub fn hex_of_bytes(b: &Vec<u8>) -> (s: String)
    ensures
        s@ == hex_lower(b@),
{
    let mut s = String::new();
    let mut k: usize = 0;
    while k < b.len()
        invariant
            k <= b@.len(),
            s@ == hex_lower(b@.subrange(0, k as int)),
        decreases b.len() - k,
    {
        let ghost prev = b@.subrange(0, k as int);
        push_padded(&mut s, b[k] as u64, 16, false, 2);
        k = k + 1;
        assert(b@.subrange(0, k as int).drop_last() =~= prev);
    }
    assert(b@.subrange(0, b@.len() as int) =~= b@);
    s
}

/// An observation as written out, with its user data in hex.
#[derive(Debug, Clone)]
pub struct SerializedObservation {
    pub type_key: String,
    pub process_id: u32,
    pub thread_id: u32,
    pub timestamp: i64,
    pub user_data_hex: String,
}

impl SerializedObservation {
    /// The written form of `obs`.
    pub fn from_observation(obs: &EventObservation) -> (r: SerializedObservation)
        ensures
            r.type_key@ == obs.type_key@,
            r.process_id == obs.process_id,
            r.thread_id == obs.thread_id,
            r.timestamp == obs.timestamp,
            r.user_data_hex@ == hex_lower(obs.user_data_bytes@),
    {
        SerializedObservation {
            type_key: obs.type_key.clone(),
            process_id: obs.process_id,
            thread_id: obs.thread_id,
            timestamp: obs.timestamp,
            user_data_hex: hex_of_bytes(&obs.user_data_bytes),
        }
    }
}

/// Message from the event callback to the disk writer.
#[derive(Debug, Clone)]
pub enum WriteCommand {
    /// A new event type was first observed: write its schema.
    NewType(EventTypeInfo),
    /// An observation of an event.
    Observation(EventObservation),
    /// Flush and close all files.
    Shutdown,
}

} // verus!
