//! Outcome of asking TDH for the schema of a (possibly fabricated) event record.

use vstd::prelude::*;
use crate::text::{dec, owned, push_dec, push_str};

verus! {

/// `ERROR_INSUFFICIENT_BUFFER`: the answer to a size query that asks for a buffer.
pub const ERROR_INSUFFICIENT_BUFFER: u32 = 122;

/// Result of calling `TdhGetEventInformation`.
#[derive(Debug, Clone)]
pub enum TdhResult {
    /// The schema was decoded.
    Success {
        provider_name: String,
        task_name: String,
        opcode_name: String,
        decoding_source: String,
        property_count: u32,
    },
    /// The API returned an error code.
    Error { error_code: u32, error_name: String },
    /// The size query asked for a zero-sized buffer.
    ZeroBuffer,
}

/// The name of a Windows error code as the fabrication experiments print it.
pub open spec fn tdh_error_text(code: u32) -> Seq<char> {
    if code == 0 {
        "ERROR_SUCCESS"@
    } else if code == 2 {
        "ERROR_FILE_NOT_FOUND"@
    } else if code == 8 {
        "ERROR_NOT_ENOUGH_MEMORY"@
    } else if code == 13 {
        "ERROR_INVALID_DATA"@
    } else if code == 4317 {
        "ERROR_NOT_FOUND"@
    } else if code == 111 {
        "ERROR_ALREADY_EXISTS"@
    } else if code == 87 {
        "ERROR_INVALID_PARAMETER"@
    } else if code == 1223 {
        "ERROR_CANCELLED"@
    } else {
        "UNKNOWN("@ + dec(code as nat) + ")"@
    }
}

/// Names a Windows error code, `UNKNOWN(n)` for others.
pub fn tdh_error_name(code: u32) -> (s: String)
    ensures
        s@ == tdh_error_text(code),
{
    if code == 0 {
        owned("ERROR_SUCCESS")
    } else if code == 2 {
        owned("ERROR_FILE_NOT_FOUND")
    } else if code == 8 {
        owned("ERROR_NOT_ENOUGH_MEMORY")
    } else if code == 13 {
        owned("ERROR_INVALID_DATA")
    } else if code == 4317 {
        owned("ERROR_NOT_FOUND")
    } else if code == 111 {
        owned("ERROR_ALREADY_EXISTS")
    } else if code == 87 {
        owned("ERROR_INVALID_PARAMETER")
    } else if code == 1223 {
        owned("ERROR_CANCELLED")
    } else {
        let mut s = owned("UNKNOWN(");
        push_dec(&mut s, code as u64);
        push_str(&mut s, ")");
        s
    }
}

/// One-line summary of a result.
pub open spec fn summary_text(r: TdhResult) -> Seq<char> {
    match r {
        TdhResult::Success { provider_name, opcode_name, property_count, decoding_source, .. } =>
            "OK: provider="@ + provider_name@ + ", opcode="@ + opcode_name@ + ", props="@ + dec(
            property_count as nat,
        ) + ", source="@ + decoding_source@,
        TdhResult::Error { error_code, error_name } => "ERR("@ + dec(error_code as nat) + "): "@
            + error_name@,
        TdhResult::ZeroBuffer => "ERR: zero buffer size"@,
    }
}

impl TdhResult {
    /// The schema was decoded.
    pub fn is_success(&self) -> (b: bool)
        ensures
            b == (*self is Success),
    {
        match self {
            TdhResult::Success { .. } => true,
            _ => false,
        }
    }

    /// `OK: provider=.., opcode=.., props=.., source=..`, `ERR(code): name`, or
    /// `ERR: zero buffer size`.
    pub fn summary(&self) -> (s: String)
        ensures
            s@ == summary_text(*self),
    {
        match self {
            TdhResult::Success { provider_name, opcode_name, property_count, decoding_source, .. } => {
                let mut s = owned("OK: provider=");
                push_str(&mut s, provider_name.as_str());
                push_str(&mut s, ", opcode=");
                push_str(&mut s, opcode_name.as_str());
                push_str(&mut s, ", props=");
                push_dec(&mut s, *property_count as u64);
                push_str(&mut s, ", source=");
                push_str(&mut s, decoding_source.as_str());
                s
            },
            TdhResult::Error { error_code, error_name } => {
                let mut s = owned("ERR(");
                push_dec(&mut s, *error_code as u64);
                push_str(&mut s, "): ");
                push_str(&mut s, error_name.as_str());
                s
            },
            TdhResult::ZeroBuffer => owned("ERR: zero buffer size"),
        }
    }
}

/// What the size query of `TdhGetEventInformation` decides: an error result for
/// any status but `ERROR_INSUFFICIENT_BUFFER`, `ZeroBuffer` for a zero size, and
/// `None` (go on and fetch) otherwise.
pub fn size_query_outcome(status: u32, buffer_size: u32) -> (r: Option<TdhResult>)
    ensures
        status != ERROR_INSUFFICIENT_BUFFER ==> (r matches Some(TdhResult::Error { error_code, error_name })
            && error_code == status && error_name@ == tdh_error_text(status)),
        status == ERROR_INSUFFICIENT_BUFFER && buffer_size == 0 ==> r matches Some(TdhResult::ZeroBuffer),
        status == ERROR_INSUFFICIENT_BUFFER && buffer_size != 0 ==> r is None,
{
    if status != ERROR_INSUFFICIENT_BUFFER {
        Some(TdhResult::Error { error_code: status, error_name: tdh_error_name(status) })
    } else if buffer_size == 0 {
        Some(TdhResult::ZeroBuffer)
    } else {
        None
    }
}

/// What the fetching call decides: an error result for a non-zero status,
/// `None` (go on and decode) for success.
pub fn fetch_outcome(status: u32) -> (r: Option<TdhResult>)
    ensures
        status != 0 ==> (r matches Some(TdhResult::Error { error_code, error_name })
            && error_code == status && error_name@ == tdh_error_text(status)),
        status == 0 ==> r is None,
{
    if status != 0 {
        Some(TdhResult::Error { error_code: status, error_name: tdh_error_name(status) })
    } else {
        None
    }
}

/// The result when the buffer for the schema could not be allocated.
pub fn allocation_failed() -> (r: TdhResult)
    ensures
        r matches TdhResult::Error { error_code, error_name } && error_code == 8
            && error_name@ == "Allocation failed"@,
{
    TdhResult::Error { error_code: 8, error_name: owned("Allocation failed") }
}

} // verus!
