//! Settings of the TDH event enumerator and the session they call for.

use vstd::prelude::*;
use crate::guid::{Guid, guid_parse, parse_guid};
use crate::scan::{parse_hex, parse_hex_spec, split, split_on, strip_hex, strip_hex_prefixes, trim, trim_ws, views};
use crate::text::chars_of;

verus! {

/// How the enumerator traces.
#[derive(Debug, Clone, Copy, PartialEq, Eq, Structural)]
pub enum TraceMode {
    /// Kernel tracing with EnableFlags and optional PERFINFO_GROUPMASK.
    Kernel,
    /// User-mode tracing with keyword filtering.
    User,
}

/// Settings of one enumerator run.
#[derive(Debug, Clone)]
pub struct AppConfig {
    /// Trace mode: kernel or user.
    pub mode: TraceMode,
    /// Provider GUID text.
    pub guid: String,
    /// Seconds to capture events.
    pub duration: u64,
    /// EnableFlags for kernel tracing, as hex text.
    pub enable_flags: Option<String>,
    /// PERFINFO_GROUPMASK as eight comma-separated hex words.
    pub group_mask: Option<String>,
    /// Keyword for user tracing, as hex text.
    pub keyword: Option<String>,
    /// Level for the provider.
    pub level: u8,
    /// Output directory.
    pub output: String,
    /// Prefix of the output files.
    pub output_prefix: String,
    /// Verbose logging.
    pub verbose: bool,
    /// Do not run file-ops-trigger during the session.
    pub no_trigger: bool,
}

/// The value of hex text with optional `0x`/`0X` prefixes, if it fits under `max`.
pub open spec fn hex_value(s: Seq<char>, max: nat) -> Option<nat> {
    match parse_hex_spec(strip_hex_prefixes(s), max) {
        Ok(v) => Some(v),
        Err(_) => None,
    }
}

/// The group mask written in `s`: eight comma-separated hex words, each trimmed
/// and with optional `0x`/`0X` prefixes; `None` unless there are exactly eight and
/// each one is a 32-bit value.
pub open spec fn group_mask_value(s: Seq<char>) -> Option<Seq<u32>> {
    let parts = split_on(s, ',');
    if parts.len() == 8 && forall|i: int|
        0 <= i < 8 ==> #[trigger] hex_value(trim_ws(parts[i]), 0xffff_ffff) is Some {
        Some(Seq::new(8, |i: int| hex_value(trim_ws(parts[i]), 0xffff_ffff)->0 as u32))
    } else {
        None
    }
}

/// Reads optional hex text bounded by `max`.
fn read_hex(s: &String, max: u64) -> (r: Option<u64>)
    ensures
        match hex_value(s@, max as nat) {
            Some(v) => r == Some(v as u64) && v <= max,
            None => r is None,
        },
{
    let chars = chars_of(s.as_str());
    let digits = strip_hex(&chars);
    match parse_hex(&digits, max) {
        Ok(v) => Some(v),
        Err(_) => None,
    }
}

impl AppConfig {
    /// EnableFlags as a 32-bit value, if given and hex.
    pub fn parse_enable_flags(&self) -> (r: Option<u32>)
        ensures
            match self.enable_flags {
                None => r is None,
                Some(s) => match hex_value(s@, 0xffff_ffff) {
                    Some(v) => r == Some(v as u32),
                    None => r is None,
                },
            },
    {
        match &self.enable_flags {
            None => None,
            Some(s) => match read_hex(s, 0xffff_ffff) {
                Some(v) => Some(v as u32),
                None => None,
            },
        }
    }

    /// The eight group-mask words, if given and well formed.
    pub fn parse_group_mask(&self) -> (r: Option<[u32; 8]>)
        ensures
            match self.group_mask {
                None => r is None,
                Some(s) => match group_mask_value(s@) {
                    Some(m) => r matches Some(a) && a@ == m,
                    None => r is None,
                },
            },
    {
        match &self.group_mask {
            None => None,
            Some(s) => {
                let chars = chars_of(s.as_str());
                let parts = split(&chars, ',');
                if parts.len() != 8 {
                    return None;
                }
                let ghost pv = split_on(s@, ',');
                let mut mask = [0u32; 8];
                let mut i: usize = 0;
                while i < 8
                    invariant
                        i <= 8,
                        parts@.len() == 8,
                        pv == views(parts@),
                        pv == split_on(s@, ','),
                        self.group_mask == Some(*s),
                        forall|j: int|
                            0 <= j < i ==> #[trigger] hex_value(trim_ws(pv[j]), 0xffff_ffff) is Some
                                && mask@[j] == hex_value(trim_ws(pv[j]), 0xffff_ffff)->0 as u32,
                    decreases 8 - i,
                {
                    assert(pv[i as int] == parts@[i as int]@);
                    let part = trim(&parts[i]);
                    let digits = strip_hex(&part);
                    match parse_hex(&digits, 0xffff_ffff) {
                        Ok(v) => {
                            mask[i] = v as u32;
                        },
                        Err(_) => {
                            assert(hex_value(trim_ws(pv[i as int]), 0xffff_ffff) is None);
                            return None;
                        },
                    }
                    i = i + 1;
                }
                assert(mask@ =~= group_mask_value(s@)->0);
                Some(mask)
            },
        }
    }

    /// The user-mode keyword: the hex value given, or 0.
    pub fn parse_keyword(&self) -> (r: u64)
        ensures
            r == match self.keyword {
                None => 0,
                Some(s) => match hex_value(s@, 0xffff_ffff_ffff_ffff) {
                    Some(v) => v as u64,
                    None => 0,
                },
            },
    {
        match &self.keyword {
            None => 0,
            Some(s) => match read_hex(s, 0xffff_ffff_ffff_ffff) {
                Some(v) => v,
                None => 0,
            },
        }
    }

    /// The provider GUID, or the message saying which part of it is wrong.
    pub fn parse_provider_guid(&self) -> (r: Result<Guid, String>)
        requires
            guid_parse(self.guid@) is Some,
        ensures
            match guid_parse(self.guid@) {
                Some(Ok((d1, d2, d3, d4))) => r matches Ok(g) && g.data1 == d1 && g.data2 == d2
                    && g.data3 == d3 && g.data4@ == d4,
                Some(Err(msg)) => r matches Err(m) && m@ == msg,
                None => false,
            },
    {
        parse_guid(self.guid.as_str())
    }
}

/// What a trace session is to enable.
#[derive(Debug, Clone)]
pub enum SessionPlan {
    /// A kernel session: the provider, its EnableFlags and the group mask to set,
    /// whose first word already carries the EnableFlags.
    Kernel { session_name: String, provider: Guid, enable_flags: u32, group_mask: Option<[u32; 8]> },
    /// A user-mode session: the provider and its keyword.
    User { session_name: String, provider: Guid, keyword: u64 },
}

/// The group mask handed to the kernel: `masks` with `enable_flags` in word 0.
pub fn merged_group_mask(masks: [u32; 8], enable_flags: u32) -> (r: [u32; 8])
    ensures
        r@ == masks@.update(0, masks@[0] | enable_flags),
{
    let mut r = masks;
    r[0] = r[0] | enable_flags;
    r
}

/// Decides the session for `config`: kernel sessions take the EnableFlags (0 when
/// absent or not hex) and the group mask, user sessions the keyword; a GUID that
/// cannot be read ends the run with its message.
pub fn run_session(config: &AppConfig) -> (r: Result<SessionPlan, String>)
    requires
        guid_parse(config.guid@) is Some,
    ensures
        match guid_parse(config.guid@) {
            Some(Err(msg)) => r matches Err(m) && m@ == msg,
            Some(Ok((d1, d2, d3, d4))) => match r {
                Ok(SessionPlan::Kernel { session_name, provider, enable_flags, group_mask }) => {
                    &&& config.mode == TraceMode::Kernel
                    &&& session_name@ == "TdhEnumeratorKernel"@
                    &&& provider.data1 == d1 && provider.data2 == d2 && provider.data3 == d3
                        && provider.data4@ == d4
                    &&& enable_flags == match config.enable_flags {
                        None => 0u32,
                        Some(s) => match hex_value(s@, 0xffff_ffff) {
                            Some(v) => v as u32,
                            None => 0u32,
                        },
                    }
                    &&& match config.group_mask {
                        None => group_mask is None,
                        Some(s) => match group_mask_value(s@) {
                            Some(m) => group_mask matches Some(a) && a@ == m.update(
                                0,
                                m[0] | enable_flags,
                            ),
                            None => group_mask is None,
                        },
                    }
                },
                Ok(SessionPlan::User { session_name, provider, keyword }) => {
                    &&& config.mode == TraceMode::User
                    &&& session_name@ == "TdhEnumeratorUser"@
                    &&& provider.data1 == d1 && provider.data2 == d2 && provider.data3 == d3
                        && provider.data4@ == d4
                    &&& keyword == config.parse_keyword_spec()
                },
                Err(_) => false,
            },
            None => false,
        },
{
    let provider = match config.parse_provider_guid() {
        Ok(g) => g,
        Err(e) => {
            return Err(e);
        },
    };
    match config.mode {
        TraceMode::Kernel => {
            let enable_flags = match config.parse_enable_flags() {
                Some(f) => f,
                None => 0,
            };
            let group_mask = match config.parse_group_mask() {
                Some(m) => Some(merged_group_mask(m, enable_flags)),
                None => None,
            };
            Ok(
                SessionPlan::Kernel {
                    session_name: crate::text::owned("TdhEnumeratorKernel"),
                    provider,
                    enable_flags,
                    group_mask,
                },
            )
        },
        TraceMode::User => {
            let keyword = config.parse_keyword();
            Ok(
                SessionPlan::User {
                    session_name: crate::text::owned("TdhEnumeratorUser"),
                    provider,
                    keyword,
                },
            )
        },
    }
}

impl AppConfig {
    /// The keyword that `parse_keyword` returns.
    pub open spec fn parse_keyword_spec(&self) -> u64 {
        match self.keyword {
            None => 0,
            Some(s) => match hex_value(s@, 0xffff_ffff_ffff_ffff) {
                Some(v) => v as u64,
                None => 0,
            },
        }
    }
}

} // verus!
