//! The report lines of the record-fabrication experiments: the hex of captured
//! user data, its previews, and one line per TDH outcome.

use vstd::prelude::*;
use crate::tdh_result::{summary_text, TdhResult};
use crate::tdh_types::hex_lower;
use crate::text::{dec, owned, pad_left, push_char, push_dec, push_str};

verus! {

/// The value of a hex digit of either case; -1 for any other character.
pub open spec fn hex_value(c: char) -> int {
    if '0' <= c <= '9' {
        c as int - '0' as int
    } else if 'a' <= c <= 'f' {
        c as int - 'a' as int + 10
    } else if 'A' <= c <= 'F' {
        c as int - 'A' as int + 10
    } else {
        -1
    }
}

/// An even number of hex digits.
pub open spec fn hex_text(s: Seq<char>) -> bool {
    s.len() % 2 == 0 && forall|i: int| 0 <= i < s.len() ==> hex_value(#[trigger] s[i]) >= 0
}

/// The bytes written by the hex digit pairs of `s`.
pub open spec fn decoded(s: Seq<char>) -> Seq<u8> {
    Seq::new(s.len() / 2, |i: int| (hex_value(s[2 * i]) * 16 + hex_value(s[2 * i + 1])) as u8)
}

/// Calls `hex::encode`: two lower-case hex digits per byte, high nibble first.
#[verifier::external_body]
fn hex_encode(data: &[u8]) -> (s: String)
    ensures
        s@ == hex_lower(data@),
{
    hex::encode(data)
}

/// Calls `hex::decode` on the bytes of `s`, dropping the error. It fails on an
/// odd length or on a byte that is not a hex digit of either case (so on any
/// character outside ASCII); else byte `i` is made of the digits `2i` and `2i+1`.
#[verifier::external_body]
fn hex_decode(s: &str) -> (r: Option<Vec<u8>>)
    ensures
        r is Some <==> hex_text(s@),
        r matches Some(v) ==> v@ == decoded(s@),
{
    hex::decode(s).ok()
}

/// The character of a digit value below 16 is a digit of that value.
proof fn lemma_digit_value(d: nat)
    requires
        d < 16,
    ensures
        hex_value(crate::text::digit_char(d, false)) == d,
{
    let c = crate::text::digit_char(d, false);
    if d < 10 {
        assert(c as int == 48 + d);
    } else {
        assert(c as int == 97 + d - 10);
    }
}

/// Two lower-case digits of a byte, high nibble first.
proof fn lemma_byte_pair(x: u8)
    ensures
        crate::guid::hex_pad(x as nat, 2, false) == seq![
            crate::text::digit_char(x as nat / 16, false),
            crate::text::digit_char(x as nat % 16, false),
        ],
{
    let n = x as nat;
    reveal_with_fuel(crate::text::digits, 2);
    if n < 16 {
        assert(crate::text::digits(n, 16, false) == seq![crate::text::digit_char(n % 16, false)]);
        assert(n / 16 == 0);
        assert(crate::text::digit_char(0, false) == '0');
        assert(pad_left(seq![crate::text::digit_char(n % 16, false)], 2, '0') =~= seq![
            '0',
            crate::text::digit_char(n % 16, false),
        ]);
    } else {
        assert(n / 16 < 16);
        assert((n / 16) % 16 == n / 16);
        assert(crate::text::digits(n, 16, false) =~= seq![
            crate::text::digit_char(n / 16, false),
            crate::text::digit_char(n % 16, false),
        ]);
    }
}

/// Decoding the lower-case hex of some bytes gives the bytes back.
pub proof fn law_hex_roundtrip(b: Seq<u8>)
    ensures
        hex_text(hex_lower(b)),
        decoded(hex_lower(b)) == b,
        hex_lower(b).len() == 2 * b.len(),
    decreases b.len(),
{
    if b.len() > 0 {
        let p = b.drop_last();
        law_hex_roundtrip(p);
        let x = b.last();
        lemma_byte_pair(x);
        lemma_digit_value(x as nat / 16);
        lemma_digit_value(x as nat % 16);
        let h = hex_lower(b);
        let hp = hex_lower(p);
        assert(h == hp + crate::guid::hex_pad(x as nat, 2, false));
        assert(h.len() == 2 * b.len());
        assert forall|i: int| 0 <= i < h.len() implies hex_value(#[trigger] h[i]) >= 0 by {
            if i < hp.len() {
                assert(h[i] == hp[i]);
            }
        }
        assert(decoded(h) =~= b) by {
            assert forall|i: int| 0 <= i < b.len() implies #[trigger] decoded(h)[i] == b[i] by {
                if i < p.len() {
                    assert(h[2 * i] == hp[2 * i]);
                    assert(h[2 * i + 1] == hp[2 * i + 1]);
                    assert(decoded(hp)[i] == p[i]);
                } else {
                    assert(h[2 * i] == crate::text::digit_char(x as nat / 16, false));
                    assert(h[2 * i + 1] == crate::text::digit_char(x as nat % 16, false));
                    assert((x as nat / 16) * 16 + x as nat % 16 == x);
                }
            }
        }
    }
}

/// The lower-case hex of captured user data (empty when there is none).
pub fn user_data_hex(data: &[u8]) -> (s: String)
    ensures
        s@ == hex_lower(data@),
{
    hex_encode(data)
}

/// Every character is ASCII.
pub open spec fn ascii_text(s: Seq<char>) -> bool {
    forall|i: int| 0 <= i < s.len() ==> (#[trigger] s[i] as u32) < 128
}

/// The user-data line of a captured event: its byte count (half the hex digits)
/// and the hex, cut after 40 digits with `...`; none without user data.
pub open spec fn user_data_line_text(hex: Seq<char>) -> Option<Seq<char>> {
    if hex.len() == 0 {
        None
    } else {
        let preview = if hex.len() > 40 {
            hex.subrange(0, 40) + "..."@
        } else {
            hex
        };
        Some("    UserData ("@ + dec(hex.len() / 2) + " bytes): "@ + preview)
    }
}

/// The bytes that a user-data hex text decodes to; none when it is not hex.
pub open spec fn real_data(hex: Seq<char>) -> Seq<u8> {
    if hex_text(hex) {
        decoded(hex)
    } else {
        Seq::empty()
    }
}

/// The decoded user-data line: the decoded byte count and the hex of the first
/// 20 bytes (or the whole text when there are no more), followed by `...`.
pub open spec fn real_user_data_text(hex: Seq<char>) -> Option<Seq<char>> {
    if hex.len() == 0 {
        None
    } else {
        let raw = real_data(hex);
        let preview = if raw.len() > 20 {
            hex_lower(raw.subrange(0, 20))
        } else {
            hex
        };
        Some("  Real UserData ("@ + dec(raw.len()) + " bytes): "@ + preview + "..."@)
    }
}

/// The user-data line of a captured event, for hex text (the text of
/// `user_data_hex`).
pub fn user_data_line(hex: &str) -> (r: Option<String>)
    requires
        ascii_text(hex@),
    ensures
        match user_data_line_text(hex@) {
            None => r is None,
            Some(t) => r matches Some(s) && s@ == t,
        },
{
    let chars = crate::text::chars_of(hex);
    if chars.len() == 0 {
        return None;
    }
    let mut s = owned("    UserData (");
    push_dec(&mut s, (chars.len() / 2) as u64);
    push_str(&mut s, " bytes): ");
    if chars.len() > 40 {
        let mut k: usize = 0;
        let ghost start = s@;
        while k < 40
            invariant
                k <= 40 < chars@.len(),
                s@ == start + chars@.subrange(0, k as int),
            decreases 40 - k,
        {
            push_char(&mut s, chars[k]);
            k = k + 1;
            assert(s@ =~= start + chars@.subrange(0, k as int));
        }
        push_str(&mut s, "...");
    } else {
        push_str(&mut s, hex);
    }
    Some(s)
}

/// The decoded user-data line of a captured event: the hex is decoded (to no
/// bytes where it is not hex) and the first 20 bytes encoded again.
pub fn real_user_data_line(hex: &str) -> (r: Option<String>)
    ensures
        match real_user_data_text(hex@) {
            None => r is None,
            Some(t) => r matches Some(s) && s@ == t,
        },
{
    if crate::text::chars_of(hex).len() == 0 {
        return None;
    }
    let raw = match hex_decode(hex) {
        Some(v) => v,
        None => Vec::new(),
    };
    assert(raw@ == real_data(hex@));
    let preview = if raw.len() > 20 {
        let mut head: Vec<u8> = Vec::new();
        let mut k: usize = 0;
        while k < 20
            invariant
                k <= 20 < raw@.len(),
                head@ == raw@.subrange(0, k as int),
            decreases 20 - k,
        {
            head.push(raw[k]);
            k = k + 1;
            assert(head@ =~= raw@.subrange(0, k as int));
        }
        hex_encode(head.as_slice())
    } else {
        owned(hex)
    };
    let mut s = owned("  Real UserData (");
    push_dec(&mut s, raw.len() as u64);
    push_str(&mut s, " bytes): ");
    push_str(&mut s, preview.as_str());
    push_str(&mut s, "...");
    Some(s)
}

/// The status column of an outcome line: the success tag or `FAIL`, right
/// aligned in four characters.
pub open spec fn status_cell_text(success: bool, ok_tag: Seq<char>) -> Seq<char> {
    pad_left(if success { ok_tag } else { "FAIL"@ }, 4, ' ')
}

/// `ok_tag` (the experiments write `OK` or `OK `) or `FAIL`, right aligned in
/// four characters.
pub fn status_cell(success: bool, ok_tag: &str) -> (s: String)
    ensures
        s@ == status_cell_text(success, ok_tag@),
{
    let tag = if success { owned(ok_tag) } else { owned("FAIL") };
    let n = crate::text::chars_of(tag.as_str()).len();
    let mut s = String::new();
    if n < 4 {
        let mut k: usize = 0;
        while k < 4 - n
            invariant
                n < 4,
                k <= 4 - n,
                s@ == Seq::new(k as nat, |i: int| ' '),
            decreases 4 - n - k,
        {
            push_char(&mut s, ' ');
            k = k + 1;
            assert(s@ =~= Seq::new(k as nat, |i: int| ' '));
        }
    }
    push_str(&mut s, tag.as_str());
    assert(s@ =~= status_cell_text(success, ok_tag@));
    s
}

/// What an outcome line says after the arrow.
pub enum Detail {
    /// The result's summary.
    Summary,
    /// `still works` on success, else the summary.
    StillWorks,
    /// `opcode_name=.., props=..` on success, else the summary.
    OpcodeAndProps,
}

/// The text after the arrow of an outcome line.
pub open spec fn detail_text(r: TdhResult, kind: Detail) -> Seq<char> {
    match (kind, r) {
        (Detail::StillWorks, TdhResult::Success { .. }) => "still works"@,
        (Detail::OpcodeAndProps, TdhResult::Success { opcode_name, property_count, .. }) =>
            "opcode_name="@ + opcode_name@ + ", props="@ + dec(property_count as nat),
        _ => summary_text(r),
    }
}

/// The text after the arrow of an outcome line.
pub fn detail(r: &TdhResult, kind: Detail) -> (s: String)
    ensures
        s@ == detail_text(*r, kind),
{
    match (kind, r) {
        (Detail::StillWorks, TdhResult::Success { .. }) => owned("still works"),
        (Detail::OpcodeAndProps, TdhResult::Success { opcode_name, property_count, .. }) => {
            let mut s = owned("opcode_name=");
            push_str(&mut s, opcode_name.as_str());
            push_str(&mut s, ", props=");
            push_dec(&mut s, *property_count as u64);
            s
        },
        _ => r.summary(),
    }
}

/// `  [status] label -> detail`.
pub open spec fn outcome_line_text(ok_tag: Seq<char>, label: Seq<char>, r: TdhResult, kind: Detail) -> Seq<char> {
    "  ["@ + status_cell_text(r is Success, ok_tag) + "] "@ + label + " -> "@ + detail_text(r, kind)
}

/// The line of one TDH outcome.
pub fn outcome_line(ok_tag: &str, label: &str, r: &TdhResult, kind: Detail) -> (s: String)
    ensures
        s@ == outcome_line_text(ok_tag@, label@, *r, kind),
{
    let mut s = owned("  [");
    let cell = status_cell(r.is_success(), ok_tag);
    push_str(&mut s, cell.as_str());
    push_str(&mut s, "] ");
    push_str(&mut s, label);
    push_str(&mut s, " -> ");
    let d = detail(r, kind);
    push_str(&mut s, d.as_str());
    s
}

/// `    v{version} -> [status] opcode_name=.., props=..` of the version probe.
pub open spec fn version_line_text(version: u8, r: TdhResult) -> Seq<char> {
    "    v"@ + dec(version as nat) + " -> ["@ + status_cell_text(r is Success, "OK "@) + "] "@
        + detail_text(r, Detail::OpcodeAndProps)
}

/// The line of one probed version.
pub fn version_line(version: u8, r: &TdhResult) -> (s: String)
    ensures
        s@ == version_line_text(version, *r),
{
    let mut s = owned("    v");
    push_dec(&mut s, version as u64);
    push_str(&mut s, " -> [");
    let cell = status_cell(r.is_success(), "OK ");
    push_str(&mut s, cell.as_str());
    push_str(&mut s, "] ");
    let d = detail(r, Detail::OpcodeAndProps);
    push_str(&mut s, d.as_str());
    s
}

/// `{name} ({n} bytes)`.
pub fn sized_label(name: &str, n: usize) -> (s: String)
    ensures
        s@ == name@ + " ("@ + dec(n as nat) + " bytes)"@,
{
    let mut s = owned(name);
    push_str(&mut s, " (");
    push_dec(&mut s, n as u64);
    push_str(&mut s, " bytes)");
    s
}

} // verus!
