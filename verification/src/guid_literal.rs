//! The GUID strings of the provider and event attributes: exactly
//! `XXXXXXXX-XXXX-XXXX-XXXX-XXXXXXXXXXXX`, read byte by byte into the four
//! fields of a GUID.

use vstd::prelude::*;
use vstd::utf8::encode_utf8;
use crate::text::{owned, push_char, push_str};

verus! {

/// The error for a string that is not 36 bytes long.
pub open spec fn length_error() -> Seq<char> {
    "GUID string must be exactly 36 characters (format: XXXXXXXX-XXXX-XXXX-XXXX-XXXXXXXXXXXX)"@
}

/// The error for a string without its dashes at bytes 8, 13, 18 and 23.
pub open spec fn dash_error() -> Seq<char> {
    "GUID format must be XXXXXXXX-XXXX-XXXX-XXXX-XXXXXXXXXXXX"@
}

/// The value of a hex digit byte of either case; none for another byte.
pub open spec fn hex_byte_value(b: u8) -> Option<nat> {
    if 48 <= b <= 57 {
        Some((b - 48) as nat)
    } else if 65 <= b <= 70 {
        Some((b - 65 + 10) as nat)
    } else if 97 <= b <= 102 {
        Some((b - 97 + 10) as nat)
    } else {
        None
    }
}

/// The dashes stand at bytes 8, 13, 18 and 23.
pub open spec fn dash_at(i: int) -> bool {
    i == 8 || i == 13 || i == 18 || i == 23
}

/// The bytes before `n` that are not dashes are all hex digits.
pub open spec fn hex_upto(b: Seq<u8>, n: int) -> bool {
    forall|i: int| 0 <= i < n && !dash_at(i) ==> (#[trigger] hex_byte_value(b[i])) is Some
}

/// The hex number written by the `len` bytes at `start` (all hex digits).
pub open spec fn hex_run(b: Seq<u8>, start: int, len: nat) -> nat
    decreases len,
{
    if len == 0 {
        0
    } else {
        hex_run(b, start, (len - 1) as nat) * 16 + match hex_byte_value(b[start + len - 1]) {
            Some(v) => v,
            None => 0,
        }
    }
}

/// What reading a GUID string gives: its four fields, or the error message.
pub open spec fn guid_literal_result(s: Seq<char>) -> Result<(u32, u16, u16, Seq<u8>), Seq<char>> {
    let b = encode_utf8(s);
    if b.len() != 36 {
        Err(length_error())
    } else if b[8] != 45 || b[13] != 45 || b[18] != 45 || b[23] != 45 {
        Err(dash_error())
    } else if !hex_upto(b, 36) {
        let p = choose|p: int| 0 <= p < 36 && !dash_at(p) && hex_byte_value(b[p]) is None && hex_upto(b, p);
        Err("invalid hex character '"@ + seq![b[p] as char] + "' in GUID"@)
    } else {
        Ok(
            (
                hex_run(b, 0, 8) as u32,
                hex_run(b, 9, 4) as u16,
                hex_run(b, 14, 4) as u16,
                seq![
                    hex_run(b, 19, 2) as u8,
                    hex_run(b, 21, 2) as u8,
                    hex_run(b, 24, 2) as u8,
                    hex_run(b, 26, 2) as u8,
                    hex_run(b, 28, 2) as u8,
                    hex_run(b, 30, 2) as u8,
                    hex_run(b, 32, 2) as u8,
                    hex_run(b, 34, 2) as u8,
                ],
            ),
        )
    }
}

/// There is at most one first byte that is not a hex digit.
proof fn lemma_first_bad_unique(b: Seq<u8>, p: int, q: int)
    requires
        0 <= p < 36 && !dash_at(p) && hex_byte_value(b[p]) is None && hex_upto(b, p),
        0 <= q < 36 && !dash_at(q) && hex_byte_value(b[q]) is None && hex_upto(b, q),
    ensures
        p == q,
{
    if p < q {
        assert(hex_byte_value(b[p]) is Some);
    } else if q < p {
        assert(hex_byte_value(b[q]) is Some);
    }
}

fn byte_value(b: u8) -> (r: Option<u32>)
    ensures
        match hex_byte_value(b) {
            Some(v) => r == Some(v as u32),
            None => r is None,
        },
{
    if 48 <= b && b <= 57 {
        Some((b - 48) as u32)
    } else if 65 <= b && b <= 70 {
        Some((b - 65 + 10) as u32)
    } else if 97 <= b && b <= 102 {
        Some((b - 97 + 10) as u32)
    } else {
        None
    }
}

/// 16 to the power `n`.
pub open spec fn pow16(n: nat) -> nat
    decreases n,
{
    if n == 0 {
        1
    } else {
        16 * pow16((n - 1) as nat)
    }
}

proof fn lemma_hex_run_bound(b: Seq<u8>, start: int, len: nat)
    ensures
        hex_run(b, start, len) < pow16(len),
    decreases len,
{
    if len > 0 {
        lemma_hex_run_bound(b, start, (len - 1) as nat);
    }
}

proof fn lemma_pow16_monotone(a: nat, c: nat)
    requires
        a <= c,
    ensures
        pow16(a) <= pow16(c),
    decreases c,
{
    if a < c {
        lemma_pow16_monotone(a, (c - 1) as nat);
    }
}

/// The number written by `len` (at most 8) hex digit bytes at `start`.
fn read_run(b: &[u8], start: usize, len: usize) -> (v: u32)
    requires
        len <= 8,
        start + len <= b@.len(),
        forall|i: int| start <= i < start + len ==> (#[trigger] hex_byte_value(b@[i])) is Some,
    ensures
        v == hex_run(b@, start as int, len as nat),
{
    let mut v: u32 = 0;
    let mut k: usize = 0;
    while k < len
        invariant
            k <= len <= 8,
            start + len <= b@.len(),
            forall|i: int| start <= i < start + len ==> (#[trigger] hex_byte_value(b@[i])) is Some,
            v == hex_run(b@, start as int, k as nat),
        decreases len - k,
    {
        proof {
            lemma_hex_run_bound(b@, start as int, k as nat);
            lemma_pow16_monotone(k as nat, 7);
            reveal_with_fuel(pow16, 8);
            assert(pow16(7) == 0x1000_0000);
        }
        assert(start + k < b.len());
        let d = match byte_value(b[start + k]) {
            Some(d) => d,
            None => 0,
        };
        assert(hex_byte_value(b@[start + k]) is Some);
        v = v * 16 + d;
        k = k + 1;
    }
    v
}

/// Reads a GUID string of the provider and event attributes: 36 bytes with
/// dashes at bytes 8, 13, 18 and 23 and hex digits of either case elsewhere.
/// The errors name the length, the dashes, or the first byte that is not a hex
/// digit (as a character of the same code).
pub fn guid_literal_from_str(s: &str) -> (r: Result<(u32, u16, u16, [u8; 8]), String>)
    ensures
        match guid_literal_result(s@) {
            Ok((d1, d2, d3, d4)) => r matches Ok(f) && f.0 == d1 && f.1 == d2 && f.2 == d3 && f.3@ == d4,
            Err(m) => r matches Err(e) && e@ == m,
        },
{
    let b = s.as_bytes();
    proof {
        assert(b@ == encode_utf8(s@));
    }
    if b.len() != 36 {
        return Err(owned("GUID string must be exactly 36 characters (format: XXXXXXXX-XXXX-XXXX-XXXX-XXXXXXXXXXXX)"));
    }
    if b[8] != 45 || b[13] != 45 || b[18] != 45 || b[23] != 45 {
        return Err(owned("GUID format must be XXXXXXXX-XXXX-XXXX-XXXX-XXXXXXXXXXXX"));
    }
    let mut i: usize = 0;
    while i < 36
        invariant
            i <= 36,
            b@.len() == 36,
            b@ == encode_utf8(s@),
            b@[8] == 45 && b@[13] == 45 && b@[18] == 45 && b@[23] == 45,
            hex_upto(b@, i as int),
        decreases 36 - i,
    {
        let at_dash = i == 8 || i == 13 || i == 18 || i == 23;
        if !at_dash {
            match byte_value(b[i]) {
                Some(_) => {},
                None => {
                    let mut m = owned("invalid hex character '");
                    push_char(&mut m, b[i] as char);
                    push_str(&mut m, "' in GUID");
                    assert(m@ =~= "invalid hex character '"@ + seq![b@[i as int] as char] + "' in GUID"@);
                    proof {
                        assert(!dash_at(i as int));
                        assert(0 <= i < 36 && !dash_at(i as int) && hex_byte_value(b@[i as int]) is None && hex_upto(b@, i as int));
                        assert(!hex_upto(b@, 36));
                        let bs = encode_utf8(s@);
                        let p = choose|p: int| 0 <= p < 36 && !dash_at(p) && hex_byte_value(bs[p]) is None && hex_upto(bs, p);
                        lemma_first_bad_unique(b@, p, i as int);
                        assert(guid_literal_result(s@) == Err::<(u32, u16, u16, Seq<u8>), Seq<char>>(m@));
                    }
                    return Err(m);
                },
            }
        }
        i = i + 1;
    }
    let d1 = read_run(b, 0, 8);
    let d2 = read_run(b, 9, 4);
    let d3 = read_run(b, 14, 4);
    let e0 = read_run(b, 19, 2);
    let e1 = read_run(b, 21, 2);
    let e2 = read_run(b, 24, 2);
    let e3 = read_run(b, 26, 2);
    let e4 = read_run(b, 28, 2);
    let e5 = read_run(b, 30, 2);
    let e6 = read_run(b, 32, 2);
    let e7 = read_run(b, 34, 2);
    proof {
        lemma_hex_run_bound(b@, 9, 4);
        lemma_hex_run_bound(b@, 14, 4);
        reveal_with_fuel(pow16, 5);
        assert(pow16(4) == 0x1_0000);
        assert(pow16(2) == 0x100);
        lemma_hex_run_bound(b@, 19, 2);
        lemma_hex_run_bound(b@, 21, 2);
        lemma_hex_run_bound(b@, 24, 2);
        lemma_hex_run_bound(b@, 26, 2);
        lemma_hex_run_bound(b@, 28, 2);
        lemma_hex_run_bound(b@, 30, 2);
        lemma_hex_run_bound(b@, 32, 2);
        lemma_hex_run_bound(b@, 34, 2);
    }
    let d4: [u8; 8] = [e0 as u8, e1 as u8, e2 as u8, e3 as u8, e4 as u8, e5 as u8, e6 as u8, e7 as u8];
    assert(d4@ =~= seq![e0 as u8, e1 as u8, e2 as u8, e3 as u8, e4 as u8, e5 as u8, e6 as u8, e7 as u8]);
    Ok((d1, d2 as u16, d3 as u16, d4))
}

} // verus!
