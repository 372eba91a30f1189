//! Provider GUIDs: reading the textual form and the three ways the tools print one.

use vstd::prelude::*;
use vstd::utf8::encode_utf8;
use crate::scan::{
    IntErrorKind, int_error_message, parse_hex, parse_hex_spec, split, split_on, strip_leading,
    strip_leading_char, strip_trailing, strip_trailing_char, trim, trim_ws, views,
};
use crate::text::{dec, digits, owned, pad_left, push_char, push_chars, push_dec, push_padded, push_str, string_of};

verus! {

/// A GUID in the layout of the Windows `GUID` structure.
#[derive(Debug, Clone, Copy, PartialEq, Eq)]
pub struct Guid {
    pub data1: u32,
    pub data2: u16,
    pub data3: u16,
    pub data4: [u8; 8],
}

/// `s` after `trim`, `trim_start_matches('{')` and `trim_end_matches('}')`.
pub open spec fn guid_body(s: Seq<char>) -> Seq<char> {
    strip_trailing(strip_leading(trim_ws(s), seq!['{']), '}')
}

/// Byte offset `k` of `b` starts a character (`str::is_char_boundary`).
pub open spec fn is_char_boundary(b: Seq<u8>, k: int) -> bool {
    k == 0 || k == b.len() || (0 <= k < b.len() && (b[k] < 0x80 || b[k] >= 0xc0))
}

/// The byte range `2i..2i+2` of `b` can be sliced as a `str`.
pub open spec fn pair_sliceable(b: Seq<u8>, i: int) -> bool {
    2 * i + 2 <= b.len() && is_char_boundary(b, 2 * i) && is_char_boundary(b, 2 * i + 2)
}

/// The two bytes `2i` and `2i+1` of `b`, each read as the character of that code.
pub open spec fn pair_chars(b: Seq<u8>, i: int) -> Seq<char> {
    seq![b[2 * i] as char, b[2 * i + 1] as char]
}

/// Reading the data4 bytes of a GUID from the UTF-8 text `b`, from pair `i` on:
/// `None` where slicing a pair would panic, else the bytes read or the first pair
/// that is no byte value, with its error.
pub open spec fn data4_from(b: Seq<u8>, i: nat) -> Option<Result<Seq<u8>, (nat, IntErrorKind)>>
    decreases 8 - i,
{
    if i >= 8 {
        Some(Ok(Seq::empty()))
    } else if !pair_sliceable(b, i as int) {
        None
    } else {
        match parse_hex_spec(pair_chars(b, i as int), 255) {
            Err(e) => Some(Err((i, e))),
            Ok(v) => match data4_from(b, i + 1) {
                Some(Ok(rest)) => Some(Ok(seq![v as u8] + rest)),
                other => other,
            },
        }
    }
}

/// Reading a GUID from `s`: `None` where slicing a part at a non-ASCII boundary would panic,
/// else the four fields or the error message.
pub open spec fn guid_parse(s: Seq<char>) -> Option<Result<(u32, u16, u16, Seq<u8>), Seq<char>>> {
    let body = guid_body(s);
    let parts = split_on(body, '-');
    if parts.len() != 5 {
        Some(Err("Invalid GUID format: "@ + body))
    } else {
        match parse_hex_spec(parts[0], 0xffff_ffff) {
            Err(e) => Some(Err("Invalid data1: "@ + int_error_message(e))),
            Ok(d1) => match parse_hex_spec(parts[1], 0xffff) {
                Err(e) => Some(Err("Invalid data2: "@ + int_error_message(e))),
                Ok(d2) => match parse_hex_spec(parts[2], 0xffff) {
                    Err(e) => Some(Err("Invalid data3: "@ + int_error_message(e))),
                    Ok(d3) => match data4_from(encode_utf8(parts[3] + parts[4]), 0) {
                        None => None,
                        Some(Err((i, e))) => Some(
                            Err("Invalid data4["@ + dec(i) + "]: "@ + int_error_message(e)),
                        ),
                        Some(Ok(d4)) => Some(Ok((d1 as u32, d2 as u16, d3 as u16, d4))),
                    },
                },
            },
        }
    }
}

proof fn lemma_data4_len(b: Seq<u8>, i: nat)
    requires
        i <= 8,
    ensures
        data4_from(b, i) matches Some(Ok(v)) ==> v.len() == 8 - i,
        data4_from(b, i) matches Some(Err((j, e))) ==> i <= j < 8,
    decreases 8 - i,
{
    if i < 8 && pair_sliceable(b, i as int) {
        lemma_data4_len(b, i + 1);
    }
}

fn read_data4(b: &[u8], i: usize) -> (r: Result<Vec<u8>, (usize, IntErrorKind)>)
    requires
        i <= 8,
        data4_from(b@, i as nat) is Some,
    ensures
        match data4_from(b@, i as nat) {
            Some(Ok(v)) => r matches Ok(w) && w@ == v,
            Some(Err((j, e))) => r == Err::<Vec<u8>, (usize, IntErrorKind)>((j as usize, e)),
            None => false,
        },
    decreases 8 - i,
{
    if i >= 8 {
        return Ok(Vec::new());
    }
    let c0 = b[2 * i] as char;
    let c1 = b[2 * i + 1] as char;
    let mut pair: Vec<char> = Vec::new();
    pair.push(c0);
    pair.push(c1);
    assert(pair@ =~= pair_chars(b@, i as int));
    match parse_hex(&pair, 255) {
        Err(e) => Err((i, e)),
        Ok(v) => match read_data4(b, i + 1) {
            Ok(rest) => {
                let mut w: Vec<u8> = Vec::new();
                w.push(v as u8);
                let mut k: usize = 0;
                while k < rest.len()
                    invariant
                        k <= rest.len(),
                        w@ == seq![v as u8] + rest@.subrange(0, k as int),
                    decreases rest.len() - k,
                {
                    w.push(rest[k]);
                    k = k + 1;
                    assert(w@ =~= seq![v as u8] + rest@.subrange(0, k as int));
                }
                assert(rest@.subrange(0, rest.len() as int) =~= rest@);
                Ok(w)
            },
            Err(x) => Err(x),
        },
    }
}

fn char_boundary(b: &[u8], k: usize) -> (r: bool)
    ensures
        r == is_char_boundary(b@, k as int),
{
    k == 0 || k == b.len() || (k < b.len() && (b[k] < 0x80 || b[k] >= 0xc0))
}

fn data4_readable(b: &[u8], i: usize) -> (r: bool)
    requires
        i <= 8,
    ensures
        r == data4_from(b@, i as nat) is Some,
    decreases 8 - i,
{
    if i >= 8 {
        return true;
    }
    if !(2 * i + 2 <= b.len() && char_boundary(b, 2 * i) && char_boundary(b, 2 * i + 2)) {
        return false;
    }
    let mut pair: Vec<char> = Vec::new();
    pair.push(b[2 * i] as char);
    pair.push(b[2 * i + 1] as char);
    assert(pair@ =~= pair_chars(b@, i as int));
    match parse_hex(&pair, 255) {
        Err(_) => true,
        Ok(_) => data4_readable(b, i + 1),
    }
}

/// Whether `parse_guid` can read `s` without slicing a data4 pair through a
/// multi-byte character (where reading it would panic).
pub fn guid_readable(s: &str) -> (r: bool)
    ensures
        r == guid_parse(s@) is Some,
{
    let chars = crate::text::chars_of(s);
    let t = trim(&chars);
    let t = strip_leading_char(&t, '{');
    let body = strip_trailing_char(&t, '}');
    let parts = split(&body, '-');
    proof {
        assert(body@ == guid_body(s@));
    }
    if parts.len() != 5 {
        return true;
    }
    proof {
        assert(views(parts@)[0] == parts@[0]@);
        assert(views(parts@)[1] == parts@[1]@);
        assert(views(parts@)[2] == parts@[2]@);
        assert(views(parts@)[3] == parts@[3]@);
        assert(views(parts@)[4] == parts@[4]@);
    }
    if parse_hex(&parts[0], 0xffff_ffff).is_err() || parse_hex(&parts[1], 0xffff).is_err() || parse_hex(
        &parts[2],
        0xffff,
    ).is_err() {
        return true;
    }
    let mut hex: Vec<char> = Vec::new();
    push_all(&mut hex, &parts[3]);
    push_all(&mut hex, &parts[4]);
    let hex_text = string_of(&hex);
    let bytes = hex_text.as_str().as_bytes();
    proof {
        assert(bytes@ == encode_utf8(parts@[3]@ + parts@[4]@));
    }
    data4_readable(bytes, 0)
}

/// Reads a GUID written `XXXXXXXX-XXXX-XXXX-XXXX-XXXXXXXXXXXX`, with optional braces
/// and surrounding whitespace; the error names the first field that is not hex.
pub fn parse_guid(s: &str) -> (r: Result<Guid, String>)
    requires
        guid_parse(s@) is Some,
    ensures
        match guid_parse(s@) {
            Some(Ok((d1, d2, d3, d4))) => r matches Ok(g) && g.data1 == d1 && g.data2 == d2
                && g.data3 == d3 && g.data4@ == d4,
            Some(Err(msg)) => r matches Err(m) && m@ == msg,
            None => false,
        },
{
    let chars = crate::text::chars_of(s);
    let t = trim(&chars);
    let t = strip_leading_char(&t, '{');
    let body = strip_trailing_char(&t, '}');
    let parts = split(&body, '-');
    proof {
        assert(body@ == guid_body(s@));
    }
    if parts.len() != 5 {
        let mut m = owned("Invalid GUID format: ");
        push_chars(&mut m, &body);
        return Err(m);
    }
    proof {
        assert(views(parts@)[0] == parts@[0]@);
        assert(views(parts@)[1] == parts@[1]@);
        assert(views(parts@)[2] == parts@[2]@);
        assert(views(parts@)[3] == parts@[3]@);
        assert(views(parts@)[4] == parts@[4]@);
    }
    let data1 = match parse_hex(&parts[0], 0xffff_ffff) {
        Ok(v) => v as u32,
        Err(e) => {
            let mut m = owned("Invalid data1: ");
            let em = e.message();
            push_str(&mut m, em.as_str());
            return Err(m);
        },
    };
    let data2 = match parse_hex(&parts[1], 0xffff) {
        Ok(v) => v as u16,
        Err(e) => {
            let mut m = owned("Invalid data2: ");
            let em = e.message();
            push_str(&mut m, em.as_str());
            return Err(m);
        },
    };
    let data3 = match parse_hex(&parts[2], 0xffff) {
        Ok(v) => v as u16,
        Err(e) => {
            let mut m = owned("Invalid data3: ");
            let em = e.message();
            push_str(&mut m, em.as_str());
            return Err(m);
        },
    };
    let mut hex: Vec<char> = Vec::new();
    push_all(&mut hex, &parts[3]);
    push_all(&mut hex, &parts[4]);
    let hex_text = string_of(&hex);
    let bytes = hex_text.as_str().as_bytes();
    proof {
        assert(bytes@ == encode_utf8(parts@[3]@ + parts@[4]@));
        lemma_data4_len(bytes@, 0);
    }
    match read_data4(bytes, 0) {
        Err((i, e)) => {
            let mut m = owned("Invalid data4[");
            push_dec(&mut m, i as u64);
            push_str(&mut m, "]: ");
            let em = e.message();
            push_str(&mut m, em.as_str());
            Err(m)
        },
        Ok(d4) => {
            let mut data4 = [0u8; 8];
            let mut k: usize = 0;
            while k < 8
                invariant
                    k <= 8,
                    d4@.len() == 8,
                    forall|j: int| 0 <= j < k ==> data4@[j] == d4@[j],
                decreases 8 - k,
            {
                data4[k] = d4[k];
                k = k + 1;
            }
            assert(data4@ =~= d4@);
            Ok(Guid { data1, data2, data3, data4 })
        },
    }
}

fn push_all(v: &mut Vec<char>, w: &Vec<char>)
    ensures
        final(v)@ == old(v)@ + w@,
{
    let ghost start = v@;
    let mut k: usize = 0;
    while k < w.len()
        invariant
            k <= w.len(),
            v@ == start + w@.subrange(0, k as int),
        decreases w.len() - k,
    {
        v.push(w[k]);
        k = k + 1;
        assert(v@ =~= start + w@.subrange(0, k as int));
    }
    assert(w@.subrange(0, w.len() as int) =~= w@);
}

/// `{:0w$x}` (or `X`) of `n`: base-16 digits left-padded with zeros to `width`.
pub open spec fn hex_pad(n: nat, width: nat, upper: bool) -> Seq<char> {
    pad_left(digits(n, 16, upper), width, '0')
}

/// `{XXXXXXXX-XXXX-XXXX-XXXX-XXXXXXXXXXXX}` of a GUID's fields (upper case).
pub open spec fn braced_upper_text(d1: u32, d2: u16, d3: u16, d4: Seq<u8>) -> Seq<char> {
    seq!['{'] + hex_pad(d1 as nat, 8, true) + seq!['-'] + hex_pad(d2 as nat, 4, true) + seq!['-']
        + hex_pad(d3 as nat, 4, true) + seq!['-'] + hex_pad(d4[0] as nat, 2, true) + hex_pad(
        d4[1] as nat,
        2,
        true,
    ) + seq!['-'] + hex_pad(d4[2] as nat, 2, true) + hex_pad(d4[3] as nat, 2, true) + hex_pad(
        d4[4] as nat,
        2,
        true,
    ) + hex_pad(d4[5] as nat, 2, true) + hex_pad(d4[6] as nat, 2, true) + hex_pad(
        d4[7] as nat,
        2,
        true,
    ) + seq!['}']
}

/// The eight data4 bytes as sixteen lower-case hex digits.
pub open spec fn data4_lower_text(d4: Seq<u8>) -> Seq<char> {
    hex_pad(d4[0] as nat, 2, false) + hex_pad(d4[1] as nat, 2, false) + hex_pad(d4[2] as nat, 2, false)
        + hex_pad(d4[3] as nat, 2, false) + hex_pad(d4[4] as nat, 2, false) + hex_pad(
        d4[5] as nat,
        2,
        false,
    ) + hex_pad(d4[6] as nat, 2, false) + hex_pad(d4[7] as nat, 2, false)
}

/// `xxxxxxxx_xxxx_xxxx_xxxxxxxxxxxxxxxx` of a GUID (lower case, file-name safe).
pub open spec fn file_key_text(g: Guid) -> Seq<char> {
    hex_pad(g.data1 as nat, 8, false) + seq!['_'] + hex_pad(g.data2 as nat, 4, false) + seq!['_']
        + hex_pad(g.data3 as nat, 4, false) + seq!['_'] + data4_lower_text(g.data4@)
}

fn push_hex(s: &mut String, n: u64, width: usize, upper: bool)
    ensures
        final(s)@ == old(s)@ + hex_pad(n as nat, width as nat, upper),
{
    push_padded(s, n, 16, upper, width);
}

/// Formats GUID fields as `{XXXXXXXX-XXXX-XXXX-XXXX-XXXXXXXXXXXX}`.
pub fn format_guid(d1: u32, d2: u16, d3: u16, d4: &[u8; 8]) -> (s: String)
    ensures
        s@ == braced_upper_text(d1, d2, d3, d4@),
{
    let mut s = String::new();
    push_char(&mut s, '{');
    push_hex(&mut s, d1 as u64, 8, true);
    push_char(&mut s, '-');
    push_hex(&mut s, d2 as u64, 4, true);
    push_char(&mut s, '-');
    push_hex(&mut s, d3 as u64, 4, true);
    push_char(&mut s, '-');
    push_hex(&mut s, d4[0] as u64, 2, true);
    push_hex(&mut s, d4[1] as u64, 2, true);
    push_char(&mut s, '-');
    push_hex(&mut s, d4[2] as u64, 2, true);
    push_hex(&mut s, d4[3] as u64, 2, true);
    push_hex(&mut s, d4[4] as u64, 2, true);
    push_hex(&mut s, d4[5] as u64, 2, true);
    push_hex(&mut s, d4[6] as u64, 2, true);
    push_hex(&mut s, d4[7] as u64, 2, true);
    push_char(&mut s, '}');
    assert(s@ =~= braced_upper_text(d1, d2, d3, d4@));
    s
}

/// Appends the sixteen lower-case hex digits of `d4`.
#[verifier::rlimit(40)]
fn push_data4_lower(s: &mut String, d4: &[u8; 8])
    ensures
        final(s)@ == old(s)@ + data4_lower_text(d4@),
{
    let ghost start = s@;
    push_hex(s, d4[0] as u64, 2, false);
    push_hex(s, d4[1] as u64, 2, false);
    push_hex(s, d4[2] as u64, 2, false);
    push_hex(s, d4[3] as u64, 2, false);
    push_hex(s, d4[4] as u64, 2, false);
    push_hex(s, d4[5] as u64, 2, false);
    push_hex(s, d4[6] as u64, 2, false);
    push_hex(s, d4[7] as u64, 2, false);
    assert(s@ =~= start + data4_lower_text(d4@));
}

/// A file-name safe key of a GUID: `xxxxxxxx_xxxx_xxxx_xxxxxxxxxxxxxxxx`.
pub fn sanitize_key_static(guid: &Guid) -> (s: String)
    ensures
        s@ == file_key_text(*guid),
{
    let mut s = String::new();
    push_hex(&mut s, guid.data1 as u64, 8, false);
    push_char(&mut s, '_');
    push_hex(&mut s, guid.data2 as u64, 4, false);
    push_char(&mut s, '_');
    push_hex(&mut s, guid.data3 as u64, 4, false);
    push_char(&mut s, '_');
    push_data4_lower(&mut s, &guid.data4);
    assert(s@ =~= file_key_text(*guid));
    s
}

} // verus!
