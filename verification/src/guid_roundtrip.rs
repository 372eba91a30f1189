//! Reading a printed GUID gives it back: the braced upper-case text that
//! `format_guid` writes is read by `parse_guid` as the same four fields.

use vstd::prelude::*;
use crate::guid::{braced_upper_text, guid_body, guid_parse, hex_pad};
use crate::guid::{data4_from, pair_chars, pair_sliceable};
use crate::scan::{
    accumulate, digit_value, is_whitespace, parse_hex_spec, split_on, strip_leading, strip_trailing, trim_end_ws,
    trim_start_ws, trim_ws,
};
use vstd::utf8::{encode_utf8, is_ascii_chars, is_ascii_chars_encode_utf8};
use crate::text::{digit_char, digits, pad_left};

verus! {

/// An upper-case hex digit.
pub open spec fn upper_hex_char(c: char) -> bool {
    ('0' <= c <= '9') || ('A' <= c <= 'F')
}

/// All characters are upper-case hex digits.
pub open spec fn upper_hex_text(s: Seq<char>) -> bool {
    forall|i: int| 0 <= i < s.len() ==> upper_hex_char(#[trigger] s[i])
}

proof fn lemma_digit_char_upper(d: nat)
    requires
        d < 16,
    ensures
        upper_hex_char(digit_char(d, true)),
        digit_value(digit_char(d, true), 16) == Some(d),
{
    let c = digit_char(d, true);
    if d < 10 {
        assert(c as int == 48 + d);
    } else {
        assert(c as int == 65 + d - 10);
    }
}

proof fn lemma_digits_upper(n: nat)
    ensures
        upper_hex_text(digits(n, 16, true)),
        digits(n, 16, true).len() > 0,
    decreases n,
{
    lemma_digit_char_upper(n % 16);
    if n >= 16 {
        lemma_digits_upper(n / 16);
        let d = digits(n / 16, 16, true);
        assert(digits(n, 16, true) == d.push(digit_char(n % 16, true)));
        assert forall|i: int| 0 <= i < d.len() + 1 implies upper_hex_char(#[trigger] d.push(digit_char(n % 16, true))[i]) by {
            if i < d.len() {
                assert(d.push(digit_char(n % 16, true))[i] == d[i]);
            }
        }
    }
}

proof fn lemma_hex_pad_upper(n: nat, w: nat)
    ensures
        upper_hex_text(hex_pad(n, w, true)),
        hex_pad(n, w, true).len() > 0,
{
    lemma_digits_upper(n);
    let d = digits(n, 16, true);
    if d.len() < w {
        let z = Seq::new((w - d.len()) as nat, |i: int| '0');
        assert(hex_pad(n, w, true) == z + d);
        assert forall|i: int| 0 <= i < (z + d).len() implies upper_hex_char(#[trigger] (z + d)[i]) by {
            if i >= z.len() {
                assert((z + d)[i] == d[i - z.len()]);
            }
        }
    }
}

/// Reading one more digit after `s`.
proof fn lemma_accumulate_snoc(acc: nat, s: Seq<char>, c: char, max: nat)
    requires
        accumulate(acc, s, 16, max) is Ok,
        digit_value(c, 16) is Some,
    ensures
        accumulate(acc, s.push(c), 16, max) == ({
            let v = accumulate(acc, s, 16, max)->Ok_0;
            let d = digit_value(c, 16)->Some_0;
            if v * 16 + d > max {
                Err::<nat, crate::scan::IntErrorKind>(crate::scan::IntErrorKind::PosOverflow)
            } else {
                Ok(v * 16 + d)
            }
        }),
    decreases s.len(),
{
    let d = digit_value(c, 16)->Some_0;
    if s.len() == 0 {
        let t = s.push(c);
        assert(t[0] == c);
        assert(t.drop_first() =~= Seq::<char>::empty());
        assert(accumulate(acc, s, 16, max) == Ok::<nat, crate::scan::IntErrorKind>(acc));
        if acc * 16 + d <= max {
            assert(accumulate(acc * 16 + d, t.drop_first(), 16, max) == Ok::<nat, crate::scan::IntErrorKind>(acc * 16 + d));
        }
    } else {
        let d0 = digit_value(s[0], 16)->Some_0;
        assert(s.push(c)[0] == s[0]);
        assert(s.push(c).drop_first() =~= s.drop_first().push(c));
        assert(accumulate(acc, s, 16, max) == accumulate(acc * 16 + d0, s.drop_first(), 16, max));
        lemma_accumulate_snoc(acc * 16 + d0, s.drop_first(), c, max);
    }
}

/// The digits of `n` read back give `n`.
proof fn lemma_accumulate_digits(n: nat, max: nat)
    requires
        n <= max,
    ensures
        accumulate(0, digits(n, 16, true), 16, max) == Ok::<nat, crate::scan::IntErrorKind>(n),
    decreases n,
{
    lemma_digit_char_upper(n % 16);
    if n < 16 {
        let s = digits(n, 16, true);
        assert(s == seq![digit_char(n % 16, true)]);
        assert(s.drop_first() =~= Seq::<char>::empty());
        assert(n % 16 == n);
        assert(accumulate(n, s.drop_first(), 16, max) == Ok::<nat, crate::scan::IntErrorKind>(n));
    } else {
        lemma_accumulate_digits(n / 16, max);
        lemma_accumulate_snoc(0, digits(n / 16, 16, true), digit_char(n % 16, true), max);
        assert((n / 16) * 16 + n % 16 == n);
    }
}

/// Leading zeros do not change what is read.
proof fn lemma_accumulate_zeros(k: nat, s: Seq<char>, max: nat)
    ensures
        accumulate(0, Seq::new(k, |i: int| '0') + s, 16, max) == accumulate(0, s, 16, max),
    decreases k,
{
    if k > 0 {
        let z = Seq::new(k, |i: int| '0');
        let z1 = Seq::new((k - 1) as nat, |i: int| '0');
        assert((z + s)[0] == '0');
        assert(digit_value('0', 16) == Some(0nat));
        assert((z + s).drop_first() =~= z1 + s);
        lemma_accumulate_zeros((k - 1) as nat, s, max);
    }
}

/// A padded upper-case hex number reads back as itself.
proof fn lemma_parse_hex_pad(n: nat, w: nat, max: nat)
    requires
        n <= max,
    ensures
        parse_hex_spec(hex_pad(n, w, true), max) == Ok::<nat, crate::scan::IntErrorKind>(n),
{
    lemma_hex_pad_upper(n, w);
    lemma_accumulate_digits(n, max);
    let d = digits(n, 16, true);
    let t = hex_pad(n, w, true);
    assert(upper_hex_char(t[0]));
    if d.len() < w {
        lemma_accumulate_zeros((w - d.len()) as nat, d, max);
    }
    assert(accumulate(0, t, 16, max) == Ok::<nat, crate::scan::IntErrorKind>(n));
}

proof fn lemma_split_nonempty(s: Seq<char>, sep: char)
    ensures
        split_on(s, sep).len() >= 1,
    decreases s.len(),
{
    if s.len() > 0 {
        lemma_split_nonempty(s.drop_last(), sep);
    }
}

/// Text without the separator is one piece.
proof fn lemma_split_whole(x: Seq<char>, sep: char)
    requires
        forall|i: int| 0 <= i < x.len() ==> x[i] != sep,
    ensures
        split_on(x, sep) == seq![x],
    decreases x.len(),
{
    if x.len() > 0 {
        lemma_split_whole(x.drop_last(), sep);
        assert(x.drop_last().push(x.last()) =~= x);
    } else {
        assert(x =~= Seq::<char>::empty());
    }
}

/// Splitting around one separator splits each side.
proof fn lemma_split_concat(a: Seq<char>, b: Seq<char>, sep: char)
    ensures
        split_on(a + seq![sep] + b, sep) == split_on(a, sep) + split_on(b, sep),
    decreases b.len(),
{
    let s = a + seq![sep] + b;
    if b.len() == 0 {
        assert(s.drop_last() =~= a);
        assert(split_on(b, sep) == seq![Seq::<char>::empty()]);
        assert(split_on(s, sep) =~= split_on(a, sep) + split_on(b, sep));
    } else {
        let b1 = b.drop_last();
        assert(s.drop_last() =~= a + seq![sep] + b1);
        lemma_split_concat(a, b1, sep);
        lemma_split_nonempty(b1, sep);
        let l = split_on(a, sep);
        let r = split_on(b1, sep);
        if b.last() == sep {
            assert(split_on(s, sep) =~= split_on(a, sep) + split_on(b, sep));
        } else {
            assert((l + r).update((l + r).len() - 1, (l + r).last().push(b.last())) =~= l + r.update(
                r.len() - 1,
                r.last().push(b.last()),
            ));
            assert(split_on(s, sep) =~= split_on(a, sep) + split_on(b, sep));
        }
    }
}

/// An upper-case hex digit is no whitespace, brace or dash.
proof fn lemma_upper_hex_plain(c: char)
    requires
        upper_hex_char(c),
    ensures
        !is_whitespace(c),
        c != '{' && c != '}' && c != '-',
        (c as u32) < 128,
{
}

/// Two digits of a byte, high nibble first.
proof fn lemma_byte_digits(x: u8)
    ensures
        hex_pad(x as nat, 2, true) == seq![digit_char(x as nat / 16, true), digit_char(x as nat % 16, true)],
{
    let n = x as nat;
    reveal_with_fuel(digits, 2);
    if n < 16 {
        assert(digits(n, 16, true) == seq![digit_char(n % 16, true)]);
        assert(n / 16 == 0);
        assert(digit_char(0, true) == '0');
        assert(pad_left(seq![digit_char(n % 16, true)], 2, '0') =~= seq!['0', digit_char(n % 16, true)]);
    } else {
        assert(n / 16 < 16);
        assert((n / 16) % 16 == n / 16);
        assert(digits(n, 16, true) =~= seq![digit_char(n / 16, true), digit_char(n % 16, true)]);
    }
}

/// The sixteen data4 digits.
pub open spec fn data4_text(d4: Seq<u8>) -> Seq<char> {
    hex_pad(d4[0] as nat, 2, true) + hex_pad(d4[1] as nat, 2, true) + hex_pad(d4[2] as nat, 2, true) + hex_pad(
        d4[3] as nat,
        2,
        true,
    ) + hex_pad(d4[4] as nat, 2, true) + hex_pad(d4[5] as nat, 2, true) + hex_pad(d4[6] as nat, 2, true)
        + hex_pad(d4[7] as nat, 2, true)
}

proof fn lemma_data4_text(d4: Seq<u8>)
    requires
        d4.len() == 8,
    ensures
        data4_text(d4).len() == 16,
        forall|i: int| 0 <= i < 8 ==> #[trigger] data4_text(d4)[2 * i] == digit_char(d4[i] as nat / 16, true)
            && data4_text(d4)[2 * i + 1] == digit_char(d4[i] as nat % 16, true),
        upper_hex_text(data4_text(d4)),
{
    lemma_byte_digits(d4[0]);
    lemma_byte_digits(d4[1]);
    lemma_byte_digits(d4[2]);
    lemma_byte_digits(d4[3]);
    lemma_byte_digits(d4[4]);
    lemma_byte_digits(d4[5]);
    lemma_byte_digits(d4[6]);
    lemma_byte_digits(d4[7]);
    let t = data4_text(d4);
    assert(t =~= Seq::new(16, |k: int| if k % 2 == 0 {
        digit_char(d4[k / 2] as nat / 16, true)
    } else {
        digit_char(d4[k / 2] as nat % 16, true)
    }));
    assert forall|k: int| 0 <= k < 16 implies upper_hex_char(#[trigger] t[k]) by {
        lemma_digit_char_upper(d4[k / 2] as nat / 16);
        lemma_digit_char_upper(d4[k / 2] as nat % 16);
    }
}

/// The encoded data4 digits are one byte each, the byte of the digit.
proof fn lemma_data4_bytes(d4: Seq<u8>)
    requires
        d4.len() == 8,
    ensures
        encode_utf8(data4_text(d4)).len() == 16,
        forall|k: int|
            0 <= k < 16 ==> (#[trigger] encode_utf8(data4_text(d4))[k]) < 0x80 && (encode_utf8(
                data4_text(d4),
            )[k] as char) == data4_text(d4)[k],
{
    let t = data4_text(d4);
    let b = encode_utf8(t);
    lemma_data4_text(d4);
    assert(is_ascii_chars(t)) by {
        assert forall|k: int| 0 <= k < t.len() implies '\0' <= #[trigger] t[k] <= '\u{7f}' by {
            lemma_upper_hex_plain(t[k]);
        }
    }
    is_ascii_chars_encode_utf8(t);
    assert forall|k: int| 0 <= k < 16 implies (#[trigger] b[k]) < 0x80 && (b[k] as char) == t[k] by {
        let c = t[k];
        lemma_upper_hex_plain(c);
        assert(b[k] == c as u8);
        vstd::utf8::char_u32_cast(c, c as u32);
    }
}

/// The data4 bytes are read back from their encoded digits.
#[verifier::rlimit(40)]
proof fn lemma_data4_from(d4: Seq<u8>, i: nat)
    requires
        d4.len() == 8,
        i <= 8,
    ensures
        data4_from(encode_utf8(data4_text(d4)), i) == Some(
            Ok::<Seq<u8>, (nat, crate::scan::IntErrorKind)>(d4.subrange(i as int, 8)),
        ),
    decreases 8 - i,
{
    let t = data4_text(d4);
    let b = encode_utf8(t);
    if i >= 8 {
        assert(d4.subrange(8, 8) =~= Seq::<u8>::empty());
    } else {
        lemma_data4_bytes(d4);
        lemma_data4_text(d4);
        let k = 2 * i as int;
        assert(b[k] < 0x80 && b[k + 1] < 0x80);
        if k + 2 < 16 {
            assert(b[k + 2] < 0x80);
        }
        assert(pair_sliceable(b, i as int));
        assert(pair_chars(b, i as int) =~= seq![t[k], t[k + 1]]);
        lemma_byte_digits(d4[i as int]);
        assert(seq![t[k], t[k + 1]] =~= hex_pad(d4[i as int] as nat, 2, true));
        lemma_parse_hex_pad(d4[i as int] as nat, 2, 255);
        lemma_data4_from(d4, i + 1);
        assert(seq![d4[i as int]] + d4.subrange(i as int + 1, 8) =~= d4.subrange(i as int, 8));
    }
}

/// Upper-case hex text has no dash.
proof fn lemma_no_dash(x: Seq<char>)
    requires
        upper_hex_text(x),
    ensures
        split_on(x, '-') == seq![x],
{
    assert forall|i: int| 0 <= i < x.len() implies x[i] != '-' by {
        lemma_upper_hex_plain(x[i]);
    }
    lemma_split_whole(x, '-');
}

/// The fourth piece: the first two data4 bytes.
pub open spec fn piece3(d4: Seq<u8>) -> Seq<char> {
    hex_pad(d4[0] as nat, 2, true) + hex_pad(d4[1] as nat, 2, true)
}

/// The fifth piece: the last six data4 bytes.
pub open spec fn piece4(d4: Seq<u8>) -> Seq<char> {
    hex_pad(d4[2] as nat, 2, true) + hex_pad(d4[3] as nat, 2, true) + hex_pad(d4[4] as nat, 2, true) + hex_pad(
        d4[5] as nat,
        2,
        true,
    ) + hex_pad(d4[6] as nat, 2, true) + hex_pad(d4[7] as nat, 2, true)
}

/// The printed GUID without its braces.
pub open spec fn inner_text(d1: u32, d2: u16, d3: u16, d4: Seq<u8>) -> Seq<char> {
    hex_pad(d1 as nat, 8, true) + seq!['-'] + hex_pad(d2 as nat, 4, true) + seq!['-'] + hex_pad(d3 as nat, 4, true)
        + seq!['-'] + piece3(d4) + seq!['-'] + piece4(d4)
}

proof fn lemma_concat_upper(a: Seq<char>, b: Seq<char>)
    requires
        upper_hex_text(a),
        upper_hex_text(b),
    ensures
        upper_hex_text(a + b),
{
    assert forall|i: int| 0 <= i < (a + b).len() implies upper_hex_char(#[trigger] (a + b)[i]) by {
        if i < a.len() {
            assert((a + b)[i] == a[i]);
        } else {
            assert((a + b)[i] == b[i - a.len()]);
        }
    }
}

proof fn lemma_pieces_upper(d4: Seq<u8>)
    requires
        d4.len() == 8,
    ensures
        upper_hex_text(piece3(d4)),
        upper_hex_text(piece4(d4)),
        piece4(d4).len() > 0,
        piece3(d4) + piece4(d4) == data4_text(d4),
{
    let h0 = hex_pad(d4[0] as nat, 2, true);
    let h1 = hex_pad(d4[1] as nat, 2, true);
    let h2 = hex_pad(d4[2] as nat, 2, true);
    let h3 = hex_pad(d4[3] as nat, 2, true);
    let h4 = hex_pad(d4[4] as nat, 2, true);
    let h5 = hex_pad(d4[5] as nat, 2, true);
    let h6 = hex_pad(d4[6] as nat, 2, true);
    let h7 = hex_pad(d4[7] as nat, 2, true);
    lemma_hex_pad_upper(d4[0] as nat, 2);
    lemma_hex_pad_upper(d4[1] as nat, 2);
    lemma_hex_pad_upper(d4[2] as nat, 2);
    lemma_hex_pad_upper(d4[3] as nat, 2);
    lemma_hex_pad_upper(d4[4] as nat, 2);
    lemma_hex_pad_upper(d4[5] as nat, 2);
    lemma_hex_pad_upper(d4[6] as nat, 2);
    lemma_hex_pad_upper(d4[7] as nat, 2);
    lemma_concat_upper(h0, h1);
    lemma_concat_upper(h2, h3);
    lemma_concat_upper(h2 + h3, h4);
    lemma_concat_upper(h2 + h3 + h4, h5);
    lemma_concat_upper(h2 + h3 + h4 + h5, h6);
    lemma_concat_upper(h2 + h3 + h4 + h5 + h6, h7);
    let p3 = h0 + h1;
    let q1 = h2 + h3;
    let q2 = q1 + h4;
    let q3 = q2 + h5;
    let q4 = q3 + h6;
    let q5 = q4 + h7;
    assert(p3 + q1 =~= h0 + h1 + h2 + h3);
    assert(p3 + q2 =~= (p3 + q1) + h4);
    assert(p3 + q3 =~= (p3 + q2) + h5);
    assert(p3 + q4 =~= (p3 + q3) + h6);
    assert(p3 + q5 =~= (p3 + q4) + h7);
}

/// The body that `guid_parse` reads from the printed text is the text without
/// its braces.
#[verifier::rlimit(60)]
proof fn lemma_printed_body(d1: u32, d2: u16, d3: u16, d4: Seq<u8>)
    requires
        d4.len() == 8,
    ensures
        guid_body(braced_upper_text(d1, d2, d3, d4)) == inner_text(d1, d2, d3, d4),
{
    let inner = inner_text(d1, d2, d3, d4);
    let text = braced_upper_text(d1, d2, d3, d4);
    assert(text =~= seq!['{'] + inner + seq!['}']);
    lemma_pieces_upper(d4);
    lemma_hex_pad_upper(d1 as nat, 8);
    let p0 = hex_pad(d1 as nat, 8, true);
    let p4 = piece4(d4);
    lemma_upper_hex_plain(p0[0]);
    lemma_upper_hex_plain(p4.last());
    assert(text[0] == '{');
    assert(text.last() == '}');
    assert(trim_start_ws(text) == text);
    assert(trim_end_ws(text) == text);
    assert(trim_ws(text) == text);
    let rest = inner + seq!['}'];
    assert(text.subrange(0, 1) =~= seq!['{']);
    assert(text.subrange(1, text.len() as int) =~= rest);
    assert(inner[0] == p0[0]);
    assert(rest.subrange(0, 1) != seq!['{']) by {
        assert(rest.subrange(0, 1)[0] == p0[0]);
    }
    assert(strip_leading(rest, seq!['{']) == rest);
    assert(strip_leading(text, seq!['{']) == rest);
    assert(rest.drop_last() =~= inner);
    assert(inner.last() == p4.last());
    assert(strip_trailing(inner, '}') == inner);
}

/// The body splits into its five pieces.
proof fn lemma_printed_pieces(d1: u32, d2: u16, d3: u16, d4: Seq<u8>)
    requires
        d4.len() == 8,
    ensures
        split_on(inner_text(d1, d2, d3, d4), '-') == seq![
            hex_pad(d1 as nat, 8, true),
            hex_pad(d2 as nat, 4, true),
            hex_pad(d3 as nat, 4, true),
            piece3(d4),
            piece4(d4),
        ],
{
    let p0 = hex_pad(d1 as nat, 8, true);
    let p1 = hex_pad(d2 as nat, 4, true);
    let p2 = hex_pad(d3 as nat, 4, true);
    let p3 = piece3(d4);
    let p4 = piece4(d4);
    lemma_pieces_upper(d4);
    lemma_hex_pad_upper(d1 as nat, 8);
    lemma_hex_pad_upper(d2 as nat, 4);
    lemma_hex_pad_upper(d3 as nat, 4);
    lemma_no_dash(p0);
    lemma_no_dash(p1);
    lemma_no_dash(p2);
    lemma_no_dash(p3);
    lemma_no_dash(p4);
    let a1 = p0 + seq!['-'] + p1;
    let a2 = a1 + seq!['-'] + p2;
    let a3 = a2 + seq!['-'] + p3;
    lemma_split_concat(p0, p1, '-');
    lemma_split_concat(a1, p2, '-');
    lemma_split_concat(a2, p3, '-');
    lemma_split_concat(a3, p4, '-');
    assert(inner_text(d1, d2, d3, d4) == a3 + seq!['-'] + p4);
    assert(split_on(a3 + seq!['-'] + p4, '-') =~= seq![p0, p1, p2, p3, p4]);
}

/// Reading the text that `format_guid` prints gives back the four fields it
/// was printed from.
pub proof fn law_printed_guid_reads_back(d1: u32, d2: u16, d3: u16, d4: Seq<u8>)
    requires
        d4.len() == 8,
    ensures
        guid_parse(braced_upper_text(d1, d2, d3, d4)) == Some(
            Ok::<(u32, u16, u16, Seq<u8>), Seq<char>>((d1, d2, d3, d4)),
        ),
{
    lemma_printed_body(d1, d2, d3, d4);
    lemma_printed_pieces(d1, d2, d3, d4);
    lemma_pieces_upper(d4);
    lemma_parse_hex_pad(d1 as nat, 8, 0xffff_ffff);
    lemma_parse_hex_pad(d2 as nat, 4, 0xffff);
    lemma_parse_hex_pad(d3 as nat, 4, 0xffff);
    lemma_data4_from(d4, 0);
    assert(d4.subrange(0, 8) =~= d4);
}

} // verus!
