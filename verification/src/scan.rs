//! Reading text: whitespace trimming, prefix stripping, splitting on a separator
//! and base-16 integer parsing with the error kinds of the standard library.

use vstd::prelude::*;
use crate::text::owned;

verus! {

/// The characters with the Unicode `White_Space` property (`char::is_whitespace`).
pub open spec fn is_whitespace(c: char) -> bool {
    ('\u{9}' <= c && c <= '\u{d}') || c == ' ' || c == '\u{85}' || c == '\u{a0}' || c == '\u{1680}'
        || ('\u{2000}' <= c && c <= '\u{200a}') || c == '\u{2028}' || c == '\u{2029}' || c
        == '\u{202f}' || c == '\u{205f}' || c == '\u{3000}'
}

/// `s` without its leading whitespace.
pub open spec fn trim_start_ws(s: Seq<char>) -> Seq<char>
    decreases s.len(),
{
    if s.len() > 0 && is_whitespace(s[0]) {
        trim_start_ws(s.drop_first())
    } else {
        s
    }
}

/// `s` without its trailing whitespace.
pub open spec fn trim_end_ws(s: Seq<char>) -> Seq<char>
    decreases s.len(),
{
    if s.len() > 0 && is_whitespace(s.last()) {
        trim_end_ws(s.drop_last())
    } else {
        s
    }
}

/// `s` without leading and trailing whitespace (`str::trim`).
pub open spec fn trim_ws(s: Seq<char>) -> Seq<char> {
    trim_end_ws(trim_start_ws(s))
}

/// `s` with every leading repetition of `p` removed (`str::trim_start_matches`).
pub open spec fn strip_leading(s: Seq<char>, p: Seq<char>) -> Seq<char>
    decreases s.len(),
{
    if p.len() > 0 && s.len() >= p.len() && s.subrange(0, p.len() as int) == p {
        strip_leading(s.subrange(p.len() as int, s.len() as int), p)
    } else {
        s
    }
}

/// `s` with every trailing `c` removed (`str::trim_end_matches` with a char).
pub open spec fn strip_trailing(s: Seq<char>, c: char) -> Seq<char>
    decreases s.len(),
{
    if s.len() > 0 && s.last() == c {
        strip_trailing(s.drop_last(), c)
    } else {
        s
    }
}

/// The pieces of `s` between occurrences of `sep` (`str::split` with a char):
/// one more piece than there are separators.
pub open spec fn split_on(s: Seq<char>, sep: char) -> Seq<Seq<char>>
    decreases s.len(),
{
    if s.len() == 0 {
        seq![Seq::empty()]
    } else {
        let init = split_on(s.drop_last(), sep);
        if s.last() == sep {
            init.push(Seq::empty())
        } else {
            init.update(init.len() - 1, init.last().push(s.last()))
        }
    }
}

proof fn lemma_split_on_nonempty(s: Seq<char>, sep: char)
    ensures
        split_on(s, sep).len() >= 1,
    decreases s.len(),
{
    if s.len() > 0 {
        lemma_split_on_nonempty(s.drop_last(), sep);
    }
}

/// The `0x` prefix of hexadecimal text.
pub open spec fn lower_hex_prefix() -> Seq<char> {
    seq!['0', 'x']
}

/// The `0X` prefix of hexadecimal text.
pub open spec fn upper_hex_prefix() -> Seq<char> {
    seq!['0', 'X']
}

/// `s` after `trim_start_matches("0x")` and then `trim_start_matches("0X")`.
pub open spec fn strip_hex_prefixes(s: Seq<char>) -> Seq<char> {
    strip_leading(strip_leading(s, lower_hex_prefix()), upper_hex_prefix())
}

/// Why text is not an integer (`core::num::IntErrorKind`, the kinds that an
/// unsigned parse can give).
#[derive(Debug, Clone, Copy, PartialEq, Eq, Structural)]
pub enum IntErrorKind {
    /// The text is empty.
    Empty,
    /// A character is not a digit of the radix.
    InvalidDigit,
    /// The value does not fit in the target type.
    PosOverflow,
}

/// The message that the standard library displays for each error kind.
pub open spec fn int_error_message(k: IntErrorKind) -> Seq<char> {
    match k {
        IntErrorKind::Empty => "cannot parse integer from empty string"@,
        IntErrorKind::InvalidDigit => "invalid digit found in string"@,
        IntErrorKind::PosOverflow => "number too large to fit in target type"@,
    }
}

impl IntErrorKind {
    /// The displayed message of this error kind.
    pub fn message(&self) -> (s: String)
        ensures
            s@ == int_error_message(*self),
    {
        match self {
            IntErrorKind::Empty => owned("cannot parse integer from empty string"),
            IntErrorKind::InvalidDigit => owned("invalid digit found in string"),
            IntErrorKind::PosOverflow => owned("number too large to fit in target type"),
        }
    }
}

/// The value of `c` as a digit of `radix` (2..=36), if it is one (`char::to_digit`).
pub open spec fn digit_value(c: char, radix: nat) -> Option<nat> {
    let v: int = if '0' <= c && c <= '9' {
        c as int - '0' as int
    } else if 'a' <= c && c <= 'z' {
        c as int - 'a' as int + 10
    } else if 'A' <= c && c <= 'Z' {
        c as int - 'A' as int + 10
    } else {
        radix as int
    };
    if v < radix {
        Some(v as nat)
    } else {
        None
    }
}

/// Reading `digits` in base `radix` after the value `acc`, left to right, with
/// values above `max` refused: the first character that is no digit, or the
/// first digit that takes the value above `max`, decides the error.
pub open spec fn accumulate(acc: nat, digits: Seq<char>, radix: nat, max: nat) -> Result<nat, IntErrorKind>
    decreases digits.len(),
{
    if digits.len() == 0 {
        Ok(acc)
    } else {
        match digit_value(digits[0], radix) {
            None => Err(IntErrorKind::InvalidDigit),
            Some(d) => if acc * radix + d > max {
                Err(IntErrorKind::PosOverflow)
            } else {
                accumulate(acc * radix + d, digits.drop_first(), radix, max)
            },
        }
    }
}

/// `from_str_radix(s, radix)` for an unsigned type whose largest value is `max`:
/// empty text is refused, one leading `+` is allowed before at least one digit.
pub open spec fn parse_radix_spec(s: Seq<char>, radix: nat, max: nat) -> Result<nat, IntErrorKind> {
    if s.len() == 0 {
        Err(IntErrorKind::Empty)
    } else if (s[0] == '+' || s[0] == '-') && s.len() == 1 {
        Err(IntErrorKind::InvalidDigit)
    } else if s[0] == '+' {
        accumulate(0, s.drop_first(), radix, max)
    } else {
        accumulate(0, s, radix, max)
    }
}

/// `from_str_radix(s, 16)` for an unsigned type whose largest value is `max`.
pub open spec fn parse_hex_spec(s: Seq<char>, max: nat) -> Result<nat, IntErrorKind> {
    parse_radix_spec(s, 16, max)
}

fn digit_value_of(c: char, radix: u32) -> (r: Option<u64>)
    requires
        2 <= radix <= 36,
    ensures
        match digit_value(c, radix as nat) {
            Some(d) => r == Some(d as u64),
            None => r is None,
        },
{
    let v: u32 = if '0' <= c && c <= '9' {
        c as u32 - '0' as u32
    } else if 'a' <= c && c <= 'z' {
        c as u32 - 'a' as u32 + 10
    } else if 'A' <= c && c <= 'Z' {
        c as u32 - 'A' as u32 + 10
    } else {
        radix
    };
    if v < radix {
        Some(v as u64)
    } else {
        None
    }
}

proof fn lemma_accumulate_bounded(acc: nat, digits: Seq<char>, radix: nat, max: nat)
    ensures
        accumulate(acc, digits, radix, max) matches Ok(v) ==> v <= max || (digits.len() == 0 && v
            == acc),
    decreases digits.len(),
{
    if digits.len() > 0 {
        if let Some(d) = digit_value(digits[0], radix) {
            if acc * radix + d <= max {
                lemma_accumulate_bounded(acc * radix + d, digits.drop_first(), radix, max);
            }
        }
    }
}

/// Parses `s[start..]` as digits of `radix` after the value 0.
fn accumulate_exec(s: &Vec<char>, start: usize, radix: u32, max: u64) -> (r: Result<u64, IntErrorKind>)
    requires
        start <= s.len(),
        2 <= radix <= 36,
    ensures
        match accumulate(0, s@.subrange(start as int, s.len() as int), radix as nat, max as nat) {
            Ok(v) => r == Ok::<u64, IntErrorKind>(v as u64),
            Err(e) => r == Err::<u64, IntErrorKind>(e),
        },
{
    let ghost total = s@.subrange(start as int, s.len() as int);
    let mut acc: u64 = 0;
    let mut i: usize = start;
    while i < s.len()
        invariant
            start <= i <= s.len(),
            2 <= radix <= 36,
            total == s@.subrange(start as int, s.len() as int),
            acc <= max,
            accumulate(0, total, radix as nat, max as nat) == accumulate(
                acc as nat,
                s@.subrange(i as int, s.len() as int),
                radix as nat,
                max as nat,
            ),
        decreases s.len() - i,
    {
        let ghost rest = s@.subrange(i as int, s.len() as int);
        assert(rest[0] == s@[i as int]);
        assert(rest.drop_first() =~= s@.subrange(i + 1, s.len() as int));
        match digit_value_of(s[i], radix) {
            None => {
                return Err(IntErrorKind::InvalidDigit);
            },
            Some(d) => {
                assert((acc as int) * (radix as int) <= 0xffff_ffff_ffff_ffff * 36) by (nonlinear_arith)
                    requires
                        acc <= 0xffff_ffff_ffff_ffffu64,
                        radix <= 36,
                ;
                let next: u128 = (acc as u128) * (radix as u128) + (d as u128);
                if next > max as u128 {
                    return Err(IntErrorKind::PosOverflow);
                }
                acc = next as u64;
            },
        }
        i = i + 1;
    }
    assert(s@.subrange(i as int, s.len() as int) =~= Seq::<char>::empty());
    Ok(acc)
}

/// `from_str_radix(s, radix)` for an unsigned type whose largest value is `max`.
pub fn parse_radix(s: &Vec<char>, radix: u32, max: u64) -> (r: Result<u64, IntErrorKind>)
    requires
        2 <= radix <= 36,
    ensures
        match parse_radix_spec(s@, radix as nat, max as nat) {
            Ok(v) => r == Ok::<u64, IntErrorKind>(v as u64) && v <= max,
            Err(e) => r == Err::<u64, IntErrorKind>(e),
        },
{
    if s.len() == 0 {
        return Err(IntErrorKind::Empty);
    }
    if (s[0] == '+' || s[0] == '-') && s.len() == 1 {
        return Err(IntErrorKind::InvalidDigit);
    }
    if s[0] == '+' {
        proof {
            assert(s@.drop_first() =~= s@.subrange(1, s.len() as int));
            lemma_accumulate_bounded(0, s@.drop_first(), radix as nat, max as nat);
        }
        accumulate_exec(s, 1, radix, max)
    } else {
        proof {
            assert(s@ =~= s@.subrange(0, s.len() as int));
            lemma_accumulate_bounded(0, s@, radix as nat, max as nat);
        }
        accumulate_exec(s, 0, radix, max)
    }
}

/// `from_str_radix(s, 16)` for an unsigned type whose largest value is `max`.
pub fn parse_hex(s: &Vec<char>, max: u64) -> (r: Result<u64, IntErrorKind>)
    ensures
        match parse_hex_spec(s@, max as nat) {
            Ok(v) => r == Ok::<u64, IntErrorKind>(v as u64) && v <= max,
            Err(e) => r == Err::<u64, IntErrorKind>(e),
        },
{
    parse_radix(s, 16, max)
}

/// The characters of `s` from index `lo` up to `hi`.
pub fn slice_chars(s: &Vec<char>, lo: usize, hi: usize) -> (r: Vec<char>)
    requires
        lo <= hi <= s.len(),
    ensures
        r@ == s@.subrange(lo as int, hi as int),
{
    let mut r: Vec<char> = Vec::new();
    let mut i = lo;
    while i < hi
        invariant
            lo <= i <= hi,
            hi <= s.len(),
            r@ == s@.subrange(lo as int, i as int),
        decreases hi - i,
    {
        r.push(s[i]);
        i = i + 1;
        assert(r@ =~= s@.subrange(lo as int, i as int));
    }
    r
}

fn is_whitespace_exec(c: char) -> (b: bool)
    ensures
        b == is_whitespace(c),
{
    ('\u{9}' <= c && c <= '\u{d}') || c == ' ' || c == '\u{85}' || c == '\u{a0}' || c == '\u{1680}'
        || ('\u{2000}' <= c && c <= '\u{200a}') || c == '\u{2028}' || c == '\u{2029}' || c
        == '\u{202f}' || c == '\u{205f}' || c == '\u{3000}'
}

/// `s` without leading and trailing whitespace.
pub fn trim(s: &Vec<char>) -> (r: Vec<char>)
    ensures
        r@ == trim_ws(s@),
{
    let mut lo: usize = 0;
    assert(s@.subrange(0, s.len() as int) =~= s@);
    while lo < s.len() && is_whitespace_exec(s[lo])
        invariant
            lo <= s.len(),
            trim_start_ws(s@) == trim_start_ws(s@.subrange(lo as int, s.len() as int)),
        decreases s.len() - lo,
    {
        let ghost rest = s@.subrange(lo as int, s.len() as int);
        assert(rest.drop_first() =~= s@.subrange(lo + 1, s.len() as int));
        lo = lo + 1;
    }
    let ghost start = s@.subrange(lo as int, s.len() as int);
    assert(trim_start_ws(start) == start);
    let mut hi: usize = s.len();
    while hi > lo && is_whitespace_exec(s[hi - 1])
        invariant
            lo <= hi <= s.len(),
            trim_end_ws(start) == trim_end_ws(s@.subrange(lo as int, hi as int)),
            start == s@.subrange(lo as int, s.len() as int),
        decreases hi - lo,
    {
        let ghost cur = s@.subrange(lo as int, hi as int);
        assert(cur.drop_last() =~= s@.subrange(lo as int, hi - 1));
        hi = hi - 1;
    }
    let r = slice_chars(s, lo, hi);
    proof {
        let cur = s@.subrange(lo as int, hi as int);
        assert(trim_end_ws(cur) == cur);
    }
    r
}

/// `s` with every leading repetition of the two characters `a`, `b` removed.
pub fn strip_leading_pair(s: &Vec<char>, a: char, b: char) -> (r: Vec<char>)
    ensures
        r@ == strip_leading(s@, seq![a, b]),
{
    let ghost p = seq![a, b];
    let mut lo: usize = 0;
    assert(s@.subrange(0, s.len() as int) =~= s@);
    while lo < s.len() && s.len() - lo >= 2 && s[lo] == a && s[lo + 1] == b
        invariant
            lo <= s.len(),
            p == seq![a, b],
            strip_leading(s@, p) == strip_leading(s@.subrange(lo as int, s.len() as int), p),
        decreases s.len() - lo,
    {
        let ghost rest = s@.subrange(lo as int, s.len() as int);
        assert(rest[0] == a && rest[1] == b);
        assert(rest.subrange(0, 2) =~= p);
        assert(rest.subrange(2, rest.len() as int) =~= s@.subrange(lo + 2, s.len() as int));
        lo = lo + 2;
    }
    proof {
        let rest = s@.subrange(lo as int, s.len() as int);
        if rest.len() >= 2 && rest.subrange(0, 2) == p {
            assert(rest.subrange(0, 2)[0] == rest[0]);
            assert(rest.subrange(0, 2)[1] == rest[1]);
        }
    }
    slice_chars(s, lo, s.len())
}

/// `s` with every leading `c` removed.
pub fn strip_leading_char(s: &Vec<char>, c: char) -> (r: Vec<char>)
    ensures
        r@ == strip_leading(s@, seq![c]),
{
    let ghost p = seq![c];
    let mut lo: usize = 0;
    assert(s@.subrange(0, s.len() as int) =~= s@);
    while lo < s.len() && s[lo] == c
        invariant
            lo <= s.len(),
            p == seq![c],
            strip_leading(s@, p) == strip_leading(s@.subrange(lo as int, s.len() as int), p),
        decreases s.len() - lo,
    {
        let ghost rest = s@.subrange(lo as int, s.len() as int);
        assert(rest[0] == c);
        assert(rest.subrange(0, 1) =~= p);
        assert(rest.subrange(1, rest.len() as int) =~= s@.subrange(lo + 1, s.len() as int));
        lo = lo + 1;
    }
    proof {
        let rest = s@.subrange(lo as int, s.len() as int);
        if rest.len() >= 1 && rest.subrange(0, 1) == p {
            assert(rest.subrange(0, 1)[0] == rest[0]);
        }
    }
    slice_chars(s, lo, s.len())
}

/// `s` with every trailing `c` removed.
pub fn strip_trailing_char(s: &Vec<char>, c: char) -> (r: Vec<char>)
    ensures
        r@ == strip_trailing(s@, c),
{
    let mut hi: usize = s.len();
    assert(s@.subrange(0, s.len() as int) =~= s@);
    while hi > 0 && s[hi - 1] == c
        invariant
            hi <= s.len(),
            strip_trailing(s@, c) == strip_trailing(s@.subrange(0, hi as int), c),
        decreases hi,
    {
        let ghost cur = s@.subrange(0, hi as int);
        assert(cur.drop_last() =~= s@.subrange(0, hi - 1));
        hi = hi - 1;
    }
    slice_chars(s, 0, hi)
}

/// `strip_hex_prefixes` of `s`.
pub fn strip_hex(s: &Vec<char>) -> (r: Vec<char>)
    ensures
        r@ == strip_hex_prefixes(s@),
{
    let a = strip_leading_pair(s, '0', 'x');
    strip_leading_pair(&a, '0', 'X')
}

/// The views of a list of character vectors.
pub open spec fn views(v: Seq<Vec<char>>) -> Seq<Seq<char>> {
    v.map_values(|p: Vec<char>| p@)
}

/// The pieces of `s` between occurrences of `sep`.
pub fn split(s: &Vec<char>, sep: char) -> (parts: Vec<Vec<char>>)
    ensures
        views(parts@) == split_on(s@, sep),
{
    let mut parts: Vec<Vec<char>> = Vec::new();
    let mut cur: Vec<char> = Vec::new();
    let mut i: usize = 0;
    assert(s@.subrange(0, 0) =~= Seq::<char>::empty());
    while i < s.len()
        invariant
            i <= s.len(),
            split_on(s@.subrange(0, i as int), sep) == views(parts@).push(cur@),
        decreases s.len() - i,
    {
        let ghost prev = s@.subrange(0, i as int);
        let ghost next = s@.subrange(0, i + 1);
        assert(next.drop_last() =~= prev);
        assert(next.last() == s@[i as int]);
        if s[i] == sep {
            parts.push(cur);
            cur = Vec::new();
            assert(views(parts@).push(cur@) =~= split_on(prev, sep).push(Seq::empty()));
        } else {
            let ghost old_parts = views(parts@);
            cur.push(s[i]);
            assert(views(parts@).push(cur@) =~= split_on(prev, sep).update(
                split_on(prev, sep).len() - 1,
                split_on(prev, sep).last().push(s@[i as int]),
            ));
        }
        i = i + 1;
    }
    parts.push(cur);
    assert(s@.subrange(0, s.len() as int) =~= s@);
    parts
}

} // verus!
