//! Calendar arithmetic for log time stamps: day numbers since 1970-01-01 to
//! proleptic Gregorian dates, and the `YYYYMMDD-HHMMSS.mmm` stamp of an epoch
//! time in milliseconds.

use vstd::prelude::*;
use vstd::arithmetic::div_mod::{
    lemma_fundamental_div_mod,
    lemma_fundamental_div_mod_converse,
    lemma_div_is_ordered,
};
use crate::text::{dec_signed_padded, push_char, push_dec_signed_padded};

verus! {

/// Gregorian leap year rule.
pub open spec fn is_leap_year(y: int) -> bool {
    (y % 4 == 0 && y % 100 != 0) || y % 400 == 0
}

/// Number of days of month `m` (1..=12) of year `y`.
pub open spec fn month_length(y: int, m: int) -> int {
    if m == 2 {
        if is_leap_year(y) { 29 } else { 28 }
    } else if m == 4 || m == 6 || m == 9 || m == 11 {
        30
    } else {
        31
    }
}

/// Days of a common year before the first day of month `m` (1..=12).
pub open spec fn days_before_month_common(m: int) -> int {
    if m == 1 { 0 }
    else if m == 2 { 31 }
    else if m == 3 { 59 }
    else if m == 4 { 90 }
    else if m == 5 { 120 }
    else if m == 6 { 151 }
    else if m == 7 { 181 }
    else if m == 8 { 212 }
    else if m == 9 { 243 }
    else if m == 10 { 273 }
    else if m == 11 { 304 }
    else { 334 }
}

/// Days of year `y` before the first day of month `m`.
pub open spec fn days_before_month(y: int, m: int) -> int {
    days_before_month_common(m) + if m > 2 && is_leap_year(y) { 1int } else { 0int }
}

/// Count of leap years in `1..=y` (negative, signed count for `y < 0`).
pub open spec fn leap_years_through(y: int) -> int {
    y / 4 - y / 100 + y / 400
}

/// Days from 1970-01-01 to the first day of year `y` (negative before 1970).
pub open spec fn days_before_year(y: int) -> int {
    365 * (y - 1970) + leap_years_through(y - 1) - leap_years_through(1969)
}

/// Day number of the date `y-m-d`, counted from 1970-01-01 as day 0.
pub open spec fn days_from_civil(y: int, m: int, d: int) -> int {
    days_before_year(y) + days_before_month(y, m) + d - 1
}

/// `y-m-d` is a date of the proleptic Gregorian calendar.
pub open spec fn is_valid_date(y: int, m: int, d: int) -> bool {
    1 <= m <= 12 && 1 <= d <= month_length(y, m)
}

/// The date of day number `days`, in the closed form that counts 400-year eras
/// from 0000-03-01.
pub open spec fn civil_from_day_number(days: int) -> (int, int, int) {
    let z = days + 719468;
    let era = z / 146097;
    let doe = z % 146097;
    let yoe = (doe - doe / 1460 + doe / 36524 - doe / 146096) / 365;
    let doy = doe - (365 * yoe + yoe / 4 - yoe / 100);
    let mp = (5 * doy + 2) / 153;
    let d = doy - (153 * mp + 2) / 5 + 1;
    let m = if mp < 10 { mp + 3 } else { mp - 9 };
    let y = yoe + era * 400 + if m <= 2 { 1int } else { 0int };
    (y, m, d)
}

/// Within one era, the year of the era and the day of that year.
proof fn lemma_era_year(doe: u32)
    requires
        doe <= 146096,
    ensures
        ({
            let yoe = (doe - doe / 1460 + doe / 36524 - doe / 146096) / 365;
            let s = 365 * yoe + yoe / 4 - yoe / 100;
            &&& yoe <= 399
            &&& s <= doe
            &&& doe - s <= 365
            &&& (doe - s == 365 ==> (yoe + 1) % 4 == 0 && ((yoe + 1) % 100 != 0 || (yoe + 1)
                % 400 == 0))
        }),
{
    assert({
        let yoe = (doe - doe / 1460 + doe / 36524 - doe / 146096) / 365;
        let s = 365 * yoe + yoe / 4 - yoe / 100;
        &&& yoe <= 399
        &&& s <= doe
        &&& doe - s <= 365
        &&& (doe - s == 365 ==> (yoe + 1) % 4 == 0 && ((yoe + 1) % 100 != 0 || (yoe + 1) % 400
            == 0))
    }) by (bit_vector)
        requires
            doe <= 146096,
    ;
}

/// Within a year that starts on March 1, the month and the day of the month.
proof fn lemma_march_year_month(doy: u32)
    requires
        doy <= 365,
    ensures
        ({
            let mp = (5 * doy + 2) / 153;
            let ms = (153 * mp + 2) / 5;
            let d = doy - ms + 1;
            &&& mp <= 11
            &&& ms <= doy
            &&& (mp == 0 ==> ms == 0 && d <= 31)
            &&& (mp == 1 ==> ms == 31 && d <= 30)
            &&& (mp == 2 ==> ms == 61 && d <= 31)
            &&& (mp == 3 ==> ms == 92 && d <= 30)
            &&& (mp == 4 ==> ms == 122 && d <= 31)
            &&& (mp == 5 ==> ms == 153 && d <= 31)
            &&& (mp == 6 ==> ms == 184 && d <= 30)
            &&& (mp == 7 ==> ms == 214 && d <= 31)
            &&& (mp == 8 ==> ms == 245 && d <= 30)
            &&& (mp == 9 ==> ms == 275 && d <= 31)
            &&& (mp == 10 ==> ms == 306 && d <= 31)
            &&& (mp == 11 ==> ms == 337 && d <= 29 && (d == 29 ==> doy == 365))
        }),
{
    assert({
        let mp = (5 * doy + 2) / 153;
        let ms = (153 * mp + 2) / 5;
        let d = doy - ms + 1;
        &&& mp <= 11
        &&& ms <= doy
        &&& (mp == 0 ==> ms == 0 && d <= 31)
        &&& (mp == 1 ==> ms == 31 && d <= 30)
        &&& (mp == 2 ==> ms == 61 && d <= 31)
        &&& (mp == 3 ==> ms == 92 && d <= 30)
        &&& (mp == 4 ==> ms == 122 && d <= 31)
        &&& (mp == 5 ==> ms == 153 && d <= 31)
        &&& (mp == 6 ==> ms == 184 && d <= 30)
        &&& (mp == 7 ==> ms == 214 && d <= 31)
        &&& (mp == 8 ==> ms == 245 && d <= 30)
        &&& (mp == 9 ==> ms == 275 && d <= 31)
        &&& (mp == 10 ==> ms == 306 && d <= 31)
        &&& (mp == 11 ==> ms == 337 && d <= 29 && (d == 29 ==> doy == 365))
    }) by (bit_vector)
        requires
            doy <= 365,
    ;
}

/// Shifting by whole 400-year eras moves the quotients by 4, 100 and 400 in step
/// and keeps the remainders.
proof fn lemma_era_shift(e: int, k: int)
    ensures
        (400 * e + k) / 4 == 100 * e + k / 4,
        (400 * e + k) / 100 == 4 * e + k / 100,
        (400 * e + k) / 400 == e + k / 400,
        (400 * e + k) % 4 == k % 4,
        (400 * e + k) % 100 == k % 100,
        (400 * e + k) % 400 == k % 400,
{
    lemma_fundamental_div_mod(k, 4);
    lemma_fundamental_div_mod(k, 100);
    lemma_fundamental_div_mod(k, 400);
    lemma_fundamental_div_mod_converse(400 * e + k, 4, 100 * e + k / 4, k % 4);
    lemma_fundamental_div_mod_converse(400 * e + k, 100, 4 * e + k / 100, k % 100);
    lemma_fundamental_div_mod_converse(400 * e + k, 400, e + k / 400, k % 400);
}

/// Going from `k - 1` to `k`, the quotient by `q` grows by one exactly when `q` divides `k`.
proof fn lemma_quotient_step(k: int, q: int)
    requires
        q > 0,
    ensures
        k / q - (k - 1) / q == if k % q == 0 { 1int } else { 0int },
{
    lemma_fundamental_div_mod(k, q);
    let a = k / q;
    let r = k % q;
    assert(0 <= r < q) by {
        vstd::arithmetic::div_mod::lemma_mod_bound(k, q);
    }
    if r == 0 {
        assert(k - 1 == (a - 1) * q + (q - 1)) by (nonlinear_arith)
            requires
                k == q * a + r,
                r == 0,
        ;
        lemma_fundamental_div_mod_converse(k - 1, q, a - 1, q - 1);
    } else {
        assert(k - 1 == a * q + (r - 1)) by (nonlinear_arith)
            requires
                k == q * a + r,
        ;
        lemma_fundamental_div_mod_converse(k - 1, q, a, r - 1);
    }
}

/// A multiple of `a * b` is a multiple of `a`.
proof fn lemma_multiple_of_factor(k: int, a: int, b: int)
    requires
        a > 0,
        b > 0,
        k % (a * b) == 0,
    ensures
        k % a == 0,
{
    assert(a * b > 0) by (nonlinear_arith)
        requires
            a > 0,
            b > 0,
    ;
    lemma_fundamental_div_mod(k, a * b);
    let t = k / (a * b);
    assert(k == (t * b) * a + 0) by (nonlinear_arith)
        requires
            k == (a * b) * t + k % (a * b),
            k % (a * b) == 0,
    ;
    lemma_fundamental_div_mod_converse(k, a, t * b, 0);
}

/// The leap-year count grows by one exactly at leap years.
proof fn lemma_leap_step(k: int)
    ensures
        leap_years_through(k) - leap_years_through(k - 1) == if is_leap_year(k) { 1int } else { 0int },
{
    lemma_quotient_step(k, 4);
    lemma_quotient_step(k, 100);
    lemma_quotient_step(k, 400);
    if k % 400 == 0 {
        lemma_multiple_of_factor(k, 100, 4);
    }
    if k % 100 == 0 {
        lemma_multiple_of_factor(k, 4, 25);
    }
}

/// The closed form gives a valid date whose day number is `days`.
pub proof fn lemma_civil_from_day_number(days: int)
    ensures
        is_valid_date(
            civil_from_day_number(days).0,
            civil_from_day_number(days).1,
            civil_from_day_number(days).2,
        ),
        days_from_civil(
            civil_from_day_number(days).0,
            civil_from_day_number(days).1,
            civil_from_day_number(days).2,
        ) == days,
{
    let z = days + 719468;
    let era = z / 146097;
    let doe = z % 146097;
    lemma_fundamental_div_mod(z, 146097);
    assert(0 <= doe < 146097);
    let doe32 = doe as u32;
    lemma_era_year(doe32);
    let yoe = (doe - doe / 1460 + doe / 36524 - doe / 146096) / 365;
    let s = 365 * yoe + yoe / 4 - yoe / 100;
    let doy = doe - s;
    assert(0 <= yoe <= 399);
    assert(0 <= doy <= 365);
    let doy32 = doy as u32;
    lemma_march_year_month(doy32);
    let mp = (5 * doy + 2) / 153;
    let ms = (153 * mp + 2) / 5;
    let d = doy - ms + 1;
    let m = if mp < 10 { mp + 3 } else { mp - 9 };
    let big_y = 400 * era + yoe;
    let y = big_y + if m <= 2 { 1int } else { 0int };
    assert(civil_from_day_number(days) == (y, m, d));
    // leap years of the era's years
    lemma_era_shift(era, yoe - 1);
    lemma_era_shift(era, yoe);
    lemma_era_shift(era, yoe + 1);
    lemma_leap_step(yoe);
    lemma_leap_step(big_y);
    assert(leap_years_through(big_y - 1) == 97 * era + leap_years_through(yoe - 1));
    assert(is_leap_year(big_y) == is_leap_year(yoe));
    assert(leap_years_through(yoe) == yoe / 4 - yoe / 100);
    assert(days_before_year(big_y) + 59 + (if is_leap_year(big_y) { 1int } else { 0int })
        == 146097 * era + s - 719468);
    // the month and day
    assert(is_valid_date(y, m, d)) by {
        if mp == 11 && d == 29 {
            assert(is_leap_year(big_y + 1) == is_leap_year(yoe + 1));
        }
    }
    if m > 2 {
        assert(days_before_month(y, m) == 59 + ms + (if is_leap_year(big_y) { 1int } else { 0int }));
    } else {
        lemma_leap_step(big_y + 1);
        assert(days_before_year(y) == days_before_year(big_y) + 365 + (if is_leap_year(big_y) {
            1int
        } else {
            0int
        }));
        assert(days_before_month(y, m) == ms - 306);
    }
}

/// Floor division and remainder by a positive divisor.
fn floor_div_mod(z: i64, k: i64) -> (res: (i64, i64))
    requires
        k > 0,
    ensures
        res.0 == z as int / k as int,
        res.1 == z as int % k as int,
{
    if z >= 0 {
        let n = z as u64;
        let q = n / (k as u64);
        let r = n % (k as u64);
        proof {
            lemma_fundamental_div_mod(n as int, k as int);
            assert(q <= n) by {
                vstd::arithmetic::div_mod::lemma_div_is_ordered_by_denominator(n as int, 1, k as int);
            }
        }
        (q as i64, r as i64)
    } else {
        let n: u64 = (-(z + 1)) as u64;
        let q = n / (k as u64);
        let r = n % (k as u64);
        proof {
            lemma_fundamental_div_mod(n as int, k as int);
            assert(q <= n) by {
                vstd::arithmetic::div_mod::lemma_div_is_ordered_by_denominator(n as int, 1, k as int);
            }
            let qi = q as int;
            let ri = r as int;
            let ki = k as int;
            assert(z as int == (-qi - 1) * ki + (ki - 1 - ri)) by (nonlinear_arith)
                requires
                    n as int == ki * qi + ri,
                    z as int == -(n as int) - 1,
            ;
            lemma_fundamental_div_mod_converse(z as int, ki, -qi - 1, ki - 1 - ri);
        }
        (-(q as i64) - 1, k - 1 - (r as i64))
    }
}

/// The proleptic Gregorian date `(year, month, day)` of day `days`, counted from
/// 1970-01-01 as day 0.
pub fn civil_from_days(days: i64) -> (r: (i64, i64, i64))
    requires
        days <= i64::MAX - 719468,
    ensures
        (r.0 as int, r.1 as int, r.2 as int) == civil_from_day_number(days as int),
        is_valid_date(r.0 as int, r.1 as int, r.2 as int),
        days_from_civil(r.0 as int, r.1 as int, r.2 as int) == days as int,
{
    let z = days + 719468;
    let (era, doe) = floor_div_mod(z, 146097);
    proof {
        lemma_fundamental_div_mod(z as int, 146097);
        lemma_era_year(doe as u32);
        lemma_civil_from_day_number(days as int);
    }
    let doe_u = doe as u64;
    let yoe = (doe_u - doe_u / 1460 + doe_u / 36524 - doe_u / 146096) / 365;
    let doy = doe_u - (365 * yoe + yoe / 4 - yoe / 100);
    proof {
        lemma_march_year_month(doy as u32);
    }
    let mp = (5 * doy + 2) / 153;
    let d = doy - (153 * mp + 2) / 5 + 1;
    let m = if mp < 10 { mp + 3 } else { mp - 9 };
    let y = (yoe as i64) + era * 400 + if m <= 2 { 1i64 } else { 0i64 };
    (y, m as i64, d as i64)
}

/// The `YYYYMMDD-HHMMSS.mmm` stamp of `epoch_millis` milliseconds after the Unix
/// epoch (each field zero-padded, the year to four places with its sign).
pub open spec fn iso_stamp(epoch_millis: u128) -> Seq<char> {
    let secs = ((epoch_millis / 1000) as i64) as int;
    let days = secs / 86400;
    let sod = secs % 86400;
    let date = civil_from_day_number(days);
    dec_signed_padded(date.0, 4) + dec_signed_padded(date.1, 2) + dec_signed_padded(date.2, 2)
        + seq!['-'] + dec_signed_padded(sod / 3600, 2) + dec_signed_padded((sod % 3600) / 60, 2)
        + dec_signed_padded(sod % 60, 2) + seq!['.'] + dec_signed_padded(
        (epoch_millis % 1000) as int,
        3,
    )
}

/// Formats an epoch time in milliseconds as `YYYYMMDD-HHMMSS.mmm` (UTC).
pub fn format_iso(epoch_millis: u128) -> (s: String)
    ensures
        s@ == iso_stamp(epoch_millis),
{
    let secs = (epoch_millis / 1000) as i64;
    let (days, sod) = floor_div_mod(secs, 86400);
    proof {
        lemma_div_is_ordered(secs as int, i64::MAX as int, 86400);
    }
    let (y, m, d) = civil_from_days(days);
    let h = sod / 3600;
    let min = (sod % 3600) / 60;
    let sec = sod % 60;
    let ms = (epoch_millis % 1000) as i64;
    let mut out = String::new();
    push_dec_signed_padded(&mut out, y, 4);
    push_dec_signed_padded(&mut out, m, 2);
    push_dec_signed_padded(&mut out, d, 2);
    push_char(&mut out, '-');
    push_dec_signed_padded(&mut out, h, 2);
    push_dec_signed_padded(&mut out, min, 2);
    push_dec_signed_padded(&mut out, sec, 2);
    push_char(&mut out, '.');
    push_dec_signed_padded(&mut out, ms, 3);
    proof {
        assert(out@ =~= iso_stamp(epoch_millis));
    }
    out
}

} // verus!
