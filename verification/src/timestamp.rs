//! Message timestamps (seconds since the Unix epoch) as calendar dates in
//! UTC, written `YYYY-MM-DD HH:MM:SS`.

use vstd::prelude::*;
use crate::text::{push_char, push_zero_padded, zero_padded};

verus! {

/// Integer division that rounds toward zero, as Rust's `/` does.
pub open spec fn div_toward_zero(a: int, b: int) -> int {
    if a >= 0 {
        a / b
    } else {
        -((-a) / b)
    }
}

/// The remainder that goes with `div_toward_zero`, as Rust's `%` gives it.
pub open spec fn rem_toward_zero(a: int, b: int) -> int {
    a - b * div_toward_zero(a, b)
}

/// Whether `y` is a leap year of the Gregorian calendar.
pub open spec fn is_leap(y: int) -> bool {
    y % 4 == 0 && (y % 100 != 0 || y % 400 == 0)
}

/// The number of days of year `y`.
pub open spec fn year_days(y: int) -> int {
    if is_leap(y) {
        366
    } else {
        365
    }
}

/// The year and the day within it that lie `d` days after the first day
/// of year `y` (a negative `d` stays in year `y`).
pub open spec fn year_and_day(y: int, d: int) -> (int, int)
    decreases d,
{
    if d < year_days(y) {
        (y, d)
    } else {
        year_and_day(y + 1, d - year_days(y))
    }
}

/// The number of days of month `m` (0 for January).
pub open spec fn month_days(m: int, leap: bool) -> int {
    if m == 1 {
        if leap {
            29
        } else {
            28
        }
    } else if m == 3 || m == 5 || m == 8 || m == 10 {
        30
    } else {
        31
    }
}

/// The month (0 for January) and the day within it that lie `d` days
/// after the first day of month `m`.
pub open spec fn month_and_day(m: int, d: int, leap: bool) -> (int, int)
    decreases 12 - m,
{
    if m >= 12 || d < month_days(m, leap) {
        (m, d)
    } else {
        month_and_day(m + 1, d - month_days(m, leap), leap)
    }
}

/// The fields of timestamp `ts`: year, month (from 1), day of the month
/// (from 1), hours, minutes and seconds, counted from 1970-01-01; each is
/// the number Rust's `/` and `%` give, so a time before 1970 shows
/// negative fields.
pub open spec fn timestamp_fields(ts: int) -> (int, int, int, int, int, int) {
    let rem = rem_toward_zero(ts, 86400);
    let (y, d) = year_and_day(1970, div_toward_zero(ts, 86400));
    let (m, day) = month_and_day(0, d, is_leap(y));
    (
        y,
        m + 1,
        day + 1,
        div_toward_zero(rem, 3600),
        div_toward_zero(rem_toward_zero(rem, 3600), 60),
        rem_toward_zero(rem, 60),
    )
}

/// The text of timestamp `ts`: `YYYY-MM-DD HH:MM:SS`.
pub open spec fn timestamp_text(ts: int) -> Seq<char> {
    let f = timestamp_fields(ts);
    zero_padded(f.0, 4) + "-"@ + zero_padded(f.1, 2) + "-"@ + zero_padded(f.2, 2) + " "@
        + zero_padded(f.3, 2) + ":"@ + zero_padded(f.4, 2) + ":"@ + zero_padded(f.5, 2)
}

/// Timestamp `ts` as it stands in a file name: `YYYYMMDD-HHMMSS`.
pub open spec fn file_stamp_text(ts: int) -> Seq<char> {
    let f = timestamp_fields(ts);
    zero_padded(f.0, 4) + zero_padded(f.1, 2) + zero_padded(f.2, 2) + "-"@ + zero_padded(f.3, 2)
        + zero_padded(f.4, 2) + zero_padded(f.5, 2)
}

/// `a / b` and `a % b` as Rust computes them, for a positive `b`.
fn div_rem(a: i64, b: i64) -> (r: (i64, i64))
    requires
        b > 0,
    ensures
        r.0 == div_toward_zero(a as int, b as int),
        r.1 == rem_toward_zero(a as int, b as int),
{
    if a >= 0 {
        let q = a / b;
        let rm = a % b;
        assert(rm == a - b * q) by (nonlinear_arith)
            requires
                q == a / b,
                rm == a % b,
                b > 0,
        ;
        (q, rm)
    } else {
        let n: u64 = if a == i64::MIN {
            9223372036854775808u64
        } else {
            (-a) as u64
        };
        assert(n == -a);
        let bu = b as u64;
        let q = n / bu;
        let rm = n % bu;
        assert(q <= n && rm < bu) by (nonlinear_arith)
            requires
                q == n / bu,
                rm == n % bu,
                bu > 0,
        ;
        assert(rm == n - bu * q) by (nonlinear_arith)
            requires
                q == n / bu,
                rm == n % bu,
                bu > 0,
        ;
        assert(q <= 9223372036854775808u64);
        let qi: i64 = if q == 9223372036854775808u64 {
            i64::MIN
        } else {
            -(q as i64)
        };
        let ri: i64 = -(rm as i64);
        assert(ri == a - b * qi) by (nonlinear_arith)
            requires
                ri == -(rm as int),
                qi == -(q as int),
                rm == n - bu * q,
                n == -a,
                bu == b,
        ;
        (qi, ri)
    }
}

/// The fields of timestamp `ts`.
fn timestamp_parts(ts: i64) -> (r: (i64, i64, i64, i64, i64, i64))
    ensures
        (r.0 as int, r.1 as int, r.2 as int, r.3 as int, r.4 as int, r.5 as int) == timestamp_fields(
            ts as int,
        ),
{

    let (days, rem) = div_rem(ts, 86400);
    let (hours, hrem) = div_rem(rem, 3600);
    let (minutes, _) = div_rem(hrem, 60);
    let (_, seconds) = div_rem(rem, 60);
    assert(-106751991167301 <= days <= 106751991167300) by {
        if ts >= 0 {
            assert(days == ts / 86400);
        } else {
            assert(days == -((-ts) / 86400));
        }
    }
    let mut y: i64 = 1970;
    let mut d: i64 = days;
    while d >= year_length(y)
        invariant
            1970 <= y <= 1970 + 106751991167300int / 365,
            d <= days,
            d >= 0 || d == days,
            d >= 0 || y == 1970,
            y - 1970 <= (days - d) / 365,
            -106751991167301 <= days <= 106751991167300,
            year_and_day(y as int, d as int) == year_and_day(1970, days as int),
        decreases d,
    {
        let diy = year_length(y);
        proof {
            assert((days - (d - diy)) / 365 >= (days - d) / 365 + 1) by (nonlinear_arith)
                requires
                    diy >= 365,
                    days - d >= 0,
            ;
            assert((days - (d - diy)) / 365 <= days / 365) by (nonlinear_arith)
                requires
                    d - diy >= 0,
                    days >= d,
            ;
            assert(days / 365 <= 106751991167300int / 365) by (nonlinear_arith)
                requires
                    days <= 106751991167300,
            ;
        }
        d = d - diy;
        y = y + 1;
    }
    let leap = year_length(y) == 366;
    assert(leap == is_leap(y as int));
    assert(year_and_day(y as int, d as int) == (y as int, d as int));
    let ghost year_day = d as int;
    assert(year_and_day(1970, days as int) == (y as int, year_day));
    let mut m: i64 = 0;
    while m < 12 && d >= month_length(m, leap)
        invariant
            0 <= m <= 12,
            -106751991167301 <= d <= 400,
            month_and_day(m as int, d as int, leap) == month_and_day(0, year_day, leap),
        decreases 12 - m,
    {
        d = d - month_length(m, leap);
        m = m + 1;
    }
    assert(month_and_day(m as int, d as int, leap) == (m as int, d as int));
    assert(month_and_day(0, year_day, leap) == (m as int, d as int));
    assert(days == div_toward_zero(ts as int, 86400));
    assert(rem == rem_toward_zero(ts as int, 86400));
    (y, m + 1, d + 1, hours, minutes, seconds)
}

/// Writes timestamp `ts` as `YYYY-MM-DD HH:MM:SS`.
pub fn format_timestamp(ts: i64) -> (r: String)
    ensures
        r@ == timestamp_text(ts as int),
{
    let (y, mo, d, hours, minutes, seconds) = timestamp_parts(ts);
    let mut s = String::new();
    push_zero_padded(&mut s, y, 4);
    push_char(&mut s, '-');
    push_zero_padded(&mut s, mo, 2);
    push_char(&mut s, '-');
    push_zero_padded(&mut s, d, 2);
    push_char(&mut s, ' ');
    push_zero_padded(&mut s, hours, 2);
    push_char(&mut s, ':');
    push_zero_padded(&mut s, minutes, 2);
    push_char(&mut s, ':');
    push_zero_padded(&mut s, seconds, 2);
    proof {
        reveal_strlit("-");
        reveal_strlit(" ");
        reveal_strlit(":");
    }
    assert(s@ =~= timestamp_text(ts as int));
    s
}

/// Writes timestamp `ts` as it stands in a file name, `YYYYMMDD-HHMMSS`.
pub fn file_stamp(ts: i64) -> (r: String)
    ensures
        r@ == file_stamp_text(ts as int),
{
    let (y, mo, d, hours, minutes, seconds) = timestamp_parts(ts);
    let mut s = String::new();
    push_zero_padded(&mut s, y, 4);
    push_zero_padded(&mut s, mo, 2);
    push_zero_padded(&mut s, d, 2);
    push_char(&mut s, '-');
    push_zero_padded(&mut s, hours, 2);
    push_zero_padded(&mut s, minutes, 2);
    push_zero_padded(&mut s, seconds, 2);
    proof {
        reveal_strlit("-");
    }
    assert(s@ =~= file_stamp_text(ts as int));
    s
}

/// The number of days of year `y`.
fn year_length(y: i64) -> (r: i64)
    requires
        y >= 0,
    ensures
        r == year_days(y as int),
{
    if y % 4 == 0 && (y % 100 != 0 || y % 400 == 0) {
        366
    } else {
        365
    }
}

/// The number of days of month `m` (0 for January).
fn month_length(m: i64, leap: bool) -> (r: i64)
    ensures
        r == month_days(m as int, leap),
{
    if m == 1 {
        if leap {
            29
        } else {
            28
        }
    } else if m == 3 || m == 5 || m == 8 || m == 10 {
        30
    } else {
        31
    }
}

} // verus!
