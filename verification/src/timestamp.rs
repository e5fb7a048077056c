//! Rendering of a header's timestamp as an absolute UTC date-time, in the
//! form `YYYY-MM-DD HH:MM:SS UTC`.
//!
//! The civil date is pinned down two ways: it equals the step-by-step
//! [`date_of_days`] spec, and it is the valid Gregorian date whose
//! [`day_number`] equals the day count since 1970-01-01.

use vstd::prelude::*;
use crate::num::{dec_seq, fmt_pad2, fmt_u64, pad2_seq};

verus! {

/// A Gregorian leap year.
pub open spec fn is_leap_year(y: int) -> bool {
    y % 4 == 0 && (y % 100 != 0 || y % 400 == 0)
}

pub open spec fn days_in_year(y: int) -> int {
    if is_leap_year(y) {
        366
    } else {
        365
    }
}

/// Days in month `m` (1 = January) of year `y`.
pub open spec fn days_in_month(y: int, m: int) -> int {
    if m == 2 {
        if is_leap_year(y) {
            29
        } else {
            28
        }
    } else if m == 4 || m == 6 || m == 9 || m == 11 {
        30
    } else {
        31
    }
}

/// Days of year `y` that pass before month `m` begins.
pub open spec fn days_before_month(y: int, m: int) -> int {
    let base: int = if m <= 1 {
        0
    } else if m == 2 {
        31
    } else if m == 3 {
        59
    } else if m == 4 {
        90
    } else if m == 5 {
        120
    } else if m == 6 {
        151
    } else if m == 7 {
        181
    } else if m == 8 {
        212
    } else if m == 9 {
        243
    } else if m == 10 {
        273
    } else if m == 11 {
        304
    } else if m == 12 {
        334
    } else {
        365
    };
    base + if m >= 3 && is_leap_year(y) {
        1int
    } else {
        0int
    }
}

/// Days from 1970-01-01 to the start of year `y >= 1970`.
pub open spec fn days_before_year(y: int) -> int
    decreases y,
{
    if y <= 1970 {
        0
    } else {
        days_before_year(y - 1) + days_in_year(y - 1)
    }
}

/// A valid Gregorian calendar date at or after the epoch.
pub open spec fn valid_date(y: int, m: int, d: int) -> bool {
    y >= 1970 && 1 <= m && m <= 12 && 1 <= d && d <= days_in_month(y, m)
}

/// The count of days from 1970-01-01 to the date `y-m-d`.
pub open spec fn day_number(y: int, m: int, d: int) -> int {
    days_before_year(y) + days_before_month(y, m) + d - 1
}

/// Steps year by year from `y`, consuming `n` remaining days.
pub open spec fn year_step(y: int, n: int) -> (int, int)
    decreases n,
{
    if n < 0 || n < days_in_year(y) {
        (y, n)
    } else {
        year_step(y + 1, n - days_in_year(y))
    }
}

/// Steps month by month within year `y`, consuming `n` remaining days.
pub open spec fn month_step(y: int, m: int, n: int) -> (int, int)
    decreases 12 - m,
{
    if m >= 12 || n < 0 || n < days_in_month(y, m) {
        (m, n)
    } else {
        month_step(y, m + 1, n - days_in_month(y, m))
    }
}

/// The civil date `n` days after 1970-01-01.
pub open spec fn date_of_days(n: int) -> (int, int, int) {
    let yr = year_step(1970, n);
    let mr = month_step(yr.0, 1, yr.1);
    (yr.0, mr.0, mr.1 + 1)
}

/// `YYYY-MM-DD HH:MM:SS UTC`, with the year unpadded decimal and every
/// other component two zero-padded digits.
pub open spec fn datetime_seq(y: int, mo: int, d: int, h: int, mi: int, s: int) -> Seq<char> {
    dec_seq(y) + "-"@ + pad2_seq(mo) + "-"@ + pad2_seq(d) + " "@ + pad2_seq(h) + ":"@ + pad2_seq(
        mi,
    ) + ":"@ + pad2_seq(s) + " UTC"@
}

/// The rendering of unix time `t`: its day count's civil date and the
/// within-day hour, minute and second.
pub open spec fn timestamp_seq(t: int) -> Seq<char> {
    let ymd = date_of_days(t / 86400);
    let secs = t % 86400;
    datetime_seq(ymd.0, ymd.1, ymd.2, secs / 3600, (secs % 3600) / 60, secs % 60)
}

/// A valid date's offset within its year lies inside the year.
proof fn lemma_offset_in_year(y: int, m: int, d: int)
    requires
        valid_date(y, m, d),
    ensures
        0 <= days_before_month(y, m) + d - 1 < days_in_year(y),
{
    assert(days_before_month(y, m) + days_in_month(y, m) <= days_in_year(y));
}

/// Later years begin at strictly larger day counts.
proof fn lemma_days_before_year_monotone(y1: int, y2: int)
    requires
        1970 <= y1 <= y2,
    ensures
        days_before_year(y1) + (y2 - y1) * 365 <= days_before_year(y2),
    decreases y2 - y1,
{
    if y1 < y2 {
        lemma_days_before_year_monotone(y1, y2 - 1);
    }
}

/// Distinct valid dates have distinct day numbers: the civil date of a day
/// count is unique.
pub proof fn lemma_day_number_injective(y1: int, m1: int, d1: int, y2: int, m2: int, d2: int)
    requires
        valid_date(y1, m1, d1),
        valid_date(y2, m2, d2),
        day_number(y1, m1, d1) == day_number(y2, m2, d2),
    ensures
        y1 == y2 && m1 == m2 && d1 == d2,
{
    if y1 < y2 {
        lemma_offset_in_year(y1, m1, d1);
        lemma_days_before_year_monotone(y1 + 1, y2);
        assert(days_before_year(y1 + 1) == days_before_year(y1) + days_in_year(y1));
        assert(false);
    } else if y2 < y1 {
        lemma_offset_in_year(y2, m2, d2);
        lemma_days_before_year_monotone(y2 + 1, y1);
        assert(days_before_year(y2 + 1) == days_before_year(y2) + days_in_year(y2));
        assert(false);
    } else {
        if m1 < m2 {
            assert(days_before_month(y1, m1) + days_in_month(y1, m1) <= days_before_month(
                y1,
                m2,
            ));
            assert(false);
        } else if m2 < m1 {
            assert(days_before_month(y1, m2) + days_in_month(y1, m2) <= days_before_month(
                y1,
                m1,
            ));
            assert(false);
        }
    }
}

fn days_in_year_x(y: u32) -> (r: u32)
    ensures
        r == days_in_year(y as int),
{
    if y % 4 == 0 && (y % 100 != 0 || y % 400 == 0) {
        366
    } else {
        365
    }
}

fn days_in_month_x(y: u32, m: u32) -> (r: u32)
    requires
        1 <= m <= 12,
    ensures
        r == days_in_month(y as int, m as int),
{
    if m == 2 {
        if y % 4 == 0 && (y % 100 != 0 || y % 400 == 0) {
            29
        } else {
            28
        }
    } else if m == 4 || m == 6 || m == 9 || m == 11 {
        30
    } else {
        31
    }
}

/// The civil date `n` days after 1970-01-01: the unique valid date whose
/// [`day_number`] is `n`.
pub fn civil_from_days(n: u32) -> (r: (u32, u32, u32))
    ensures
        r.0 as int == date_of_days(n as int).0,
        r.1 as int == date_of_days(n as int).1,
        r.2 as int == date_of_days(n as int).2,
        valid_date(r.0 as int, r.1 as int, r.2 as int),
        day_number(r.0 as int, r.1 as int, r.2 as int) == n as int,
{
    let mut y: u32 = 1970;
    let mut rem: u32 = n;
    let mut diy = days_in_year_x(y);
    while rem >= diy
        invariant
            1970 <= y,
            365 * (y as int - 1970) <= n as int - rem as int,
            days_before_year(y as int) + rem as int == n as int,
            year_step(1970, n as int) == year_step(y as int, rem as int),
            diy == days_in_year(y as int),
        decreases rem,
    {
        rem = rem - diy;
        y = y + 1;
        diy = days_in_year_x(y);
    }
    let ghost rem0: int = rem as int;
    let mut m: u32 = 1;
    let mut dim = days_in_month_x(y, m);
    while rem >= dim
        invariant
            1 <= m <= 12,
            days_before_month(y as int, m as int) + rem as int == rem0,
            rem0 < days_in_year(y as int),
            month_step(y as int, 1, rem0) == month_step(y as int, m as int, rem as int),
            dim == days_in_month(y as int, m as int),
        decreases 12 - m,
    {
        proof {
            assert(m < 12) by {
                assert(days_before_month(y as int, 12) + 31 >= days_in_year(y as int));
            }
            assert(days_before_month(y as int, m as int + 1) == days_before_month(
                y as int,
                m as int,
            ) + days_in_month(y as int, m as int));
        }
        rem = rem - dim;
        m = m + 1;
        dim = days_in_month_x(y, m);
    }
    (y, m, rem + 1)
}

/// Renders unix time `t` as `YYYY-MM-DD HH:MM:SS UTC`.
pub fn fmt_timestamp(t: u32) -> (r: String)
    ensures
        r@ == timestamp_seq(t as int),
{
    let days: u32 = t / 86400;
    let secs: u32 = t % 86400;
    let ymd = civil_from_days(days);
    let h: u32 = secs / 3600;
    let mi: u32 = (secs % 3600) / 60;
    let s: u32 = secs % 60;
    let mut r = fmt_u64(ymd.0 as u64);
    r.append("-");
    r.append(fmt_pad2(ymd.1 as u64).as_str());
    r.append("-");
    r.append(fmt_pad2(ymd.2 as u64).as_str());
    r.append(" ");
    r.append(fmt_pad2(h as u64).as_str());
    r.append(":");
    r.append(fmt_pad2(mi as u64).as_str());
    r.append(":");
    r.append(fmt_pad2(s as u64).as_str());
    r.append(" UTC");
    proof {
        assert(secs as int % 60 == t as int % 86400 % 60);
        assert(r@ =~= timestamp_seq(t as int));
    }
    r
}

} // verus!
