//! Proleptic Gregorian calendar arithmetic used to stamp log lines and to
//! read the local time of day.

use vstd::prelude::*;

verus! {

/// Whether `y` is a Gregorian leap year.
pub open spec fn is_leap(y: int) -> bool {
    (y % 4 == 0 && y % 100 != 0) || y % 400 == 0
}

/// Number of days in month `m` (1 = January) of year `y`.
pub open spec fn days_in_month(y: int, m: int) -> int {
    if m == 2 {
        if is_leap(y) { 29 } else { 28 }
    } else if m == 4 || m == 6 || m == 9 || m == 11 {
        30
    } else {
        31
    }
}

/// Whether (y, m, d) names a day of the calendar.
pub open spec fn valid_date(y: int, m: int, d: int) -> bool {
    1 <= m <= 12 && 1 <= d <= days_in_month(y, m)
}

/// Number of leap years among the years 1..=x (counted with floor division,
/// so that it also steps correctly below year 1).
pub open spec fn leaps_through(x: int) -> int {
    x / 4 - x / 100 + x / 400
}

/// Days of year `y` before the first day of month `m`.
pub open spec fn days_before_month(y: int, m: int) -> int {
    let base: int = if m == 1 {
        0
    } else if m == 2 {
        31
    } else if m == 3 {
        59
    } else if m == 4 {
        90
    } else if m == 5 {
        120
    } else if m == 6 {
        151
    } else if m == 7 {
        181
    } else if m == 8 {
        212
    } else if m == 9 {
        243
    } else if m == 10 {
        273
    } else if m == 11 {
        304
    } else {
        334
    };
    base + if m > 2 && is_leap(y) { 1int } else { 0int }
}

/// Days from 1970-01-01 to the date (y, m, d); negative before 1970.
pub open spec fn days_from_civil(y: int, m: int, d: int) -> int {
    365 * (y - 1970) + (leaps_through(y - 1) - leaps_through(1969)) + days_before_month(y, m) + d
        - 1
}

/// Floor division and the matching non-negative remainder.
pub fn floor_div_mod(a: i64, b: i64) -> (r: (i64, i64))
    requires
        b > 0,
    ensures
        r.0 == a / b,
        r.1 == a % b,
{
    if a >= 0 {
        (a / b, a % b)
    } else {
        let t = (-(a + 1)) / b;
        let s = (-(a + 1)) % b;
        let q = -t - 1;
        let rem = b - 1 - s;
        assert(q == a / b && rem == a % b) by (nonlinear_arith)
            requires
                t as int == (-(a as int + 1)) / (b as int),
                s as int == (-(a as int + 1)) % (b as int),
                q == -t - 1,
                rem == b - 1 - s,
                b > 0,
                a < 0,
        ;
        (q, rem)
    }
}

proof fn lemma_year_of_era(doe: u32)
    requires
        doe < 146097,
    ensures
        ({
            let yoe = (doe - doe / 1460 + doe / 36524 - doe / 146096) / 365;
            let start = 365 * yoe + yoe / 4 - yoe / 100;
            &&& yoe < 400
            &&& start <= doe
            &&& doe - start < 365 + (if ((yoe + 1) % 4 == 0 && (yoe + 1) % 100 != 0) || yoe
                == 399 {
                1u32
            } else {
                0u32
            })
        }),
{
    assert(doe < 146097 ==> ({
        let yoe = (doe - doe / 1460 + doe / 36524 - doe / 146096) / 365;
        let start = 365 * yoe + yoe / 4 - yoe / 100;
        &&& yoe < 400
        &&& start <= doe
        &&& doe - start < 365 + (if ((yoe + 1) % 4 == 0 && (yoe + 1) % 100 != 0) || yoe == 399 {
            1u32
        } else {
            0u32
        })
    })) by (bit_vector);
}

proof fn lemma_month_of_year(doy: u32)
    requires
        doy <= 365,
    ensures
        ({
            let mp = (5 * doy + 2) / 153;
            &&& mp <= 11
            &&& (153 * mp + 2) / 5 <= doy
            &&& mp < 11 ==> doy < (153 * (mp + 1) + 2) / 5
        }),
{
    assert(doy <= 365 ==> ({
        let mp = (5 * doy + 2) / 153;
        &&& mp <= 11
        &&& (153 * mp + 2) / 5 <= doy
        &&& mp < 11 ==> doy < (153 * (mp + 1) + 2) / 5
    })) by (bit_vector);
}

/// Leap years repeat every 400 years, and so does their count.
proof fn lemma_era_shift(e: int, k: int)
    ensures
        is_leap(400 * e + k) == is_leap(k),
        leaps_through(400 * e + k) == 97 * e + leaps_through(k),
{
    assert((400 * e + k) % 4 == k % 4 && (400 * e + k) % 100 == k % 100 && (400 * e + k) % 400
        == k % 400) by (nonlinear_arith);
    assert((400 * e + k) / 4 == 100 * e + k / 4 && (400 * e + k) / 100 == 4 * e + k / 100 && (400
        * e + k) / 400 == e + k / 400) by (nonlinear_arith);
}

/// The leap-year count steps by one exactly at leap years.
proof fn lemma_leap_step(k: int)
    ensures
        leaps_through(k) == leaps_through(k - 1) + if is_leap(k) { 1int } else { 0int },
{
    assert(k / 4 - (k - 1) / 4 == if k % 4 == 0 { 1int } else { 0int }) by (nonlinear_arith);
    assert(k / 100 - (k - 1) / 100 == if k % 100 == 0 { 1int } else { 0int }) by (nonlinear_arith);
    assert(k / 400 - (k - 1) / 400 == if k % 400 == 0 { 1int } else { 0int }) by (nonlinear_arith);
    assert(k % 400 == 0 ==> k % 100 == 0 && k % 4 == 0) by (nonlinear_arith);
    assert(k % 100 == 0 ==> k % 4 == 0) by (nonlinear_arith);
}

/// The March-based year decomposition used by `civil_from_days` names the
/// date it claims.
proof fn lemma_civil_parts(e: int, doe: int, yoe: int, doy: int, mp: int, d: int, m: int, yy: int)
    requires
        0 <= doe < 146097,
        0 <= yoe < 400,
        365 * yoe + yoe / 4 - yoe / 100 <= doe,
        doe - (365 * yoe + yoe / 4 - yoe / 100) < 365 + (if ((yoe + 1) % 4 == 0 && (yoe + 1)
            % 100 != 0) || yoe == 399 {
            1int
        } else {
            0int
        }),
        doy == doe - (365 * yoe + yoe / 4 - yoe / 100),
        0 <= mp <= 11,
        (153 * mp + 2) / 5 <= doy,
        mp < 11 ==> doy < (153 * (mp + 1) + 2) / 5,
        d == doy - (153 * mp + 2) / 5 + 1,
        m == if mp < 10 { mp + 3 } else { mp - 9 },
        yy == 400 * e + yoe + if m <= 2 { 1int } else { 0int },
    ensures
        valid_date(yy, m, d),
        days_from_civil(yy, m, d) == 146097 * e + doe - 719468,
{
    lemma_era_shift(e, yoe - 1);
    lemma_era_shift(e, yoe);
    lemma_era_shift(e, yoe + 1);
    lemma_leap_step(yoe);
    lemma_leap_step(yoe + 1);
    assert(leaps_through(1969) == 477);
    assert(yoe / 400 == 0);
    assert(yoe == 399 ==> (yoe + 1) % 400 == 0);
    assert(yoe < 399 ==> (yoe + 1) % 400 != 0);
    if mp < 10 {
        assert(leaps_through(yy - 1) == 97 * e + leaps_through(yoe - 1));
        assert(is_leap(yy) == is_leap(yoe));
        assert(days_before_month(yy, m) == 59 + (153 * mp + 2) / 5 + if is_leap(yoe) { 1int } else { 0int });
    } else {
        assert(leaps_through(yy - 1) == 97 * e + leaps_through(yoe));
        assert(is_leap(yy) == is_leap(yoe + 1));
        assert(days_before_month(yy, m) + 306 == (153 * mp + 2) / 5);
    }
}

/// The calendar date of the day `days` after 1970-01-01.
pub fn civil_from_days(days: i64) -> (r: (i64, u32, u32))
    requires
        -0x8000_0000_0000 <= days <= 0x8000_0000_0000,
    ensures
        valid_date(r.0 as int, r.1 as int, r.2 as int),
        days_from_civil(r.0 as int, r.1 as int, r.2 as int) == days,
{
    let z = days + 719468;
    let (era, doe) = floor_div_mod(z, 146097);
    let doe: u32 = doe as u32;
    proof {
        lemma_year_of_era(doe);
    }
    let yoe: u32 = (doe - doe / 1460 + doe / 36524 - doe / 146096) / 365;
    let y = yoe as i64 + era * 400;
    let doy: u32 = doe - (365 * yoe + yoe / 4 - yoe / 100);
    proof {
        lemma_month_of_year(doy);
    }
    let mp: u32 = (5 * doy + 2) / 153;
    let d: u32 = doy - (153 * mp + 2) / 5 + 1;
    let m: u32 = if mp < 10 {
        mp + 3
    } else {
        mp - 9
    };
    let yy = y + if m <= 2 {
        1i64
    } else {
        0i64
    };
    proof {
        lemma_civil_parts(era as int, doe as int, yoe as int, doy as int, mp as int, d as int, m as int, yy as int);
    }
    (yy, m, d)
}

/// Days in year `y`.
pub open spec fn year_len(y: int) -> int {
    if is_leap(y) { 366 } else { 365 }
}

proof fn lemma_year_step(y: int)
    ensures
        days_from_civil(y + 1, 1, 1) == days_from_civil(y, 1, 1) + year_len(y),
{
    lemma_leap_step(y);
}

proof fn lemma_years_ordered(y1: int, y2: int)
    requires
        y1 < y2,
    ensures
        days_from_civil(y1, 1, 1) + year_len(y1) <= days_from_civil(y2, 1, 1),
    decreases y2 - y1,
{
    lemma_year_step(y1);
    if y1 + 1 < y2 {
        lemma_years_ordered(y1 + 1, y2);
    }
}

proof fn lemma_within_year(y: int, m: int, d: int)
    requires
        valid_date(y, m, d),
    ensures
        days_from_civil(y, 1, 1) <= days_from_civil(y, m, d) < days_from_civil(y, 1, 1) + year_len(y),
{
}

proof fn lemma_months_ordered(y: int, m1: int, m2: int)
    requires
        1 <= m1 < m2 <= 12,
    ensures
        days_before_month(y, m1) + days_in_month(y, m1) <= days_before_month(y, m2),
{
}

/// Distinct calendar dates are distinct days: a valid date is determined by
/// its day number, so `civil_from_days` and `get_wall_time` name exactly one
/// date.
pub proof fn lemma_days_from_civil_injective(y1: int, m1: int, d1: int, y2: int, m2: int, d2: int)
    requires
        valid_date(y1, m1, d1),
        valid_date(y2, m2, d2),
        days_from_civil(y1, m1, d1) == days_from_civil(y2, m2, d2),
    ensures
        y1 == y2 && m1 == m2 && d1 == d2,
{
    lemma_within_year(y1, m1, d1);
    lemma_within_year(y2, m2, d2);
    if y1 < y2 {
        lemma_years_ordered(y1, y2);
    } else if y2 < y1 {
        lemma_years_ordered(y2, y1);
    }
    if m1 < m2 {
        lemma_months_ordered(y1, m1, m2);
    } else if m2 < m1 {
        lemma_months_ordered(y1, m2, m1);
    }
}

} // verus!
