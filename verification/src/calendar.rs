//! Proleptic Gregorian calendar arithmetic over a day count.
//!
//! A calendar date is modeled by the triple (year, month, day) together with
//! `day_number`, the signed count of days between 1900-01-01 and that date.
//! `date_of_day_number` inverts `day_number` and is the verified core of the
//! legacy date-time reconstruction.

use vstd::prelude::*;

verus! {

/// A year that is divisible by four, but not by one hundred unless also by
/// four hundred, has an extra calendar day.
pub open spec fn is_leap_year(y: int) -> bool {
    y % 4 == 0 && (y % 100 != 0 || y % 400 == 0)
}

/// Number of days in the year `y`.
pub open spec fn days_in_year(y: int) -> int {
    if is_leap_year(y) {
        366
    } else {
        365
    }
}

/// Number of days in month `m` (1 to 12) of year `y`.
pub open spec fn days_in_month(y: int, m: int) -> int {
    if m == 2 {
        if is_leap_year(y) {
            29
        } else {
            28
        }
    } else if m == 4 || m == 6 || m == 9 || m == 11 {
        30
    } else {
        31
    }
}

/// Signed count of days from 1900-01-01 to the first day of year `y`;
/// negative for years before 1900.
pub open spec fn days_before_year(y: int) -> int
    decreases (if y >= 1900 { y - 1900 } else { 1900 - y }),
{
    if y == 1900 {
        0
    } else if y > 1900 {
        days_before_year(y - 1) + days_in_year(y - 1)
    } else {
        days_before_year(y + 1) - days_in_year(y)
    }
}

/// Count of days from the first day of year `y` to the first day of its
/// month `m`.
pub open spec fn days_before_month(y: int, m: int) -> int
    decreases m,
{
    if m <= 1 {
        0
    } else {
        days_before_month(y, m - 1) + days_in_month(y, m - 1)
    }
}

/// Whether (y, m, d) names a day of the proleptic Gregorian calendar.
pub open spec fn valid_date(y: int, m: int, d: int) -> bool {
    1 <= m <= 12 && 1 <= d <= days_in_month(y, m)
}

/// Signed count of days from 1900-01-01 to the date (y, m, d).
pub open spec fn day_number(y: int, m: int, d: int) -> int {
    days_before_year(y) + days_before_month(y, m) + (d - 1)
}

/// Stepping one year forward adds exactly that year's length.
pub proof fn lemma_days_before_year_step(y: int)
    ensures
        days_before_year(y + 1) == days_before_year(y) + days_in_year(y),
{
}

/// The day count of a year's first day grows with at least 365 and at most
/// 366 days per year, on both sides of 1900.
pub proof fn lemma_days_before_year_bounds(y: int)
    ensures
        y >= 1900 ==> 365 * (y - 1900) <= days_before_year(y) <= 366 * (y - 1900),
        y <= 1900 ==> 366 * (y - 1900) <= days_before_year(y) <= 365 * (y - 1900),
    decreases (if y >= 1900 { y - 1900 } else { 1900 - y }),
{
    if y > 1900 {
        lemma_days_before_year_bounds(y - 1);
    } else if y < 1900 {
        lemma_days_before_year_bounds(y + 1);
    }
}

/// `days_before_year` is monotone; distinct years are at least a whole year
/// apart in day count.
pub proof fn lemma_days_before_year_mono(y1: int, y2: int)
    requires
        y1 < y2,
    ensures
        days_before_year(y1) + days_in_year(y1) <= days_before_year(y2),
    decreases y2 - y1,
{
    if y1 + 1 < y2 {
        lemma_days_before_year_mono(y1 + 1, y2);
    }
    lemma_days_before_year_step(y1);
}

/// `days_before_month` is monotone in the month.
pub proof fn lemma_days_before_month_mono(y: int, m1: int, m2: int)
    requires
        1 <= m1 <= m2,
    ensures
        days_before_month(y, m1) <= days_before_month(y, m2),
        m1 < m2 ==> days_before_month(y, m1) + days_in_month(y, m1) <= days_before_month(y, m2),
    decreases m2 - m1,
{
    if m1 < m2 {
        assert(days_before_month(y, m1 + 1) == days_before_month(y, m1) + days_in_month(y, m1));
        if m1 + 1 < m2 {
            lemma_days_before_month_mono(y, m1 + 1, m2);
        }
    }
}

/// The twelve months together cover the year exactly.
pub proof fn lemma_months_cover_year(y: int)
    ensures
        days_before_month(y, 13) == days_in_year(y),
{
    reveal_with_fuel(days_before_month, 14);
}

/// Within its year, a valid date's offset stays inside the year's length.
pub proof fn lemma_offset_in_year(y: int, m: int, d: int)
    requires
        valid_date(y, m, d),
    ensures
        0 <= days_before_month(y, m) + (d - 1) < days_in_year(y),
{
    lemma_days_before_month_mono(y, 1, m);
    lemma_days_before_month_mono(y, m + 1, 13);
    lemma_months_cover_year(y);
}

/// Two valid dates with the same day number are the same date.
pub proof fn lemma_day_number_injective(y1: int, m1: int, d1: int, y2: int, m2: int, d2: int)
    requires
        valid_date(y1, m1, d1),
        valid_date(y2, m2, d2),
        day_number(y1, m1, d1) == day_number(y2, m2, d2),
    ensures
        y1 == y2,
        m1 == m2,
        d1 == d2,
{
    lemma_offset_in_year(y1, m1, d1);
    lemma_offset_in_year(y2, m2, d2);
    if y1 < y2 {
        lemma_days_before_year_mono(y1, y2);
    }
    if y2 < y1 {
        lemma_days_before_year_mono(y2, y1);
    }
    if m1 < m2 {
        lemma_days_before_month_mono(y1, m1 + 1, m2);
        lemma_days_before_month_mono(y1, m1, m1 + 1);
    }
    if m2 < m1 {
        lemma_days_before_month_mono(y1, m2 + 1, m1);
        lemma_days_before_month_mono(y1, m2, m2 + 1);
    }
}

/// Whether year `y` is a leap year.
pub fn leap_year(y: i64) -> (r: bool)
    ensures
        r == is_leap_year(y as int),
{
    let r4: i64 = match y.checked_rem_euclid(4) {
        Some(v) => v,
        None => 0,
    };
    let r100: i64 = match y.checked_rem_euclid(100) {
        Some(v) => v,
        None => 0,
    };
    let r400: i64 = match y.checked_rem_euclid(400) {
        Some(v) => v,
        None => 0,
    };
    r4 == 0 && (r100 != 0 || r400 == 0)
}

/// Number of days in year `y`.
pub fn year_length(y: i64) -> (r: i64)
    ensures
        r == days_in_year(y as int),
{
    if leap_year(y) {
        366
    } else {
        365
    }
}

/// Number of days in month `m` of year `y`.
pub fn month_length(y: i64, m: u8) -> (r: i64)
    requires
        1 <= m <= 12,
    ensures
        r == days_in_month(y as int, m as int),
{
    if m == 2 {
        if leap_year(y) {
            29
        } else {
            28
        }
    } else if m == 4 || m == 6 || m == 9 || m == 11 {
        30
    } else {
        31
    }
}

/// The date `n` days after 1900-01-01 (before it, for negative `n`): the
/// unique valid date whose day number is `n`.
pub fn date_of_day_number(n: i64) -> (r: (i64, u8, u8))
    requires
        -4_000_000_000 <= n <= 4_000_000_000,
    ensures
        valid_date(r.0 as int, r.1 as int, r.2 as int),
        day_number(r.0 as int, r.1 as int, r.2 as int) == n,
{
    let mut y: i64 = 1900;
    let mut rem: i64 = n;
    if rem >= 0 {
        loop
            invariant
                1900 <= y,
                0 <= rem <= n,
                n <= 4_000_000_000,
                days_before_year(y as int) + rem == n,
            ensures
                0 <= rem < days_in_year(y as int),
                days_before_year(y as int) + rem == n,
                1900 <= y <= 1900 + 4_000_000_000,
            decreases rem,
        {
            proof {
                lemma_days_before_year_bounds(y as int);
            }
            let len = year_length(y);
            if rem < len {
                break ;
            }
            rem = rem - len;
            y = y + 1;
            proof {
                lemma_days_before_year_step((y - 1) as int);
                lemma_days_before_year_bounds(y as int);
            }
        }
    } else {
        loop
            invariant
                y <= 1900,
                n <= rem,
                -4_000_000_000 <= n,
                rem < days_in_year(y as int),
                days_before_year(y as int) + rem == n,
            ensures
                0 <= rem < days_in_year(y as int),
                days_before_year(y as int) + rem == n,
                1900 - 4_000_000_000 <= y <= 1900,
            decreases (if rem < 0 { 0 - rem } else { 0 }),
        {
            proof {
                lemma_days_before_year_bounds(y as int);
            }
            if rem >= 0 {
                break ;
            }
            y = y - 1;
            let len = year_length(y);
            rem = rem + len;
            proof {
                lemma_days_before_year_step(y as int);
                lemma_days_before_year_bounds(y as int);
            }
        }
    }
    let doy: i64 = rem;
    let ghost doy0 = doy as int;
    let mut m: u8 = 1;
    let mut rem2: i64 = doy;
    loop
        invariant
            1 <= m <= 12,
            0 <= rem2,
            doy0 < days_in_year(y as int),
            days_before_month(y as int, m as int) + rem2 == doy0,
        ensures
            1 <= m <= 12,
            0 <= rem2 < days_in_month(y as int, m as int),
            days_before_month(y as int, m as int) + rem2 == doy0,
        decreases 13 - m,
    {
        let len = month_length(y, m);
        if rem2 < len {
            break ;
        }
        proof {
            lemma_months_cover_year(y as int);
            lemma_days_before_month_mono(y as int, m as int + 1, 13);
        }
        rem2 = rem2 - len;
        m = m + 1;
    }
    let d: u8 = (rem2 + 1) as u8;
    (y, m, d)
}

} // verus!
