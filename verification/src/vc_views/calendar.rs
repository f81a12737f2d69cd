//! Proleptic Gregorian calendar dates counted in days from 1970-01-01.

use vstd::prelude::*;

verus! {

/// Leap years: divisible by 4, except centuries not divisible by 400.
pub open spec fn is_leap(y: int) -> bool {
    (y % 4 == 0 && y % 100 != 0) || y % 400 == 0
}

/// Days in year `y`.
pub open spec fn year_len(y: int) -> int {
    if is_leap(y) {
        366
    } else {
        365
    }
}

/// Days in month `m` (1 to 12) of year `y`.
pub open spec fn month_len(y: int, m: int) -> int {
    if m == 2 {
        if is_leap(y) {
            29
        } else {
            28
        }
    } else if m == 4 || m == 6 || m == 9 || m == 11 {
        30
    } else {
        31
    }
}

/// Leap years among the years before `y`, counted from a fixed origin.
pub open spec fn leaps_before(y: int) -> int {
    (y - 1) / 4 - (y - 1) / 100 + (y - 1) / 400
}

/// Days from 1970-01-01 to the first day of year `y` (negative before 1970).
pub open spec fn days_before_year(y: int) -> int {
    365 * (y - 1970) + leaps_before(y) - leaps_before(1970)
}

/// Days from the first day of year `y` to the first day of month `m`.
pub open spec fn days_before_month(y: int, m: int) -> int
    decreases m,
{
    if m <= 1 {
        0
    } else {
        days_before_month(y, m - 1) + month_len(y, m - 1)
    }
}

/// `y-m-d` names a day of the calendar.
pub open spec fn valid_date(y: int, m: int, d: int) -> bool {
    1 <= m <= 12 && 1 <= d <= month_len(y, m)
}

/// Days from 1970-01-01 to `y-m-d`.
pub open spec fn day_number(y: int, m: int, d: int) -> int {
    days_before_year(y) + days_before_month(y, m) + d - 1
}

/// Consecutive years are `year_len` days apart.
pub proof fn lemma_next_year(y: int)
    ensures
        days_before_year(y + 1) == days_before_year(y) + year_len(y),
{
    assert(y / 4 - (y - 1) / 4 == if y % 4 == 0 { 1int } else { 0int });
    assert(y / 100 - (y - 1) / 100 == if y % 100 == 0 { 1int } else { 0int });
    assert(y / 400 - (y - 1) / 400 == if y % 400 == 0 { 1int } else { 0int });
}

/// Four hundred years always hold 146097 days.
pub proof fn lemma_four_centuries(y: int, e: int)
    ensures
        days_before_year(y + 400 * e) == days_before_year(y) + 146097 * e,
{
    let x = y - 1;
    assert((x + 400 * e) / 4 == x / 4 + 100 * e);
    assert((x + 400 * e) / 100 == x / 100 + 4 * e);
    assert((x + 400 * e) / 400 == x / 400 + e);
}

/// The months of a year add up to the year.
pub proof fn lemma_months_fill_year(y: int)
    ensures
        days_before_month(y, 13) == year_len(y),
        forall|m: int| 1 <= m <= 12 ==> #[trigger] days_before_month(y, m) + month_len(y, m)
            == days_before_month(y, m + 1),
{
    reveal_with_fuel(days_before_month, 13);
}

/// Whole days since 1970-01-01 at `unix_secs` seconds, rounded down.
pub fn days_of_unix_secs(unix_secs: i64) -> (r: i64)
    ensures
        r == unix_secs as int / 86400,
{
    if unix_secs >= 0 {
        let m = unix_secs as u64;
        (m / 86400) as i64
    } else {
        let m = (-(unix_secs + 1)) as u64;
        let q = (m / 86400) as i64;
        proof {
            let qi = m as int / 86400;
            let ri = m as int % 86400;
            assert(m as int == qi * 86400 + ri);
            vstd::arithmetic::div_mod::lemma_fundamental_div_mod_converse(
                unix_secs as int,
                86400,
                -qi - 1,
                86399 - ri,
            );
        }
        -q - 1
    }
}

fn is_leap_exec(y: i64) -> (r: bool)
    ensures
        r == is_leap(y as int),
{
    (y % 4 == 0 && y % 100 != 0) || y % 400 == 0
}

fn year_len_exec(y: i64) -> (r: i64)
    ensures
        r == year_len(y as int),
{
    if is_leap_exec(y) {
        366
    } else {
        365
    }
}

fn month_len_exec(y: i64, m: i64) -> (r: i64)
    ensures
        r == month_len(y as int, m as int),
{
    if m == 2 {
        if is_leap_exec(y) {
            29
        } else {
            28
        }
    } else if m == 4 || m == 6 || m == 9 || m == 11 {
        30
    } else {
        31
    }
}

/// The calendar date `z` days after 1970-01-01 (before it, for negative `z`).
pub fn civil_from_days(z: i64) -> (r: (i64, i64, i64))
    requires
        -200_000_000_000_000 <= z <= 200_000_000_000_000,
    ensures
        valid_date(r.0 as int, r.1 as int, r.2 as int),
        day_number(r.0 as int, r.1 as int, r.2 as int) == z,
        -1_000_000_000_000 <= r.0 <= 1_000_000_000_000,
{
    // Whole 400-year cycles first; each holds 146097 days.
    let era: i64 = if z >= 0 {
        ((z as u64) / 146097) as i64
    } else {
        let m = (-(z + 1)) as u64;
        -(((m / 146097) as i64)) - 1
    };
    proof {
        if z < 0 {
            let m = -(z + 1);
            let qi = m / 146097;
            let ri = m % 146097;
            vstd::arithmetic::div_mod::lemma_fundamental_div_mod_converse(
                z as int,
                146097,
                -qi - 1,
                146096 - ri,
            );
        }
    }
    assert(era == z as int / 146097);
    let y0: i64 = 1970 + 400 * era;
    let mut rem: i64 = z - 146097 * era;
    proof {
        lemma_four_centuries(1970, era as int);
    }
    let ghost rem0 = rem as int;
    let mut y: i64 = y0;
    while rem >= year_len_exec(y)
        invariant
            -800_000_000_000 <= y0 <= 800_000_000_000,
            0 <= rem <= rem0 < 146097,
            y0 <= y,
            days_before_year(y0 as int) == 0 + (z - rem0),
            days_before_year(y as int) + rem == z,
            365 * (y - y0) <= rem0 - rem,
        decreases rem,
    {
        let len = year_len_exec(y);
        proof {
            lemma_next_year(y as int);
        }
        rem = rem - len;
        y = y + 1;
    }
    assert(y - y0 <= 400);
    let mut m: i64 = 1;
    proof {
        lemma_months_fill_year(y as int);
    }
    while rem >= month_len_exec(y, m)
        invariant
            1 <= m <= 12,
            0 <= rem,
            days_before_month(y as int, m as int) + rem < year_len(y as int),
            days_before_year(y as int) + days_before_month(y as int, m as int) + rem == z,
            days_before_month(y as int, 13) == year_len(y as int),
            forall|k: int| 1 <= k <= 12 ==> #[trigger] days_before_month(y as int, k) + month_len(y as int, k)
                == days_before_month(y as int, k + 1),
        decreases rem,
    {
        let len = month_len_exec(y, m);
        rem = rem - len;
        m = m + 1;
    }
    (y, m, rem + 1)
}

/// Distinct dates have distinct day numbers.
pub proof fn law_day_number_injective(y1: int, m1: int, d1: int, y2: int, m2: int, d2: int)
    requires
        valid_date(y1, m1, d1),
        valid_date(y2, m2, d2),
        day_number(y1, m1, d1) == day_number(y2, m2, d2),
    ensures
        y1 == y2 && m1 == m2 && d1 == d2,
{
    lemma_date_within_year(y1, m1, d1);
    lemma_date_within_year(y2, m2, d2);
    if y1 < y2 {
        lemma_years_increase(y1 + 1, y2);
        lemma_next_year(y1);
    } else if y2 < y1 {
        lemma_years_increase(y2 + 1, y1);
        lemma_next_year(y2);
    }
    assert(y1 == y2);
    if m1 < m2 {
        lemma_months_increase(y1, m1, m2);
    } else if m2 < m1 {
        lemma_months_increase(y1, m2, m1);
    }
}

/// A date lies inside its year and inside its month.
pub proof fn lemma_date_within_year(y: int, m: int, d: int)
    requires
        valid_date(y, m, d),
    ensures
        days_before_year(y) <= day_number(y, m, d) < days_before_year(y) + year_len(y),
        days_before_month(y, m) + d - 1 < days_before_month(y, m + 1),
{
    lemma_months_fill_year(y);
    lemma_months_increase(y, m + 1, 13);
}

/// Later months start later in the year.
pub proof fn lemma_months_increase(y: int, a: int, b: int)
    requires
        1 <= a <= b <= 13,
    ensures
        days_before_month(y, a) <= days_before_month(y, b),
        a < b ==> days_before_month(y, a) + month_len(y, a) <= days_before_month(y, b),
    decreases b - a,
{
    lemma_months_fill_year(y);
    if a < b {
        lemma_months_increase(y, a + 1, b);
    }
}

/// Later years start later.
pub proof fn lemma_years_increase(a: int, b: int)
    requires
        a <= b,
    ensures
        days_before_year(a) <= days_before_year(b),
    decreases b - a,
{
    if a < b {
        lemma_next_year(a);
        lemma_years_increase(a + 1, b);
    }
}

/// The Gregorian months: January, March, May, July, August, October and
/// December have 31 days; April, June, September and November 30; February 29
/// in years divisible by 4 but not by 100 unless by 400, else 28. A date names
/// a month 1 to 12 and a day from 1 to its length, and each month starts the
/// listed number of days into the year.
pub proof fn law_gregorian_months(y: int, m: int, d: int)
    ensures
        ({
            let leap = y % 4 == 0 && (y % 100 != 0 || y % 400 == 0);
            let lengths = seq![31int, if leap { 29int } else { 28int }, 31, 30, 31, 30, 31, 31, 30, 31, 30, 31];
            let starts = seq![0int, 31, 59, 90, 120, 151, 181, 212, 243, 273, 304, 334];
            &&& 1 <= m <= 12 ==> month_len(y, m) == lengths[m - 1]
            &&& 1 <= m <= 12 ==> days_before_month(y, m) == starts[m - 1] + if m > 2 && leap {
                1int
            } else {
                0int
            }
            &&& valid_date(y, m, d) <==> (1 <= m <= 12 && 1 <= d <= lengths[m - 1])
        }),
{
    reveal_with_fuel(days_before_month, 13);
}

/// Day numbers count days from 1970-01-01: that day is day 0, and a
/// Gregorian year has 366 days when it is a leap year and 365 otherwise.
pub proof fn law_gregorian_years(y: int)
    ensures
        day_number(1970, 1, 1) == 0,
        days_before_year(y + 1) - days_before_year(y) == if y % 4 == 0 && (y % 100 != 0 || y % 400
            == 0) {
            366int
        } else {
            365int
        },
        day_number(y, 1, 1) == days_before_year(y),
{
    lemma_next_year(y);
}

/// Consecutive calendar days have consecutive day numbers: the next day of
/// the same month, the first of the next month after a month's last day, and
/// January 1 after December 31.
pub proof fn law_consecutive_days(y: int, m: int, d: int)
    requires
        valid_date(y, m, d),
    ensures
        d < month_len(y, m) ==> valid_date(y, m, d + 1) && day_number(y, m, d + 1) == day_number(y, m, d) + 1,
        d == month_len(y, m) && m < 12 ==> valid_date(y, m + 1, 1) && day_number(y, m + 1, 1)
            == day_number(y, m, d) + 1,
        d == month_len(y, m) && m == 12 ==> valid_date(y + 1, 1, 1) && day_number(y + 1, 1, 1)
            == day_number(y, m, d) + 1,
{
    lemma_months_fill_year(y);
    lemma_next_year(y);
}

} // verus!
