//! The day of the month of a Unix time, in UTC.
use vstd::prelude::*;

verus! {

/// Milliseconds in a day.
pub const MS_PER_DAY: u64 = 86_400_000;

/// Whether a year of the Gregorian calendar has a 29th of February.
pub open spec fn is_leap_year(year: int) -> bool {
    year % 4 == 0 && (year % 100 != 0 || year % 400 == 0)
}

/// Days of a month (`1..=12`).
pub open spec fn days_in_month(year: int, month: int) -> int {
    if month == 2 {
        if is_leap_year(year) {
            29
        } else {
            28
        }
    } else if month == 4 || month == 6 || month == 9 || month == 11 {
        30
    } else {
        31
    }
}

/// Whether this is a date of the Gregorian calendar.
pub open spec fn is_date(year: int, month: int, day: int) -> bool {
    1 <= month <= 12 && 1 <= day <= days_in_month(year, month)
}

/// Days of the year before a month begins.
pub open spec fn days_before_month(year: int, month: int) -> int
    decreases month,
{
    if month <= 1 {
        0
    } else {
        days_before_month(year, month - 1) + days_in_month(year, month - 1)
    }
}

/// Days from the first day of year 0 to the first day of a year: 365 for each year between, and
/// one more for each leap year among them.
pub open spec fn days_before_year(year: int) -> int {
    365 * year + (year + 3) / 4 - (year + 99) / 100 + (year + 399) / 400
}

/// Days from 1970-01-01 to a date.
pub open spec fn day_number(year: int, month: int, day: int) -> int {
    days_before_year(year) + days_before_month(year, month) + day - 1 - 719_528
}

/// The day of the month, `days` days after 1970-01-01, in closed form: years count from March,
/// so that a leap day is the last of its year, in cycles of 400 years.
pub open spec fn civil_day(days: int) -> int {
    let doy = day_of_march_year(days);
    let mp = (5 * doy + 2) / 153;
    doy - (153 * mp + 2) / 5 + 1
}

/// The day's place in its 400-year cycle.
pub open spec fn day_of_era(days: int) -> int {
    (days + 719_468) % 146_097
}

/// The year's place in its 400-year cycle.
pub open spec fn year_of_era(days: int) -> int {
    let doe = day_of_era(days);
    (doe - doe / 1_460 + doe / 36_524 - doe / 146_096) / 365
}

/// The day's place in its year, which begins in March.
pub open spec fn day_of_march_year(days: int) -> int {
    day_of_era(days) - year_start(year_of_era(days))
}

/// Where a year begins in its 400-year cycle.
pub open spec fn year_start(yoe: int) -> int {
    365 * yoe + yoe / 4 - yoe / 100
}

proof fn lemma_year_of_era(doe: int)
    requires
        0 <= doe <= 146_096,
    ensures
        ({
            let yoe = (doe - doe / 1_460 + doe / 36_524 - doe / 146_096) / 365;
            let doy = doe - year_start(yoe);
            &&& 0 <= yoe <= 399
            &&& 0 <= doy <= 365
            &&& doy == 365 ==> (yoe + 1) % 4 == 0 && ((yoe + 1) % 100 != 0 || yoe == 399)
        }),
{
}

/// Days before a year, split at its 400-year cycle.
proof fn lemma_days_before_year(era: int, yoe: int)
    requires
        0 <= yoe <= 400,
    ensures
        days_before_year(400 * era + yoe) == 146_097 * era + 365 * yoe + (yoe + 3) / 4 - (yoe + 99)
            / 100 + (yoe + 399) / 400,
        is_leap_year(400 * era + yoe) <==> yoe % 4 == 0 && (yoe % 100 != 0 || yoe % 400 == 0),
{
    vstd::arithmetic::div_mod::lemma_hoist_over_denominator(yoe + 3, 100 * era, 4);
    vstd::arithmetic::div_mod::lemma_hoist_over_denominator(yoe + 99, 4 * era, 100);
    vstd::arithmetic::div_mod::lemma_hoist_over_denominator(yoe + 399, era, 400);
    vstd::arithmetic::div_mod::lemma_mod_multiples_vanish(100 * era, yoe, 4);
    vstd::arithmetic::div_mod::lemma_mod_multiples_vanish(4 * era, yoe, 100);
    vstd::arithmetic::div_mod::lemma_mod_multiples_vanish(era, yoe, 400);
}

/// A year begins 59 or 60 days before its March.
proof fn lemma_march_first(yoe: int)
    requires
        0 <= yoe <= 399,
    ensures
        365 * yoe + (yoe + 3) / 4 - (yoe + 99) / 100 + (yoe + 399) / 400 == year_start(yoe) + (
        if yoe % 4 == 0 && (yoe % 100 != 0 || yoe % 400 == 0) {
            0int
        } else {
            1
        }),
{
}

proof fn lemma_days_before_month(year: int, month: int)
    requires
        1 <= month <= 13,
    ensures
        days_before_month(year, month) == (if month <= 2 {
            31 * (month - 1)
        } else {
            (153 * (month - 3) + 2) / 5 + 59 + (if is_leap_year(year) {
                1int
            } else {
                0
            })
        }),
{
    reveal_with_fuel(days_before_month, 14);
}

/// The closed form names the day of a Gregorian date.
proof fn lemma_civil_day(days: int)
    requires
        0 <= days,
    ensures
        ({
            let era = (days + 719_468) / 146_097;
            let mp = (5 * day_of_march_year(days) + 2) / 153;
            let month = if mp < 10 {
                mp + 3
            } else {
                mp - 9
            };
            let year = 400 * era + year_of_era(days) + (if month <= 2 {
                1int
            } else {
                0
            });
            is_date(year, month, civil_day(days)) && day_number(year, month, civil_day(days))
                == days
        }),
{
    let z = days + 719_468;
    let era = z / 146_097;
    let doe = day_of_era(days);
    let yoe = year_of_era(days);
    let doy = day_of_march_year(days);
    let mp = (5 * doy + 2) / 153;
    let month = if mp < 10 {
        mp + 3
    } else {
        mp - 9
    };
    let march_year = 400 * era + yoe;
    let year = march_year + (if month <= 2 {
        1int
    } else {
        0
    });
    lemma_year_of_era(doe);
    lemma_march_first(yoe);
    lemma_days_before_year(era, yoe);
    lemma_days_before_year(era, yoe + 1);
    lemma_days_before_month(year, month);
    assert((yoe + 1) % 4 == 0 && ((yoe + 1) % 100 != 0 || (yoe + 1) % 400 == 0) <==> is_leap_year(
        march_year + 1,
    ));
    lemma_next_year(yoe);
    lemma_month_of_march_year(doy);
    assert(z == 146_097 * era + doe);
}

proof fn lemma_next_year(yoe: int)
    requires
        0 <= yoe <= 399,
    ensures
        ({
            let next = yoe + 1;
            365 * next + (next + 3) / 4 - (next + 99) / 100 + (next + 399) / 400 == year_start(yoe)
                + 366
        }),
{
}

/// The months of a year that begins in March.
proof fn lemma_month_of_march_year(doy: int)
    requires
        0 <= doy <= 365,
    ensures
        ({
            let mp = (5 * doy + 2) / 153;
            let day = doy - (153 * mp + 2) / 5 + 1;
            &&& 0 <= mp <= 11
            &&& 1 <= day
            &&& mp == 11 ==> day <= (if doy == 365 {
                29int
            } else {
                28
            })
            &&& mp == 1 || mp == 3 || mp == 6 || mp == 8 ==> day <= 30
            &&& day <= 31
        }),
{
}

/// The UTC day of the month (`1..=31`) of a Unix time in milliseconds.
pub fn day_of_month(timestamp_ms: u64) -> (day: u8)
    ensures
        exists|year: int, month: int| #[trigger]
            is_date(year, month, day as int) && day_number(year, month, day as int) == timestamp_ms
                / MS_PER_DAY,
        day == civil_day((timestamp_ms / MS_PER_DAY) as int),
{
    let days: u64 = timestamp_ms / MS_PER_DAY;
    proof {
        lemma_year_of_era(day_of_era(days as int));
        lemma_civil_day(days as int);
    }
    let z: u64 = days + 719_468;
    let era: u64 = z / 146_097;
    let doe: u64 = z - era * 146_097;
    let yoe: u64 = (doe - doe / 1_460 + doe / 36_524 - doe / 146_096) / 365;
    let doy: u64 = doe - (365 * yoe + yoe / 4 - yoe / 100);
    let mp: u64 = (5 * doy + 2) / 153;
    let day: u64 = doy - (153 * mp + 2) / 5 + 1;
    day as u8
}

proof fn lemma_year_length(year: int)
    ensures
        days_before_year(year + 1) == days_before_year(year) + days_before_month(year, 13),
{
    let era = year / 400;
    let yoe = year % 400;
    lemma_days_before_month(year, 13);
    lemma_days_before_year(era, yoe);
    lemma_days_before_year(era, yoe + 1);
    lemma_march_first(yoe);
    lemma_next_year(yoe);
}

proof fn lemma_years_ordered(y1: int, y2: int)
    requires
        y1 <= y2,
    ensures
        days_before_year(y1) <= days_before_year(y2),
{
}

proof fn lemma_months_ordered(year: int, m1: int, m2: int)
    requires
        1 <= m1 < m2 <= 13,
    ensures
        days_before_month(year, m1) + days_in_month(year, m1) <= days_before_month(year, m2),
    decreases m2,
{
    if m1 + 1 < m2 {
        lemma_months_ordered(year, m1, m2 - 1);
    }
}

/// A day has only one date, so its day of the month is unique.
pub proof fn law_date_is_unique(y1: int, m1: int, d1: int, y2: int, m2: int, d2: int)
    requires
        is_date(y1, m1, d1),
        is_date(y2, m2, d2),
        day_number(y1, m1, d1) == day_number(y2, m2, d2),
    ensures
        y1 == y2 && m1 == m2 && d1 == d2,
{
    if y1 < y2 || (y1 == y2 && m1 < m2) || (y1 == y2 && m1 == m2 && d1 < d2) {
        lemma_date_order(y1, m1, d1, y2, m2, d2);
    } else if !(y1 == y2 && m1 == m2 && d1 == d2) {
        lemma_date_order(y2, m2, d2, y1, m1, d1);
    }
}

proof fn lemma_date_order(y1: int, m1: int, d1: int, y2: int, m2: int, d2: int)
    requires
        is_date(y1, m1, d1),
        is_date(y2, m2, d2),
        y1 < y2 || (y1 == y2 && m1 < m2) || (y1 == y2 && m1 == m2 && d1 < d2),
    ensures
        day_number(y1, m1, d1) < day_number(y2, m2, d2),
{
    if y1 < y2 {
        lemma_months_ordered(y1, m1, 13);
        lemma_year_length(y1);
        lemma_years_ordered(y1 + 1, y2);
        if m2 > 1 {
            lemma_months_ordered(y2, 1, m2);
        }
    } else if m1 < m2 {
        lemma_months_ordered(y1, m1, m2);
    }
}

/// The closed form gives the day of the month of every date from 1970 on.
pub proof fn law_civil_day_of_date(year: int, month: int, day: int)
    requires
        is_date(year, month, day),
        day_number(year, month, day) >= 0,
    ensures
        civil_day(day_number(year, month, day)) == day,
{
    let days = day_number(year, month, day);
    lemma_civil_day(days);
    let era = (days + 719_468) / 146_097;
    let mp = (5 * day_of_march_year(days) + 2) / 153;
    let m = if mp < 10 {
        mp + 3
    } else {
        mp - 9
    };
    let y = 400 * era + year_of_era(days) + (if m <= 2 {
        1int
    } else {
        0
    });
    law_date_is_unique(year, month, day, y, m, civil_day(days));
}

/// The calendar: days count from 1970-01-01, every date is one day after the one before it, and
/// months have the lengths of the Gregorian calendar.
pub proof fn law_dates_count_days(year: int, month: int, day: int)
    requires
        is_date(year, month, day),
    ensures
        day_number(1970, 1, 1) == 0,
        is_date(year, month, day + 1) ==> day_number(year, month, day + 1) == day_number(
            year,
            month,
            day,
        ) + 1,
        !is_date(year, month, day + 1) && month < 12 ==> is_date(year, month + 1, 1) && day_number(
            year,
            month + 1,
            1,
        ) == day_number(year, month, day) + 1,
        !is_date(year, month, day + 1) && month == 12 ==> is_date(year + 1, 1, 1) && day_number(
            year + 1,
            1,
            1,
        ) == day_number(year, month, day) + 1,
        forall|d: int| #[trigger]
            is_date(year, month, d) <==> 1 <= d && (if month == 2 {
                if year % 4 == 0 && (year % 100 != 0 || year % 400 == 0) {
                    d <= 29
                } else {
                    d <= 28
                }
            } else if month == 4 || month == 6 || month == 9 || month == 11 {
                d <= 30
            } else {
                d <= 31
            }),
{
    lemma_days_before_month(1970, 1);
    lemma_days_before_month(year, month);
    if month < 12 {
        lemma_days_before_month(year, month + 1);
    } else {
        lemma_year_length(year);
        reveal_with_fuel(days_before_month, 2);
        lemma_days_before_month(year + 1, 1);
    }
}

} // verus!
