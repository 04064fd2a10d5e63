//! The calendar date of a timestamp.

use vstd::prelude::*;
use chrono::{DateTime, Datelike, Utc};

verus! {

/// Milliseconds in a day.
pub const DAY_MS: i64 = 86_400_000;

/// The first and the last year that a date can have.
pub const FIRST_YEAR: i32 = -262_143;

pub const LAST_YEAR: i32 = 262_142;

/// Whether a year of the Gregorian calendar has a leap day.
pub open spec fn leap(year: int) -> bool {
    year % 4 == 0 && (year % 100 != 0 || year % 400 == 0)
}

/// The days of a month.
pub open spec fn month_length(year: int, month: int) -> int {
    if month == 2 {
        if leap(year) {
            29
        } else {
            28
        }
    } else if month == 4 || month == 6 || month == 9 || month == 11 {
        30
    } else {
        31
    }
}

/// The days from January 1, 1970 to January 1 of a year.
pub open spec fn days_before_year(year: int) -> int {
    365 * (year - 1970) + (year - 1) / 4 - (year - 1) / 100 + (year - 1) / 400 - 477
}

/// The days of a year before a month.
pub open spec fn days_before_month(year: int, month: int) -> int
    decreases month,
{
    if month <= 1 {
        0
    } else {
        days_before_month(year, month - 1) + month_length(year, month - 1)
    }
}

/// Whether year, month and day are a date.
pub open spec fn valid_date(date: (int, int, int)) -> bool {
    1 <= date.1 <= 12 && 1 <= date.2 <= month_length(date.0, date.1)
}

/// Year, month and day as numbers.
pub open spec fn date_value(date: (i32, u32, u32)) -> (int, int, int) {
    (date.0 as int, date.1 as int, date.2 as int)
}

/// The days from January 1, 1970 to a date, counting back for earlier ones.
pub open spec fn day_number(date: (int, int, int)) -> int {
    days_before_year(date.0) + days_before_month(date.0, date.1) + date.2 - 1
}

/// The date that is so many days after January 1, 1970.
pub open spec fn date_of_day(day: int) -> (int, int, int) {
    choose|date: (int, int, int)| valid_date(date) && #[trigger] day_number(date) == day
}

/// Whether a day lies in the years that a date can have.
pub open spec fn representable(day: int) -> bool {
    days_before_year(FIRST_YEAR as int) <= day < days_before_year(LAST_YEAR + 1)
}

/// The date of a timestamp, in UTC: the epoch's where the timestamp is out of range.
pub open spec fn date_of(timestamp_millis: int) -> (int, int, int) {
    let day = timestamp_millis / DAY_MS as int;
    if representable(day) {
        date_of_day(day)
    } else {
        (1970, 1, 1)
    }
}

proof fn lemma_next_year(year: int)
    ensures
        days_before_year(year + 1) == days_before_year(year) + (if leap(year) {
            366int
        } else {
            365int
        }),
{
    let y = year;
    assert(y / 4 == (y - 1) / 4 + (if y % 4 == 0 {
        1int
    } else {
        0int
    }));
    assert(y / 100 == (y - 1) / 100 + (if y % 100 == 0 {
        1int
    } else {
        0int
    }));
    assert(y / 400 == (y - 1) / 400 + (if y % 400 == 0 {
        1int
    } else {
        0int
    }));
}

proof fn lemma_years_grow(year: int, later: int)
    requires
        year <= later,
    ensures
        days_before_year(year) <= days_before_year(later),
    decreases later - year,
{
    if year < later {
        lemma_years_grow(year, later - 1);
        lemma_next_year(later - 1);
    }
}

proof fn lemma_months_grow(year: int, month: int, later: int)
    requires
        1 <= month < later,
    ensures
        days_before_month(year, month) + month_length(year, month) <= days_before_month(
            year,
            later,
        ),
    decreases later,
{
    if month < later - 1 {
        lemma_months_grow(year, month, later - 1);
    }
}

proof fn lemma_year_length(year: int)
    ensures
        days_before_month(year, 13) == (if leap(year) {
            366int
        } else {
            365int
        }),
{
    reveal_with_fuel(days_before_month, 14);
}

proof fn lemma_within_year(date: (int, int, int))
    requires
        valid_date(date),
    ensures
        days_before_year(date.0) <= day_number(date) < days_before_year(date.0 + 1),
{
    lemma_next_year(date.0);
    lemma_year_length(date.0);
    lemma_months_grow(date.0, date.1, 13);
    if date.1 > 1 {
        lemma_months_grow(date.0, 1, date.1);
    }
}

/// A day has one date: two dates that are equally far from the epoch are the same.
pub proof fn a_day_has_one_date(a: (int, int, int), b: (int, int, int))
    requires
        valid_date(a),
        valid_date(b),
        day_number(a) == day_number(b),
    ensures
        a == b,
{
    lemma_within_year(a);
    lemma_within_year(b);
    if a.0 < b.0 {
        lemma_years_grow(a.0 + 1, b.0);
    } else if b.0 < a.0 {
        lemma_years_grow(b.0 + 1, a.0);
    } else if a.1 < b.1 {
        lemma_months_grow(a.0, a.1, b.1);
    } else if b.1 < a.1 {
        lemma_months_grow(a.0, b.1, a.1);
    }
}

/// `chrono::DateTime::<Utc>::from_timestamp_millis`, and the year, month and day of what it
/// returns: the date in the proleptic Gregorian calendar of the day that the timestamp falls
/// on. It returns nothing outside of the years that a `chrono::NaiveDate` can have.
#[verifier::external_body]
fn utc_date(timestamp_millis: i64) -> (r: Option<(i32, u32, u32)>)
    ensures
        r is Some <==> representable(timestamp_millis as int / DAY_MS as int),
        r is Some ==> valid_date(date_value(r->0)) && day_number(date_value(r->0))
            == timestamp_millis as int / DAY_MS as int,
{
    DateTime::<Utc>::from_timestamp_millis(timestamp_millis).map(
        |dt| (dt.year(), dt.month(), dt.day()),
    )
}

/// The year, month and day of a timestamp, in UTC; those of the epoch if it is out of range.
pub fn date_parts(timestamp_millis: i64) -> (r: (i32, u32, u32))
    ensures
        date_value(r) == date_of(timestamp_millis as int),
        valid_date(date_value(r)),
        representable(timestamp_millis as int / DAY_MS as int) ==> day_number(date_value(r))
            == timestamp_millis as int / DAY_MS as int,
        !representable(timestamp_millis as int / DAY_MS as int) ==> r == (1970i32, 1u32, 1u32),
{
    match utc_date(timestamp_millis) {
        Some(date) => {
            proof {
                let found = date_value(date);
                a_day_has_one_date(found, date_of_day(day_number(found)));
            }
            date
        },
        None => (1970, 1, 1),
    }
}

/// The date of the epoch is January 1, 1970.
pub proof fn the_epoch_is_day_zero()
    ensures
        date_of(0) == (1970int, 1int, 1int),
{
    let epoch = (1970int, 1int, 1int);
    assert(day_number(epoch) == 0);
    a_day_has_one_date(epoch, date_of_day(0));
}

/// A date is followed by the next one: the next day of the month, the first of the next month
/// after the last of one, and January 1 after December 31. February has 29 days in the years that
/// four divides, but for those that a hundred and not four hundred divides.
pub proof fn a_date_is_followed_by_the_next(year: int, month: int, day: int)
    ensures
        ({
            let longer = year % 4 == 0 && (year % 100 != 0 || year % 400 == 0);
            let length: int = if month == 2 {
                if longer {
                    29
                } else {
                    28
                }
            } else if month == 4 || month == 6 || month == 9 || month == 11 {
                30
            } else {
                31
            };
            let next = if day < length {
                (year, month, day + 1)
            } else if month < 12 {
                (year, month + 1, 1)
            } else {
                (year + 1, 1, 1)
            };
            &&& valid_date((year, month, day)) <==> 1 <= month <= 12 && 1 <= day <= length
            &&& valid_date((year, month, day)) ==> valid_date(next) && day_number(next)
                == day_number((year, month, day)) + 1
        }),
        day_number((1970, 1, 1)) == 0,
{
    if valid_date((year, month, day)) && month == 12 && day == 31 {
        lemma_next_year(year);
        lemma_year_length(year);
        assert(days_before_month(year, 13) == days_before_month(year, 12) + month_length(year, 12));
    }
    assert(days_before_month(year, month + 1) == days_before_month(year, month) + month_length(
        year,
        month,
    ) || month < 1);
    assert(days_before_month(year + 1, 1) == 0);
    assert(days_before_month(1970, 1) == 0);
}

/// The date of a timestamp is that of the day that it falls on, counted from the epoch, for the
/// years from -262143 to 262142; before and after those it is that of the epoch.
pub proof fn a_timestamp_has_the_date_of_its_day(timestamp: i64, r: (i32, u32, u32))
    requires
        call_ensures(date_parts, (timestamp,), r),
    ensures
        ({
            let date = (r.0 as int, r.1 as int, r.2 as int);
            &&& -8_334_601_228_800_000 <= timestamp < 8_210_266_876_800_000 ==> valid_date(date)
                && 86_400_000 * day_number(date) <= timestamp < 86_400_000 * (day_number(date) + 1)
            &&& !(-8_334_601_228_800_000 <= timestamp < 8_210_266_876_800_000) ==> date == (
                1970int,
                1int,
                1int,
            )
        }),
{
    assert(days_before_year(-262_143) * 86_400_000 == -8_334_601_228_800_000);
    assert(days_before_year(262_143) * 86_400_000 == 8_210_266_876_800_000);
}

} // verus!
