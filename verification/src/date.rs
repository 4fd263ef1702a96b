//! Calendar dates of the proleptic Gregorian calendar, and the two date
//! computations that are left to `chrono`: adding days and finding the day
//! of the week.

use vstd::prelude::*;

verus! {

/// The earliest year a [`Date`] can hold (the earliest year of `chrono::NaiveDate`).
pub const MIN_YEAR: i32 = -262143;

/// The latest year a [`Date`] can hold (the latest year of `chrono::NaiveDate`).
pub const MAX_YEAR: i32 = 262142;

/// Whether `year` has a 29th of February. Year 0 is 1 BCE, and a leap year.
pub open spec fn is_leap_year(year: int) -> bool {
    year % 4 == 0 && (year % 100 != 0 || year % 400 == 0)
}

/// The number of days of `month` (1 to 12) in `year`.
pub open spec fn days_in_month(year: int, month: int) -> int {
    if month == 2 {
        if is_leap_year(year) {
            29
        } else {
            28
        }
    } else if month == 4 || month == 6 || month == 9 || month == 11 {
        30
    } else {
        31
    }
}

/// The number of days of `year` that lie before the first of `month`.
pub open spec fn days_before_month(year: int, month: int) -> int
    decreases month,
{
    if month <= 1 {
        0
    } else {
        days_before_month(year, month - 1) + days_in_month(year, month - 1)
    }
}

/// The number of days from 1 January of year 1 up to, and without, 1 January
/// of `year` (negative for years before 1).
pub open spec fn days_before_year(year: int) -> int {
    let y = year - 1;
    365 * y + y / 4 - y / 100 + y / 400
}

/// Whether year, month and day name a day of the calendar within the years
/// that a [`Date`] can hold.
pub open spec fn valid_ymd(year: int, month: int, day: int) -> bool {
    &&& MIN_YEAR <= year <= MAX_YEAR
    &&& 1 <= month <= 12
    &&& 1 <= day <= days_in_month(year, month)
}

/// The day number of the last day a [`Date`] can hold.
pub open spec fn max_day_number() -> int {
    days_before_year(MAX_YEAR as int + 1)
}

/// A day of the week.
#[derive(Clone, Copy, Debug, PartialEq, Eq, Structural)]
pub enum Weekday {
    Mon,
    Tue,
    Wed,
    Thu,
    Fri,
    Sat,
    Sun,
}

impl Weekday {
    /// The place of the day in a week that starts on Monday: 0 for Monday, 6 for Sunday.
    pub open spec fn index(self) -> int {
        match self {
            Weekday::Mon => 0,
            Weekday::Tue => 1,
            Weekday::Wed => 2,
            Weekday::Thu => 3,
            Weekday::Fri => 4,
            Weekday::Sat => 5,
            Weekday::Sun => 6,
        }
    }

    /// The place of the day in a week that starts on Monday.
    pub fn num_days_from_monday(&self) -> (r: u32)
        ensures
            r as int == self.index(),
    {
        match self {
            Weekday::Mon => 0,
            Weekday::Tue => 1,
            Weekday::Wed => 2,
            Weekday::Thu => 3,
            Weekday::Fri => 4,
            Weekday::Sat => 5,
            Weekday::Sun => 6,
        }
    }
}

/// A calendar date without a time zone.
#[derive(Clone, Copy, Debug, PartialEq, Eq, Structural)]
pub struct Date {
    pub year: i32,
    pub month: u32,
    pub day: u32,
}

impl Date {
    /// Whether the three fields name a day of the calendar.
    pub open spec fn is_valid(self) -> bool {
        valid_ymd(self.year as int, self.month as int, self.day as int)
    }

    /// The number of the day, counted from 1 January of year 1 as day 1.
    pub open spec fn day_number(self) -> int {
        days_before_year(self.year as int) + days_before_month(
            self.year as int,
            self.month as int,
        ) + self.day as int
    }

    /// The place of the day in its week, 0 for Monday to 6 for Sunday.
    /// Day 1 is a Monday.
    pub open spec fn weekday_index(self) -> int {
        (self.day_number() - 1) % 7
    }

    /// The date with the given year, month and day, if there is such a day.
    pub fn from_ymd_opt(year: i32, month: u32, day: u32) -> (r: Option<Date>)
        ensures
            r == if valid_ymd(year as int, month as int, day as int) {
                Some(Date { year, month, day })
            } else {
                None
            },
    {
        if year < MIN_YEAR || year > MAX_YEAR || month < 1 || month > 12 || day < 1 {
            return None;
        }
        let leap = year % 4 == 0 && (year % 100 != 0 || year % 400 == 0);
        let length: u32 = if month == 2 {
            if leap {
                29
            } else {
                28
            }
        } else if month == 4 || month == 6 || month == 9 || month == 11 {
            30
        } else {
            31
        };
        if day > length {
            None
        } else {
            Some(Date { year, month, day })
        }
    }

    /// The number of the day, counted from 1 January of year 1 as day 1.
    pub fn num_days_from_ce(&self) -> (r: i32)
        requires
            self.is_valid(),
        ensures
            r as int == self.day_number(),
    {
        // 262400 years are 656 times 400 years, of 146097 days each.
        let shifted: i64 = self.year as i64 - 1 + 262400;
        let before_year: i64 = 365 * shifted + shifted / 4 - shifted / 100 + shifted / 400 - 656
            * 146097;
        let leap = self.year % 4 == 0 && (self.year % 100 != 0 || self.year % 400 == 0);
        let common: i64 = if self.month == 1 {
            0
        } else if self.month == 2 {
            31
        } else if self.month == 3 {
            59
        } else if self.month == 4 {
            90
        } else if self.month == 5 {
            120
        } else if self.month == 6 {
            151
        } else if self.month == 7 {
            181
        } else if self.month == 8 {
            212
        } else if self.month == 9 {
            243
        } else if self.month == 10 {
            273
        } else if self.month == 11 {
            304
        } else {
            334
        };
        let before_month: i64 = if leap && self.month > 2 {
            common + 1
        } else {
            common
        };
        proof {
            reveal_with_fuel(days_before_month, 13);
            lemma_shift_by_400_years(self.year as int - 1, 656);
        }
        (before_year + before_month + self.day as i64) as i32
    }
}

/// Moving a year by `cycles` times 400 years moves the days before it by
/// `cycles` times 146097.
proof fn lemma_shift_by_400_years(y: int, cycles: int)
    ensures
        (y + 400 * cycles) / 4 == y / 4 + 100 * cycles,
        (y + 400 * cycles) / 100 == y / 100 + 4 * cycles,
        (y + 400 * cycles) / 400 == y / 400 + cycles,
{
    vstd::arithmetic::div_mod::lemma_fundamental_div_mod(y, 4);
    vstd::arithmetic::div_mod::lemma_fundamental_div_mod(y, 100);
    vstd::arithmetic::div_mod::lemma_fundamental_div_mod(y, 400);
    vstd::arithmetic::div_mod::lemma_fundamental_div_mod_converse_div(
        y + 400 * cycles,
        4,
        y / 4 + 100 * cycles,
        y % 4,
    );
    vstd::arithmetic::div_mod::lemma_fundamental_div_mod_converse_div(
        y + 400 * cycles,
        100,
        y / 100 + 4 * cycles,
        y % 100,
    );
    vstd::arithmetic::div_mod::lemma_fundamental_div_mod_converse_div(
        y + 400 * cycles,
        400,
        y / 400 + cycles,
        y % 400,
    );
}

/// Whether `a` comes before `b` in the calendar.
pub open spec fn precedes(a: Date, b: Date) -> bool {
    ||| a.year < b.year
    ||| a.year == b.year && a.month < b.month
    ||| a.year == b.year && a.month == b.month && a.day < b.day
}

/// Going from `n - 1` to `n` raises the quotient by `k` by one exactly where
/// `k` divides `n`.
proof fn lemma_quotient_step(n: int, k: int)
    requires
        k > 0,
    ensures
        n / k - (n - 1) / k == if n % k == 0 {
            1int
        } else {
            0int
        },
{
    let q = n / k;
    let r = n % k;
    vstd::arithmetic::div_mod::lemma_fundamental_div_mod(n, k);
    if r == 0 {
        assert(n - 1 == (q - 1) * k + (k - 1)) by (nonlinear_arith)
            requires
                n == k * q + r,
                r == 0,
        ;
        vstd::arithmetic::div_mod::lemma_fundamental_div_mod_converse_div(n - 1, k, q - 1, k - 1);
    } else {
        assert(n - 1 == q * k + (r - 1)) by (nonlinear_arith)
            requires
                n == k * q + r,
        ;
        vstd::arithmetic::div_mod::lemma_fundamental_div_mod_converse_div(n - 1, k, q, r - 1);
    }
}

/// A year has 365 days, and one more where it is a leap year.
pub proof fn lemma_year_length(year: int)
    ensures
        days_before_year(year + 1) == days_before_year(year) + 365 + if is_leap_year(year) {
            1int
        } else {
            0int
        },
{
    lemma_quotient_step(year, 4);
    lemma_quotient_step(year, 100);
    lemma_quotient_step(year, 400);
}

/// The days before a year grow with the year.
pub proof fn lemma_days_before_year_grows(a: int, b: int)
    requires
        a <= b,
    ensures
        days_before_year(a) + 365 * (b - a) <= days_before_year(b),
    decreases b - a,
{
    if a < b {
        lemma_days_before_year_grows(a, b - 1);
        lemma_year_length(b - 1);
    }
}

/// The months of a year before `month`, and `month` itself, hold no more
/// days than the year has; and a later month starts after an earlier one ends.
pub proof fn lemma_months_within_year(year: int, month: int, later: int)
    requires
        1 <= month <= later <= 12,
    ensures
        0 <= days_before_month(year, month),
        days_before_month(year, later) + days_in_month(year, later) <= days_before_year(year + 1)
            - days_before_year(year),
        month < later ==> days_before_month(year, month) + days_in_month(year, month)
            <= days_before_month(year, later),
{
    reveal_with_fuel(days_before_month, 13);
    lemma_year_length(year);
}

/// An earlier date has a smaller day number.
pub proof fn lemma_day_number_grows(a: Date, b: Date)
    requires
        a.is_valid(),
        b.is_valid(),
        precedes(a, b),
    ensures
        a.day_number() < b.day_number(),
{
    lemma_months_within_year(a.year as int, a.month as int, 12);
    lemma_months_within_year(b.year as int, 1, b.month as int);
    if a.year < b.year {
        lemma_months_within_year(a.year as int, a.month as int, a.month as int);
        lemma_days_before_year_grows(a.year as int + 1, b.year as int);
        if a.month < 12 {
            lemma_months_within_year(a.year as int, a.month as int, 12);
        }
    } else if a.month < b.month {
        lemma_months_within_year(a.year as int, a.month as int, b.month as int);
    }
}

/// Two dates with one day number are one date: a day number names its day.
pub proof fn lemma_day_number_names_the_day(a: Date, b: Date)
    requires
        a.is_valid(),
        b.is_valid(),
        a.day_number() == b.day_number(),
    ensures
        a == b,
{
    if precedes(a, b) {
        lemma_day_number_grows(a, b);
    }
    if precedes(b, a) {
        lemma_day_number_grows(b, a);
    }
}

/// The day number of a date lies between that of the first day of
/// [`MIN_YEAR`] and that of the last day of [`MAX_YEAR`].
pub proof fn lemma_day_number_bounds(date: Date)
    requires
        date.is_valid(),
    ensures
        days_before_year(MIN_YEAR as int) < date.day_number() <= max_day_number(),
{
    lemma_months_within_year(date.year as int, 1, date.month as int);
    lemma_months_within_year(date.year as int, date.month as int, date.month as int);
    lemma_days_before_year_grows(MIN_YEAR as int, date.year as int);
    lemma_days_before_year_grows(date.year as int + 1, MAX_YEAR as int + 1);
}

/// Calls `chrono::NaiveDate::checked_add_days` on the date, with
/// `chrono::Days::new(days)`.
///
/// Trusted: the result is the date whose day number is that of `date` plus
/// `days`, and there is none exactly when that day lies after the last day of
/// [`MAX_YEAR`].
#[verifier::external_body]
pub(crate) fn date_plus_days(date: &Date, days: u64) -> (r: Option<Date>)
    requires
        date.is_valid(),
    ensures
        match r {
            Some(d) => d.is_valid() && d.day_number() == date.day_number() + days as int,
            None => date.day_number() + days as int > max_day_number(),
        },
{
    let day = chrono::NaiveDate::from_ymd_opt(date.year, date.month, date.day)?;
    let sum = day.checked_add_days(chrono::Days::new(days))?;
    Some(
        Date {
            year: chrono::Datelike::year(&sum),
            month: chrono::Datelike::month(&sum),
            day: chrono::Datelike::day(&sum),
        },
    )
}

/// Calls `chrono::Datelike::weekday` on the date, and
/// `chrono::Weekday::num_days_from_monday` on what it returns.
///
/// Trusted: the result is the place of the date in its week, 0 for Monday to
/// 6 for Sunday, where 1 January of year 1 is a Monday.
#[verifier::external_body]
pub(crate) fn date_weekday_index(date: &Date) -> (r: Option<u32>)
    requires
        date.is_valid(),
    ensures
        r == Some(date.weekday_index() as u32),
{
    let day = chrono::NaiveDate::from_ymd_opt(date.year, date.month, date.day)?;
    Some(chrono::Datelike::weekday(&day).num_days_from_monday())
}

} // verus!
