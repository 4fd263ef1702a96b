//! The compact date codes, and how one is resolved against a reference date.
//!
//! | Code | Meaning |
//! |---|---|
//! | `x` and four digits `MMDD` | that month and day, in the reference date's year |
//! | `+` and an integer | that many days after the reference date |
//! | `_` and a three-letter weekday | the next such weekday after the reference date |

use crate::date::{
    date_plus_days, date_weekday_index, lemma_day_number_bounds, lemma_day_number_names_the_day,
    max_day_number, valid_ymd, Date, Weekday,
};
use crate::error::Error;
use crate::text::{
    all_digits, ascii_lower, chars_of, digit_value, is_digit, parse_two_digits, to_ascii_lower,
    to_digit, two_digit_value,
};
use vstd::prelude::*;

verus! {

/// A date as a reply states it, relative to a reference date.
#[derive(Clone, Copy, Debug, PartialEq, Eq, Structural)]
pub enum DateCode {
    /// A month and a day, in the reference date's year. Neither has been
    /// held against the calendar yet.
    AbsoluteMonthDay { month: u32, day: u32 },
    /// A number of whole days after the reference date.
    OffsetDays(u64),
    /// The next occurrence of a weekday after the reference date.
    NextWeekday(Weekday),
}

/// The number that the decimal digits `s` write; 0 for no digits.
pub open spec fn decimal_value(s: Seq<char>) -> int
    decreases s.len(),
{
    if s.len() == 0 {
        0
    } else {
        decimal_value(s.drop_last()) * 10 + digit_value(s.last())
    }
}

/// The offset that follows a `+` marker: decimal digits, at least one, after
/// at most one more `+`, whose value fits 64 bits.
pub open spec fn offset_of(rest: Seq<char>) -> Option<u64> {
    let digits = if rest.len() > 0 && rest[0] == '+' {
        rest.drop_first()
    } else {
        rest
    };
    if digits.len() > 0 && all_digits(digits) && decimal_value(digits) <= u64::MAX {
        Some(decimal_value(digits) as u64)
    } else {
        None
    }
}

/// The weekday that follows a `_` marker: the first three letters of its
/// English name, in either case.
pub open spec fn weekday_of(rest: Seq<char>) -> Option<Weekday> {
    if rest.len() != 3 {
        None
    } else {
        let a = ascii_lower(rest[0]);
        let b = ascii_lower(rest[1]);
        let c = ascii_lower(rest[2]);
        if a == 'm' && b == 'o' && c == 'n' {
            Some(Weekday::Mon)
        } else if a == 't' && b == 'u' && c == 'e' {
            Some(Weekday::Tue)
        } else if a == 'w' && b == 'e' && c == 'd' {
            Some(Weekday::Wed)
        } else if a == 't' && b == 'h' && c == 'u' {
            Some(Weekday::Thu)
        } else if a == 'f' && b == 'r' && c == 'i' {
            Some(Weekday::Fri)
        } else if a == 's' && b == 'a' && c == 't' {
            Some(Weekday::Sat)
        } else if a == 's' && b == 'u' && c == 'n' {
            Some(Weekday::Sun)
        } else {
            None
        }
    }
}

/// The month and day that follow an `x` marker: exactly four digits, `MMDD`.
pub open spec fn month_day_of(rest: Seq<char>) -> Option<(u32, u32)> {
    if rest.len() == 4 && all_digits(rest) {
        Some((two_digit_value(rest[0], rest[1]) as u32, two_digit_value(rest[2], rest[3]) as u32))
    } else {
        None
    }
}

/// The date code that `text` writes, if it writes one.
pub open spec fn date_code_of(text: Seq<char>) -> Option<DateCode> {
    if text.len() == 0 {
        None
    } else if text[0] == '+' {
        match offset_of(text.drop_first()) {
            Some(days) => Some(DateCode::OffsetDays(days)),
            None => None,
        }
    } else if text[0] == '_' {
        match weekday_of(text.drop_first()) {
            Some(weekday) => Some(DateCode::NextWeekday(weekday)),
            None => None,
        }
    } else if text[0] == 'x' {
        match month_day_of(text.drop_first()) {
            Some((month, day)) => Some(DateCode::AbsoluteMonthDay { month, day }),
            None => None,
        }
    } else {
        None
    }
}

/// The digits written so far never write more than the whole does.
proof fn lemma_decimal_prefix(s: Seq<char>, k: int)
    requires
        all_digits(s),
        0 <= k <= s.len(),
    ensures
        0 <= decimal_value(s.take(k)) <= decimal_value(s),
    decreases s.len() - k,
{
    lemma_decimal_nonnegative(s.take(k));
    if k == s.len() {
        assert(s.take(k) =~= s);
    } else {
        lemma_decimal_prefix(s, k + 1);
        assert(s.take(k + 1).drop_last() =~= s.take(k));
    }
}

/// Digits write no negative number.
proof fn lemma_decimal_nonnegative(s: Seq<char>)
    requires
        all_digits(s),
    ensures
        0 <= decimal_value(s),
    decreases s.len(),
{
    if s.len() > 0 {
        lemma_decimal_nonnegative(s.drop_last());
    }
}

/// Reads the decimal number that `chars` holds from `start` on.
fn parse_decimal(chars: &Vec<char>, start: usize) -> (r: Option<u64>)
    requires
        start <= chars.len(),
    ensures
        r == ({
            let digits = chars@.skip(start as int);
            if digits.len() > 0 && all_digits(digits) && decimal_value(digits) <= u64::MAX {
                Some(decimal_value(digits) as u64)
            } else {
                None
            }
        }),
{
    let ghost digits = chars@.skip(start as int);
    if start == chars.len() {
        return None;
    }
    let mut value: u64 = 0;
    let mut i: usize = start;
    while i < chars.len()
        invariant
            start <= i <= chars.len(),
            digits == chars@.skip(start as int),
            all_digits(digits.take(i - start)),
            value as int == decimal_value(digits.take(i - start)),
        decreases chars.len() - i,
    {
        let ghost seen = digits.take(i - start);
        let ghost next = digits.take(i - start + 1);
        proof {
            assert(next.drop_last() =~= seen);
            assert(next.last() == chars@[i as int]);
        }
        match to_digit(chars[i]) {
            None => {
                proof {
                    assert(!is_digit(digits[i - start]));
                }
                return None;
            },
            Some(d) => {
                if value > (u64::MAX - d as u64) / 10 {
                    proof {
                        assert(decimal_value(next) > u64::MAX);
                        if all_digits(digits) {
                            lemma_decimal_prefix(digits, i - start + 1);
                        }
                    }
                    return None;
                }
                value = value * 10 + d as u64;
                proof {
                    assert forall|j: int| 0 <= j < next.len() implies is_digit(#[trigger] next[j]) by {
                        if j < seen.len() {
                            assert(next[j] == seen[j]);
                        }
                    }
                }
            },
        }
        i += 1;
    }
    proof {
        assert(digits.take(i - start) =~= digits);
    }
    Some(value)
}

/// Reads the weekday that `chars` names from `start` on.
fn parse_weekday(chars: &Vec<char>, start: usize) -> (r: Option<Weekday>)
    requires
        start <= chars.len(),
    ensures
        r == weekday_of(chars@.skip(start as int)),
{
    if chars.len() - start != 3 {
        return None;
    }
    let a = to_ascii_lower(chars[start]);
    let b = to_ascii_lower(chars[start + 1]);
    let c = to_ascii_lower(chars[start + 2]);
    if a == 'm' && b == 'o' && c == 'n' {
        Some(Weekday::Mon)
    } else if a == 't' && b == 'u' && c == 'e' {
        Some(Weekday::Tue)
    } else if a == 'w' && b == 'e' && c == 'd' {
        Some(Weekday::Wed)
    } else if a == 't' && b == 'h' && c == 'u' {
        Some(Weekday::Thu)
    } else if a == 'f' && b == 'r' && c == 'i' {
        Some(Weekday::Fri)
    } else if a == 's' && b == 'a' && c == 't' {
        Some(Weekday::Sat)
    } else if a == 's' && b == 'u' && c == 'n' {
        Some(Weekday::Sun)
    } else {
        None
    }
}

/// Reads the month and day that `chars` holds from `start` on.
fn parse_month_day(chars: &Vec<char>, start: usize) -> (r: Option<(u32, u32)>)
    requires
        start <= chars.len(),
    ensures
        r == month_day_of(chars@.skip(start as int)),
{
    let ghost rest = chars@.skip(start as int);
    if chars.len() - start != 4 {
        return None;
    }
    match (parse_two_digits(chars, start), parse_two_digits(chars, start + 2)) {
        (Some(month), Some(day)) => {
            proof {
                assert forall|i: int| 0 <= i < rest.len() implies is_digit(#[trigger] rest[i]) by {
                    assert(rest[i] == chars@[start + i]);
                }
            }
            Some((month, day))
        },
        _ => {
            proof {
                assert(rest[0] == chars@[start as int]);
                assert(rest[1] == chars@[start + 1]);
                assert(rest[2] == chars@[start + 2]);
                assert(rest[3] == chars@[start + 3]);
            }
            None
        },
    }
}

/// Reads a date code. Any text that is none fails with
/// [`Error::ParseFailure`].
pub fn parse_date_code(text: &str) -> (r: Result<DateCode, Error>)
    ensures
        r == match date_code_of(text@) {
            Some(code) => Ok::<DateCode, Error>(code),
            None => Err(Error::ParseFailure),
        },
{
    let chars = chars_of(text);
    if chars.len() == 0 {
        return Err(Error::ParseFailure);
    }
    let marker = chars[0];
    proof {
        assert(chars@.skip(1) =~= text@.drop_first());
    }
    if marker == '+' {
        let start: usize = if chars.len() > 1 && chars[1] == '+' {
            2
        } else {
            1
        };
        proof {
            let rest = text@.drop_first();
            if start == 2 {
                assert(chars@.skip(2) =~= rest.drop_first());
            }
        }
        match parse_decimal(&chars, start) {
            Some(days) => Ok(DateCode::OffsetDays(days)),
            None => Err(Error::ParseFailure),
        }
    } else if marker == '_' {
        match parse_weekday(&chars, 1) {
            Some(weekday) => Ok(DateCode::NextWeekday(weekday)),
            None => Err(Error::ParseFailure),
        }
    } else if marker == 'x' {
        match parse_month_day(&chars, 1) {
            Some((month, day)) => Ok(DateCode::AbsoluteMonthDay { month, day }),
            None => Err(Error::ParseFailure),
        }
    } else {
        Err(Error::ParseFailure)
    }
}

/// The days from a day whose place in the week is `from` to the next day
/// whose place is `to`: a whole week where the two are the same.
pub open spec fn weekday_delta(from: int, to: int) -> int {
    if from < to {
        to - from
    } else {
        7 - from + to
    }
}

/// Whether `r` is what adding `days` days to `reference` gives: the day
/// that many days later, or [`Error::ParseFailure`] where that day lies
/// beyond the last day a [`Date`] can hold.
pub open spec fn lands(reference: Date, days: int, r: Result<Date, Error>) -> bool {
    match r {
        Ok(date) => date.is_valid() && date.day_number() == reference.day_number() + days,
        Err(e) => e == Error::ParseFailure && reference.day_number() + days > max_day_number(),
    }
}

/// Whether `r` is what `code` resolves to against `reference`.
///
/// A month and day take the year of the reference date, also where that day
/// has passed already: the year never rolls over.
pub open spec fn resolves_to(code: DateCode, reference: Date, r: Result<Date, Error>) -> bool {
    match code {
        DateCode::AbsoluteMonthDay { month, day } => r == if valid_ymd(
            reference.year as int,
            month as int,
            day as int,
        ) {
            Ok::<Date, Error>(Date { year: reference.year, month, day })
        } else {
            Err(Error::ParseFailure)
        },
        DateCode::OffsetDays(days) => lands(reference, days as int, r),
        DateCode::NextWeekday(weekday) => lands(
            reference,
            weekday_delta(reference.weekday_index(), weekday.index()),
            r,
        ),
    }
}

/// Resolves a date code against the reference date.
pub fn resolve(code: DateCode, reference: &Date) -> (r: Result<Date, Error>)
    requires
        reference.is_valid(),
    ensures
        resolves_to(code, *reference, r),
{
    match code {
        DateCode::AbsoluteMonthDay { month, day } => {
            match Date::from_ymd_opt(reference.year, month, day) {
                Some(date) => Ok(date),
                None => Err(Error::ParseFailure),
            }
        },
        DateCode::OffsetDays(days) => {
            match date_plus_days(reference, days) {
                Some(date) => Ok(date),
                None => Err(Error::ParseFailure),
            }
        },
        DateCode::NextWeekday(weekday) => {
            let target: u32 = weekday.num_days_from_monday();
            match date_weekday_index(reference) {
                Some(from) => {
                    let delta: u32 = if from < target {
                        target - from
                    } else {
                        7 - from + target
                    };
                    match date_plus_days(reference, delta as u64) {
                        Some(date) => Ok(date),
                        None => Err(Error::ParseFailure),
                    }
                },
                None => Err(Error::ParseFailure),
            }
        },
    }
}

/// Reads a date code and resolves it against the date of the message.
pub fn parse_date(date_str: &str, msg_date: &Date) -> (r: Result<Date, Error>)
    requires
        msg_date.is_valid(),
    ensures
        match date_code_of(date_str@) {
            Some(code) => resolves_to(code, *msg_date, r),
            None => r == Err::<Date, Error>(Error::ParseFailure),
        },
{
    match parse_date_code(date_str) {
        Ok(code) => resolve(code, msg_date),
        Err(e) => Err(e),
    }
}

/// A date code resolves to one outcome against a reference date: the day
/// number that [`lands`] speaks of names one day, and where that day can be
/// held there is no failure.
pub proof fn lemma_resolution_is_unique(
    code: DateCode,
    reference: Date,
    a: Result<Date, Error>,
    b: Result<Date, Error>,
)
    requires
        reference.is_valid(),
        resolves_to(code, reference, a),
        resolves_to(code, reference, b),
    ensures
        a == b,
{
    if a is Ok {
        lemma_day_number_bounds(a->Ok_0);
    }
    if b is Ok {
        lemma_day_number_bounds(b->Ok_0);
    }
    if a is Ok && b is Ok && !(code is AbsoluteMonthDay) {
        lemma_day_number_names_the_day(a->Ok_0, b->Ok_0);
    }
}

/// An offset of `days` resolves to the day exactly `days` days after the
/// reference date, and fails only where no date can hold that day.
pub proof fn lemma_offset_is_exact(reference: Date, days: u64, r: Result<Date, Error>)
    requires
        reference.is_valid(),
        resolves_to(DateCode::OffsetDays(days), reference, r),
    ensures
        r is Ok <==> reference.day_number() + days <= max_day_number(),
        r is Ok ==> r->Ok_0.is_valid() && r->Ok_0.day_number() == reference.day_number() + days,
        r is Err ==> r == Err::<Date, Error>(Error::ParseFailure),
{
    if r is Ok {
        lemma_day_number_bounds(r->Ok_0);
    }
}

/// The weekday of the reference date itself resolves to the day one week
/// later, never to the reference date.
pub proof fn lemma_same_weekday_is_next_week(
    reference: Date,
    weekday: Weekday,
    r: Result<Date, Error>,
)
    requires
        reference.is_valid(),
        reference.weekday_index() == weekday.index(),
        resolves_to(DateCode::NextWeekday(weekday), reference, r),
    ensures
        r is Ok ==> r->Ok_0.day_number() == reference.day_number() + 7,
        r is Ok <==> reference.day_number() + 7 <= max_day_number(),
{
    if r is Ok {
        lemma_day_number_bounds(r->Ok_0);
    }
}

/// A weekday earlier in the week than the reference date's resolves to the
/// day `7 - from + to` days later, one later in the week to the day
/// `to - from` days later, where `from` and `to` are the places of the
/// reference date's weekday and of the wanted one in the week.
pub proof fn lemma_weekday_delta(reference: Date, weekday: Weekday, r: Result<Date, Error>)
    requires
        reference.is_valid(),
        resolves_to(DateCode::NextWeekday(weekday), reference, r),
        r is Ok,
    ensures
        weekday.index() < reference.weekday_index() ==> r->Ok_0.day_number()
            - reference.day_number() == 7 - reference.weekday_index() + weekday.index(),
        weekday.index() > reference.weekday_index() ==> r->Ok_0.day_number()
            - reference.day_number() == weekday.index() - reference.weekday_index(),
{
}

/// The day that a weekday resolves to falls on that weekday, and is one of
/// the seven days that follow the reference date.
pub proof fn lemma_next_weekday_falls_on_weekday(
    reference: Date,
    weekday: Weekday,
    r: Result<Date, Error>,
)
    requires
        reference.is_valid(),
        resolves_to(DateCode::NextWeekday(weekday), reference, r),
        r is Ok,
    ensures
        r->Ok_0.weekday_index() == weekday.index(),
        1 <= r->Ok_0.day_number() - reference.day_number() <= 7,
{
}

} // verus!
