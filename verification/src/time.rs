//! Times of day, written as four digits `HHMM` on a 24-hour clock.

use crate::error::Error;
use crate::text::{all_digits, chars_of, parse_two_digits, two_digit_value};
use vstd::prelude::*;

verus! {

/// A time of day to the minute, without a time zone.
#[derive(Clone, Copy, Debug, PartialEq, Eq, Structural)]
pub struct TimeOfDay {
    pub hour: u32,
    pub minute: u32,
}

/// The time that the code writes: exactly four digits, the hour before the
/// minute, the hour at most 23 and the minute at most 59.
pub open spec fn time_of(code: Seq<char>) -> Option<TimeOfDay> {
    if code.len() == 4 && all_digits(code) {
        let hour = two_digit_value(code[0], code[1]);
        let minute = two_digit_value(code[2], code[3]);
        if hour <= 23 && minute <= 59 {
            Some(TimeOfDay { hour: hour as u32, minute: minute as u32 })
        } else {
            None
        }
    } else {
        None
    }
}

impl TimeOfDay {
    /// Whether hour and minute are those of a clock.
    pub open spec fn is_valid(self) -> bool {
        self.hour <= 23 && self.minute <= 59
    }

    /// Reads a time code. Nothing is rounded or clamped: a code of another
    /// length, with another character than a digit, with an hour above 23 or
    /// a minute above 59 fails with [`Error::ParseFailure`].
    pub fn decode(code: &str) -> (r: Result<TimeOfDay, Error>)
        ensures
            r == match time_of(code@) {
                Some(time) => Ok::<TimeOfDay, Error>(time),
                None => Err(Error::ParseFailure),
            },
            r is Ok ==> r->Ok_0.is_valid(),
    {
        let chars = chars_of(code);
        if chars.len() != 4 {
            return Err(Error::ParseFailure);
        }
        match (parse_two_digits(&chars, 0), parse_two_digits(&chars, 2)) {
            (Some(hour), Some(minute)) => {
                if hour <= 23 && minute <= 59 {
                    Ok(TimeOfDay { hour, minute })
                } else {
                    Err(Error::ParseFailure)
                }
            },
            _ => Err(Error::ParseFailure),
        }
    }
}

} // verus!
