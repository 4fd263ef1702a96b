//! The summary of an event for its readers: one line for each thing to
//! know, a label before its value. Days and times are put into words by
//! `chrono`.

use crate::date::Date;
use crate::event::{Calendar, CalendarEventView};
use crate::time::TimeOfDay;
use vstd::prelude::*;
use vstd::string::StringExecFns;

verus! {

/// The words that `chrono` finds for a day: the name of its weekday, the
/// short name of its month, the day of the month and the year, as in
/// `Monday, Feb  3, 2025`.
pub uninterp spec fn date_words(year: int, month: int, day: int) -> Seq<char>;

/// The words that `chrono` finds for a time of day on a 12-hour clock, as in
/// ` 5:00 PM`.
pub uninterp spec fn time_words(hour: int, minute: int) -> Seq<char>;

/// Calls `chrono::NaiveDate::format` on the date with the pattern
/// `%A, %b %e, %Y`, and `to_string` on what it returns.
///
/// Trusted: a text comes back, and it depends on the date alone; nothing is
/// claimed of what it says.
#[verifier::external_body]
fn format_date(date: &Date) -> (r: Option<String>)
    requires
        date.is_valid(),
    ensures
        r is Some,
        r->0@ == date_words(date.year as int, date.month as int, date.day as int),
{
    let day = chrono::NaiveDate::from_ymd_opt(date.year, date.month, date.day)?;
    Some(day.format("%A, %b %e, %Y").to_string())
}

/// Calls `chrono::NaiveTime::format` on the time with the pattern
/// `%l:%M %p`, and `to_string` on what it returns.
///
/// Trusted: a text comes back, and it depends on the time alone; nothing is
/// claimed of what it says.
#[verifier::external_body]
fn format_time(time: &TimeOfDay) -> (r: Option<String>)
    requires
        time.is_valid(),
    ensures
        r is Some,
        r->0@ == time_words(time.hour as int, time.minute as int),
{
    let time = chrono::NaiveTime::from_hms_opt(time.hour, time.minute, 0)?;
    Some(time.format("%l:%M %p").to_string())
}

/// One line of a summary.
#[derive(Clone, Debug, PartialEq, Eq)]
pub struct SummaryLine {
    /// What the line tells, as it is shown before the value.
    pub label: String,
    /// What it tells of this event.
    pub value: String,
}

impl View for SummaryLine {
    type V = (Seq<char>, Seq<char>);

    open spec fn view(&self) -> (Seq<char>, Seq<char>) {
        (self.label@, self.value@)
    }
}

/// The lines that were made, each as a pair of label and value.
pub open spec fn lines_view(lines: Seq<SummaryLine>) -> Seq<(Seq<char>, Seq<char>)> {
    Seq::new(lines.len(), |i: int| lines[i]@)
}

/// The six lines of the summary of an event, of which `day`, `start` and
/// `end` are the words for its day and for its two times.
pub open spec fn summary_of(
    event: CalendarEventView,
    day: Seq<char>,
    start: Seq<char>,
    end: Seq<char>,
) -> Seq<(Seq<char>, Seq<char>)> {
    seq![
        ("**Event Name**: "@, event.title),
        ("**Date**: "@, day),
        ("**Start Time**: "@, start),
        ("**End Time**: "@, end),
        ("**Location**: "@, event.location),
        ("**Description**: "@, event.description),
    ]
}

/// Makes a line of a label and a value.
fn line(label: &str, value: String) -> (r: SummaryLine)
    ensures
        r@ == (label@, value@),
{
    SummaryLine { label: String::from_str(label), value }
}

/// The summary of the first event of a calendar: its name, day, start,
/// end, location and description, in this order. The day is that of the
/// start.
pub fn calendar_message(calendar: &Calendar) -> (r: Vec<SummaryLine>)
    requires
        calendar.events@.len() > 0,
        calendar.events@[0].wf(),
    ensures
        lines_view(r@) == summary_of(
            calendar@[0],
            date_words(
                calendar@[0].start.date.year as int,
                calendar@[0].start.date.month as int,
                calendar@[0].start.date.day as int,
            ),
            time_words(calendar@[0].start.time.hour as int, calendar@[0].start.time.minute as int),
            time_words(calendar@[0].end.time.hour as int, calendar@[0].end.time.minute as int),
        ),
{
    let event = &calendar.events[0];
    let day = match format_date(&event.start.date) {
        Some(text) => text,
        None => String::new(),
    };
    let start = match format_time(&event.start.time) {
        Some(text) => text,
        None => String::new(),
    };
    let end = match format_time(&event.end.time) {
        Some(text) => text,
        None => String::new(),
    };
    let mut lines: Vec<SummaryLine> = Vec::new();
    lines.push(line("**Event Name**: ", event.title.clone()));
    lines.push(line("**Date**: ", day));
    lines.push(line("**Start Time**: ", start));
    lines.push(line("**End Time**: ", end));
    lines.push(line("**Location**: ", event.location.clone()));
    lines.push(line("**Description**: ", event.description.clone()));
    proof {
        assert(lines_view(lines@) =~= summary_of(
            calendar@[0],
            date_words(
                calendar@[0].start.date.year as int,
                calendar@[0].start.date.month as int,
                calendar@[0].start.date.day as int,
            ),
            time_words(calendar@[0].start.time.hour as int, calendar@[0].start.time.minute as int),
            time_words(calendar@[0].end.time.hour as int, calendar@[0].end.time.minute as int),
        ));
    }
    lines
}

} // verus!
