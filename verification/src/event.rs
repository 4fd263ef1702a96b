//! The event that a record resolves to, and the calendar that holds it.

use crate::date::Date;
use crate::datecode::{lemma_resolution_is_unique, resolve, resolves_to};
use crate::error::Error;
use crate::record::{
    decode_record, decoded, is_refusal, toml_document, EventRecord, EventRecordView,
};
use crate::time::{time_of, TimeOfDay};
use crate::title::{normalize_title, normalized};
use vstd::prelude::*;

verus! {

/// A day and a time of day on it, on the wall clock: no time zone goes with it.
#[derive(Clone, Copy, Debug, PartialEq, Eq, Structural)]
pub struct DateTime {
    pub date: Date,
    pub time: TimeOfDay,
}

/// An event with absolute start and end.
#[derive(Clone, Debug, PartialEq, Eq)]
pub struct CalendarEvent {
    /// The title, in its display form.
    pub title: String,
    /// When the event starts.
    pub start: DateTime,
    /// When the event ends: on the day it starts. That it ends after it
    /// starts is left to whoever wrote the record.
    pub end: DateTime,
    /// Where the event takes place.
    pub location: String,
    /// What else is said of the event; empty where nothing is.
    pub description: String,
}

/// The mathematical value of a [`CalendarEvent`].
pub ghost struct CalendarEventView {
    pub title: Seq<char>,
    pub start: DateTime,
    pub end: DateTime,
    pub location: Seq<char>,
    pub description: Seq<char>,
}

impl View for CalendarEvent {
    type V = CalendarEventView;

    open spec fn view(&self) -> CalendarEventView {
        CalendarEventView {
            title: self.title@,
            start: self.start,
            end: self.end,
            location: self.location@,
            description: self.description@,
        }
    }
}

impl DateTime {
    /// Whether day and time are a day of the calendar and a time of the clock.
    pub open spec fn is_valid(self) -> bool {
        self.date.is_valid() && self.time.is_valid()
    }
}

impl CalendarEvent {
    /// Whether the event is well formed: start and end are valid, and the
    /// event ends on the day it starts.
    pub open spec fn wf(&self) -> bool {
        &&& self.start.is_valid()
        &&& self.end.is_valid()
        &&& self.end.date == self.start.date
    }
}

/// A calendar: events, in order.
#[derive(Clone, Debug, PartialEq, Eq)]
pub struct Calendar {
    pub events: Vec<CalendarEvent>,
}

impl View for Calendar {
    type V = Seq<CalendarEventView>;

    open spec fn view(&self) -> Seq<CalendarEventView> {
        Seq::new(self.events@.len(), |i: int| self.events@[i]@)
    }
}

impl Calendar {
    /// Whether the calendar is one that a record resolves to: it holds one
    /// event, which is well formed.
    pub open spec fn wf(&self) -> bool {
        self.events@.len() == 1 && self.events@[0].wf()
    }
}

/// The event that a record describes on the day `date`, or
/// [`Error::ParseFailure`] where one of its two time codes is none.
pub open spec fn assembled(record: EventRecordView, date: Date) -> Result<
    CalendarEventView,
    Error,
> {
    match (time_of(record.starttime), time_of(record.endtime)) {
        (Some(start), Some(end)) => Ok(
            CalendarEventView {
                title: normalized(record.title),
                start: DateTime { date, time: start },
                end: DateTime { date, time: end },
                location: record.location,
                description: match record.description {
                    Some(text) => text,
                    None => Seq::empty(),
                },
            },
        ),
        _ => Err(Error::ParseFailure),
    }
}

/// Whether `r` is what a record resolves to against the reference date: a
/// calendar of the one event that the record describes on the day its date
/// code resolves to, or [`Error::ParseFailure`] where the date code resolves
/// to no day or a time code is none.
pub open spec fn converts_to(
    record: EventRecordView,
    reference: Date,
    r: Result<Calendar, Error>,
) -> bool {
    match r {
        Ok(calendar) => {
            &&& calendar@.len() == 1
            &&& resolves_to(
                record.date,
                reference,
                Ok(calendar@[0].start.date),
            )
            &&& assembled(record, calendar@[0].start.date) == Ok::<CalendarEventView, Error>(
                calendar@[0],
            )
        },
        Err(e) => {
            &&& e == Error::ParseFailure
            &&& (resolves_to(record.date, reference, Err(Error::ParseFailure)) || time_of(
                record.starttime,
            ) is None || time_of(record.endtime) is None)
        },
    }
}

/// Whether `r` is what a reply comes to, of which `document` is what the
/// `toml` crate makes: [`Error::NoResponse`] where there is no reply,
/// [`Error::ParseFailure`] where no record is read from it, and else what
/// the record resolves to.
pub open spec fn interprets(
    reply: Option<Seq<char>>,
    document: Option<Map<Seq<char>, Option<Seq<char>>>>,
    reference: Date,
    r: Result<Calendar, Error>,
) -> bool {
    match reply {
        None => r == Err::<Calendar, Error>(Error::NoResponse),
        Some(text) => match decoded(text, document) {
            Ok(record) => converts_to(record, reference, r),
            Err(e) => r == Err::<Calendar, Error>(e),
        },
    }
}

/// Whether two outcomes are one: the same failure, or calendars of the same
/// events.
pub open spec fn same_outcome(a: Result<Calendar, Error>, b: Result<Calendar, Error>) -> bool {
    match (a, b) {
        (Ok(x), Ok(y)) => x@ == y@,
        (Err(e), Err(f)) => e == f,
        _ => false,
    }
}

/// A record resolves to one outcome against a reference date: whatever
/// [`converts_to`] holds of is the same failure, or holds the same event.
pub proof fn lemma_conversion_is_unique(
    record: EventRecordView,
    reference: Date,
    a: Result<Calendar, Error>,
    b: Result<Calendar, Error>,
)
    requires
        reference.is_valid(),
        converts_to(record, reference, a),
        converts_to(record, reference, b),
    ensures
        same_outcome(a, b),
{
    let failure = Err::<Date, Error>(Error::ParseFailure);
    match (a, b) {
        (Ok(x), Ok(y)) => {
            lemma_resolution_is_unique(
                record.date,
                reference,
                Ok(x@[0].start.date),
                Ok(y@[0].start.date),
            );
            assert(x@ =~= y@);
        },
        (Ok(x), Err(_)) => {
            if resolves_to(record.date, reference, failure) {
                lemma_resolution_is_unique(record.date, reference, Ok(x@[0].start.date), failure);
            }
        },
        (Err(_), Ok(y)) => {
            if resolves_to(record.date, reference, failure) {
                lemma_resolution_is_unique(record.date, reference, Ok(y@[0].start.date), failure);
            }
        },
        (Err(_), Err(_)) => {},
    }
}

/// A record with a time code that is none resolves to no calendar, whatever
/// else it holds: the outcome is [`Error::ParseFailure`], never a part of
/// an event.
pub proof fn lemma_bad_time_code_fails(
    record: EventRecordView,
    reference: Date,
    r: Result<Calendar, Error>,
)
    requires
        converts_to(record, reference, r),
        time_of(record.starttime) is None || time_of(record.endtime) is None,
    ensures
        r == Err::<Calendar, Error>(Error::ParseFailure),
{
}

/// A reply that declines comes to [`Error::ParseFailure`], whatever else it
/// holds and whatever the `toml` crate makes of it.
pub proof fn lemma_refusal_fails(
    reply: Seq<char>,
    document: Option<Map<Seq<char>, Option<Seq<char>>>>,
    reference: Date,
    r: Result<Calendar, Error>,
)
    requires
        is_refusal(reply),
        interprets(Some(reply), document, reference, r),
    ensures
        r == Err::<Calendar, Error>(Error::ParseFailure),
{
}

/// Puts the event together that a record describes on the day `date`: start
/// and end on that day at the times its two codes give, the title in its
/// display form, the location as it is, and the description, or the empty
/// text where the record has none.
pub fn assemble(record: &EventRecord, date: Date) -> (r: Result<CalendarEvent, Error>)
    requires
        record.wf(),
    ensures
        match r {
            Ok(event) => assembled(record@, date) == Ok::<CalendarEventView, Error>(event@),
            Err(e) => assembled(record@, date) == Err::<CalendarEventView, Error>(e),
        },
        r is Ok && date.is_valid() ==> r->Ok_0.wf(),
{
    let start = match TimeOfDay::decode(record.starttime.as_str()) {
        Ok(time) => time,
        Err(e) => {
            return Err(e);
        },
    };
    let end = match TimeOfDay::decode(record.endtime.as_str()) {
        Ok(time) => time,
        Err(e) => {
            return Err(e);
        },
    };
    let description = match &record.description {
        Some(text) => text.clone(),
        None => String::new(),
    };
    Ok(
        CalendarEvent {
            title: normalize_title(record.title.as_str()),
            start: DateTime { date, time: start },
            end: DateTime { date, time: end },
            location: record.location.clone(),
            description,
        },
    )
}

impl EventRecord {
    /// Resolves the record against the date of the message into a calendar of
    /// one event. Either the whole event comes out or a failure: never a part.
    pub fn to_ical(&self, message_date: &Date) -> (r: Result<Calendar, Error>)
        requires
            self.wf(),
            message_date.is_valid(),
        ensures
            converts_to(self@, *message_date, r),
            r is Ok ==> r->Ok_0.wf(),
    {
        let date = match resolve(self.date, message_date) {
            Ok(date) => date,
            Err(e) => {
                return Err(e);
            },
        };
        let event = match assemble(self, date) {
            Ok(event) => event,
            Err(e) => {
                return Err(e);
            },
        };
        let mut events: Vec<CalendarEvent> = Vec::new();
        events.push(event);
        let calendar = Calendar { events };
        proof {
            assert(calendar@[0] == event@);
        }
        Ok(calendar)
    }
}

/// Turns the reply of the completion service into a calendar, against the
/// date of the message that the service was asked about. `None` stands for
/// a service that returned no candidate reply.
pub fn parse_msg(reply: Option<&str>, message_date: &Date) -> (r: Result<Calendar, Error>)
    requires
        message_date.is_valid(),
    ensures
        interprets(
            match reply {
                Some(text) => Some(text@),
                None => None,
            },
            match reply {
                Some(text) => toml_document(text@),
                None => None,
            },
            *message_date,
            r,
        ),
        reply is None ==> r == Err::<Calendar, Error>(Error::NoResponse),
        reply is Some && is_refusal(reply->0@) ==> r == Err::<Calendar, Error>(Error::ParseFailure),
        r is Ok ==> r->Ok_0.wf(),
{
    match reply {
        None => Err(Error::NoResponse),
        Some(text) => match decode_record(text) {
            Ok(record) => record.to_ical(message_date),
            Err(e) => Err(e),
        },
    }
}

} // verus!
