//! The record that a reply holds, and how it is read out of the reply.
//!
//! A reply is a small TOML document with the keys `title`, `date`,
//! `starttime`, `endtime`, `location` and, where there is one,
//! `description`, each with a string for its value. The document itself is
//! parsed by the `toml` crate; what is done with its entries is decided here.

use crate::datecode::{date_code_of, parse_date_code, DateCode};
use crate::error::Error;
use crate::text::{ascii_lower, chars_of, to_ascii_lower};
use vstd::prelude::*;

verus! {

#[verifier::external_type_specification]
#[verifier::external_body]
#[verifier::reject_recursive_types(K)]
#[verifier::reject_recursive_types(V)]
pub struct ExTomlMap<K, V>(toml::map::Map<K, V>);

#[verifier::external_type_specification]
#[verifier::external_body]
pub struct ExTomlValue(toml::Value);

/// What a table holds, as far as a record is read from it: under each of its
/// keys the text of the value, where the value is a string, and nothing
/// where it is of another kind.
pub uninterp spec fn table_texts(table: toml::Table) -> Map<Seq<char>, Option<Seq<char>>>;

/// What the `toml` crate makes of a text: the entries of the table that the
/// text writes, or nothing where the text is no TOML document.
pub uninterp spec fn toml_document(text: Seq<char>) -> Option<Map<Seq<char>, Option<Seq<char>>>>;

/// The entry under `key`: none, one with a text, or one of another kind.
pub open spec fn entry(fields: Map<Seq<char>, Option<Seq<char>>>, key: Seq<char>) -> Option<
    Option<Seq<char>>,
> {
    if fields.contains_key(key) {
        Some(fields[key])
    } else {
        None
    }
}

/// What an entry that was read holds.
pub open spec fn entry_view(found: Option<Option<String>>) -> Option<Option<Seq<char>>> {
    match found {
        Some(Some(text)) => Some(Some(text@)),
        Some(None) => Some(None),
        None => None,
    }
}

/// Calls `toml::from_str` for a `toml::Table`, and drops the error.
///
/// Trusted: what comes back depends on the text alone; nothing is claimed
/// of which texts are TOML documents, nor of what they hold.
#[verifier::external_body]
fn parse_table(text: &str) -> (r: Option<toml::Table>)
    ensures
        match r {
            Some(table) => toml_document(text@) == Some(table_texts(table)),
            None => toml_document(text@) is None,
        },
{
    toml::from_str::<toml::Table>(text).ok()
}

/// Calls `toml::map::Map::get` with the key, and `toml::Value::as_str` on
/// the value found.
///
/// Trusted: the result is the entry of the table under `key`: none where
/// the table lacks the key, else the text of the value where the value is a
/// string, and nothing where it is of another kind.
#[verifier::external_body]
fn table_text(table: &toml::Table, key: &str) -> (r: Option<Option<String>>)
    ensures
        entry_view(r) == entry(table_texts(*table), key@),
{
    let value = table.get(key)?;
    Some(value.as_str().map(String::from))
}

/// An event as a reply describes it, before its date and times are resolved.
#[derive(Clone, Debug, PartialEq, Eq)]
pub struct EventRecord {
    /// What the event is called; never empty.
    pub title: String,
    /// The day of the event, relative to the day the message was written.
    pub date: DateCode,
    /// The time code of the start.
    pub starttime: String,
    /// The time code of the end.
    pub endtime: String,
    /// Where the event takes place; may be empty.
    pub location: String,
    /// What else is said of the event.
    pub description: Option<String>,
}

/// The mathematical value of an [`EventRecord`].
pub ghost struct EventRecordView {
    pub title: Seq<char>,
    pub date: DateCode,
    pub starttime: Seq<char>,
    pub endtime: Seq<char>,
    pub location: Seq<char>,
    pub description: Option<Seq<char>>,
}

impl View for EventRecord {
    type V = EventRecordView;

    open spec fn view(&self) -> EventRecordView {
        EventRecordView {
            title: self.title@,
            date: self.date,
            starttime: self.starttime@,
            endtime: self.endtime@,
            location: self.location@,
            description: match self.description {
                Some(text) => Some(text@),
                None => None,
            },
        }
    }
}

impl EventRecord {
    /// Whether the record is well formed: it has a title.
    pub open spec fn wf(&self) -> bool {
        self.title@.len() > 0
    }
}

/// Whether the text holds `failed` at `at`, in either case of each letter.
pub open spec fn says_failed_at(text: Seq<char>, at: int) -> bool {
    &&& 0 <= at
    &&& at + 6 <= text.len()
    &&& ascii_lower(text[at]) == 'f'
    &&& ascii_lower(text[at + 1]) == 'a'
    &&& ascii_lower(text[at + 2]) == 'i'
    &&& ascii_lower(text[at + 3]) == 'l'
    &&& ascii_lower(text[at + 4]) == 'e'
    &&& ascii_lower(text[at + 5]) == 'd'
}

/// Whether the reply declines to describe an event: it is empty, or holds
/// the word `failed` somewhere.
pub open spec fn is_refusal(reply: Seq<char>) -> bool {
    reply.len() == 0 || exists|at: int| says_failed_at(reply, at)
}

/// The text of an entry that a record must have.
pub open spec fn required(found: Option<Option<Seq<char>>>) -> Option<Seq<char>> {
    match found {
        Some(Some(text)) => Some(text),
        _ => None,
    }
}

/// The record that six entries make up, if they make up one: the five that
/// a record must have are there and are texts, the title is not empty, the
/// date is a date code, and the description, where there is one, is a text.
pub open spec fn record_of_entries(
    title: Option<Option<Seq<char>>>,
    date: Option<Option<Seq<char>>>,
    starttime: Option<Option<Seq<char>>>,
    endtime: Option<Option<Seq<char>>>,
    location: Option<Option<Seq<char>>>,
    description: Option<Option<Seq<char>>>,
) -> Option<EventRecordView> {
    if required(title) is Some && required(date) is Some && required(starttime) is Some
        && required(endtime) is Some && required(location) is Some && description != Some(
        None::<Seq<char>>,
    ) && required(title)->0.len() > 0 && date_code_of(required(date)->0) is Some {
        Some(
            EventRecordView {
                title: required(title)->0,
                date: date_code_of(required(date)->0)->0,
                starttime: required(starttime)->0,
                endtime: required(endtime)->0,
                location: required(location)->0,
                description: match description {
                    Some(Some(text)) => Some(text),
                    _ => None,
                },
            },
        )
    } else {
        None
    }
}

/// The record that the entries of a table make up, if they make up one.
/// Entries under other keys than the six of a record are passed over.
pub open spec fn record_of(fields: Map<Seq<char>, Option<Seq<char>>>) -> Option<EventRecordView> {
    record_of_entries(
        entry(fields, "title"@),
        entry(fields, "date"@),
        entry(fields, "starttime"@),
        entry(fields, "endtime"@),
        entry(fields, "location"@),
        entry(fields, "description"@),
    )
}

/// The outcome of reading a record, of which `record` is the record read.
pub open spec fn outcome_of(record: Option<EventRecordView>) -> Result<EventRecordView, Error> {
    match record {
        Some(record) => Ok(record),
        None => Err(Error::ParseFailure),
    }
}

/// What is read from a reply of which `document` is what the `toml` crate
/// makes: the record it holds, or [`Error::ParseFailure`] where the reply
/// declines, is no TOML document, or holds no record.
pub open spec fn decoded(
    reply: Seq<char>,
    document: Option<Map<Seq<char>, Option<Seq<char>>>>,
) -> Result<EventRecordView, Error> {
    if is_refusal(reply) {
        Err(Error::ParseFailure)
    } else {
        match document {
            Some(fields) => outcome_of(record_of(fields)),
            None => Err(Error::ParseFailure),
        }
    }
}

/// Whether `r` is the outcome `expected`, the record taken by its value.
pub open spec fn outcome_is(
    r: Result<EventRecord, Error>,
    expected: Result<EventRecordView, Error>,
) -> bool {
    match r {
        Ok(record) => expected == Ok::<EventRecordView, Error>(record@),
        Err(e) => expected == Err::<EventRecordView, Error>(e),
    }
}

/// Whether the reply declines to describe an event.
pub fn declines(reply: &str) -> (r: bool)
    ensures
        r == is_refusal(reply@),
{
    let chars = chars_of(reply);
    if chars.len() == 0 {
        return true;
    }
    if chars.len() < 6 {
        return false;
    }
    let last: usize = chars.len() - 6;
    let mut at: usize = 0;
    while at <= last
        invariant
            chars@ == reply@,
            last + 6 == chars.len(),
            at <= last + 1,
            forall|before: int| 0 <= before < at ==> !says_failed_at(reply@, before),
        decreases last + 1 - at,
    {
        if to_ascii_lower(chars[at]) == 'f' && to_ascii_lower(chars[at + 1]) == 'a'
            && to_ascii_lower(chars[at + 2]) == 'i' && to_ascii_lower(chars[at + 3]) == 'l'
            && to_ascii_lower(chars[at + 4]) == 'e' && to_ascii_lower(chars[at + 5]) == 'd' {
            proof {
                assert(says_failed_at(reply@, at as int));
            }
            return true;
        }
        at += 1;
    }
    false
}

/// Makes a record of the six entries found under its keys. An entry is
/// `None` where the key is missing, `Some(None)` where its value is no
/// string, and else the text of its value.
pub fn record_from_entries(
    title: Option<Option<String>>,
    date: Option<Option<String>>,
    starttime: Option<Option<String>>,
    endtime: Option<Option<String>>,
    location: Option<Option<String>>,
    description: Option<Option<String>>,
) -> (r: Result<EventRecord, Error>)
    ensures
        outcome_is(
            r,
            outcome_of(
                record_of_entries(
                    entry_view(title),
                    entry_view(date),
                    entry_view(starttime),
                    entry_view(endtime),
                    entry_view(location),
                    entry_view(description),
                ),
            ),
        ),
        r is Ok ==> r->Ok_0.wf(),
{
    let description = match description {
        Some(Some(text)) => Some(text),
        Some(None) => {
            return Err(Error::ParseFailure);
        },
        None => None,
    };
    match (title, date, starttime, endtime, location) {
        (
            Some(Some(title)),
            Some(Some(date)),
            Some(Some(starttime)),
            Some(Some(endtime)),
            Some(Some(location)),
        ) => {
            if title.as_str().unicode_len() == 0 {
                return Err(Error::ParseFailure);
            }
            match parse_date_code(date.as_str()) {
                Ok(code) => Ok(
                    EventRecord { title, date: code, starttime, endtime, location, description },
                ),
                Err(_) => Err(Error::ParseFailure),
            }
        },
        _ => Err(Error::ParseFailure),
    }
}

/// Reads a record out of the entries of a table.
pub fn record_from_table(table: &toml::Table) -> (r: Result<EventRecord, Error>)
    ensures
        outcome_is(r, outcome_of(record_of(table_texts(*table)))),
        r is Ok ==> r->Ok_0.wf(),
{
    record_from_entries(
        table_text(table, "title"),
        table_text(table, "date"),
        table_text(table, "starttime"),
        table_text(table, "endtime"),
        table_text(table, "location"),
        table_text(table, "description"),
    )
}

/// Reads the record that a reply holds.
///
/// A reply that is empty, or that holds the word `failed` in any case of its
/// letters, declines to describe an event and is never read as a record,
/// whatever else it holds.
pub fn decode_record(reply: &str) -> (r: Result<EventRecord, Error>)
    ensures
        outcome_is(r, decoded(reply@, toml_document(reply@))),
        is_refusal(reply@) ==> r == Err::<EventRecord, Error>(Error::ParseFailure),
        r is Ok ==> r->Ok_0.wf(),
{
    if declines(reply) {
        return Err(Error::ParseFailure);
    }
    match parse_table(reply) {
        Some(table) => record_from_table(&table),
        None => Err(Error::ParseFailure),
    }
}

} // verus!
