//! Decoding of compact event records into calendar events.
//!
//! A text completion service is asked to describe an event as a small
//! record: a title, a compact date code relative to the day a message was
//! written, two `HHMM` time codes, a location and an optional description.
//! This crate decodes such a record and resolves it into a calendar holding
//! one event with absolute start and end.

pub mod date;
pub mod datecode;
pub mod error;
pub mod event;
pub mod handler;
pub mod record;
pub mod summary;
pub mod text;
pub mod time;
pub mod title;
