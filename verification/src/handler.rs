//! What is decided about a chat message, step by step: whether it is
//! answered at all, which text and which date stand for it, and what is
//! answered once the completion service has replied.
//!
//! The handler does none of the work on the chat platform itself. Each of
//! its methods takes what has happened and returns the stage that the
//! message is in and the one thing to do next.

use crate::date::Date;
use crate::error::Error;
use crate::event::{interprets, parse_msg, Calendar};
use crate::record::toml_document;
use vstd::prelude::*;
use vstd::string::StringExecFns;

verus! {

/// The message that another one replies to.
#[derive(Clone, Copy, Debug, PartialEq, Eq)]
pub struct Referenced {
    /// The day it was sent.
    pub sent: Date,
    /// The day it was last edited, if it ever was.
    pub edited: Option<Date>,
}

/// A message as it arrives.
#[derive(Clone, Copy, Debug, PartialEq, Eq)]
pub struct Incoming {
    /// Whether the bot itself wrote it.
    pub from_bot: bool,
    /// Whether it mentions the bot.
    pub mentions_bot: bool,
    /// The day it was sent.
    pub sent: Date,
    /// The message it replies to, if it replies to one.
    pub referenced: Option<Referenced>,
}

/// The message whose text describes the event.
#[derive(Clone, Copy, Debug, PartialEq, Eq)]
pub enum Source {
    /// The message that mentions the bot.
    Message,
    /// The message that it replies to.
    Referenced,
}

/// How far the handling of a message has come.
#[derive(Clone, Copy, Debug, PartialEq, Eq)]
pub enum Stage {
    /// The author's permissions are being looked up.
    Authorizing { source: Source, reference: Date },
    /// The completion service has been asked.
    Waiting { reference: Date },
    /// Nothing more is to be done.
    Done,
}

/// The one thing to do next.
#[derive(Clone, Debug, PartialEq, Eq)]
pub enum Action {
    /// Nothing.
    Nothing,
    /// Look up whether the author is an administrator, and hand the answer
    /// to [`Handler::permissions`].
    FetchPermissions,
    /// Say in the channel that only administrators are served.
    RefuseNonAdmin,
    /// Ask the completion service about the text of the message named, and
    /// hand its reply to [`Handler::reply`].
    Complete { source: Source },
    /// Publish the calendar and answer the message with its summary.
    Deliver(Calendar),
    /// Answer the message with the apology for this failure.
    Apologize(Error),
}

/// The handler of chat messages. It keeps nothing between messages: the
/// stage of each message is handed to it and handed back.
#[derive(Clone, Copy, Debug, PartialEq, Eq)]
pub struct Handler;

impl Incoming {
    /// Whether the days in the message are days of the calendar.
    pub open spec fn wf(self) -> bool {
        &&& self.sent.is_valid()
        &&& match self.referenced {
            Some(referenced) => referenced.sent.is_valid() && match referenced.edited {
                Some(edited) => edited.is_valid(),
                None => true,
            },
            None => true,
        }
    }

    /// The message whose text describes the event: the one replied to where
    /// there is one, else the message itself.
    pub open spec fn source(self) -> Source {
        match self.referenced {
            Some(_) => Source::Referenced,
            None => Source::Message,
        }
    }

    /// The day against which the date code is resolved: the day the source
    /// was last edited, or else the day it was sent.
    pub open spec fn reference(self) -> Date {
        match self.referenced {
            Some(referenced) => match referenced.edited {
                Some(edited) => edited,
                None => referenced.sent,
            },
            None => self.sent,
        }
    }
}

impl Stage {
    /// Whether the reference date kept in the stage is a day of the calendar.
    pub open spec fn wf(self) -> bool {
        match self {
            Stage::Authorizing { source, reference } => reference.is_valid(),
            Stage::Waiting { reference } => reference.is_valid(),
            Stage::Done => true,
        }
    }
}

impl Action {
    /// The words that go with the action, where it is one that answers.
    pub open spec fn words(self) -> Option<Seq<char>> {
        match self {
            Action::RefuseNonAdmin => Some("Sorry! Only admins can use this bot."@),
            Action::Apologize(Error::ParseFailure) => Some(
                "Sorry! I couldn't parse that message."@,
            ),
            Action::Apologize(Error::NoResponse) => Some(
                "Sorry! The LLM didn't respond. Try again later."@,
            ),
            _ => None,
        }
    }

    /// The words that go with the action, where it is one that answers.
    pub fn text(&self) -> (r: Option<String>)
        ensures
            match r {
                Some(text) => self.words() == Some(text@),
                None => self.words() is None,
            },
    {
        match self {
            Action::RefuseNonAdmin => Some(
                String::from_str("Sorry! Only admins can use this bot."),
            ),
            Action::Apologize(Error::ParseFailure) => Some(
                String::from_str("Sorry! I couldn't parse that message."),
            ),
            Action::Apologize(Error::NoResponse) => Some(
                String::from_str("Sorry! The LLM didn't respond. Try again later."),
            ),
            _ => None,
        }
    }
}

/// Whether stage and action are what the reply of the completion service
/// leads to for a message that waits with the reference date `reference`:
/// the calendar that the reply comes to is delivered, and a failure is
/// apologized for.
pub open spec fn concludes(
    reply: Option<Seq<char>>,
    document: Option<Map<Seq<char>, Option<Seq<char>>>>,
    reference: Date,
    stage: Stage,
    action: Action,
) -> bool {
    &&& stage == Stage::Done
    &&& match action {
        Action::Deliver(calendar) => interprets(reply, document, reference, Ok(calendar)),
        Action::Apologize(e) => interprets(reply, document, reference, Err(e)),
        _ => false,
    }
}

impl Handler {
    /// A message has arrived. One that the bot wrote itself, or that does
    /// not mention the bot, is passed over; for any other the author's
    /// permissions are looked up next.
    pub fn message(&self, incoming: &Incoming) -> (r: (Stage, Action))
        ensures
            r == if incoming.from_bot || !incoming.mentions_bot {
                (Stage::Done, Action::Nothing)
            } else {
                (
                    Stage::Authorizing {
                        source: incoming.source(),
                        reference: incoming.reference(),
                    },
                    Action::FetchPermissions,
                )
            },
            incoming.wf() ==> r.0.wf(),
    {
        if incoming.from_bot || !incoming.mentions_bot {
            return (Stage::Done, Action::Nothing);
        }
        let (source, reference) = match incoming.referenced {
            Some(referenced) => (
                Source::Referenced,
                match referenced.edited {
                    Some(edited) => edited,
                    None => referenced.sent,
                },
            ),
            None => (Source::Message, incoming.sent),
        };
        (Stage::Authorizing { source, reference }, Action::FetchPermissions)
    }

    /// The author's permissions are known. An administrator has the
    /// completion service asked; anyone else is refused. In another stage
    /// than [`Stage::Authorizing`] nothing happens.
    pub fn permissions(&self, stage: Stage, administrator: bool) -> (r: (Stage, Action))
        ensures
            r == match stage {
                Stage::Authorizing { source, reference } => if administrator {
                    (Stage::Waiting { reference }, Action::Complete { source })
                } else {
                    (Stage::Done, Action::RefuseNonAdmin)
                },
                _ => (stage, Action::Nothing),
            },
            stage.wf() ==> r.0.wf(),
    {
        match stage {
            Stage::Authorizing { source, reference } => {
                if administrator {
                    (Stage::Waiting { reference }, Action::Complete { source })
                } else {
                    (Stage::Done, Action::RefuseNonAdmin)
                }
            },
            _ => (stage, Action::Nothing),
        }
    }

    /// The completion service has replied, or has returned no candidate
    /// (`None`). In another stage than [`Stage::Waiting`] nothing happens.
    pub fn reply(&self, stage: Stage, reply: Option<&str>) -> (r: (Stage, Action))
        requires
            stage.wf(),
        ensures
            match stage {
                Stage::Waiting { reference } => concludes(
                    match reply {
                        Some(text) => Some(text@),
                        None => None,
                    },
                    match reply {
                        Some(text) => toml_document(text@),
                        None => None,
                    },
                    reference,
                    r.0,
                    r.1,
                ),
                _ => r == (stage, Action::Nothing),
            },
            r.1 matches Action::Deliver(calendar) ==> calendar.wf(),
    {
        match stage {
            Stage::Waiting { reference } => {
                match parse_msg(reply, &reference) {
                    Ok(calendar) => (Stage::Done, Action::Deliver(calendar)),
                    Err(e) => (Stage::Done, Action::Apologize(e)),
                }
            },
            _ => (stage, Action::Nothing),
        }
    }
}

} // verus!
