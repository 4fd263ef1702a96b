use calbot::date::Date;
use calbot::error::Error;
use calbot::handler::{Action, Handler, Incoming, Referenced, Source, Stage};

fn ymd(year: i32, month: u32, day: u32) -> Date {
    Date::from_ymd_opt(year, month, day).unwrap()
}

fn mention() -> Incoming {
    Incoming { from_bot: false, mentions_bot: true, sent: ymd(2025, 1, 28), referenced: None }
}

const REPLY: &str = "title = \"acm club meeting\"\ndate = \"_mon\"\nstarttime = \"1700\"\nendtime = \"1800\"\nlocation = \"OCNL 239\"\n";

#[test]
fn the_bots_own_messages_are_passed_over() {
    let incoming = Incoming { from_bot: true, ..mention() };
    assert_eq!(Handler.message(&incoming), (Stage::Done, Action::Nothing));
    let incoming = Incoming { from_bot: true, mentions_bot: false, ..mention() };
    assert_eq!(Handler.message(&incoming), (Stage::Done, Action::Nothing));
}

#[test]
fn messages_without_a_mention_are_passed_over() {
    let incoming = Incoming { mentions_bot: false, ..mention() };
    assert_eq!(Handler.message(&incoming), (Stage::Done, Action::Nothing));
}

#[test]
fn a_mention_has_permissions_looked_up() {
    assert_eq!(
        Handler.message(&mention()),
        (
            Stage::Authorizing { source: Source::Message, reference: ymd(2025, 1, 28) },
            Action::FetchPermissions
        )
    );
}

#[test]
fn a_reply_to_a_message_is_about_that_message() {
    let referenced = Referenced { sent: ymd(2025, 1, 20), edited: None };
    let incoming = Incoming { referenced: Some(referenced), ..mention() };
    assert_eq!(
        Handler.message(&incoming),
        (
            Stage::Authorizing { source: Source::Referenced, reference: ymd(2025, 1, 20) },
            Action::FetchPermissions
        )
    );
    let referenced = Referenced { sent: ymd(2025, 1, 20), edited: Some(ymd(2025, 1, 22)) };
    let incoming = Incoming { referenced: Some(referenced), ..mention() };
    assert_eq!(
        Handler.message(&incoming),
        (
            Stage::Authorizing { source: Source::Referenced, reference: ymd(2025, 1, 22) },
            Action::FetchPermissions
        )
    );
}

#[test]
fn only_administrators_are_served() {
    let stage = Stage::Authorizing { source: Source::Message, reference: ymd(2025, 1, 28) };
    assert_eq!(Handler.permissions(stage, false), (Stage::Done, Action::RefuseNonAdmin));
    assert_eq!(
        Handler.permissions(stage, true),
        (
            Stage::Waiting { reference: ymd(2025, 1, 28) },
            Action::Complete { source: Source::Message }
        )
    );
    let stage = Stage::Authorizing { source: Source::Referenced, reference: ymd(2025, 1, 22) };
    assert_eq!(
        Handler.permissions(stage, true),
        (
            Stage::Waiting { reference: ymd(2025, 1, 22) },
            Action::Complete { source: Source::Referenced }
        )
    );
}

#[test]
fn a_reply_is_delivered_as_a_calendar() {
    let stage = Stage::Waiting { reference: ymd(2025, 1, 28) };
    let (next, action) = Handler.reply(stage, Some(REPLY));
    assert_eq!(next, Stage::Done);
    match action {
        Action::Deliver(calendar) => {
            assert_eq!(calendar.events.len(), 1);
            assert_eq!(calendar.events[0].title, "Acm Club Meeting");
            assert_eq!(calendar.events[0].start.date, ymd(2025, 2, 3));
        }
        other => panic!("{:?}", other),
    }
}

#[test]
fn a_failure_is_apologized_for() {
    let stage = Stage::Waiting { reference: ymd(2025, 1, 28) };
    assert_eq!(
        Handler.reply(stage, Some("failed")),
        (Stage::Done, Action::Apologize(Error::ParseFailure))
    );
    assert_eq!(
        Handler.reply(stage, Some(&REPLY.replace("1700", "2561"))),
        (Stage::Done, Action::Apologize(Error::ParseFailure))
    );
    assert_eq!(Handler.reply(stage, None), (Stage::Done, Action::Apologize(Error::NoResponse)));
}

#[test]
fn what_comes_out_of_turn_changes_nothing() {
    let waiting = Stage::Waiting { reference: ymd(2025, 1, 28) };
    let authorizing = Stage::Authorizing { source: Source::Message, reference: ymd(2025, 1, 28) };
    assert_eq!(Handler.permissions(waiting, true), (waiting, Action::Nothing));
    assert_eq!(Handler.permissions(Stage::Done, true), (Stage::Done, Action::Nothing));
    assert_eq!(Handler.reply(authorizing, Some(REPLY)), (authorizing, Action::Nothing));
    assert_eq!(Handler.reply(Stage::Done, None), (Stage::Done, Action::Nothing));
}

#[test]
fn answers_have_their_words() {
    assert_eq!(
        Action::RefuseNonAdmin.text(),
        Some("Sorry! Only admins can use this bot.".to_string())
    );
    assert_eq!(
        Action::Apologize(Error::ParseFailure).text(),
        Some("Sorry! I couldn't parse that message.".to_string())
    );
    assert_eq!(
        Action::Apologize(Error::NoResponse).text(),
        Some("Sorry! The LLM didn't respond. Try again later.".to_string())
    );
    assert_eq!(Action::Nothing.text(), None);
    assert_eq!(Action::FetchPermissions.text(), None);
    assert_eq!(Action::Complete { source: Source::Message }.text(), None);
}
