use calbot::date::Weekday;
use calbot::datecode::DateCode;
use calbot::error::Error;
use calbot::record::{declines, decode_record, record_from_entries, record_from_table, EventRecord};

const REPLY: &str = "title = \"acm club meeting\"\ndate = \"_mon\"\nstarttime = \"1700\"\nendtime = \"1800\"\nlocation = \"OCNL 239\"\n";

fn text(s: &str) -> Option<Option<String>> {
    Some(Some(s.to_string()))
}

fn meeting() -> EventRecord {
    EventRecord {
        title: "acm club meeting".to_string(),
        date: DateCode::NextWeekday(Weekday::Mon),
        starttime: "1700".to_string(),
        endtime: "1800".to_string(),
        location: "OCNL 239".to_string(),
        description: None,
    }
}

#[test]
fn a_reply_is_read_as_a_record() {
    assert_eq!(decode_record(REPLY), Ok(meeting()));
}

#[test]
fn a_description_is_kept() {
    let reply = format!("{}description = \"Bring a laptop\"\n", REPLY);
    let mut expected = meeting();
    expected.description = Some("Bring a laptop".to_string());
    assert_eq!(decode_record(&reply), Ok(expected));
}

#[test]
fn keys_may_come_in_any_order_and_others_are_passed_over() {
    let reply = "location = 'OCNL 239'\nendtime = '1800'\nconfidence = 0.9\nstarttime = '1700'\n\
                 date = '_mon'\ntitle = 'acm club meeting'\n[extra]\nnote = 'x'\n";
    assert_eq!(decode_record(reply), Ok(meeting()));
}

#[test]
fn an_empty_reply_declines() {
    assert!(declines(""));
    assert_eq!(decode_record(""), Err(Error::ParseFailure));
}

#[test]
fn a_reply_that_says_failed_declines() {
    for reply in ["failed", "FAILED", "Failed", "fAiLeD", "I failed to find an event", "xxfailedxx",
        "parse failed", "title = \"failed\"", "unfaileD"]
    {
        assert!(declines(reply), "{reply:?}");
        assert_eq!(decode_record(reply), Err(Error::ParseFailure), "{reply:?}");
    }
}

#[test]
fn a_record_that_says_failed_anywhere_is_no_record() {
    let reply = format!("{}description = \"The last one FAILED to start\"\n", REPLY);
    assert_eq!(decode_record(&reply), Err(Error::ParseFailure));
    let reply = REPLY.replace("OCNL 239", "Failed Hall");
    assert_eq!(decode_record(&reply), Err(Error::ParseFailure));
}

#[test]
fn other_replies_do_not_decline() {
    for reply in ["fail", "faile", "f a i l e d", "failure", "fai led", "ailed", REPLY, " ",
        "FAİLED", "fa\u{0131}led"]
    {
        assert!(!declines(reply), "{reply:?}");
    }
}

#[test]
fn what_is_no_toml_is_a_parse_failure() {
    for reply in ["69420", "The event is on Monday.", "title = ", "title = acm", "= 'x'",
        "title = 'a'\ntitle = 'b'", " ", "{\"title\": \"x\"}"]
    {
        assert_eq!(decode_record(reply), Err(Error::ParseFailure), "{reply:?}");
    }
}

#[test]
fn a_missing_entry_is_a_parse_failure() {
    for key in ["title", "date", "starttime", "endtime", "location"] {
        let reply: String = REPLY
            .lines()
            .filter(|line| !line.starts_with(key))
            .map(|line| format!("{}\n", line))
            .collect();
        assert_eq!(decode_record(&reply), Err(Error::ParseFailure), "{key}");
    }
}

#[test]
fn an_entry_that_is_no_string_is_a_parse_failure() {
    assert_eq!(decode_record(&REPLY.replace("\"1700\"", "1700")), Err(Error::ParseFailure));
    assert_eq!(decode_record(&REPLY.replace("\"1800\"", "18.00")), Err(Error::ParseFailure));
    assert_eq!(decode_record(&REPLY.replace("\"_mon\"", "2025-02-03")), Err(Error::ParseFailure));
    assert_eq!(decode_record(&REPLY.replace("\"OCNL 239\"", "true")), Err(Error::ParseFailure));
    assert_eq!(
        decode_record(&REPLY.replace("\"acm club meeting\"", "[\"acm\"]")),
        Err(Error::ParseFailure)
    );
    let reply = format!("{}description = 5\n", REPLY);
    assert_eq!(decode_record(&reply), Err(Error::ParseFailure));
}

#[test]
fn an_empty_title_is_a_parse_failure() {
    assert_eq!(
        decode_record(&REPLY.replace("acm club meeting", "")),
        Err(Error::ParseFailure)
    );
}

#[test]
fn an_empty_location_is_kept() {
    let mut expected = meeting();
    expected.location = String::new();
    assert_eq!(decode_record(&REPLY.replace("OCNL 239", "")), Ok(expected));
}

#[test]
fn a_malformed_date_code_is_a_parse_failure() {
    for code in ["monday", "_mond", "+", "x131", "0203", ""] {
        assert_eq!(
            decode_record(&REPLY.replace("_mon", code)),
            Err(Error::ParseFailure),
            "{code:?}"
        );
    }
}

#[test]
fn time_codes_are_not_read_yet() {
    let record = decode_record(&REPLY.replace("1700", "2561")).unwrap();
    assert_eq!(record.starttime, "2561");
}

#[test]
fn a_table_is_read_as_a_record() {
    let mut table = toml::Table::new();
    table.insert("title".to_string(), toml::Value::String("acm club meeting".to_string()));
    table.insert("date".to_string(), toml::Value::String("_mon".to_string()));
    table.insert("starttime".to_string(), toml::Value::String("1700".to_string()));
    table.insert("endtime".to_string(), toml::Value::String("1800".to_string()));
    assert_eq!(record_from_table(&table), Err(Error::ParseFailure));
    table.insert("location".to_string(), toml::Value::String("OCNL 239".to_string()));
    assert_eq!(record_from_table(&table), Ok(meeting()));
    table.insert("attendees".to_string(), toml::Value::Integer(12));
    assert_eq!(record_from_table(&table), Ok(meeting()));
    table.insert("description".to_string(), toml::Value::Boolean(false));
    assert_eq!(record_from_table(&table), Err(Error::ParseFailure));
    table.insert("description".to_string(), toml::Value::String("Pizza".to_string()));
    let mut expected = meeting();
    expected.description = Some("Pizza".to_string());
    assert_eq!(record_from_table(&table), Ok(expected));
    table.insert("endtime".to_string(), toml::Value::Integer(1800));
    assert_eq!(record_from_table(&table), Err(Error::ParseFailure));
}

#[test]
fn entries_make_up_a_record() {
    assert_eq!(
        record_from_entries(
            text("acm club meeting"),
            text("_mon"),
            text("1700"),
            text("1800"),
            text("OCNL 239"),
            None
        ),
        Ok(meeting())
    );
    let mut expected = meeting();
    expected.description = Some(String::new());
    expected.date = DateCode::AbsoluteMonthDay { month: 10, day: 31 };
    assert_eq!(
        record_from_entries(
            text("acm club meeting"),
            text("x1031"),
            text("1700"),
            text("1800"),
            text("OCNL 239"),
            text("")
        ),
        Ok(expected)
    );
}

#[test]
fn entries_that_make_up_no_record_are_parse_failures() {
    let good = || {
        [text("acm club meeting"), text("_mon"), text("1700"), text("1800"), text("OCNL 239"), None]
    };
    for at in 0..5 {
        for bad in [None, Some(None)] {
            let mut e = good();
            e[at] = bad;
            let [title, date, start, end, location, description] = e;
            assert_eq!(
                record_from_entries(title, date, start, end, location, description),
                Err(Error::ParseFailure)
            );
        }
    }
    let [title, date, start, end, location, _] = good();
    assert_eq!(
        record_from_entries(title, date, start, end, location, Some(None)),
        Err(Error::ParseFailure)
    );
    let [_, date, start, end, location, description] = good();
    assert_eq!(
        record_from_entries(text(""), date, start, end, location, description),
        Err(Error::ParseFailure)
    );
    let [title, _, start, end, location, description] = good();
    assert_eq!(
        record_from_entries(title, text("next monday"), start, end, location, description),
        Err(Error::ParseFailure)
    );
}
