use calbot::error::Error;
use calbot::text::{char_is_whitespace, chars_of, string_of, to_ascii_lower, to_ascii_upper, to_digit};
use calbot::time::TimeOfDay;
use calbot::title::normalize_title;

#[test]
fn time_codes_are_four_digits() {
    assert_eq!(TimeOfDay::decode("1700"), Ok(TimeOfDay { hour: 17, minute: 0 }));
    assert_eq!(TimeOfDay::decode("0000"), Ok(TimeOfDay { hour: 0, minute: 0 }));
    assert_eq!(TimeOfDay::decode("2359"), Ok(TimeOfDay { hour: 23, minute: 59 }));
    assert_eq!(TimeOfDay::decode("1130"), Ok(TimeOfDay { hour: 11, minute: 30 }));
    assert_eq!(TimeOfDay::decode("1445"), Ok(TimeOfDay { hour: 14, minute: 45 }));
    assert_eq!(TimeOfDay::decode("0905"), Ok(TimeOfDay { hour: 9, minute: 5 }));
}

#[test]
fn minute_61_is_a_parse_failure() {
    assert_eq!(TimeOfDay::decode("2561"), Err(Error::ParseFailure));
    assert_eq!(TimeOfDay::decode("1261"), Err(Error::ParseFailure));
}

#[test]
fn other_time_codes_are_parse_failures() {
    let malformed = [
        "", "1", "17", "170", "17000", "2400", "2360", "1760", "9999", "17:00", "5pm", "17a0",
        "-100", "+100", " 170", "170 ", "1 00", "１７００", "17.0",
    ];
    for code in malformed {
        assert_eq!(TimeOfDay::decode(code), Err(Error::ParseFailure), "{code:?}");
    }
}

#[test]
fn titles_get_a_capital_on_every_word() {
    assert_eq!(normalize_title("acm club meeting"), "Acm Club Meeting");
    assert_eq!(normalize_title("x"), "X");
    assert_eq!(normalize_title("Already Fine"), "Already Fine");
}

#[test]
fn the_rest_of_a_word_is_left_as_it_is() {
    assert_eq!(normalize_title("aCM cLUB"), "ACM CLUB");
    assert_eq!(normalize_title("iOS meetup"), "IOS Meetup");
    assert_eq!(normalize_title("3d printing"), "3d Printing");
    assert_eq!(normalize_title("émile zola"), "émile Zola");
    assert_eq!(normalize_title("(acm)"), "(acm)");
}

#[test]
fn white_space_becomes_single_spaces() {
    assert_eq!(normalize_title("  acm   club\tmeeting\n"), "Acm Club Meeting");
    assert_eq!(normalize_title("acm\u{00A0}club\u{3000}night"), "Acm Club Night");
    assert_eq!(normalize_title("a\u{2003}b\u{2028}c\u{0085}d"), "A B C D");
    assert_eq!(normalize_title("zero\u{200B}width"), "Zero\u{200B}width");
    assert_eq!(normalize_title(" "), "");
    assert_eq!(normalize_title(" \t\r\n"), "");
}

#[test]
fn titles_split_as_std_splits_them() {
    let titles = [
        "acm club meeting", "  lead and trail  ", "tabs\tand\nlines", "a", "ünïcödé wörds",
        "\u{1680}ogham\u{180E}mark", "mixed \u{2000}\u{200A}\u{202F}\u{205F} spaces",
        "\u{000B}vertical\u{000C}feed", "\u{001C}not\u{001F}space",
    ];
    for title in titles {
        let expected = title
            .split_whitespace()
            .map(|word| {
                let mut chars = word.chars();
                let first = chars.next().unwrap().to_ascii_uppercase();
                format!("{}{}", first, chars.as_str())
            })
            .collect::<Vec<String>>()
            .join(" ");
        assert_eq!(normalize_title(title), expected, "{title:?}");
    }
}

#[test]
fn normalizing_twice_changes_nothing() {
    let titles = [
        "acm club meeting", "  lead and trail  ", "aCM cLUB", "émile zola", "a\u{2003}b", "x",
        "Acm Club Meeting", "1 2 3",
    ];
    for title in titles {
        let once = normalize_title(title);
        assert_eq!(normalize_title(&once), once, "{title:?}");
    }
}

#[test]
fn characters_go_in_and_out_of_strings() {
    assert_eq!(chars_of("héllo"), vec!['h', 'é', 'l', 'l', 'o']);
    assert_eq!(chars_of(""), Vec::<char>::new());
    assert_eq!(string_of(&vec!['h', 'é', 'l', 'l', 'o']), "héllo");
    assert_eq!(string_of(&Vec::new()), "");
}

#[test]
fn character_classes_agree_with_std() {
    for code in 0..0x11_0000u32 {
        if let Some(c) = char::from_u32(code) {
            assert_eq!(char_is_whitespace(c), c.is_whitespace(), "{code:#x}");
            assert_eq!(to_ascii_upper(c), c.to_ascii_uppercase(), "{code:#x}");
            assert_eq!(to_ascii_lower(c), c.to_ascii_lowercase(), "{code:#x}");
            assert_eq!(to_digit(c), if c.is_ascii_digit() { c.to_digit(10) } else { None });
        }
    }
}
