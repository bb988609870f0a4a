use yammy_core::gui::choose_option;
use yammy_core::gui::choose_reply;
use yammy_core::gui::index_text;
use yammy_core::gui::prompt;
use yammy_core::gui::parse_index;
use yammy_core::gui::OptionReply;
use yammy_core::CMDGUI;

#[test]
fn replies_that_are_numbers() {
    assert_eq!(parse_index(b"0"), Some(0));
    assert_eq!(parse_index(b"7"), Some(7));
    assert_eq!(parse_index(b"42"), Some(42));
    assert_eq!(parse_index(b"+42"), Some(42));
    assert_eq!(parse_index(b"007"), Some(7));
    assert_eq!(parse_index(b"1234567890"), Some(1234567890));
    assert_eq!(
        parse_index(usize::MAX.to_string().as_bytes()),
        Some(usize::MAX)
    );
}

#[test]
fn replies_that_are_no_numbers() {
    assert_eq!(parse_index(b""), None);
    assert_eq!(parse_index(b"+"), None);
    assert_eq!(parse_index(b"-1"), None);
    assert_eq!(parse_index(b"++1"), None);
    assert_eq!(parse_index(b"1+"), None);
    assert_eq!(parse_index(b" 1"), None);
    assert_eq!(parse_index(b"1 "), None);
    assert_eq!(parse_index(b"1_000"), None);
    assert_eq!(parse_index(b"12a"), None);
    assert_eq!(parse_index(b"0x10"), None);
    assert_eq!(parse_index("١".as_bytes()), None);
    assert_eq!(parse_index(b"/"), None);
    assert_eq!(parse_index(b":"), None);
}

#[test]
fn replies_too_large_for_the_machine() {
    let max = usize::MAX.to_string();
    let mut bumped = max.clone().into_bytes();
    let last = bumped.len() - 1;
    assert!(bumped[last] < b'9');
    bumped[last] += 1;
    assert_eq!(parse_index(&bumped), None);
    assert_eq!(parse_index(format!("{}0", max).as_bytes()), None);
    assert_eq!(parse_index(format!("{}x", max).as_bytes()), None);
    assert_eq!(
        parse_index(b"99999999999999999999999999999999999999999"),
        None
    );
    assert_eq!(parse_index(format!("0{}", max).as_bytes()), Some(usize::MAX));
}

#[test]
fn parse_index_reads_as_the_standard_parser_does() {
    let replies = [
        "", "+", "-", "0", "+0", "-0", "9", "10", "+10", "a", "1a", "a1", "00", "18446744073709551615",
        "18446744073709551616", "4294967295", "4294967296", " 1", "1\n", "１",
    ];
    for reply in replies {
        assert_eq!(
            parse_index(reply.as_bytes()),
            usize::from_str_radix(reply, 10).ok(),
            "{:?}",
            reply
        );
    }
}

#[test]
fn a_reply_chooses_an_answer_by_its_place() {
    let answers = vec![
        (String::from("new"), String::from("Create a mod")),
        (String::from("open"), String::from("Open a mod")),
        (String::from("quit"), String::from("Leave")),
    ];
    assert_eq!(choose_option(&answers, b"0"), OptionReply::Chosen("new".into()));
    assert_eq!(choose_option(&answers, b"2"), OptionReply::Chosen("quit".into()));
    assert_eq!(choose_option(&answers, b"+1"), OptionReply::Chosen("open".into()));
    assert_eq!(choose_option(&answers, b"3"), OptionReply::TooBig);
    assert_eq!(choose_option(&answers, b"300"), OptionReply::TooBig);
    assert_eq!(choose_option(&answers, b"open"), OptionReply::Invalid);
    assert_eq!(choose_option(&answers, b""), OptionReply::Invalid);
    assert_eq!(choose_option(&answers, b"-1"), OptionReply::Invalid);
    assert_eq!(choose_option(&Vec::new(), b"0"), OptionReply::TooBig);
}

#[test]
fn the_console_keeps_the_name_of_the_game() {
    let mut gui = CMDGUI::init();
    assert!(gui.get_game_name().is_none());
    gui.set_game_name("Guardians".into());
    assert_eq!(gui.get_game_name(), Some(&String::from("Guardians")));
    gui.set_game_name("Ga'Hoole".into());
    assert_eq!(gui.get_game_name(), Some(&String::from("Ga'Hoole")));
}

#[test]
fn white_space_around_a_reply_does_not_count() {
    let answers = vec![
        (String::from("new"), String::from("Create a mod")),
        (String::from("open"), String::from("Open a mod")),
    ];
    assert_eq!(choose_reply(&answers, "1\n"), OptionReply::Chosen("open".into()));
    assert_eq!(choose_reply(&answers, "  0\r\n"), OptionReply::Chosen("new".into()));
    assert_eq!(choose_reply(&answers, "\t+1 "), OptionReply::Chosen("open".into()));
    assert_eq!(
        choose_reply(&answers, "\u{3000}0\u{2003}"),
        OptionReply::Chosen("new".into())
    );
    assert_eq!(choose_reply(&answers, "1"), OptionReply::Chosen("open".into()));
    assert_eq!(choose_reply(&answers, " 2 "), OptionReply::TooBig);
    assert_eq!(choose_reply(&answers, "1 0"), OptionReply::Invalid);
    assert_eq!(choose_reply(&answers, " \n"), OptionReply::Invalid);
    assert_eq!(choose_reply(&answers, ""), OptionReply::Invalid);
    assert_eq!(choose_option(&answers, b"1\n"), OptionReply::Invalid);
}

#[test]
fn numbers_in_decimal_digits() {
    assert_eq!(index_text(0), "0");
    assert_eq!(index_text(7), "7");
    assert_eq!(index_text(9), "9");
    assert_eq!(index_text(10), "10");
    assert_eq!(index_text(42), "42");
    assert_eq!(index_text(1234567890), "1234567890");
    assert_eq!(index_text(usize::MAX), usize::MAX.to_string());
    for n in [0usize, 1, 5, 10, 11, 99, 100, 101, 999, 1000, 65535, 65536] {
        assert_eq!(index_text(n), format!("{}", n));
        assert_eq!(parse_index(index_text(n).as_bytes()), Some(n));
    }
}

#[test]
fn the_prompt_shows_each_answer_with_its_place() {
    let answers = vec![
        (String::from("new"), String::from("Create a mod")),
        (String::from("open"), String::from("Open a mod")),
        (String::from("quit"), String::from("Leave")),
    ];
    assert_eq!(
        prompt("What now?", &answers),
        "What now?\n0: Create a mod\n1: Open a mod\n2: Leave"
    );
    assert_eq!(prompt("What now?", &Vec::new()), "What now?");
    assert_eq!(prompt("", &answers[..1].to_vec()), "\n0: Create a mod");
    let many: Vec<(String, String)> = (0..12)
        .map(|i| (format!("k{}", i), format!("v{}", i)))
        .collect();
    let text = prompt("q", &many);
    assert!(text.ends_with("\n9: v9\n10: v10\n11: v11"));
    assert!(text.starts_with("q\n0: v0\n1: v1"));
}
