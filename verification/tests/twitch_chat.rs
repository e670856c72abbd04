//! The chat of Twitch.
use accessible_obs::twitch_chat::{
    anonymous_nick, display_name_from_tags, greeting, handle_frame, nick_from_prefix, parse_line,
    random_greeting, unescape_tag, ChatMessage, Incoming, Reaction,
};


fn message(line: &str) -> ChatMessage {
    match parse_line(line) {
        Incoming::Message(m) => m,
        other => panic!("ожидалось сообщение, получено {other:?}"),
    }
}

#[test]
fn plain_message_is_parsed() {
    let m = message(":vasya!vasya@vasya.tmi.twitch.tv PRIVMSG #channel :привет всем");
    assert_eq!(m.author, "vasya");
    assert_eq!(m.text, "привет всем");
}

#[test]
fn display_name_wins_over_nick() {
    let m = message(
        "@display-name=Вася;mod=0 :vasya!vasya@vasya.tmi.twitch.tv PRIVMSG #channel :текст",
    );
    assert_eq!(m.author, "Вася");
}

#[test]
fn empty_display_name_falls_back_to_nick() {
    let m = message("@display-name= :vasya!vasya@vasya.tmi.twitch.tv PRIVMSG #ch :текст");
    assert_eq!(m.author, "vasya");
}

#[test]
fn escaped_characters_in_display_name_are_restored() {
    let m = message("@display-name=Иван\\sПетров :i!i@i.tmi.twitch.tv PRIVMSG #ch :ага");
    assert_eq!(m.author, "Иван Петров");
}

#[test]
fn colons_inside_text_survive() {
    let m = message(":a!a@a.tmi.twitch.tv PRIVMSG #ch :смотри: https://example.com в 12:30");
    assert_eq!(m.text, "смотри: https://example.com в 12:30");
}

#[test]
fn empty_text_is_still_a_message() {
    let m = message(":a!a@a.tmi.twitch.tv PRIVMSG #ch :");
    assert_eq!(m.text, "");
}

#[test]
fn ping_is_recognised_and_carries_its_token() {
    assert_eq!(
        parse_line("PING :tmi.twitch.tv"),
        Incoming::Ping(":tmi.twitch.tv".into())
    );
}

#[test]
fn service_lines_are_ignored() {
    for line in [
        ":tmi.twitch.tv 001 justinfan1 :Welcome, GLHF!",
        ":justinfan1!justinfan1@justinfan1.tmi.twitch.tv JOIN #channel",
        ":tmi.twitch.tv 353 justinfan1 = #channel :justinfan1",
        ":a!a@a.tmi.twitch.tv PART #channel",
        "",
        "мусор",
    ] {
        assert_eq!(parse_line(line), Incoming::Other, "строка: {line}");
    }
}

#[test]
fn malformed_lines_do_not_panic() {
    for line in ["@", "@tags", ":", ":only-prefix", "@t :p PRIVMSG", "PING"] {
        let _ = parse_line(line);
    }
}

#[test]
fn trailing_newlines_are_trimmed() {
    let m = message(":a!a@a.tmi.twitch.tv PRIVMSG #ch :текст\r\n");
    assert_eq!(m.text, "текст");
}

#[test]
fn spoken_form_names_the_author_first() {
    let m = ChatMessage {
        author: "Вася".into(),
        text: "привет".into(),
    };
    assert_eq!(m.spoken(), "Вася: привет");
}

#[test]
fn anonymous_nick_has_the_required_prefix() {
    for seed in [0, 1, 999_999] {
        let nick = anonymous_nick(seed);
        assert!(nick.starts_with("justinfan"), "{nick}");
        assert!(nick.len() > "justinfan".len());
    }
}

#[test]
fn guest_names_stay_within_five_digits() {
    assert_eq!(anonymous_nick(0), "justinfan10000");
    assert_eq!(anonymous_nick(79_999), "justinfan89999");
    assert_eq!(anonymous_nick(80_000), "justinfan10000");
}

#[test]
fn every_escape_of_a_tag_is_undone() {
    assert_eq!(unescape_tag(r"a\:b\sc\\d\re\nf"), "a;b c\\d\re\nf");
    assert_eq!(unescape_tag(r"x\qy"), "xqy");
    assert_eq!(unescape_tag("end\\"), "end");
}

#[test]
fn name_and_nick_are_found_where_they_stand() {
    assert_eq!(display_name_from_tags("mod=0;display-name=Вася;x=1").as_deref(), Some("Вася"));
    assert_eq!(display_name_from_tags("mod=0"), None);
    assert_eq!(nick_from_prefix("vasya!vasya@host"), "vasya");
    assert_eq!(nick_from_prefix("host"), "host");
}

#[test]
fn the_greeting_asks_for_tags_and_joins_in_lower_case() {
    let lines = greeting(5, "ВАСЯ_TV");
    assert_eq!(
        lines,
        vec![
            "PASS SCHMOOPIIE".to_string(),
            "NICK justinfan10005".to_string(),
            "CAP REQ :twitch.tv/tags twitch.tv/commands".to_string(),
            "JOIN #вася_tv".to_string(),
        ]
    );
}

#[test]
fn a_frame_of_several_lines_is_answered_line_by_line() {
    let reactions = handle_frame(
        "PING :tmi.twitch.tv\r\n:a!a@a.tmi.twitch.tv PRIVMSG #ch :привет\r\nмусор\r\n",
    );
    assert_eq!(reactions.len(), 2);
    assert_eq!(reactions[0], Reaction::Send("PONG :tmi.twitch.tv".into()));
    match &reactions[1] {
        Reaction::Publish(m) => assert_eq!(m.spoken(), "a: привет"),
        other => panic!("{other:?}"),
    }
}

#[test]
fn a_message_is_told_to_the_panel() {
    let m = ChatMessage {
        author: "Вася".into(),
        text: "привет".into(),
    };
    assert_eq!(
        m.event().to_text(),
        r#"{"author":"Вася","spoken":"Вася: привет","text":"привет","type":"chat"}"#
    );
}

#[test]
fn a_guest_has_a_random_number() {
    let lines = random_greeting("Vasya");
    assert_eq!(lines.len(), 4);
    assert!(lines[1].starts_with("NICK justinfan"), "{}", lines[1]);
    let number: u32 = lines[1]["NICK justinfan".len()..].parse().unwrap();
    assert!((10_000..90_000).contains(&number));
    assert_eq!(lines[3], "JOIN #vasya");
}

#[test]
fn a_message_is_kept_whole_behind_tags_and_before_line_ends() {
    let m = message("@a=1;display-name=Ли\\sНа :n!u@h PRIVMSG #a b :да: нет : x\r\n\n");
    assert_eq!(m.author, "Ли На");
    assert_eq!(m.text, "да: нет : x");
    let m = message("@display-name= :n!u PRIVMSG #c :\r\n");
    assert_eq!((m.author.as_str(), m.text.as_str()), ("n", ""));
}
