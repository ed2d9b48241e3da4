use twitch_highlights::parser::{
    is_collectable_message, is_parsable_message, parse_collected_message, parse_message,
};

#[test]
fn parse_message_reads_a_privmsg_line() {
    let parsed = parse_message(
        ":caveaio!caveaio@caveaio.tmi.twitch.tv PRIVMSG #hougesen :test".to_string(),
        42,
    )
    .unwrap();
    assert_eq!("hougesen", parsed.channel);
    assert_eq!("caveaio", parsed.sender);
    assert_eq!("test", parsed.message);
    assert_eq!(42, parsed.timestamp);
}

#[test]
fn parse_message_lowercases_and_trims() {
    let parsed = parse_message(
        "  :CaveAIO!x@y PRIVMSG #HOUGESEN :  Hello: World  \r\n".to_string(),
        7,
    )
    .unwrap();
    assert_eq!("hougesen", parsed.channel);
    assert_eq!("caveaio", parsed.sender);
    assert_eq!("Hello: World", parsed.message);
}

#[test]
fn parse_message_ignores_other_lines() {
    assert!(parse_message("PING :tmi.twitch.tv".to_string(), 0).is_none());
    assert!(parse_message(String::new(), 0).is_none());
}

#[test]
fn parsable_messages() {
    assert!(is_parsable_message("PING"));
    assert!(is_parsable_message(":a!b PRIVMSG #c :d"));
    assert!(!is_parsable_message("PRIVMSG without pieces"));
    assert!(!is_parsable_message(":a!b PRIVMSG c :d"));
}

#[test]
fn collector_keeps_sender_as_written() {
    let m = parse_collected_message(":CaveAIO!x@y PRIVMSG #Chan :hey ", 9).unwrap();
    assert_eq!("CaveAIO", m.sender);
    assert_eq!("chan", m.channel);
    assert_eq!("hey", m.message);
    assert_eq!(9, m.timestamp);
    assert!(parse_collected_message("JOIN #chan", 9).is_none());
    assert!(is_collectable_message("JOIN #chan"));
    assert!(!is_collectable_message("PRIVMSG"));
}

#[test]
fn built_lines_parse_back_into_their_parts() {
    let sender = "Viewer_1";
    let host = "viewer_1@viewer_1.tmi.twitch.tv";
    let channel = " Some_Channel ";
    let text = "  PogChamp: what a play  ";
    let line = format!(":{sender}!{host} PRIVMSG #{channel} :{text}");
    assert!(is_parsable_message(&line));
    let parsed = parse_message(line, 5).unwrap();
    assert_eq!("viewer_1", parsed.sender);
    assert_eq!("some_channel", parsed.channel);
    assert_eq!("PogChamp: what a play", parsed.message);
}
