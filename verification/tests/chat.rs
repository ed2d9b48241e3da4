use twitch_highlights::chat::{
    chat_text_action, construct_join_message, construct_leave_message, dispose_queue_message,
    events_due, join_channels, login_messages, queued_chat_lines, should_save_batch,
    should_write_batch, ChatAction, Event, JoinedChannels,
};

fn event(kind: &str, username: &str) -> Event {
    Event { kind: kind.to_string(), username: username.to_string() }
}

#[test]
fn join_and_leave_lines() {
    assert_eq!("JOIN #hougesen", construct_join_message(" HouGesen "));
    assert_eq!("PART #esl_csgo", construct_leave_message("ESL_CSGO"));
}

#[test]
fn events_join_and_leave_channels() {
    let mut joined = JoinedChannels::new();
    assert!(join_channels(&mut joined, Vec::new()).is_empty());

    let lines = join_channels(
        &mut joined,
        vec![event("stream.online", "a"), event("stream.online", "B"), event("stream.online", "a")],
    );
    assert_eq!(vec!["JOIN #a", "JOIN #b", "JOIN #a"], lines);

    // an empty batch rejoins every channel, each once
    assert_eq!(vec!["JOIN #a", "JOIN #b"], join_channels(&mut joined, Vec::new()));

    let lines = join_channels(&mut joined, vec![event("stream.offline", "a")]);
    assert_eq!(vec!["PART #a"], lines);
    assert_eq!(vec!["JOIN #b"], join_channels(&mut joined, Vec::new()));

    // any kind other than stream.online leaves
    let lines = join_channels(&mut joined, vec![event("something", "B")]);
    assert_eq!(vec!["PART #b"], lines);
    assert!(join_channels(&mut joined, Vec::new()).is_empty());
}

#[test]
fn pings_are_answered() {
    assert!(matches!(chat_text_action("PING :tmi.twitch.tv"), ChatAction::SendPong));
    assert!(matches!(chat_text_action(":a!b PRIVMSG #c :hello"), ChatAction::Forward));
}

#[test]
fn chat_lines_are_split_and_filtered() {
    let text = "  :a!a@a PRIVMSG #c :one\r\n:tmi NOTICE x\r\n:b!b@b PRIVMSG #c :two\r\n ";
    assert_eq!(
        vec![":a!a@a PRIVMSG #c :one", ":b!b@b PRIVMSG #c :two"],
        queued_chat_lines(text)
    );
    assert!(queued_chat_lines("").is_empty());
    assert_eq!(vec!["x PRIVMSG\r"], queued_chat_lines("x PRIVMSG\r\r\ny"));
}

#[test]
fn small_decisions() {
    assert!(should_save_batch(1, 31));
    assert!(!should_save_batch(0, 31));
    assert!(!should_save_batch(5, 30));
    assert!(events_due(31));
    assert!(!events_due(30));
    assert!(should_write_batch(101));
    assert!(!should_write_batch(100));
    let d = dispose_queue_message(true, false);
    assert!(d.keep && !d.acknowledge);
    let d = dispose_queue_message(false, false);
    assert!(!d.keep && d.acknowledge);
    let d = dispose_queue_message(true, true);
    assert!(d.keep && d.acknowledge);
    let (pass, nick) = login_messages("tok", "bot");
    assert_eq!("PASS oauth:tok", pass);
    assert_eq!("NICK bot", nick);
}
