use dashmap::DashMap;
use twitch_highlights::analysis::{
    analyze_chat_line, analyze_message, calculate_message_score, collect_emote_scores,
    emote_score_view, is_analyzable_message, is_scorable_line, tokenize_message,
};

#[test]
fn test_tokenize_message() {
    let emote_scores = DashMap::new();

    emote_scores.insert("Kappa".to_string(), 8u8);
    emote_scores.insert("PogChamp".to_string(), 10u8);

    let locked_map = emote_scores.into_read_only();

    // Should set non emotes to 0
    assert_eq!(
        vec![
            ("string".to_string(), 0),
            ("without".to_string(), 0),
            ("emote".to_string(), 0),
        ],
        tokenize_message("   string    without    emote   ", &locked_map)
    );

    // should ignore mentions (@)
    assert_eq!(
        vec![("hello".to_owned(), 0)],
        tokenize_message("@hougesen hello", &locked_map)
    );

    // should return score if word is an emote
    assert_eq!(
        vec![
            ("Kappa".to_string(), 8),
            ("Kappa".to_string(), 8),
            ("Kappa".to_string(), 8)
        ],
        tokenize_message("Kappa Kappa Kappa ", &locked_map)
    );

    assert_eq!(
        vec![("PogChamp".to_string(), 10), ("Kappa".to_string(), 8)],
        tokenize_message("PogChamp  Kappa ", &locked_map)
    );
}

#[test]
fn test_calculate_message_score() {
    assert_eq!(
        100,
        calculate_message_score(&vec![("without".to_string(), 0)])
    )
}

#[test]
fn message_score_takes_the_highest_token() {
    let tokens = vec![
        ("a".to_string(), 3u8),
        ("b".to_string(), 55u8),
        ("c".to_string(), 7u8),
    ];
    assert_eq!(155, calculate_message_score(&tokens));
    assert_eq!(100, calculate_message_score(&Vec::new()));
}

#[test]
fn tokenize_splits_on_unicode_whitespace() {
    let map = DashMap::new();
    map.insert("LUL".to_string(), 4u8);
    let view = map.into_read_only();
    assert_eq!(
        vec![("a".to_string(), 0), ("LUL".to_string(), 4), ("b".to_string(), 0)],
        tokenize_message("\ta\u{3000}LUL\r\n\u{a0}b", &view)
    );
    assert!(tokenize_message("", &view).is_empty());
    assert!(tokenize_message("   @x  @y ", &view).is_empty());
}

#[test]
fn emote_scores_keep_the_last_score_and_default_to_one() {
    let table = collect_emote_scores(vec![
        ("Kappa".to_string(), Some(3)),
        ("LUL".to_string(), None),
        ("Kappa".to_string(), Some(9)),
    ]);
    let view = table.into_read_only();
    assert_eq!(
        vec![
            ("Kappa".to_string(), 9),
            ("LUL".to_string(), 1),
            ("other".to_string(), 0)
        ],
        tokenize_message("Kappa LUL other", &view)
    );
}

#[test]
fn analyze_message_scores_by_best_emote() {
    let view = emote_score_view(vec![
        ("Kappa".to_string(), Some(8)),
        ("PogChamp".to_string(), Some(10)),
    ]);
    let analysed = analyze_message("gg PogChamp Kappa".to_string(), &view);
    assert_eq!("gg PogChamp Kappa", analysed.message);
    assert_eq!(110, analysed.message_score);
    assert_eq!(3, analysed.tokens.len());
}

#[test]
fn analyze_chat_line_parses_and_scores() {
    let view = emote_score_view(vec![("Kappa".to_string(), Some(8))]);
    let scored = analyze_chat_line(
        " :Caveaio!caveaio@caveaio.tmi.twitch.tv PRIVMSG #HouGesen :hi Kappa \r\n".to_string(),
        1234,
        &view,
    )
    .unwrap();
    assert_eq!("caveaio", scored.sender);
    assert_eq!("hougesen", scored.channel);
    assert_eq!("hi Kappa", scored.message);
    assert_eq!(1234, scored.timestamp);
    assert_eq!(108, scored.message_score);

    assert!(analyze_chat_line("PING :tmi.twitch.tv".to_string(), 1, &view).is_none());
}

#[test]
fn scorable_lines_are_told_apart() {
    let view = emote_score_view(vec![
        ("Kappa".to_string(), Some(8)),
        ("Huge".to_string(), Some(200)),
    ]);
    assert!(is_analyzable_message("hi Kappa", &view));
    assert!(!is_analyzable_message("hi Huge", &view));
    assert!(is_analyzable_message("", &view));

    assert!(is_scorable_line(":a!a@a PRIVMSG #b :hi Kappa", &view));
    assert!(!is_scorable_line(":a!a@a PRIVMSG #b :so Huge", &view));
    // a line that mentions PRIVMSG but lacks its pieces cannot be parsed
    assert!(!is_scorable_line("PRIVMSG without pieces", &view));
    // a line that is no chat message is simply skipped
    assert!(is_scorable_line("PING :tmi.twitch.tv", &view));
}
