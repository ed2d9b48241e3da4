use twitch_highlights::video::{calculate_video_duration, checked_video_duration};

#[test]
fn test_calculalte_video_duration() {
    assert_eq!(0, calculate_video_duration("0s"));
    assert_eq!(5, calculate_video_duration("5s"));

    assert_eq!(15, calculate_video_duration("15s"));

    assert_eq!(59, calculate_video_duration("59s"));

    assert_eq!(60, calculate_video_duration("1m"));
    assert_eq!(60, calculate_video_duration("1m0s"));
    assert_eq!(60, calculate_video_duration("0h1m0s"));
    assert_eq!(84, calculate_video_duration("1m24s"));

    assert_eq!(3600, calculate_video_duration("1h"));
    assert_eq!(3600, calculate_video_duration("1h0m0s"));
    assert_eq!(7284, calculate_video_duration("2h1m24s"));

    assert_eq!(7284, calculate_video_duration("0d2h1m24s"));
    assert_eq!(86400, calculate_video_duration("1d0h0m0s"));
    assert_eq!(90000, calculate_video_duration("1d1h0m0s"));
    assert_eq!(90060, calculate_video_duration("1d1h1m0s"));
    assert_eq!(90061, calculate_video_duration("1d1h1m1s"));
}

#[test]
fn video_duration_edge_cases() {
    // a later letter replaces an earlier one, trailing digits are ignored
    assert_eq!(10, calculate_video_duration("5s10s"));
    assert_eq!(3, calculate_video_duration("3s99"));
    // an empty or too large amount counts 0, other characters end a run
    assert_eq!(0, calculate_video_duration("s"));
    assert_eq!(0, calculate_video_duration("99999999999s"));
    assert_eq!(121, calculate_video_duration("1x2m1s"));
    assert_eq!(0, calculate_video_duration(""));
}

#[test]
fn checked_duration_refuses_overflow() {
    assert_eq!(Some(90061), checked_video_duration("1d1h1m1s"));
    assert_eq!(Some(4294967295), checked_video_duration("4294967295s"));
    assert_eq!(None, checked_video_duration("4294967295s1m"));
    assert_eq!(None, checked_video_duration("49711d"));
    assert_eq!(Some(0), checked_video_duration(""));
}
