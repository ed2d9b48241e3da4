use std::collections::HashMap;

use twitch_highlights::twitch::TwitchGetVideosData;
use twitch_highlights::vods::{vod_end_time, vod_from_video, vod_record, VodError};

fn video(created_at: &str, duration: &str) -> TwitchGetVideosData {
    TwitchGetVideosData {
        id: "1710843211".to_string(),
        stream_id: "40471313128".to_string(),
        user_id: "31239503".to_string(),
        user_login: "esl_csgo".to_string(),
        user_name: "ESL_CSGO".to_string(),
        title: "Final".to_string(),
        description: String::new(),
        created_at: created_at.to_string(),
        published_at: created_at.to_string(),
        url: "https://www.twitch.tv/videos/1710843211".to_string(),
        thumbnail_url: String::new(),
        viewable: "public".to_string(),
        view_count: 12,
        language: "en".to_string(),
        video_type: "archive".to_string(),
        duration: duration.to_string(),
        muted_segments: Some(vec![HashMap::from([("offset".to_string(), 30)])]),
    }
}

#[test]
fn vod_from_video_reads_start_and_length() {
    let vod = match vod_from_video(video("2023-01-31T18:00:12Z", "1h0m5s")) {
        Ok(v) => v,
        Err(_) => panic!("the video should be recorded"),
    };

    assert_eq!(1675188012000, vod.streamed_at);
    assert_eq!(3605, vod.video_duration);
    assert_eq!(1675188012000 + 3605000, vod.ended_at);
    assert_eq!("1710843211", vod.vod_id);
    assert_eq!("esl_csgo", vod.channel_name);
    assert_eq!("40471313128", vod.stream_id);
    assert_eq!("31239503", vod.user_id);
    assert_eq!("en", vod.language);
    assert_eq!("Final", vod.title);
    assert!(!vod.analyzed);
}

#[test]
fn vod_from_video_errors() {
    assert!(matches!(
        vod_from_video(video("yesterday", "1h")),
        Err(VodError::InvalidCreatedAt)
    ));
    // the length is checked before the start
    assert!(matches!(
        vod_from_video(video("yesterday", "49711d")),
        Err(VodError::DurationTooLong)
    ));
}

#[test]
fn vod_record_uses_the_given_start() {
    let vod = vod_record(video("ignored", "2m"), 1000);

    assert_eq!(1000, vod.streamed_at);
    assert_eq!(121000, vod.ended_at);
    assert_eq!(120, vod.video_duration);
}

#[test]
fn end_time_adds_the_length() {
    assert_eq!(1_000 + 7_284_000, vod_end_time(1_000, 7_284));
    assert_eq!(-5_000, vod_end_time(-5_000, 0));
}
