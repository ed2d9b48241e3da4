use twitch_highlights::clips as highlights;
use twitch_highlights::clips::{
    bucket_key, clip_download_window, clip_video_url, get_platform_url, ms_to_s,
    outlier_threshold, top_percentile_index, TwitchVodModel,
};

fn vod(streamed_at: i64) -> TwitchVodModel {
    TwitchVodModel {
        id: [0; 12],
        vod_id: "v1".to_string(),
        stream_id: "s1".to_string(),
        user_id: "u1".to_string(),
        channel_name: "chan".to_string(),
        language: "en".to_string(),
        title: "title".to_string(),
        url: "https://twitch.tv/videos/v1".to_string(),
        streamed_at,
        ended_at: streamed_at + 3_600_000,
        video_duration: 3600,
        analyzed: false,
    }
}

#[test]
fn create_clips() {
    let v = vod(1_000_000);
    let clips = highlights::create_clips(vec![1_005_000, 1_010_000, 1_015_000, 1_030_000, 1_040_000, 1_045_000], &v);
    let spans: Vec<(i64, i64)> = clips.iter().map(|c| (c.start_time, c.end_time)).collect();
    assert_eq!(vec![(5_000, 15_000), (30_000, 30_000), (40_000, 45_000)], spans);
    for c in &clips {
        assert_eq!("u1", c.user_id);
        assert_eq!("v1", c.vod_id);
        assert_eq!("pending", c.state);
    }
    assert!(highlights::create_clips(Vec::new(), &v).is_empty());
}

#[test]
fn clips_link_only_buckets_one_step_apart() {
    let v = vod(0);
    let clips = highlights::create_clips(vec![0, 2_500, 5_000, 7_500, 20_000], &v);
    let spans: Vec<(i64, i64)> = clips.iter().map(|c| (c.start_time, c.end_time)).collect();
    assert_eq!(vec![(0, 5_000), (2_500, 7_500), (20_000, 20_000)], spans);
}

#[test]
fn bucket_keys_round_toward_zero() {
    assert_eq!(0, bucket_key(0));
    assert_eq!(0, bucket_key(4_999));
    assert_eq!(5_000, bucket_key(5_000));
    assert_eq!(5_000, bucket_key(5_001));
    assert_eq!(10_000, bucket_key(10_000));
    assert_eq!(10_000, bucket_key(10_001));
    assert_eq!(-5_000, bucket_key(-5_001));
    assert_eq!(0, bucket_key(-5));
}

#[test]
fn clip_windows() {
    assert_eq!(1, ms_to_s(1_999));
    assert_eq!(-1, ms_to_s(-1_999));
    assert_eq!((0, 25), clip_download_window(5_000, 15_000));
    assert_eq!((20, 30), clip_download_window(30_000, 40_000));
}

#[test]
fn outlier_helpers() {
    assert_eq!(0, top_percentile_index(1));
    assert_eq!(19, top_percentile_index(20));
    assert_eq!(95, top_percentile_index(100));
    assert_eq!(10, outlier_threshold(3, 4));
    assert_eq!(30, outlier_threshold(15, 4));
    assert_eq!(50, outlier_threshold(15, 25));
    assert_eq!(12, outlier_threshold(-7, 6));
    assert_eq!(10, outlier_threshold(-7, -100));
}

#[test]
fn urls_and_times() {
    assert_eq!("https://twitch.tv/videos/123", get_platform_url("123"));
    assert_eq!(
        "https://twitch-highlight-finder-clips.s3.eu-central-1.amazonaws.com/abc.mp4",
        clip_video_url("abc")
    );
}

#[test]
fn every_bucket_lies_inside_a_clip() {
    let v = vod(2_000_000);
    let buckets = vec![1_995_000, 2_000_000, 2_010_000, 2_015_000, 2_020_000, 2_100_000];
    let clips = highlights::create_clips(buckets.clone(), &v);
    assert_eq!(3, clips.len());
    for t in buckets {
        assert!(clips.iter().any(|c| c.start_time + 2_000_000 <= t && t <= c.end_time + 2_000_000));
    }
    assert_eq!((-5_000, 0), (clips[0].start_time, clips[0].end_time));
}
