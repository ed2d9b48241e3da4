use vstd::prelude::*;

use crate::twitch::TwitchGetVideosData;
use crate::video::{calculate_video_duration, checked_video_duration, duration_seconds};

verus! {

broadcast use vstd::string::group_string_axioms;

/// The instant that an RFC 3339 timestamp such as `"2023-01-31T18:00:12Z"`
/// names, in milliseconds since the Unix epoch, or `None` where the text is
/// no such timestamp.
pub uninterp spec fn rfc3339_millis(text: Seq<char>) -> Option<i64>;

/// Reads an RFC 3339 timestamp (`bson::DateTime::parse_rfc3339_str`, then
/// `timestamp_millis`).
#[verifier::external_body]
fn parse_rfc3339_millis(text: &str) -> (r: Option<i64>)
    ensures
        r == rfc3339_millis(text@),
{
    match mongodb::bson::DateTime::parse_rfc3339_str(text) {
        Ok(instant) => Some(instant.timestamp_millis()),
        Err(_) => None,
    }
}

/// A recorded broadcast found on Twitch, as it is stored for analysis; its
/// times are in milliseconds since the Unix epoch.
pub struct PartialTwitchVodModel {
    pub vod_id: String,
    pub stream_id: String,
    pub user_id: String,
    pub channel_name: String,
    pub language: String,
    pub title: String,
    pub url: String,
    pub streamed_at: i64,
    pub ended_at: i64,
    /// The length of the broadcast in seconds.
    pub video_duration: u32,
    pub analyzed: bool,
}

/// `v` is the record of `video`, a broadcast that started at `streamed_at`:
/// the video's fields, its length read from its duration text, its end that
/// many seconds after its start, and not analyzed yet.
pub open spec fn is_vod_record(
    v: PartialTwitchVodModel,
    video: TwitchGetVideosData,
    streamed_at: i64,
) -> bool {
    &&& v.vod_id@ == video.id@
    &&& v.stream_id@ == video.stream_id@
    &&& v.user_id@ == video.user_id@
    &&& v.channel_name@ == video.user_login@
    &&& v.language@ == video.language@
    &&& v.title@ == video.title@
    &&& v.url@ == video.url@
    &&& v.streamed_at == streamed_at
    &&& v.video_duration == duration_seconds(video.duration@)
    &&& v.ended_at == streamed_at + duration_seconds(video.duration@) * 1000
    &&& !v.analyzed
}

/// When a broadcast ended: its start plus its length in seconds.
pub fn vod_end_time(streamed_at: i64, video_duration: u32) -> (ended_at: i64)
    requires
        streamed_at + video_duration * 1000 <= i64::MAX,
    ensures
        ended_at == streamed_at + video_duration * 1000,
{
    streamed_at + (video_duration as i64) * 1000
}

/// The end of `video`, started at `streamed_at`, fits in an `i64` of
/// milliseconds.
pub open spec fn end_fits(video: TwitchGetVideosData, streamed_at: i64) -> bool {
    streamed_at + duration_seconds(video.duration@) * 1000 <= i64::MAX
}

/// The record of a video that started at `streamed_at`.
pub fn vod_record(video: TwitchGetVideosData, streamed_at: i64) -> (v: PartialTwitchVodModel)
    requires
        duration_seconds(video.duration@) <= u32::MAX,
        end_fits(video, streamed_at),
    ensures
        is_vod_record(v, video, streamed_at),
{
    let video_duration = calculate_video_duration(video.duration.as_str());
    let ended_at = vod_end_time(streamed_at, video_duration);
    PartialTwitchVodModel {
        vod_id: video.id,
        user_id: video.user_id,
        language: video.language,
        stream_id: video.stream_id,
        channel_name: video.user_login,
        title: video.title,
        url: video.url,
        streamed_at,
        ended_at,
        video_duration,
        analyzed: false,
    }
}

/// Why a video could not be recorded.
pub enum VodError {
    /// Its length in seconds does not fit in a `u32`.
    DurationTooLong,
    /// Its `created_at` is not an RFC 3339 timestamp.
    InvalidCreatedAt,
    /// Its end lies beyond the last instant an `i64` of milliseconds holds.
    EndTooLate,
}

/// The record of a video that the Twitch `videos` endpoint described: its
/// length is read from its duration text, its start from `created_at`, and
/// its end is that many seconds after its start. The checks come in that
/// order: a length that does not fit gives `DurationTooLong`, then a start
/// that does not read gives `InvalidCreatedAt`, then an end that does not
/// fit gives `EndTooLate`.
pub fn vod_from_video(video: TwitchGetVideosData) -> (r: Result<PartialTwitchVodModel, VodError>)
    ensures
        duration_seconds(video.duration@) > u32::MAX ==> r matches Err(VodError::DurationTooLong),
        duration_seconds(video.duration@) <= u32::MAX && rfc3339_millis(video.created_at@) is None
            ==> r matches Err(VodError::InvalidCreatedAt),
        duration_seconds(video.duration@) <= u32::MAX && rfc3339_millis(video.created_at@) is Some
            && !end_fits(video, rfc3339_millis(video.created_at@).unwrap()) ==> r matches Err(
            VodError::EndTooLate,
        ),
        duration_seconds(video.duration@) <= u32::MAX && rfc3339_millis(video.created_at@) is Some
            && end_fits(video, rfc3339_millis(video.created_at@).unwrap()) ==> (r matches Ok(v)
            && is_vod_record(v, video, rfc3339_millis(video.created_at@).unwrap())),
{
    let duration = match checked_video_duration(video.duration.as_str()) {
        Some(d) => d,
        None => return Err(VodError::DurationTooLong),
    };
    let streamed_at = match parse_rfc3339_millis(video.created_at.as_str()) {
        Some(t) => t,
        None => return Err(VodError::InvalidCreatedAt),
    };
    if streamed_at > i64::MAX - (duration as i64) * 1000 {
        return Err(VodError::EndTooLate);
    }
    Ok(vod_record(video, streamed_at))
}

} // verus!
