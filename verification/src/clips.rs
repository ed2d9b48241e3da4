use vstd::prelude::*;
use vstd::string::*;

verus! {

broadcast use vstd::string::group_string_axioms;

/// The width of a time bucket of chat activity, in milliseconds.
pub const TIME_BUCKET_SIZE_MS: i64 = 5_000i64;

/// How much video is kept before and after a highlight, in milliseconds.
pub const VIDEO_TIME_BUFFER: i64 = 10_000i64;

/// `a / b` with the quotient rounded toward zero, as Rust divides integers.
pub open spec fn div_toward_zero(a: int, b: int) -> int {
    if a >= 0 {
        a / b
    } else {
        -((-a) / b)
    }
}

/// The start of the time bucket that holds `timestamp_ms`: the timestamp
/// rounded toward zero to a multiple of [`TIME_BUCKET_SIZE_MS`].
pub open spec fn bucket_start(timestamp_ms: int) -> int {
    div_toward_zero(timestamp_ms, 5_000) * 5_000
}

/// Computes [`bucket_start`], the key under which a message is counted.
pub fn bucket_key(timestamp_ms: i64) -> (key: i64)
    ensures
        key == bucket_start(timestamp_ms as int),
        key % 5_000 == 0,
        timestamp_ms >= 0 ==> 0 <= timestamp_ms - key < 5_000,
        timestamp_ms < 0 ==> -5_000 < timestamp_ms - key <= 0,
{
    proof {
        law_bucket_start_on_the_grid(timestamp_ms as int);
    }
    timestamp_ms - (timestamp_ms % TIME_BUCKET_SIZE_MS)
}

/// Converts milliseconds to seconds, rounding toward zero.
pub fn ms_to_s(ms: i64) -> (s: i64)
    ensures
        s == div_toward_zero(ms as int, 1000),
{
    ms / 1000
}

/// The part of a video to download for a clip from `start_time` to
/// `end_time` (milliseconds into the video): it starts [`VIDEO_TIME_BUFFER`]
/// before the clip, but not before the video, and ends that long after it;
/// both ends are in whole seconds, and the second value is the length.
pub fn clip_download_window(start_time: i64, end_time: i64) -> (window: (i64, i64))
    requires
        start_time >= i64::MIN + 10_000,
        end_time <= i64::MAX - 10_000,
    ensures
        window.0 == div_toward_zero(
            if start_time - 10_000 > 0 {
                start_time - 10_000
            } else {
                0
            },
            1000,
        ),
        window.1 == div_toward_zero(end_time + 10_000, 1000) - window.0,
{
    let from = if start_time - VIDEO_TIME_BUFFER > 0 {
        start_time - VIDEO_TIME_BUFFER
    } else {
        0
    };
    let start = ms_to_s(from);
    let duration = ms_to_s(end_time + VIDEO_TIME_BUFFER) - start;
    (start, duration)
}

/// The URL of a video on Twitch.
pub open spec fn platform_url(vod_id: Seq<char>) -> Seq<char> {
    "https://twitch.tv/videos/"@ + vod_id
}

/// Builds [`platform_url`] for a video id.
pub fn get_platform_url(vod_id: &str) -> (url: String)
    ensures
        url@ == platform_url(vod_id@),
{
    let mut url = String::from_str("https://twitch.tv/videos/");
    url.append(vod_id);
    url
}

/// The bucket that uploaded clips are stored in.
pub open spec fn s3_bucket_name() -> Seq<char> {
    "twitch-highlight-finder-clips"@
}

/// The public URL of an uploaded clip.
pub open spec fn clip_url(clip_id: Seq<char>) -> Seq<char> {
    "https://"@ + s3_bucket_name() + ".s3.eu-central-1.amazonaws.com/"@ + clip_id + ".mp4"@
}

/// Builds [`clip_url`] for a clip id.
pub fn clip_video_url(clip_id: &str) -> (url: String)
    ensures
        url@ == clip_url(clip_id@),
{
    let mut url = String::from_str("https://");
    url.append("twitch-highlight-finder-clips");
    url.append(".s3.eu-central-1.amazonaws.com/");
    url.append(clip_id);
    url.append(".mp4");
    url
}

// ---------------------------------------------------------------------------
// Clips from outlier buckets
// ---------------------------------------------------------------------------

/// A highlight of a video that waits to be cut.
pub struct PartialClip {
    pub user_id: String,
    pub vod_id: String,
    pub state: String,
    /// Milliseconds into the video.
    pub start_time: i64,
    /// Milliseconds into the video.
    pub end_time: i64,
}

/// A recorded broadcast, with its times in milliseconds since the Unix epoch.
pub struct TwitchVodModel {
    /// The bytes of the database id.
    pub id: [u8; 12],
    pub vod_id: String,
    pub stream_id: String,
    pub user_id: String,
    pub channel_name: String,
    pub language: String,
    pub title: String,
    pub url: String,
    pub streamed_at: i64,
    pub ended_at: i64,
    pub video_duration: u32,
    pub analyzed: bool,
}

/// `t` is one of the timestamps.
pub open spec fn has_time(s: Seq<i64>, t: int) -> bool {
    exists|k: int| 0 <= k < s.len() && s[k] as int == t
}

/// The timestamps are a set listed in increasing order.
pub open spec fn strictly_increasing(s: Seq<i64>) -> bool {
    forall|i: int, j: int| 0 <= i < j < s.len() ==> s[i] < s[j]
}

/// `a` begins a highlight: it is a timestamp and the bucket before it is not.
pub open spec fn is_run_start(s: Seq<i64>, a: int) -> bool {
    has_time(s, a) && !has_time(s, a - 5_000)
}

/// From `a` to `b` every bucket is a timestamp, and the bucket after `b` is not.
pub open spec fn is_run(s: Seq<i64>, a: int, b: int) -> bool {
    &&& a <= b
    &&& (b - a) % 5_000 == 0
    &&& forall|t: int| a <= t <= b && (t - a) % 5_000 == 0 ==> has_time(s, t)
    &&& !has_time(s, b + 5_000)
}

/// What [`create_clips`] may be handed: a set of bucket starts whose next
/// buckets and whose offsets into the video can be computed.
pub open spec fn clip_times_fit(s: Seq<i64>, streamed_at: i64) -> bool {
    &&& strictly_increasing(s)
    &&& forall|k: int|
        0 <= k < s.len() ==> {
            &&& #[trigger] s[k] <= i64::MAX - 5_000
            &&& i64::MIN <= s[k] - streamed_at <= i64::MAX
        }
}

fn contains_time(s: &Vec<i64>, t: i64) -> (b: bool)
    ensures
        b == has_time(s@, t as int),
{
    let mut i: usize = 0;
    while i < s.len()
        invariant
            i <= s.len(),
            forall|k: int| 0 <= k < i ==> s@[k] != t,
        decreases s.len() - i,
    {
        if s[i] == t {
            return true;
        }
        i = i + 1;
    }
    false
}

proof fn lemma_has_time_bounded(s: Seq<i64>, t: int)
    requires
        strictly_increasing(s),
        has_time(s, t),
    ensures
        s.len() > 0,
        t <= s[s.len() - 1],
{
    let k = choose|k: int| 0 <= k < s.len() && s[k] as int == t;
    if k < s.len() - 1 {
        assert(s[k] < s[s.len() - 1]);
    }
}

/// `clips` are the clips of the outlier buckets `s` of a broadcast that
/// started at `streamed_at`: each is a pending clip of the broadcast from the
/// first to the last bucket of a run (in milliseconds into the video), they
/// come in the order of their starts, and every run has one.
pub open spec fn are_clips_of(
    s: Seq<i64>,
    streamed_at: i64,
    user_id: Seq<char>,
    vod_id: Seq<char>,
    clips: Seq<PartialClip>,
) -> bool {
    &&& forall|i: int|
        #![trigger clips[i]]
        0 <= i < clips.len() ==> {
            let a = clips[i].start_time + streamed_at;
            let b = clips[i].end_time + streamed_at;
            &&& is_run_start(s, a)
            &&& is_run(s, a, b)
            &&& clips[i].user_id@ == user_id
            &&& clips[i].vod_id@ == vod_id
            &&& clips[i].state@ == "pending"@
        }
    &&& forall|i: int, j: int|
        0 <= i < j < clips.len() ==> clips[i].start_time < clips[j].start_time
    &&& forall|a: int|
        is_run_start(s, a) ==> exists|i: int|
            0 <= i < clips.len() && clips[i].start_time + streamed_at == a
}

/// Turns the outlier buckets of a broadcast into clips: each run of
/// buckets that follow one another ([`TIME_BUCKET_SIZE_MS`] apart) becomes
/// one pending clip from the run's first to its last bucket, in
/// milliseconds into the video; the clips come in the order of their starts.
pub fn create_clips(timestamps: Vec<i64>, vod: &TwitchVodModel) -> (clips: Vec<PartialClip>)
    requires
        clip_times_fit(timestamps@, vod.streamed_at),
    ensures
        are_clips_of(timestamps@, vod.streamed_at, vod.user_id@, vod.vod_id@, clips@),
{
    let s = &timestamps;
    let n = s.len();
    let streamed_at = vod.streamed_at;
    let mut clips: Vec<PartialClip> = Vec::new();
    let ghost mut idx: Seq<int> = Seq::empty();
    let mut i: usize = 0;
    while i < n
        invariant
            i <= n,
            n == s@.len(),
            streamed_at == vod.streamed_at,
            clip_times_fit(s@, streamed_at),
            idx.len() == clips.len(),
            forall|j: int| 0 <= j < idx.len() ==> 0 <= #[trigger] idx[j] < i,
            forall|j1: int, j2: int| 0 <= j1 < j2 < idx.len() ==> idx[j1] < idx[j2],
            forall|j: int|
                #![trigger clips[j]]
                0 <= j < clips.len() ==> {
                    let a = clips[j].start_time + streamed_at;
                    let b = clips[j].end_time + streamed_at;
                    &&& a == s@[idx[j]]
                    &&& is_run_start(s@, a)
                    &&& is_run(s@, a, b)
                    &&& clips[j].user_id@ == vod.user_id@
                    &&& clips[j].vod_id@ == vod.vod_id@
                    &&& clips[j].state@ == "pending"@
                },
            forall|k: int|
                0 <= k < i && is_run_start(s@, s@[k] as int) ==> exists|j: int|
                    0 <= j < idx.len() && idx[j] == k,
        decreases n - i,
    {
        let x = s[i];
        assert(s@[i as int] <= i64::MAX - 5_000 && i64::MIN <= s@[i as int] - streamed_at);
        let ghost old_idx = idx;
        let starts_run = if x < i64::MIN + TIME_BUCKET_SIZE_MS {
            true
        } else {
            !contains_time(s, x - TIME_BUCKET_SIZE_MS)
        };
        assert(has_time(s@, x as int));
        if starts_run {
            let mut e = x;
            while contains_time(s, e + TIME_BUCKET_SIZE_MS)
                invariant
                    n == s@.len(),
                    clip_times_fit(s@, streamed_at),
                    x <= e,
                    has_time(s@, e as int),
                    (e - x) % 5_000 == 0,
                    forall|t: int| x <= t <= e && (t - x) % 5_000 == 0 ==> has_time(s@, t),
                decreases s@[s@.len() - 1] - e,
            {
                proof {
                    lemma_has_time_bounded(s@, e as int);
                    let k = choose|k: int| 0 <= k < s@.len() && s@[k] as int == e;
                    assert(s@[k] <= i64::MAX - 5_000);
                }
                e = e + TIME_BUCKET_SIZE_MS;
                proof {
                    lemma_has_time_bounded(s@, e as int);
                }
            }
            proof {
                let k = choose|k: int| 0 <= k < s@.len() && s@[k] as int == e;
                assert(i64::MIN <= s@[k] - streamed_at <= i64::MAX);
            }
            let clip = PartialClip {
                user_id: vod.user_id.clone(),
                vod_id: vod.vod_id.clone(),
                state: String::from_str("pending"),
                start_time: x - streamed_at,
                end_time: e - streamed_at,
            };
            clips.push(clip);
            proof {
                idx = idx.push(i as int);
            }
        }
        assert forall|k: int|
            0 <= k < i + 1 && is_run_start(s@, s@[k] as int) implies exists|j: int|
            0 <= j < idx.len() && idx[j] == k by {
            if k == i {
                assert(starts_run);
                assert(idx[idx.len() - 1] == k);
            } else {
                let j = choose|j: int| 0 <= j < old_idx.len() && old_idx[j] == k;
                assert(idx[j] == old_idx[j]);
            }
        }
        i = i + 1;
    }
    assert forall|i1: int, j1: int| 0 <= i1 < j1 < clips.len() implies clips[i1].start_time
        < clips[j1].start_time by {
        assert(idx[i1] < idx[j1]);
        assert(s@[idx[i1]] < s@[idx[j1]]);
    }
    assert forall|a: int| is_run_start(s@, a) implies exists|j: int|
        0 <= j < clips.len() && clips[j].start_time + streamed_at == a by {
        let k = choose|k: int| 0 <= k < s@.len() && s@[k] as int == a;
        let j = choose|j: int| 0 <= j < idx.len() && idx[j] == k;
        assert(clips[j].start_time + streamed_at == s@[idx[j]]);
    }
    clips
}

// ---------------------------------------------------------------------------
// Outlier buckets
// ---------------------------------------------------------------------------

/// The position of the bucket score at the 95th percentile among `count`
/// scores sorted in increasing order.
pub fn top_percentile_index(count: usize) -> (i: usize)
    requires
        count * 95 <= usize::MAX,
    ensures
        i == (count * 95) / 100,
        count > 0 ==> i < count,
{
    (count * 95) / 100
}

/// The score a bucket must exceed to be an outlier: twice the largest of the
/// 95th percentile score, the average score and the seconds in a bucket.
pub fn outlier_threshold(top_5_percentage: i64, average: i64) -> (min: i64)
    requires
        2 * vstd::math::max(top_5_percentage as int, vstd::math::max(average as int, 5))
            <= i64::MAX,
    ensures
        min == 2 * vstd::math::max(top_5_percentage as int, vstd::math::max(average as int, 5)),
{
    let base: i64 = TIME_BUCKET_SIZE_MS / 1000;
    let inner = if average > base {
        average
    } else {
        base
    };
    let larger = if top_5_percentage > inner {
        top_5_percentage
    } else {
        inner
    };
    larger * 2
}

// ---------------------------------------------------------------------------
// Laws
// ---------------------------------------------------------------------------

proof fn lemma_first_below(s: Seq<i64>, t: int)
    requires
        strictly_increasing(s),
        has_time(s, t),
    ensures
        s.len() > 0,
        s[0] <= t,
{
    let k = choose|k: int| 0 <= k < s.len() && s[k] as int == t;
    if k > 0 {
        assert(s[0] < s[k]);
    }
}

proof fn lemma_run_start_below(s: Seq<i64>, t: int) -> (a: int)
    requires
        strictly_increasing(s),
        has_time(s, t),
    ensures
        is_run_start(s, a),
        a <= t,
        (t - a) % 5_000 == 0,
        forall|u: int| a <= u <= t && (u - a) % 5_000 == 0 ==> has_time(s, u),
    decreases t - s[0],
{
    lemma_first_below(s, t);
    if !has_time(s, t - 5_000) {
        t
    } else {
        lemma_first_below(s, t - 5_000);
        let a = lemma_run_start_below(s, t - 5_000);
        assert forall|u: int| a <= u <= t && (u - a) % 5_000 == 0 implies has_time(s, u) by {
            if u > t - 5_000 {
                assert(u == t);
            }
        }
        a
    }
}

proof fn lemma_run_end_above(s: Seq<i64>, a: int, t: int) -> (b: int)
    requires
        strictly_increasing(s),
        a <= t,
        (t - a) % 5_000 == 0,
        forall|u: int| a <= u <= t && (u - a) % 5_000 == 0 ==> has_time(s, u),
    ensures
        is_run(s, a, b),
        t <= b,
    decreases s[s.len() - 1] - t,
{
    assert(has_time(s, t));
    lemma_has_time_bounded(s, t);
    if !has_time(s, t + 5_000) {
        t
    } else {
        lemma_has_time_bounded(s, t + 5_000);
        assert forall|u: int| a <= u <= t + 5_000 && (u - a) % 5_000 == 0 implies has_time(
            s,
            u,
        ) by {
            if u > t {
                assert(u == t + 5_000);
            }
        }
        lemma_run_end_above(s, a, t + 5_000)
    }
}

/// Every outlier bucket lies in a run of buckets that follow one another,
/// from the first bucket of its chain to the last. With [`create_clips`],
/// which makes one clip of each run start, every outlier bucket lies inside
/// a clip.
pub proof fn law_every_bucket_in_a_run(s: Seq<i64>, t: int) -> (run: (int, int))
    requires
        strictly_increasing(s),
        has_time(s, t),
    ensures
        is_run_start(s, run.0),
        is_run(s, run.0, run.1),
        run.0 <= t <= run.1,
        (t - run.0) % 5_000 == 0,
{
    let a = lemma_run_start_below(s, t);
    let b = lemma_run_end_above(s, a, t);
    (a, b)
}

/// The run from a start is unique: two runs from the same start end at the
/// same bucket.
pub proof fn law_run_end_unique(s: Seq<i64>, a: int, b1: int, b2: int)
    requires
        is_run(s, a, b1),
        is_run(s, a, b2),
    ensures
        b1 == b2,
{
    if b1 < b2 {
        assert(has_time(s, b1 + 5_000));
    }
    if b2 < b1 {
        assert(has_time(s, b2 + 5_000));
    }
}

/// Every outlier bucket lies inside one of the clips made of the buckets:
/// the one that starts where the bucket's run starts, and that ends where
/// the run ends.
pub proof fn law_clips_cover_buckets(
    s: Seq<i64>,
    streamed_at: i64,
    user_id: Seq<char>,
    vod_id: Seq<char>,
    clips: Seq<PartialClip>,
    t: int,
) -> (i: int)
    requires
        strictly_increasing(s),
        are_clips_of(s, streamed_at, user_id, vod_id, clips),
        has_time(s, t),
    ensures
        0 <= i < clips.len(),
        clips[i].start_time + streamed_at <= t <= clips[i].end_time + streamed_at,
        (t - (clips[i].start_time + streamed_at)) % 5_000 == 0,
{
    let (a, b) = law_every_bucket_in_a_run(s, t);
    let i = choose|i: int| 0 <= i < clips.len() && clips[i].start_time + streamed_at == a;
    let c = clips[i];
    assert(is_run(s, c.start_time + streamed_at, c.end_time + streamed_at));
    law_run_end_unique(s, a, b, c.end_time + streamed_at);
    i
}

/// A bucket start is its own bucket start.
pub proof fn law_bucket_start_idempotent(t: int)
    ensures
        bucket_start(bucket_start(t)) == bucket_start(t),
        t >= 0 ==> 0 <= t - bucket_start(t) < 5_000,
        t < 0 ==> -5_000 < t - bucket_start(t) <= 0,
{
    law_bucket_start_on_the_grid(t);
}

/// The bucket of a timestamp starts on the 5-second grid: its start is a
/// multiple of 5 000 ms, and it is the one grid point at most 5 000 ms before
/// the timestamp (after it, for a timestamp before the epoch), so two
/// timestamps share a bucket exactly when they lie between the same two grid
/// points.
pub proof fn law_bucket_start_on_the_grid(t: int)
    ensures
        bucket_start(t) % 5_000 == 0,
        t >= 0 ==> 0 <= t - bucket_start(t) < 5_000,
        t < 0 ==> -5_000 < t - bucket_start(t) <= 0,
        forall|k: int|
            #![trigger k * 5_000]
            t >= 0 && 0 <= t - k * 5_000 < 5_000 ==> bucket_start(t) == k * 5_000,
        forall|k: int|
            #![trigger k * 5_000]
            t < 0 && -5_000 < t - k * 5_000 <= 0 ==> bucket_start(t) == k * 5_000,
{
    let q = div_toward_zero(t, 5_000);
    if t >= 0 {
        assert(q == t / 5_000);
        assert(0 <= t - q * 5_000 < 5_000);
        assert(forall|k: int| #![trigger k * 5_000] 0 <= t - k * 5_000 < 5_000 ==> k == q)
            by (nonlinear_arith)
            requires
                0 <= t - q * 5_000 < 5_000,
        ;
    } else {
        assert(q == -((-t) / 5_000));
        assert(-5_000 < t - q * 5_000 <= 0);
        assert(forall|k: int| #![trigger k * 5_000] -5_000 < t - k * 5_000 <= 0 ==> k == q)
            by (nonlinear_arith)
            requires
                -5_000 < t - q * 5_000 <= 0,
        ;
    }
    assert((q * 5_000) % 5_000 == 0) by (nonlinear_arith);
}

} // verus!
