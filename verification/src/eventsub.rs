use vstd::prelude::*;
use vstd::string::*;

verus! {

broadcast use vstd::string::group_string_axioms;

/// Whose events a subscription is for.
pub struct Condition {
    pub broadcaster_user_id: String,
}

impl Condition {
    /// The condition for one broadcaster.
    pub fn new(broadcaster_user_id: &str) -> (c: Self)
        ensures
            c.broadcaster_user_id@ == broadcaster_user_id@,
    {
        Condition { broadcaster_user_id: String::from_str(broadcaster_user_id) }
    }
}

/// How Twitch delivers the events of a subscription.
pub struct Transport {
    pub method: String,
    pub callback: String,
    pub secret: String,
}

impl Transport {
    /// Delivery by webhook to `callback`, signed with `secret`.
    pub fn new(callback: &str, secret: &str) -> (t: Self)
        ensures
            t.method@ == "webhook"@,
            t.callback@ == callback@,
            t.secret@ == secret@,
    {
        Transport {
            method: String::from_str("webhook"),
            callback: String::from_str(callback),
            secret: String::from_str(secret),
        }
    }
}

/// The body of an EventSub subscription request.
pub struct TwitchEventSubBody {
    /// The subscription type (`type` in the request).
    pub event_type: String,
    pub version: String,
    pub condition: Condition,
    pub transport: Transport,
}

/// `b` subscribes to events of kind `kind` of `channel`, delivered by webhook.
pub open spec fn is_subscription(
    b: TwitchEventSubBody,
    kind: Seq<char>,
    channel: Seq<char>,
    callback: Seq<char>,
    secret: Seq<char>,
) -> bool {
    &&& b.event_type@ == kind
    &&& b.version@ == "1"@
    &&& b.condition.broadcaster_user_id@ == channel
    &&& b.transport.method@ == "webhook"@
    &&& b.transport.callback@ == callback
    &&& b.transport.secret@ == secret
}

impl TwitchEventSubBody {
    /// A version 1 subscription to events of kind `type_` of `channel`.
    pub fn new(type_: &str, channel: &str, callback: &str, secret: &str) -> (b: Self)
        ensures
            is_subscription(b, type_@, channel@, callback@, secret@),
    {
        TwitchEventSubBody {
            event_type: String::from_str(type_),
            version: String::from_str("1"),
            condition: Condition::new(channel),
            transport: Transport::new(callback, secret),
        }
    }
}

/// The subscriptions that are requested for the channels: for each channel,
/// in order, one to `stream.online` and then one to `stream.offline`.
pub fn subscription_bodies(channels: &Vec<String>, callback: &str, secret: &str) -> (bodies: Vec<
    TwitchEventSubBody,
>)
    ensures
        bodies.len() == 2 * channels.len(),
        forall|i: int|
            0 <= i < channels.len() ==> {
                &&& is_subscription(
                    #[trigger] bodies[2 * i],
                    "stream.online"@,
                    channels[i]@,
                    callback@,
                    secret@,
                )
                &&& is_subscription(
                    bodies[2 * i + 1],
                    "stream.offline"@,
                    channels[i]@,
                    callback@,
                    secret@,
                )
            },
{
    let mut bodies: Vec<TwitchEventSubBody> = Vec::new();
    let mut i: usize = 0;
    while i < channels.len()
        invariant
            i <= channels.len(),
            bodies.len() == 2 * i,
            forall|k: int|
                0 <= k < i ==> {
                    &&& is_subscription(
                        #[trigger] bodies[2 * k],
                        "stream.online"@,
                        channels[k]@,
                        callback@,
                        secret@,
                    )
                    &&& is_subscription(
                        bodies[2 * k + 1],
                        "stream.offline"@,
                        channels[k]@,
                        callback@,
                        secret@,
                    )
                },
        decreases channels.len() - i,
    {
        let channel = channels[i].as_str();
        bodies.push(TwitchEventSubBody::new("stream.online", channel, callback, secret));
        bodies.push(TwitchEventSubBody::new("stream.offline", channel, callback, secret));
        assert forall|k: int| 0 <= k < i + 1 implies {
            &&& is_subscription(
                #[trigger] bodies[2 * k],
                "stream.online"@,
                channels[k]@,
                callback@,
                secret@,
            )
            &&& is_subscription(
                bodies[2 * k + 1],
                "stream.offline"@,
                channels[k]@,
                callback@,
                secret@,
            )
        } by {}
        i = i + 1;
    }
    bodies
}

} // verus!
