use twitch_highlights::emotes::bttv::{self, BetterTTVEmote};
use twitch_highlights::emotes::frankerfacez::{self, FrankerFaceZEmote};
use twitch_highlights::emotes::{
    build_channel_emotes_url, emotes_from_data, global_emotes_from_data, TwitchGetGlobalEmotesData,
};
use twitch_highlights::eventsub::{subscription_bodies, Condition, Transport, TwitchEventSubBody};

fn data(id: &str, name: &str) -> TwitchGetGlobalEmotesData {
    TwitchGetGlobalEmotesData { id: id.to_string(), name: name.to_string() }
}

#[test]
fn emote_transforms() {
    let e = bttv::transform_emote(BetterTTVEmote { id: "54fa".to_string(), code: "catJAM".to_string() });
    assert_eq!("54fa", e.emote_id);
    assert_eq!("catJAM", e.name);
    assert!(e.channel_id.is_none());

    let e = frankerfacez::transform_emote(FrankerFaceZEmote { id: 720, name: "LULW".to_string() });
    assert_eq!("frankerfacez-720", e.emote_id);
    assert_eq!("LULW", e.name);
    assert!(e.channel_id.is_none());
}

#[test]
fn importer_pages() {
    assert_eq!(
        Some("https://api.betterttv.net/3/emotes/shared/top?limit=100&offset=200".to_string()),
        bttv::next_page_url(200, 10000)
    );
    assert_eq!(None, bttv::next_page_url(10000, 10000));
    assert_eq!(
        Some("https://api.frankerfacez.com/v1/emotes?sort=count-desc&per_page=200&page=3".to_string()),
        frankerfacez::page_url(3, 25)
    );
    assert_eq!(None, frankerfacez::page_url(25, 25));
}

#[test]
fn twitch_emote_replies() {
    let emotes = emotes_from_data(vec![data("1", "Kappa"), data("2", "PogChamp")], Some("31239503"));
    assert_eq!(2, emotes.len());
    assert_eq!("1", emotes[0].emote_id);
    assert_eq!("PogChamp", emotes[1].name);
    assert_eq!(Some("31239503".to_string()), emotes[1].channel_id);
    let global = emotes_from_data(vec![data("1", "Kappa")], None);
    assert!(global[0].channel_id.is_none());
    let kept = global_emotes_from_data(vec![data("9", "LUL")]);
    assert_eq!("9", kept[0].id);
    assert!(kept[0].broadcaster_id.is_none());
    assert_eq!(
        "https://api.twitch.tv/helix/chat/emotes?broadcaster_id=42",
        build_channel_emotes_url("42")
    );
}

#[test]
fn subscriptions() {
    let c = Condition::new("77");
    assert_eq!("77", c.broadcaster_user_id);
    let t = Transport::new("https://cb", "s3cret");
    assert_eq!("webhook", t.method);
    assert_eq!("https://cb", t.callback);
    let b = TwitchEventSubBody::new("stream.online", "77", "https://cb", "s3cret");
    assert_eq!("stream.online", b.event_type);
    assert_eq!("1", b.version);
    let bodies = subscription_bodies(&vec!["a".to_string(), "b".to_string()], "cb", "sec");
    let kinds: Vec<(&str, &str)> = bodies
        .iter()
        .map(|b| (b.event_type.as_str(), b.condition.broadcaster_user_id.as_str()))
        .collect();
    assert_eq!(
        vec![("stream.online", "a"), ("stream.offline", "a"), ("stream.online", "b"), ("stream.offline", "b")],
        kinds
    );
}

#[test]
fn paging_stops_where_the_importers_stop() {
    assert!(bttv::continues_after_page(Some(100)));
    assert!(!bttv::continues_after_page(Some(0)));
    assert!(!bttv::continues_after_page(None));
    assert!(frankerfacez::continues_after_page(Some(200)));
    assert!(!frankerfacez::continues_after_page(Some(0)));
    assert!(frankerfacez::continues_after_page(None));
}
