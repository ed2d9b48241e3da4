use vstd::prelude::*;
use vstd::string::*;

pub mod bttv;
pub mod frankerfacez;

verus! {

broadcast use vstd::string::group_string_axioms;

/// An emote as the importers store it.
pub struct PartialTwitchEmote {
    pub emote_id: String,
    /// The name of the emote. This is the name that viewers type in the chat
    /// window to get the emote to appear.
    pub name: String,
    pub channel_id: Option<String>,
}

/// An emote as the Twitch emote endpoints describe it.
pub struct TwitchGetGlobalEmotesData {
    pub id: String,
    pub name: String,
}

/// An emote as the stand-alone Twitch importer keeps it.
pub struct TwitchEmote {
    pub id: String,
    /// The name of the emote. This is the name that viewers type in the chat
    /// window to get the emote to appear.
    pub name: String,
    pub broadcaster_id: Option<String>,
}

/// The emotes that a reply of a Twitch emote endpoint lists, in order, each
/// with the channel it belongs to (none for global emotes).
pub fn emotes_from_data(data: Vec<TwitchGetGlobalEmotesData>, channel_id: Option<&str>) -> (emotes:
    Vec<PartialTwitchEmote>)
    ensures
        emotes.len() == data.len(),
        forall|i: int|
            #![trigger emotes[i]]
            0 <= i < emotes.len() ==> {
                &&& emotes[i].emote_id@ == data[i].id@
                &&& emotes[i].name@ == data[i].name@
                &&& match channel_id {
                    Some(c) => emotes[i].channel_id matches Some(e) && e@ == c@,
                    None => emotes[i].channel_id is None,
                }
            },
{
    let mut emotes: Vec<PartialTwitchEmote> = Vec::new();
    let mut i: usize = 0;
    while i < data.len()
        invariant
            i <= data.len(),
            emotes.len() == i,
            forall|k: int|
                #![trigger emotes[k]]
                0 <= k < i ==> {
                    &&& emotes[k].emote_id@ == data[k].id@
                    &&& emotes[k].name@ == data[k].name@
                    &&& match channel_id {
                        Some(c) => emotes[k].channel_id matches Some(e) && e@ == c@,
                        None => emotes[k].channel_id is None,
                    }
                },
        decreases data.len() - i,
    {
        let channel = match channel_id {
            Some(c) => Some(String::from_str(c)),
            None => None,
        };
        emotes.push(
            PartialTwitchEmote {
                emote_id: data[i].id.clone(),
                name: data[i].name.clone(),
                channel_id: channel,
            },
        );
        i = i + 1;
    }
    emotes
}

/// The global emotes that a reply of the Twitch global emote endpoint lists,
/// in order, as the stand-alone importer keeps them.
pub fn global_emotes_from_data(data: Vec<TwitchGetGlobalEmotesData>) -> (emotes: Vec<TwitchEmote>)
    ensures
        emotes.len() == data.len(),
        forall|i: int|
            #![trigger emotes[i]]
            0 <= i < emotes.len() ==> {
                &&& emotes[i].id@ == data[i].id@
                &&& emotes[i].name@ == data[i].name@
                &&& emotes[i].broadcaster_id is None
            },
{
    let mut emotes: Vec<TwitchEmote> = Vec::new();
    let mut i: usize = 0;
    while i < data.len()
        invariant
            i <= data.len(),
            emotes.len() == i,
            forall|k: int|
                #![trigger emotes[k]]
                0 <= k < i ==> {
                    &&& emotes[k].id@ == data[k].id@
                    &&& emotes[k].name@ == data[k].name@
                    &&& emotes[k].broadcaster_id is None
                },
        decreases data.len() - i,
    {
        emotes.push(
            TwitchEmote { id: data[i].id.clone(), name: data[i].name.clone(), broadcaster_id: None },
        );
        i = i + 1;
    }
    emotes
}

/// The URL of the global emotes on Twitch.
pub open spec fn global_emotes_url() -> Seq<char> {
    "https://api.twitch.tv/helix/chat/emotes/global"@
}

/// The URL of a channel's emotes on Twitch.
pub open spec fn channel_emotes_url(channel_id: Seq<char>) -> Seq<char> {
    "https://api.twitch.tv/helix/chat/emotes?broadcaster_id="@ + channel_id
}

/// Builds [`channel_emotes_url`].
pub fn build_channel_emotes_url(channel_id: &str) -> (url: String)
    ensures
        url@ == channel_emotes_url(channel_id@),
{
    let mut url = String::from_str("https://api.twitch.tv/helix/chat/emotes?broadcaster_id=");
    url.append(channel_id);
    url
}

} // verus!
