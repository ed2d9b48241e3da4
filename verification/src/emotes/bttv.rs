use vstd::prelude::*;
use vstd::string::*;

use crate::decimal::{nat_digits, push_decimal};
use crate::emotes::PartialTwitchEmote;

verus! {

broadcast use vstd::string::group_string_axioms;

/// An emote as BetterTTV describes it.
pub struct BetterTTVEmote {
    pub id: String,
    pub code: String,
}

/// Keeps a BetterTTV emote under its id and code, with no channel.
pub fn transform_emote(emote: BetterTTVEmote) -> (r: PartialTwitchEmote)
    ensures
        r.emote_id@ == emote.id@,
        r.name@ == emote.code@,
        r.channel_id is None,
{
    PartialTwitchEmote { emote_id: emote.id, name: emote.code, channel_id: None }
}

/// The URL of the page of a hundred shared emotes that starts at `offset`.
pub open spec fn top_emotes_url(offset: nat) -> Seq<char> {
    "https://api.betterttv.net/3/emotes/shared/top?limit=100&offset="@ + nat_digits(offset)
}

/// What the importer fetches next, having `collected` emotes and wanting
/// `max`: the page that starts after the emotes it has, or nothing once it
/// has enough.
pub fn next_page_url(collected: usize, max: usize) -> (r: Option<String>)
    ensures
        collected < max ==> (r matches Some(url) && url@ == top_emotes_url(collected as nat)),
        collected >= max ==> r is None,
{
    if collected < max {
        let mut url = String::from_str(
            "https://api.betterttv.net/3/emotes/shared/top?limit=100&offset=",
        );
        push_decimal(&mut url, collected as u64);
        Some(url)
    } else {
        None
    }
}

/// Whether paging through the shared emotes goes on after a page: it stops
/// where the page could not be fetched or read (`None`) or came back empty.
pub fn continues_after_page(page_len: Option<usize>) -> (b: bool)
    ensures
        b == (page_len matches Some(n) && n > 0),
{
    match page_len {
        Some(n) => n > 0,
        None => false,
    }
}

} // verus!
