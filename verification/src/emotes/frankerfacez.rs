use vstd::prelude::*;
use vstd::string::*;

use crate::decimal::{nat_digits, push_decimal};
use crate::emotes::PartialTwitchEmote;

verus! {

broadcast use vstd::string::group_string_axioms;

/// An emote as FrankerFaceZ describes it.
pub struct FrankerFaceZEmote {
    pub id: u64,
    pub name: String,
}

/// The id under which a FrankerFaceZ emote is kept.
pub open spec fn emote_key(id: u64) -> Seq<char> {
    "frankerfacez-"@ + nat_digits(id as nat)
}

/// Keeps a FrankerFaceZ emote under `frankerfacez-<id>`, with no channel.
pub fn transform_emote(emote: FrankerFaceZEmote) -> (r: PartialTwitchEmote)
    ensures
        r.emote_id@ == emote_key(emote.id),
        r.name@ == emote.name@,
        r.channel_id is None,
{
    let mut emote_id = String::from_str("frankerfacez-");
    push_decimal(&mut emote_id, emote.id);
    PartialTwitchEmote { emote_id, name: emote.name, channel_id: None }
}

/// The URL of a page of the most used emotes, two hundred to a page.
pub open spec fn emotes_page_url(page: nat) -> Seq<char> {
    "https://api.frankerfacez.com/v1/emotes?sort=count-desc&per_page=200&page="@ + nat_digits(page)
}

/// The page the importer fetches at step `page` (counting from 1), or
/// nothing once `page` reaches `page_count`.
pub fn page_url(page: u16, page_count: u16) -> (r: Option<String>)
    ensures
        page < page_count ==> (r matches Some(url) && url@ == emotes_page_url(page as nat)),
        page >= page_count ==> r is None,
{
    if page < page_count {
        let mut url = String::from_str(
            "https://api.frankerfacez.com/v1/emotes?sort=count-desc&per_page=200&page=",
        );
        push_decimal(&mut url, page as u64);
        Some(url)
    } else {
        None
    }
}

/// Whether paging through the emotes goes on after a page: it stops only
/// where a page was read and came back empty; a page that could not be
/// fetched or read (`None`) is skipped.
pub fn continues_after_page(page_len: Option<usize>) -> (b: bool)
    ensures
        b == !(page_len matches Some(n) && n == 0),
{
    match page_len {
        Some(n) => n > 0,
        None => true,
    }
}

} // verus!
