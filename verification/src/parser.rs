use vstd::prelude::*;

use crate::text::{
    chars_of, contains_pattern, find_pattern, first_occurrence, lemma_remove_absent_char,
    lemma_remove_char_leading, lemma_trim_after_trim_end, lemma_trim_end_concat,
    lemma_trim_push_white, lemma_trim_start_concat, lowercase, occurs_at, remove_char,
    remove_char_chars, slice_chars, string_from_chars, to_lowercase, trim, trim_chars, trim_end,
    trim_start, is_white_space,
};

verus! {

broadcast use vstd::string::group_string_axioms;

/// `"PRIVMSG"`, the IRC command of a chat message.
pub open spec fn privmsg_command() -> Seq<char> {
    seq!['P', 'R', 'I', 'V', 'M', 'S', 'G']
}

/// `"PRIVMSG #"`, the command followed by the channel marker.
pub open spec fn privmsg_channel_marker() -> Seq<char> {
    seq!['P', 'R', 'I', 'V', 'M', 'S', 'G', ' ', '#']
}

/// The first position of `pat` in `s` (meaningful when `pat` occurs in `s`).
pub open spec fn first_index(s: Seq<char>, pat: Seq<char>) -> int {
    choose|i: int| first_occurrence(s, pat, i)
}

proof fn lemma_first_index(s: Seq<char>, pat: Seq<char>, i: int)
    requires
        first_occurrence(s, pat, i),
    ensures
        first_index(s, pat) == i,
{
    let k = first_index(s, pat);
    assert(first_occurrence(s, pat, k));
    if k < i {
        assert(!occurs_at(s, pat, k));
    }
    if i < k {
        assert(!occurs_at(s, pat, i));
    }
}

/// The part of `s` before the first `pat`.
pub open spec fn before_first(s: Seq<char>, pat: Seq<char>) -> Seq<char> {
    s.subrange(0, first_index(s, pat))
}

/// The part of `s` after the first `pat`.
pub open spec fn after_first(s: Seq<char>, pat: Seq<char>) -> Seq<char> {
    s.subrange(first_index(s, pat) + pat.len(), s.len() as int)
}

/// The raw IRC line as the parser splits it: everything before the first `'!'`
/// is the sender prefix; in the rest, everything before the first `':'` holds
/// the command and channel, and everything after it is the chat text.
pub open spec fn irc_after_bang(line: Seq<char>) -> Seq<char> {
    after_first(line, seq!['!'])
}

pub open spec fn irc_head(line: Seq<char>) -> Seq<char> {
    before_first(irc_after_bang(line), seq![':'])
}

/// `line` has all the pieces of a chat message: a `'!'`, after it a `':'`,
/// and before that `':'` the text `"PRIVMSG #"`.
pub open spec fn is_complete_privmsg(line: Seq<char>) -> bool {
    &&& contains_pattern(line, seq!['!'])
    &&& contains_pattern(irc_after_bang(line), seq![':'])
    &&& contains_pattern(irc_head(line), privmsg_channel_marker())
}

/// The sender prefix of a chat line, before the first `'!'`.
pub open spec fn irc_sender(line: Seq<char>) -> Seq<char> {
    before_first(line, seq!['!'])
}

/// The channel of a chat line: what follows `"PRIVMSG #"` in the head.
pub open spec fn irc_channel(line: Seq<char>) -> Seq<char> {
    after_first(irc_head(line), privmsg_channel_marker())
}

/// The chat text of a line: everything after the first `':'` that follows the `'!'`.
pub open spec fn irc_text(line: Seq<char>) -> Seq<char> {
    after_first(irc_after_bang(line), seq![':'])
}

/// A chat message that an IRC `PRIVMSG` line carried.
pub struct ParsedMessage {
    pub channel: String,
    pub sender: String,
    pub message: String,
    /// When the line was received, in milliseconds since the Unix epoch.
    pub timestamp: i64,
}

/// What `msg` may be handed to [`parse_message`] with: a line that mentions
/// `PRIVMSG` has every piece of a chat message.
pub open spec fn parsable_line(msg: Seq<char>) -> bool {
    contains_pattern(msg, privmsg_command()) ==> is_complete_privmsg(trim(msg))
}

/// The split of a chat line into sender prefix, channel and chat text, or
/// `None` where a piece is missing.
fn split_privmsg(line: &Vec<char>) -> (r: Option<(Vec<char>, Vec<char>, Vec<char>)>)
    ensures
        r is Some <==> is_complete_privmsg(line@),
        r matches Some((sender, channel, text)) ==> {
            &&& sender@ == irc_sender(line@)
            &&& channel@ == irc_channel(line@)
            &&& text@ == irc_text(line@)
        },
{
    let bang = vec!['!'];
    let colon = vec![':'];
    let marker = vec!['P', 'R', 'I', 'V', 'M', 'S', 'G', ' ', '#'];
    assert(marker@ =~= privmsg_channel_marker());
    assert(bang@ =~= seq!['!']);
    assert(colon@ =~= seq![':']);
    let b = match find_pattern(line, &bang) {
        Some(b) => b,
        None => return None,
    };
    proof {
        lemma_first_index(line@, seq!['!'], b as int);
        assert(occurs_at(line@, bang@, b as int));
        assert(bang@.len() == 1);
        assert(b + 1 <= line@.len());
    }
    assert(b + 1 <= line.len());
    let sender = slice_chars(line, 0, b);
    let b1 = b + 1;
    let rest = slice_chars(line, b1, line.len());
    assert(rest@ =~= irc_after_bang(line@));
    let c = match find_pattern(&rest, &colon) {
        Some(c) => c,
        None => return None,
    };
    proof {
        lemma_first_index(rest@, seq![':'], c as int);
        assert(occurs_at(rest@, colon@, c as int));
    }
    let head = slice_chars(&rest, 0, c);
    let text = slice_chars(&rest, c + 1, rest.len());
    assert(head@ =~= irc_head(line@));
    let p = match find_pattern(&head, &marker) {
        Some(p) => p,
        None => return None,
    };
    proof {
        lemma_first_index(head@, privmsg_channel_marker(), p as int);
        assert(occurs_at(head@, marker@, p as int));
    }
    let channel = slice_chars(&head, p + 9, head.len());
    Some((sender, channel, text))
}

/// Whether `s` mentions `PRIVMSG`.
fn mentions_privmsg(s: &Vec<char>) -> (b: bool)
    ensures
        b == contains_pattern(s@, privmsg_command()),
{
    let cmd = vec!['P', 'R', 'I', 'V', 'M', 'S', 'G'];
    assert(cmd@ =~= privmsg_command());
    find_pattern(s, &cmd).is_some()
}

/// Whether [`parse_message`] accepts `unparsed_message`: a line that mentions
/// `PRIVMSG` but lacks a piece of a chat message is refused.
pub fn is_parsable_message(unparsed_message: &str) -> (b: bool)
    ensures
        b == parsable_line(unparsed_message@),
{
    let chars = chars_of(unparsed_message);
    if !mentions_privmsg(&chars) {
        return true;
    }
    let trimmed = trim_chars(&chars);
    split_privmsg(&trimmed).is_some()
}

/// Lowercases the characters of `v`.
fn lowercase_chars(v: &Vec<char>) -> (s: String)
    ensures
        s@ == lowercase(v@),
{
    let t = string_from_chars(v);
    to_lowercase(t.as_str())
}

/// Parses an IRC line such as
/// `:caveaio!caveaio@caveaio.tmi.twitch.tv PRIVMSG #hougesen :test`.
///
/// A line that does not mention `PRIVMSG` gives `None`. Otherwise the line is
/// trimmed and split: the sender is the part before the first `'!'` with every
/// `':'` removed, trimmed and lowercased; the channel is what follows
/// `"PRIVMSG #"` before the first `':'` after the `'!'`, trimmed and
/// lowercased; the message is the text after that `':'`, trimmed.
pub fn parse_message(unparsed_message: String, timestamp: i64) -> (r: Option<ParsedMessage>)
    requires
        parsable_line(unparsed_message@),
    ensures
        r is Some <==> contains_pattern(unparsed_message@, privmsg_command()),
        r matches Some(p) ==> {
            let line = trim(unparsed_message@);
            &&& p.sender@ == lowercase(trim(remove_char(irc_sender(line), ':')))
            &&& p.channel@ == lowercase(trim(irc_channel(line)))
            &&& p.message@ == trim(irc_text(line))
            &&& p.timestamp == timestamp
        },
{
    let chars = chars_of(unparsed_message.as_str());
    if !mentions_privmsg(&chars) {
        return None;
    }
    let trimmed = trim_chars(&chars);
    let (sender, channel, text) = match split_privmsg(&trimmed) {
        Some(parts) => parts,
        None => return None,
    };
    let sender = remove_char_chars(&sender, ':');
    let sender = trim_chars(&sender);
    let channel = trim_chars(&channel);
    let message = trim_chars(&text);
    Some(
        ParsedMessage {
            channel: lowercase_chars(&channel),
            sender: lowercase_chars(&sender),
            message: string_from_chars(&message),
            timestamp,
        },
    )
}

// ---------------------------------------------------------------------------
// Lines built from their parts
// ---------------------------------------------------------------------------

/// The IRC line that carries the chat message `text` from `sender`, logged in
/// from `host`, to `channel`: `":sender!host PRIVMSG #channel :text"`.
pub open spec fn privmsg_line(
    sender: Seq<char>,
    host: Seq<char>,
    channel: Seq<char>,
    text: Seq<char>,
) -> Seq<char> {
    seq![':'] + sender + seq!['!'] + host + seq![' '] + privmsg_channel_marker() + channel + seq![
        ' ',
        ':',
    ] + text
}

proof fn lemma_first_char(s: Seq<char>, c: char, k: int)
    requires
        0 <= k < s.len(),
        s[k] == c,
        forall|j: int| 0 <= j < k ==> s[j] != c,
    ensures
        first_index(s, seq![c]) == k,
        contains_pattern(s, seq![c]),
{
    assert(s.subrange(k, k + 1) =~= seq![c]);
    assert(occurs_at(s, seq![c], k));
    assert forall|j: int| 0 <= j < k implies !occurs_at(s, seq![c], j) by {
        if occurs_at(s, seq![c], j) {
            assert(s.subrange(j, j + 1)[0] == s[j]);
        }
    }
    lemma_first_index(s, seq![c], k);
}

/// Trimming a text that starts and ends with a character other than
/// whitespace, followed by `text`, only trims the end of `text`.
proof fn lemma_trim_framed(p: Seq<char>, text: Seq<char>)
    requires
        p.len() > 0,
        !is_white_space(p[0]),
        !is_white_space(p.last()),
    ensures
        trim(p + text) == p + trim_end(text),
{
    assert(trim_start(p) == p);
    lemma_trim_start_concat(p, text);
    assert(trim_end(p) == p);
    lemma_trim_end_concat(p, text);
    if trim_end(text).len() == 0 {
        assert(p + trim_end(text) =~= p);
    }
}

/// The sender prefix of `":" + sender + "!" + rest` is `":" + sender`.
proof fn lemma_split_sender(sender: Seq<char>, rest: Seq<char>)
    requires
        !sender.contains('!'),
    ensures
        contains_pattern(seq![':'] + sender + seq!['!'] + rest, seq!['!']),
        irc_sender(seq![':'] + sender + seq!['!'] + rest) == seq![':'] + sender,
        irc_after_bang(seq![':'] + sender + seq!['!'] + rest) == rest,
{
    let l = seq![':'] + sender + seq!['!'] + rest;
    let ns = sender.len() as int;
    assert forall|j: int| 0 <= j < ns + 1 implies l[j] != '!' by {
        if j > 0 {
            assert(l[j] == sender[j - 1]);
            if sender[j - 1] == '!' {
                assert(sender.contains('!'));
            }
        }
    }
    assert(l[ns + 1] == '!');
    lemma_first_char(l, '!', ns + 1);
    assert(irc_sender(l) =~= seq![':'] + sender);
    assert(irc_after_bang(l) =~= rest);
}

/// In `head + ":" + text`, where `head` holds no `':'`, the head and the text
/// are split at that `':'`.
proof fn lemma_split_head(head: Seq<char>, text: Seq<char>)
    requires
        forall|j: int| 0 <= j < head.len() ==> head[j] != ':',
    ensures
        contains_pattern(head + seq![':'] + text, seq![':']),
        before_first(head + seq![':'] + text, seq![':']) == head,
        after_first(head + seq![':'] + text, seq![':']) == text,
{
    let a = head + seq![':'] + text;
    let q = head.len() as int;
    assert forall|j: int| 0 <= j < q implies a[j] != ':' by {
        assert(a[j] == head[j]);
    }
    assert(a[q] == ':');
    lemma_first_char(a, ':', q);
    assert(before_first(a, seq![':']) =~= head);
    assert(after_first(a, seq![':']) =~= text);
}

/// The head of a built line, `host + " PRIVMSG #" + channel + " "`.
pub open spec fn privmsg_head(host: Seq<char>, channel: Seq<char>) -> Seq<char> {
    host + seq![' '] + privmsg_channel_marker() + channel + seq![' ']
}

proof fn lemma_head_has_no_colon(host: Seq<char>, channel: Seq<char>)
    requires
        !host.contains(':'),
        !channel.contains(':'),
    ensures
        forall|j: int|
            0 <= j < privmsg_head(host, channel).len() ==> privmsg_head(host, channel)[j] != ':',
{
    let h = privmsg_head(host, channel);
    let m = privmsg_channel_marker();
    let nh = host.len() as int;
    let nc = channel.len() as int;
    assert forall|j: int| 0 <= j < h.len() implies h[j] != ':' by {
        if j < nh {
            assert(h[j] == host[j]);
            if host[j] == ':' {
                assert(host.contains(':'));
            }
        } else if nh + 1 <= j < nh + 10 {
            assert(h[j] == m[j - nh - 1]);
        } else if nh + 10 <= j < nh + 10 + nc {
            assert(h[j] == channel[j - nh - 10]);
            if channel[j - nh - 10] == ':' {
                assert(channel.contains(':'));
            }
        }
    }
}

/// The channel marker first occurs in a built head right after the host.
proof fn lemma_split_channel(host: Seq<char>, channel: Seq<char>)
    requires
        !host.contains('#'),
    ensures
        contains_pattern(privmsg_head(host, channel), privmsg_channel_marker()),
        after_first(privmsg_head(host, channel), privmsg_channel_marker()) == channel.push(' '),
{
    let h = privmsg_head(host, channel);
    let m = privmsg_channel_marker();
    let nh = host.len() as int;
    assert(h.subrange(nh + 1, nh + 10) =~= m);
    assert(occurs_at(h, m, nh + 1));
    assert forall|j: int| 0 <= j < nh + 1 implies !occurs_at(h, m, j) by {
        if occurs_at(h, m, j) {
            assert(h.subrange(j, j + 9)[8] == h[j + 8]);
            if j + 8 < nh {
                assert(h[j + 8] == host[j + 8]);
                assert(host.contains('#'));
            } else if j + 8 > nh {
                assert(h[j + 8] == m[j + 8 - nh - 1]);
            }
        }
    }
    lemma_first_index(h, m, nh + 1);
    assert(after_first(h, m) =~= channel.push(' '));
}

/// A chat line built from a sender, a host, a channel and a text splits back
/// into them: the sender comes back as it was, and the channel and the text
/// come back trimmed, so [`parse_message`] gives the lowercased trimmed
/// sender and channel and the trimmed text. Twitch names hold no `'!'` or
/// `':'`, and hosts hold no `':'` or `'#'`.
pub proof fn law_parse_privmsg_line(
    sender: Seq<char>,
    host: Seq<char>,
    channel: Seq<char>,
    text: Seq<char>,
)
    requires
        !sender.contains('!'),
        !sender.contains(':'),
        !host.contains(':'),
        !host.contains('#'),
        !channel.contains(':'),
    ensures
        parsable_line(privmsg_line(sender, host, channel, text)),
        contains_pattern(privmsg_line(sender, host, channel, text), privmsg_command()),
        remove_char(irc_sender(trim(privmsg_line(sender, host, channel, text))), ':') == sender,
        trim(irc_channel(trim(privmsg_line(sender, host, channel, text)))) == trim(channel),
        trim(irc_text(trim(privmsg_line(sender, host, channel, text)))) == trim(text),
{
    let line = privmsg_line(sender, host, channel, text);
    let h = privmsg_head(host, channel);
    let p = seq![':'] + sender + seq!['!'] + h + seq![':'];
    assert(line =~= p + text);
    assert(p[0] == ':');
    assert(p.last() == ':');
    lemma_trim_framed(p, text);
    let te = trim_end(text);
    let l = trim(line);
    assert(l =~= seq![':'] + sender + seq!['!'] + (h + seq![':'] + te));
    lemma_split_sender(sender, h + seq![':'] + te);
    lemma_remove_char_leading(sender, ':');
    lemma_remove_absent_char(sender, ':');
    lemma_head_has_no_colon(host, channel);
    lemma_split_head(h, te);
    lemma_trim_after_trim_end(text);
    lemma_split_channel(host, channel);
    lemma_trim_push_white(channel, ' ');
    let ns = sender.len() as int;
    let at = ns + 2 + host.len() + 1;
    assert(line.subrange(at, at + 7) =~= privmsg_command());
    assert(occurs_at(line, privmsg_command(), at));
}

/// A chat message as the stand-alone chat collector writes it to disk.
pub struct TwitchChatMessage {
    pub channel: String,
    pub sender: String,
    pub message: String,
    /// When the line was received, in seconds since the Unix epoch.
    pub timestamp: u64,
}

/// What `msg` may be handed to [`parse_collected_message`] with: a line that
/// mentions `PRIVMSG` has every piece of a chat message, as it stands.
pub open spec fn collectable_line(msg: Seq<char>) -> bool {
    contains_pattern(msg, privmsg_command()) ==> is_complete_privmsg(msg)
}

/// Whether [`parse_collected_message`] accepts `msg`.
pub fn is_collectable_message(msg: &str) -> (b: bool)
    ensures
        b == collectable_line(msg@),
{
    let chars = chars_of(msg);
    if !mentions_privmsg(&chars) {
        return true;
    }
    split_privmsg(&chars).is_some()
}

/// Parses an IRC line the way the chat collector does: a line that does not
/// mention `PRIVMSG` gives `None`; otherwise the line is split as it stands
/// (not trimmed first), the sender is the part before the first `'!'` with
/// every `':'` removed, the channel is trimmed and lowercased and the message
/// is trimmed.
pub fn parse_collected_message(msg: &str, timestamp: u64) -> (r: Option<TwitchChatMessage>)
    requires
        collectable_line(msg@),
    ensures
        r is Some <==> contains_pattern(msg@, privmsg_command()),
        r matches Some(p) ==> {
            &&& p.sender@ == remove_char(irc_sender(msg@), ':')
            &&& p.channel@ == lowercase(trim(irc_channel(msg@)))
            &&& p.message@ == trim(irc_text(msg@))
            &&& p.timestamp == timestamp
        },
{
    let chars = chars_of(msg);
    if !mentions_privmsg(&chars) {
        return None;
    }
    let (sender, channel, text) = match split_privmsg(&chars) {
        Some(parts) => parts,
        None => return None,
    };
    let sender = remove_char_chars(&sender, ':');
    let channel = trim_chars(&channel);
    let message = trim_chars(&text);
    Some(
        TwitchChatMessage {
            channel: lowercase_chars(&channel),
            sender: string_from_chars(&sender),
            message: string_from_chars(&message),
            timestamp,
        },
    )
}

} // verus!
