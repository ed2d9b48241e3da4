use vstd::prelude::*;
use vstd::string::*;

use crate::parser::privmsg_command;
use crate::text::{
    chars_of, contains_pattern, find_pattern, lowercase, string_from_chars, to_lowercase, trim,
    trim_chars,
};

verus! {

broadcast use vstd::string::group_string_axioms;

// ---------------------------------------------------------------------------
// Joining and leaving channels
// ---------------------------------------------------------------------------

/// A change of a channel's live state, as the event queue delivers it.
pub struct Event {
    pub kind: String,
    pub username: String,
}

/// The IRC line that joins a channel.
pub open spec fn join_line(channel: Seq<char>) -> Seq<char> {
    "JOIN #"@ + trim(lowercase(channel))
}

/// The IRC line that leaves a channel.
pub open spec fn leave_line(channel: Seq<char>) -> Seq<char> {
    "PART #"@ + trim(lowercase(channel))
}

fn lowercase_trimmed(channel: &str) -> (r: Vec<char>)
    ensures
        r@ == trim(lowercase(channel@)),
{
    let lower = to_lowercase(channel);
    let chars = chars_of(lower.as_str());
    trim_chars(&chars)
}

/// Builds [`join_line`] for a channel.
pub fn construct_join_message(channel: &str) -> (line: String)
    ensures
        line@ == join_line(channel@),
{
    let name = lowercase_trimmed(channel);
    let mut line = String::from_str("JOIN #");
    line.append(string_from_chars(&name).as_str());
    line
}

/// Builds [`leave_line`] for a channel.
pub fn construct_leave_message(channel: &str) -> (line: String)
    ensures
        line@ == leave_line(channel@),
{
    let name = lowercase_trimmed(channel);
    let mut line = String::from_str("PART #");
    line.append(string_from_chars(&name).as_str());
    line
}

/// The texts of some strings.
pub open spec fn texts(lines: Seq<String>) -> Seq<Seq<char>> {
    Seq::new(lines.len(), |i: int| lines[i]@)
}

/// The join lines of some channels.
pub open spec fn join_lines(names: Seq<Seq<char>>) -> Seq<Seq<char>> {
    Seq::new(names.len(), |i: int| join_line(names[i]))
}

/// The channels that the chat connection has joined, each once.
pub struct JoinedChannels {
    channels: Vec<String>,
}

/// No channel name occurs twice.
pub open spec fn distinct_names(names: Seq<Seq<char>>) -> bool {
    forall|i: int, j: int| 0 <= i < j < names.len() ==> names[i] != names[j]
}

impl JoinedChannels {
    /// The joined channels, in the order they were joined.
    pub closed spec fn names(&self) -> Seq<Seq<char>> {
        self.channels@.map_values(|c: String| c@)
    }

    /// The set of joined channels.
    pub open spec fn view_set(&self) -> Set<Seq<char>> {
        self.names().to_set()
    }

    /// The list holds each channel once.
    pub closed spec fn wf(&self) -> bool {
        distinct_names(self.names())
    }

    /// No channel joined yet.
    pub fn new() -> (j: Self)
        ensures
            j.wf(),
            j.names() == Seq::<Seq<char>>::empty(),
    {
        let j = JoinedChannels { channels: Vec::new() };
        assert(j.names() =~= Seq::<Seq<char>>::empty());
        j
    }

    fn position(&self, name: &String) -> (r: Option<usize>)
        ensures
            match r {
                Some(i) => i < self.names().len() && self.names()[i as int] == name@,
                None => !self.names().contains(name@),
            },
    {
        let mut i: usize = 0;
        while i < self.channels.len()
            invariant
                i <= self.channels.len(),
                forall|k: int| 0 <= k < i ==> self.names()[k] != name@,
            decreases self.channels.len() - i,
        {
            if self.channels[i] == *name {
                return Some(i);
            }
            i = i + 1;
        }
        assert forall|k: int| 0 <= k < self.names().len() implies self.names()[k] != name@ by {}
        None
    }

    /// Adds a channel unless it is already joined.
    fn insert(&mut self, name: String)
        requires
            old(self).wf(),
        ensures
            final(self).wf(),
            final(self).names() == (if old(self).names().contains(name@) {
                old(self).names()
            } else {
                old(self).names().push(name@)
            }),
    {
        match self.position(&name) {
            Some(_) => {},
            None => {
                let ghost before = self.names();
                self.channels.push(name);
                assert(self.names() =~= before.push(name@));
            },
        }
    }

    /// Forgets a channel.
    fn remove(&mut self, name: &String)
        requires
            old(self).wf(),
        ensures
            final(self).wf(),
            final(self).names() == names_without(old(self).names(), name@),
    {
        let ghost before = self.names();
        match self.position(name) {
            Some(i) => {
                self.channels.remove(i);
                assert(self.names() =~= before.remove(i as int));
                proof {
                    lemma_names_without_at(before, name@, i as int);
                }
            },
            None => {
                proof {
                    lemma_names_without_absent(before, name@);
                }
            },
        }
    }

    /// The lines that join every channel already joined.
    fn rejoin_lines(&self) -> (lines: Vec<String>)
        ensures
            texts(lines@) == join_lines(self.names()),
    {
        let mut lines: Vec<String> = Vec::new();
        let mut i: usize = 0;
        while i < self.channels.len()
            invariant
                i <= self.channels.len(),
                lines@.len() == i,
                texts(lines@) == join_lines(self.names().take(i as int)),
            decreases self.channels.len() - i,
        {
            let line = construct_join_message(self.channels[i].as_str());
            assert(self.names()[i as int] == self.channels@[i as int]@);
            let ghost before = lines@;
            lines.push(line);
            assert(texts(lines@) =~= join_lines(self.names().take(i + 1))) by {
                assert(lines@ == before.push(line));
                assert forall|k: int| 0 <= k < i implies #[trigger] lines@[k]@ == join_line(
                    self.names().take(i + 1)[k],
                ) by {
                    assert(texts(before)[k] == join_lines(self.names().take(i as int))[k]);
                }
            }
            i = i + 1;
        }
        assert(self.names().take(self.channels.len() as int) =~= self.names());
        lines
    }
}

/// `names` without `name`.
pub open spec fn names_without(names: Seq<Seq<char>>, name: Seq<char>) -> Seq<Seq<char>> {
    names.filter(|n: Seq<char>| n != name)
}

proof fn lemma_names_without_absent(names: Seq<Seq<char>>, name: Seq<char>)
    requires
        !names.contains(name),
    ensures
        names_without(names, name) == names,
    decreases names.len(),
{
    reveal_with_fuel(Seq::filter, 1);
    if names.len() > 0 {
        lemma_names_without_absent(names.drop_last(), name);
        assert(names.drop_last().push(names.last()) =~= names);
    }
}

proof fn lemma_names_without_at(names: Seq<Seq<char>>, name: Seq<char>, i: int)
    requires
        0 <= i < names.len(),
        names[i] == name,
        distinct_names(names),
    ensures
        names_without(names, name) == names.remove(i),
        distinct_names(names.remove(i)),
    decreases names.len(),
{
    reveal_with_fuel(Seq::filter, 1);
    if i == names.len() - 1 {
        assert(!names.drop_last().contains(name));
        lemma_names_without_absent(names.drop_last(), name);
        assert(names.remove(i) =~= names.drop_last());
    } else {
        lemma_names_without_at(names.drop_last(), name, i);
        assert(names.drop_last().remove(i).push(names.last()) =~= names.remove(i));
    }
}

/// An event that tells that the channel went live.
pub open spec fn is_online_event(e: Event) -> bool {
    e.kind@ == "stream.online"@
}

/// The joined channels after an event: a channel that went live is added,
/// any other event removes its channel.
pub open spec fn after_event(names: Seq<Seq<char>>, e: Event) -> Seq<Seq<char>> {
    if is_online_event(e) {
        if names.contains(e.username@) {
            names
        } else {
            names.push(e.username@)
        }
    } else {
        names_without(names, e.username@)
    }
}

/// The joined channels after the events, in order.
pub open spec fn after_events(names: Seq<Seq<char>>, events: Seq<Event>) -> Seq<Seq<char>>
    decreases events.len(),
{
    if events.len() == 0 {
        names
    } else {
        after_event(after_events(names, events.drop_last()), events.last())
    }
}

proof fn lemma_names_without_contents(names: Seq<Seq<char>>, name: Seq<char>, other: Seq<char>)
    ensures
        names_without(names, name).contains(other) <==> names.contains(other) && other != name,
    decreases names.len(),
{
    reveal_with_fuel(Seq::filter, 1);
    if names.len() > 0 {
        lemma_names_without_contents(names.drop_last(), name, other);
        assert(names.drop_last().push(names.last()) =~= names);
        if names.drop_last().contains(other) {
            let k = choose|k: int| 0 <= k < names.drop_last().len() && names.drop_last()[k] == other;
            assert(names[k] == other);
        }
        if names.contains(other) && names.last() != other {
            let k = choose|k: int| 0 <= k < names.len() && names[k] == other;
            assert(names.drop_last()[k] == other);
        }
    }
}

/// After an event, the channel is joined when it went live and is not joined
/// otherwise; every other channel keeps its state.
pub proof fn law_event_sets_membership(names: Seq<Seq<char>>, e: Event, other: Seq<char>)
    ensures
        after_event(names, e).contains(e.username@) == is_online_event(e),
        other != e.username@ ==> (after_event(names, e).contains(other) == names.contains(
            other,
        )),
{
    lemma_names_without_contents(names, e.username@, e.username@);
    lemma_names_without_contents(names, e.username@, other);
    if is_online_event(e) && !names.contains(e.username@) {
        assert(names.push(e.username@)[names.len() as int] == e.username@);
        if names.push(e.username@).contains(other) && other != e.username@ {
            let k = choose|k: int| 0 <= k < names.len() + 1 && names.push(e.username@)[k] == other;
            assert(names[k] == other);
        }
        if names.contains(other) {
            let k = choose|k: int| 0 <= k < names.len() && names[k] == other;
            assert(names.push(e.username@)[k] == other);
        }
    }
}

/// The line that an event sends: a join for a channel that went live, a
/// leave for any other.
pub open spec fn event_line(e: Event) -> Seq<char> {
    if is_online_event(e) {
        join_line(e.username@)
    } else {
        leave_line(e.username@)
    }
}

/// The lines that some events send, in order.
pub open spec fn event_lines(events: Seq<Event>) -> Seq<Seq<char>> {
    Seq::new(events.len(), |i: int| event_line(events[i]))
}

/// Applies a batch of live-state events to the joined channels and returns
/// the IRC lines to send, in order. An empty batch rejoins every channel
/// already joined (after a reconnect, or as a keep-alive); otherwise each
/// event that a channel went live joins it, and every other event leaves it.
pub fn join_channels(joined_channels: &mut JoinedChannels, events: Vec<Event>) -> (lines: Vec<
    String,
>)
    requires
        old(joined_channels).wf(),
    ensures
        final(joined_channels).wf(),
        final(joined_channels).names() == after_events(old(joined_channels).names(), events@),
        events@.len() == 0 ==> texts(lines@) == join_lines(
            old(joined_channels).names(),
        ),
        events@.len() > 0 ==> texts(lines@) == event_lines(events@),
{
    if events.len() == 0 {
        return joined_channels.rejoin_lines();
    }
    let mut lines: Vec<String> = Vec::new();
    let mut i: usize = 0;
    let ghost start = joined_channels.names();
    while i < events.len()
        invariant
            i <= events.len(),
            joined_channels.wf(),
            joined_channels.names() == after_events(start, events@.take(i as int)),
            lines@.len() == i,
            texts(lines@) == event_lines(events@.take(i as int)),
        decreases events.len() - i,
    {
        let event = &events[i];
        let ghost before_lines = lines@;
        assert(events@.take(i + 1).drop_last() =~= events@.take(i as int));
        assert(events@.take(i + 1).last() == events@[i as int]);
        let online_kind = String::from_str("stream.online");
        let online = event.kind == online_kind;
        let line = if online {
            let line = construct_join_message(event.username.as_str());
            joined_channels.insert(event.username.clone());
            line
        } else {
            joined_channels.remove(&event.username);
            construct_leave_message(event.username.as_str())
        };
        assert(line@ == event_line(events@[i as int]));
        lines.push(line);
        assert forall|k: int| 0 <= k < i implies #[trigger] lines@[k]@ == event_line(
            events@.take(i + 1)[k],
        ) by {
            assert(lines@[k] == before_lines[k]);
            assert(texts(before_lines)[k] == event_lines(events@.take(i as int))[k]);
        }
        assert(texts(lines@) =~= event_lines(events@.take(i + 1)));
        i = i + 1;
    }
    assert(events@.take(events.len() as int) =~= events@);
    lines
}

// ---------------------------------------------------------------------------
// Lines read from the chat connection
// ---------------------------------------------------------------------------

/// What to do with a text that the chat connection delivered.
pub enum ChatAction {
    /// The server pinged: answer `PONG`.
    SendPong,
    /// Pass the text on to be parsed.
    Forward,
}

/// A text that mentions `PING` is answered with `PONG`; every other text is
/// passed on.
pub fn chat_text_action(text: &str) -> (a: ChatAction)
    ensures
        a is SendPong <==> contains_pattern(text@, seq!['P', 'I', 'N', 'G']),
{
    let chars = chars_of(text);
    let ping = vec!['P', 'I', 'N', 'G'];
    assert(ping@ =~= seq!['P', 'I', 'N', 'G']);
    match find_pattern(&chars, &ping) {
        Some(_) => ChatAction::SendPong,
        None => ChatAction::Forward,
    }
}

/// Splits `s` at each `"\r\n"`, reading left to right: the pieces completed
/// so far and the piece still being read.
pub open spec fn crlf_split_state(s: Seq<char>) -> (Seq<Seq<char>>, Seq<char>)
    decreases s.len(),
{
    if s.len() >= 2 && s[s.len() - 2] == '\r' && s[s.len() - 1] == '\n' {
        let (done, cur) = crlf_split_state(s.subrange(0, s.len() - 2));
        (done.push(cur), Seq::empty())
    } else if s.len() > 0 {
        let (done, cur) = crlf_split_state(s.drop_last());
        (done, cur.push(s.last()))
    } else {
        (Seq::empty(), Seq::empty())
    }
}

/// The pieces of `s` between its `"\r\n"` separators, as `str::split("\r\n")`
/// yields them (an empty piece where two separators meet or at an end).
pub open spec fn crlf_pieces(s: Seq<char>) -> Seq<Seq<char>> {
    let (done, cur) = crlf_split_state(s);
    done.push(cur)
}

/// The pieces that carry chat messages (mention `PRIVMSG`), in order.
pub open spec fn chat_pieces(pieces: Seq<Seq<char>>) -> Seq<Seq<char>>
    decreases pieces.len(),
{
    if pieces.len() == 0 {
        Seq::empty()
    } else if contains_pattern(pieces.last(), privmsg_command()) {
        chat_pieces(pieces.drop_last()).push(pieces.last())
    } else {
        chat_pieces(pieces.drop_last())
    }
}

proof fn lemma_chat_pieces_mention_privmsg(pieces: Seq<Seq<char>>, i: int)
    requires
        0 <= i < chat_pieces(pieces).len(),
    ensures
        contains_pattern(chat_pieces(pieces)[i], privmsg_command()),
    decreases pieces.len(),
{
    let rest = chat_pieces(pieces.drop_last());
    if contains_pattern(pieces.last(), privmsg_command()) {
        if i < rest.len() {
            lemma_chat_pieces_mention_privmsg(pieces.drop_last(), i);
        }
    } else {
        lemma_chat_pieces_mention_privmsg(pieces.drop_last(), i);
    }
}

/// Every line that the chat bot queues mentions `PRIVMSG`, so the analyzer
/// takes each of them for a chat message rather than skipping it.
pub proof fn law_queued_lines_are_chat_lines(received: Seq<char>, i: int)
    requires
        0 <= i < chat_pieces(crlf_pieces(trim(received))).len(),
    ensures
        contains_pattern(chat_pieces(crlf_pieces(trim(received)))[i], privmsg_command()),
{
    lemma_chat_pieces_mention_privmsg(crlf_pieces(trim(received)), i);
}

fn push_if_chat(lines: &mut Vec<String>, piece: &Vec<char>)
    ensures
        contains_pattern(piece@, privmsg_command()) ==> texts(final(lines)@) == texts(old(lines)@).push(piece@),
        !contains_pattern(piece@, privmsg_command()) ==> final(lines)@ == old(lines)@,
{
    let cmd = vec!['P', 'R', 'I', 'V', 'M', 'S', 'G'];
    assert(cmd@ =~= privmsg_command());
    if find_pattern(piece, &cmd).is_some() {
        let line = string_from_chars(piece);
        let ghost before = lines@;
        lines.push(line);
        assert(texts(lines@) =~= texts(before).push(
            piece@,
        ));
    }
}

/// The chat lines to queue from a text that the chat connection delivered:
/// the text is trimmed and split at each `"\r\n"`, and the pieces that
/// mention `PRIVMSG` are kept, in order.
pub fn queued_chat_lines(received_text: &str) -> (lines: Vec<String>)
    ensures
        texts(lines@) == chat_pieces(crlf_pieces(trim(received_text@))),
{
    let all = chars_of(received_text);
    let s = trim_chars(&all);
    let n = s.len();
    let mut lines: Vec<String> = Vec::new();
    let mut cur: Vec<char> = Vec::new();
    let mut i: usize = 0;
    while i < n
        invariant
            i <= n,
            n == s@.len(),
            cur@ == crlf_split_state(s@.take(i as int)).1,
            texts(lines@) == chat_pieces(
                crlf_split_state(s@.take(i as int)).0,
            ),
            i > 0 && s@[i - 1] == '\r' ==> i == n || s@[i as int] != '\n',
        decreases n - i,
    {
        if s[i] == '\r' && i + 1 < n && s[i + 1] == '\n' {
            let ghost done = crlf_split_state(s@.take(i as int)).0;
            assert(s@.take(i + 2).subrange(0, i as int) =~= s@.take(i as int));
            push_if_chat(&mut lines, &cur);
            assert(done.push(cur@).drop_last() =~= done);
            cur = Vec::new();
            i = i + 2;
        } else {
            assert(s@.take(i + 1).drop_last() =~= s@.take(i as int));
            cur.push(s[i]);
            i = i + 1;
        }
    }
    assert(s@.take(n as int) =~= s@);
    let ghost done = crlf_split_state(s@).0;
    push_if_chat(&mut lines, &cur);
    assert(done.push(cur@).drop_last() =~= done);
    lines
}

/// The two IRC lines that log in to the chat: the password line carrying
/// the OAuth token, then the nickname line.
pub fn login_messages(client_token: &str, client_username: &str) -> (lines: (String, String))
    ensures
        lines.0@ == "PASS oauth:"@ + client_token@,
        lines.1@ == "NICK "@ + client_username@,
{
    let mut pass = String::from_str("PASS oauth:");
    pass.append(client_token);
    let mut nick = String::from_str("NICK ");
    nick.append(client_username);
    (pass, nick)
}

/// Whether the chat bot writes its pending messages to the database now: it
/// does when it holds some and more than 30 seconds passed since it last did.
pub fn should_save_batch(pending: usize, seconds_since_save: u64) -> (b: bool)
    ensures
        b == (pending > 0 && seconds_since_save > 30),
{
    pending > 0 && seconds_since_save > 30
}

/// Whether the chat bot looks for live-state events again: it does when more
/// than 30 seconds passed since it last looked.
pub fn events_due(seconds_since_check: u64) -> (b: bool)
    ensures
        b == (seconds_since_check > 30),
{
    seconds_since_check > 30
}

/// Whether the stand-alone collector writes its pending messages to a file:
/// it does once it holds more than 100.
pub fn should_write_batch(pending: usize) -> (b: bool)
    ensures
        b == (pending > 100),
{
    pending > 100
}

/// What is done with a message taken from a queue.
pub struct Disposition {
    /// The message is deleted from the queue.
    pub acknowledge: bool,
    /// The message is handed on.
    pub keep: bool,
}

/// What is done with a message taken from a queue: one whose body parsed is
/// handed on; it is deleted right away where the reader acknowledges
/// automatically, and one whose body did not parse is always deleted.
pub fn dispose_queue_message(parsed: bool, auto_ack: bool) -> (d: Disposition)
    ensures
        d.keep == parsed,
        d.acknowledge == (auto_ack || !parsed),
{
    Disposition { acknowledge: auto_ack || !parsed, keep: parsed }
}

} // verus!
