use dashmap::{DashMap, ReadOnlyView};
use vstd::prelude::*;

use crate::parser::{
    irc_channel, irc_sender, irc_text, is_parsable_message, parsable_line, parse_message,
    privmsg_command,
};
use crate::text::{
    chars_of, contains_pattern, is_white_space, is_white_space_char, lowercase, remove_char,
    string_from_chars, trim,
};

verus! {

broadcast use vstd::string::group_string_axioms;

// ---------------------------------------------------------------------------
// Emote scores, held in a `dashmap` map
// ---------------------------------------------------------------------------

#[verifier::external_type_specification]
#[verifier::external_body]
#[verifier::reject_recursive_types(K)]
#[verifier::reject_recursive_types(V)]
#[verifier::reject_recursive_types(S)]
pub struct ExDashMap<K, V, S>(DashMap<K, V, S>);

#[verifier::external_type_specification]
#[verifier::external_body]
#[verifier::reject_recursive_types(K)]
#[verifier::reject_recursive_types(V)]
#[verifier::reject_recursive_types(S)]
pub struct ExReadOnlyView<K, V, S>(ReadOnlyView<K, V, S>);

/// A map from emote name to score.
pub type ScoreTable = DashMap<String, u8>;

/// A frozen map from emote name to score.
pub type ScoreView = ReadOnlyView<String, u8>;

/// What a map of emote scores holds: the score of each emote name.
pub uninterp spec fn score_table(m: DashMap<String, u8>) -> Map<Seq<char>, u8>;

/// What a frozen map of emote scores holds: the score of each emote name.
pub uninterp spec fn score_view(v: ReadOnlyView<String, u8>) -> Map<Seq<char>, u8>;

/// Makes an empty map (`DashMap::new`).
#[verifier::external_body]
fn new_score_table() -> (table: ScoreTable)
    ensures
        score_table(table) =~= Map::empty(),
{
    DashMap::new()
}

/// Sets the score of `name`, replacing any it had (`DashMap::insert`).
#[verifier::external_body]
fn insert_score(m: &mut ScoreTable, name: String, score: u8)
    ensures
        score_table(*final(m)) == score_table(*old(m)).insert(name@, score),
{
    m.insert(name, score);
}

/// Freezes the map for lock-free reads (`DashMap::into_read_only`).
#[verifier::external_body]
fn into_read_only(m: ScoreTable) -> (v: ScoreView)
    ensures
        score_view(v) == score_table(m),
{
    m.into_read_only()
}

/// The score of `name`, if the map has one (`ReadOnlyView::get`).
#[verifier::external_body]
fn lookup_score(v: &ScoreView, name: &str) -> (r: Option<u8>)
    ensures
        r == (if score_view(*v).dom().contains(name@) {
            Some(score_view(*v)[name@])
        } else {
            None::<u8>
        }),
{
    v.get(name).copied()
}

/// The scores that a list of emotes gives, in the order they are stored: the
/// score of each name is that of the last emote with the name, and an emote
/// without a score counts 1.
pub open spec fn emote_score_map(emotes: Seq<(String, Option<u8>)>) -> Map<Seq<char>, u8>
    decreases emotes.len(),
{
    if emotes.len() == 0 {
        Map::empty()
    } else {
        let (name, score) = emotes.last();
        emote_score_map(emotes.drop_last()).insert(
            name@,
            match score {
                Some(s) => s,
                None => 1u8,
            },
        )
    }
}

/// Puts the scores of the emotes, as the database lists them (name and
/// optional score), into a map.
pub fn collect_emote_scores(emotes: Vec<(String, Option<u8>)>) -> (m: DashMap<String, u8>)
    ensures
        score_table(m) == emote_score_map(emotes@),
{
    let mut m = new_score_table();
    let mut i: usize = 0;
    while i < emotes.len()
        invariant
            i <= emotes.len(),
            score_table(m) == emote_score_map(emotes@.take(i as int)),
        decreases emotes.len() - i,
    {
        let name = emotes[i].0.clone();
        let score = match emotes[i].1 {
            Some(s) => s,
            None => 1u8,
        };
        insert_score(&mut m, name, score);
        assert(emotes@.take(i + 1).drop_last() =~= emotes@.take(i as int));
        i = i + 1;
    }
    assert(emotes@.take(emotes.len() as int) =~= emotes@);
    m
}

/// The frozen map of the scores of the emotes, as the database lists them,
/// ready to be shared by the workers that score chat messages.
pub fn emote_score_view(emotes: Vec<(String, Option<u8>)>) -> (v: ScoreView)
    ensures
        score_view(v) == emote_score_map(emotes@),
{
    into_read_only(collect_emote_scores(emotes))
}

/// The score that the map gives an emote name is that of the last emote with
/// that name in the list, or 1 where that emote had no score.
pub proof fn law_last_emote_wins(emotes: Seq<(String, Option<u8>)>, i: int)
    requires
        0 <= i < emotes.len(),
        forall|j: int| i < j < emotes.len() ==> (#[trigger] emotes[j]).0@ != emotes[i].0@,
    ensures
        emote_score_map(emotes).dom().contains(emotes[i].0@),
        emote_score_map(emotes)[emotes[i].0@] == match emotes[i].1 {
            Some(s) => s,
            None => 1u8,
        },
    decreases emotes.len(),
{
    if i < emotes.len() - 1 {
        assert forall|j: int| i < j < emotes.drop_last().len() implies (
        #[trigger] emotes.drop_last()[j]).0@ != emotes.drop_last()[i].0@ by {
            assert(emotes.drop_last()[j] == emotes[j]);
        }
        law_last_emote_wins(emotes.drop_last(), i);
        assert(emotes[emotes.len() - 1].0@ != emotes[i].0@);
    }
}

/// A name that no emote in the list has gets no score from the map, so its
/// words score 0.
pub proof fn law_unknown_name_has_no_score(emotes: Seq<(String, Option<u8>)>, name: Seq<char>)
    requires
        forall|j: int| 0 <= j < emotes.len() ==> (#[trigger] emotes[j]).0@ != name,
    ensures
        !emote_score_map(emotes).dom().contains(name),
        word_score(emote_score_map(emotes), name) == 0,
    decreases emotes.len(),
{
    if emotes.len() > 0 {
        assert forall|j: int| 0 <= j < emotes.drop_last().len() implies (
        #[trigger] emotes.drop_last()[j]).0@ != name by {
            assert(emotes.drop_last()[j] == emotes[j]);
        }
        law_unknown_name_has_no_score(emotes.drop_last(), name);
        assert(emotes[emotes.len() - 1].0@ != name);
    }
}

/// Every message scores at least 100, and exactly 100 when none of its
/// tokens is an emote with a score.
pub proof fn law_message_score_floor(tokens: Seq<(String, u8)>)
    ensures
        100 + max_token_score(tokens) >= 100,
        (forall|i: int| 0 <= i < tokens.len() ==> (#[trigger] tokens[i]).1 == 0) ==> 100
            + max_token_score(tokens) == 100,
    decreases tokens.len(),
{
    if tokens.len() > 0 {
        if forall|i: int| 0 <= i < tokens.len() ==> (#[trigger] tokens[i]).1 == 0 {
            assert forall|i: int| 0 <= i < tokens.drop_last().len() implies (
            #[trigger] tokens.drop_last()[i]).1 == 0 by {
                assert(tokens.drop_last()[i] == tokens[i]);
            }
            assert(tokens[tokens.len() - 1].1 == 0);
        }
        law_message_score_floor(tokens.drop_last());
    }
}

// ---------------------------------------------------------------------------
// Words of a chat message
// ---------------------------------------------------------------------------

/// Splits `s` at whitespace, left to right: the words completed so far and
/// the word still being read.
pub open spec fn split_state(s: Seq<char>) -> (Seq<Seq<char>>, Seq<char>)
    decreases s.len(),
{
    if s.len() == 0 {
        (Seq::empty(), Seq::empty())
    } else {
        let (done, cur) = split_state(s.drop_last());
        let c = s.last();
        if is_white_space(c) {
            if cur.len() > 0 {
                (done.push(cur), Seq::empty())
            } else {
                (done, Seq::empty())
            }
        } else {
            (done, cur.push(c))
        }
    }
}

/// The words of `s`: its maximal runs of non-whitespace characters, in order,
/// as `str::split_whitespace` yields them.
pub open spec fn words(s: Seq<char>) -> Seq<Seq<char>> {
    let (done, cur) = split_state(s);
    if cur.len() > 0 {
        done.push(cur)
    } else {
        done
    }
}

/// A word that is not a mention (it does not start with `'@'`).
pub open spec fn is_token(w: Seq<char>) -> bool {
    w.len() > 0 && w[0] != '@'
}

/// The words that are kept as tokens, in order.
pub open spec fn token_words(ws: Seq<Seq<char>>) -> Seq<Seq<char>>
    decreases ws.len(),
{
    if ws.len() == 0 {
        Seq::empty()
    } else if is_token(ws.last()) {
        token_words(ws.drop_last()).push(ws.last())
    } else {
        token_words(ws.drop_last())
    }
}

proof fn lemma_split_state_words_nonempty(s: Seq<char>)
    ensures
        forall|i: int|
            0 <= i < split_state(s).0.len() ==> (#[trigger] split_state(s).0[i]).len() > 0,
    decreases s.len(),
{
    if s.len() > 0 {
        lemma_split_state_words_nonempty(s.drop_last());
        let (done, cur) = split_state(s.drop_last());
        if is_white_space(s.last()) && cur.len() > 0 {
            assert forall|i: int| 0 <= i < done.push(cur).len() implies (#[trigger] done.push(
                cur,
            )[i]).len() > 0 by {
                if i < done.len() {
                    assert(done.push(cur)[i] == done[i]);
                }
            }
        }
    }
}

/// Every word of a text holds at least one character.
pub proof fn law_words_are_nonempty(s: Seq<char>)
    ensures
        forall|i: int| 0 <= i < words(s).len() ==> (#[trigger] words(s)[i]).len() > 0,
{
    lemma_split_state_words_nonempty(s);
    let (done, cur) = split_state(s);
    if cur.len() > 0 {
        assert forall|i: int| 0 <= i < done.push(cur).len() implies (#[trigger] done.push(
            cur,
        )[i]).len() > 0 by {
            if i < done.len() {
                assert(done.push(cur)[i] == done[i]);
            }
        }
    }
}

proof fn lemma_token_words_drop_mentions(ws: Seq<Seq<char>>)
    requires
        forall|i: int| 0 <= i < ws.len() ==> (#[trigger] ws[i]).len() > 0,
    ensures
        token_words(ws) == ws.filter(|w: Seq<char>| w[0] != '@'),
    decreases ws.len(),
{
    reveal_with_fuel(Seq::filter, 1);
    if ws.len() > 0 {
        assert forall|i: int| 0 <= i < ws.drop_last().len() implies (
        #[trigger] ws.drop_last()[i]).len() > 0 by {
            assert(ws.drop_last()[i] == ws[i]);
        }
        lemma_token_words_drop_mentions(ws.drop_last());
        assert(ws[ws.len() - 1].len() > 0);
    }
}

/// Only mentions are dropped: the tokens of a message are its words, in
/// order, except those that start with `'@'`; a word that starts with any
/// other character (a letter, a digit, `'<'`, `':'`, ...) is kept.
pub proof fn law_only_mentions_are_dropped(message: Seq<char>)
    ensures
        token_words(words(message)) == words(message).filter(|w: Seq<char>| w[0] != '@'),
{
    law_words_are_nonempty(message);
    lemma_token_words_drop_mentions(words(message));
}

/// The score of a word: the emote score of that name, or 0 for a word that is
/// not an emote.
pub open spec fn word_score(scores: Map<Seq<char>, u8>, w: Seq<char>) -> u8 {
    if scores.dom().contains(w) {
        scores[w]
    } else {
        0
    }
}

/// `tokens` are the tokens among the words `ws`, each with its score.
pub open spec fn tokenized_words(
    ws: Seq<Seq<char>>,
    scores: Map<Seq<char>, u8>,
    tokens: Seq<(String, u8)>,
) -> bool {
    let tw = token_words(ws);
    &&& tokens.len() == tw.len()
    &&& forall|i: int|
        #![trigger tokens[i]]
        0 <= i < tokens.len() ==> tokens[i].0@ == tw[i] && tokens[i].1 == word_score(
            scores,
            tw[i],
        )
}

/// `tokens` are the tokens of `message`, each with its score.
pub open spec fn tokenized(
    message: Seq<char>,
    scores: Map<Seq<char>, u8>,
    tokens: Seq<(String, u8)>,
) -> bool {
    tokenized_words(words(message), scores, tokens)
}

proof fn lemma_tokenized_words_push(
    ws: Seq<Seq<char>>,
    w: Seq<char>,
    scores: Map<Seq<char>, u8>,
    before: Seq<(String, u8)>,
    after: Seq<(String, u8)>,
)
    requires
        tokenized_words(ws, scores, before),
        is_token(w) ==> after == before.push((after.last().0, word_score(scores, w)))
            && after.last().0@ == w,
        !is_token(w) ==> after == before,
    ensures
        tokenized_words(ws.push(w), scores, after),
{
    assert(ws.push(w).drop_last() =~= ws);
    if is_token(w) {
        assert forall|i: int| 0 <= i < after.len() implies #[trigger] after[i].0@ == token_words(
            ws.push(w),
        )[i] && after[i].1 == word_score(scores, token_words(ws.push(w))[i]) by {
            if i < before.len() {
                assert(after[i] == before[i]);
            }
        }
    }
}

fn emit_word(
    tokens: &mut Vec<(String, u8)>,
    word: &Vec<char>,
    emote_scores: &ReadOnlyView<String, u8>,
)
    requires
        word@.len() > 0,
    ensures
        is_token(word@) ==> final(tokens)@ == old(tokens)@.push(
            (final(tokens)@.last().0, word_score(score_view(*emote_scores), word@)),
        ) && final(tokens)@.last().0@ == word@,
        !is_token(word@) ==> final(tokens)@ == old(tokens)@,
{
    if word[0] != '@' {
        let w = string_from_chars(word);
        let score = match lookup_score(emote_scores, w.as_str()) {
            Some(s) => s,
            None => 0u8,
        };
        tokens.push((w, score));
    }
}

/// Splits a chat message into its words and pairs each word that is not a
/// mention (starting with `'@'`) with its emote score, 0 for a word that is
/// not an emote.
pub fn tokenize_message(message: &str, emote_scores: &ReadOnlyView<String, u8>) -> (tokens: Vec<
    (String, u8),
>)
    ensures
        tokenized(message@, score_view(*emote_scores), tokens@),
        tokens@.len() == words(message@).filter(|w: Seq<char>| w[0] != '@').len(),
        forall|i: int|
            #![trigger tokens@[i]]
            0 <= i < tokens@.len() ==> tokens@[i].0@ == words(message@).filter(
                |w: Seq<char>| w[0] != '@',
            )[i],
{
    proof {
        law_only_mentions_are_dropped(message@);
    }
    let chars = chars_of(message);
    let ghost scores = score_view(*emote_scores);
    let mut tokens: Vec<(String, u8)> = Vec::new();
    let mut cur: Vec<char> = Vec::new();
    let mut i: usize = 0;
    while i < chars.len()
        invariant
            i <= chars.len(),
            scores == score_view(*emote_scores),
            cur@ == split_state(chars@.take(i as int)).1,
            tokenized_words(split_state(chars@.take(i as int)).0, scores, tokens@),
        decreases chars.len() - i,
    {
        let c = chars[i];
        let ghost prefix = chars@.take(i as int);
        assert(chars@.take(i + 1).drop_last() =~= prefix);
        assert(chars@.take(i + 1).last() == c);
        if is_white_space_char(c) {
            if cur.len() > 0 {
                let ghost done = split_state(prefix).0;
                let ghost before = tokens@;
                emit_word(&mut tokens, &cur, emote_scores);
                proof {
                    lemma_tokenized_words_push(done, cur@, scores, before, tokens@);
                }
            }
            cur = Vec::new();
        } else {
            cur.push(c);
        }
        i = i + 1;
    }
    assert(chars@.take(chars.len() as int) =~= chars@);
    if cur.len() > 0 {
        let ghost done = split_state(chars@).0;
        let ghost before = tokens@;
        emit_word(&mut tokens, &cur, emote_scores);
        proof {
            lemma_tokenized_words_push(done, cur@, scores, before, tokens@);
        }
    }
    tokens
}

// ---------------------------------------------------------------------------
// Message scores
// ---------------------------------------------------------------------------

/// The highest score among the tokens, 0 when there are none.
pub open spec fn max_token_score(tokens: Seq<(String, u8)>) -> nat
    decreases tokens.len(),
{
    if tokens.len() == 0 {
        0
    } else {
        let m = max_token_score(tokens.drop_last());
        if tokens.last().1 > m {
            tokens.last().1 as nat
        } else {
            m
        }
    }
}

/// The highest score of some tokens is at least the score of each of them
/// and, where there are tokens, the score of one of them; so the score of a
/// message is 100 plus the score of its best emote.
pub proof fn law_highest_token_score(tokens: Seq<(String, u8)>)
    ensures
        max_token_score(tokens) <= u8::MAX,
        forall|i: int|
            0 <= i < tokens.len() ==> #[trigger] tokens[i].1 <= max_token_score(tokens),
        tokens.len() > 0 ==> exists|i: int|
            0 <= i < tokens.len() && #[trigger] tokens[i].1 == max_token_score(tokens),
    decreases tokens.len(),
{
    if tokens.len() > 0 {
        let rest = tokens.drop_last();
        law_highest_token_score(rest);
        assert forall|i: int| 0 <= i < tokens.len() implies #[trigger] tokens[i].1
            <= max_token_score(tokens) by {
            if i < tokens.len() - 1 {
                assert(tokens[i] == rest[i]);
            }
        }
        if tokens.last().1 > max_token_score(rest) {
            assert(tokens[tokens.len() - 1].1 == max_token_score(tokens));
        } else if rest.len() > 0 {
            let k = choose|k: int| 0 <= k < rest.len() && #[trigger] rest[k].1 == max_token_score(rest);
            assert(tokens[k] == rest[k]);
            assert(tokens[k].1 == max_token_score(tokens));
        } else {
            assert(max_token_score(rest) == 0);
            assert(tokens[0].1 == max_token_score(tokens));
        }
    }
}

/// Two lists of tokens with the same scores, one by one, have the same
/// highest score.
proof fn lemma_max_token_score_same_scores(t1: Seq<(String, u8)>, t2: Seq<(String, u8)>)
    requires
        t1.len() == t2.len(),
        forall|i: int| 0 <= i < t1.len() ==> #[trigger] t1[i].1 == t2[i].1,
    ensures
        max_token_score(t1) == max_token_score(t2),
    decreases t1.len(),
{
    if t1.len() > 0 {
        assert forall|i: int| 0 <= i < t1.drop_last().len() implies #[trigger] t1.drop_last()[i].1
            == t2.drop_last()[i].1 by {
            assert(t1.drop_last()[i] == t1[i]);
            assert(t2.drop_last()[i] == t2[i]);
        }
        lemma_max_token_score_same_scores(t1.drop_last(), t2.drop_last());
        assert(t1[t1.len() - 1].1 == t2[t2.len() - 1].1);
    }
}

/// The highest score among the tokens, 0 when there are none.
fn highest_token_score(tokens: &Vec<(String, u8)>) -> (m: u8)
    ensures
        m == max_token_score(tokens@),
{
    let mut modifier: u8 = 0;
    let mut i: usize = 0;
    while i < tokens.len()
        invariant
            i <= tokens.len(),
            modifier == max_token_score(tokens@.take(i as int)),
        decreases tokens.len() - i,
    {
        assert(tokens@.take(i + 1).drop_last() =~= tokens@.take(i as int));
        if tokens[i].1 > modifier {
            modifier = tokens[i].1;
        }
        i = i + 1;
    }
    assert(tokens@.take(tokens.len() as int) =~= tokens@);
    modifier
}

/// The score of a message: 100 plus the highest score among its tokens.
pub fn calculate_message_score(tokens: &Vec<(String, u8)>) -> (score: u8)
    requires
        max_token_score(tokens@) <= 155,
    ensures
        score == 100 + max_token_score(tokens@),
{
    100 + highest_token_score(tokens)
}

/// A chat message with its tokens and its score.
pub struct AnalysedMessage {
    pub message: String,
    pub tokens: Vec<(String, u8)>,
    pub message_score: u8,
}

/// The tokens that [`tokenize_message`] gives for `message` are what its
/// contract states; `analyze_message` may be called where their highest
/// score leaves room for the 100 that every message starts with.
pub open spec fn analyzable(message: Seq<char>, scores: Map<Seq<char>, u8>) -> bool {
    forall|tokens: Seq<(String, u8)>|
        tokenized(message, scores, tokens) ==> max_token_score(tokens) <= 155
}

/// Whether [`analyze_message`] may be called on `message`: the highest score
/// among its tokens leaves room for the 100 that every message starts with.
pub fn is_analyzable_message(message: &str, emote_scores: &ScoreView) -> (b: bool)
    ensures
        b == analyzable(message@, score_view(*emote_scores)),
{
    let tokens = tokenize_message(message, emote_scores);
    let m = highest_token_score(&tokens);
    proof {
        let scores = score_view(*emote_scores);
        assert forall|t2: Seq<(String, u8)>| tokenized(message@, scores, t2) implies max_token_score(
            t2,
        ) == max_token_score(tokens@) by {
            assert forall|i: int| 0 <= i < tokens@.len() implies #[trigger] tokens@[i].1
                == t2[i].1 by {
                assert(tokens@[i].1 == word_score(scores, token_words(words(message@))[i]));
                assert(t2[i].1 == word_score(scores, token_words(words(message@))[i]));
            }
            lemma_max_token_score_same_scores(tokens@, t2);
        }
    }
    m <= 155
}

/// Tokenizes and scores a chat message.
pub fn analyze_message(message: String, emote_scores: &ScoreView) -> (r: AnalysedMessage)
    requires
        analyzable(message@, score_view(*emote_scores)),
    ensures
        r.message@ == message@,
        tokenized(message@, score_view(*emote_scores), r.tokens@),
        r.message_score == 100 + max_token_score(r.tokens@),
{
    let tokens = tokenize_message(message.as_str(), emote_scores);
    let message_score = calculate_message_score(&tokens);
    AnalysedMessage { message, message_score, tokens }
}

/// A chat message with its channel, sender, time and score, ready to be stored.
pub struct ScoredChatMessage {
    pub channel: String,
    pub sender: String,
    pub message: String,
    /// Milliseconds since the Unix epoch.
    pub timestamp: i64,
    pub message_score: u8,
}

/// What a raw chat line may be handed to [`analyze_chat_line`] with: it parses,
/// and the message it carries can be scored.
pub open spec fn scorable_line(line: Seq<char>, scores: Map<Seq<char>, u8>) -> bool {
    &&& parsable_line(line)
    &&& contains_pattern(line, privmsg_command()) ==> analyzable(
        trim(irc_text(trim(line))),
        scores,
    )
}

/// Whether [`analyze_chat_line`] may be called on `line`.
pub fn is_scorable_line(line: &str, emote_scores: &ScoreView) -> (b: bool)
    ensures
        b == scorable_line(line@, score_view(*emote_scores)),
{
    if !is_parsable_message(line) {
        return false;
    }
    match parse_message(line.to_owned(), 0) {
        Some(parsed) => is_analyzable_message(parsed.message.as_str(), emote_scores),
        None => true,
    }
}

/// Parses a raw chat line taken from the queue and scores its message; a
/// line that is not a chat message gives `None`.
pub fn analyze_chat_line(line: String, timestamp: i64, emote_scores: &ScoreView) -> (r: Option<
    ScoredChatMessage,
>)
    requires
        scorable_line(line@, score_view(*emote_scores)),
    ensures
        r is Some <==> contains_pattern(line@, privmsg_command()),
        r matches Some(m) ==> m.sender@ == lowercase(trim(remove_char(irc_sender(trim(line@)), ':'))),
        r matches Some(m) ==> m.channel@ == lowercase(trim(irc_channel(trim(line@)))),
        r matches Some(m) ==> m.message@ == trim(irc_text(trim(line@))),
        r matches Some(m) ==> m.timestamp == timestamp,
        r matches Some(m) ==> exists|tokens: Seq<(String, u8)>|
            #[trigger] tokenized(m.message@, score_view(*emote_scores), tokens)
                && m.message_score == 100 + max_token_score(tokens),
{
    match parse_message(line, timestamp) {
        Some(parsed) => {
            let analysed = analyze_message(parsed.message, emote_scores);
            let ghost toks = analysed.tokens@;
            let m = ScoredChatMessage {
                channel: parsed.channel,
                sender: parsed.sender,
                message: analysed.message,
                timestamp: parsed.timestamp,
                message_score: analysed.message_score,
            };
            assert(tokenized(m.message@, score_view(*emote_scores), toks) && m.message_score
                == 100 + max_token_score(toks));
            Some(m)
        },
        None => None,
    }
}

} // verus!
