use vstd::prelude::*;
use vstd::string::*;

verus! {

broadcast use vstd::string::group_string_axioms;

/// The characters of `s`, in order.
pub fn chars_of(s: &str) -> (v: Vec<char>)
    ensures
        v@ == s@,
{
    let mut v: Vec<char> = Vec::new();
    for c in it: s.chars()
        invariant
            v@ == it.seq().take(it.index() as int),
            it.seq() == s@,
    {
        v.push(c);
    }
    v
}

// ---------------------------------------------------------------------------
// Whitespace
// ---------------------------------------------------------------------------

/// The Unicode `White_Space` property (PropList.txt), which is what
/// `char::is_whitespace` tests and what `str::trim` and
/// `str::split_whitespace` split on.
pub open spec fn is_white_space(c: char) -> bool {
    ||| ('\u{9}' <= c && c <= '\u{d}')
    ||| c == ' '
    ||| c == '\u{85}'
    ||| c == '\u{a0}'
    ||| c == '\u{1680}'
    ||| ('\u{2000}' <= c && c <= '\u{200a}')
    ||| c == '\u{2028}'
    ||| c == '\u{2029}'
    ||| c == '\u{202f}'
    ||| c == '\u{205f}'
    ||| c == '\u{3000}'
}

/// Executable form of [`is_white_space`].
pub fn is_white_space_char(c: char) -> (b: bool)
    ensures
        b == is_white_space(c),
{
    ('\u{9}' <= c && c <= '\u{d}') || c == ' ' || c == '\u{85}' || c == '\u{a0}' || c
        == '\u{1680}' || ('\u{2000}' <= c && c <= '\u{200a}') || c == '\u{2028}' || c
        == '\u{2029}' || c == '\u{202f}' || c == '\u{205f}' || c == '\u{3000}'
}

/// An ASCII decimal digit, `'0'..='9'`.
pub open spec fn is_ascii_digit(c: char) -> bool {
    '0' <= c && c <= '9'
}

// ---------------------------------------------------------------------------
// Trimming
// ---------------------------------------------------------------------------

/// `s` without its leading whitespace.
pub open spec fn trim_start(s: Seq<char>) -> Seq<char>
    decreases s.len(),
{
    if s.len() > 0 && is_white_space(s[0]) {
        trim_start(s.drop_first())
    } else {
        s
    }
}

/// `s` without its trailing whitespace.
pub open spec fn trim_end(s: Seq<char>) -> Seq<char>
    decreases s.len(),
{
    if s.len() > 0 && is_white_space(s.last()) {
        trim_end(s.drop_last())
    } else {
        s
    }
}

/// `s` without leading and trailing whitespace, as `str::trim` returns it.
pub open spec fn trim(s: Seq<char>) -> Seq<char> {
    trim_end(trim_start(s))
}

proof fn lemma_trim_start_skip(s: Seq<char>, k: int)
    requires
        0 <= k <= s.len(),
        forall|i: int| 0 <= i < k ==> is_white_space(#[trigger] s[i]),
    ensures
        trim_start(s) == trim_start(s.subrange(k, s.len() as int)),
    decreases k,
{
    if k > 0 {
        assert(s.drop_first().subrange(k - 1, s.drop_first().len() as int) =~= s.subrange(
            k,
            s.len() as int,
        ));
        lemma_trim_start_skip(s.drop_first(), k - 1);
    } else {
        assert(s.subrange(0, s.len() as int) =~= s);
    }
}

proof fn lemma_trim_end_cut(s: Seq<char>, k: int)
    requires
        0 <= k <= s.len(),
        forall|i: int| k <= i < s.len() ==> is_white_space(#[trigger] s[i]),
    ensures
        trim_end(s) == trim_end(s.subrange(0, k)),
    decreases s.len() - k,
{
    if k < s.len() {
        assert(s.drop_last().subrange(0, k) =~= s.subrange(0, k));
        lemma_trim_end_cut(s.drop_last(), k);
    } else {
        assert(s.subrange(0, k) =~= s);
    }
}

/// Leading whitespace is taken from the front part as long as it has
/// something else, and from the back part once the front part is all
/// whitespace.
pub(crate) proof fn lemma_trim_start_concat(x: Seq<char>, y: Seq<char>)
    ensures
        trim_start(x + y) == (if trim_start(x).len() > 0 {
            trim_start(x) + y
        } else {
            trim_start(y)
        }),
    decreases x.len(),
{
    if x.len() == 0 {
        assert(x + y =~= y);
    } else if is_white_space(x[0]) {
        assert((x + y).drop_first() =~= x.drop_first() + y);
        lemma_trim_start_concat(x.drop_first(), y);
    }
}

/// Trailing whitespace is taken from the back part as long as it has
/// something else, and from the front part once the back part is all
/// whitespace.
pub(crate) proof fn lemma_trim_end_concat(x: Seq<char>, y: Seq<char>)
    ensures
        trim_end(x + y) == (if trim_end(y).len() > 0 {
            x + trim_end(y)
        } else {
            trim_end(x)
        }),
    decreases y.len(),
{
    if y.len() == 0 {
        assert(x + y =~= x);
    } else if is_white_space(y.last()) {
        assert((x + y).drop_last() =~= x + y.drop_last());
        lemma_trim_end_concat(x, y.drop_last());
    }
}

/// A whitespace character added at the end does not change the trimmed text.
pub(crate) proof fn lemma_trim_push_white(x: Seq<char>, c: char)
    requires
        is_white_space(c),
    ensures
        trim(x.push(c)) == trim(x),
{
    let e = Seq::<char>::empty();
    assert(x.push(c) =~= x + seq![c]);
    lemma_trim_start_concat(x, seq![c]);
    assert(seq![c].drop_first() =~= e);
    assert(seq![c].drop_last() =~= e);
    assert(seq![c][0] == c);
    assert(trim_start(e) == e);
    assert(trim_end(e) == e);
    assert(trim_start(seq![c]) == e);
    assert(trim_end(seq![c]) == e);
    if trim_start(x).len() > 0 {
        lemma_trim_end_concat(trim_start(x), seq![c]);
    } else {
        assert(trim_start(x) =~= e);
    }
}

/// Trimming after trimming the end is trimming.
pub(crate) proof fn lemma_trim_after_trim_end(x: Seq<char>)
    ensures
        trim(trim_end(x)) == trim(x),
    decreases x.len(),
{
    if x.len() > 0 && is_white_space(x.last()) {
        lemma_trim_after_trim_end(x.drop_last());
        lemma_trim_push_white(x.drop_last(), x.last());
        assert(x.drop_last().push(x.last()) =~= x);
    }
}

/// The characters of `s` without leading and trailing whitespace.
pub fn trim_chars(s: &Vec<char>) -> (r: Vec<char>)
    ensures
        r@ == trim(s@),
{
    let n = s.len();
    let mut lo: usize = 0;
    while lo < n && is_white_space_char(s[lo])
        invariant
            lo <= n,
            n == s@.len(),
            forall|i: int| 0 <= i < lo ==> is_white_space(#[trigger] s@[i]),
        decreases n - lo,
    {
        lo = lo + 1;
    }
    proof {
        lemma_trim_start_skip(s@, lo as int);
    }
    let ghost t = s@.subrange(lo as int, n as int);
    assert(!(t.len() > 0 && is_white_space(t[0])));
    assert(trim_start(s@) == t);
    let mut hi: usize = n;
    while hi > lo && is_white_space_char(s[hi - 1])
        invariant
            lo <= hi <= n,
            n == s@.len(),
            forall|i: int| hi <= i < n ==> is_white_space(#[trigger] s@[i]),
        decreases hi,
    {
        hi = hi - 1;
    }
    proof {
        lemma_trim_end_cut(t, hi - lo);
        assert(t.subrange(0, hi - lo) =~= s@.subrange(lo as int, hi as int));
    }
    let r = slice_chars(s, lo, hi);
    r
}

/// The characters of `s` at positions `lo..hi`.
pub fn slice_chars(s: &Vec<char>, lo: usize, hi: usize) -> (r: Vec<char>)
    requires
        lo <= hi <= s.len(),
    ensures
        r@ == s@.subrange(lo as int, hi as int),
{
    let mut r: Vec<char> = Vec::new();
    let mut i = lo;
    while i < hi
        invariant
            lo <= i <= hi <= s.len(),
            r@ == s@.subrange(lo as int, i as int),
        decreases hi - i,
    {
        r.push(s[i]);
        i = i + 1;
    }
    r
}

// ---------------------------------------------------------------------------
// Searching and splitting
// ---------------------------------------------------------------------------

/// `pat` occurs in `s` starting at position `i`.
pub open spec fn occurs_at(s: Seq<char>, pat: Seq<char>, i: int) -> bool {
    0 <= i && i + pat.len() <= s.len() && s.subrange(i, i + pat.len()) == pat
}

/// `pat` occurs somewhere in `s`, as `str::contains` tests.
pub open spec fn contains_pattern(s: Seq<char>, pat: Seq<char>) -> bool {
    exists|i: int| occurs_at(s, pat, i)
}

/// `i` is the first position at which `pat` occurs in `s`.
pub open spec fn first_occurrence(s: Seq<char>, pat: Seq<char>, i: int) -> bool {
    occurs_at(s, pat, i) && forall|j: int| 0 <= j < i ==> !occurs_at(s, pat, j)
}

/// Whether `pat` occurs in `s` at `i`.
fn matches_at(s: &Vec<char>, pat: &Vec<char>, i: usize) -> (b: bool)
    requires
        i + pat.len() <= s.len(),
    ensures
        b == occurs_at(s@, pat@, i as int),
{
    let mut k: usize = 0;
    while k < pat.len()
        invariant
            i + pat.len() <= s.len(),
            k <= pat.len(),
            forall|j: int| 0 <= j < k ==> s@[i + j] == pat@[j],
        decreases pat.len() - k,
    {
        if s[i + k] != pat[k] {
            assert(s@.subrange(i as int, i + pat.len())[k as int] != pat@[k as int]);
            return false;
        }
        k = k + 1;
    }
    assert(s@.subrange(i as int, i + pat.len()) =~= pat@);
    true
}

/// The first position at which `pat` occurs in `s`, if any.
pub fn find_pattern(s: &Vec<char>, pat: &Vec<char>) -> (r: Option<usize>)
    ensures
        match r {
            Some(i) => first_occurrence(s@, pat@, i as int),
            None => !contains_pattern(s@, pat@),
        },
{
    if pat.len() > s.len() {
        return None;
    }
    if pat.len() == 0 {
        assert(s@.subrange(0, 0) =~= pat@);
        return Some(0);
    }
    let last = s.len() - pat.len();
    let mut i: usize = 0;
    while i <= last
        invariant
            last + pat.len() == s.len(),
            pat.len() > 0,
            forall|j: int| 0 <= j < i ==> !occurs_at(s@, pat@, j),
        decreases last + 1 - i,
    {
        if matches_at(s, pat, i) {
            return Some(i);
        }
        i = i + 1;
    }
    assert forall|j: int| !occurs_at(s@, pat@, j) by {
        if 0 <= j && j < i {
        }
    }
    None
}

/// `s` with every occurrence of `c` removed.
pub open spec fn remove_char(s: Seq<char>, c: char) -> Seq<char>
    decreases s.len(),
{
    if s.len() == 0 {
        s
    } else if s.last() == c {
        remove_char(s.drop_last(), c)
    } else {
        remove_char(s.drop_last(), c).push(s.last())
    }
}

/// Removing a character that `s` does not hold leaves `s` as it is.
pub(crate) proof fn lemma_remove_absent_char(s: Seq<char>, c: char)
    requires
        !s.contains(c),
    ensures
        remove_char(s, c) == s,
    decreases s.len(),
{
    if s.len() > 0 {
        assert(!s.drop_last().contains(c)) by {
            if s.drop_last().contains(c) {
                let k = choose|k: int| 0 <= k < s.drop_last().len() && s.drop_last()[k] == c;
                assert(s[k] == c);
            }
        }
        lemma_remove_absent_char(s.drop_last(), c);
        assert(s[s.len() - 1] != c);
        assert(s.drop_last().push(s.last()) =~= s);
    }
}

/// Removing `c` from a text that starts with `c` removes that first `c` too.
pub(crate) proof fn lemma_remove_char_leading(s: Seq<char>, c: char)
    ensures
        remove_char(seq![c] + s, c) == remove_char(s, c),
    decreases s.len(),
{
    if s.len() == 0 {
        assert(seq![c] + s =~= seq![c]);
        assert(seq![c].drop_last() =~= Seq::<char>::empty());
        assert(seq![c].last() == c);
        assert(remove_char(Seq::<char>::empty(), c) == Seq::<char>::empty());
    } else {
        assert((seq![c] + s).drop_last() =~= seq![c] + s.drop_last());
        assert((seq![c] + s).last() == s.last());
        assert((seq![c] + s).len() > 0);
        lemma_remove_char_leading(s.drop_last(), c);
    }
}

/// The characters of `s` with every `c` removed, as `str::replace(c, "")` gives them.
pub fn remove_char_chars(s: &Vec<char>, c: char) -> (r: Vec<char>)
    ensures
        r@ == remove_char(s@, c),
{
    let mut r: Vec<char> = Vec::new();
    let mut i: usize = 0;
    while i < s.len()
        invariant
            i <= s.len(),
            r@ == remove_char(s@.take(i as int), c),
        decreases s.len() - i,
    {
        assert(s@.take(i + 1).drop_last() =~= s@.take(i as int));
        if s[i] != c {
            r.push(s[i]);
        }
        i = i + 1;
    }
    assert(s@.take(s.len() as int) =~= s@);
    r
}

// ---------------------------------------------------------------------------
// Building strings
// ---------------------------------------------------------------------------

/// Appends one character to a `String` (std `String::push`).
#[verifier::external_body]
pub(crate) fn push_char(s: &mut String, c: char)
    ensures
        final(s)@ == old(s)@.push(c),
{
    s.push(c);
}

/// A `String` holding the characters of `v`.
pub fn string_from_chars(v: &Vec<char>) -> (s: String)
    ensures
        s@ == v@,
{
    let mut s = String::new();
    let mut i: usize = 0;
    while i < v.len()
        invariant
            i <= v.len(),
            s@ == v@.take(i as int),
        decreases v.len() - i,
    {
        push_char(&mut s, v[i]);
        assert(v@.take(i + 1) =~= v@.take(i as int).push(v@[i as int]));
        i = i + 1;
    }
    assert(v@.take(v.len() as int) =~= v@);
    s
}

/// What `str::to_lowercase` returns for a string: each character mapped by
/// Unicode's lowercase mapping, which may turn one character into several.
pub uninterp spec fn lowercase(s: Seq<char>) -> Seq<char>;

/// Calls std `str::to_lowercase`; its result is named [`lowercase`] of the input.
#[verifier::external_body]
pub(crate) fn to_lowercase(s: &str) -> (r: String)
    ensures
        r@ == lowercase(s@),
{
    s.to_lowercase()
}

} // verus!
