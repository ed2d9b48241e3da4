use vstd::prelude::*;

use crate::decimal::{lemma_nat_digits_roundtrip, nat_digits};
use crate::text::{chars_of, is_ascii_digit};

verus! {

/// The value of an ASCII digit.
pub open spec fn digit_value(c: char) -> nat {
    (c as int - '0' as int) as nat
}

/// The number that a run of ASCII digits writes in decimal.
pub open spec fn digits_value(d: Seq<char>) -> nat
    decreases d.len(),
{
    if d.len() == 0 {
        0
    } else {
        digits_value(d.drop_last()) * 10 + digit_value(d.last())
    }
}

/// The longest run of ASCII digits that `s` ends with.
pub open spec fn trailing_digits(s: Seq<char>) -> Seq<char>
    decreases s.len(),
{
    if s.len() > 0 && is_ascii_digit(s.last()) {
        trailing_digits(s.drop_last()).push(s.last())
    } else {
        seq![]
    }
}

/// What `str::parse::<u32>` gives for a run of ASCII digits, with a failed
/// parse (an empty run, or a number above `u32::MAX`) read as 0.
pub open spec fn run_value(d: Seq<char>) -> nat {
    if d.len() == 0 || digits_value(d) > u32::MAX {
        0
    } else {
        digits_value(d)
    }
}

/// The amount that `s` last gave the unit letter `unit`: the digits right
/// before the last occurrence of `unit`, or 0 where `unit` does not occur.
pub open spec fn unit_amount(s: Seq<char>, unit: char) -> nat
    decreases s.len(),
{
    if s.len() == 0 {
        0
    } else if s.last() == unit {
        run_value(trailing_digits(s.drop_last()))
    } else {
        unit_amount(s.drop_last(), unit)
    }
}

/// The number of seconds that a Twitch duration such as `"3h10m58s"` or
/// `"1d1h1m1s"` stands for: the `d`, `h`, `m` and `s` amounts weighted by
/// 86400, 3600, 60 and 1.
pub open spec fn duration_seconds(s: Seq<char>) -> nat {
    unit_amount(s, 's') + 60 * (unit_amount(s, 'm') + 60 * (unit_amount(s, 'h') + 24
        * unit_amount(s, 'd')))
}

/// The amounts that a Twitch duration gives its seconds, minutes, hours and
/// days.
fn duration_amounts(duration: &str) -> (r: (u32, u32, u32, u32))
    ensures
        r.0 == unit_amount(duration@, 's'),
        r.1 == unit_amount(duration@, 'm'),
        r.2 == unit_amount(duration@, 'h'),
        r.3 == unit_amount(duration@, 'd'),
{
    let chars = chars_of(duration);
    let n = chars.len();
    let mut seconds: u32 = 0;
    let mut minutes: u32 = 0;
    let mut hours: u32 = 0;
    let mut days: u32 = 0;
    let mut run_len: usize = 0;
    let mut run: u64 = 0;
    let mut too_large = false;
    let mut i: usize = 0;
    while i < n
        invariant
            i <= n,
            n == chars@.len(),
            run_len == trailing_digits(chars@.take(i as int)).len(),
            too_large == (digits_value(trailing_digits(chars@.take(i as int))) > u32::MAX),
            !too_large ==> run == digits_value(trailing_digits(chars@.take(i as int))),
            seconds == unit_amount(chars@.take(i as int), 's'),
            minutes == unit_amount(chars@.take(i as int), 'm'),
            hours == unit_amount(chars@.take(i as int), 'h'),
            days == unit_amount(chars@.take(i as int), 'd'),
            run_len <= i,
        decreases n - i,
    {
        let c = chars[i];
        let ghost prefix = chars@.take(i as int);
        assert(chars@.take(i + 1) =~= prefix.push(c));
        assert(chars@.take(i + 1).drop_last() =~= prefix);
        if '0' <= c && c <= '9' {
            let d = (c as u64) - ('0' as u64);
            let ghost t = trailing_digits(prefix);
            assert(trailing_digits(prefix.push(c)) =~= t.push(c));
            assert(t.push(c).drop_last() =~= t);
            assert(digits_value(t.push(c)) == digits_value(t) * 10 + d);
            if !too_large {
                let next = run * 10 + d;
                if next > 4294967295 {
                    too_large = true;
                } else {
                    run = next;
                }
            }
            run_len = run_len + 1;
        } else {
            let amount: u32 = if run_len == 0 || too_large {
                0
            } else {
                run as u32
            };
            if c == 's' {
                seconds = amount;
            } else if c == 'm' {
                minutes = amount;
            } else if c == 'h' {
                hours = amount;
            } else if c == 'd' {
                days = amount;
            }
            run_len = 0;
            run = 0;
            too_large = false;
        }
        i = i + 1;
    }
    assert(chars@.take(n as int) =~= chars@);
    (seconds, minutes, hours, days)
}

/// The weighted sum of the amounts, computed where it cannot overflow.
fn total_seconds(s: u32, m: u32, h: u32, d: u32) -> (t: u64)
    ensures
        t == s + 60 * (m + 60 * (h + 24 * d)),
{
    let ghost si = s as int;
    let ghost mi = m as int;
    let ghost hi = h as int;
    let ghost di = d as int;
    assert(0 <= 60 * (mi + 60 * (hi + 24 * di)) <= 60 * (4294967295 + 60 * (4294967295 + 24
        * 4294967295))) by (nonlinear_arith)
        requires
            0 <= mi <= 4294967295,
            0 <= hi <= 4294967295,
            0 <= di <= 4294967295,
    ;
    (s as u64) + 60 * ((m as u64) + 60 * ((h as u64) + 24 * (d as u64)))
}

/// Reads a Twitch video duration such as `"3h10m58s"` as a number of seconds.
///
/// Each of the letters `d`, `h`, `m` and `s` takes the run of ASCII digits
/// right before it as its amount (0 where the run is empty or does not fit in
/// a `u32`); a later letter of the same kind replaces an earlier one, any
/// other character only ends the current run, and digits at the end that no
/// letter follows are ignored.
pub fn calculate_video_duration(duration: &str) -> (seconds: u32)
    requires
        duration_seconds(duration@) <= u32::MAX,
    ensures
        seconds == duration_seconds(duration@),
{
    let (s, m, h, d) = duration_amounts(duration);
    total_seconds(s, m, h, d) as u32
}

/// [`calculate_video_duration`] where the number of seconds fits in a `u32`,
/// and `None` where it does not.
pub fn checked_video_duration(duration: &str) -> (r: Option<u32>)
    ensures
        duration_seconds(duration@) <= u32::MAX ==> r == Some(duration_seconds(duration@) as u32),
        duration_seconds(duration@) > u32::MAX ==> r is None,
{
    let (s, m, h, d) = duration_amounts(duration);
    let t = total_seconds(s, m, h, d);
    if t <= 4294967295 {
        Some(t as u32)
    } else {
        None
    }
}

proof fn lemma_trailing_digits_after_letter(p: Seq<char>, d: Seq<char>)
    requires
        p.len() == 0 || !is_ascii_digit(p.last()),
        forall|k: int| 0 <= k < d.len() ==> is_ascii_digit(#[trigger] d[k]),
    ensures
        trailing_digits(p + d) == d,
    decreases d.len(),
{
    if d.len() == 0 {
        assert(p + d =~= p);
    } else {
        lemma_trailing_digits_after_letter(p, d.drop_last());
        assert((p + d).drop_last() =~= p + d.drop_last());
        assert(d.drop_last().push(d.last()) =~= d);
    }
}

proof fn lemma_unit_amount_skip(t: Seq<char>, w: Seq<char>, unit: char)
    requires
        forall|k: int| 0 <= k < w.len() ==> #[trigger] w[k] != unit,
    ensures
        unit_amount(t + w, unit) == unit_amount(t, unit),
    decreases w.len(),
{
    if w.len() == 0 {
        assert(t + w =~= t);
    } else {
        lemma_unit_amount_skip(t, w.drop_last(), unit);
        assert((t + w).drop_last() =~= t + w.drop_last());
    }
}

/// The amount a unit letter takes from the digits of `n` written right
/// before it, after a letter (or at the start).
proof fn lemma_unit_amount_of_digits(p: Seq<char>, n: nat, unit: char)
    requires
        p.len() == 0 || !is_ascii_digit(p.last()),
        n <= u32::MAX,
        !is_ascii_digit(unit),
    ensures
        unit_amount((p + nat_digits(n)).push(unit), unit) == n,
{
    lemma_nat_digits_roundtrip(n);
    lemma_trailing_digits_after_letter(p, nat_digits(n));
    assert((p + nat_digits(n)).push(unit).drop_last() =~= p + nat_digits(n));
}

/// The text of a duration written as days, hours, minutes and seconds.
pub open spec fn written_duration(d: nat, h: nat, m: nat, s: nat) -> Seq<char> {
    nat_digits(d) + seq!['d'] + nat_digits(h) + seq!['h'] + nat_digits(m) + seq!['m'] + nat_digits(s)
        + seq!['s']
}

/// A duration written with decimal amounts of days, hours, minutes and
/// seconds, as in `"1d1h1m1s"`, reads as `86400 d + 3600 h + 60 m + s` seconds.
pub proof fn law_written_duration(d: nat, h: nat, m: nat, s: nat)
    requires
        d <= u32::MAX,
        h <= u32::MAX,
        m <= u32::MAX,
        s <= u32::MAX,
    ensures
        duration_seconds(written_duration(d, h, m, s)) == s + 60 * m + 3600 * h + 86400 * d,
{
    let dd = nat_digits(d);
    let hh = nat_digits(h);
    let mm = nat_digits(m);
    let ss = nat_digits(s);
    lemma_nat_digits_roundtrip(d);
    lemma_nat_digits_roundtrip(h);
    lemma_nat_digits_roundtrip(m);
    lemma_nat_digits_roundtrip(s);
    let e: Seq<char> = Seq::empty();
    let pd = (e + dd).push('d');
    let ph = (pd + hh).push('h');
    let pm = (ph + mm).push('m');
    let ps = (pm + ss).push('s');
    assert(ps =~= written_duration(d, h, m, s));
    lemma_unit_amount_of_digits(e, d, 'd');
    lemma_unit_amount_of_digits(pd, h, 'h');
    lemma_unit_amount_of_digits(ph, m, 'm');
    lemma_unit_amount_of_digits(pm, s, 's');
    // each letter's amount is untouched by what follows it
    assert(ps =~= ph + (mm.push('m') + ss.push('s')));
    assert forall|k: int| 0 <= k < (mm.push('m') + ss.push('s')).len() implies #[trigger] (
    mm.push('m') + ss.push('s'))[k] != 'h' by {
        if k < mm.len() {
            assert((mm.push('m') + ss.push('s'))[k] == mm[k]);
        } else if k > mm.len() {
            let j = k - mm.len() - 1;
            if j < ss.len() {
                assert((mm.push('m') + ss.push('s'))[k] == ss[j]);
            }
        }
    }
    lemma_unit_amount_skip(ph, mm.push('m') + ss.push('s'), 'h');
    assert(ps =~= pm + ss.push('s'));
    assert forall|k: int| 0 <= k < ss.push('s').len() implies #[trigger] ss.push('s')[k] != 'm' by {
        if k < ss.len() {
            assert(ss.push('s')[k] == ss[k]);
        }
    }
    lemma_unit_amount_skip(pm, ss.push('s'), 'm');
    let rest_d = hh.push('h') + mm.push('m') + ss.push('s');
    assert(ps =~= pd + rest_d);
    assert forall|k: int| 0 <= k < rest_d.len() implies #[trigger] rest_d[k] != 'd' by {
        let a = hh.len() + 1;
        let b = a + mm.len() + 1;
        if k < hh.len() {
            assert(rest_d[k] == hh[k]);
        } else if a <= k < a + mm.len() {
            assert(rest_d[k] == mm[k - a]);
        } else if b <= k < b + ss.len() {
            assert(rest_d[k] == ss[k - b]);
        }
    }
    lemma_unit_amount_skip(pd, rest_d, 'd');
}

} // verus!
