use vstd::prelude::*;

use crate::text::{chars_of, is_ascii_digit, push_char};
use crate::video::{digit_value, digits_value};

verus! {

/// The ASCII digit for `d`, which is below 10.
pub open spec fn digit_char(d: nat) -> char {
    ((('0' as int) + d) as u8) as char
}

/// The decimal digits of `n`, without leading zeros (`"0"` for zero), as
/// `Display` writes an unsigned integer.
pub open spec fn nat_digits(n: nat) -> Seq<char>
    decreases n,
{
    if n < 10 {
        seq![digit_char(n)]
    } else {
        nat_digits(n / 10).push(digit_char(n % 10))
    }
}

/// The decimal text of `i`, with a leading `'-'` when it is negative, as
/// `Display` writes a signed integer.
pub open spec fn int_decimal(i: int) -> Seq<char> {
    if i < 0 {
        seq!['-'] + nat_digits((-i) as nat)
    } else {
        nat_digits(i as nat)
    }
}

/// Appends the decimal digits of `n` to `s`.
pub fn push_decimal(s: &mut String, n: u64)
    ensures
        final(s)@ == old(s)@ + nat_digits(n as nat),
    decreases n,
{
    if n >= 10 {
        push_decimal(s, n / 10);
    }
    let d = (n % 10) as u8;
    let c = (48u8 + d) as char;
    assert(c == digit_char((n % 10) as nat));
    push_char(s, c);
}

/// Appends the decimal text of a signed integer to `s`.
pub fn push_signed_decimal(s: &mut String, i: i32)
    ensures
        final(s)@ == old(s)@ + int_decimal(i as int),
{
    if i < 0 {
        push_char(s, '-');
        let magnitude = (-(i as i64)) as u64;
        push_decimal(s, magnitude);
        assert(final(s)@ =~= old(s)@ + int_decimal(i as int)) by {
            assert(seq!['-'] + nat_digits(magnitude as nat) == int_decimal(i as int));
        }
    } else {
        push_decimal(s, i as u64);
    }
}

/// The digits of an unsigned number as `str::parse` reads them: the text
/// without one leading `'+'`.
pub open spec fn unsigned_digits(s: Seq<char>) -> Seq<char> {
    if s.len() > 0 && s[0] == '+' {
        s.drop_first()
    } else {
        s
    }
}

/// What `str::parse::<u32>` reads from `s`, with a refused text read as 0
/// (`unwrap_or_default`): the number that the digits after an optional
/// `'+'` write, where there is at least one, all are ASCII digits and the
/// number fits in a `u32`.
pub open spec fn u32_or_zero(s: Seq<char>) -> nat {
    let d = unsigned_digits(s);
    if d.len() > 0 && (forall|k: int| 0 <= k < d.len() ==> is_ascii_digit(#[trigger] d[k]))
        && digits_value(d) <= u32::MAX {
        digits_value(d)
    } else {
        0
    }
}

/// Reads a count such as a queue reports it, 0 where the text is no `u32`.
pub fn parse_u32_or_zero(text: &str) -> (n: u32)
    ensures
        n == u32_or_zero(text@),
{
    let chars = chars_of(text);
    let ghost d = unsigned_digits(text@);
    let start: usize = if chars.len() > 0 && chars[0] == '+' {
        1
    } else {
        0
    };
    assert(d =~= chars@.subrange(start as int, chars@.len() as int));
    if start == chars.len() {
        return 0;
    }
    let mut value: u64 = 0;
    let mut i: usize = start;
    while i < chars.len()
        invariant
            start <= i <= chars.len(),
            d == unsigned_digits(text@),
            d =~= chars@.subrange(start as int, chars@.len() as int),
            forall|k: int| 0 <= k < i - start ==> is_ascii_digit(#[trigger] d[k]),
            value == digits_value(d.take(i - start)),
            value <= u32::MAX,
        decreases chars.len() - i,
    {
        let c = chars[i];
        assert(d[i - start] == c);
        if !('0' <= c && c <= '9') {
            assert(!is_ascii_digit(d[i - start]));
            return 0;
        }
        assert(d.take(i - start + 1).drop_last() =~= d.take(i - start));
        assert(d.take(i - start + 1).last() == c);
        let next = value * 10 + ((c as u64) - ('0' as u64));
        assert(next == digits_value(d.take(i - start + 1)));
        if next > 4294967295 {
            proof {
                lemma_digits_value_prefix_grows(d, i - start + 1);
            }
            return 0;
        }
        value = next;
        i = i + 1;
    }
    assert(d.take(d.len() as int) =~= d);
    value as u32
}

/// A longer prefix of digits never writes a smaller number.
proof fn lemma_digits_value_prefix_grows(d: Seq<char>, k: int)
    requires
        0 <= k <= d.len(),
    ensures
        digits_value(d.take(k)) <= digits_value(d),
    decreases d.len() - k,
{
    if k < d.len() {
        lemma_digits_value_prefix_grows(d, k + 1);
        assert(d.take(k + 1).drop_last() =~= d.take(k));
    } else {
        assert(d.take(k) =~= d);
    }
}

/// Every character of [`nat_digits`] is an ASCII digit, and reading them back
/// as a decimal number gives `n` again.
pub proof fn lemma_nat_digits_roundtrip(n: nat)
    ensures
        nat_digits(n).len() > 0,
        forall|k: int| 0 <= k < nat_digits(n).len() ==> is_ascii_digit(#[trigger] nat_digits(n)[k]),
        digits_value(nat_digits(n)) == n,
    decreases n,
{
    let d = n % 10;
    assert(digit_value(digit_char(d)) == d);
    if n < 10 {
        assert(seq![digit_char(n)].drop_last() =~= Seq::<char>::empty());
        assert(digits_value(seq![digit_char(n)]) == digits_value(Seq::<char>::empty()) * 10
            + digit_value(digit_char(n)));
    } else {
        lemma_nat_digits_roundtrip(n / 10);
        let t = nat_digits(n / 10);
        assert(t.push(digit_char(d)).drop_last() =~= t);
        assert(n == (n / 10) * 10 + d);
        assert forall|k: int| 0 <= k < nat_digits(n).len() implies is_ascii_digit(
            #[trigger] nat_digits(n)[k],
        ) by {
            if k < t.len() {
                assert(nat_digits(n)[k] == t[k]);
            }
        }
    }
}

} // verus!
