//! Parsing of decimal numbers.

use vstd::prelude::*;

verus! {

/// Whether `b` is an ASCII digit.
pub open spec fn is_digit(b: u8) -> bool {
    48 <= b <= 57
}

/// Whether `s` consists of ASCII digits only.
pub open spec fn all_digits(s: Seq<u8>) -> bool {
    forall|i: int| 0 <= i < s.len() ==> is_digit(#[trigger] s[i])
}

/// The number that the digits `s` denote in base ten; 0 for no digits.
pub open spec fn decimal_value(s: Seq<u8>) -> nat
    decreases s.len(),
{
    if s.len() == 0 {
        0
    } else {
        decimal_value(s.drop_last()) * 10 + (s.last() - 48) as nat
    }
}

/// Whether `s` is a decimal number that fits in `usize`: one or more
/// digits, nothing else.
pub open spec fn is_decimal(s: Seq<u8>) -> bool {
    s.len() > 0 && all_digits(s) && decimal_value(s) <= usize::MAX
}

/// A longer run of digits denotes no smaller a number than its prefix.
pub proof fn lemma_decimal_value_monotonic(s: Seq<u8>, n: int)
    requires
        0 <= n <= s.len(),
        all_digits(s),
    ensures
        decimal_value(s.take(n)) <= decimal_value(s),
    decreases s.len() - n,
{
    if n < s.len() {
        lemma_decimal_value_monotonic(s, n + 1);
        assert(s.take(n + 1).drop_last() == s.take(n));
        assert(is_digit(s[n]));
    } else {
        assert(s.take(n) == s);
    }
}

/// Reads `text` as a decimal number.
pub fn parse_decimal(text: &[u8]) -> (value: Option<usize>)
    ensures
        match value {
            Some(n) => is_decimal(text@) && n == decimal_value(text@),
            None => !is_decimal(text@),
        },
{
    let len = text.len();
    if len == 0 {
        return None;
    }
    let mut value: usize = 0;
    let mut i: usize = 0;
    while i < len
        invariant
            len == text@.len(),
            i <= len,
            all_digits(text@.take(i as int)),
            value == decimal_value(text@.take(i as int)),
        decreases len - i,
    {
        let b = text[i];
        proof {
            assert(text@.take(i + 1).drop_last() == text@.take(i as int));
            assert(text@.take(i + 1).last() == b);
        }
        if b < 48 || b > 57 {
            proof {
                assert(!is_digit(text@[i as int]));
            }
            return None;
        }
        let digit = (b - 48) as usize;
        if value > (usize::MAX - digit) / 10 {
            proof {
                assert(decimal_value(text@.take(i + 1)) > usize::MAX);
                if all_digits(text@) {
                    lemma_decimal_value_monotonic(text@, i + 1);
                }
            }
            return None;
        }
        value = value * 10 + digit;
        proof {
            assert forall|k: int| 0 <= k < i + 1 implies is_digit(
                #[trigger] text@.take(i + 1)[k],
            ) by {
                if k < i {
                    assert(text@.take(i as int)[k] == text@[k]);
                }
            }
        }
        i += 1;
    }
    proof {
        assert(text@.take(len as int) == text@);
    }
    Some(value)
}

/// The digits of `n` in base ten, without leading zeros; one digit for 0.
pub open spec fn digits(n: nat) -> Seq<u8>
    decreases n,
{
    if n < 10 {
        seq![(48 + n) as u8]
    } else {
        digits(n / 10).push((48 + n % 10) as u8)
    }
}

/// The digits of a number are digits, and they denote the number: what
/// `format_decimal` writes, `parse_decimal` reads back.
pub proof fn lemma_digits_round_trip(n: nat)
    ensures
        digits(n).len() > 0,
        all_digits(digits(n)),
        decimal_value(digits(n)) == n,
    decreases n,
{
    if n < 10 {
        let s = digits(n);
        assert(s.drop_last() == Seq::<u8>::empty());
        assert(decimal_value(s.drop_last()) == 0);
    } else {
        lemma_digits_round_trip(n / 10);
        let s = digits(n);
        assert(s.drop_last() == digits(n / 10));
        assert forall|i: int| 0 <= i < s.len() implies is_digit(#[trigger] s[i]) by {
            if i < s.len() - 1 {
                assert(s[i] == digits(n / 10)[i]);
            }
        }
    }
}

/// Writes `n` in base ten.
pub fn format_decimal(n: usize) -> (text: Vec<u8>)
    ensures
        text@ == digits(n as nat),
{
    let mut reversed: Vec<u8> = Vec::new();
    let mut rest: usize = n;
    while rest >= 10
        invariant
            digits(n as nat) == digits(rest as nat) + reversed@.reverse(),
        decreases rest,
    {
        let digit = (48 + rest % 10) as u8;
        proof {
            let tail = reversed@.reverse();
            assert(reversed@.push(digit).reverse() == seq![digit] + tail);
            assert(digits((rest / 10) as nat).push(digit) + tail == digits((rest / 10) as nat) + (
            seq![digit] + tail));
        }
        reversed.push(digit);
        rest = rest / 10;
    }
    let first = (48 + rest) as u8;
    let mut text: Vec<u8> = Vec::new();
    text.push(first);
    let mut k: usize = reversed.len();
    proof {
        assert(digits(rest as nat) == seq![first]);
        assert(reversed@.reverse().take(0) == Seq::<u8>::empty());
        assert(text@ == seq![first] + reversed@.reverse().take(0));
    }
    while k > 0
        invariant
            k <= reversed@.len(),
            text@ == seq![first] + reversed@.reverse().take(reversed@.len() - k),
        decreases k,
    {
        k -= 1;
        proof {
            let r = reversed@.reverse();
            let done = reversed@.len() - k - 1;
            assert(r[done] == reversed@[k as int]);
            assert(r.take(done + 1) == r.take(done).push(r[done]));
            assert((seq![first] + r.take(done)).push(r[done]) == seq![first] + r.take(done + 1));
        }
        text.push(reversed[k]);
    }
    proof {
        let r = reversed@.reverse();
        assert(r.take(r.len() as int) == r);
    }
    text
}

} // verus!
