//! Conversion of a run of decimal digits to the number it writes.

use crate::chars::{digit_value, spec_is_digit, to_digit};
use crate::tokenizer::{all_chars, digit, lemma_all_chars_extend};
use vstd::prelude::*;

verus! {

/// The number that the decimal digits `s` write, most significant digit first.
pub open spec fn decimal_value(s: Seq<char>) -> nat
    decreases s.len(),
{
    if s.len() == 0 {
        0
    } else {
        decimal_value(s.drop_last()) * 10 + digit_value(s.last())
    }
}

/// `s` holds at least one character, and decimal digits only.
pub open spec fn is_number(s: Seq<char>) -> bool {
    s.len() > 0 && all_chars(s, digit())
}

/// The number that `s` writes, where `s` is a number that fits a `usize`.
pub open spec fn number(s: Seq<char>) -> Option<usize> {
    if is_number(s) && decimal_value(s) <= usize::MAX {
        Some(decimal_value(s) as usize)
    } else {
        None
    }
}

/// The digit that writes `d`, for `d` below ten.
pub open spec fn digit_char(d: nat) -> char
    recommends
        d < 10,
{
    ('0' as u32 + d) as char
}

/// The decimal digits that write `n`, most significant digit first and without
/// leading zeros.
pub open spec fn decimal(n: nat) -> Seq<char>
    decreases n,
{
    if n < 10 {
        seq![digit_char(n)]
    } else {
        decimal(n / 10).push(digit_char(n % 10))
    }
}

/// The digits that write a number are a number, and the number they write is
/// the one that was written.
pub proof fn lemma_decimal(n: nat)
    ensures
        is_number(decimal(n)),
        decimal_value(decimal(n)) == n,
    decreases n,
{
    let s = decimal(n);
    if n < 10 {
        assert(s.drop_last() =~= Seq::<char>::empty());
        assert(decimal_value(s.drop_last()) == 0);
    } else {
        lemma_decimal(n / 10);
        assert(s.drop_last() =~= decimal(n / 10));
        assert forall|i: int| 0 <= i < s.len() implies digit()(#[trigger] s[i]) by {
            if i < s.len() - 1 {
                assert(s[i] == decimal(n / 10)[i]);
            }
        }
    }
}

/// A text writes no smaller a number than any of its prefixes.
pub proof fn lemma_decimal_value_prefix(s: Seq<char>, n: int)
    requires
        0 <= n <= s.len(),
    ensures
        decimal_value(s.take(n)) <= decimal_value(s),
    decreases s.len(),
{
    if n == s.len() {
        assert(s.take(n) =~= s);
    } else {
        assert(s.drop_last().take(n) =~= s.take(n));
        lemma_decimal_value_prefix(s.drop_last(), n);
    }
}

/// Converts a run of decimal digits to the number it writes. There is no
/// number where `s` is empty, holds anything but digits, or writes more than a
/// `usize` can hold.
pub fn parse_number(s: &str) -> (res: Option<usize>)
    ensures
        res == number(s@),
{
    let mut value: usize = 0;
    let mut empty = true;
    for c in it: s.chars()
        invariant
            it.seq() == s@,
            empty == (it.index() == 0),
            all_chars(s@.take(it.index() as int), digit()),
            value == decimal_value(s@.take(it.index() as int)),
    {
        let ghost pos = it.index() as int;
        proof {
            assert(digit()(s@[pos]) == spec_is_digit(c));
            assert(s@.take(pos + 1).drop_last() =~= s@.take(pos));
            lemma_decimal_value_prefix(s@, pos + 1);
        }
        let d = to_digit(c)?;
        value = value.checked_mul(10)?.checked_add(d)?;
        empty = false;
        proof {
            lemma_all_chars_extend(s@, 0, pos, digit());
        }
    }
    proof {
        assert(s@.take(s@.len() as int) =~= s@);
    }
    if empty {
        None
    } else {
        Some(value)
    }
}

} // verus!
