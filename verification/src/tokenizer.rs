//! Cursor operations over a text buffer: each consumes a token from the front
//! of the buffer and hands back what remains together with what was consumed.

use crate::chars::{is_digit, is_whitespace, spec_is_digit, spec_is_whitespace};
use vstd::prelude::*;

verus! {

/// The predicate that holds of whitespace.
pub open spec fn whitespace() -> spec_fn(char) -> bool {
    |c: char| spec_is_whitespace(c)
}

/// The predicate that holds of everything but whitespace.
pub open spec fn non_whitespace() -> spec_fn(char) -> bool {
    |c: char| !spec_is_whitespace(c)
}

/// The predicate that holds of the ASCII decimal digits.
pub open spec fn digit() -> spec_fn(char) -> bool {
    |c: char| spec_is_digit(c)
}

/// Every character of `s` satisfies `p`.
pub open spec fn all_chars(s: Seq<char>, p: spec_fn(char) -> bool) -> bool {
    forall|i: int| 0 <= i < s.len() ==> p(#[trigger] s[i])
}

/// A range of characters that satisfy `p` and one more behind it that does
/// make a range of characters that satisfy `p`.
pub proof fn lemma_all_chars_extend(s: Seq<char>, from: int, to: int, p: spec_fn(char) -> bool)
    requires
        0 <= from <= to < s.len(),
        all_chars(s.subrange(from, to), p),
        p(s[to]),
    ensures
        all_chars(s.subrange(from, to + 1), p),
{
    assert forall|i: int| 0 <= i < to + 1 - from implies p(
        #[trigger] s.subrange(from, to + 1)[i],
    ) by {
        if i < to - from {
            assert(s.subrange(from, to)[i] == s.subrange(from, to + 1)[i]);
        }
    }
}

/// `n` is the length of the longest prefix of `s` whose characters all satisfy `p`.
pub open spec fn is_run(s: Seq<char>, p: spec_fn(char) -> bool, n: int) -> bool {
    &&& 0 <= n <= s.len()
    &&& all_chars(s.take(n), p)
    &&& n < s.len() ==> !p(s[n])
}

/// The length of the longest prefix of `s` whose characters all satisfy `p`.
pub open spec fn run_len(s: Seq<char>, p: spec_fn(char) -> bool) -> nat
    decreases s.len(),
{
    if s.len() > 0 && p(s[0]) {
        1 + run_len(s.drop_first(), p)
    } else {
        0
    }
}

/// The longest prefix of `s` whose characters all satisfy `p`.
pub open spec fn leading(s: Seq<char>, p: spec_fn(char) -> bool) -> Seq<char> {
    s.take(run_len(s, p) as int)
}

/// What is left of `s` behind its longest prefix of characters that satisfy `p`.
pub open spec fn after(s: Seq<char>, p: spec_fn(char) -> bool) -> Seq<char> {
    s.skip(run_len(s, p) as int)
}

/// `run_len` is a run.
pub proof fn lemma_run_len_is_run(s: Seq<char>, p: spec_fn(char) -> bool)
    ensures
        is_run(s, p, run_len(s, p) as int),
    decreases s.len(),
{
    if s.len() > 0 && p(s[0]) {
        let t = s.drop_first();
        lemma_run_len_is_run(t, p);
        let n = run_len(s, p) as int;
        assert forall|i: int| 0 <= i < n implies p(#[trigger] s.take(n)[i]) by {
            if i > 0 {
                assert(t.take(n - 1)[i - 1] == s[i]);
            }
        }
    }
}

/// There is one run only.
pub proof fn lemma_run_unique(s: Seq<char>, p: spec_fn(char) -> bool, n: int)
    requires
        is_run(s, p, n),
    ensures
        run_len(s, p) == n,
    decreases s.len(),
{
    if n > 0 {
        assert(s.take(n)[0] == s[0]);
        let t = s.drop_first();
        assert forall|i: int| 0 <= i < n - 1 implies p(#[trigger] t.take(n - 1)[i]) by {
            assert(s.take(n)[i + 1] == t[i]);
        }
        lemma_run_unique(t, p, n - 1);
    }
}

/// `s` cannot continue a run of characters that satisfy `p`: it is empty, or
/// its first character does not satisfy `p`.
pub open spec fn stops(s: Seq<char>, p: spec_fn(char) -> bool) -> bool {
    s.len() > 0 ==> !p(s[0])
}

/// The leading characters of `s` that satisfy `p` do satisfy it, what is left
/// behind them cannot continue them, and it ends as `s` ends.
pub proof fn lemma_leading_and_after(s: Seq<char>, p: spec_fn(char) -> bool)
    ensures
        all_chars(leading(s, p), p),
        stops(after(s, p), p),
        leading(s, p) + after(s, p) == s,
        after(s, p).len() > 0 ==> after(s, p).last() == s.last(),
        stops(s, p) ==> leading(s, p).len() == 0 && after(s, p) == s,
{
    lemma_run_len_is_run(s, p);
    assert(leading(s, p) + after(s, p) =~= s);
    if stops(s, p) {
        assert(after(s, p) =~= s);
    }
}

/// Consumes the first `n` characters of `s`, whatever they are.
pub fn take_n(s: &str, n: usize) -> (res: (&str, &str))
    requires
        n <= s@.len(),
    ensures
        res.0@ == s@.skip(n as int),
        res.1@ == s@.take(n as int),
{
    let len = s.unicode_len();
    (s.substring_char(n, len), s.substring_char(0, n))
}

/// Consumes the characters of `s` up to the first one that `check` accepts, or
/// all of them where it accepts none.
pub fn take_till<F: Fn(char) -> bool>(s: &str, check: F) -> (res: (&str, &str))
    requires
        forall|c: char| check.requires((c,)),
    ensures
        res.1@.len() <= s@.len(),
        res.0@ == s@.skip(res.1@.len() as int),
        res.1@ == s@.take(res.1@.len() as int),
        forall|i: int| 0 <= i < res.1@.len() ==> check.ensures((#[trigger] s@[i],), false),
        res.1@.len() < s@.len() ==> check.ensures((s@[res.1@.len() as int],), true),
{
    let len = s.unicode_len();
    let mut end: usize = 0;
    for c in it: s.chars()
        invariant_except_break
            end == it.index(),
        invariant
            it.seq() == s@,
            len == s@.len(),
            end <= len,
            forall|i: int| 0 <= i < end ==> check.ensures((#[trigger] s@[i],), false),
            forall|c: char| check.requires((c,)),
        ensures
            end < len ==> check.ensures((s@[end as int],), true),
    {
        if check(c) {
            break;
        }
        end = end + 1;
    }
    take_n(s, end)
}

/// Consumes the whitespace at the front of `s`.
pub fn take_space(s: &str) -> (res: (&str, &str))
    ensures
        res.0@ == after(s@, whitespace()),
        res.1@ == leading(s@, whitespace()),
{
    let res = take_till(s, |c: char| -> (b: bool)
        ensures
            b == !spec_is_whitespace(c),
        { !is_whitespace(c) });
    proof {
        assert(all_chars(res.1@, whitespace())) by {
            assert forall|i: int| 0 <= i < res.1@.len() implies whitespace()(
                #[trigger] res.1@[i],
            ) by {
                assert(res.1@[i] == s@[i]);
            }
        }
        lemma_run_unique(s@, whitespace(), res.1@.len() as int);
    }
    res
}

/// Consumes the ASCII decimal digits at the front of `s`.
pub fn take_digit(s: &str) -> (res: (&str, &str))
    ensures
        res.0@ == after(s@, digit()),
        res.1@ == leading(s@, digit()),
{
    let res = take_till(s, |c: char| -> (b: bool)
        ensures
            b == !spec_is_digit(c),
        { !is_digit(c) });
    proof {
        assert(all_chars(res.1@, digit())) by {
            assert forall|i: int| 0 <= i < res.1@.len() implies digit()(
                #[trigger] res.1@[i],
            ) by {
                assert(res.1@[i] == s@[i]);
            }
        }
        lemma_run_unique(s@, digit(), res.1@.len() as int);
    }
    res
}

/// Consumes the characters at the front of `s` that are no whitespace.
pub fn take_till_space(s: &str) -> (res: (&str, &str))
    ensures
        res.0@ == after(s@, non_whitespace()),
        res.1@ == leading(s@, non_whitespace()),
{
    let res = take_till(s, |c: char| -> (b: bool)
        ensures
            b == spec_is_whitespace(c),
        { is_whitespace(c) });
    proof {
        assert(all_chars(res.1@, non_whitespace())) by {
            assert forall|i: int| 0 <= i < res.1@.len() implies non_whitespace()(
                #[trigger] res.1@[i],
            ) by {
                assert(res.1@[i] == s@[i]);
            }
        }
        lemma_run_unique(s@, non_whitespace(), res.1@.len() as int);
    }
    res
}

} // verus!
