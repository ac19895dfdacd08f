//! Removal of the whitespace around a line.

use crate::chars::{is_whitespace, spec_is_whitespace};
use crate::tokenizer::{
    after, all_chars, lemma_all_chars_extend, lemma_run_len_is_run, lemma_run_unique, run_len,
    whitespace,
};
use vstd::prelude::*;

verus! {

/// The number of whitespace characters at the end of `s`.
pub open spec fn trailing_whitespace(s: Seq<char>) -> nat
    decreases s.len(),
{
    if s.len() > 0 && spec_is_whitespace(s.last()) {
        1 + trailing_whitespace(s.drop_last())
    } else {
        0
    }
}

/// `s` without the whitespace at its front.
pub open spec fn trim_start(s: Seq<char>) -> Seq<char> {
    after(s, whitespace())
}

/// `s` without the whitespace at its end.
pub open spec fn trim_end(s: Seq<char>) -> Seq<char> {
    s.take(s.len() - trailing_whitespace(s))
}

/// `s` without the whitespace at its front and at its end.
pub open spec fn trim(s: Seq<char>) -> Seq<char> {
    trim_end(trim_start(s))
}

/// `s` neither starts nor ends with whitespace.
pub open spec fn is_trimmed(s: Seq<char>) -> bool {
    s.len() > 0 ==> !spec_is_whitespace(s.first()) && !spec_is_whitespace(s.last())
}

/// The whitespace at the end of `s` is what follows its last character that is
/// no whitespace.
pub proof fn lemma_trailing_whitespace(s: Seq<char>, n: int)
    requires
        0 <= n <= s.len(),
        all_chars(s.skip(s.len() - n), whitespace()),
        n < s.len() ==> !spec_is_whitespace(s[s.len() - n - 1]),
    ensures
        trailing_whitespace(s) == n,
    decreases s.len(),
{
    if n > 0 {
        let t = s.drop_last();
        assert(s.skip(s.len() - n)[n - 1] == s.last());
        assert forall|i: int| 0 <= i < n - 1 implies whitespace()(
            #[trigger] t.skip(t.len() - (n - 1))[i],
        ) by {
            assert(s.skip(s.len() - n)[i] == t.skip(t.len() - (n - 1))[i]);
        }
        lemma_trailing_whitespace(t, n - 1);
    }
}

/// `trim` cuts `s` down to the part between its first and its last character
/// that is no whitespace.
pub proof fn lemma_trim_is(s: Seq<char>, start: int, end: int)
    requires
        0 <= start <= end <= s.len(),
        all_chars(s.take(start), whitespace()),
        all_chars(s.skip(end), whitespace()),
        start < end ==> !spec_is_whitespace(s[start]) && !spec_is_whitespace(s[end - 1]),
        start == end ==> end == s.len(),
    ensures
        trim(s) == s.subrange(start, end),
{
    lemma_run_unique(s, whitespace(), start);
    let t = s.skip(start);
    assert(t.skip(t.len() - (s.len() - end)) =~= s.skip(end));
    lemma_trailing_whitespace(t, s.len() - end);
    assert(t.take(t.len() - (s.len() - end)) =~= s.subrange(start, end));
}

/// What `trim` returns is trimmed, and `trim` leaves it as it is.
pub proof fn lemma_trim_is_trimmed(s: Seq<char>)
    ensures
        is_trimmed(trim(s)),
        trim(trim(s)) == trim(s),
{
    lemma_run_len_is_run(s, whitespace());
    let t = trim_start(s);
    lemma_trailing_whitespace_is_suffix(t);
    let r = trim(s);
    if r.len() > 0 {
        assert(r.first() == s[run_len(s, whitespace()) as int]);
        assert(r.last() == t[t.len() - trailing_whitespace(t) - 1]);
    }
    lemma_trim_of_trimmed(r);
}

/// The last `trailing_whitespace(s)` characters of `s` are whitespace, and the
/// one before them is not.
pub proof fn lemma_trailing_whitespace_is_suffix(s: Seq<char>)
    ensures
        trailing_whitespace(s) <= s.len(),
        all_chars(s.skip(s.len() - trailing_whitespace(s)), whitespace()),
        trailing_whitespace(s) < s.len() ==> !spec_is_whitespace(
            s[s.len() - trailing_whitespace(s) - 1],
        ),
    decreases s.len(),
{
    if s.len() > 0 && spec_is_whitespace(s.last()) {
        let t = s.drop_last();
        lemma_trailing_whitespace_is_suffix(t);
        let n = trailing_whitespace(s) as int;
        assert forall|i: int| 0 <= i < n implies whitespace()(
            #[trigger] s.skip(s.len() - n)[i],
        ) by {
            if i < n - 1 {
                assert(t.skip(t.len() - (n - 1))[i] == s.skip(s.len() - n)[i]);
            }
        }
    }
}

/// `trim` takes characters away and adds none.
pub proof fn lemma_trim_is_shorter(s: Seq<char>)
    ensures
        trim(s).len() <= s.len(),
{
    lemma_run_len_is_run(s, whitespace());
    lemma_trailing_whitespace_is_suffix(trim_start(s));
}

/// `trim` leaves a trimmed text as it is.
pub proof fn lemma_trim_of_trimmed(s: Seq<char>)
    requires
        is_trimmed(s),
    ensures
        trim(s) == s,
{
    lemma_trim_is(s, 0, s.len() as int);
    assert(s.subrange(0, s.len() as int) =~= s);
}

/// Whitespace around a text does not change what `trim` makes of it.
pub proof fn lemma_trim_padded(lead: Seq<char>, s: Seq<char>, trail: Seq<char>)
    requires
        all_chars(lead, whitespace()),
        all_chars(trail, whitespace()),
    ensures
        trim(lead + s + trail) == trim(s),
{
    let padded = lead + s + trail;
    let start = run_len(s, whitespace()) as int;
    let rest = trim_start(s);
    let end = s.len() - trailing_whitespace(rest);
    lemma_run_len_is_run(s, whitespace());
    lemma_trailing_whitespace_is_suffix(rest);
    assert forall|i: int| 0 <= i < lead.len() + start implies whitespace()(
        #[trigger] padded.take(lead.len() + start)[i],
    ) by {
        if i < lead.len() {
            assert(padded[i] == lead[i]);
        } else {
            assert(padded[i] == s.take(start)[i - lead.len()]);
        }
    }
    if start == s.len() {
        assert forall|i: int| 0 <= i < padded.len() implies whitespace()(
            #[trigger] padded.take(padded.len() as int)[i],
        ) by {
            if i < lead.len() + start {
                assert(padded.take(lead.len() + start)[i] == padded[i]);
            } else {
                assert(padded[i] == trail[i - lead.len() - start]);
            }
        }
        lemma_trim_is(padded, padded.len() as int, padded.len() as int);
        assert(trim(s) =~= padded.subrange(padded.len() as int, padded.len() as int));
    } else {
        assert(rest[0] == s[start]);
        assert(start < end) by {
            if start == end {
                assert(whitespace()(rest.skip(0)[0]));
            }
        }
        assert(rest[rest.len() - trailing_whitespace(rest) - 1] == s[end - 1]);
        assert forall|i: int| 0 <= i < padded.len() - (lead.len() + end) implies whitespace()(
            #[trigger] padded.skip(lead.len() + end)[i],
        ) by {
            if i < s.len() - end {
                assert(padded.skip(lead.len() + end)[i] == rest.skip(
                    rest.len() - trailing_whitespace(rest),
                )[i]);
            } else {
                assert(padded.skip(lead.len() + end)[i] == trail[i - (s.len() - end)]);
            }
        }
        assert(padded[lead.len() + start] == s[start]);
        assert(padded[lead.len() + end - 1] == s[end - 1]);
        lemma_trim_is(padded, lead.len() + start, lead.len() + end);
        assert(trim(s) =~= padded.subrange(lead.len() + start, lead.len() + end));
    }
}

/// Removes the whitespace at the front and at the end of `s`.
pub fn trim_line(s: &str) -> (res: &str)
    ensures
        res@ == trim(s@),
{
    let len = s.unicode_len();
    let mut start: usize = 0;
    let mut end: usize = 0;
    let mut pos: usize = 0;
    for c in it: s.chars()
        invariant
            it.seq() == s@,
            len == s@.len(),
            pos == it.index(),
            start <= end <= pos <= len,
            all_chars(s@.take(start as int), whitespace()),
            all_chars(s@.subrange(end as int, pos as int), whitespace()),
            start < end ==> !spec_is_whitespace(s@[start as int]) && !spec_is_whitespace(
                s@[end - 1],
            ),
            start == end ==> end == pos,
    {
        if is_whitespace(c) {
            proof {
                lemma_all_chars_extend(s@, end as int, pos as int, whitespace());
            }
            if start == end {
                proof {
                    lemma_all_chars_extend(s@, 0, pos as int, whitespace());
                }
                start = pos + 1;
                end = pos + 1;
            }
        } else {
            if start == end {
                start = pos;
            }
            end = pos + 1;
        }
        pos = pos + 1;
    }
    proof {
        assert(s@.subrange(end as int, pos as int) =~= s@.skip(end as int));
        lemma_trim_is(s@, start as int, end as int);
    }
    s.substring_char(start, end)
}

} // verus!
