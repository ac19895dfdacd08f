//! The separator between an entry's name and the target it links to.

use vstd::prelude::*;

verus! {

/// The separator `" -> "`.
pub open spec fn arrow() -> Seq<char> {
    seq![' ', '-', '>', ' ']
}

/// The separator stands in `s` at position `i`.
pub open spec fn arrow_at(s: Seq<char>, i: int) -> bool {
    &&& 0 <= i
    &&& i + 4 <= s.len()
    &&& s[i] == ' '
    &&& s[i + 1] == '-'
    &&& s[i + 2] == '>'
    &&& s[i + 3] == ' '
}

/// The separator stands in `s` at position `i`, and nowhere before.
pub open spec fn is_first_arrow(s: Seq<char>, i: int) -> bool {
    &&& arrow_at(s, i)
    &&& forall|j: int| 0 <= j < i ==> !arrow_at(s, j)
}

/// The separator stands nowhere in `s`.
pub open spec fn no_arrow(s: Seq<char>) -> bool {
    forall|i: int| !arrow_at(s, i)
}

/// The first position in `s` at which the separator stands, if there is any.
pub open spec fn first_arrow(s: Seq<char>) -> Option<int> {
    if no_arrow(s) {
        None
    } else {
        Some(choose|i: int| is_first_arrow(s, i))
    }
}

/// The name and the link target that the tail of a line holds: where the
/// separator stands in it, what is before its first occurrence and what is
/// behind it; else all of it and no target.
pub open spec fn split_at_arrow(tail: Seq<char>) -> (Seq<char>, Option<Seq<char>>) {
    match first_arrow(tail) {
        Some(i) => (tail.take(i), Some(tail.skip(i + 4))),
        None => (tail, None),
    }
}

/// Where the separator stands before position `n`, it has a first occurrence.
proof fn lemma_first_arrow_before(s: Seq<char>, n: int)
    requires
        exists|i: int| i < n && arrow_at(s, i),
    ensures
        exists|i: int| i < n && is_first_arrow(s, i),
    decreases n,
{
    let i = choose|i: int| i < n && arrow_at(s, i);
    if exists|j: int| j < i && arrow_at(s, j) {
        lemma_first_arrow_before(s, i);
        let k = choose|k: int| k < i && is_first_arrow(s, k);
        assert(k < n && is_first_arrow(s, k));
    } else {
        assert(is_first_arrow(s, i));
    }
}

/// `first_arrow` is the first occurrence of the separator, and is `None` only
/// where there is no occurrence.
pub proof fn lemma_first_arrow(s: Seq<char>)
    ensures
        first_arrow(s) matches Some(i) ==> is_first_arrow(s, i),
        first_arrow(s) is None ==> no_arrow(s),
{
    if !no_arrow(s) {
        let i = choose|i: int| arrow_at(s, i);
        assert(i < i + 1 && arrow_at(s, i));
        lemma_first_arrow_before(s, i + 1);
    }
}

/// There is one first occurrence only.
pub proof fn lemma_first_arrow_unique(s: Seq<char>, i: int)
    requires
        is_first_arrow(s, i),
    ensures
        first_arrow(s) == Some(i),
{
    lemma_first_arrow(s);
}

/// Finds the first occurrence of the separator `" -> "` in `s`.
pub fn find_arrow(s: &str) -> (res: Option<usize>)
    ensures
        res matches Some(i) ==> is_first_arrow(s@, i as int),
        res is None ==> no_arrow(s@),
{
    let len = s.unicode_len();
    let mut pos: usize = 0;
    let mut c1 = '-';
    let mut c2 = '-';
    let mut c3 = '-';
    for c in it: s.chars()
        invariant
            it.seq() == s@,
            len == s@.len(),
            pos == it.index(),
            pos <= len,
            pos >= 1 ==> c3 == s@[pos - 1],
            pos >= 2 ==> c2 == s@[pos - 2],
            pos >= 3 ==> c1 == s@[pos - 3],
            forall|j: int| j + 4 <= pos ==> !arrow_at(s@, j),
    {
        if pos >= 3 && c1 == ' ' && c2 == '-' && c3 == '>' && c == ' ' {
            return Some(pos - 3);
        }
        c1 = c2;
        c2 = c3;
        c3 = c;
        pos = pos + 1;
    }
    None
}

/// Splits the tail of a line into the entry's name and the target it links to.
/// With the separator `" -> "` in the tail, the name is what stands before its
/// first occurrence and the target what stands behind it; without, the name is
/// the whole tail and there is no target.
pub fn split_link(tail: &str) -> (res: (&str, Option<&str>))
    ensures
        (res.0@, res.1.deep_view()) == split_at_arrow(tail@),
        res.1 is None <==> no_arrow(tail@),
        res.1 is None ==> res.0@ == tail@,
        res.1 matches Some(target) ==> {
            &&& is_first_arrow(tail@, res.0@.len() as int)
            &&& tail@ == res.0@ + arrow() + target@
        },
{
    match find_arrow(tail) {
        Some(i) => {
            let len = tail.unicode_len();
            let name = tail.substring_char(0, i);
            let target = tail.substring_char(i + 4, len);
            proof {
                lemma_first_arrow_unique(tail@, i as int);
                assert(tail@ =~= name@ + arrow() + target@);
            }
            (name, Some(target))
        },
        None => (tail, None),
    }
}

} // verus!
