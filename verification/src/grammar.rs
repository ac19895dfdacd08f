//! The layout of a listing line, and the proof that the parser reads every
//! line of that layout as the layout says.

use crate::chars::spec_is_whitespace;
use crate::file_info::FileInfoView;
use crate::link::split_at_arrow;
use crate::number::{decimal_value, is_number, number};
use crate::parse::{behind, fields, join_timestamp, parse_line, Fields, PERMISSIONS_WIDTH};
use crate::tokenizer::{
    after, all_chars, digit, leading, lemma_leading_and_after, lemma_run_unique, non_whitespace,
    stops, whitespace,
};
use crate::trim::{is_trimmed, lemma_trim_is_trimmed, lemma_trim_of_trimmed, trim};
use vstd::prelude::*;

verus! {

/// A listing line taken apart: its tokens and the gaps between them, in the
/// order in which they stand.
pub struct Line {
    pub permissions: Seq<char>,
    pub gap_before_link_count: Seq<char>,
    pub link_count: Seq<char>,
    pub gap_before_owner: Seq<char>,
    pub owner: Seq<char>,
    pub gap_before_group: Seq<char>,
    pub group: Seq<char>,
    pub gap_before_size: Seq<char>,
    pub size: Seq<char>,
    pub gap_before_month: Seq<char>,
    pub month: Seq<char>,
    pub gap_before_day: Seq<char>,
    pub day: Seq<char>,
    pub gap_before_time: Seq<char>,
    pub time: Seq<char>,
    pub gap_before_tail: Seq<char>,
    pub tail: Seq<char>,
}

/// One or more whitespace characters.
pub open spec fn is_gap(s: Seq<char>) -> bool {
    s.len() > 0 && all_chars(s, whitespace())
}

/// One or more characters, none of them whitespace.
pub open spec fn is_word(s: Seq<char>) -> bool {
    s.len() > 0 && all_chars(s, non_whitespace())
}

/// One or more decimal digits that write a number which fits a `usize`.
pub open spec fn is_count(s: Seq<char>) -> bool {
    is_number(s) && decimal_value(s) <= usize::MAX
}

/// A token of characters that satisfy `p`, the gap behind it and what follows
/// the gap: neither the token nor the gap goes on into what stands behind it.
pub open spec fn delimits(
    token: Seq<char>,
    p: spec_fn(char) -> bool,
    gap: Seq<char>,
    rest: Seq<char>,
) -> bool {
    &&& all_chars(token, p)
    &&& stops(gap + rest, p)
    &&& all_chars(gap, whitespace())
    &&& stops(rest, whitespace())
}

impl Line {
    /// The parts are those of a listing line: a mode string of ten characters
    /// that does not start with whitespace; link count and size, each a number;
    /// owner, group, month, day and time, each a word; a tail that is not empty
    /// and neither starts nor ends with whitespace; and a gap before each part
    /// but the first.
    pub open spec fn well_formed(self) -> bool {
        &&& self.permissions.len() == PERMISSIONS_WIDTH
        &&& !spec_is_whitespace(self.permissions[0])
        &&& is_gap(self.gap_before_link_count)
        &&& is_count(self.link_count)
        &&& is_gap(self.gap_before_owner)
        &&& is_word(self.owner)
        &&& is_gap(self.gap_before_group)
        &&& is_word(self.group)
        &&& is_gap(self.gap_before_size)
        &&& is_count(self.size)
        &&& is_gap(self.gap_before_month)
        &&& is_word(self.month)
        &&& is_gap(self.gap_before_day)
        &&& is_word(self.day)
        &&& is_gap(self.gap_before_time)
        &&& is_word(self.time)
        &&& is_gap(self.gap_before_tail)
        &&& self.tail.len() > 0
        &&& is_trimmed(self.tail)
    }

    /// The parts are read back as they are: the mode string has its width, each
    /// token is of its class, each gap is whitespace, and no token or gap goes
    /// on into what stands behind it. A gap may be empty, and so may any part
    /// from the month on.
    pub open spec fn delimited(self) -> bool {
        &&& self.permissions.len() == PERMISSIONS_WIDTH
        &&& all_chars(self.gap_before_link_count, whitespace())
        &&& stops(self.from_link_count(), whitespace())
        &&& delimits(self.link_count, digit(), self.gap_before_owner, self.from_owner())
        &&& delimits(self.owner, non_whitespace(), self.gap_before_group, self.from_group())
        &&& delimits(self.group, non_whitespace(), self.gap_before_size, self.from_size())
        &&& delimits(self.size, digit(), self.gap_before_month, self.from_month())
        &&& delimits(self.month, non_whitespace(), self.gap_before_day, self.from_day())
        &&& delimits(self.day, non_whitespace(), self.gap_before_time, self.from_time())
        &&& delimits(self.time, non_whitespace(), self.gap_before_tail, self.tail)
    }

    /// The part of the line that starts at its time.
    pub open spec fn from_time(self) -> Seq<char> {
        self.time + (self.gap_before_tail + self.tail)
    }

    /// The part of the line that starts at its day.
    pub open spec fn from_day(self) -> Seq<char> {
        self.day + (self.gap_before_time + self.from_time())
    }

    /// The part of the line that starts at its month.
    pub open spec fn from_month(self) -> Seq<char> {
        self.month + (self.gap_before_day + self.from_day())
    }

    /// The part of the line that starts at its size.
    pub open spec fn from_size(self) -> Seq<char> {
        self.size + (self.gap_before_month + self.from_month())
    }

    /// The part of the line that starts at its group.
    pub open spec fn from_group(self) -> Seq<char> {
        self.group + (self.gap_before_size + self.from_size())
    }

    /// The part of the line that starts at its owner.
    pub open spec fn from_owner(self) -> Seq<char> {
        self.owner + (self.gap_before_group + self.from_group())
    }

    /// The part of the line that starts at its link count.
    pub open spec fn from_link_count(self) -> Seq<char> {
        self.link_count + (self.gap_before_owner + self.from_owner())
    }

    /// The line: its parts one after the other.
    pub open spec fn text(self) -> Seq<char> {
        self.permissions + (self.gap_before_link_count + self.from_link_count())
    }

    /// The tokens of the line.
    pub open spec fn tokens(self) -> Fields {
        Fields {
            permissions: self.permissions,
            link_count: self.link_count,
            owner: self.owner,
            group: self.group,
            size: self.size,
            month: self.month,
            day: self.day,
            time: self.time,
            tail: self.tail,
        }
    }

    /// The record that the line describes: each field is the token of its name,
    /// link count and size as the numbers they write, the time of the last
    /// change as month, day and time with a single space between them, and name
    /// and link target as the tail holds them.
    pub open spec fn record(self) -> FileInfoView {
        FileInfoView {
            permissions: self.permissions,
            hard_link_count: decimal_value(self.link_count),
            owner: self.owner,
            group: self.group,
            size: decimal_value(self.size),
            last_modified: join_timestamp(self.month, self.day, self.time),
            name: split_at_arrow(self.tail).0,
            link: split_at_arrow(self.tail).1,
        }
    }
}

/// A token that stands before something that cannot continue it is read whole.
pub proof fn lemma_leading_token(token: Seq<char>, rest: Seq<char>, p: spec_fn(char) -> bool)
    requires
        all_chars(token, p),
        stops(rest, p),
    ensures
        leading(token + rest, p) == token,
        after(token + rest, p) == rest,
{
    let s = token + rest;
    let n = token.len() as int;
    assert(s.take(n) =~= token);
    assert(s.skip(n) =~= rest);
    lemma_run_unique(s, p, n);
}

/// A delimited token is read whole, and the gap behind it is passed over.
pub proof fn lemma_delimited_token(
    token: Seq<char>,
    p: spec_fn(char) -> bool,
    gap: Seq<char>,
    rest: Seq<char>,
)
    requires
        delimits(token, p, gap, rest),
    ensures
        leading(token + (gap + rest), p) == token,
        behind(token + (gap + rest), p) == rest,
{
    lemma_leading_token(token, gap + rest, p);
    lemma_leading_token(gap, rest, whitespace());
}

/// A token with a gap behind it, before something that does not start with
/// whitespace, is delimited.
pub proof fn lemma_gap_delimits(
    token: Seq<char>,
    p: spec_fn(char) -> bool,
    gap: Seq<char>,
    rest: Seq<char>,
)
    requires
        all_chars(token, p),
        forall|c: char| p(c) ==> !spec_is_whitespace(c),
        is_gap(gap),
        stops(rest, whitespace()),
    ensures
        delimits(token, p, gap, rest),
{
    assert(whitespace()(gap[0]));
    assert((gap + rest)[0] == gap[0]);
}

/// A well-formed line is delimited and trimmed.
pub proof fn lemma_well_formed_is_delimited(line: Line)
    requires
        line.well_formed(),
    ensures
        line.delimited(),
        is_trimmed(line.text()),
{
    assert(non_whitespace()(line.owner[0]));
    assert(non_whitespace()(line.group[0]));
    assert(non_whitespace()(line.month[0]));
    assert(non_whitespace()(line.day[0]));
    assert(non_whitespace()(line.time[0]));
    assert(digit()(line.link_count[0]));
    assert(digit()(line.size[0]));
    lemma_gap_delimits(line.link_count, digit(), line.gap_before_owner, line.from_owner());
    lemma_gap_delimits(line.owner, non_whitespace(), line.gap_before_group, line.from_group());
    lemma_gap_delimits(line.group, non_whitespace(), line.gap_before_size, line.from_size());
    lemma_gap_delimits(line.size, digit(), line.gap_before_month, line.from_month());
    lemma_gap_delimits(line.month, non_whitespace(), line.gap_before_day, line.from_day());
    lemma_gap_delimits(line.day, non_whitespace(), line.gap_before_time, line.from_time());
    lemma_gap_delimits(line.time, non_whitespace(), line.gap_before_tail, line.tail);
    assert(line.text().first() == line.permissions[0]);
    assert(line.text().last() == line.tail.last());
}

/// The tokens that the parser finds in a delimited line are its tokens.
pub proof fn lemma_fields_of_line(line: Line)
    requires
        line.delimited(),
    ensures
        fields(line.text()) == line.tokens(),
{
    let text = line.text();
    let width = PERMISSIONS_WIDTH as int;
    assert(text.take(width) =~= line.permissions);
    assert(text.skip(width) =~= line.gap_before_link_count + line.from_link_count());
    lemma_leading_token(line.gap_before_link_count, line.from_link_count(), whitespace());
    lemma_delimited_token(line.link_count, digit(), line.gap_before_owner, line.from_owner());
    lemma_delimited_token(line.owner, non_whitespace(), line.gap_before_group, line.from_group());
    lemma_delimited_token(line.group, non_whitespace(), line.gap_before_size, line.from_size());
    lemma_delimited_token(line.size, digit(), line.gap_before_month, line.from_month());
    lemma_delimited_token(line.month, non_whitespace(), line.gap_before_day, line.from_day());
    lemma_delimited_token(line.day, non_whitespace(), line.gap_before_time, line.from_time());
    lemma_delimited_token(line.time, non_whitespace(), line.gap_before_tail, line.tail);
}

/// Every delimited line without whitespace around it, whose link count and
/// size are numbers, parses, and to the record that its parts describe.
pub proof fn lemma_parse_delimited_line(line: Line)
    requires
        line.delimited(),
        is_trimmed(line.text()),
        is_count(line.link_count),
        is_count(line.size),
    ensures
        parse_line(line.text()) == Some(line.record()),
{
    lemma_trim_of_trimmed(line.text());
    lemma_fields_of_line(line);
}

/// Every well-formed line parses, and each field of the record is the token of
/// its name: link count and size as the numbers they write, the time of the
/// last change as month, day and time with a single space between them, name
/// and link target as the tail holds them.
pub proof fn lemma_parse_well_formed_line(line: Line)
    requires
        line.well_formed(),
    ensures
        parse_line(line.text()) == Some(line.record()),
{
    lemma_well_formed_is_delimited(line);
    lemma_parse_delimited_line(line);
}

/// What is left behind a token and the whitespace that follows it does not
/// start with whitespace, and ends as the text ends.
pub proof fn lemma_behind(s: Seq<char>, p: spec_fn(char) -> bool)
    ensures
        all_chars(leading(s, p), p),
        stops(behind(s, p), whitespace()),
        behind(s, p).len() > 0 ==> s.len() > 0 && behind(s, p).last() == s.last(),
{
    lemma_leading_and_after(s, p);
    lemma_leading_and_after(after(s, p), whitespace());
}

/// A text that does not start with whitespace starts with a word, or is empty.
pub proof fn lemma_word_is_empty(s: Seq<char>)
    requires
        stops(s, whitespace()),
        leading(s, non_whitespace()).len() == 0,
    ensures
        s.len() == 0,
{
    lemma_leading_and_after(s, non_whitespace());
    if s.len() > 0 {
        assert(non_whitespace()(s[0]));
    }
}

impl Fields {
    /// The tokens are such as a line that parses holds: a mode string of ten
    /// characters that does not start with whitespace; link count and size,
    /// each a number; owner and group, each a word; month, day and time
    /// without whitespace, and nothing behind one of them that is empty; a
    /// tail that neither starts nor ends with whitespace.
    pub open spec fn well_formed(self) -> bool {
        &&& self.permissions.len() == PERMISSIONS_WIDTH
        &&& !spec_is_whitespace(self.permissions[0])
        &&& is_count(self.link_count)
        &&& is_word(self.owner)
        &&& is_word(self.group)
        &&& is_count(self.size)
        &&& all_chars(self.month, non_whitespace())
        &&& all_chars(self.day, non_whitespace())
        &&& all_chars(self.time, non_whitespace())
        &&& self.month.len() == 0 ==> self.day.len() == 0
        &&& self.day.len() == 0 ==> self.time.len() == 0
        &&& self.time.len() == 0 ==> self.tail.len() == 0
        &&& is_trimmed(self.tail)
    }
}

/// The tokens of a line that parses are well-formed.
pub proof fn lemma_fields_well_formed(input: Seq<char>)
    requires
        parse_line(input) is Some,
    ensures
        fields(trim(input)).well_formed(),
{
    let line = trim(input);
    lemma_trim_is_trimmed(input);
    let width = PERMISSIONS_WIDTH as int;
    let at_link_count = after(line.skip(width), whitespace());
    let at_owner = behind(at_link_count, digit());
    let at_group = behind(at_owner, non_whitespace());
    let at_size = behind(at_group, non_whitespace());
    let at_month = behind(at_size, digit());
    let at_day = behind(at_month, non_whitespace());
    let at_time = behind(at_day, non_whitespace());
    let f = fields(line);
    assert(f.permissions[0] == line.first());
    lemma_leading_and_after(line.skip(width), whitespace());
    lemma_behind(at_link_count, digit());
    lemma_behind(at_owner, non_whitespace());
    lemma_behind(at_group, non_whitespace());
    lemma_behind(at_size, digit());
    lemma_behind(at_month, non_whitespace());
    lemma_behind(at_day, non_whitespace());
    lemma_behind(at_time, non_whitespace());
    if f.owner.len() == 0 {
        lemma_word_is_empty(at_owner);
    }
    if f.group.len() == 0 {
        lemma_word_is_empty(at_group);
    }
    if f.month.len() == 0 {
        lemma_word_is_empty(at_month);
    }
    if f.day.len() == 0 {
        lemma_word_is_empty(at_day);
    }
    if f.time.len() == 0 {
        lemma_word_is_empty(at_time);
    }
    if f.tail.len() > 0 {
        assert(f.tail.last() == line.skip(width).last());
        assert(line.skip(width).last() == line.last());
    }
}

} // verus!
