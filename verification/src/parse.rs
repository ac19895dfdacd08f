//! The line parser: the grammar of a listing line, and the function that reads it.

use crate::file_info::{FileInfo, FileInfoView};
use crate::link::{
    is_first_arrow, lemma_first_arrow, lemma_first_arrow_unique, no_arrow, split_at_arrow,
    split_link,
};
use crate::number::{number, parse_number};
use crate::tokenizer::{
    after, all_chars, digit, leading, non_whitespace, take_digit, take_n, take_space,
    take_till_space, whitespace,
};
use crate::trim::{lemma_trim_is_shorter, lemma_trim_padded, trim, trim_line};
use std::str::FromStr;
use vstd::prelude::*;
use vstd::std_specs::convert::TryFromSpecImpl;

verus! {

/// The width of the mode string that a line starts with.
pub const PERMISSIONS_WIDTH: usize = 10;

/// The tokens of a line, in the order in which they stand in it.
pub struct Fields {
    pub permissions: Seq<char>,
    pub link_count: Seq<char>,
    pub owner: Seq<char>,
    pub group: Seq<char>,
    pub size: Seq<char>,
    pub month: Seq<char>,
    pub day: Seq<char>,
    pub time: Seq<char>,
    pub tail: Seq<char>,
}

/// What is left of `s` behind its leading characters that satisfy `p` and the
/// whitespace that follows them.
pub open spec fn behind(s: Seq<char>, p: spec_fn(char) -> bool) -> Seq<char> {
    after(after(s, p), whitespace())
}

/// The tokens of a trimmed line: the mode string by its width, then the link
/// count, owner, group, size, month, day and time, each followed by whitespace,
/// and the tail that is left.
pub open spec fn fields(line: Seq<char>) -> Fields {
    let at_link_count = after(line.skip(PERMISSIONS_WIDTH as int), whitespace());
    let at_owner = behind(at_link_count, digit());
    let at_group = behind(at_owner, non_whitespace());
    let at_size = behind(at_group, non_whitespace());
    let at_month = behind(at_size, digit());
    let at_day = behind(at_month, non_whitespace());
    let at_time = behind(at_day, non_whitespace());
    Fields {
        permissions: line.take(PERMISSIONS_WIDTH as int),
        link_count: leading(at_link_count, digit()),
        owner: leading(at_owner, non_whitespace()),
        group: leading(at_group, non_whitespace()),
        size: leading(at_size, digit()),
        month: leading(at_month, non_whitespace()),
        day: leading(at_day, non_whitespace()),
        time: leading(at_time, non_whitespace()),
        tail: behind(at_time, non_whitespace()),
    }
}

/// Month, day and time with a single space between them.
pub open spec fn join_timestamp(month: Seq<char>, day: Seq<char>, time: Seq<char>) -> Seq<
    char,
> {
    month + seq![' '] + day + seq![' '] + time
}

impl Fields {
    /// The record that the tokens describe: permissions, owner and group as
    /// they stand, link count and size as the numbers they write, the time of
    /// the last change as month, day and time joined, and name and link target
    /// as the tail holds them. There is none where link count or size is no
    /// number that fits a `usize`.
    pub open spec fn record(self) -> Option<FileInfoView> {
        match (number(self.link_count), number(self.size)) {
            (Some(hard_link_count), Some(size)) => Some(
                FileInfoView {
                    permissions: self.permissions,
                    hard_link_count: hard_link_count as nat,
                    owner: self.owner,
                    group: self.group,
                    size: size as nat,
                    last_modified: join_timestamp(self.month, self.day, self.time),
                    name: split_at_arrow(self.tail).0,
                    link: split_at_arrow(self.tail).1,
                },
            ),
            _ => None,
        }
    }
}

/// The record that the line `input` describes. There is none where the line,
/// without the whitespace around it, is shorter than the mode string, or where
/// its link count or its size is no number that fits a `usize`.
pub open spec fn parse_line(input: Seq<char>) -> Option<FileInfoView> {
    let line = trim(input);
    if line.len() < PERMISSIONS_WIDTH {
        None
    } else {
        fields(line).record()
    }
}

/// A line fails to parse exactly where, without the whitespace around it, it is
/// shorter than the mode string, or its link count or its size is no number
/// that fits a `usize`. So does every line that is shorter than the mode string
/// as it stands.
pub proof fn lemma_parse_fails(input: Seq<char>)
    ensures
        parse_line(input) is None <==> {
            ||| trim(input).len() < PERMISSIONS_WIDTH
            ||| number(fields(trim(input)).link_count) is None
            ||| number(fields(trim(input)).size) is None
        },
        input.len() < PERMISSIONS_WIDTH ==> parse_line(input) is None,
{
    lemma_trim_is_shorter(input);
}

/// Whitespace before and behind a line does not change what it parses to.
pub proof fn lemma_parse_padded(lead: Seq<char>, line: Seq<char>, trail: Seq<char>)
    requires
        all_chars(lead, whitespace()),
        all_chars(trail, whitespace()),
    ensures
        parse_line(lead + line + trail) == parse_line(line),
{
    lemma_trim_padded(lead, line, trail);
}

/// Without the separator `" -> "` in the tail of a line that parses, the record
/// has no link target, and its name is the whole tail.
pub proof fn lemma_name_without_arrow(input: Seq<char>)
    requires
        parse_line(input) is Some,
        no_arrow(fields(trim(input)).tail),
    ensures
        parse_line(input).unwrap().link is None,
        parse_line(input).unwrap().name == fields(trim(input)).tail,
{
}

/// With the separator `" -> "` in the tail of a line that parses, first at
/// position `i`, the name of the record is the tail before that position and
/// its link target the tail behind the separator.
pub proof fn lemma_name_and_link_at_arrow(input: Seq<char>, i: int)
    requires
        parse_line(input) is Some,
        is_first_arrow(fields(trim(input)).tail, i),
    ensures
        parse_line(input).unwrap().name == fields(trim(input)).tail.take(i),
        parse_line(input).unwrap().link == Some(fields(trim(input)).tail.skip(i + 4)),
{
    lemma_first_arrow_unique(fields(trim(input)).tail, i);
}

/// A record has a link target exactly where the separator `" -> "` stands in
/// the tail of its line.
pub proof fn lemma_link_iff_arrow(input: Seq<char>)
    requires
        parse_line(input) is Some,
    ensures
        parse_line(input).unwrap().link is Some <==> !no_arrow(fields(trim(input)).tail),
{
    lemma_first_arrow(fields(trim(input)).tail);
}

/// Parses one line of a long-form directory listing.
///
/// The whitespace around the line is ignored. What is left starts with the
/// mode string, ten characters wide; then come link count, owner, group, size,
/// month, day and time, with whitespace between them; the rest is the name of
/// the entry and, behind the first `" -> "`, the target it links to. The result
/// is `None` where the line is shorter than the mode string, or where its link
/// count or its size is no number that fits a `usize`.
pub fn parse(input: &str) -> (res: Option<FileInfo>)
    ensures
        res.deep_view() == parse_line(input@),
{
    let input = trim_line(input);
    if input.unicode_len() < PERMISSIONS_WIDTH {
        return None;
    }
    let (input, permissions) = take_n(input, PERMISSIONS_WIDTH);
    let (input, _) = take_space(input);

    let (input, hard_link_count) = take_digit(input);
    let hard_link_count = parse_number(hard_link_count)?;
    let (input, _) = take_space(input);

    let (input, owner) = take_till_space(input);
    let (input, _) = take_space(input);

    let (input, group) = take_till_space(input);
    let (input, _) = take_space(input);

    let (input, size) = take_digit(input);
    let size = parse_number(size)?;
    let (input, _) = take_space(input);

    let (input, month) = take_till_space(input);
    let (input, _) = take_space(input);

    let (input, day) = take_till_space(input);
    let (input, _) = take_space(input);

    let (input, time) = take_till_space(input);
    let (input, _) = take_space(input);

    let mut last_modified = month.to_owned();
    last_modified.append(" ");
    last_modified.append(day);
    last_modified.append(" ");
    last_modified.append(time);
    proof {
        reveal_strlit(" ");
        assert(" "@ =~= seq![' ']);
    }

    let (name, link) = match split_link(input) {
        (name, Some(target)) => (name, Some(target.to_owned())),
        (name, None) => (name, None),
    };

    Some(
        FileInfo {
            permissions: permissions.to_owned(),
            hard_link_count,
            owner: owner.to_owned(),
            group: group.to_owned(),
            size,
            last_modified,
            name: name.to_owned(),
            link,
        },
    )
}

impl<'a> TryFrom<&'a str> for FileInfo {
    type Error = ();

    /// Parses one line of a long-form directory listing, as `parse` does.
    fn try_from(value: &'a str) -> (res: Result<FileInfo, ()>)
        ensures
            res is Ok <==> parse_line(value@) is Some,
            res matches Ok(info) ==> parse_line(value@) == Some(info@),
    {
        match parse(value) {
            Some(info) => Ok(info),
            None => Err(()),
        }
    }
}

/// The texts of a record are known by their views only, and two records with
/// the same view need not be the same value. So no function of the line gives
/// the record itself, and `try_from` states its result over views instead.
impl<'a> TryFromSpecImpl<&'a str> for FileInfo {
    open spec fn obeys_try_from_spec() -> bool {
        false
    }

    open spec fn try_from_spec(v: &'a str) -> Result<FileInfo, ()> {
        Err(())
    }
}

impl FromStr for FileInfo {
    type Err = ();

    /// Parses one line of a long-form directory listing, as `parse` does.
    fn from_str(s: &str) -> (res: Result<FileInfo, ()>)
        ensures
            res is Ok <==> parse_line(s@) is Some,
            res matches Ok(info) ==> parse_line(s@) == Some(info@),
    {
        match parse(s) {
            Some(info) => Ok(info),
            None => Err(()),
        }
    }
}

} // verus!
