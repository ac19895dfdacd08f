//! The line that a record writes, and the proof that parsing it gives the
//! record back.

use crate::file_info::FileInfoView;
use crate::grammar::{lemma_fields_well_formed, lemma_parse_delimited_line, Line};
use crate::link::{arrow, first_arrow, lemma_first_arrow, split_at_arrow};
use crate::number::{decimal, decimal_value, lemma_decimal};
use crate::parse::{fields, parse_line, Fields};
use crate::tokenizer::{digit, non_whitespace, whitespace};
use crate::trim::{is_trimmed, lemma_trim_padded, trim};
use vstd::prelude::*;

verus! {

/// A single space.
pub open spec fn space() -> Seq<char> {
    seq![' ']
}

/// `n` spaces.
pub open spec fn spaces(n: nat) -> Seq<char> {
    Seq::new(n, |i: int| ' ')
}

/// `s`, a space, and `rest`.
pub open spec fn then(s: Seq<char>, rest: Seq<char>) -> Seq<char> {
    s + (space() + rest)
}

/// The name of an entry and, behind the separator, the target it links to.
pub open spec fn render_tail(name: Seq<char>, link: Option<Seq<char>>) -> Seq<char> {
    match link {
        Some(target) => name + arrow() + target,
        None => name,
    }
}

/// The line that writes the record `r`: its fields in their order, link count
/// and size in decimal digits, a single space between one field and the next.
pub open spec fn render(r: FileInfoView) -> Seq<char> {
    then(
        r.permissions,
        then(
            decimal(r.hard_link_count),
            then(
                r.owner,
                then(
                    r.group,
                    then(decimal(r.size), then(r.last_modified, render_tail(r.name, r.link))),
                ),
            ),
        ),
    )
}

/// Name and link target, written one after the other around the separator,
/// are the tail they were split from.
pub proof fn lemma_render_tail(tail: Seq<char>)
    ensures
        render_tail(split_at_arrow(tail).0, split_at_arrow(tail).1) == tail,
{
    lemma_first_arrow(tail);
    if let Some(i) = first_arrow(tail) {
        assert(tail.take(i) + arrow() + tail.skip(i + 4) =~= tail);
    }
}

/// A space where `s` holds something, nothing where it is empty.
pub open spec fn gap_before(s: Seq<char>) -> Seq<char> {
    if s.len() > 0 {
        space()
    } else {
        Seq::empty()
    }
}

/// The line that holds the tokens `f`, link count and size without leading
/// zeros, and a single space before each part that is not empty.
pub open spec fn tight_line(f: Fields) -> Line {
    Line {
        permissions: f.permissions,
        gap_before_link_count: space(),
        link_count: decimal(decimal_value(f.link_count)),
        gap_before_owner: space(),
        owner: f.owner,
        gap_before_group: space(),
        group: f.group,
        gap_before_size: space(),
        size: decimal(decimal_value(f.size)),
        gap_before_month: gap_before(f.month),
        month: f.month,
        gap_before_day: gap_before(f.day),
        day: f.day,
        gap_before_time: gap_before(f.time),
        time: f.time,
        gap_before_tail: gap_before(f.tail),
        tail: f.tail,
    }
}

/// How many of month, day, time and tail are empty.
pub open spec fn missing_parts(f: Fields) -> nat {
    if f.month.len() == 0 {
        4
    } else if f.day.len() == 0 {
        3
    } else if f.time.len() == 0 {
        2
    } else if f.tail.len() == 0 {
        1
    } else {
        0
    }
}

/// The tight line of well-formed tokens parses to the record of those tokens.
pub proof fn lemma_parse_tight_line(f: Fields)
    requires
        f.well_formed(),
    ensures
        is_trimmed(tight_line(f).text()),
        parse_line(tight_line(f).text()) == f.record(),
{
    let line = tight_line(f);
    let text = line.text();
    lemma_decimal(decimal_value(f.link_count));
    lemma_decimal(decimal_value(f.size));
    assert(digit()(line.link_count[0]));
    assert(digit()(line.size[0]));
    assert(digit()(line.size[line.size.len() - 1]));
    assert(non_whitespace()(f.owner[0]));
    assert(non_whitespace()(f.group[0]));
    assert(whitespace()(space()[0]));
    if f.month.len() > 0 {
        assert(non_whitespace()(f.month[0]));
        assert(non_whitespace()(f.month[f.month.len() - 1]));
    }
    if f.day.len() > 0 {
        assert(non_whitespace()(f.day[0]));
        assert(non_whitespace()(f.day[f.day.len() - 1]));
    }
    if f.time.len() > 0 {
        assert(non_whitespace()(f.time[0]));
        assert(non_whitespace()(f.time[f.time.len() - 1]));
    }
    assert(line.delimited());
    assert(text.first() == f.permissions[0]);
    assert(!whitespace()(text.last())) by {
        lemma_last_of_tight_line(f);
    }
    lemma_parse_delimited_line(line);
}

/// The tight line ends with the last character of its last part that is not
/// empty.
proof fn lemma_last_of_tight_line(f: Fields)
    requires
        f.month.len() == 0 ==> f.day.len() == 0,
        f.day.len() == 0 ==> f.time.len() == 0,
        f.time.len() == 0 ==> f.tail.len() == 0,
        decimal(decimal_value(f.size)).len() > 0,
    ensures
        tight_line(f).text().last() == if f.tail.len() > 0 {
            f.tail.last()
        } else if f.time.len() > 0 {
            f.time.last()
        } else if f.day.len() > 0 {
            f.day.last()
        } else if f.month.len() > 0 {
            f.month.last()
        } else {
            decimal(decimal_value(f.size)).last()
        },
{
}

/// The line that writes the record of well-formed tokens is their tight line
/// and as many spaces behind it as parts are missing.
pub proof fn lemma_render_is_padded(f: Fields)
    requires
        f.well_formed(),
    ensures
        render(f.record().unwrap()) == tight_line(f).text() + spaces(missing_parts(f)),
{
    let r = f.record().unwrap();
    let line = tight_line(f);
    let pad = spaces(missing_parts(f));
    lemma_render_tail(f.tail);
    let written = then(r.last_modified, render_tail(r.name, r.link));
    assert(space() + written =~= line.gap_before_month + line.from_month() + pad);
    assert(then(line.size, written) =~= line.from_size() + pad);
    assert(then(r.group, line.from_size() + pad) =~= line.from_group() + pad);
    assert(then(r.owner, line.from_group() + pad) =~= line.from_owner() + pad);
    assert(then(line.link_count, line.from_owner() + pad) =~= line.from_link_count() + pad);
    assert(then(r.permissions, line.from_link_count() + pad) =~= line.text() + pad);
}

/// Parsing the line that writes a record which came out of the parser gives
/// that record again. So the time of the last change, which the parser joins
/// from month, day and time with single spaces, is read back as it stands.
pub proof fn lemma_parse_render(input: Seq<char>)
    requires
        parse_line(input) is Some,
    ensures
        parse_line(render(parse_line(input).unwrap())) == parse_line(input),
{
    let f = fields(trim(input));
    let text = tight_line(f).text();
    let pad = spaces(missing_parts(f));
    lemma_fields_well_formed(input);
    lemma_parse_tight_line(f);
    lemma_render_is_padded(f);
    assert(Seq::<char>::empty() + text + pad =~= text + pad);
    lemma_trim_padded(Seq::empty(), text, pad);
}

/// The time of the last change is joined once and for all: in the line that
/// writes a record, month, day and time stand with single spaces between them,
/// and parsing that line joins them to the same text.
pub proof fn lemma_last_modified_is_read_back(input: Seq<char>)
    requires
        parse_line(input) is Some,
    ensures
        parse_line(render(parse_line(input).unwrap())) is Some,
        parse_line(render(parse_line(input).unwrap())).unwrap().last_modified == parse_line(
            input,
        ).unwrap().last_modified,
{
    lemma_parse_render(input);
}

} // verus!
