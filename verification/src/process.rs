//! Commands to run: the words of a command line, the output of a command turned
//! into lines, and the code that stands for its exit status.

use vstd::prelude::*;
use crate::text::{
    chars_of, first_where, is_whitespace, lemma_first_where, lemma_first_where_is, only,
    text_of, texts, whitespace,
};

verus! {

/// The line feed, which ends a line.
pub const LINE_FEED: u8 = 10;

/// The carriage return, which may stand before a line feed.
pub const CARRIAGE_RETURN: u8 = 13;

/// A line without the carriage return at its end, if it has one.
pub open spec fn without_carriage_return(line: Seq<u8>) -> Seq<u8> {
    if line.len() > 0 && line.last() == CARRIAGE_RETURN {
        line.drop_last()
    } else {
        line
    }
}

/// The output of a command, line by line, each line ended by one line feed: a
/// carriage return before a line feed is dropped, and a last line that no line feed
/// ends gets one.
pub open spec fn normalized(output: Seq<u8>) -> Seq<u8>
    decreases output.len(),
{
    if output.len() == 0 {
        output
    } else {
        let end = first_where(output, only(LINE_FEED));
        if end < output.len() {
            proof {
                lemma_first_where(output, only(LINE_FEED));
            }
            without_carriage_return(output.take(end)).push(LINE_FEED) + normalized(
                output.skip(end + 1),
            )
        } else {
            output.push(LINE_FEED)
        }
    }
}

/// Ends every line of the output of a command with one line feed.
pub fn normalize_lines(output: &Vec<u8>) -> (lines: Vec<u8>)
    ensures
        lines@ == normalized(output@),
{
    let mut lines: Vec<u8> = Vec::new();
    let mut start: usize = 0;
    assert(output@.skip(0) == output@);
    assert(lines@ + normalized(output@) == normalized(output@));
    while start < output.len()
        invariant
            start <= output.len(),
            lines@ + normalized(output@.skip(start as int)) == normalized(output@),
        decreases output.len() - start,
    {
        let ghost rest = output@.skip(start as int);
        let ghost before = lines@;
        let mut end: usize = start;
        while end < output.len() && output[end] != LINE_FEED
            invariant
                start <= end <= output.len(),
                rest == output@.skip(start as int),
                forall|i: int| 0 <= i < end - start ==> !only(LINE_FEED)(#[trigger] rest[i]),
            decreases output.len() - end,
        {
            end += 1;
        }
        proof {
            lemma_first_where_is(rest, only(LINE_FEED), end - start);
            assert(rest.take(end - start) == output@.subrange(start as int, end as int));
        }
        let stop: usize = if end < output.len() && end > start && output[end - 1]
            == CARRIAGE_RETURN {
            (end - 1) as usize
        } else {
            end
        };
        let mut at: usize = start;
        while at < stop
            invariant
                start <= at <= stop <= end <= output.len(),
                lines@ == before + output@.subrange(start as int, at as int),
            decreases stop - at,
        {
            lines.push(output[at]);
            assert(output@.subrange(start as int, at + 1) == output@.subrange(
                start as int,
                at as int,
            ).push(output@[at as int]));
            at += 1;
        }
        lines.push(LINE_FEED);
        if end < output.len() {
            assert(rest.skip(end - start + 1) == output@.skip(end + 1));
            assert(output@.subrange(start as int, stop as int) == without_carriage_return(
                rest.take(end - start),
            ));
            assert(lines@ + normalized(output@.skip(end + 1)) == before + normalized(rest));
            start = end + 1;
        } else {
            assert(output@.subrange(start as int, end as int) == rest);
            assert(output@.skip(end as int).len() == 0);
            assert(lines@ + normalized(output@.skip(end as int)) == before + normalized(rest));
            start = end;
        }
    }
    assert(lines@ + normalized(output@.skip(start as int)) == lines@);
    lines
}

/// The code that a reply gives for an exit status: the status itself from 0 to 255,
/// any other status by its lowest eight bits, and 0 where the command ended
/// without a status.
pub open spec fn exit_code(status: Option<i32>) -> u32 {
    match status {
        Some(status) => (status as int % 256) as u32,
        None => 0,
    }
}

/// The code that a reply gives for an exit status.
pub fn code_of_status(status: Option<i32>) -> (code: u32)
    ensures
        code == exit_code(status),
        code < 256,
{
    match status {
        Some(status) => {
            let low: i32 = status % 256;
            if low < 0 {
                (low + 256) as u32
            } else {
                low as u32
            }
        },
        None => 0,
    }
}

/// The predicate that holds of white space.
pub open spec fn space() -> spec_fn(char) -> bool {
    |c: char| whitespace(c)
}

/// The words of a command line: its longest runs of characters that are no white
/// space, from the left.
pub open spec fn words(line: Seq<char>) -> Seq<Seq<char>>
    decreases line.len(),
{
    if line.len() == 0 {
        Seq::empty()
    } else if whitespace(line[0]) {
        words(line.skip(1))
    } else {
        let end = first_where(line, space());
        proof {
            lemma_first_where(line, space());
            if end == 0 {
                assert(space()(line[0]));
            }
        }
        seq![line.take(end)] + words(line.skip(end))
    }
}

/// Splits a command line into its words.
pub fn split_words(line: &str) -> (found: Vec<String>)
    ensures
        texts(found@) == words(line@),
{
    let chars = chars_of(line);
    let mut found: Vec<String> = Vec::new();
    let mut at: usize = 0;
    assert(chars@.skip(0) == chars@);
    assert(texts(found@) + words(chars@) == words(chars@));
    while at < chars.len()
        invariant
            at <= chars.len(),
            texts(found@) + words(chars@.skip(at as int)) == words(chars@),
        decreases chars.len() - at,
    {
        let ghost rest = chars@.skip(at as int);
        let ghost before = texts(found@);
        if is_whitespace(chars[at]) {
            assert(rest.skip(1) == chars@.skip(at + 1));
            at += 1;
        } else {
            let mut end: usize = at + 1;
            assert(!space()(rest[0]));
            while end < chars.len() && !is_whitespace(chars[end])
                invariant
                    at < end <= chars.len(),
                    rest == chars@.skip(at as int),
                    forall|i: int| 0 <= i < end - at ==> !space()(#[trigger] rest[i]),
                decreases chars.len() - end,
            {
                end += 1;
            }
            proof {
                lemma_first_where_is(rest, space(), end - at);
                assert(rest.take(end - at) == chars@.subrange(at as int, end as int));
                assert(rest.skip(end - at) == chars@.skip(end as int));
            }
            let word = text_of(&chars, at, end);
            found.push(word);
            assert(texts(found@) == before.push(word@));
            assert(texts(found@) + words(chars@.skip(end as int)) == before + words(rest));
            at = end;
        }
    }
    assert(texts(found@) + words(chars@.skip(at as int)) == texts(found@));
    found
}

} // verus!
