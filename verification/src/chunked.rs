//! Decoding of one read of an HTTP chunked-transfer body.
//!
//! A read is taken as text and cut into lines. A line that is a hexadecimal
//! number is a size line; the line after it is the chunk's payload. A size of
//! zero ends the read. Nothing is carried over from one read to the next.

use crate::codec::{is_parse_of, parse_json, JsonError};
use crate::json::Json;
use crate::lines::{
    cut_ranges, lemma_lines_of_first, lines_of, one_line, range_texts, ranges_within, split_lines,
    strip_cr, texts_of,
};
use crate::text::chars_of;
use vstd::prelude::*;

verus! {

/// The value of a hexadecimal digit, in either case.
pub open spec fn hex_digit(c: char) -> Option<nat> {
    if '0' <= c <= '9' {
        Some((c as u32 - '0' as u32) as nat)
    } else if 'a' <= c <= 'f' {
        Some((c as u32 - 'a' as u32 + 10) as nat)
    } else if 'A' <= c <= 'F' {
        Some((c as u32 - 'A' as u32 + 10) as nat)
    } else {
        None
    }
}

/// The number that a run of hexadecimal digits writes, if all of them are
/// digits. The empty run writes zero.
pub open spec fn hex_value(digits: Seq<char>) -> Option<nat>
    decreases digits.len(),
{
    if digits.len() == 0 {
        Some(0)
    } else {
        match (hex_value(digits.drop_last()), hex_digit(digits.last())) {
            (Some(high), Some(low)) => Some(16 * high + low),
            _ => None,
        }
    }
}

/// A value as a size, where a `usize` holds it.
pub open spec fn sized(value: Option<nat>) -> Option<usize> {
    match value {
        Some(value) => if value <= usize::MAX {
            Some(value as usize)
        } else {
            None
        },
        None => None,
    }
}

/// The chunk size that `line` states, if it is a size line: an optional `+`,
/// then at least one hexadecimal digit and nothing else, with a value that a
/// `usize` holds.
pub open spec fn chunk_size(line: Seq<char>) -> Option<usize> {
    let digits = if line.len() > 0 && line[0] == '+' {
        line.drop_first()
    } else {
        line
    };
    if digits.len() == 0 {
        None
    } else {
        sized(hex_value(digits))
    }
}

/// The payload lines among `lines`: after each size line that is not zero, the
/// next line, which is not looked at as a size line itself. A size line of
/// zero ends the search, and so does a size line with no line after it.
pub open spec fn payload_lines(lines: Seq<Seq<char>>) -> Seq<Seq<char>>
    decreases lines.len(),
{
    if lines.len() == 0 {
        Seq::empty()
    } else {
        match chunk_size(lines[0]) {
            None => payload_lines(lines.drop_first()),
            Some(size) => if size == 0 || lines.len() == 1 {
                Seq::empty()
            } else {
                seq![lines[1]] + payload_lines(lines.skip(2))
            },
        }
    }
}

/// The payloads of the chunks in one read.
pub open spec fn chunk_payloads(data: Seq<char>) -> Seq<Seq<char>> {
    payload_lines(lines_of(data))
}

/// The value of a run of digits is at least that of each run it starts with.
pub proof fn lemma_hex_value_prefix(digits: Seq<char>, k: int)
    requires
        0 <= k <= digits.len(),
    ensures
        hex_value(digits) matches Some(whole) ==> (hex_value(digits.take(k)) matches Some(part)
            && part <= whole),
    decreases digits.len(),
{
    if k < digits.len() {
        lemma_hex_value_prefix(digits.drop_last(), k);
        assert(digits.drop_last().take(k) =~= digits.take(k));
    } else {
        assert(digits.take(k) =~= digits);
    }
}

/// The value of one hexadecimal digit.
pub fn digit_value(c: char) -> (value: Option<usize>)
    ensures
        match value {
            Some(v) => hex_digit(c) == Some(v as nat),
            None => hex_digit(c) is None,
        },
{
    if c >= '0' && c <= '9' {
        Some((c as u32 - '0' as u32) as usize)
    } else if c >= 'a' && c <= 'f' {
        Some((c as u32 - 'a' as u32 + 10) as usize)
    } else if c >= 'A' && c <= 'F' {
        Some((c as u32 - 'A' as u32 + 10) as usize)
    } else {
        None
    }
}

/// The chunk size that the characters of `chars` from `from` up to `to`
/// state, if they are a size line.
fn parse_chunk_size(chars: &Vec<char>, from: usize, to: usize) -> (size: Option<usize>)
    requires
        from <= to <= chars.len(),
    ensures
        size == chunk_size(chars@.subrange(from as int, to as int)),
{
    let ghost line = chars@.subrange(from as int, to as int);
    let start: usize = if from < to && chars[from] == '+' {
        from + 1
    } else {
        from
    };
    let ghost digits = chars@.subrange(start as int, to as int);
    assert(digits =~= if line.len() > 0 && line[0] == '+' {
        line.drop_first()
    } else {
        line
    });
    if start == to {
        return None;
    }
    let mut value: usize = 0;
    let mut i: usize = start;
    while i < to
        invariant
            start <= i <= to <= chars.len(),
            from <= start < to,
            digits == chars@.subrange(start as int, to as int),
            chunk_size(chars@.subrange(from as int, to as int)) == sized(hex_value(digits)),
            hex_value(digits.take(i - start)) == Some(value as nat),
        decreases to - i,
    {
        proof {
            lemma_hex_value_prefix(digits, i - start + 1);
            assert(digits.take(i - start + 1).drop_last() =~= digits.take(i - start));
        }
        let low = match digit_value(chars[i]) {
            Some(low) => low,
            None => {
                return None;
            },
        };
        if value > (usize::MAX - low) / 16 {
            return None;
        }
        value = value * 16 + low;
        i = i + 1;
    }
    assert(digits.take(to - start) =~= digits);
    Some(value)
}

/// Picks the payload lines out of the lines of a read. `lines` gives each
/// line by the positions in `chars` where it starts and ends; so does the
/// result.
fn select_payloads(chars: &Vec<char>, lines: &Vec<(usize, usize)>) -> (payloads: Vec<
    (usize, usize),
>)
    requires
        ranges_within(lines@, chars@.len()),
    ensures
        ranges_within(payloads@, chars@.len()),
        range_texts(chars@, payloads@) == payload_lines(range_texts(chars@, lines@)),
{
    let ghost all = range_texts(chars@, lines@);
    let mut payloads: Vec<(usize, usize)> = Vec::new();
    let mut i: usize = 0;
    assert(all.skip(0) =~= all);
    while i < lines.len()
        invariant
            i <= lines.len(),
            all == range_texts(chars@, lines@),
            ranges_within(lines@, chars@.len()),
            ranges_within(payloads@, chars@.len()),
            range_texts(chars@, payloads@) + payload_lines(all.skip(i as int)) == payload_lines(
                all,
            ),
        decreases lines.len() - i,
    {
        let ghost rest = all.skip(i as int);
        match parse_chunk_size(chars, lines[i].0, lines[i].1) {
            None => {
                assert(rest.drop_first() =~= all.skip(i + 1));
                i = i + 1;
            },
            Some(size) => {
                if size == 0 || lines.len() - i == 1 {
                    return payloads;
                }
                assert(rest.skip(2) =~= all.skip(i + 2));
                payloads.push(lines[i + 1]);
                i = i + 2;
            },
        }
    }
    payloads
}

/// The chunk size that a line states, if it is a size line.
pub fn read_chunk_size(line: &str) -> (size: Option<usize>)
    ensures
        size == chunk_size(line@),
{
    let chars = chars_of(line);
    assert(chars@.subrange(0, chars@.len() as int) =~= line@);
    parse_chunk_size(&chars, 0, chars.len())
}

/// The payload lines of the chunks in one read, in the order in which they
/// stand in it.
pub fn chunk_payload_texts<'a>(data: &'a str) -> (payloads: Vec<&'a str>)
    ensures
        texts_of(payloads@) == chunk_payloads(data@),
{
    let chars = chars_of(data);
    let lines = split_lines(&chars);
    let ranges = select_payloads(&chars, &lines);
    cut_ranges(data, &ranges)
}

/// Decodes one read of a chunked body: one parse result for each payload
/// line, in order. A payload that is not JSON gives an error of its own and
/// does not stop the others.
pub fn parse_chunked_response(data: &str) -> (results: Vec<Result<Json, JsonError>>)
    ensures
        results@.len() == chunk_payloads(data@).len(),
        forall|i: int|
            0 <= i < results@.len() ==> is_parse_of(
                chunk_payloads(data@)[i],
                #[trigger] results@[i],
            ),
{
    let payloads = chunk_payload_texts(data);
    let mut results: Vec<Result<Json, JsonError>> = Vec::new();
    let mut i: usize = 0;
    while i < payloads.len()
        invariant
            i <= payloads.len(),
            results@.len() == i,
            texts_of(payloads@) == chunk_payloads(data@),
            forall|k: int|
                0 <= k < i ==> is_parse_of(chunk_payloads(data@)[k], #[trigger] results@[k]),
        decreases payloads.len() - i,
    {
        let read = parse_json(payloads[i]);
        results.push(read);
        i = i + 1;
    }
    results
}

/// One chunk as it stands in a read: its size line and its payload line,
/// each without the line feed that ends it.
pub struct Frame {
    pub size_line: Seq<char>,
    pub payload_line: Seq<char>,
}

/// Whether a frame's two lines are lines and its size line states a size
/// that is not zero.
pub open spec fn well_formed(frame: Frame) -> bool {
    &&& one_line(frame.size_line)
    &&& one_line(frame.payload_line)
    &&& chunk_size(strip_cr(frame.size_line)) matches Some(size) && size != 0
}

/// A frame as text: both lines, each ended by a line feed.
pub open spec fn frame_text(frame: Frame) -> Seq<char> {
    frame.size_line + seq!['\n'] + frame.payload_line + seq!['\n']
}

/// A run of frames as text.
pub open spec fn frames_text(frames: Seq<Frame>) -> Seq<char>
    decreases frames.len(),
{
    if frames.len() == 0 {
        Seq::empty()
    } else {
        frame_text(frames[0]) + frames_text(frames.drop_first())
    }
}

/// Whether `text` starts with the size line of a zero-size chunk, which ends
/// the transfer.
pub open spec fn ends_transfer(text: Seq<char>) -> bool {
    lines_of(text).len() > 0 && chunk_size(lines_of(text)[0]) == Some(0usize)
}

/// A line that states the size zero, ended by a line feed, ends the
/// transfer, whatever follows it.
pub proof fn lemma_zero_line_ends_transfer(line: Seq<char>, rest: Seq<char>)
    requires
        one_line(line),
        chunk_size(strip_cr(line)) == Some(0usize),
    ensures
        ends_transfer(line + seq!['\n'] + rest),
{
    lemma_lines_of_first(line, rest);
}

/// A read that holds some well-formed frames and then the size line of a
/// zero-size chunk gives one payload for each frame, in order: the frame's
/// payload line without a carriage return at its end. Nothing that stands
/// after the zero size line is looked at.
pub proof fn lemma_frames_then_end(frames: Seq<Frame>, tail: Seq<char>)
    requires
        forall|i: int| 0 <= i < frames.len() ==> well_formed(#[trigger] frames[i]),
        ends_transfer(tail),
    ensures
        chunk_payloads(frames_text(frames) + tail) == Seq::new(
            frames.len(),
            |i: int| strip_cr(frames[i].payload_line),
        ),
    decreases frames.len(),
{
    if frames.len() == 0 {
        assert(frames_text(frames) + tail =~= tail);
    } else {
        let first = frames[0];
        let others = frames.drop_first();
        let rest = frames_text(others) + tail;
        let after_size = first.payload_line + seq!['\n'] + rest;
        assert forall|i: int| 0 <= i < others.len() implies well_formed(#[trigger] others[i]) by {
            assert(others[i] == frames[i + 1]);
        }
        lemma_frames_then_end(others, tail);
        assert(frames_text(frames) + tail =~= first.size_line + seq!['\n'] + after_size);
        lemma_lines_of_first(first.size_line, after_size);
        lemma_lines_of_first(first.payload_line, rest);
        assert(lines_of(frames_text(frames) + tail).skip(2) =~= lines_of(rest));
    }
}

/// The same with the zero size line written out: after `frames` comes a line
/// that states the size zero, then a line feed, then anything at all. The
/// read gives as many payloads as there are frames, and what stands after
/// the zero size line adds none.
pub proof fn lemma_frames_then_terminator(
    frames: Seq<Frame>,
    terminator: Seq<char>,
    rest: Seq<char>,
)
    requires
        forall|i: int| 0 <= i < frames.len() ==> well_formed(#[trigger] frames[i]),
        one_line(terminator),
        chunk_size(strip_cr(terminator)) == Some(0usize),
    ensures
        chunk_payloads(frames_text(frames) + (terminator + seq!['\n'] + rest)).len()
            == frames.len(),
        chunk_payloads(frames_text(frames) + (terminator + seq!['\n'] + rest)) == Seq::new(
            frames.len(),
            |i: int| strip_cr(frames[i].payload_line),
        ),
{
    lemma_zero_line_ends_transfer(terminator, rest);
    lemma_frames_then_end(frames, terminator + seq!['\n'] + rest);
}

} // verus!
