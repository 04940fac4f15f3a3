//! The lines of a text.
//!
//! A text is cut at its line feeds. A carriage return directly before a line
//! feed goes with it; one that ends the text stays with the last line.

use crate::text::chars_of;
use vstd::prelude::*;

verus! {

/// The position of the first line feed of `text` at or after `from`, or the
/// length of `text` where there is none.
pub open spec fn line_end(text: Seq<char>, from: int) -> int
    decreases text.len() - from,
{
    if from >= text.len() {
        text.len() as int
    } else if text[from] == '\n' {
        from
    } else {
        line_end(text, from + 1)
    }
}

/// Where a line ends: at the first line feed from `from` on, or at the end
/// of the text.
pub proof fn lemma_line_end(text: Seq<char>, from: int)
    requires
        0 <= from <= text.len(),
    ensures
        from <= line_end(text, from) <= text.len(),
        line_end(text, from) < text.len() ==> text[line_end(text, from)] == '\n',
        forall|k: int| from <= k < line_end(text, from) ==> text[k] != '\n',
    decreases text.len() - from,
{
    if from < text.len() && text[from] != '\n' {
        lemma_line_end(text, from + 1);
    }
}

/// `line` without one carriage return at its end.
pub open spec fn strip_cr(line: Seq<char>) -> Seq<char> {
    if line.len() > 0 && line.last() == '\r' {
        line.drop_last()
    } else {
        line
    }
}

/// The lines of `text` that start at or after position `from`.
///
/// A line ends at a line feed, or at a carriage return directly before one;
/// neither belongs to the line. What follows the last line feed is a line of
/// its own, kept as it is, unless it is empty.
pub open spec fn lines_from(text: Seq<char>, from: int) -> Seq<Seq<char>>
    decreases text.len() - from,
{
    if from < 0 || from >= text.len() {
        Seq::empty()
    } else {
        let end = line_end(text, from);
        proof {
            lemma_line_end(text, from);
        }
        if end >= text.len() {
            seq![text.subrange(from, text.len() as int)]
        } else {
            seq![strip_cr(text.subrange(from, end))] + lines_from(text, end + 1)
        }
    }
}

/// The lines of `text`.
pub open spec fn lines_of(text: Seq<char>) -> Seq<Seq<char>> {
    lines_from(text, 0)
}

/// Whether `text` holds no line feed.
pub open spec fn one_line(text: Seq<char>) -> bool {
    forall|k: int| 0 <= k < text.len() ==> text[k] != '\n'
}

/// The texts of a list of string slices.
pub open spec fn texts_of(slices: Seq<&str>) -> Seq<Seq<char>> {
    Seq::new(slices.len(), |i: int| slices[i]@)
}

/// The texts that `ranges` cut out of `text`.
pub open spec fn range_texts(text: Seq<char>, ranges: Seq<(usize, usize)>) -> Seq<Seq<char>> {
    Seq::new(ranges.len(), |i: int| text.subrange(ranges[i].0 as int, ranges[i].1 as int))
}

/// Whether every range of `ranges` lies in a text of `len` characters.
pub open spec fn ranges_within(ranges: Seq<(usize, usize)>, len: nat) -> bool {
    forall|i: int| 0 <= i < ranges.len() ==> (#[trigger] ranges[i]).0 <= ranges[i].1 <= len
}

/// Where the lines of a text start that stands behind another.
proof fn lemma_line_end_shift(front: Seq<char>, back: Seq<char>, from: int)
    requires
        0 <= from <= back.len(),
    ensures
        line_end(front + back, front.len() + from) == front.len() + line_end(back, from),
    decreases back.len() - from,
{
    if from < back.len() && back[from] != '\n' {
        lemma_line_end_shift(front, back, from + 1);
    }
}

/// The lines of a text that stands behind another are the lines of the whole
/// from there on.
proof fn lemma_lines_from_shift(front: Seq<char>, back: Seq<char>, from: int)
    requires
        0 <= from <= back.len(),
    ensures
        lines_from(front + back, front.len() + from) == lines_from(back, from),
    decreases back.len() - from,
{
    let text = front + back;
    if from < back.len() {
        let end = line_end(back, from);
        lemma_line_end(back, from);
        lemma_line_end_shift(front, back, from);
        assert(text.subrange(front.len() + from, front.len() + end) =~= back.subrange(from, end));
        if end < back.len() {
            lemma_lines_from_shift(front, back, end + 1);
        }
    }
}

/// The first line of a text is what stands before its first line feed,
/// without a carriage return at the end; the other lines are those of the
/// rest.
pub proof fn lemma_lines_of_first(line: Seq<char>, rest: Seq<char>)
    requires
        one_line(line),
    ensures
        lines_of(line + seq!['\n'] + rest) == seq![strip_cr(line)] + lines_of(rest),
{
    let front = line + seq!['\n'];
    let text = front + rest;
    lemma_line_end(text, 0);
    let end = line_end(text, 0);
    assert(end == line.len()) by {
        assert(text[line.len() as int] == '\n');
        assert forall|k: int| 0 <= k < line.len() implies text[k] != '\n' by {}
    }
    assert(text.subrange(0, end) =~= line);
    lemma_lines_from_shift(front, rest, 0);
}

/// Cuts `chars` into its lines, each given by the positions where it starts
/// and ends.
pub(crate) fn split_lines(chars: &Vec<char>) -> (ranges: Vec<(usize, usize)>)
    ensures
        ranges_within(ranges@, chars@.len()),
        range_texts(chars@, ranges@) == lines_of(chars@),
{
    let n = chars.len();
    let mut ranges: Vec<(usize, usize)> = Vec::new();
    let mut pos: usize = 0;
    while pos < n
        invariant
            n == chars.len(),
            pos <= n,
            ranges_within(ranges@, chars@.len()),
            lines_of(chars@) == range_texts(chars@, ranges@) + lines_from(chars@, pos as int),
        decreases n - pos,
    {
        let mut end: usize = pos;
        while end < n && chars[end] != '\n'
            invariant
                n == chars.len(),
                pos <= end <= n,
                line_end(chars@, pos as int) == line_end(chars@, end as int),
            decreases n - end,
        {
            end = end + 1;
        }
        let next: usize;
        if end == n {
            ranges.push((pos, n));
            next = n;
        } else {
            let stop: usize = if end > pos && chars[end - 1] == '\r' {
                (end - 1) as usize
            } else {
                end
            };
            ranges.push((pos, stop));
            next = end + 1;
        }
        proof {
            let line = range_texts(chars@, ranges@).last();
            if end < n {
                assert(strip_cr(chars@.subrange(pos as int, end as int)) == line);
            }
            assert(lines_from(chars@, pos as int) == seq![line] + lines_from(chars@, next as int));
        }
        pos = next;
    }
    ranges
}

/// Cuts the texts that `ranges` name out of `data`.
pub(crate) fn cut_ranges<'a>(data: &'a str, ranges: &Vec<(usize, usize)>) -> (slices: Vec<&'a str>)
    requires
        ranges_within(ranges@, data@.len()),
    ensures
        texts_of(slices@) == range_texts(data@, ranges@),
{
    let mut slices: Vec<&'a str> = Vec::new();
    let mut i: usize = 0;
    while i < ranges.len()
        invariant
            i <= ranges.len(),
            ranges_within(ranges@, data@.len()),
            slices@.len() == i,
            forall|k: int|
                0 <= k < i ==> (#[trigger] slices@[k])@ == range_texts(data@, ranges@)[k],
        decreases ranges.len() - i,
    {
        let slice = data.substring_char(ranges[i].0, ranges[i].1);
        slices.push(slice);
        i = i + 1;
    }
    slices
}

/// The lines of a text, as `str::lines` cuts them.
pub fn text_lines<'a>(data: &'a str) -> (lines: Vec<&'a str>)
    ensures
        texts_of(lines@) == lines_of(data@),
{
    let chars = chars_of(data);
    let ranges = split_lines(&chars);
    cut_ranges(data, &ranges)
}

} // verus!
