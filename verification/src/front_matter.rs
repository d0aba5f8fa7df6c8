//! The front matter of a note: the block between two delimiter lines at the
//! top of the file. Which lines are delimiters the `regex` crate decides; where
//! the block lies is decided here, from the marks of the lines.

use crate::pattern::{is_match, pattern_matches};
use crate::text::{join, joined, lines_of, slice_of, split_lines, string_of, texts};
use vstd::prelude::*;

verus! {

/// The pattern of a delimiter line.
pub const DELIMITER: &'static str = "^---\\s*$";

/// `line` is a delimiter line.
pub open spec fn is_delimiter(line: Seq<char>) -> bool {
    pattern_matches(DELIMITER@, line)
}

/// For each line, whether it is a delimiter line.
pub open spec fn marks_of(lines: Seq<Seq<char>>) -> Seq<bool> {
    Seq::new(lines.len(), |i: int| is_delimiter(lines[i]))
}

/// The first marked position at or after `from`, or the number of
/// positions where none is marked.
pub open spec fn next_mark(marks: Seq<bool>, from: int) -> int
    recommends
        0 <= from,
    decreases marks.len() - from,
{
    if from < 0 || from >= marks.len() {
        marks.len() as int
    } else if marks[from] {
        from
    } else {
        next_mark(marks, from + 1)
    }
}

/// Where the text of a note begins, for a reader who takes a front matter
/// only at the very top: behind the first delimiter after line 0, where line
/// 0 is a delimiter, the file has more than two lines and such a delimiter
/// comes; else at line 0.
pub open spec fn body_start_of(marks: Seq<bool>) -> int {
    if marks.len() > 2 && marks[0] && next_mark(marks, 1) < marks.len() {
        next_mark(marks, 1) + 1
    } else {
        0
    }
}

/// The line that opens the block, for a reader who takes the first
/// delimiter anywhere: its position, or the number of lines where none is
/// a delimiter.
pub open spec fn block_open_of(marks: Seq<bool>) -> int {
    next_mark(marks, 0)
}

/// The line that closes the block: the first delimiter behind the one that
/// opens it, or the number of lines where none comes.
pub open spec fn block_close_of(marks: Seq<bool>) -> int {
    next_mark(marks, next_mark(marks, 0) + 1)
}

/// At most `count` of `lines`, from position `from` on.
pub open spec fn window(lines: Seq<Seq<char>>, from: int, count: int) -> Seq<Seq<char>>
    recommends
        0 <= from,
        0 <= count,
{
    if from >= lines.len() {
        Seq::empty()
    } else if from + count >= lines.len() {
        lines.skip(from)
    } else {
        lines.subrange(from, from + count)
    }
}

/// What is shown of a note's text in the preview panel: its first twenty
/// lines behind the front matter, one below the other.
pub open spec fn preview_of(content: Seq<char>) -> Seq<char> {
    let lines = lines_of(content);
    joined(window(lines, body_start_of(marks_of(lines)), 20), seq!['\n'])
}

/// Whether `line` is a delimiter line.
pub fn delimiter_line(line: &Vec<char>) -> (r: bool)
    ensures
        r == is_delimiter(line@),
{
    is_match(DELIMITER, string_of(line).as_str())
}

/// For each of `lines`, whether it is a delimiter line.
pub fn delimiter_marks(lines: &Vec<Vec<char>>) -> (r: Vec<bool>)
    ensures
        r@ == marks_of(texts(lines@)),
{
    let mut out: Vec<bool> = Vec::new();
    let mut i: usize = 0;
    while i < lines.len()
        invariant
            i <= lines.len(),
            out@ == marks_of(texts(lines@)).take(i as int),
        decreases lines.len() - i,
    {
        out.push(delimiter_line(&lines[i]));
        assert(out@ =~= marks_of(texts(lines@)).take(i + 1));
        i += 1;
    }
    assert(out@ =~= marks_of(texts(lines@)));
    out
}

/// The first marked position at or after `from`, or `marks.len()`.
pub fn find_mark(marks: &Vec<bool>, from: usize) -> (r: usize)
    ensures
        r == next_mark(marks@, from as int),
        r <= marks.len(),
        from <= marks.len() ==> from <= r,
{
    let mut i: usize = from;
    while i < marks.len()
        invariant
            from <= i,
            next_mark(marks@, from as int) == next_mark(marks@, i as int),
        decreases marks.len() - i,
    {
        if marks[i] {
            return i;
        }
        i += 1;
    }
    marks.len()
}

/// Where the text begins behind a front matter at the very top.
pub fn body_start(marks: &Vec<bool>) -> (r: usize)
    ensures
        r == body_start_of(marks@),
        r <= marks.len(),
{
    if marks.len() > 2 && marks[0] {
        let end = find_mark(marks, 1);
        if end < marks.len() {
            return end + 1;
        }
    }
    0
}

/// The lines that open and close the block, for a reader who takes the
/// first delimiter anywhere.
pub fn block_bounds(marks: &Vec<bool>) -> (r: (usize, usize))
    ensures
        r.0 == block_open_of(marks@),
        r.1 == block_close_of(marks@),
        r.0 <= r.1 <= marks.len(),
        r.0 < marks.len() ==> r.0 < r.1,
{
    let open = find_mark(marks, 0);
    if open < marks.len() {
        (open, find_mark(marks, open + 1))
    } else {
        (open, open)
    }
}

/// At most `count` of `lines`, from position `from` on.
pub fn lines_window(lines: &Vec<Vec<char>>, from: usize, count: usize) -> (r: Vec<Vec<char>>)
    ensures
        texts(r@) == window(texts(lines@), from as int, count as int),
{
    let mut out: Vec<Vec<char>> = Vec::new();
    if from >= lines.len() {
        assert(texts(out@) =~= Seq::<Seq<char>>::empty());
        return out;
    }
    let end: usize = if count >= lines.len() - from {
        lines.len()
    } else {
        from + count
    };
    let mut i: usize = from;
    assert(texts(out@) =~= texts(lines@).subrange(from as int, i as int));
    while i < end
        invariant
            from <= i <= end <= lines.len(),
            texts(out@) == texts(lines@).subrange(from as int, i as int),
        decreases end - i,
    {
        let ghost before = texts(out@);
        let line = slice_of(&lines[i], 0, lines[i].len());
        assert(line@ =~= lines@[i as int]@);
        out.push(line);
        assert(texts(out@) =~= before.push(lines@[i as int]@));
        assert(texts(out@) =~= texts(lines@).subrange(from as int, i + 1));
        i += 1;
    }
    assert(texts(lines@).skip(from as int) =~= texts(lines@).subrange(
        from as int,
        lines.len() as int,
    ));
    out
}

/// What is shown of a note's text in the preview panel.
pub fn preview_text(content: &Vec<char>) -> (r: Vec<char>)
    ensures
        r@ == preview_of(content@),
{
    let lines = split_lines(content);
    let marks = delimiter_marks(&lines);
    let start = body_start(&marks);
    let shown = lines_window(&lines, start, 20);
    let mut sep: Vec<char> = Vec::new();
    sep.push('\n');
    assert(sep@ =~= seq!['\n']);
    join(&shown, &sep)
}

} // verus!
