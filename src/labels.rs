//! Label text: its lines and the extent it takes on the canvas.
use vstd::prelude::*;
use crate::xyplot::LINE_HEIGHT_TENTHS;

verus! {

/// Width and height, in pixels, that a label takes when drawn.
#[derive(Debug, Clone, Copy, PartialEq, Eq, Structural)]
pub struct LabelSize {
    pub width: u32,
    pub height: u32,
}

/// `s` split at every '\n'; the empty text splits into one empty line.
pub open spec fn split_at_newlines(s: Seq<char>) -> Seq<Seq<char>>
    decreases s.len(),
{
    if s.len() == 0 {
        seq![Seq::<char>::empty()]
    } else {
        let init = split_at_newlines(s.drop_last());
        if s.last() == '\n' {
            init.push(Seq::<char>::empty())
        } else {
            init.update(init.len() - 1, init.last().push(s.last()))
        }
    }
}

/// The lines of a label: none for the empty text, else the text split at every '\n'.
pub open spec fn lines_of(s: Seq<char>) -> Seq<Seq<char>> {
    if s.len() == 0 {
        Seq::empty()
    } else {
        split_at_newlines(s)
    }
}

/// Height in pixels of a block of `lines` lines of label text, rounded to the nearest pixel.
pub open spec fn text_block_height(lines: int) -> int {
    (LINE_HEIGHT_TENTHS * lines + 5) / 10
}

/// The largest value in `s`, or 0 when `s` is empty.
pub open spec fn max_of(s: Seq<u32>) -> int
    decreases s.len(),
{
    if s.len() == 0 {
        0
    } else {
        let m = max_of(s.drop_last());
        if s.last() as int > m {
            s.last() as int
        } else {
            m
        }
    }
}

/// The extent of a label whose lines measure `line_widths`.
pub open spec fn label_extent(line_widths: Seq<u32>) -> LabelSize {
    LabelSize {
        width: max_of(line_widths) as u32,
        height: text_block_height(line_widths.len() as int) as u32,
    }
}

pub proof fn lemma_max_of_bounds(s: Seq<u32>)
    ensures
        0 <= max_of(s) <= u32::MAX,
        forall|i: int| 0 <= i < s.len() ==> s[i] <= max_of(s),
    decreases s.len(),
{
    if s.len() > 0 {
        lemma_max_of_bounds(s.drop_last());
        assert forall|i: int| 0 <= i < s.len() implies s[i] <= max_of(s) by {
            if i < s.len() - 1 {
                assert(s[i] == s.drop_last()[i]);
            }
        }
    }
}

/// The character sequences of a vector of strings.
pub open spec fn string_views(v: Seq<String>) -> Seq<Seq<char>> {
    v.map_values(|l: String| l@)
}

/// Splits label text into its lines.
pub fn split_lines(text: &str) -> (r: Vec<String>)
    ensures
        string_views(r@) == lines_of(text@),
{
    let n = text.unicode_len();
    let mut lines: Vec<String> = Vec::new();
    if n == 0 {
        proof {
            assert(string_views(lines@) =~= lines_of(text@));
        }
        return lines;
    }
    let mut start: usize = 0;
    let mut i: usize = 0;
    proof {
        assert(text@.subrange(0, 0) =~= Seq::<char>::empty());
        assert(string_views(lines@).push(text@.subrange(0, 0)) =~= seq![Seq::<char>::empty()]);
    }
    while i < n
        invariant
            n == text@.len(),
            start <= i <= n,
            split_at_newlines(text@.subrange(0, i as int)) == string_views(lines@).push(
                text@.subrange(start as int, i as int),
            ),
        decreases n - i,
    {
        let c = text.get_char(i);
        let ghost before = text@.subrange(0, i as int);
        let ghost after = text@.subrange(0, i + 1);
        let ghost v0 = string_views(lines@);
        proof {
            assert(after.drop_last() =~= before);
            assert(after.last() == c);
        }
        if c == '\n' {
            let line = text.substring_char(start, i).to_owned();
            lines.push(line);
            start = i + 1;
            proof {
                assert(string_views(lines@) =~= v0.push(line@));
                assert(text@.subrange(start as int, i + 1) =~= Seq::<char>::empty());
            }
        } else {
            proof {
                assert(text@.subrange(start as int, i + 1) =~= text@.subrange(
                    start as int,
                    i as int,
                ).push(c));
                assert(split_at_newlines(after) =~= v0.push(text@.subrange(start as int, i + 1)));
            }
        }
        i = i + 1;
    }
    proof {
        assert(text@.subrange(0, n as int) =~= text@);
    }
    let ghost v0 = string_views(lines@);
    let last = text.substring_char(start, n).to_owned();
    lines.push(last);
    proof {
        assert(string_views(lines@) =~= v0.push(last@));
    }
    lines
}

/// The extent of a label from the widths of its lines: as wide as its widest
/// line and as tall as its lines together. A label without lines takes no space.
pub fn label_size(line_widths: &Vec<u32>) -> (r: LabelSize)
    requires
        text_block_height(line_widths@.len() as int) <= u32::MAX,
    ensures
        r == label_extent(line_widths@),
        r.width == max_of(line_widths@),
        r.height == text_block_height(line_widths@.len() as int),
{
    let mut width: u32 = 0;
    let mut i: usize = 0;
    while i < line_widths.len()
        invariant
            i <= line_widths@.len(),
            width == max_of(line_widths@.subrange(0, i as int)),
        decreases line_widths@.len() - i,
    {
        proof {
            assert(line_widths@.subrange(0, i + 1).drop_last() =~= line_widths@.subrange(0, i as int));
        }
        if line_widths[i] > width {
            width = line_widths[i];
        }
        i = i + 1;
    }
    proof {
        assert(line_widths@.subrange(0, i as int) =~= line_widths@);
    }
    let lines = line_widths.len() as u64;
    let height = ((LINE_HEIGHT_TENTHS as u64) * lines + 5) / 10;
    LabelSize { width, height: height as u32 }
}

/// Distance from the top of a label to the top of its line `index`.
pub fn line_offset(index: usize) -> (r: u32)
    requires
        text_block_height(index as int) <= u32::MAX,
    ensures
        r == text_block_height(index as int),
{
    let lines = index as u64;
    (((LINE_HEIGHT_TENTHS as u64) * lines + 5) / 10) as u32
}

/// A label of several lines is taller than a label made of its first line
/// alone, and at least as wide.
pub proof fn more_lines_make_a_taller_label(lines: Seq<u32>)
    requires
        lines.len() >= 2,
        text_block_height(lines.len() as int) <= u32::MAX,
    ensures
        label_extent(lines).height > label_extent(seq![lines[0]]).height,
        label_extent(lines).width >= label_extent(seq![lines[0]]).width,
{
    let first = seq![lines[0]];
    assert(first.drop_last() =~= Seq::<u32>::empty());
    lemma_max_of_bounds(lines);
    lemma_max_of_bounds(first);
    assert(max_of(first.drop_last()) == 0);
    assert(first.last() == lines[0]);
    assert(max_of(first) == lines[0]);
    assert(lines[0] <= max_of(lines));
    assert(text_block_height(lines.len() as int) >= text_block_height(2));
}

} // verus!
