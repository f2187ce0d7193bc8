//! What clipping does to one source line: it skips the graphemes that the
//! horizontal offset covers and keeps those of the rest that fit.

use crate::glyph::{
    lemma_total_width_nonnegative, lemma_total_width_push, lemma_total_width_split, total_width, StyledGrapheme,
};
use crate::reflow::clip_from;
use vstd::prelude::*;

verus! {

/// The index of the first line break at or after `pos`, or the length of the
/// stream where there is none.
pub open spec fn line_end(src: Seq<StyledGrapheme>, pos: int) -> int
    decreases src.len() - pos,
{
    if pos < 0 || pos >= src.len() {
        src.len() as int
    } else if src[pos].is_line_break() {
        pos
    } else {
        line_end(src, pos + 1)
    }
}

/// How many graphemes at the start of a line an offset of so many columns
/// covers: each one that is no wider than what is left of the offset.
pub open spec fn skipped(line: Seq<StyledGrapheme>, offset: int) -> int
    decreases line.len(),
{
    if line.len() == 0 || offset <= 0 || line[0].width > offset {
        0
    } else {
        1 + skipped(line.drop_first(), offset - line[0].width)
    }
}

/// How many graphemes at the start of a line fit in so many columns.
pub open spec fn fitting(line: Seq<StyledGrapheme>, columns: int) -> int
    decreases line.len(),
{
    if line.len() == 0 || line[0].width > columns {
        0
    } else {
        1 + fitting(line.drop_first(), columns - line[0].width)
    }
}

/// Both counts lie within the line.
pub proof fn lemma_counts_in_line(line: Seq<StyledGrapheme>, n: int)
    ensures
        0 <= skipped(line, n) <= line.len(),
        0 <= fitting(line, n) <= line.len(),
    decreases line.len(),
{
    if line.len() > 0 {
        lemma_counts_in_line(line.drop_first(), n - line[0].width);
    }
}

/// The width of a line is that of its first grapheme and of the rest.
pub proof fn lemma_total_width_first(line: Seq<StyledGrapheme>)
    requires
        line.len() > 0,
    ensures
        total_width(line) == line[0].width + total_width(line.drop_first()),
{
    lemma_total_width_split(line, 1);
    assert(line.take(1).drop_last().len() == 0);
    assert(total_width(line.take(1).drop_last()) == 0);
    assert(line.take(1).last() == line[0]);
    assert(line.skip(1) =~= line.drop_first());
}

/// A line that is no wider than the columns fits whole.
pub proof fn lemma_narrow_line_fits(line: Seq<StyledGrapheme>, columns: int)
    requires
        total_width(line) <= columns,
    ensures
        fitting(line, columns) == line.len(),
    decreases line.len(),
{
    if line.len() > 0 {
        lemma_total_width_first(line);
        lemma_total_width_nonnegative(line.drop_first());
        lemma_narrow_line_fits(line.drop_first(), columns - line[0].width);
    }
}

/// Clipping from the middle of a source line: to what was kept so far it
/// adds, of the graphemes up to the line break, those that the offset does
/// not cover, as far as they fit.
pub proof fn lemma_clip_from_middle(
    src: Seq<StyledGrapheme>,
    pos: int,
    max: int,
    kept: Seq<StyledGrapheme>,
    offset: int,
)
    requires
        0 <= pos <= src.len(),
        total_width(kept) <= max,
        offset > 0 ==> kept.len() == 0,
        forall|i: int| pos <= i <= line_end(src, pos) && i < src.len() ==> (#[trigger] src[i]).width <= max,
    ensures
        ({
            let line = src.subrange(pos, line_end(src, pos));
            let rest = line.skip(skipped(line, offset));
            clip_from(src, pos, max, kept, offset).line == kept + rest.take(
                fitting(rest, max - total_width(kept)),
            )
        }),
    decreases src.len() - pos,
{
    lemma_line_end_bounds(src, pos);
    let end = line_end(src, pos);
    let line = src.subrange(pos, end);
    lemma_counts_in_line(line, offset);
    let rest = line.skip(skipped(line, offset));
    lemma_counts_in_line(rest, max - total_width(kept));
    if pos >= src.len() || src[pos].is_line_break() {
        assert(line.len() == 0);
        assert(kept + rest.take(fitting(rest, max - total_width(kept))) =~= kept);
    } else {
        lemma_line_end_bounds(src, pos + 1);
        let g = src[pos];
        let tail = src.subrange(pos + 1, end);
        assert(line[0] == g);
        assert(line.drop_first() =~= tail);
        if total_width(kept) + g.width > max {
            assert(rest =~= line);
            assert(kept + rest.take(0) =~= kept);
        } else if offset > 0 && g.width <= offset {
            lemma_clip_from_middle(src, pos + 1, max, kept, offset - g.width);
            lemma_counts_in_line(tail, offset - g.width);
            assert(line.skip(1 + skipped(tail, offset - g.width)) =~= tail.skip(skipped(tail, offset - g.width)));
        } else {
            lemma_total_width_push(kept, g);
            lemma_clip_from_middle(src, pos + 1, max, kept.push(g), 0);
            lemma_counts_in_line(tail, 0);
            assert(tail.skip(0) =~= tail);
            assert(rest =~= line);
            let f = fitting(tail, max - total_width(kept) - g.width);
            lemma_counts_in_line(tail, max - total_width(kept) - g.width);
            assert(kept.push(g) + tail.take(f) =~= kept + line.take(1 + f));
        }
    }
}

/// The end of a line lies between its start and the end of the stream.
pub proof fn lemma_line_end_bounds(src: Seq<StyledGrapheme>, pos: int)
    requires
        0 <= pos <= src.len(),
    ensures
        pos <= line_end(src, pos) <= src.len(),
        pos < src.len() && !src[pos].is_line_break() ==> line_end(src, pos) == line_end(src, pos + 1),
    decreases src.len() - pos,
{
    if pos < src.len() && !src[pos].is_line_break() {
        lemma_line_end_bounds(src, pos + 1);
    }
}

/// Clipping a source line in which no grapheme is wider than the target:
/// the graphemes that the offset covers do not appear, and of the rest the
/// line holds what fits. Where all of the rest fits, the line is the rest,
/// and its width is the width of the source line less that of what was
/// skipped.
pub proof fn lemma_clip_skips_offset(src: Seq<StyledGrapheme>, pos: int, max: int, offset: int)
    requires
        0 <= pos <= src.len(),
        0 <= max,
        forall|i: int| pos <= i <= line_end(src, pos) && i < src.len() ==> (#[trigger] src[i]).width <= max,
    ensures
        ({
            let line = src.subrange(pos, line_end(src, pos));
            let rest = line.skip(skipped(line, offset));
            let clipped = clip_from(src, pos, max, Seq::empty(), offset).line;
            &&& clipped == rest.take(fitting(rest, max))
            &&& total_width(clipped) <= max
            &&& total_width(rest) <= max ==> clipped == rest && total_width(clipped) == total_width(line)
                - total_width(line.take(skipped(line, offset)))
        }),
{
    let none = Seq::<StyledGrapheme>::empty();
    lemma_line_end_bounds(src, pos);
    let line = src.subrange(pos, line_end(src, pos));
    lemma_counts_in_line(line, offset);
    let rest = line.skip(skipped(line, offset));
    lemma_counts_in_line(rest, max);
    lemma_clip_from_middle(src, pos, max, none, offset);
    let clipped = clip_from(src, pos, max, none, offset).line;
    assert(none + rest.take(fitting(rest, max)) =~= rest.take(fitting(rest, max)));
    lemma_fitting_is_narrow(rest, max);
    if total_width(rest) <= max {
        lemma_narrow_line_fits(rest, max);
        assert(rest.take(rest.len() as int) =~= rest);
        lemma_total_width_split(line, skipped(line, offset));
    }
}

/// What fits in the columns is no wider than the columns.
pub proof fn lemma_fitting_is_narrow(line: Seq<StyledGrapheme>, columns: int)
    requires
        0 <= columns,
    ensures
        total_width(line.take(fitting(line, columns))) <= columns,
    decreases line.len(),
{
    lemma_counts_in_line(line, columns);
    if line.len() == 0 || line[0].width > columns {
        assert(line.take(0).len() == 0);
    } else {
        let tail = line.drop_first();
        let f = fitting(tail, columns - line[0].width);
        lemma_counts_in_line(tail, columns - line[0].width);
        lemma_fitting_is_narrow(tail, columns - line[0].width);
        let head = line.take(1 + f);
        lemma_total_width_first(head);
        assert(head.drop_first() =~= tail.take(f));
    }
}

} // verus!
