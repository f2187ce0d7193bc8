//! What a frame shows of the composed lines: where every line has a row and
//! every grapheme a column of its own, the painted graphemes, read row by
//! row, are the lines one after the other.

use crate::bounds::{lemma_clipped_lines_fit, lemma_wrapped_lines_fit};
use crate::content::{concat_lines, content, lemma_untrimmed_wrap_is_exact, lemma_wrap_round_trip};
use crate::glyph::{
    lemma_total_width_nonnegative, lemma_total_width_push, lemma_total_width_split, total_width, StyledGrapheme,
};
use crate::paragraph::{line_offset, line_paints, paints, Alignment, Paint, Rect};
use crate::reflow::{clipped_lines, wrapped_lines};
use vstd::prelude::*;

verus! {

/// The graphemes of some painted cells, in the order in which they were painted.
pub open spec fn painted(cells: Seq<Paint>) -> Seq<StyledGrapheme> {
    cells.map_values(|p: Paint| p.grapheme)
}

/// Every cell of the region has coordinates that a `u16` holds.
pub open spec fn addressable(area: Rect) -> bool {
    area.x + area.width <= u16::MAX && area.y + area.height <= u16::MAX
}

/// Every grapheme of every line takes at least one column.
pub open spec fn all_take_room(lines: Seq<Seq<StyledGrapheme>>) -> bool {
    forall|i: int, j: int| 0 <= i < lines.len() && 0 <= j < lines[i].len() ==> (#[trigger] lines[i][j]).width >= 1
}

/// Joining lines: a further line comes after those before it.
pub proof fn lemma_concat_lines_push(lines: Seq<Seq<StyledGrapheme>>, line: Seq<StyledGrapheme>)
    ensures
        concat_lines(lines.push(line)) == concat_lines(lines) + line,
    decreases lines.len(),
{
    let all = lines.push(line);
    if lines.len() == 0 {
        assert(all.drop_first() =~= Seq::<Seq<StyledGrapheme>>::empty());
        assert(concat_lines(all.drop_first()) =~= Seq::<StyledGrapheme>::empty());
        assert(concat_lines(lines) =~= Seq::<StyledGrapheme>::empty());
        assert(concat_lines(all) =~= concat_lines(lines) + line);
    } else {
        lemma_concat_lines_push(lines.drop_first(), line);
        assert(all.drop_first() =~= lines.drop_first().push(line));
        assert(all[0] == lines[0]);
        assert(concat_lines(all) =~= concat_lines(lines) + line);
    }
}

/// A line that fits the region, of graphemes that each take room, is painted
/// whole: the first `count` cells hold its first `count` graphemes.
pub proof fn lemma_line_is_painted_whole(line: Seq<StyledGrapheme>, count: int, area: Rect, start: int, row: int)
    requires
        0 <= count <= line.len(),
        0 <= start,
        start + total_width(line) <= area.width,
        area.x + area.width <= u16::MAX,
        forall|j: int| 0 <= j < line.len() ==> (#[trigger] line[j]).width >= 1,
    ensures
        painted(line_paints(line, count, area, start, row)) == line.take(count),
    decreases count,
{
    if count <= 0 {
        assert(painted(line_paints(line, count, area, start, row)) =~= line.take(count));
    } else {
        lemma_line_is_painted_whole(line, count - 1, area, start, row);
        let head = line.take(count - 1);
        lemma_total_width_push(head, line[count - 1]);
        assert(head.push(line[count - 1]) =~= line.take(count));
        lemma_total_width_split(line, count);
        lemma_total_width_nonnegative(line.skip(count));
        lemma_total_width_nonnegative(head);
        assert(painted(line_paints(line, count, area, start, row)) =~= line.take(count));
    }
}

/// Where nothing is scrolled away, the region has a row for every line and a
/// column for every grapheme, the cells painted for the first `count` lines
/// hold these lines, one after the other.
pub proof fn lemma_paints_show_lines(lines: Seq<Seq<StyledGrapheme>>, count: int, area: Rect, alignment: Alignment)
    requires
        0 <= count <= lines.len() <= area.height,
        addressable(area),
        all_take_room(lines),
        forall|i: int| 0 <= i < lines.len() ==> total_width(#[trigger] lines[i]) <= area.width,
    ensures
        painted(paints(lines, count, area, 0, alignment)) == concat_lines(lines.take(count)),
    decreases count,
{
    if count <= 0 {
        assert(lines.take(count) =~= Seq::<Seq<StyledGrapheme>>::empty());
        assert(painted(paints(lines, count, area, 0, alignment)) =~= concat_lines(lines.take(count)));
    } else {
        lemma_paints_show_lines(lines, count - 1, area, alignment);
        let line = lines[count - 1];
        let start = line_offset(total_width(line), area.width as int, alignment);
        lemma_total_width_nonnegative(line);
        assert forall|j: int| 0 <= j < line.len() implies (#[trigger] line[j]).width >= 1 by {
            assert(lines[count - 1][j].width >= 1);
        }
        lemma_line_is_painted_whole(line, line.len() as int, area, start, area.y + (count - 1));
        assert(line.take(line.len() as int) =~= line);
        lemma_concat_lines_push(lines.take(count - 1), line);
        assert(lines.take(count - 1).push(line) =~= lines.take(count));
        let before = paints(lines, count - 1, area, 0, alignment);
        let row = line_paints(line, line.len() as int, area, start, area.y + (count - 1));
        assert(paints(lines, count, area, 0, alignment) == before + row);
        assert(painted(before + row) =~= painted(before) + painted(row));
    }
}

/// A frame of wrapped text that nothing is scrolled out of shows the
/// content of the stream. Without trimming the painted graphemes are the
/// stream without its line breaks and without graphemes wider than the
/// region, every blank in its place. When trimming, what is solid and fits
/// is painted, all of it and in order.
pub proof fn lemma_wrapped_frame_shows_content(
    stream: Seq<StyledGrapheme>,
    area: Rect,
    trim: bool,
    alignment: Alignment,
)
    requires
        area.width >= 1,
        addressable(area),
        wrapped_lines(stream, 0, area.width as int, trim, Seq::empty()).len() <= area.height,
        all_take_room(wrapped_lines(stream, 0, area.width as int, trim, Seq::empty())),
    ensures
        ({
            let lines = wrapped_lines(stream, 0, area.width as int, trim, Seq::empty());
            let shown = painted(paints(lines, lines.len() as int, area, 0, alignment));
            &&& shown == concat_lines(lines)
            &&& content(shown, area.width as int, trim) == content(stream, area.width as int, trim)
            &&& !trim ==> shown == content(stream, area.width as int, false)
        }),
{
    let max = area.width as int;
    let lines = wrapped_lines(stream, 0, max, trim, Seq::empty());
    assert(total_width(Seq::<StyledGrapheme>::empty()) == 0);
    lemma_wrapped_lines_fit(stream, 0, max, trim, Seq::empty());
    lemma_paints_show_lines(lines, lines.len() as int, area, alignment);
    assert(lines.take(lines.len() as int) =~= lines);
    lemma_wrap_round_trip(stream, max, trim);
    if !trim {
        lemma_untrimmed_wrap_is_exact(stream, max);
    }
}

/// A frame of clipped text that nothing is scrolled out of vertically shows
/// every clipped line whole, row by row.
pub proof fn lemma_clipped_frame_shows_lines(stream: Seq<StyledGrapheme>, area: Rect, offset: int, alignment: Alignment)
    requires
        addressable(area),
        clipped_lines(stream, 0, area.width as int, offset).len() <= area.height,
        all_take_room(clipped_lines(stream, 0, area.width as int, offset)),
    ensures
        ({
            let lines = clipped_lines(stream, 0, area.width as int, offset);
            painted(paints(lines, lines.len() as int, area, 0, alignment)) == concat_lines(lines)
        }),
{
    let lines = clipped_lines(stream, 0, area.width as int, offset);
    lemma_clipped_lines_fit(stream, 0, area.width as int, offset);
    lemma_paints_show_lines(lines, lines.len() as int, area, alignment);
    assert(lines.take(lines.len() as int) =~= lines);
}

} // verus!
