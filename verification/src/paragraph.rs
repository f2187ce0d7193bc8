//! The stateful paragraph: which cells of a region one frame paints, and the
//! layout state it leaves for the next frame.

use crate::glyph::{
    default_style, lemma_total_width_nonnegative, lemma_total_width_push, lemma_total_width_split, total_width,
    StyledGrapheme,
};
use crate::reflow::{clipped_lines, wrapped_lines, LineComposer, LineTruncator, WordWrapper};
use crate::text::{styled_as, text_graphemes, text_pieces, Text};
use tui::style::Style;
use vstd::prelude::*;

verus! {

/// A rectangle of terminal cells.
#[derive(Clone, Copy, Debug)]
pub struct Rect {
    pub x: u16,
    pub y: u16,
    pub width: u16,
    pub height: u16,
}

/// Where a line stands in a region that is wider than the line.
#[derive(Clone, Copy, Debug)]
pub enum Alignment {
    Left,
    Center,
    Right,
}

/// The column, counted from the region's left edge, at which a line starts.
pub open spec fn line_offset(line_width: int, text_area_width: int, alignment: Alignment) -> int {
    let free = if text_area_width > line_width {
        text_area_width - line_width
    } else {
        0
    };
    match alignment {
        Alignment::Center => free / 2,
        Alignment::Right => free,
        Alignment::Left => 0,
    }
}

pub fn get_line_offset(line_width: u16, text_area_width: u16, alignment: Alignment) -> (offset: u16)
    ensures
        offset == line_offset(line_width as int, text_area_width as int, alignment),
        line_width <= text_area_width ==> offset + line_width <= text_area_width,
{
    let free = text_area_width.saturating_sub(line_width);
    match alignment {
        Alignment::Center => free / 2,
        Alignment::Right => free,
        Alignment::Left => 0,
    }
}

/// Offsets into the composed lines, in cells.
#[derive(Clone, Copy, Debug)]
pub struct ScrollPos {
    pub x: u16,
    pub y: u16,
}

impl ScrollPos {
    pub fn new(x: u16, y: u16) -> (p: Self)
        ensures
            p.x == x,
            p.y == y,
    {
        Self { x, y }
    }
}

impl Default for ScrollPos {
    fn default() -> (p: Self)
        ensures
            p.x == 0,
            p.y == 0,
    {
        Self { x: 0, y: 0 }
    }
}

/// What a frame leaves for the next one: the scroll position, the number of
/// composed lines and the height of the region that was asked for.
#[derive(Clone, Copy, Debug)]
pub struct ParagraphState {
    scroll: ScrollPos,
    lines: u16,
    height: u16,
}

impl ParagraphState {
    pub closed spec fn scroll_pos(self) -> ScrollPos {
        self.scroll
    }

    pub closed spec fn total_lines(self) -> int {
        self.lines as int
    }

    pub closed spec fn last_height(self) -> int {
        self.height as int
    }

    pub fn lines(self) -> (n: u16)
        ensures
            n == self.total_lines(),
    {
        self.lines
    }

    pub fn height(self) -> (h: u16)
        ensures
            h == self.last_height(),
    {
        self.height
    }

    pub fn scroll(self) -> (p: ScrollPos)
        ensures
            p == self.scroll_pos(),
    {
        self.scroll
    }

    pub fn set_scroll(&mut self, scroll: ScrollPos)
        ensures
            final(self).scroll_pos() == scroll,
            final(self).total_lines() == old(self).total_lines(),
            final(self).last_height() == old(self).last_height(),
    {
        self.scroll = scroll;
    }
}

impl Default for ParagraphState {
    fn default() -> (s: Self)
        ensures
            s.scroll_pos().x == 0,
            s.scroll_pos().y == 0,
            s.total_lines() == 0,
            s.last_height() == 0,
    {
        Self { scroll: ScrollPos { x: 0, y: 0 }, lines: 0, height: 0 }
    }
}

/// One grapheme at the cell where it is painted.
pub struct Paint {
    pub x: u16,
    pub y: u16,
    pub grapheme: StyledGrapheme,
}

impl Paint {
    /// What the cell shows: the grapheme's symbol, or one blank where the
    /// symbol is empty, so that nothing of an earlier frame stays in the cell.
    pub open spec fn shown(&self) -> Seq<char> {
        if self.grapheme.symbol@.len() == 0 {
            seq![' ']
        } else {
            self.grapheme.symbol@
        }
    }

    pub fn symbol(&self) -> (s: String)
        ensures
            s@ == self.shown(),
    {
        if self.grapheme.symbol.as_str().unicode_len() == 0 {
            proof {
                reveal_strlit(" ");
                assert(" "@ =~= seq![' ']);
            }
            " ".to_owned()
        } else {
            self.grapheme.symbol.clone()
        }
    }

    pub fn style(&self) -> (s: Style)
        ensures
            s == self.grapheme.style,
    {
        self.grapheme.style
    }
}

/// The cells painted for the first `count` graphemes of a line that starts
/// at column `start` of the region and stands in screen row `row`. Each
/// grapheme stands at the column that the widths before it give; one whose
/// column lies outside the region, or is more than a `u16` holds, is not
/// painted.
pub open spec fn line_paints(line: Seq<StyledGrapheme>, count: int, area: Rect, start: int, row: int) -> Seq<Paint>
    decreases count,
{
    if count <= 0 {
        Seq::empty()
    } else {
        let column = start + total_width(line.take(count - 1));
        let before = line_paints(line, count - 1, area, start, row);
        if column < area.width && area.x + column <= u16::MAX {
            before.push(Paint { x: (area.x + column) as u16, y: row as u16, grapheme: line[count - 1] })
        } else {
            before
        }
    }
}

/// The cells painted for the first `count` composed lines. Line `i` is
/// painted where `scroll_y <= i < scroll_y + area.height`, in row
/// `i - scroll_y` of the region, unless that row is more than a `u16` holds.
pub open spec fn paints(lines: Seq<Seq<StyledGrapheme>>, count: int, area: Rect, scroll_y: int, alignment: Alignment) -> Seq<
    Paint,
>
    decreases count,
{
    if count <= 0 {
        Seq::empty()
    } else {
        let before = paints(lines, count - 1, area, scroll_y, alignment);
        let line = lines[count - 1];
        if scroll_y <= count - 1 < scroll_y + area.height && area.y + (count - 1) - scroll_y <= u16::MAX {
            before + line_paints(
                line,
                line.len() as int,
                area,
                line_offset(total_width(line), area.width as int, alignment),
                area.y + (count - 1) - scroll_y,
            )
        } else {
            before
        }
    }
}

/// The number of composed lines as the state records it: it stops at the
/// largest `u16`.
pub open spec fn recorded_lines(count: int) -> int {
    if count <= u16::MAX {
        count
    } else {
        u16::MAX as int
    }
}

/// Takes every line that the composer still has, paints those that the
/// vertical scroll leaves in the region and counts all of them.
pub fn layout(composer: &mut LineComposer, text_area: Rect, alignment: Alignment, scroll_y: u16) -> (r: (
    Vec<Paint>,
    u16,
))
    requires
        old(composer).wf(),
    ensures
        final(composer).wf(),
        final(composer).lines().len() == 0,
        r.0@ == paints(
            old(composer).lines(),
            old(composer).lines().len() as int,
            text_area,
            scroll_y as int,
            alignment,
        ),
        r.1 == recorded_lines(old(composer).lines().len() as int),
{
    let ghost all = composer.lines();
    let ghost mut done: int = 0;
    let mut cells: Vec<Paint> = Vec::new();
    let mut y: u32 = 0;
    let limit: u32 = scroll_y as u32 + text_area.height as u32;
    let mut next = composer.next_line();
    let ghost mut rest = all;
    while next.is_some()
        invariant
            composer.wf(),
            limit == scroll_y + text_area.height,
            0 <= done <= all.len(),
            rest == all.skip(done),
            next is None <==> rest.len() == 0,
            next is None ==> composer.lines().len() == 0,
            next matches Some((line, width)) ==> {
                &&& rest == seq![line@] + composer.lines()
                &&& width == total_width(line@)
            },
            y == if done <= 0x20000 { done } else { 0x20000int },
            cells@ == paints(all, done, text_area, scroll_y as int, alignment),
        decreases rest.len(),
    {
        let (line, width) = next.unwrap();
        assert(all[done] == rest[0]);
        assert(rest[0] == line@);
        if scroll_y as u32 <= y && y < limit && text_area.y as u32 + (y - scroll_y as u32) <= 0xFFFF {
            let start: u16 = get_line_offset(width, text_area.width, alignment);
            let row: u16 = (text_area.y as u32 + (y - scroll_y as u32)) as u16;
            let ghost painted_before = cells@;
            let mut column: u32 = start as u32;
            let mut j: usize = 0;
            assert(line@.take(0).len() == 0);
            while j < line.len()
                invariant
                    j <= line@.len(),
                    column == start + total_width(line@.take(j as int)),
                    start + total_width(line@) <= 2 * 0xFFFF,
                    cells@ == painted_before + line_paints(line@, j as int, text_area, start as int, row as int),
                decreases line@.len() - j,
            {
                proof {
                    lemma_total_width_push(line@.take(j as int), line@[j as int]);
                    assert(line@.take(j as int).push(line@[j as int]) =~= line@.take(j + 1));
                    lemma_total_width_split(line@, j + 1);
                    lemma_total_width_nonnegative(line@.skip(j + 1));
                    lemma_total_width_nonnegative(line@.take(j as int));
                }
                if column < text_area.width as u32 && text_area.x as u32 + column <= 0xFFFF {
                    let x: u16 = (text_area.x as u32 + column) as u16;
                    cells.push(Paint { x, y: row, grapheme: line[j].duplicate() });
                }
                assert(cells@ =~= painted_before + line_paints(line@, j + 1, text_area, start as int, row as int));
                column = column + line[j].width as u32;
                j += 1;
            }
        }
        proof {
            assert(composer.lines() =~= rest.skip(1));
            assert(all.skip(done).skip(1) =~= all.skip(done + 1));
            done = done + 1;
            rest = composer.lines();
        }
        if y < 0x20000 {
            y = y + 1;
        }
        next = composer.next_line();
    }
    let total: u16 = if y <= 0xFFFF {
        y as u16
    } else {
        0xFFFF
    };
    (cells, total)
}

/// How text is wrapped: whether spaces at the start of a line are dropped.
#[derive(Clone, Copy, Debug)]
pub struct Wrap {
    pub trim: bool,
}

/// A paragraph of styled text that is laid out anew for every frame, from
/// the state that the frame before left.
pub struct StatefulParagraph {
    /// Widget style
    pub style: Style,
    /// How to wrap the text
    pub wrap: Option<Wrap>,
    /// The text to display
    pub text: Text,
    /// Alignment of the text
    pub alignment: Alignment,
}

impl StatefulParagraph {
    /// A paragraph in the default style, aligned left and not wrapped.
    pub fn new(text: Text) -> (p: Self)
        ensures
            p.text == text,
            p.wrap is None,
            p.alignment is Left,
    {
        Self { style: default_style(), wrap: None, text, alignment: Alignment::Left }
    }

    pub fn style(self, style: Style) -> (p: Self)
        ensures
            p.style == style,
            p.wrap == self.wrap,
            p.text == self.text,
            p.alignment == self.alignment,
    {
        Self { style, wrap: self.wrap, text: self.text, alignment: self.alignment }
    }

    pub fn wrap(self, wrap: Wrap) -> (p: Self)
        ensures
            p.style == self.style,
            p.wrap == Some(wrap),
            p.text == self.text,
            p.alignment == self.alignment,
    {
        Self { style: self.style, wrap: Some(wrap), text: self.text, alignment: self.alignment }
    }

    pub fn alignment(self, alignment: Alignment) -> (p: Self)
        ensures
            p.style == self.style,
            p.wrap == self.wrap,
            p.text == self.text,
            p.alignment == alignment,
    {
        Self { style: self.style, wrap: self.wrap, text: self.text, alignment }
    }

    /// The lines that the paragraph composes from a stream of graphemes in a
    /// region of the given width: wrapped where wrapping is configured, else
    /// clipped, after `scroll_x` columns where the text is aligned left.
    pub open spec fn composed(&self, stream: Seq<StyledGrapheme>, width: int, scroll_x: int) -> Seq<
        Seq<StyledGrapheme>,
    > {
        match self.wrap {
            Some(wrap) => wrapped_lines(stream, 0, width, wrap.trim, Seq::empty()),
            None => clipped_lines(
                stream,
                0,
                width,
                if self.alignment is Left {
                    scroll_x
                } else {
                    0
                },
            ),
        }
    }

    /// Lays the paragraph out in `text_area`, the interior of `area`, and
    /// returns the cells to paint. Every line is composed, so that the state
    /// records how many there are; it also records the height of `area`. An
    /// interior without rows paints nothing and leaves the state as it was.
    pub fn render(self, area: Rect, text_area: Rect, state: &mut ParagraphState) -> (cells: Vec<Paint>)
        ensures
            text_area.height < 1 ==> cells@.len() == 0 && *final(state) == *old(state),
            text_area.height >= 1 ==> exists|stream: Seq<StyledGrapheme>|
                {
                    let lines = #[trigger] self.composed(
                        stream,
                        text_area.width as int,
                        old(state).scroll_pos().x as int,
                    );
                    &&& styled_as(stream, text_pieces(self.text.lines@, self.text.lines@.len() as int, self.style))
                    &&& cells@ == paints(
                        lines,
                        lines.len() as int,
                        text_area,
                        old(state).scroll_pos().y as int,
                        self.alignment,
                    )
                    &&& final(state).total_lines() == recorded_lines(lines.len() as int)
                    &&& final(state).last_height() == area.height
                    &&& final(state).scroll_pos() == old(state).scroll_pos()
                },
    {
        if text_area.height < 1 {
            return Vec::new();
        }
        let stream = text_graphemes(&self.text, self.style);
        let ghost symbols = stream@;
        let mut composer = match self.wrap {
            Some(wrap) => LineComposer::WordWrap(WordWrapper::new(stream, text_area.width, wrap.trim)),
            None => {
                let mut truncator = LineTruncator::new(stream, text_area.width);
                if let Alignment::Left = self.alignment {
                    truncator.set_horizontal_offset(state.scroll.x);
                }
                LineComposer::Truncate(truncator)
            },
        };
        assert(composer.lines() == self.composed(
            symbols,
            text_area.width as int,
            old(state).scroll_pos().x as int,
        ));
        let (cells, total) = layout(&mut composer, text_area, self.alignment, state.scroll.y);
        state.lines = total;
        state.height = area.height;
        cells
    }
}

} // verus!
