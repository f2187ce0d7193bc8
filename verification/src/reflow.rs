//! Line composers: they pack a stream of styled graphemes into display lines,
//! either clipped to the target width or wrapped at word boundaries.

use crate::glyph::{
    lemma_total_width_nonnegative, lemma_total_width_push, lemma_total_width_split, total_width, StyledGrapheme,
};
use vstd::prelude::*;

verus! {

/// Copies the graphemes of `v` from index `k` on.
pub fn copy_tail(v: &Vec<StyledGrapheme>, k: usize) -> (t: Vec<StyledGrapheme>)
    requires
        k <= v@.len(),
    ensures
        t@ == v@.skip(k as int),
{
    let mut t: Vec<StyledGrapheme> = Vec::new();
    let mut j: usize = k;
    while j < v.len()
        invariant
            k <= j <= v@.len(),
            t@ == v@.subrange(k as int, j as int),
        decreases v@.len() - j,
    {
        t.push(v[j].duplicate());
        assert(t@ =~= v@.subrange(k as int, j + 1));
        j += 1;
    }
    assert(t@ =~= v@.skip(k as int));
    t
}

/// The position just after the first line break at or after `pos`, or the end
/// of the stream where there is none.
pub open spec fn after_line_break(src: Seq<StyledGrapheme>, pos: int) -> int
    decreases src.len() - pos,
{
    if pos < 0 || pos >= src.len() {
        pos
    } else if src[pos].is_line_break() {
        pos + 1
    } else {
        after_line_break(src, pos + 1)
    }
}

/// One clipped line and the position at which the next one starts.
pub struct Clipped {
    pub line: Seq<StyledGrapheme>,
    pub next: int,
}

/// Clips the source line that starts at `pos`. `line` holds what was kept so
/// far and `offset` the columns still to be skipped at the left. A grapheme
/// wider than the whole target is dropped; the line ends at its line break, or
/// at the first grapheme that no longer fits, after which the rest of the
/// source line is passed over.
pub open spec fn clip_from(
    src: Seq<StyledGrapheme>,
    pos: int,
    max: int,
    line: Seq<StyledGrapheme>,
    offset: int,
) -> Clipped
    decreases src.len() - pos,
{
    if pos < 0 || pos >= src.len() {
        Clipped { line, next: pos }
    } else if src[pos].width > max {
        clip_from(src, pos + 1, max, line, offset)
    } else if src[pos].is_line_break() {
        Clipped { line, next: pos + 1 }
    } else if total_width(line) + src[pos].width > max {
        Clipped { line, next: after_line_break(src, pos + 1) }
    } else if offset > 0 && src[pos].width <= offset {
        clip_from(src, pos + 1, max, line, offset - src[pos].width)
    } else {
        clip_from(src, pos + 1, max, line.push(src[pos]), 0)
    }
}

/// A composer that gives one output line for each source line, clipped to the
/// target width after a number of columns were skipped at its left.
pub struct LineTruncator {
    symbols: Vec<StyledGrapheme>,
    pos: usize,
    max_line_width: u16,
    horizontal_offset: u16,
}

impl LineTruncator {
    /// The whole stream.
    pub closed spec fn source(&self) -> Seq<StyledGrapheme> {
        self.symbols@
    }

    /// How much of the stream was consumed.
    pub closed spec fn position(&self) -> int {
        self.pos as int
    }

    /// The target width.
    pub closed spec fn max_width(&self) -> int {
        self.max_line_width as int
    }

    /// The columns skipped at the left of every line.
    pub closed spec fn offset(&self) -> int {
        self.horizontal_offset as int
    }

    pub fn new(symbols: Vec<StyledGrapheme>, max_line_width: u16) -> (t: Self)
        ensures
            t.source() == symbols@,
            t.position() == 0,
            t.max_width() == max_line_width,
            t.offset() == 0,
    {
        LineTruncator { symbols, pos: 0, max_line_width, horizontal_offset: 0 }
    }

    pub fn set_horizontal_offset(&mut self, horizontal_offset: u16)
        ensures
            final(self).offset() == horizontal_offset,
            final(self).source() == old(self).source(),
            final(self).position() == old(self).position(),
            final(self).max_width() == old(self).max_width(),
    {
        self.horizontal_offset = horizontal_offset;
    }

    /// The next clipped line with its width, or `None` once the stream is
    /// used up or where the target width is zero.
    pub fn next_line(&mut self) -> (r: Option<(Vec<StyledGrapheme>, u16)>)
        ensures
            final(self).source() == old(self).source(),
            final(self).max_width() == old(self).max_width(),
            final(self).offset() == old(self).offset(),
            r is None <==> old(self).max_width() == 0 || old(self).position() >= old(self).source().len(),
            r is None ==> final(self).position() == old(self).position(),
            r matches Some((line, width)) ==> {
                let clipped = clip_from(
                    old(self).source(),
                    old(self).position(),
                    old(self).max_width(),
                    Seq::empty(),
                    old(self).offset(),
                );
                &&& line@ == clipped.line
                &&& final(self).position() == clipped.next
                &&& width == total_width(line@)
                &&& width <= old(self).max_width()
                &&& old(self).position() < final(self).position() <= old(self).source().len()
            },
    {
        let n = self.symbols.len();
        if self.max_line_width == 0 || self.pos >= n {
            return None;
        }
        let max: u32 = self.max_line_width as u32;
        let ghost src = self.symbols@;
        let ghost start = self.pos as int;
        let ghost goal = clip_from(src, start, max as int, Seq::empty(), self.horizontal_offset as int);
        let mut line: Vec<StyledGrapheme> = Vec::new();
        let mut width: u32 = 0;
        let mut offset: u16 = self.horizontal_offset;
        let mut i: usize = self.pos;
        let mut ended = false;
        let mut skip_rest = false;
        while i < n && !ended
            invariant
                src == self.symbols@,
                n == src.len(),
                start <= i <= n,
                max == self.max_line_width,
                width == total_width(line@),
                width <= max,
                skip_rest ==> ended,
                ended ==> i > start,
                !ended ==> clip_from(src, i as int, max as int, line@, offset as int) == goal,
                ended && !skip_rest ==> goal == (Clipped { line: line@, next: i as int }),
                ended && skip_rest ==> goal == (Clipped { line: line@, next: after_line_break(src, i as int) }),
            decreases n - i + if ended { 0int } else { 1int },
        {
            let g = &self.symbols[i];
            let w: u32 = g.width as u32;
            if w > max {
            } else if g.breaks_line() {
                ended = true;
            } else if width + w > max {
                ended = true;
                skip_rest = true;
            } else if offset > 0 && g.width <= offset {
                offset = offset - g.width;
            } else {
                proof {
                    lemma_total_width_push(line@, *g);
                }
                line.push(g.duplicate());
                width = width + w;
                offset = 0;
            }
            i += 1;
        }
        if skip_rest {
            let mut found = false;
            while i < n && !found
                invariant
                    src == self.symbols@,
                    n == src.len(),
                    start < i <= n,
                    !found ==> after_line_break(src, i as int) == goal.next,
                    found ==> i as int == goal.next,
                decreases n - i + if found { 0int } else { 1int },
            {
                if self.symbols[i].breaks_line() {
                    found = true;
                }
                i += 1;
            }
        }
        self.pos = i;
        Some((line, width as u16))
    }
}

/// The index of the first grapheme at or after `from` that is not blank, or
/// the length of the run where all of them are.
pub open spec fn first_solid(s: Seq<StyledGrapheme>, from: int) -> int
    decreases s.len() - from,
{
    if from < 0 || from >= s.len() {
        s.len() as int
    } else if !s[from].is_blank() {
        from
    } else {
        first_solid(s, from + 1)
    }
}

/// What the wrapper has gathered of the line it is composing: the graphemes,
/// the index at which the last word ended, and whether the last grapheme was
/// a space.
pub struct Gathered {
    pub line: Seq<StyledGrapheme>,
    pub word_end: int,
    pub prev_space: bool,
}

/// One wrapped line, the graphemes carried over to the next line, and the
/// position at which the stream goes on.
pub struct Wrapped {
    pub line: Seq<StyledGrapheme>,
    pub carry: Seq<StyledGrapheme>,
    pub next: int,
}

/// Breaks a line that has just grown past the target width.
///
/// When trimming, the line is cut at the end of the last word where there is
/// one and what follows it, without its leading blanks, fits the target
/// width; else just before its last grapheme, which is carried over unless it
/// is blank.
///
/// Without trimming no grapheme is lost. The line is cut after the blanks
/// that follow the last word (or that open the line), where that leaves
/// something on both sides and what is carried over fits; else at the end of
/// the last word, where there is one and what is carried over fits; else just
/// before its last grapheme.
pub open spec fn break_line(line: Seq<StyledGrapheme>, word_end: int, max: int, trim: bool, next: int) -> Wrapped {
    let solid = first_solid(line, word_end);
    if trim {
        if word_end != 0 && total_width(line.skip(solid)) <= max {
            Wrapped { line: line.take(word_end), carry: line.skip(solid), next }
        } else {
            Wrapped { line: line.drop_last(), carry: line.skip(first_solid(line, line.len() - 1)), next }
        }
    } else if 0 < solid < line.len() && total_width(line.skip(solid)) <= max {
        Wrapped { line: line.take(solid), carry: line.skip(solid), next }
    } else if word_end != 0 && total_width(line.skip(word_end)) <= max {
        Wrapped { line: line.take(word_end), carry: line.skip(word_end), next }
    } else {
        Wrapped { line: line.drop_last(), carry: line.skip(line.len() - 1), next }
    }
}

/// Composes one wrapped line from position `pos` on. A grapheme wider than
/// the whole target is dropped, and so is a space at the start of a line when
/// trimming. A line break ends the line, which loses its trailing spaces
/// when trimming. A grapheme that takes the line past the target width
/// breaks it.
pub open spec fn wrap_from(src: Seq<StyledGrapheme>, pos: int, max: int, trim: bool, st: Gathered) -> Wrapped
    decreases src.len() - pos,
{
    if pos < 0 || pos >= src.len() {
        Wrapped { line: st.line, carry: Seq::empty(), next: pos }
    } else if src[pos].width > max || (trim && src[pos].is_space() && !src[pos].is_line_break()
        && total_width(st.line) == 0) {
        wrap_from(src, pos + 1, max, trim, st)
    } else if src[pos].is_line_break() {
        Wrapped {
            line: if trim && st.prev_space {
                st.line.take(st.word_end)
            } else {
                st.line
            },
            carry: Seq::empty(),
            next: pos + 1,
        }
    } else {
        let word_end = if src[pos].is_space() && !st.prev_space {
            st.line.len() as int
        } else {
            st.word_end
        };
        let line = st.line.push(src[pos]);
        if total_width(line) > max {
            break_line(line, word_end, max, trim, pos + 1)
        } else {
            wrap_from(src, pos + 1, max, trim, Gathered { line, word_end, prev_space: src[pos].is_space() })
        }
    }
}

/// A composer that wraps lines at word boundaries and never lets a line grow
/// past the target width.
pub struct WordWrapper {
    symbols: Vec<StyledGrapheme>,
    pos: usize,
    max_line_width: u16,
    carry: Vec<StyledGrapheme>,
    carry_width: u32,
    trim: bool,
}

impl WordWrapper {
    /// The whole stream.
    pub closed spec fn source(&self) -> Seq<StyledGrapheme> {
        self.symbols@
    }

    /// How much of the stream was consumed.
    pub closed spec fn position(&self) -> int {
        self.pos as int
    }

    /// The target width.
    pub closed spec fn max_width(&self) -> int {
        self.max_line_width as int
    }

    /// Whether spaces at the start of a line are dropped.
    pub closed spec fn trims(&self) -> bool {
        self.trim
    }

    /// The graphemes that the last line left for the next one.
    pub closed spec fn carried(&self) -> Seq<StyledGrapheme> {
        self.carry@
    }

    /// What is carried over fits in a line.
    pub closed spec fn wf(&self) -> bool {
        &&& self.pos <= self.symbols@.len()
        &&& self.carry_width == total_width(self.carry@)
        &&& self.carry_width <= self.max_line_width
    }

    pub fn new(symbols: Vec<StyledGrapheme>, max_line_width: u16, trim: bool) -> (w: Self)
        ensures
            w.wf(),
            w.source() == symbols@,
            w.position() == 0,
            w.max_width() == max_line_width,
            w.trims() == trim,
            w.carried() == Seq::<StyledGrapheme>::empty(),
    {
        WordWrapper { symbols, pos: 0, max_line_width, carry: Vec::new(), carry_width: 0, trim }
    }

    /// The next wrapped line with its width, or `None` once the stream is used
    /// up and nothing is carried over, or where the target width is zero.
    pub fn next_line(&mut self) -> (r: Option<(Vec<StyledGrapheme>, u16)>)
        requires
            old(self).wf(),
        ensures
            final(self).wf(),
            final(self).source() == old(self).source(),
            final(self).max_width() == old(self).max_width(),
            final(self).trims() == old(self).trims(),
            r is None <==> old(self).max_width() == 0 || (old(self).position() >= old(self).source().len()
                && old(self).carried().len() == 0),
            r is None ==> final(self).position() == old(self).position(),
            r is None ==> final(self).carried() == old(self).carried(),
            r matches Some((line, width)) ==> {
                let wrapped = wrap_from(
                    old(self).source(),
                    old(self).position(),
                    old(self).max_width(),
                    old(self).trims(),
                    Gathered { line: old(self).carried(), word_end: 0, prev_space: false },
                );
                &&& line@ == wrapped.line
                &&& final(self).carried() == wrapped.carry
                &&& final(self).position() == wrapped.next
                &&& width == total_width(line@)
                &&& width <= old(self).max_width()
                &&& total_width(final(self).carried()) <= old(self).max_width()
                &&& old(self).position() <= final(self).position() <= old(self).source().len()
                &&& old(self).position() < old(self).source().len() ==> old(self).position()
                    < final(self).position()
            },
    {
        let n = self.symbols.len();
        if self.max_line_width == 0 || (self.pos >= n && self.carry.len() == 0) {
            return None;
        }
        let max: u32 = self.max_line_width as u32;
        let trim = self.trim;
        let ghost src = self.symbols@;
        let ghost start = self.pos as int;
        let ghost goal = wrap_from(
            src,
            start,
            max as int,
            trim,
            Gathered { line: self.carry@, word_end: 0, prev_space: false },
        );
        let mut line: Vec<StyledGrapheme> = copy_tail(&self.carry, 0);
        assert(line@ =~= self.carry@);
        let mut width: u32 = self.carry_width;
        let mut carry: Vec<StyledGrapheme> = Vec::new();
        let mut carry_width: u32 = 0;
        let mut word_end: usize = 0;
        let mut word_end_width: u32 = 0;
        let mut prev_space = false;
        let mut i: usize = self.pos;
        let mut ended = false;
        assert(line@.take(0).len() == 0);
        while i < n && !ended
            invariant
                src == self.symbols@,
                n == src.len(),
                start <= i <= n,
                max == self.max_line_width,
                trim == self.trim,
                word_end_width <= width,
                width == total_width(line@),
                width <= max,
                word_end <= line@.len(),
                word_end_width == total_width(line@.take(word_end as int)),
                carry_width == total_width(carry@),
                carry_width <= max,
                ended ==> i > start,
                !ended ==> carry@.len() == 0,
                !ended ==> wrap_from(
                    src,
                    i as int,
                    max as int,
                    trim,
                    Gathered { line: line@, word_end: word_end as int, prev_space },
                ) == goal,
                ended ==> goal == (Wrapped { line: line@, carry: carry@, next: i as int }),
            decreases n - i + if ended { 0int } else { 1int },
        {
            let g = &self.symbols[i];
            let w: u32 = g.width as u32;
            let space = g.space();
            let line_break = g.breaks_line();
            if w > max || (trim && space && !line_break && width == 0) {
            } else if line_break {
                if trim && prev_space {
                    line.truncate(word_end);
                    width = word_end_width;
                    assert(line@.take(word_end as int) =~= line@);
                }
                assert(carry@ =~= Seq::empty());
                ended = true;
            } else {
                let ghost before = line@;
                if space && !prev_space {
                    word_end = line.len();
                    word_end_width = width;
                    assert(before.take(word_end as int) =~= before);
                }
                proof {
                    lemma_total_width_push(before, *g);
                    assert(before.push(*g).take(word_end as int) =~= before.take(word_end as int));
                }
                line.push(g.duplicate());
                if width + w > max {
                    let len = line.len();
                    // Width of the line up to the first grapheme after the last
                    // word that is not blank.
                    let mut k: usize = word_end;
                    let mut head_width: u32 = word_end_width;
                    while k < len && line[k].blank()
                        invariant
                            len == line@.len(),
                            word_end <= k <= len,
                            head_width == total_width(line@.take(k as int)),
                            total_width(line@) == width + w,
                            width + w <= 2 * 0xFFFF,
                            first_solid(line@, k as int) == first_solid(line@, word_end as int),
                        decreases len - k,
                    {
                        proof {
                            lemma_total_width_push(line@.take(k as int), line@[k as int]);
                            assert(line@.take(k as int).push(line@[k as int]) =~= line@.take(k + 1));
                            lemma_total_width_split(line@, k + 1);
                            lemma_total_width_nonnegative(line@.skip(k + 1));
                        }
                        head_width = head_width + line[k].width as u32;
                        k += 1;
                    }
                    proof {
                        lemma_total_width_split(line@, k as int);
                        lemma_total_width_nonnegative(line@.skip(k as int));
                        lemma_total_width_split(line@, len - 1);
                        assert(line@.take(len - 1) =~= before);
                        assert(line@.drop_last() =~= before);
                    }
                    proof {
                        lemma_total_width_split(line@, word_end as int);
                        if k < len {
                            assert(line@.take(k as int) =~= before.take(k as int));
                            lemma_total_width_split(before, k as int);
                            lemma_total_width_nonnegative(before.skip(k as int));
                        }
                    }
                    let last = len - 1;
                    if trim {
                        if word_end != 0 && width + w - head_width <= max {
                            carry = copy_tail(&line, k);
                            carry_width = width + w - head_width;
                            line.truncate(word_end);
                            width = word_end_width;
                            assert(line@.take(word_end as int) =~= line@);
                        } else {
                            if line[last].blank() {
                                proof {
                                    assert(first_solid(line@, last + 1) == len);
                                    assert(first_solid(line@, last as int) == len);
                                    assert(line@.skip(len as int).len() == 0);
                                }
                                carry = copy_tail(&line, len);
                                carry_width = 0;
                            } else {
                                carry = copy_tail(&line, last);
                                carry_width = w;
                            }
                            line.truncate(last);
                            assert(line@ =~= before);
                            assert(line@.take(word_end as int) =~= before.take(word_end as int));
                        }
                    } else {
                        if 0 < k && k < len && width + w - head_width <= max {
                            carry = copy_tail(&line, k);
                            carry_width = width + w - head_width;
                            line.truncate(k);
                            width = head_width;
                        } else if word_end != 0 && width + w - word_end_width <= max {
                            carry = copy_tail(&line, word_end);
                            carry_width = width + w - word_end_width;
                            line.truncate(word_end);
                            width = word_end_width;
                        } else {
                            carry = copy_tail(&line, last);
                            carry_width = w;
                            line.truncate(last);
                            assert(line@ =~= before);
                        }
                        word_end = 0;
                        word_end_width = 0;
                        assert(line@.take(0).len() == 0);
                    }
                    ended = true;
                } else {
                    width = width + w;
                    prev_space = space;
                }
            }
            i += 1;
        }
        assert(!ended ==> carry@ =~= Seq::empty());
        self.pos = i;
        self.carry = carry;
        self.carry_width = carry_width;
        Some((line, width as u16))
    }
}

/// All the lines that clipping gives from position `pos` on: one for each
/// source line that is left.
pub open spec fn clipped_lines(src: Seq<StyledGrapheme>, pos: int, max: int, offset: int) -> Seq<
    Seq<StyledGrapheme>,
>
    decreases src.len() - pos,
{
    if max <= 0 || pos < 0 || pos >= src.len() {
        Seq::empty()
    } else {
        let clipped = clip_from(src, pos, max, Seq::empty(), offset);
        seq![clipped.line] + if pos < clipped.next <= src.len() {
            clipped_lines(src, clipped.next, max, offset)
        } else {
            Seq::empty()
        }
    }
}

/// All the lines that wrapping gives from position `pos` on, the first of
/// them starting with what was carried over.
pub open spec fn wrapped_lines(
    src: Seq<StyledGrapheme>,
    pos: int,
    max: int,
    trim: bool,
    carry: Seq<StyledGrapheme>,
) -> Seq<Seq<StyledGrapheme>>
    decreases src.len() - pos,
{
    if max <= 0 || pos < 0 || (pos >= src.len() && carry.len() == 0) {
        Seq::empty()
    } else {
        let wrapped = wrap_from(src, pos, max, trim, Gathered { line: carry, word_end: 0, prev_space: false });
        seq![wrapped.line] + if pos < wrapped.next <= src.len() {
            wrapped_lines(src, wrapped.next, max, trim, wrapped.carry)
        } else {
            Seq::empty()
        }
    }
}

/// The two ways of composing lines.
pub enum LineComposer {
    WordWrap(WordWrapper),
    Truncate(LineTruncator),
}

impl LineComposer {
    pub open spec fn wf(&self) -> bool {
        match self {
            LineComposer::WordWrap(w) => w.wf(),
            LineComposer::Truncate(_) => true,
        }
    }

    /// The target width.
    pub open spec fn max_width(&self) -> int {
        match self {
            LineComposer::WordWrap(w) => w.max_width(),
            LineComposer::Truncate(t) => t.max_width(),
        }
    }

    /// The lines that are still to come, in order.
    pub open spec fn lines(&self) -> Seq<Seq<StyledGrapheme>> {
        match self {
            LineComposer::WordWrap(w) => wrapped_lines(
                w.source(),
                w.position(),
                w.max_width(),
                w.trims(),
                w.carried(),
            ),
            LineComposer::Truncate(t) => clipped_lines(t.source(), t.position(), t.max_width(), t.offset()),
        }
    }

    /// Hands out the first of the lines that are still to come, with its
    /// width, which never exceeds the target width; `None` when none is left.
    pub fn next_line(&mut self) -> (r: Option<(Vec<StyledGrapheme>, u16)>)
        requires
            old(self).wf(),
        ensures
            final(self).wf(),
            final(self).max_width() == old(self).max_width(),
            r is None <==> old(self).lines().len() == 0,
            r is None ==> final(self).lines() == old(self).lines(),
            r matches Some((line, width)) ==> {
                &&& old(self).lines() == seq![line@] + final(self).lines()
                &&& width == total_width(line@)
                &&& width <= old(self).max_width()
            },
    {
        match self {
            LineComposer::WordWrap(w) => w.next_line(),
            LineComposer::Truncate(t) => t.next_line(),
        }
    }
}

} // verus!
