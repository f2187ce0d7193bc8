//! No composed line is wider than the target width.

use crate::content::{gathered_ok, lemma_first_solid, lemma_wrap_keeps_content};
use crate::glyph::{
    lemma_total_width_nonnegative, lemma_total_width_push, lemma_total_width_split, total_width, StyledGrapheme,
};
use crate::reflow::{clip_from, clipped_lines, first_solid, wrap_from, wrapped_lines, Gathered};
use vstd::prelude::*;

verus! {

/// The start of a run is no wider than the run.
pub proof fn lemma_prefix_is_narrower(s: Seq<StyledGrapheme>, k: int)
    requires
        0 <= k <= s.len(),
    ensures
        total_width(s.take(k)) <= total_width(s),
        total_width(s.skip(k)) <= total_width(s),
{
    lemma_total_width_split(s, k);
    lemma_total_width_nonnegative(s.take(k));
    lemma_total_width_nonnegative(s.skip(k));
}

/// A wrapped line, and what it carries over, fit the target width when what
/// was gathered does.
pub proof fn lemma_wrap_fits(src: Seq<StyledGrapheme>, pos: int, max: int, trim: bool, st: Gathered)
    requires
        0 <= pos <= src.len(),
        gathered_ok(st),
        total_width(st.line) <= max,
    ensures
        total_width(wrap_from(src, pos, max, trim, st).line) <= max,
        total_width(wrap_from(src, pos, max, trim, st).carry) <= max,
    decreases src.len() - pos,
{
    lemma_total_width_nonnegative(st.line);
    if pos < src.len() {
        let g = src[pos];
        if g.width > max || (trim && g.is_space() && !g.is_line_break() && total_width(st.line) == 0) {
            lemma_wrap_fits(src, pos + 1, max, trim, st);
        } else if g.is_line_break() {
            lemma_prefix_is_narrower(st.line, st.word_end);
        } else {
            let word_end = if g.is_space() && !st.prev_space {
                st.line.len() as int
            } else {
                st.word_end
            };
            let line = st.line.push(g);
            lemma_total_width_push(st.line, g);
            if total_width(line) > max {
                assert(line.take(word_end) =~= st.line.take(word_end));
                lemma_prefix_is_narrower(st.line, word_end);
                assert(line.drop_last() =~= st.line);
                let last = line.len() - 1;
                lemma_first_solid(line, last);
                lemma_first_solid(line, word_end);
                lemma_total_width_split(line, last);
                assert(line.take(last) =~= st.line);
                if first_solid(line, last) != last {
                    assert(line.skip(line.len() as int).len() == 0);
                }
                let solid = first_solid(line, word_end);
                if solid < line.len() {
                    assert(line.take(solid) =~= st.line.take(solid));
                    lemma_prefix_is_narrower(st.line, solid);
                }
            } else {
                let st2 = Gathered { line, word_end, prev_space: g.is_space() };
                assert(gathered_ok(st2)) by {
                    if st2.prev_space {
                        assert forall|i: int| st2.word_end <= i < st2.line.len() implies (
                        #[trigger] st2.line[i]).is_blank() by {
                            if i < st.line.len() {
                                assert(st2.line[i] == st.line[i]);
                            }
                        }
                    }
                }
                lemma_wrap_fits(src, pos + 1, max, trim, st2);
            }
        }
    }
}

/// Every wrapped line fits the target width.
pub proof fn lemma_wrapped_lines_fit(
    src: Seq<StyledGrapheme>,
    pos: int,
    max: int,
    trim: bool,
    carry: Seq<StyledGrapheme>,
)
    requires
        0 <= pos <= src.len(),
        total_width(carry) <= max,
    ensures
        forall|i: int|
            0 <= i < wrapped_lines(src, pos, max, trim, carry).len() ==> total_width(
                #[trigger] wrapped_lines(src, pos, max, trim, carry)[i],
            ) <= max,
    decreases src.len() - pos,
{
    let lines = wrapped_lines(src, pos, max, trim, carry);
    if lines.len() > 0 {
        let st = Gathered { line: carry, word_end: 0, prev_space: false };
        let w = wrap_from(src, pos, max, trim, st);
        lemma_wrap_fits(src, pos, max, trim, st);
        lemma_wrap_keeps_content(src, pos, max, trim, st);
        if pos < w.next <= src.len() {
            lemma_wrapped_lines_fit(src, w.next, max, trim, w.carry);
            let rest = wrapped_lines(src, w.next, max, trim, w.carry);
            assert forall|i: int| 0 <= i < lines.len() implies total_width(#[trigger] lines[i]) <= max by {
                if i > 0 {
                    assert(lines[i] == rest[i - 1]);
                }
            }
        }
    }
}

/// A clipped line fits the target width when what was kept so far does.
pub proof fn lemma_clip_fits(src: Seq<StyledGrapheme>, pos: int, max: int, kept: Seq<StyledGrapheme>, offset: int)
    requires
        0 <= pos <= src.len(),
        total_width(kept) <= max,
    ensures
        total_width(clip_from(src, pos, max, kept, offset).line) <= max,
    decreases src.len() - pos,
{
    if pos < src.len() {
        let g = src[pos];
        if g.width > max {
            lemma_clip_fits(src, pos + 1, max, kept, offset);
        } else if g.is_line_break() {
        } else if total_width(kept) + g.width > max {
        } else if offset > 0 && g.width <= offset {
            lemma_clip_fits(src, pos + 1, max, kept, offset - g.width);
        } else {
            lemma_total_width_push(kept, g);
            lemma_clip_fits(src, pos + 1, max, kept.push(g), 0);
        }
    }
}

/// Every clipped line fits the target width.
pub proof fn lemma_clipped_lines_fit(src: Seq<StyledGrapheme>, pos: int, max: int, offset: int)
    requires
        0 <= pos <= src.len(),
    ensures
        forall|i: int|
            0 <= i < clipped_lines(src, pos, max, offset).len() ==> total_width(
                #[trigger] clipped_lines(src, pos, max, offset)[i],
            ) <= max,
    decreases src.len() - pos,
{
    let lines = clipped_lines(src, pos, max, offset);
    if lines.len() > 0 {
        let clipped = clip_from(src, pos, max, Seq::empty(), offset);
        lemma_clip_fits(src, pos, max, Seq::empty(), offset);
        if pos < clipped.next <= src.len() {
            lemma_clipped_lines_fit(src, clipped.next, max, offset);
            let rest = clipped_lines(src, clipped.next, max, offset);
            assert forall|i: int| 0 <= i < lines.len() implies total_width(#[trigger] lines[i]) <= max by {
                if i > 0 {
                    assert(lines[i] == rest[i - 1]);
                }
            }
        }
    }
}

} // verus!
