//! What wrapping keeps, in the order of the stream. When trimming: every
//! grapheme that is solid and no wider than the target. Without trimming:
//! every grapheme but the line breaks and those wider than the target, so
//! that the lines joined are the stream without these.

use crate::glyph::{total_width, StyledGrapheme};
use crate::reflow::{break_line, first_solid, wrap_from, wrapped_lines, Gathered};
use vstd::prelude::*;

verus! {

/// A grapheme that wrapping must keep. It is not wider than the whole
/// target; when trimming it is solid, and without trimming it is anything
/// but a line break.
pub open spec fn is_content(g: StyledGrapheme, max: int, trim: bool) -> bool {
    g.width <= max && if trim {
        !g.is_blank()
    } else {
        !g.is_line_break()
    }
}

/// The graphemes of a run that wrapping must keep, in order.
pub open spec fn content(s: Seq<StyledGrapheme>, max: int, trim: bool) -> Seq<StyledGrapheme>
    decreases s.len(),
{
    if s.len() == 0 {
        Seq::empty()
    } else if is_content(s.last(), max, trim) {
        content(s.drop_last(), max, trim).push(s.last())
    } else {
        content(s.drop_last(), max, trim)
    }
}

/// Every grapheme of the run is one that wrapping must keep.
pub open spec fn all_content(s: Seq<StyledGrapheme>, max: int, trim: bool) -> bool {
    forall|i: int| 0 <= i < s.len() ==> is_content(#[trigger] s[i], max, trim)
}

/// The graphemes of some lines, one line after the other.
pub open spec fn concat_lines(lines: Seq<Seq<StyledGrapheme>>) -> Seq<StyledGrapheme>
    decreases lines.len(),
{
    if lines.len() == 0 {
        Seq::empty()
    } else {
        lines[0] + concat_lines(lines.drop_first())
    }
}

/// The content of two runs joined is the content of the one, then of the other.
pub proof fn lemma_content_concat(a: Seq<StyledGrapheme>, b: Seq<StyledGrapheme>, max: int, trim: bool)
    ensures
        content(a + b, max, trim) == content(a, max, trim) + content(b, max, trim),
    decreases b.len(),
{
    if b.len() == 0 {
        assert(a + b =~= a);
        assert(content(a, max, trim) + content(b, max, trim) =~= content(a, max, trim));
    } else {
        lemma_content_concat(a, b.drop_last(), max, trim);
        assert((a + b).drop_last() =~= a + b.drop_last());
        assert((a + b).last() == b.last());
        assert(content(a + b, max, trim) =~= content(a, max, trim) + content(b, max, trim));
    }
}

/// A run without content has empty content.
pub proof fn lemma_content_of_filler(s: Seq<StyledGrapheme>, max: int, trim: bool)
    requires
        forall|i: int| 0 <= i < s.len() ==> !is_content(#[trigger] s[i], max, trim),
    ensures
        content(s, max, trim) == Seq::<StyledGrapheme>::empty(),
    decreases s.len(),
{
    if s.len() > 0 {
        assert(forall|i: int| 0 <= i < s.drop_last().len() ==> s.drop_last()[i] == s[i]);
        lemma_content_of_filler(s.drop_last(), max, trim);
    }
}

/// A run that is all content is its own content.
pub proof fn lemma_content_of_content(s: Seq<StyledGrapheme>, max: int, trim: bool)
    requires
        all_content(s, max, trim),
    ensures
        content(s, max, trim) == s,
    decreases s.len(),
{
    if s.len() > 0 {
        assert(forall|i: int| 0 <= i < s.drop_last().len() ==> s.drop_last()[i] == s[i]);
        lemma_content_of_content(s.drop_last(), max, trim);
        assert(s.drop_last().push(s.last()) =~= s);
    } else {
        assert(s =~= Seq::<StyledGrapheme>::empty());
    }
}

/// Between `from` and the first grapheme that is not blank, all are blank.
pub proof fn lemma_first_solid(s: Seq<StyledGrapheme>, from: int)
    requires
        0 <= from <= s.len(),
    ensures
        from <= first_solid(s, from) <= s.len(),
        forall|i: int| from <= i < first_solid(s, from) ==> (#[trigger] s[i]).is_blank(),
    decreases s.len() - from,
{
    if from < s.len() && s[from].is_blank() {
        lemma_first_solid(s, from + 1);
    }
}

/// Cutting a run in two keeps its content.
pub proof fn lemma_split_keeps_content(s: Seq<StyledGrapheme>, at: int, max: int, trim: bool)
    requires
        0 <= at <= s.len(),
    ensures
        content(s.take(at), max, trim) + content(s.skip(at), max, trim) == content(s, max, trim),
{
    assert(s =~= s.take(at) + s.skip(at));
    lemma_content_concat(s.take(at), s.skip(at), max, trim);
}

/// When trimming, cutting a run at `from` and dropping the blanks that
/// follow the cut keeps its content.
pub proof fn lemma_cut_keeps_content(s: Seq<StyledGrapheme>, from: int, max: int)
    requires
        0 <= from <= s.len(),
    ensures
        content(s.take(from), max, true) + content(s.skip(first_solid(s, from)), max, true) == content(
            s,
            max,
            true,
        ),
{
    let k = first_solid(s, from);
    lemma_first_solid(s, from);
    let gap = s.subrange(from, k);
    assert(s =~= s.take(from) + gap + s.skip(k));
    lemma_content_concat(s.take(from) + gap, s.skip(k), max, true);
    lemma_content_concat(s.take(from), gap, max, true);
    assert forall|i: int| 0 <= i < gap.len() implies !is_content(#[trigger] gap[i], max, true) by {
        assert(gap[i] == s[from + i]);
    }
    lemma_content_of_filler(gap, max, true);
    assert(content(s.take(from), max, true) + Seq::<StyledGrapheme>::empty() =~= content(
        s.take(from),
        max,
        true,
    ));
}

/// The state of a line in the making is sound: the end of the last word
/// lies in the line, and after a space everything since that end is blank.
pub open spec fn gathered_ok(st: Gathered) -> bool {
    &&& 0 <= st.word_end <= st.line.len()
    &&& st.prev_space ==> forall|i: int| st.word_end <= i < st.line.len() ==> (#[trigger] st.line[i]).is_blank()
}

/// Breaking a line keeps its content, shared between the line and what is
/// carried over.
pub proof fn lemma_break_keeps_content(line: Seq<StyledGrapheme>, word_end: int, max: int, trim: bool, next: int)
    requires
        line.len() > 0,
        0 <= word_end <= line.len(),
    ensures
        content(break_line(line, word_end, max, trim, next).line, max, trim) + content(
            break_line(line, word_end, max, trim, next).carry,
            max,
            trim,
        ) == content(line, max, trim),
        break_line(line, word_end, max, trim, next).next == next,
{
    lemma_first_solid(line, word_end);
    if trim {
        lemma_cut_keeps_content(line, word_end, max);
        lemma_cut_keeps_content(line, line.len() - 1, max);
    } else {
        lemma_split_keeps_content(line, first_solid(line, word_end), max, trim);
        lemma_split_keeps_content(line, word_end, max, trim);
        lemma_split_keeps_content(line, line.len() - 1, max, trim);
    }
    assert(line.take(line.len() - 1) =~= line.drop_last());
}

/// One wrapped line and what it carries over hold the content of what was
/// gathered and of the stretch of stream that the line consumed; and the line
/// consumes at least one grapheme where the stream has one.
pub proof fn lemma_wrap_keeps_content(src: Seq<StyledGrapheme>, pos: int, max: int, trim: bool, st: Gathered)
    requires
        0 <= pos <= src.len(),
        gathered_ok(st),
    ensures
        pos <= wrap_from(src, pos, max, trim, st).next <= src.len(),
        pos < src.len() ==> pos < wrap_from(src, pos, max, trim, st).next,
        content(st.line, max, trim) + content(
            src.subrange(pos, wrap_from(src, pos, max, trim, st).next),
            max,
            trim,
        ) == content(wrap_from(src, pos, max, trim, st).line, max, trim) + content(
            wrap_from(src, pos, max, trim, st).carry,
            max,
            trim,
        ),
    decreases src.len() - pos,
{
    let w = wrap_from(src, pos, max, trim, st);
    let none = Seq::<StyledGrapheme>::empty();
    if pos >= src.len() {
        assert(src.subrange(pos, pos) =~= none);
        assert(content(st.line, max, trim) + none =~= content(st.line, max, trim));
    } else {
        let g = src[pos];
        let one = seq![g];
        assert(one.drop_last() =~= none);
        assert(one.last() == g);
        assert(content(none, max, trim) =~= none);
        assert(content(one.drop_last(), max, trim) =~= none);
        assert(none.push(g) =~= one);
        assert(content(one, max, trim) =~= if is_content(g, max, trim) {
            one
        } else {
            none
        });
        if g.width > max || (trim && g.is_space() && !g.is_line_break() && total_width(st.line) == 0) {
            lemma_wrap_keeps_content(src, pos + 1, max, trim, st);
            let rest = src.subrange(pos + 1, w.next);
            assert(src.subrange(pos, w.next) =~= one + rest);
            lemma_content_concat(one, rest, max, trim);
            assert(none + content(rest, max, trim) =~= content(rest, max, trim));
        } else if g.is_line_break() {
            assert(src.subrange(pos, pos + 1) =~= one);
            assert(content(w.carry, max, trim) =~= none);
            if trim && st.prev_space {
                let tail = st.line.skip(st.word_end);
                assert(st.line =~= st.line.take(st.word_end) + tail);
                lemma_content_concat(st.line.take(st.word_end), tail, max, trim);
                assert forall|i: int| 0 <= i < tail.len() implies !is_content(#[trigger] tail[i], max, trim) by {
                    assert(tail[i] == st.line[st.word_end + i]);
                }
                lemma_content_of_filler(tail, max, trim);
            }
            assert(content(st.line, max, trim) + none =~= content(st.line, max, trim));
            assert(content(w.line, max, trim) + none =~= content(w.line, max, trim));
        } else {
            let word_end = if g.is_space() && !st.prev_space {
                st.line.len() as int
            } else {
                st.word_end
            };
            let line = st.line.push(g);
            assert(line =~= st.line + one);
            lemma_content_concat(st.line, one, max, trim);
            if total_width(line) > max {
                lemma_break_keeps_content(line, word_end, max, trim, pos + 1);
                assert(src.subrange(pos, pos + 1) =~= one);
            } else {
                let st2 = Gathered { line, word_end, prev_space: g.is_space() };
                assert(gathered_ok(st2)) by {
                    if st2.prev_space {
                        assert forall|i: int| st2.word_end <= i < st2.line.len() implies (
                        #[trigger] st2.line[i]).is_blank() by {
                            if i < st.line.len() {
                                assert(st2.line[i] == st.line[i]);
                            }
                        }
                    }
                }
                lemma_wrap_keeps_content(src, pos + 1, max, trim, st2);
                let rest = src.subrange(pos + 1, w.next);
                assert(src.subrange(pos, w.next) =~= one + rest);
                lemma_content_concat(one, rest, max, trim);
                assert(content(st.line, max, trim) + (content(one, max, trim) + content(rest, max, trim)) =~= (
                content(st.line, max, trim) + content(one, max, trim)) + content(rest, max, trim));
            }
        }
    }
}

/// Wrapping keeps the content of the stream: the lines from position `pos`
/// on, read one after the other, hold the content of what was carried over
/// and then of the rest of the stream.
pub proof fn lemma_wrapping_keeps_content(
    src: Seq<StyledGrapheme>,
    pos: int,
    max: int,
    trim: bool,
    carry: Seq<StyledGrapheme>,
)
    requires
        0 <= pos <= src.len(),
        max > 0,
    ensures
        content(concat_lines(wrapped_lines(src, pos, max, trim, carry)), max, trim) == content(carry, max, trim)
            + content(src.skip(pos), max, trim),
    decreases src.len() - pos,
{
    let none = Seq::<StyledGrapheme>::empty();
    let lines = wrapped_lines(src, pos, max, trim, carry);
    if pos >= src.len() && carry.len() == 0 {
        assert(src.skip(pos) =~= none);
        assert(content(carry, max, trim) + content(src.skip(pos), max, trim) =~= none);
    } else {
        let st = Gathered { line: carry, word_end: 0, prev_space: false };
        let w = wrap_from(src, pos, max, trim, st);
        lemma_wrap_keeps_content(src, pos, max, trim, st);
        if pos < src.len() {
            let rest = wrapped_lines(src, w.next, max, trim, w.carry);
            lemma_wrapping_keeps_content(src, w.next, max, trim, w.carry);
            assert(lines =~= seq![w.line] + rest);
            assert(lines.drop_first() =~= rest);
            assert(concat_lines(lines) == w.line + concat_lines(rest));
            lemma_content_concat(w.line, concat_lines(rest), max, trim);
            let used = src.subrange(pos, w.next);
            let left = src.skip(w.next);
            assert(src.skip(pos) =~= used + left);
            lemma_content_concat(used, left, max, trim);
            assert(content(w.line, max, trim) + (content(w.carry, max, trim) + content(left, max, trim)) =~= (
            content(w.line, max, trim) + content(w.carry, max, trim)) + content(left, max, trim));
            assert(content(carry, max, trim) + (content(used, max, trim) + content(left, max, trim)) =~= (content(
                carry,
                max,
                trim,
            ) + content(used, max, trim)) + content(left, max, trim));
        } else {
            assert(lines =~= seq![w.line]);
            assert(lines.drop_first() =~= Seq::<Seq<StyledGrapheme>>::empty());
            assert(concat_lines(lines.drop_first()) =~= none);
            assert(concat_lines(lines) =~= carry);
            assert(src.skip(pos) =~= none);
            assert(content(carry, max, trim) + content(src.skip(pos), max, trim) =~= content(carry, max, trim));
        }
    }
}

/// Wrapping a whole stream and reading the lines one after the other gives
/// the stream's content back: when trimming, all that is solid and fits.
pub proof fn lemma_wrap_round_trip(src: Seq<StyledGrapheme>, max: int, trim: bool)
    requires
        max > 0,
    ensures
        content(concat_lines(wrapped_lines(src, 0, max, trim, Seq::empty())), max, trim) == content(
            src,
            max,
            trim,
        ),
{
    lemma_wrapping_keeps_content(src, 0, max, trim, Seq::empty());
    assert(src.skip(0) =~= src);
    assert(content(Seq::<StyledGrapheme>::empty(), max, trim) + content(src, max, trim) =~= content(
        src,
        max,
        trim,
    ));
}

/// Without trimming, a wrapped line and what it carries over hold nothing
/// but content, when what was gathered does.
pub proof fn lemma_wrap_holds_content(src: Seq<StyledGrapheme>, pos: int, max: int, st: Gathered)
    requires
        0 <= pos <= src.len(),
        0 <= st.word_end <= st.line.len(),
        all_content(st.line, max, false),
    ensures
        all_content(wrap_from(src, pos, max, false, st).line, max, false),
        all_content(wrap_from(src, pos, max, false, st).carry, max, false),
    decreases src.len() - pos,
{
    if pos < src.len() {
        let g = src[pos];
        if g.width > max {
            lemma_wrap_holds_content(src, pos + 1, max, st);
        } else if g.is_line_break() {
        } else {
            let word_end = if g.is_space() && !st.prev_space {
                st.line.len() as int
            } else {
                st.word_end
            };
            let line = st.line.push(g);
            assert forall|i: int| 0 <= i < line.len() implies is_content(#[trigger] line[i], max, false) by {
                if i < st.line.len() {
                    assert(line[i] == st.line[i]);
                }
            }
            if total_width(line) > max {
                lemma_first_solid(line, word_end);
            } else {
                lemma_wrap_holds_content(
                    src,
                    pos + 1,
                    max,
                    Gathered { line, word_end, prev_space: g.is_space() },
                );
            }
        }
    }
}

/// Without trimming, the wrapped lines joined hold nothing but content.
pub proof fn lemma_wrapped_lines_hold_content(
    src: Seq<StyledGrapheme>,
    pos: int,
    max: int,
    carry: Seq<StyledGrapheme>,
)
    requires
        0 <= pos <= src.len(),
        all_content(carry, max, false),
    ensures
        all_content(concat_lines(wrapped_lines(src, pos, max, false, carry)), max, false),
    decreases src.len() - pos,
{
    let lines = wrapped_lines(src, pos, max, false, carry);
    if lines.len() > 0 {
        let st = Gathered { line: carry, word_end: 0, prev_space: false };
        let w = wrap_from(src, pos, max, false, st);
        lemma_wrap_holds_content(src, pos, max, st);
        if pos < w.next <= src.len() {
            let rest = wrapped_lines(src, w.next, max, false, w.carry);
            lemma_wrapped_lines_hold_content(src, w.next, max, w.carry);
            assert(lines.drop_first() =~= rest);
        } else {
            assert(lines.drop_first() =~= Seq::<Seq<StyledGrapheme>>::empty());
        }
        let tail = concat_lines(lines.drop_first());
        let joined = concat_lines(lines);
        assert(joined == w.line + tail);
        assert forall|i: int| 0 <= i < joined.len() implies is_content(#[trigger] joined[i], max, false) by {
            if i < w.line.len() {
                assert(joined[i] == w.line[i]);
            } else {
                assert(joined[i] == tail[i - w.line.len()]);
            }
        }
    }
}

/// Without trimming, wrapping loses nothing but line breaks and graphemes
/// wider than the target: the lines read one after the other are the stream
/// without these, every blank in its place.
pub proof fn lemma_untrimmed_wrap_is_exact(src: Seq<StyledGrapheme>, max: int)
    requires
        max > 0,
    ensures
        concat_lines(wrapped_lines(src, 0, max, false, Seq::empty())) == content(src, max, false),
{
    lemma_wrap_round_trip(src, max, false);
    lemma_wrapped_lines_hold_content(src, 0, max, Seq::empty());
    lemma_content_of_content(concat_lines(wrapped_lines(src, 0, max, false, Seq::empty())), max, false);
}

} // verus!
