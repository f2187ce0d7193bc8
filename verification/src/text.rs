//! Styled text and the grapheme styler, which flattens it into one stream of
//! styled graphemes with a line break after every line.

use crate::glyph::{grapheme_clusters, is_single_char, patch_style, patched_style, split_graphemes, StyledGrapheme};
use tui::style::Style;
use vstd::prelude::*;

verus! {

/// A run of text in one style.
pub struct Span {
    pub content: String,
    pub style: Style,
}

/// One line of text: its spans in order.
pub struct Spans(pub Vec<Span>);

/// A document: its lines in order.
pub struct Text {
    pub lines: Vec<Spans>,
}

/// A symbol and the style it is shown in.
pub struct Piece {
    pub symbol: Seq<char>,
    pub style: Style,
}

/// The first `count` clusters of a span in the given style, without those
/// that are a line break.
pub open spec fn cluster_pieces(clusters: Seq<Seq<char>>, count: int, style: Style) -> Seq<Piece>
    decreases count,
{
    if count <= 0 {
        Seq::empty()
    } else if clusters[count - 1] == seq!['\n'] {
        cluster_pieces(clusters, count - 1, style)
    } else {
        cluster_pieces(clusters, count - 1, style).push(Piece { symbol: clusters[count - 1], style })
    }
}

/// The pieces of one span: its grapheme clusters, in the base style patched
/// with the span's own.
pub open spec fn span_pieces(span: Span, base: Style) -> Seq<Piece> {
    let clusters = grapheme_clusters(span.content@);
    cluster_pieces(clusters, clusters.len() as int, patched_style(base, span.style))
}

/// The pieces of the first `count` spans of a line.
pub open spec fn spans_pieces(spans: Seq<Span>, count: int, base: Style) -> Seq<Piece>
    decreases count,
{
    if count <= 0 {
        Seq::empty()
    } else {
        spans_pieces(spans, count - 1, base) + span_pieces(spans[count - 1], base)
    }
}

/// The pieces of one line, closed by a line break in the base style.
pub open spec fn line_pieces(line: Spans, base: Style) -> Seq<Piece> {
    spans_pieces(line.0@, line.0@.len() as int, base).push(Piece { symbol: seq!['\n'], style: base })
}

/// The pieces of the first `count` lines of a document.
pub open spec fn text_pieces(lines: Seq<Spans>, count: int, base: Style) -> Seq<Piece>
    decreases count,
{
    if count <= 0 {
        Seq::empty()
    } else {
        text_pieces(lines, count - 1, base) + line_pieces(lines[count - 1], base)
    }
}

/// The stream shows the pieces, one measured grapheme for each.
pub open spec fn styled_as(stream: Seq<StyledGrapheme>, pieces: Seq<Piece>) -> bool {
    &&& stream.len() == pieces.len()
    &&& forall|i: int|
        0 <= i < stream.len() ==> {
            &&& (#[trigger] stream[i]).symbol@ == pieces[i].symbol
            &&& stream[i].style == pieces[i].style
            &&& stream[i].is_measured()
        }
}

/// The styled graphemes of one span.
pub fn styled_graphemes(span: &Span, base_style: Style) -> (out: Vec<StyledGrapheme>)
    ensures
        styled_as(out@, span_pieces(*span, base_style)),
{
    let clusters = split_graphemes(span.content.as_str());
    let style = patch_style(base_style, span.style);
    let ghost named = grapheme_clusters(span.content@);
    let mut out: Vec<StyledGrapheme> = Vec::new();
    let mut k: usize = 0;
    while k < clusters.len()
        invariant
            k <= clusters@.len(),
            clusters@.len() == named.len(),
            forall|i: int| 0 <= i < clusters@.len() ==> (#[trigger] clusters@[i])@ == named[i],
            styled_as(out@, cluster_pieces(named, k as int, style)),
        decreases clusters@.len() - k,
    {
        if !is_single_char(clusters[k].as_str(), '\n') {
            out.push(StyledGrapheme::new(clusters[k].clone(), style));
        }
        k += 1;
    }
    out
}

/// The styled graphemes of one line, with the line break that closes it.
pub fn line_graphemes(line: &Spans, base_style: Style) -> (out: Vec<StyledGrapheme>)
    ensures
        styled_as(out@, line_pieces(*line, base_style)),
{
    let mut out: Vec<StyledGrapheme> = Vec::new();
    let mut j: usize = 0;
    while j < line.0.len()
        invariant
            j <= line.0@.len(),
            styled_as(out@, spans_pieces(line.0@, j as int, base_style)),
        decreases line.0@.len() - j,
    {
        let mut part = styled_graphemes(&line.0[j], base_style);
        out.append(&mut part);
        j += 1;
    }
    proof {
        reveal_strlit("\n");
        assert("\n"@ =~= seq!['\n']);
    }
    out.push(StyledGrapheme::new("\n".to_owned(), base_style));
    out
}

/// The grapheme styler: the styled graphemes of a whole document.
pub fn text_graphemes(text: &Text, base_style: Style) -> (out: Vec<StyledGrapheme>)
    ensures
        styled_as(out@, text_pieces(text.lines@, text.lines@.len() as int, base_style)),
{
    let mut out: Vec<StyledGrapheme> = Vec::new();
    let mut i: usize = 0;
    while i < text.lines.len()
        invariant
            i <= text.lines@.len(),
            styled_as(out@, text_pieces(text.lines@, i as int, base_style)),
        decreases text.lines@.len() - i,
    {
        let mut part = line_graphemes(&text.lines[i], base_style);
        out.append(&mut part);
        i += 1;
    }
    out
}

} // verus!
