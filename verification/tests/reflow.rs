use scroll_layout::glyph::{Role, StyledGrapheme};
use scroll_layout::reflow::{LineComposer, LineTruncator, WordWrapper};
use scroll_layout::text::{text_graphemes, Span, Spans, Text};
use tui::style::Style;

fn stream(lines: &[&str]) -> Vec<StyledGrapheme> {
    let text = Text {
        lines: lines
            .iter()
            .map(|l| Spans(vec![Span { content: l.to_string(), style: Style::default() }]))
            .collect(),
    };
    text_graphemes(&text, Style::default())
}

fn shown(line: &[StyledGrapheme]) -> String {
    line.iter().map(|g| g.symbol.as_str()).collect()
}

fn wrap_all(lines: &[&str], width: u16, trim: bool) -> Vec<(String, u16)> {
    let mut wrapper = WordWrapper::new(stream(lines), width, trim);
    let mut out = Vec::new();
    while let Some((line, w)) = wrapper.next_line() {
        out.push((shown(&line), w));
    }
    out
}

fn clip_all(lines: &[&str], width: u16, offset: u16) -> Vec<(String, u16)> {
    let mut truncator = LineTruncator::new(stream(lines), width);
    truncator.set_horizontal_offset(offset);
    let mut out = Vec::new();
    while let Some((line, w)) = truncator.next_line() {
        out.push((shown(&line), w));
    }
    out
}

fn pairs(expected: &[(&str, u16)]) -> Vec<(String, u16)> {
    expected.iter().map(|(s, w)| (s.to_string(), *w)).collect()
}

#[test]
fn wrap_keeps_short_lines() {
    assert_eq!(
        wrap_all(&["abcdefg", "hijklmn", "opqrstu"], 20, true),
        pairs(&[("abcdefg", 7), ("hijklmn", 7), ("opqrstu", 7)])
    );
}

#[test]
fn wrap_breaks_at_a_space() {
    assert_eq!(wrap_all(&["hello world"], 5, true), pairs(&[("hello", 5), ("world", 5)]));
    assert_eq!(
        wrap_all(&["hello world"], 5, false),
        pairs(&[("hello", 5), (" ", 1), ("world", 5)])
    );
    assert_eq!(wrap_all(&["ab cd"], 3, false), pairs(&[("ab ", 3), ("cd", 2)]));
    assert_eq!(wrap_all(&["ab cd ef"], 5, true), pairs(&[("ab cd", 5), ("ef", 2)]));
}

#[test]
fn wrap_splits_a_long_word() {
    assert_eq!(wrap_all(&["abcdefghij"], 4, true), pairs(&[("abcd", 4), ("efgh", 4), ("ij", 2)]));
}

#[test]
fn wrap_trims_leading_spaces_only_when_asked() {
    assert_eq!(wrap_all(&["  ab"], 10, true), pairs(&[("ab", 2)]));
    assert_eq!(wrap_all(&["  ab"], 10, false), pairs(&[("  ab", 4)]));
}

#[test]
fn wrap_drops_trailing_spaces_at_a_line_break_only_when_trimming() {
    assert_eq!(wrap_all(&["ab   ", "cd"], 10, true), pairs(&[("ab", 2), ("cd", 2)]));
    assert_eq!(wrap_all(&["ab   ", "cd"], 10, false), pairs(&[("ab   ", 5), ("cd", 2)]));
}

#[test]
fn wrap_keeps_empty_lines() {
    assert_eq!(wrap_all(&["a", "", "b"], 10, true), pairs(&[("a", 1), ("", 0), ("b", 1)]));
}

#[test]
fn wrap_never_splits_a_double_width_grapheme() {
    assert_eq!(
        wrap_all(&["a\u{5b57}b"], 2, true),
        pairs(&[("a", 1), ("\u{5b57}", 2), ("b", 1)])
    );
}

#[test]
fn wrap_drops_graphemes_wider_than_the_target() {
    assert_eq!(wrap_all(&["a\u{5b57}b"], 1, true), pairs(&[("a", 1), ("b", 1)]));
}

#[test]
fn wrap_does_not_break_at_a_non_breaking_space() {
    assert_eq!(
        wrap_all(&["ab\u{a0}cd ef"], 6, true),
        pairs(&[("ab\u{a0}cd", 5), ("ef", 2)])
    );
}

#[test]
fn wrap_with_zero_width_gives_nothing() {
    assert_eq!(wrap_all(&["abc"], 0, true), pairs(&[]));
    assert_eq!(clip_all(&["abc"], 0, 0), pairs(&[]));
}

#[test]
fn wrap_lines_never_exceed_the_target_width() {
    let text = ["the quick brown fox jumps over", "a\u{5b57}\u{5b57}\u{5b57} lazy dog   and more"];
    for width in 1..12u16 {
        for trim in [false, true] {
            let mut wrapper = WordWrapper::new(stream(&text), width, trim);
            while let Some((line, w)) = wrapper.next_line() {
                let sum: u32 = line.iter().map(|g| g.width as u32).sum();
                assert_eq!(sum, w as u32);
                assert!(w <= width);
            }
        }
    }
}

#[test]
fn wrap_keeps_every_grapheme_that_is_not_blank() {
    let text = ["the quick  brown fox", "  jumps over the lazy dog  "];
    for width in 2..12u16 {
        for trim in [false, true] {
            let mut got = String::new();
            for (line, _) in wrap_all(&text, width, trim) {
                got.push_str(&line.replace(' ', ""));
            }
            assert_eq!(got, "thequickbrownfoxjumpsoverthelazydog");
        }
    }
}

#[test]
fn truncate_clips_each_line() {
    assert_eq!(clip_all(&["abcdefgh", "xy"], 3, 0), pairs(&[("abc", 3), ("xy", 2)]));
}

#[test]
fn truncate_skips_the_offset() {
    assert_eq!(clip_all(&["abcdefgh", "xy"], 3, 2), pairs(&[("cde", 3), ("", 0)]));
    assert_eq!(clip_all(&["abcdefgh"], 10, 5), pairs(&[("fgh", 3)]));
}

#[test]
fn truncate_keeps_a_wide_grapheme_that_straddles_the_offset() {
    assert_eq!(clip_all(&["\u{5b57}ab"], 4, 1), pairs(&[("\u{5b57}ab", 4)]));
    assert_eq!(clip_all(&["\u{5b57}ab"], 4, 2), pairs(&[("ab", 2)]));
}

#[test]
fn truncate_stops_before_a_wide_grapheme_that_does_not_fit() {
    assert_eq!(clip_all(&["ab\u{5b57}c", "d"], 3, 0), pairs(&[("ab", 2), ("d", 1)]));
}

#[test]
fn composer_hands_out_the_lines_of_its_variant() {
    let mut wrapping = LineComposer::WordWrap(WordWrapper::new(stream(&["ab cd"]), 2, true));
    let mut lines = Vec::new();
    while let Some((line, w)) = wrapping.next_line() {
        lines.push((shown(&line), w));
    }
    assert_eq!(lines, pairs(&[("ab", 2), ("cd", 2)]));
    let mut clipping = LineComposer::Truncate(LineTruncator::new(stream(&["ab cd"]), 2));
    let (line, w) = clipping.next_line().unwrap();
    assert_eq!((shown(&line), w), ("ab".to_string(), 2));
    assert!(clipping.next_line().is_none());
}

#[test]
fn wrap_keeps_zero_width_graphemes_in_sequence() {
    assert_eq!(wrap_all(&["ab\u{200b}cd"], 4, true), pairs(&[("ab\u{200b}cd", 4)]));
}

#[test]
fn wrap_carries_the_broken_word_over() {
    assert_eq!(
        wrap_all(&["aa bbbb cc"], 5, true),
        pairs(&[("aa", 2), ("bbbb", 4), ("cc", 2)])
    );
    assert_eq!(wrap_all(&["a  bcdef"], 5, true), pairs(&[("a", 1), ("bcdef", 5)]));
    assert_eq!(wrap_all(&["a  bcdef"], 5, false), pairs(&[("a  ", 3), ("bcdef", 5)]));
}

#[test]
fn truncate_gives_one_line_for_each_source_line() {
    assert_eq!(
        clip_all(&["", "abcdef", "", "g"], 2, 0),
        pairs(&[("", 0), ("ab", 2), ("", 0), ("g", 1)])
    );
}

#[test]
fn composers_end_for_good() {
    let mut wrapper = WordWrapper::new(stream(&["a"]), 3, false);
    assert!(wrapper.next_line().is_some());
    assert!(wrapper.next_line().is_none());
    assert!(wrapper.next_line().is_none());
    let mut truncator = LineTruncator::new(stream(&["a"]), 3);
    assert!(truncator.next_line().is_some());
    assert!(truncator.next_line().is_none());
    assert!(truncator.next_line().is_none());
}

fn glyph(symbol: &str, width: u16, role: Role) -> StyledGrapheme {
    StyledGrapheme { symbol: symbol.to_string(), style: Style::default(), width, role }
}

#[test]
fn wrap_splits_hard_when_the_word_after_the_break_does_not_fit() {
    let mut source = vec![glyph("z", 0, Role::Solid), glyph("", 0, Role::Space)];
    for symbol in ["b", "c", "d", "e", "f", "g"] {
        source.push(glyph(symbol, 1, Role::Solid));
    }
    let mut wrapper = WordWrapper::new(source, 5, false);
    let (first, width) = wrapper.next_line().unwrap();
    assert_eq!((shown(&first), width), ("zbcdef".to_string(), 5));
    let (second, width) = wrapper.next_line().unwrap();
    assert_eq!((shown(&second), width), ("g".to_string(), 1));
    assert!(wrapper.next_line().is_none());
}

#[test]
fn wrap_goes_by_the_width_and_role_a_grapheme_carries() {
    let source = vec![
        glyph("a", 3, Role::Solid),
        glyph("_", 1, Role::Space),
        glyph("b", 3, Role::Solid),
        glyph("c", 9, Role::Solid),
        glyph("|", 0, Role::LineBreak),
        glyph("d", 2, Role::Solid),
    ];
    let mut wrapper = WordWrapper::new(source, 6, true);
    let mut lines = Vec::new();
    while let Some((line, width)) = wrapper.next_line() {
        lines.push((shown(&line), width));
    }
    assert_eq!(lines, pairs(&[("a", 3), ("b", 3), ("d", 2)]));
}

#[test]
fn truncate_goes_by_the_width_a_grapheme_carries() {
    let source = vec![
        glyph("a", 3, Role::Solid),
        glyph("b", 2, Role::Solid),
        glyph("c", 2, Role::Solid),
        glyph("d", 1, Role::Solid),
    ];
    let mut truncator = LineTruncator::new(source, 4);
    truncator.set_horizontal_offset(4);
    let (line, width) = truncator.next_line().unwrap();
    assert_eq!((shown(&line), width), ("bc".to_string(), 4));
    assert!(truncator.next_line().is_none());
}

#[test]
fn wrap_without_trimming_loses_no_grapheme() {
    let text = ["the quick  brown fox ", "  jumps over\u{a0}the lazy dog  ", "", " x"];
    let whole: String = text.concat();
    for width in 1..14u16 {
        let joined: String = wrap_all(&text, width, false).into_iter().map(|(line, _)| line).collect();
        assert_eq!(joined, whole);
    }
}

#[test]
fn wrap_without_trimming_keeps_a_blank_that_does_not_fit() {
    assert_eq!(wrap_all(&["ab  "], 2, false), pairs(&[("ab", 2), ("  ", 2)]));
    assert_eq!(wrap_all(&["a b"], 1, false), pairs(&[("a", 1), (" ", 1), ("b", 1)]));
}
