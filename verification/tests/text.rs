use scroll_layout::glyph::{is_all_whitespace, is_single_char, Role, StyledGrapheme};
use scroll_layout::text::{line_graphemes, styled_graphemes, text_graphemes, Span, Spans, Text};
use tui::style::{Color, Modifier, Style};

#[test]
fn graphemes_are_measured() {
    assert_eq!(StyledGrapheme::new("a".to_string(), Style::default()).width, 1);
    assert_eq!(StyledGrapheme::new("\u{5b57}".to_string(), Style::default()).width, 2);
    assert_eq!(StyledGrapheme::new("\u{200b}".to_string(), Style::default()).width, 0);
    assert_eq!(StyledGrapheme::new("".to_string(), Style::default()).width, 0);
}

#[test]
fn symbols_are_classified() {
    let plain = Style::default();
    assert!(StyledGrapheme::new("\n".to_string(), plain).breaks_line());
    assert!(!StyledGrapheme::new(" ".to_string(), plain).breaks_line());
    assert!(StyledGrapheme::new(" ".to_string(), plain).space());
    assert!(StyledGrapheme::new("\t".to_string(), plain).space());
    assert!(!StyledGrapheme::new("a".to_string(), plain).space());
    assert!(StyledGrapheme::new("\u{a0}".to_string(), plain).blank());
    assert!(!StyledGrapheme::new("\u{a0}".to_string(), plain).space());
    assert!(StyledGrapheme::new("".to_string(), plain).blank());
    assert!(is_all_whitespace(" \t "));
    assert!(!is_all_whitespace(" x "));
    assert!(is_single_char("x", 'x'));
    assert!(!is_single_char("xx", 'x'));
    assert!(!is_single_char("", 'x'));
}

#[test]
fn duplicate_is_equal() {
    let g = StyledGrapheme::new("\u{5b57}".to_string(), Style::default().fg(Color::Red));
    let d = g.duplicate();
    assert_eq!(d.symbol, g.symbol);
    assert_eq!(d.style, g.style);
    assert_eq!(d.width, g.width);
    assert_eq!(d.role, g.role);
}

#[test]
fn graphemes_get_their_role() {
    let plain = Style::default();
    assert_eq!(StyledGrapheme::new("\n".to_string(), plain).role, Role::LineBreak);
    assert_eq!(StyledGrapheme::new(" ".to_string(), plain).role, Role::Space);
    assert_eq!(StyledGrapheme::new("\u{3000}".to_string(), plain).role, Role::Space);
    assert_eq!(StyledGrapheme::new("".to_string(), plain).role, Role::Space);
    assert_eq!(StyledGrapheme::new("\u{a0}".to_string(), plain).role, Role::NonBreaking);
    assert_eq!(StyledGrapheme::new("a".to_string(), plain).role, Role::Solid);
    assert_eq!(StyledGrapheme::new("\u{200b}".to_string(), plain).role, Role::Solid);
    assert_eq!(StyledGrapheme::new(" a".to_string(), plain).role, Role::Solid);
}

#[test]
fn span_is_cut_into_grapheme_clusters() {
    let span = Span { content: "e\u{301}x\u{5b57}".to_string(), style: Style::default() };
    let out = styled_graphemes(&span, Style::default());
    let symbols: Vec<&str> = out.iter().map(|g| g.symbol.as_str()).collect();
    assert_eq!(symbols, vec!["e\u{301}", "x", "\u{5b57}"]);
    let widths: Vec<u16> = out.iter().map(|g| g.width).collect();
    assert_eq!(widths, vec![1, 1, 2]);
}

#[test]
fn span_style_patches_the_base_style() {
    let base = Style::default().fg(Color::Green).bg(Color::Black);
    let span = Span { content: "T".to_string(), style: Style::default().fg(Color::Yellow) };
    let out = styled_graphemes(&span, base);
    assert_eq!(out.len(), 1);
    assert_eq!(out[0].style.fg, Some(Color::Yellow));
    assert_eq!(out[0].style.bg, Some(Color::Black));
    assert_eq!(out[0].style.add_modifier, Modifier::empty());
}

#[test]
fn line_breaks_inside_a_span_are_dropped() {
    let span = Span { content: "a\nb".to_string(), style: Style::default() };
    let out = styled_graphemes(&span, Style::default());
    let symbols: Vec<&str> = out.iter().map(|g| g.symbol.as_str()).collect();
    assert_eq!(symbols, vec!["a", "b"]);
}

#[test]
fn every_line_is_closed_by_a_line_break() {
    let base = Style::default().bg(Color::Blue);
    let line = Spans(vec![
        Span { content: "ab".to_string(), style: Style::default() },
        Span { content: "c".to_string(), style: Style::default().fg(Color::Red) },
    ]);
    let out = line_graphemes(&line, base);
    let symbols: Vec<&str> = out.iter().map(|g| g.symbol.as_str()).collect();
    assert_eq!(symbols, vec!["a", "b", "c", "\n"]);
    assert_eq!(out[2].style.fg, Some(Color::Red));
    assert_eq!(out[3].style, base);

    let text = Text { lines: vec![line, Spans(vec![])] };
    let all = text_graphemes(&text, base);
    let symbols: Vec<&str> = all.iter().map(|g| g.symbol.as_str()).collect();
    assert_eq!(symbols, vec!["a", "b", "c", "\n", "\n"]);
}

#[test]
fn empty_text_gives_an_empty_stream() {
    assert!(text_graphemes(&Text { lines: vec![] }, Style::default()).is_empty());
}
