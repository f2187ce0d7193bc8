use scroll_layout::glyph::StyledGrapheme;
use scroll_layout::paragraph::{
    get_line_offset, layout, Alignment, Paint, ParagraphState, Rect, ScrollPos, StatefulParagraph, Wrap,
};
use scroll_layout::reflow::{LineComposer, LineTruncator};
use scroll_layout::text::{Span, Spans, Text};
use tui::style::{Color, Style};

fn plain(lines: &[&str]) -> Text {
    Text {
        lines: lines
            .iter()
            .map(|l| Spans(vec![Span { content: l.to_string(), style: Style::default() }]))
            .collect(),
    }
}

fn rows(cells: &[Paint], area: Rect) -> Vec<String> {
    let mut grid = vec![vec![String::from("."); area.width as usize]; area.height as usize];
    for cell in cells {
        assert!(cell.x >= area.x && cell.x < area.x + area.width);
        assert!(cell.y >= area.y && cell.y < area.y + area.height);
        grid[(cell.y - area.y) as usize][(cell.x - area.x) as usize] = cell.symbol();
    }
    grid.into_iter().map(|r| r.concat()).collect()
}

fn five_lines() -> Text {
    plain(&["l0", "l1", "l2", "l3", "l4"])
}

#[test]
fn first_lines_are_painted_and_all_are_counted() {
    let area = Rect { x: 0, y: 0, width: 4, height: 3 };
    let mut state = ParagraphState::default();
    let cells = StatefulParagraph::new(five_lines()).render(area, area, &mut state);
    assert_eq!(rows(&cells, area), vec!["l0..", "l1..", "l2.."]);
    assert_eq!(state.lines(), 5);
    assert_eq!(state.height(), 3);
}

#[test]
fn vertical_scroll_skips_the_lines_above() {
    let area = Rect { x: 0, y: 0, width: 4, height: 3 };
    let mut state = ParagraphState::default();
    state.set_scroll(ScrollPos::new(0, 2));
    let cells = StatefulParagraph::new(five_lines()).render(area, area, &mut state);
    assert_eq!(rows(&cells, area), vec!["l2..", "l3..", "l4.."]);
    assert_eq!(cells[0].y, 0);
    assert_eq!(state.lines(), 5);
    assert_eq!(state.scroll().y, 2);
}

#[test]
fn scroll_past_the_end_paints_nothing() {
    let area = Rect { x: 0, y: 0, width: 4, height: 3 };
    let mut state = ParagraphState::default();
    state.set_scroll(ScrollPos::new(0, 9));
    let cells = StatefulParagraph::new(five_lines()).render(area, area, &mut state);
    assert!(cells.is_empty());
    assert_eq!(state.lines(), 5);
}

#[test]
fn interior_without_rows_leaves_the_state_alone() {
    let area = Rect { x: 0, y: 0, width: 4, height: 2 };
    let inner = Rect { x: 1, y: 1, width: 2, height: 0 };
    let mut state = ParagraphState::default();
    state.set_scroll(ScrollPos::new(1, 1));
    let cells = StatefulParagraph::new(five_lines()).render(area, inner, &mut state);
    assert!(cells.is_empty());
    assert_eq!(state.lines(), 0);
    assert_eq!(state.height(), 0);
    assert_eq!(state.scroll().x, 1);
}

#[test]
fn state_records_the_height_of_the_whole_area() {
    let area = Rect { x: 2, y: 3, width: 6, height: 5 };
    let inner = Rect { x: 3, y: 4, width: 4, height: 3 };
    let mut state = ParagraphState::default();
    let cells = StatefulParagraph::new(five_lines()).render(area, inner, &mut state);
    assert_eq!(rows(&cells, inner), vec!["l0..", "l1..", "l2.."]);
    assert_eq!(cells[0].x, 3);
    assert_eq!(cells[0].y, 4);
    assert_eq!(state.height(), 5);
}

#[test]
fn horizontal_scroll_applies_to_left_aligned_clipped_text_only() {
    let area = Rect { x: 0, y: 0, width: 3, height: 1 };
    let mut state = ParagraphState::default();
    state.set_scroll(ScrollPos::new(2, 0));
    let cells = StatefulParagraph::new(plain(&["abcdefg"])).render(area, area, &mut state);
    assert_eq!(rows(&cells, area), vec!["cde"]);

    let cells = StatefulParagraph::new(plain(&["abcdefg"]))
        .alignment(Alignment::Right)
        .render(area, area, &mut state);
    assert_eq!(rows(&cells, area), vec!["abc"]);

    let area = Rect { x: 0, y: 0, width: 3, height: 3 };
    let cells = StatefulParagraph::new(plain(&["abcdefg"]))
        .wrap(Wrap { trim: true })
        .render(area, area, &mut state);
    assert_eq!(rows(&cells, area), vec!["abc", "def", "g.."]);
    assert_eq!(state.lines(), 3);
}

#[test]
fn lines_are_aligned() {
    let area = Rect { x: 0, y: 0, width: 7, height: 1 };
    let mut state = ParagraphState::default();
    let cells = StatefulParagraph::new(plain(&["ab"]))
        .alignment(Alignment::Center)
        .render(area, area, &mut state);
    assert_eq!(rows(&cells, area), vec!["..ab..."]);
    let cells = StatefulParagraph::new(plain(&["ab"]))
        .alignment(Alignment::Right)
        .render(area, area, &mut state);
    assert_eq!(rows(&cells, area), vec![".....ab"]);
}

#[test]
fn line_offset_by_alignment() {
    assert_eq!(get_line_offset(2, 7, Alignment::Left), 0);
    assert_eq!(get_line_offset(2, 7, Alignment::Center), 2);
    assert_eq!(get_line_offset(1, 4, Alignment::Center), 1);
    assert_eq!(get_line_offset(2, 7, Alignment::Right), 5);
    assert_eq!(get_line_offset(9, 7, Alignment::Right), 0);
    assert_eq!(get_line_offset(9, 7, Alignment::Center), 0);
}

#[test]
fn wide_graphemes_advance_by_their_width() {
    let area = Rect { x: 0, y: 0, width: 5, height: 1 };
    let mut state = ParagraphState::default();
    let cells = StatefulParagraph::new(plain(&["a\u{5b57}b"])).render(area, area, &mut state);
    let columns: Vec<u16> = cells.iter().map(|c| c.x).collect();
    assert_eq!(columns, vec![0, 1, 3]);
}

#[test]
fn paragraph_style_reaches_the_cells() {
    let area = Rect { x: 0, y: 0, width: 5, height: 1 };
    let mut state = ParagraphState::default();
    let style = Style::default().fg(Color::Cyan);
    let cells = StatefulParagraph::new(plain(&["a"])).style(style).render(area, area, &mut state);
    assert_eq!(cells.len(), 1);
    assert_eq!(cells[0].style().fg, Some(Color::Cyan));
}

#[test]
fn empty_symbol_is_painted_as_a_blank() {
    let empty = Paint { x: 0, y: 0, grapheme: StyledGrapheme::new(String::new(), Style::default()) };
    assert_eq!(empty.symbol(), " ");
    let full = Paint { x: 0, y: 0, grapheme: StyledGrapheme::new("x".to_string(), Style::default()) };
    assert_eq!(full.symbol(), "x");
}

#[test]
fn layout_counts_lines_and_drains_the_composer() {
    let area = Rect { x: 0, y: 0, width: 2, height: 1 };
    let stream = vec![
        StyledGrapheme::new("a".to_string(), Style::default()),
        StyledGrapheme::new("\n".to_string(), Style::default()),
        StyledGrapheme::new("b".to_string(), Style::default()),
    ];
    let mut composer = LineComposer::Truncate(LineTruncator::new(stream, 2));
    let (cells, total) = layout(&mut composer, area, Alignment::Left, 1);
    assert_eq!(total, 2);
    assert_eq!(cells.len(), 1);
    assert_eq!(cells[0].symbol(), "b");
    assert_eq!((cells[0].x, cells[0].y), (0, 0));
    assert!(composer.next_line().is_none());
}

#[test]
fn fresh_state_is_empty() {
    let state = ParagraphState::default();
    assert_eq!(state.lines(), 0);
    assert_eq!(state.height(), 0);
    assert_eq!(state.scroll().x, 0);
    assert_eq!(state.scroll().y, 0);
    let pos = ScrollPos::default();
    assert_eq!((pos.x, pos.y), (0, 0));
}

#[test]
fn cells_beyond_the_largest_coordinate_are_left_out() {
    let area = Rect { x: 65534, y: 65535, width: 4, height: 2 };
    let mut state = ParagraphState::default();
    let cells = StatefulParagraph::new(plain(&["abcd", "efgh"])).render(area, area, &mut state);
    let placed: Vec<(u16, u16, String)> = cells.iter().map(|c| (c.x, c.y, c.symbol())).collect();
    assert_eq!(placed, vec![(65534, 65535, "a".to_string()), (65535, 65535, "b".to_string())]);
    assert_eq!(state.lines(), 2);
}

#[test]
fn untrimmed_wrap_paints_every_blank() {
    let area = Rect { x: 0, y: 0, width: 3, height: 2 };
    let mut state = ParagraphState::default();
    let cells = StatefulParagraph::new(plain(&["ab cd"]))
        .wrap(Wrap { trim: false })
        .render(area, area, &mut state);
    let painted: String = cells.iter().map(|c| c.symbol()).collect();
    assert_eq!(painted, "ab cd");
    assert_eq!(rows(&cells, area), vec!["ab ", "cd."]);
}
