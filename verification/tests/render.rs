use mkdr::highlight::{highlighted_lines, HlToken};
use mkdr::markdown::Align;
use mkdr::render::{render, Renderer};
use mkdr::style::{Line, Span};
use mkdr::theme::Theme;

fn text(line: &Line) -> String {
    line.spans.iter().map(|s| s.content.as_str()).collect()
}

fn has_span(line: &Line, pred: impl Fn(&Span) -> bool) -> bool {
    line.spans.iter().any(pred)
}

#[test]
fn renders_paragraph() {
    let theme = Theme::default_dark();
    let (lines, raw) = render("Hello world", &theme);
    assert_eq!(lines.len(), 1);
    assert_eq!(raw.len(), 1);
    assert_eq!(raw[0], "Hello world");
}

#[test]
fn renders_bold_and_italic() {
    let theme = Theme::default_dark();
    let (lines, raw) = render("**bold** and *italic*", &theme);
    assert_eq!(raw[0], "bold and italic");
    assert!(has_span(&lines[0], |s| s.content == "bold" && s.style.add_modifier.bold));
    assert!(has_span(&lines[0], |s| s.content == "italic" && s.style.add_modifier.italic));
}

#[test]
fn renders_headings() {
    let theme = Theme::default_dark();
    let (lines, raw) = render("# H1\n## H2\n### H3", &theme);
    assert_eq!(raw.len(), 5);
    assert_eq!(raw, vec!["H1", "", "H2", "", "H3"]);
    assert_eq!(lines.len(), 5);
}

#[test]
fn renders_link() {
    let theme = Theme::default_dark();
    let (lines, raw) = render("Click [here](https://example.com)", &theme);
    assert!(raw[0].contains("Click here"));
    assert_eq!(text(&lines[0]), "Click here ─ https://example.com");
}

#[test]
fn renders_reference_link() {
    let theme = Theme::default_dark();
    let md = "Click [here][ref]\n\n[ref]: https://example.com";
    let (lines, raw) = render(md, &theme);
    assert!(raw[0].contains("Click here"));
    let rendered = text(&lines[0]);
    assert!(rendered.contains("example.com"), "URL should appear in: {rendered}");
}

#[test]
fn renders_nested_list() {
    let theme = Theme::default_dark();
    let md = "- outer\n  - inner\n- outer2\n";
    let (lines, raw) = render(md, &theme);
    assert_eq!(lines.len(), raw.len());
    assert!(raw[0].starts_with("• 1 outer"));
}

#[test]
fn renders_blockquote_nested() {
    let theme = Theme::default_dark();
    let md = "> first\n>> second\n>>> third\n";
    let (lines, _) = render(md, &theme);
    assert!(lines.len() >= 1, "should have at least one line");
    assert!(lines.iter().all(|l| l.spans.is_empty() || l.spans[0].content == "▐ " || text(l).is_empty()));
}

#[test]
fn renders_ordered_list() {
    let theme = Theme::default_dark();
    let (_, raw) = render("1. one\n2. two\n", &theme);
    assert_eq!(raw, vec!["• 1 one", "• 2 two"]);
}

#[test]
fn renders_task_list() {
    let theme = Theme::default_dark();
    let md = "- [x] done\n- [ ] todo\n";
    let (lines, _) = render(md, &theme);
    let text: String = lines[0]
        .spans
        .iter()
        .filter_map(|s| {
            if s.content.contains('☑') || s.content.contains('☐') {
                Some(s.content.clone())
            } else {
                None
            }
        })
        .collect();
    assert!(!text.is_empty(), "should contain task markers: got {lines:?}");
    assert!(has_span(&lines[1], |s| s.content == "☐"));
}

#[test]
fn renders_image() {
    let theme = Theme::default_dark();
    let (lines, _) = render("![alt](img.png)", &theme);
    assert_eq!(lines.len(), 1);
    let text = text(&lines[0]);
    assert!(text.contains("img.png"), "URL should appear: {text}");
    assert_eq!(text, "🖼 alt ─ img.png");
}

#[test]
fn renders_code_block() {
    let theme = Theme::default_dark();
    let (lines, raw) = render("```rust\nfn main() {}\n```\n", &theme);
    assert!(raw.iter().any(|l| l.contains("fn main()")));
    assert_eq!(raw[0], "rust");
    assert_eq!(text(&lines[0]), " rust ");
    assert_eq!(raw[1], "  fn main() {}");
}

#[test]
fn renders_table() {
    let theme = Theme::default_dark();
    let md = "| A | B |\n|---|---|\n| 1 | 2 |\n";
    let (lines, _) = render(md, &theme);
    assert!(lines.len() >= 3);
    assert_eq!(lines.len(), 5);
}

#[test]
fn renders_table_alignment() {
    let theme = Theme::default_dark();
    let md = "| Left | Center | Right |\n|:-----|:------:|------:|\n| a | b | c |\n";
    let (lines, _) = render(md, &theme);

    let text3 = text(&lines[3]);
    assert_eq!(text3, "│a     │  b     │    c  │", "data row alignment: got '{text3}'");

    let border = text(&lines[0]);
    assert_eq!(border, "┌──────┬────────┬───────┐", "top border: got '{border}'");
}

#[test]
fn renders_complex_table() {
    let theme = Theme::default_dark();
    let md = "| Name  | Age | City    |\n|-------|-----|---------|\n| Alice | 30  | Madrid  |\n| Bob   | 25  | París   |\n| Carol | 35  | Roma    |\n";
    let (lines, _) = render(md, &theme);
    assert!(lines.len() >= 5, "should have border + header + border + rows + border, got {} lines", lines.len());
    assert_eq!(lines.len(), 7);
}

#[test]
fn renders_unordered_list() {
    let theme = Theme::default_dark();
    let (_, raw) = render("- item1\n- item2\n", &theme);
    assert_eq!(raw, vec!["• 1 item1", "• 2 item2"]);
}

#[test]
fn renders_inline_html() {
    let theme = Theme::default_dark();
    let (lines, raw) = render("<div>hello</div>", &theme);
    assert_eq!(lines.len(), 1);
    assert!(raw[0].contains("hello"));
}

#[test]
fn renders_horizontal_rule() {
    let theme = Theme::default_dark();
    let (lines, _) = render("---\n", &theme);
    assert_eq!(lines.len(), 1);
    assert_eq!(text(&lines[0]), "─".repeat(80));
}

#[test]
fn renders_strikethrough() {
    let theme = Theme::default_dark();
    let (lines, raw) = render("Hello ~~world~~", &theme);
    assert!(raw[0].contains("world"));
    assert!(has_span(&lines[0], |s| s.content == "world"));
}

#[test]
fn renders_mixed_content_with_spacing() {
    let theme = Theme::default_dark();
    let md = "# Title\n\nHello world.\n\n> A quote.\n\n- item\n\n```\ncode\n```\n";
    let (lines, raw) = render(md, &theme);
    // Title, blank, para, blank, quote, blank, list, blank, code
    assert!(lines.len() > 3, "should have spacing between sections: {} lines", lines.len());
    // The quote's text is a paragraph inside the quote, which is not collected.
    assert_eq!(raw, vec!["Title", "", "Hello world.", "", "", "", "• 1 item", "", "  code"]);
    assert_eq!(text(&lines[4]), "▐ ");
}

#[test]
fn renders_inline_code_bg() {
    let theme = Theme::default_dark();
    let (lines, _) = render("Use `code` here", &theme);
    let code_span = &lines[0].spans[1];
    assert!(code_span.style.bg.is_some(), "inline code should have bg color: {code_span:?}");
}

#[test]
fn every_line_has_its_plain_text() {
    let theme = Theme::default_light();
    let md = "# T\n\n| a |\n|---|\n| b |\n\n> q\n> r\n\n```\nx\ny\n```\n";
    let (lines, raw) = render(md, &theme);
    assert_eq!(lines.len(), raw.len());
}

#[test]
fn renders_empty_document() {
    let theme = Theme::default_dark();
    let (lines, raw) = render("", &theme);
    assert!(lines.is_empty());
    assert!(raw.is_empty());
}

#[test]
fn code_block_tokens_are_coloured() {
    let theme = Theme::default_dark();
    let (lines, _) = render("```rust\nfn main() {}\n```\n", &theme);
    let code = &lines[1];
    assert_eq!(code.spans[0].content, "  ");
    assert!(code.spans.len() > 2, "tokens: {code:?}");
    assert!(code.spans[1..].iter().all(|s| matches!(s.style.fg, Some(mkdr::style::Color::Rgb(_, _, _)))));
    // The block background of the theme's code_block style.
    assert_eq!(code.spans[1].style.bg, Some(mkdr::style::Color::Rgb(0x1e, 0x1e, 0x1e)));
}

#[test]
fn layout_table_uses_given_widths() {
    let r = Renderer::new(&Theme::default_dark());
    let headers = vec![vec![Span::raw("A".to_string())]];
    let rows = vec![vec![vec![Span::raw("1".to_string())]]];
    let (lines, raw) = r.layout_table(&headers, &rows, &vec![1], &vec![vec![1]], &vec![Align::Unspecified]);
    let texts: Vec<String> = lines.iter().map(text).collect();
    assert_eq!(texts, vec!["┌─────┐", "│A    │", "├─────┤", "│1    │", "└─────┘"]);
    assert_eq!(raw, vec!["", " A    ", "", " 1    ", ""]);
    // Cells said to be wider than their text take more room.
    let (lines, _) = r.layout_table(&headers, &rows, &vec![5], &vec![vec![2]], &vec![Align::Right]);
    let texts: Vec<String> = lines.iter().map(text).collect();
    assert_eq!(texts[0], "┌───────┐");
    assert_eq!(texts[1], "│A  │");
    assert_eq!(texts[3], "│   1  │");
}

#[test]
fn highlighted_lines_from_given_tokens() {
    let pieces: Vec<Vec<char>> = vec!["fn x\n".chars().collect(), "\n".chars().collect(), "y".chars().collect()];
    let tok = |t: &str, r: u8| HlToken { r, g: 0, b: 0, bold: r > 100, italic: false, underline: false, text: t.to_string() };
    let toks = vec![vec![tok("fn", 200), tok(" x", 10)], vec![tok("y", 20)]];
    let out = highlighted_lines(&pieces, &toks, Some(mkdr::style::Color::Black));
    assert_eq!(out.len(), 3);
    assert_eq!(out[0].0.len(), 2);
    assert_eq!(out[0].0[0].content, "fn");
    assert_eq!(out[0].0[0].style.fg, Some(mkdr::style::Color::Rgb(200, 0, 0)));
    assert!(out[0].0[0].style.add_modifier.bold);
    assert_eq!(out[0].0[1].style.bg, Some(mkdr::style::Color::Black));
    assert_eq!(out[0].1.iter().collect::<String>(), "fn x");
    assert_eq!(out[1].0.len(), 1);
    assert_eq!(out[1].0[0].content, "\n");
    assert!(out[1].1.is_empty());
    assert_eq!(out[2].1.iter().collect::<String>(), "y");
}
