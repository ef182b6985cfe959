use mkdr::ansi::{apply_ansi_seq, parse_ansi_line, strip_ansi};
use mkdr::style::{Color, Style};

#[test]
fn strip_ansi_removes_sequences() {
    assert_eq!(strip_ansi("\x1b[1;31mred\x1b[0m plain"), "red plain");
    assert_eq!(strip_ansi("no escapes"), "no escapes");
    assert_eq!(strip_ansi("\x1b[31"), "");
    // An escape not followed by '[' drops itself and the next character.
    assert_eq!(strip_ansi("a\x1bxb"), "ab");
}

#[test]
fn strip_ansi_keeps_text_of_parsed_line() {
    let s = "\x1b[32mgo\x1b[0m \x1b[4mnow\x1b[24m!";
    let line = parse_ansi_line(s);
    let text: String = line.spans.iter().map(|sp| sp.content.as_str()).collect();
    assert_eq!(text, strip_ansi(s));
}

#[test]
fn parse_ansi_line_applies_styles() {
    let line = parse_ansi_line("\x1b[1;31mred\x1b[0mplain");
    assert_eq!(line.spans.len(), 2);
    assert_eq!(line.spans[0].content, "red");
    assert_eq!(line.spans[0].style.fg, Some(Color::Red));
    assert!(line.spans[0].style.add_modifier.bold);
    assert_eq!(line.spans[1].style.fg, None);
}

#[test]
fn parse_ansi_line_indexed_and_background() {
    let line = parse_ansi_line("\x1b[38;5;208;44mx");
    assert_eq!(line.spans[0].style.fg, Some(Color::Indexed(208)));
    assert_eq!(line.spans[0].style.bg, Some(Color::Blue));
    let line = parse_ansi_line("\x1b[38;5;999mx");
    assert_eq!(line.spans[0].style.fg, None);
}

#[test]
fn parse_ansi_line_keeps_lone_escape() {
    let line = parse_ansi_line("a\x1bxb");
    assert_eq!(line.spans.len(), 1);
    assert_eq!(line.spans[0].content, "a\x1bb");
}

#[test]
fn parsed_spans_are_never_empty_and_styles_accumulate() {
    let line = parse_ansi_line("\x1b[1m\x1b[31mab\x1b[4m\x1b[mc\x1b[32m");
    assert_eq!(line.spans.len(), 2);
    assert!(line.spans.iter().all(|s| !s.content.is_empty()));
    assert_eq!(line.spans[0].content, "ab");
    assert!(line.spans[0].style.add_modifier.bold);
    assert_eq!(line.spans[0].style.fg, Some(Color::Red));
    assert_eq!(line.spans[1].content, "c");
    assert_eq!(line.spans[1].style.fg, None);
    assert!(!line.spans[1].style.add_modifier.bold);
}

#[test]
fn joined_parameters_apply_in_turn() {
    let joined = parse_ansi_line("\x1b[1;31mx");
    let apart = parse_ansi_line("\x1b[1m\x1b[31mx");
    assert_eq!(joined.spans[0].style, apart.spans[0].style);
    let joined = parse_ansi_line("\x1b[31;0;4mx");
    let apart = parse_ansi_line("\x1b[31m\x1b[0m\x1b[4mx");
    assert_eq!(joined.spans[0].style, apart.spans[0].style);
}

#[test]
fn apply_ansi_seq_applies_joined_codes_in_turn() {
    let base = Style::new();
    assert_eq!(apply_ansi_seq("1;31", base), apply_ansi_seq("31", apply_ansi_seq("1", base)));
    assert_eq!(apply_ansi_seq("4;22", base), apply_ansi_seq("22", apply_ansi_seq("4", base)));
    assert_eq!(apply_ansi_seq("", apply_ansi_seq("1", base)), Style::new());
}
