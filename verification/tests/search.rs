use mkdr::search::{find_next_match, find_prev_match, highlight_line, search_lines};
use mkdr::style::{Color, Line, Span};

fn line_of(text: &str) -> Line {
    Line::from_spans(vec![Span::raw(text.to_string())])
}

fn text_of(line: &Line) -> String {
    line.spans.iter().map(|s| s.content.as_str()).collect()
}

#[test]
fn test_search_lines_basic() {
    let lines = vec!["hello world".to_string(), "goodbye".to_string(), "HELLO again".to_string()];
    let results = search_lines(&lines, "hello");
    assert_eq!(results, vec![0, 2]);
}

#[test]
fn test_search_lines_empty_query() {
    let lines = vec!["hello".to_string()];
    assert!(search_lines(&lines, "").is_empty());
}

#[test]
fn test_search_lines_no_match() {
    let lines = vec!["hello".to_string()];
    assert!(search_lines(&lines, "zzz").is_empty());
}

#[test]
fn test_find_next_match_forward() {
    let results = vec![1, 3, 5];
    assert_eq!(find_next_match(&results, Some(0)), Some(1));
    assert_eq!(find_next_match(&results, Some(1)), Some(3));
    assert_eq!(find_next_match(&results, Some(4)), Some(5));
    assert_eq!(find_next_match(&results, Some(5)), Some(1)); // wraps
}

#[test]
fn test_find_next_match_empty() {
    assert_eq!(find_next_match(&[], Some(0)), None);
}

#[test]
fn test_find_prev_match_backward() {
    let results = vec![1, 3, 5];
    assert_eq!(find_prev_match(&results, Some(0)), Some(5)); // wraps
    assert_eq!(find_prev_match(&results, Some(3)), Some(1));
    assert_eq!(find_prev_match(&results, Some(4)), Some(3));
    assert_eq!(find_prev_match(&results, Some(6)), Some(5));
}

#[test]
fn test_find_prev_match_empty() {
    assert_eq!(find_prev_match(&[], Some(0)), None);
}

#[test]
fn test_highlight_line_basic() {
    let line = line_of("hello world");
    let highlighted = highlight_line(&line, "world");
    let text = text_of(&highlighted);
    assert_eq!(text, "hello world");
    assert!(highlighted.spans.len() >= 2); // "hello " + "world"
}

#[test]
fn test_highlight_line_multiple_matches() {
    let line = line_of("foo bar foo");
    let highlighted = highlight_line(&line, "foo");
    let text = text_of(&highlighted);
    assert_eq!(text, "foo bar foo");
}

#[test]
fn test_highlight_line_empty_query() {
    let line = line_of("hello");
    let highlighted = highlight_line(&line, "");
    assert_eq!(highlighted.spans.len(), 1);
}

#[test]
fn search_is_case_insensitive_both_ways() {
    let lines = vec!["Alpha".to_string(), "beta".to_string(), "ALPHABET".to_string()];
    assert_eq!(search_lines(&lines, "ALPHA"), vec![0, 2]);
    assert_eq!(search_lines(&lines, "Bet"), vec![1, 2]);
}

#[test]
fn next_then_prev_returns_to_a_match() {
    let results = vec![2, 4, 9];
    for &r in &results {
        let next = find_next_match(&results, Some(r)).unwrap();
        assert_eq!(find_prev_match(&results, Some(next)), Some(r));
        let prev = find_prev_match(&results, Some(r)).unwrap();
        assert_eq!(find_next_match(&results, Some(prev)), Some(r));
    }
}

#[test]
fn next_match_without_current_starts_at_zero() {
    let results = vec![0, 7];
    assert_eq!(find_next_match(&results, None), Some(7));
    assert_eq!(find_prev_match(&results, None), Some(7));
}

#[test]
fn highlight_cuts_spans_at_matches() {
    let line = line_of("foo bar foo");
    let h = highlight_line(&line, "FOO");
    let pieces: Vec<&str> = h.spans.iter().map(|s| s.content.as_str()).collect();
    assert_eq!(pieces, vec!["foo", " bar ", "foo"]);
    assert_eq!(h.spans[0].style.fg, Some(Color::White));
    assert_eq!(h.spans[0].style.bg, Some(Color::Blue));
    assert!(h.spans[0].style.add_modifier.bold);
    assert_eq!(h.spans[1].style.fg, None);
}

#[test]
fn next_and_previous_match_on_unsorted_and_repeated_lists() {
    // Every element up to the first one above the current line is at most it.
    assert_eq!(find_next_match(&[5, 1, 9], Some(5)), Some(9));
    assert_eq!(find_next_match(&[3, 3, 7], Some(3)), Some(7));
    assert_eq!(find_prev_match(&[3, 3, 7], Some(7)), Some(3));
    assert_eq!(find_prev_match(&[9, 2], Some(4)), Some(2));
    assert_eq!(find_next_match(&[4, 4], Some(4)), Some(4));
    assert_eq!(find_prev_match(&[], Some(4)), None);
}

#[test]
fn query_case_does_not_matter_on_ascii_text() {
    let lines = vec!["Alpha Beta".to_string(), "gamma".to_string(), "ALPHABET".to_string()];
    let lower = search_lines(&lines, "alpha");
    assert_eq!(lower, vec![0, 2]);
    assert_eq!(search_lines(&lines, "ALPHA"), lower);
    assert_eq!(search_lines(&lines, "aLpHa"), lower);
}

#[test]
fn highlight_line_on_text_whose_lowercase_is_longer() {
    // Lowercasing 'İ' gives two characters; with no match the line comes back as it was.
    let line = line_of("İstanbul");
    let highlighted = highlight_line(&line, "x");
    assert_eq!(highlighted.spans.len(), 1);
    assert_eq!(text_of(&highlighted), "İstanbul");
    // A match in another span is still highlighted.
    let line = Line::from_spans(vec![Span::raw("İ ".to_string()), Span::raw("foo".to_string())]);
    let highlighted = highlight_line(&line, "FOO");
    assert_eq!(text_of(&highlighted), "İ foo");
    assert_eq!(highlighted.spans.len(), 2);
    assert_eq!(highlighted.spans[1].content, "foo");
    assert_eq!(highlighted.spans[1].style.bg, Some(Color::Blue));
}
