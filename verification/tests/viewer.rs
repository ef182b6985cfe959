use mkdr::config::{resolve_settings, startup_theme, switched_theme, Config, ThemeChoice};
use mkdr::screen::{heading_level_exec, line_kinds_exec, prepend_line_number, LineKind};
use mkdr::style::{Color, Line, Span};
use mkdr::theme::Theme;
use mkdr::viewer::{follow_cursor, Action, App, KeyCode, KeyPress, Load, Mode, ViewState, WrapMode};

fn line_of(text: &str) -> Line {
    Line::from_spans(vec![Span::raw(text.to_string())])
}

fn key(c: char) -> KeyPress {
    KeyPress { code: KeyCode::Char(c), ctrl: false }
}

fn code(c: KeyCode) -> KeyPress {
    KeyPress { code: c, ctrl: false }
}

fn app_with(text: &str, files: Vec<String>) -> App {
    let mut app = App::new(files, WrapMode::Word, false, true, Theme::default_dark());
    app.set_document(text.to_string());
    app
}

fn numbered(n: usize) -> String {
    (1..=n).map(|i| format!("line {i}\n\n")).collect()
}

#[test]
fn wrap_mode_from_str_word() {
    assert_eq!(WrapMode::from_str("word"), WrapMode::Word);
}

#[test]
fn wrap_mode_from_str_none() {
    assert_eq!(WrapMode::from_str("none"), WrapMode::NoWrap);
}

#[test]
fn wrap_mode_from_str_char() {
    assert_eq!(WrapMode::from_str("char"), WrapMode::Char);
}

#[test]
fn wrap_mode_from_str_unknown_defaults_to_word() {
    assert_eq!(WrapMode::from_str("whatever"), WrapMode::Word);
}

#[test]
fn wrap_mode_as_str_roundtrip() {
    for mode in &[WrapMode::Word, WrapMode::NoWrap, WrapMode::Char] {
        assert_eq!(WrapMode::from_str(mode.as_str()), *mode);
    }
}

#[test]
fn prepend_line_number_adds_span() {
    let line = line_of("content");
    let result = prepend_line_number(line, 5, 100);
    assert_eq!(result.spans.len(), 2);
    assert!(result.spans[0].content.contains('5'));
}

#[test]
fn prepend_line_number_pads_width() {
    let line = line_of("x");
    let result = prepend_line_number(line, 7, 1000);
    let num_text = result.spans[0].content.as_str();
    assert_eq!(num_text.len(), 5); // 4 digits + space
    assert_eq!(num_text, "   7 ");
    assert_eq!(result.spans[0].style.fg, Some(Color::DarkGray));
}

#[test]
fn config_default_all_none() {
    let c = Config::default();
    assert!(c.wrap.is_none());
    assert!(c.line_numbers.is_none());
    assert!(c.theme.is_none());
    assert!(c.show_status.is_none());
}

#[test]
fn settings_prefer_command_line_then_config() {
    let config = Config {
        wrap: Some("none".to_string()),
        line_numbers: Some(true),
        theme: Some("nord".to_string()),
        show_status: Some(false),
    };
    let s = resolve_settings(None, false, false, "auto".to_string(), &config);
    assert_eq!(s.wrap_mode, WrapMode::NoWrap);
    assert!(s.line_numbers);
    assert!(!s.show_status);
    assert_eq!(s.theme_name, "nord");
    let s = resolve_settings(Some("char".to_string()), false, false, "dracula".to_string(), &config);
    assert_eq!(s.wrap_mode, WrapMode::Char);
    assert_eq!(s.theme_name, "dracula");
    let s = resolve_settings(None, false, true, "auto".to_string(), &Config::default());
    assert_eq!(s.wrap_mode, WrapMode::Word);
    assert!(!s.line_numbers);
    assert!(!s.show_status);
    assert_eq!(s.theme_name, "auto");
}

#[test]
fn theme_choices() {
    assert!(matches!(startup_theme("auto"), ThemeChoice::Dark));
    assert!(matches!(startup_theme("light"), ThemeChoice::Light));
    assert!(matches!(startup_theme("nord"), ThemeChoice::Named(ref n) if n == "nord"));
    assert!(matches!(switched_theme("auto"), ThemeChoice::Named(ref n) if n == "auto"));
    assert!(matches!(switched_theme("dark"), ThemeChoice::Dark));
}

#[test]
fn follow_cursor_scrolls_to_show_cursor() {
    let mut v = ViewState {
        cursor_line: 30,
        cursor_col: 0,
        viewport_height: 10,
        scroll: 0,
        h_scroll: 0,
        max_scroll: 100,
        show_status: true,
        show_line_numbers: false,
        wrap_mode: WrapMode::Word,
        raw_mode: false,
    };
    follow_cursor(&mut v);
    assert_eq!(v.scroll, 21);
    v.cursor_line = 5;
    follow_cursor(&mut v);
    assert_eq!(v.scroll, 5);
    v.wrap_mode = WrapMode::NoWrap;
    v.h_scroll = 8;
    v.cursor_col = 3;
    follow_cursor(&mut v);
    assert_eq!(v.h_scroll, 3);
}

#[test]
fn count_prefix_moves_down_by_count() {
    let mut app = app_with(&numbered(20), vec![]);
    assert!(matches!(app.handle_key(key('1')), Action::Nothing));
    assert!(matches!(app.handle_key(key('2')), Action::Nothing));
    assert!(matches!(app.handle_key(key('j')), Action::Nothing));
    assert_eq!(app.view_state().cursor_line, 12);
    app.handle_key(key('k'));
    assert_eq!(app.view_state().cursor_line, 11);
    app.handle_key(key('G'));
    let v = app.view_state();
    assert_eq!(v.cursor_line, v.max_scroll);
    app.handle_key(key('g'));
    assert_eq!(app.view_state().cursor_line, 0);
}

#[test]
fn quit_keys_ask_to_quit() {
    let mut app = app_with("text", vec![]);
    assert!(matches!(app.handle_key(key('q')), Action::Quit));
    assert!(matches!(app.handle_key(code(KeyCode::Esc)), Action::Quit));
}

#[test]
fn search_then_next_lands_on_match() {
    let mut app = app_with("alpha\n\nbeta\n\nalpha again\n", vec![]);
    app.handle_key(key('/'));
    assert_eq!(app.mode(), Mode::SearchForward);
    for c in "alpha".chars() {
        app.handle_key(key(c));
    }
    app.handle_key(code(KeyCode::Enter));
    assert_eq!(app.mode(), Mode::Normal);
    app.handle_key(key('n'));
    let line = app.view_state().cursor_line;
    assert!(line == 0 || line == 4, "cursor on a match, got {line}");
    let status = app.status_line();
    let text: String = status.spans.iter().map(|s| s.content.as_str()).collect();
    assert!(text.contains("\"alpha\" ["), "status: {text}");
}

#[test]
fn bookmark_round_trip() {
    let mut app = app_with(&numbered(10), vec![]);
    app.handle_key(key('5'));
    app.handle_key(key('j'));
    assert_eq!(app.view_state().cursor_line, 5);
    app.handle_key(key('m'));
    app.handle_key(key('a'));
    app.handle_key(key('g'));
    assert_eq!(app.view_state().cursor_line, 0);
    app.handle_key(key('\''));
    app.handle_key(key('a'));
    assert_eq!(app.view_state().cursor_line, 5);
}

#[test]
fn next_and_previous_file_round_trip() {
    let files = vec!["a.md".to_string(), "b.md".to_string(), "c.md".to_string()];
    let mut app = app_with("x", files);
    assert!(matches!(app.handle_key(key(']')), Action::Load(Load::Open)));
    app.finish_load(Load::Open, Ok("second".to_string()));
    assert!(matches!(app.handle_key(key('[')), Action::Load(Load::Open)));
    app.finish_load(Load::Open, Ok("first".to_string()));
    let text: String = app.status_line().spans.iter().map(|s| s.content.as_str()).collect();
    assert!(text.starts_with(" a.md — Ln 1/1 (0%) "), "status: {text}");
    assert!(text.contains(" file 1/3 "), "status: {text}");
}

#[test]
fn go_to_line_and_percent() {
    let mut app = app_with(&numbered(11), vec![]);
    let max = app.view_state().max_scroll;
    app.handle_key(key(':'));
    for c in " 5 ".chars() {
        app.handle_key(key(c));
    }
    assert!(matches!(app.handle_key(code(KeyCode::Enter)), Action::Nothing));
    assert_eq!(app.view_state().cursor_line, 4);
    assert_eq!(app.view_state().scroll, 4);
    app.handle_key(key(':'));
    for c in "50%".chars() {
        app.handle_key(key(c));
    }
    app.handle_key(code(KeyCode::Enter));
    assert_eq!(app.view_state().cursor_line, 50 * max / 100);
    app.handle_key(key(':'));
    for c in "theme  nord".chars() {
        app.handle_key(key(c));
    }
    match app.handle_key(code(KeyCode::Enter)) {
        Action::SwitchTheme(name) => assert_eq!(name, "nord"),
        other => panic!("unexpected {other:?}"),
    }
}

#[test]
fn read_error_shows_message_and_empty_document() {
    let mut app = app_with("x", vec!["gone.md".to_string()]);
    app.finish_load(Load::Open, Err("no such file".to_string()));
    let text: Vec<String> = app.status_line().spans.iter().map(|s| s.content.clone()).collect();
    assert_eq!(text[1], " ⚠ Error reading file: no such file ");
    assert!(app.display_lines().is_empty());
}

#[test]
fn enter_reports_no_link_and_backspace_no_history() {
    let mut app = app_with("x", vec!["a.md".to_string()]);
    app.handle_key(code(KeyCode::Enter));
    let text: Vec<String> = app.status_line().spans.iter().map(|s| s.content.clone()).collect();
    assert_eq!(text[1], " ⚠ No link on this line ");
    app.handle_key(code(KeyCode::Backspace));
    let text: Vec<String> = app.status_line().spans.iter().map(|s| s.content.clone()).collect();
    assert_eq!(text[1], " ⚠ No previous file in history ");
}

#[test]
fn raw_mode_shows_source_lines_by_kind() {
    let mut app = app_with("---\ntitle: x\n---\n# Head\n```\ncode\n```\ntext\n", vec![]);
    app.toggle_raw();
    let lines = app.raw_display_lines();
    assert_eq!(lines.len(), 8);
    let texts: Vec<String> = lines.iter().map(|l| l.spans[0].content.clone()).collect();
    assert_eq!(texts[3], "# Head");
    assert!(lines[0].spans[0].style.add_modifier.dim);
    assert_eq!(lines[3].spans[0].style.fg, Some(Color::Rgb(0xf4, 0x47, 0x47)));
}

#[test]
fn line_kinds_of_markdown() {
    let ls: Vec<Vec<char>> = ["", "---", "a: b", "---", "## H", "```", "# not", "```", "####### seven"]
        .iter()
        .map(|s| s.chars().collect())
        .collect();
    let kinds = line_kinds_exec(&ls);
    assert_eq!(
        kinds,
        vec![
            LineKind::Text,
            LineKind::FrontMatter,
            LineKind::FrontMatter,
            LineKind::FrontMatter,
            LineKind::Heading(2),
            LineKind::Code,
            LineKind::Code,
            LineKind::Code,
            LineKind::Text,
        ]
    );
    assert_eq!(heading_level_exec(&"###".chars().collect()), None);
    assert_eq!(heading_level_exec(&"### x".chars().collect()), Some(3));
}

#[test]
fn display_lines_number_and_highlight() {
    let mut app = App::new(vec![], WrapMode::Word, true, true, Theme::default_dark());
    app.set_document("foo bar\n\nbaz\n".to_string());
    app.handle_key(key('/'));
    app.handle_key(key('b'));
    app.handle_key(key('a'));
    app.handle_key(code(KeyCode::Enter));
    let lines = app.display_lines();
    assert_eq!(lines.len(), 3);
    assert_eq!(lines[0].spans[0].content, "1 ");
    let texts: Vec<&str> = lines[0].spans.iter().map(|s| s.content.as_str()).collect();
    assert_eq!(texts, vec!["1 ", "foo ", "ba", "r"]);
    assert_eq!(lines[0].spans[2].style.bg, Some(Color::Blue));
}

#[test]
fn file_list_marks_selected_file() {
    let files = vec!["a.md".to_string(), "b.md".to_string()];
    let mut app = app_with("x", files);
    app.handle_key(key(':'));
    for c in "files".chars() {
        app.handle_key(key(c));
    }
    app.handle_key(code(KeyCode::Enter));
    assert_eq!(app.mode(), Mode::FileList);
    app.handle_key(key('j'));
    let lines = app.file_list_lines();
    let texts: Vec<&str> = lines.iter().map(|l| l.spans[0].content.as_str()).collect();
    assert_eq!(texts, vec![" Files ", "───", "  a.md", "▸ b.md"]);
    assert!(matches!(app.handle_key(code(KeyCode::Enter)), Action::Load(Load::Open)));
    assert_eq!(app.mode(), Mode::Normal);
}

#[test]
fn escape_cancels_a_search_being_typed() {
    let mut app = app_with("alpha\n\nbeta\n\nalpha again\n", vec![]);
    app.handle_key(key('/'));
    for c in "alpha".chars() {
        app.handle_key(key(c));
    }
    app.handle_key(code(KeyCode::Enter));
    let before: String = app.status_line().spans.iter().map(|s| s.content.as_str()).collect();
    assert!(before.contains("\"alpha\" ["), "status: {before}");
    app.handle_key(key('?'));
    for c in "beta".chars() {
        app.handle_key(key(c));
    }
    app.handle_key(code(KeyCode::Esc));
    assert_eq!(app.mode(), Mode::Normal);
    let after: String = app.status_line().spans.iter().map(|s| s.content.as_str()).collect();
    assert_eq!(after, before);
    assert!(!after.contains("beta"), "status: {after}");
}

#[test]
fn r_and_shift_r_reload_the_file() {
    let mut app = app_with("text\n", vec!["a.md".to_string()]);
    assert!(matches!(app.handle_key(key('r')), Action::Load(Load::Reload)));
    assert!(matches!(app.handle_key(key('R')), Action::Load(Load::Reload)));
    let mut piped = app_with("text\n", vec![]);
    assert!(matches!(piped.handle_key(key('r')), Action::Nothing));
}

fn status_text(app: &App) -> String {
    app.status_line().spans.iter().map(|s| s.content.as_str()).collect()
}

#[test]
fn enter_opens_the_link_on_the_cursor_line() {
    let mut app = app_with("Click [here](https://example.com) or [there](https://two.org)\n", vec![]);
    match app.handle_key(code(KeyCode::Enter)) {
        Action::OpenLink(url, image) => {
            assert_eq!(url, "https://example.com");
            assert!(!image);
        }
        other => panic!("expected a link to open, got {other:?}"),
    }
    app.link_opened("https://example.com", false, true);
    assert!(status_text(&app).contains("Opened in browser"), "{}", status_text(&app));
    app.link_opened("https://example.com", false, false);
    assert!(status_text(&app).contains("Failed to open: https://example.com"), "{}", status_text(&app));
}

#[test]
fn enter_on_an_image_opens_it_as_an_image() {
    let mut app = app_with("![alt](img.png)\n", vec![]);
    match app.handle_key(code(KeyCode::Enter)) {
        Action::OpenLink(url, image) => {
            assert_eq!(url, "img.png");
            assert!(image);
        }
        other => panic!("expected an image to open, got {other:?}"),
    }
    app.link_opened("img.png", true, true);
    assert!(status_text(&app).contains("Opened in image viewer"), "{}", status_text(&app));
}
