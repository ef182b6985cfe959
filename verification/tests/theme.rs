use mkdr::palettes::ONEDARK;
use mkdr::style::Color;
use mkdr::theme::{get_built_in, parse_hex, StyleDef, Theme, ThemeFile};

#[test]
fn default_dark_has_paragraph_style() {
    let t = Theme::default_dark();
    assert!(t.style_for("paragraph").is_some());
}

#[test]
fn default_dark_has_all_headings() {
    let t = Theme::default_dark();
    for i in 1..=6 {
        let key = format!("heading{}", i);
        assert!(t.style_for(&key).is_some(), "missing {key}");
    }
}

#[test]
fn default_light_has_paragraph_style() {
    let t = Theme::default_light();
    assert!(t.style_for("paragraph").is_some());
}

#[test]
fn list_names_returns_expected_count() {
    let names = Theme::list_names();
    assert_eq!(names.len(), 10);
}

#[test]
fn resolve_color_hex_6digit() {
    let t = Theme::default();
    let c = t.resolve_color("#ff8800");
    assert_eq!(c, Some(Color::Rgb(255, 136, 0)));
}

#[test]
fn resolve_color_hex_3digit() {
    let t = Theme::default();
    let c = t.resolve_color("#f80");
    assert_eq!(c, Some(Color::Rgb(255, 136, 0)));
}

#[test]
fn resolve_color_hex_without_hash() {
    let t = Theme::default();
    let c = t.resolve_color("ff8800");
    assert_eq!(c, Some(Color::Rgb(255, 136, 0)));
}

#[test]
fn resolve_color_invalid_returns_none() {
    let t = Theme::default();
    assert!(t.resolve_color("not a color").is_none());
}

#[test]
fn resolve_color_named_in_empty_theme_parses_as_hex() {
    let t = Theme::default();
    // Without a [colors] table, any name is tried as hex
    assert!(t.resolve_color("abcxyz").is_none());
}

#[test]
fn fg_for_known_key() {
    let t = Theme::default_dark();
    let fg = t.fg_for("paragraph");
    assert!(fg.is_some(), "paragraph should have a foreground color");
}

#[test]
fn fg_for_unknown_key_returns_none() {
    let t = Theme::default_dark();
    assert!(t.fg_for("nonexistent_key").is_none());
}

#[test]
fn style_for_unknown_key_returns_none() {
    let t = Theme::default();
    assert!(t.style_for("nothing").is_none());
}

#[test]
fn every_listed_theme_is_built_in() {
    for name in Theme::list_names() {
        assert!(get_built_in(name).is_some(), "{name} has no text");
    }
    assert!(get_built_in("nonexistent").is_none());
    assert_eq!(get_built_in("onedark"), Some(ONEDARK));
}

#[test]
fn parse_hex_edge_cases() {
    assert_eq!(parse_hex("##abc"), Some(Color::Rgb(170, 187, 204)));
    assert_eq!(parse_hex("+f+f+f"), None);
    assert_eq!(parse_hex("+ff"), None);
    assert_eq!(parse_hex("12345"), None);
    assert_eq!(parse_hex(""), None);
    assert_eq!(parse_hex("#GGGGGG"), None);
    assert_eq!(parse_hex("#FFFFFF"), Some(Color::Rgb(255, 255, 255)));
}

#[test]
fn parse_hex_rejects_non_ascii_text() {
    assert_eq!(parse_hex("é1"), None);
    assert_eq!(parse_hex("aé123"), None);
    assert_eq!(parse_hex("😀"), None);
    assert_eq!(parse_hex("#ａｂｃ"), None);
    assert_eq!(parse_hex("#ff8800"), Some(Color::Rgb(0xff, 0x88, 0x00)));
}

#[test]
fn theme_from_file_resolves_named_colors() {
    let tf = ThemeFile {
        colors: Some(vec![
            ("text".to_string(), "#abb2bf".to_string()),
            ("broken".to_string(), "zzz".to_string()),
        ]),
        styles: vec![(
            "paragraph".to_string(),
            StyleDef {
                fg: Some("text".to_string()),
                bg: Some("broken".to_string()),
                bold: Some(true),
                italic: None,
                underline: None,
                strikethrough: None,
            },
        )],
    };
    let t = Theme::from_file(tf);
    assert_eq!(t.resolve_color("text"), Some(Color::Rgb(0xab, 0xb2, 0xbf)));
    let style = t.style_for("paragraph").unwrap();
    assert_eq!(style.0, Some(Color::Rgb(0xab, 0xb2, 0xbf)));
    // "broken" did not parse, so it is not a named colour, and it is not hex.
    assert_eq!(style.1, None);
    assert!(style.2);
    assert!(!style.3);
}

#[test]
fn style_as_style_sets_modifiers() {
    let t = Theme::default_dark();
    let s = t.style_as_style("link").unwrap();
    assert_eq!(s.fg, Some(Color::Rgb(0x56, 0x9c, 0xd6)));
    assert!(s.add_modifier.underlined);
    assert!(!s.add_modifier.bold);
    assert!(t.style_as_style("missing").is_none());
}
