//! Colour themes: named text styles for markdown elements, colour
//! references, and hex colour parsing.

use vstd::prelude::*;

use crate::palettes::{
    AYU_DARK, AYU_LIGHT, AYU_MIRAGE, CATPPUCCIN_MOCHA, DRACULA, GRUVBOX_DARK, NORD, ONEDARK,
    SOLARIZED_LIGHT, TOKYONIGHT,
};
use crate::style::{Color, Modifier, Style};
use crate::text::{
    assoc_map, chars_of, first_key_index, lemma_assoc_push, lemma_assoc_update,
    lemma_first_key_index, str_eq, sub_chars, utf8_width,
};

verus! {

/// Style properties of one markdown element, as a theme file writes them.
#[derive(Debug)]
pub struct StyleDef {
    pub fg: Option<String>,
    pub bg: Option<String>,
    pub bold: Option<bool>,
    pub italic: Option<bool>,
    pub underline: Option<bool>,
    pub strikethrough: Option<bool>,
}

/// The mathematical value of a [`StyleDef`].
pub struct StyleDefView {
    pub fg: Option<Seq<char>>,
    pub bg: Option<Seq<char>>,
    pub bold: Option<bool>,
    pub italic: Option<bool>,
    pub underline: Option<bool>,
    pub strikethrough: Option<bool>,
}

pub open spec fn opt_string_view(o: Option<String>) -> Option<Seq<char>> {
    match o {
        Some(s) => Some(s@),
        None => None,
    }
}

pub open spec fn opt_str_view(o: Option<&str>) -> Option<Seq<char>> {
    match o {
        Some(s) => Some(s@),
        None => None,
    }
}

impl View for StyleDef {
    type V = StyleDefView;

    open spec fn view(&self) -> StyleDefView {
        StyleDefView {
            fg: opt_string_view(self.fg),
            bg: opt_string_view(self.bg),
            bold: self.bold,
            italic: self.italic,
            underline: self.underline,
            strikethrough: self.strikethrough,
        }
    }
}

fn copy_opt_string(o: &Option<String>) -> (r: Option<String>)
    ensures
        opt_string_view(r) == opt_string_view(*o),
{
    match o {
        Some(s) => Some(s.clone()),
        None => None,
    }
}

impl StyleDef {
    /// A copy of this style definition.
    pub fn copy(&self) -> (r: StyleDef)
        ensures
            r@ == self@,
    {
        StyleDef {
            fg: copy_opt_string(&self.fg),
            bg: copy_opt_string(&self.bg),
            bold: self.bold,
            italic: self.italic,
            underline: self.underline,
            strikethrough: self.strikethrough,
        }
    }
}

/// The contents of a theme file: an optional table of named colours and a
/// table of element styles.
#[derive(Debug)]
pub struct ThemeFile {
    pub colors: Option<Vec<(String, String)>>,
    pub styles: Vec<(String, StyleDef)>,
}

/// A named colour theme with text styles for markdown elements.
///
/// Themes are loaded from `.toml` files in either the built-in set or
/// the user's themes directory.
#[derive(Debug)]
pub struct Theme {
    styles: Vec<(String, StyleDef)>,
    colors: Vec<(String, Color)>,
}

/// The mathematical value of a theme: the style of each element and the
/// colour of each colour name.
pub struct ThemeView {
    pub styles: Map<Seq<char>, StyleDefView>,
    pub colors: Map<Seq<char>, Color>,
}

pub open spec fn style_entries(e: Seq<(String, StyleDef)>) -> Seq<(Seq<char>, StyleDefView)> {
    e.map_values(|x: (String, StyleDef)| (x.0@, x.1@))
}

pub open spec fn color_entries(e: Seq<(String, Color)>) -> Seq<(Seq<char>, Color)> {
    e.map_values(|x: (String, Color)| (x.0@, x.1))
}

pub open spec fn string_pairs(e: Seq<(String, String)>) -> Seq<(Seq<char>, Seq<char>)> {
    e.map_values(|x: (String, String)| (x.0@, x.1@))
}

impl View for Theme {
    type V = ThemeView;

    closed spec fn view(&self) -> ThemeView {
        ThemeView {
            styles: assoc_map(style_entries(self.styles@)),
            colors: assoc_map(color_entries(self.colors@)),
        }
    }
}

/// The value `set` records for a style.
pub open spec fn style_def_view(
    fg: Option<Seq<char>>,
    bg: Option<Seq<char>>,
    bold: bool,
    italic: bool,
    underline: bool,
    strikethrough: bool,
) -> StyleDefView {
    StyleDefView {
        fg,
        bg,
        bold: if bold { Some(true) } else { None },
        italic: if italic { Some(true) } else { None },
        underline: if underline { Some(true) } else { None },
        strikethrough: if strikethrough { Some(true) } else { None },
    }
}

// ---------------------------------------------------------------------------
// Hex colours
// ---------------------------------------------------------------------------

/// `s` without its leading `#` characters.
pub open spec fn trim_hash(s: Seq<char>) -> Seq<char>
    decreases s.len(),
{
    if s.len() > 0 && s[0] == '#' {
        trim_hash(s.drop_first())
    } else {
        s
    }
}

/// Number of bytes of the UTF-8 encoding of `s`.
pub open spec fn byte_len(s: Seq<char>) -> nat
    decreases s.len(),
{
    if s.len() == 0 {
        0
    } else {
        byte_len(s.drop_last()) + utf8_width(s.last())
    }
}

/// Value of a hexadecimal digit.
pub open spec fn hex_val(c: char) -> Option<u8> {
    if '0' <= c <= '9' {
        Some((c as u32 - '0' as u32) as u8)
    } else if 'a' <= c <= 'f' {
        Some((c as u32 - 'a' as u32 + 10) as u8)
    } else if 'A' <= c <= 'F' {
        Some((c as u32 - 'A' as u32 + 10) as u8)
    } else {
        None
    }
}

/// The byte two hex digits write, the high digit first.
pub open spec fn hex_pair(a: char, b: char) -> Option<u8> {
    match (hex_val(a), hex_val(b)) {
        (Some(x), Some(y)) => Some((x * 16 + y) as u8),
        _ => None,
    }
}

/// The colour a hex spec names: six hex digits `rrggbb`, or three `rgb` each
/// repeated, after any leading `#`; nothing for any other text.
pub open spec fn parse_hex_spec(s: Seq<char>) -> Option<Color> {
    let h = trim_hash(s);
    if h.len() == 6 {
        match (hex_pair(h[0], h[1]), hex_pair(h[2], h[3]), hex_pair(h[4], h[5])) {
            (Some(r), Some(g), Some(b)) => Some(Color::Rgb(r, g, b)),
            _ => None,
        }
    } else if h.len() == 3 {
        match (hex_val(h[0]), hex_val(h[1]), hex_val(h[2])) {
            (Some(r), Some(g), Some(b)) => Some(
                Color::Rgb((r * 17) as u8, (g * 17) as u8, (b * 17) as u8),
            ),
            _ => None,
        }
    } else {
        None
    }
}

fn hex_val_exec(c: char) -> (r: Option<u8>)
    ensures
        r == hex_val(c),
{
    if '0' <= c && c <= '9' {
        Some(((c as u32) - ('0' as u32)) as u8)
    } else if 'a' <= c && c <= 'f' {
        Some(((c as u32) - ('a' as u32) + 10) as u8)
    } else if 'A' <= c && c <= 'F' {
        Some(((c as u32) - ('A' as u32) + 10) as u8)
    } else {
        None
    }
}

fn hex_pair_exec(a: char, b: char) -> (r: Option<u8>)
    ensures
        r == hex_pair(a, b),
{
    match (hex_val_exec(a), hex_val_exec(b)) {
        (Some(x), Some(y)) => Some(x * 16 + y),
        _ => None,
    }
}

/// Parses a hex colour spec (`#ff8800`, `f80`, ...): six or three hex digits
/// after any leading `#`.
pub fn parse_hex(hex: &str) -> (r: Option<Color>)
    ensures
        r == parse_hex_spec(hex@),
{
    let h = trimmed_chars(hex);
    if h.len() == 6 {
        match (hex_pair_exec(h[0], h[1]), hex_pair_exec(h[2], h[3]), hex_pair_exec(h[4], h[5])) {
            (Some(r), Some(g), Some(b)) => Some(Color::Rgb(r, g, b)),
            _ => None,
        }
    } else if h.len() == 3 {
        match (hex_val_exec(h[0]), hex_val_exec(h[1]), hex_val_exec(h[2])) {
            (Some(r), Some(g), Some(b)) => Some(Color::Rgb(r * 17, g * 17, b * 17)),
            _ => None,
        }
    } else {
        None
    }
}

pub fn utf8_width_exec(c: char) -> (r: usize)
    ensures
        r as nat == utf8_width(c),
{
    let v = c as u32;
    if v < 0x80 {
        1
    } else if v < 0x800 {
        2
    } else if v < 0x10000 {
        3
    } else {
        4
    }
}

/// The characters of `hex` after its leading `#` characters.
fn trimmed_chars(hex: &str) -> (r: Vec<char>)
    ensures
        r@ == trim_hash(hex@),
{
    let c = chars_of(hex);
    assert(c@.subrange(0, c@.len() as int) =~= c@);
    let mut start: usize = 0;
    while start < c.len() && c[start] == '#'
        invariant
            c@ == hex@,
            start <= c@.len(),
            trim_hash(c@.subrange(start as int, c@.len() as int)) == trim_hash(hex@),
        decreases c.len() - start,
    {
        assert(c@.subrange(start as int, c@.len() as int).drop_first() =~= c@.subrange(
            start + 1,
            c@.len() as int,
        ));
        start = start + 1;
    }
    sub_chars(&c, start, c.len())
}

/// A three-digit hex colour is the six-digit one with each digit doubled.
pub proof fn law_short_hex_doubles_digits(r: char, g: char, b: char)
    requires
        hex_val(r) is Some,
        hex_val(g) is Some,
        hex_val(b) is Some,
    ensures
        parse_hex_spec(seq!['#', r, g, b]) == parse_hex_spec(seq!['#', r, r, g, g, b, b]),
        parse_hex_spec(seq!['#', r, g, b]) is Some,
{
    let s3 = seq!['#', r, g, b];
    let s6 = seq!['#', r, r, g, g, b, b];
    assert(trim_hash(s3) == s3.drop_first()) by {
        assert(trim_hash(s3.drop_first()) == s3.drop_first());
    }
    assert(trim_hash(s6) == s6.drop_first()) by {
        assert(trim_hash(s6.drop_first()) == s6.drop_first());
    }
    assert(s3.drop_first() =~= seq![r, g, b]);
    assert(s6.drop_first() =~= seq![r, r, g, g, b, b]);
    let hr = hex_val(r).unwrap();
    let hg = hex_val(g).unwrap();
    let hb = hex_val(b).unwrap();
    assert((hr * 16 + hr) as u8 == (hr * 17) as u8);
    assert((hg * 16 + hg) as u8 == (hg * 17) as u8);
    assert((hb * 16 + hb) as u8 == (hb * 17) as u8);
}

// ---------------------------------------------------------------------------
// Looking up styles and colours
// ---------------------------------------------------------------------------

/// The colour a spec resolves to: the theme's named colour of that name, or
/// the colour the spec writes in hex.
pub open spec fn resolve_spec(t: ThemeView, spec: Seq<char>) -> Option<Color> {
    if t.colors.contains_key(spec) {
        Some(t.colors[spec])
    } else {
        parse_hex_spec(spec)
    }
}

pub open spec fn opt_resolve(t: ThemeView, spec: Option<Seq<char>>) -> Option<Color> {
    match spec {
        Some(s) => resolve_spec(t, s),
        None => None,
    }
}

/// The style properties of element `key`: foreground, background, bold,
/// italic, underline and strikethrough, with colours resolved.
pub open spec fn style_for_spec(t: ThemeView, key: Seq<char>) -> Option<
    (Option<Color>, Option<Color>, bool, bool, bool, bool),
> {
    if t.styles.contains_key(key) {
        let d = t.styles[key];
        Some(
            (
                opt_resolve(t, d.fg),
                opt_resolve(t, d.bg),
                d.bold.unwrap_or(false),
                d.italic.unwrap_or(false),
                d.underline.unwrap_or(false),
                d.strikethrough.unwrap_or(false),
            ),
        )
    } else {
        None
    }
}

/// The foreground colour of element `key`.
pub open spec fn fg_for_spec(t: ThemeView, key: Seq<char>) -> Option<Color> {
    if t.styles.contains_key(key) {
        opt_resolve(t, t.styles[key].fg)
    } else {
        None
    }
}

/// The terminal style of element `key`.
pub open spec fn style_as_style_spec(t: ThemeView, key: Seq<char>) -> Option<Style> {
    match style_for_spec(t, key) {
        Some((fg, bg, bold, italic, underline, strike)) => {
            let s0 = Style::spec_default();
            let s1 = match fg {
                Some(c) => s0.spec_fg(c),
                None => s0,
            };
            let s2 = match bg {
                Some(c) => s1.spec_bg(c),
                None => s1,
            };
            let s3 = if bold {
                s2.spec_add(Modifier { bold: true, ..Modifier::spec_empty() })
            } else {
                s2
            };
            let s4 = if italic {
                s3.spec_add(Modifier { italic: true, ..Modifier::spec_empty() })
            } else {
                s3
            };
            let s5 = if underline {
                s4.spec_add(Modifier { underlined: true, ..Modifier::spec_empty() })
            } else {
                s4
            };
            let s6 = if strike {
                s5.spec_add(Modifier { crossed_out: true, ..Modifier::spec_empty() })
            } else {
                s5
            };
            Some(s6)
        },
        None => None,
    }
}

/// The position of the first entry for `key`, if any.
fn find_style(e: &Vec<(String, StyleDef)>, key: &str) -> (r: Option<usize>)
    ensures
        match r {
            Some(i) => i as int == first_key_index(style_entries(e@), key@),
            None => first_key_index(style_entries(e@), key@) < 0,
        },
{
    let ghost ev = style_entries(e@);
    let mut i: usize = 0;
    while i < e.len()
        invariant
            i <= e@.len(),
            ev == style_entries(e@),
            forall|j: int| 0 <= j < i ==> ev[j].0 != key@,
        decreases e.len() - i,
    {
        if str_eq(e[i].0.as_str(), key) {
            proof {
                lemma_first_key_index(ev, key@);
                let f = first_key_index(ev, key@);
                assert(ev[i as int].0 == key@);
                if f < 0 || f > i {
                } else if f < i {
                    assert(ev[f].0 == key@);
                }
            }
            return Some(i);
        }
        i = i + 1;
    }
    proof {
        lemma_first_key_index(ev, key@);
        if first_key_index(ev, key@) >= 0 {
            assert(ev[first_key_index(ev, key@)].0 == key@);
        }
    }
    None
}

/// The position of the first colour entry named `key`, if any.
fn find_color(e: &Vec<(String, Color)>, key: &str) -> (r: Option<usize>)
    ensures
        match r {
            Some(i) => i as int == first_key_index(color_entries(e@), key@),
            None => first_key_index(color_entries(e@), key@) < 0,
        },
{
    let ghost ev = color_entries(e@);
    let mut i: usize = 0;
    while i < e.len()
        invariant
            i <= e@.len(),
            ev == color_entries(e@),
            forall|j: int| 0 <= j < i ==> ev[j].0 != key@,
        decreases e.len() - i,
    {
        if str_eq(e[i].0.as_str(), key) {
            proof {
                lemma_first_key_index(ev, key@);
                let f = first_key_index(ev, key@);
                assert(ev[i as int].0 == key@);
                if f < 0 || f > i {
                } else if f < i {
                    assert(ev[f].0 == key@);
                }
            }
            return Some(i);
        }
        i = i + 1;
    }
    proof {
        lemma_first_key_index(ev, key@);
        if first_key_index(ev, key@) >= 0 {
            assert(ev[first_key_index(ev, key@)].0 == key@);
        }
    }
    None
}

fn opt_str_to_string(o: Option<&str>) -> (r: Option<String>)
    ensures
        opt_string_view(r) == opt_str_view(o),
{
    match o {
        Some(s) => Some(String::from_str(s)),
        None => None,
    }
}

impl Theme {
    /// Create an empty theme with no styles defined.
    pub fn default() -> (r: Theme)
        ensures
            r@.styles == Map::<Seq<char>, StyleDefView>::empty(),
            r@.colors == Map::<Seq<char>, Color>::empty(),
    {
        let r = Theme { styles: Vec::new(), colors: Vec::new() };
        assert(style_entries(r.styles@) =~= Seq::<(Seq<char>, StyleDefView)>::empty());
        assert(color_entries(r.colors@) =~= Seq::<(Seq<char>, Color)>::empty());
        r
    }

    /// Records the style of element `key`, replacing any earlier one.
    #[allow(clippy::too_many_arguments)]
    fn set(
        &mut self,
        key: &str,
        fg: Option<&str>,
        bg: Option<&str>,
        bold: bool,
        italic: bool,
        underline: bool,
        strikethrough: bool,
    )
        ensures
            final(self)@.styles == old(self)@.styles.insert(
                key@,
                style_def_view(opt_str_view(fg), opt_str_view(bg), bold, italic, underline, strikethrough),
            ),
            final(self)@.colors == old(self)@.colors,
    {
        let def = StyleDef {
            fg: opt_str_to_string(fg),
            bg: opt_str_to_string(bg),
            bold: if bold { Some(true) } else { None },
            italic: if italic { Some(true) } else { None },
            underline: if underline { Some(true) } else { None },
            strikethrough: if strikethrough { Some(true) } else { None },
        };
        let ghost v = def@;
        let ghost old_e = style_entries(self.styles@);
        proof {
            lemma_first_key_index(old_e, key@);
        }
        match find_style(&self.styles, key) {
            Some(i) => {
                assert(old_e.len() == self.styles@.len());
                let k = String::from_str(key);
                self.styles.set(i, (k, def));
                proof {
                    assert(style_entries(self.styles@) =~= old_e.update(i as int, (key@, v)));
                    lemma_assoc_update(old_e, i as int, key@, v);
                }
            },
            None => {
                let k = String::from_str(key);
                self.styles.push((k, def));
                proof {
                    assert(style_entries(self.styles@) =~= old_e.push((key@, v)));
                    lemma_assoc_push(old_e, key@, v);
                }
            },
        }
    }

    /// Built-in dark theme (VS Code–inspired palette).
    pub fn default_dark() -> (r: Theme)
        ensures
            r@.styles == dark_styles(),
            r@.colors == Map::<Seq<char>, Color>::empty(),
    {
        let mut t = Theme::default();
        t.set("paragraph", Some("#d4d4d4"), None, false, false, false, false);
        t.set("bold", Some("#ffffff"), None, true, false, false, false);
        t.set("italic", Some("#e6b450"), None, false, true, false, false);
        t.set("strikeout", Some("#808080"), None, false, false, false, false);
        t.set("inline_code", Some("#ce9178"), Some("#2d2d2d"), false, false, false, false);
        t.set("code_block", Some("#d4d4d4"), Some("#1e1e1e"), false, false, false, false);
        t.set("heading1", Some("#f44747"), None, true, false, false, false);
        t.set("heading2", Some("#569cd6"), None, true, false, false, false);
        t.set("heading3", Some("#4ec9b0"), None, true, false, false, false);
        t.set("heading4", Some("#dcdcaa"), None, false, false, false, false);
        t.set("heading5", Some("#9a9a9a"), None, false, false, false, false);
        t.set("heading6", Some("#808080"), None, false, false, false, false);
        t.set("link", Some("#569cd6"), None, false, false, true, false);
        t.set("table", Some("#808080"), None, false, false, false, false);
        t.set("bullet", Some("#569cd6"), None, false, false, false, false);
        t.set("quote_mark", Some("#6a9955"), None, false, false, false, false);
        t.set("horizontal_rule", Some("#404040"), None, false, false, false, false);
        t.set("ellipsis", Some("#404040"), None, false, false, false, false);
        t
    }

    /// Built-in light theme (GitHub–inspired palette).
    pub fn default_light() -> (r: Theme)
        ensures
            r@.styles == light_styles(),
            r@.colors == Map::<Seq<char>, Color>::empty(),
    {
        let mut t = Theme::default();
        t.set("paragraph", Some("#333333"), None, false, false, false, false);
        t.set("bold", Some("#000000"), None, true, false, false, false);
        t.set("italic", Some("#e88d4a"), None, false, true, false, false);
        t.set("strikeout", Some("#999999"), None, false, false, false, false);
        t.set("inline_code", Some("#c7254e"), Some("#f9f2f4"), false, false, false, false);
        t.set("code_block", Some("#333333"), Some("#f5f5f5"), false, false, false, false);
        t.set("heading1", Some("#d73a49"), None, true, false, false, false);
        t.set("heading2", Some("#005cc5"), None, true, false, false, false);
        t.set("heading3", Some("#22863a"), None, true, false, false, false);
        t.set("heading4", Some("#735c0f"), None, false, false, false, false);
        t.set("heading5", Some("#6a737d"), None, false, false, false, false);
        t.set("heading6", Some("#6a737d"), None, false, false, false, false);
        t.set("link", Some("#005cc5"), None, false, false, true, false);
        t.set("table", Some("#959da5"), None, false, false, false, false);
        t.set("bullet", Some("#005cc5"), None, false, false, false, false);
        t.set("quote_mark", Some("#22863a"), None, false, false, false, false);
        t.set("horizontal_rule", Some("#d1d5da"), None, false, false, false, false);
        t.set("ellipsis", Some("#d1d5da"), None, false, false, false, false);
        t
    }

    /// List all built-in theme names.
    pub fn list_names() -> (r: Vec<&'static str>)
        ensures
            r@.len() == builtin_names().len(),
            forall|i: int| 0 <= i < r@.len() ==> (#[trigger] r@[i])@ == builtin_names()[i],
    {
        let mut v: Vec<&'static str> = Vec::new();
        v.push("ayu_dark");
        v.push("ayu_light");
        v.push("ayu_mirage");
        v.push("catppuccin_mocha");
        v.push("dracula");
        v.push("gruvbox_dark");
        v.push("nord");
        v.push("onedark");
        v.push("solarized_light");
        v.push("tokyonight");
        v
    }

    /// Resolve a colour spec (hex like `#ff8800` or a named colour from the theme's `[colors]` table).
    pub fn resolve_color(&self, spec: &str) -> (r: Option<Color>)
        ensures
            r == resolve_spec(self@, spec@),
    {
        let ghost ev = color_entries(self.colors@);
        proof {
            lemma_first_key_index(ev, spec@);
        }
        match find_color(&self.colors, spec) {
            Some(i) => {
                assert(ev[i as int].1 == self.colors@[i as int].1);
                Some(self.colors[i].1)
            },
            None => parse_hex(spec),
        }
    }

    fn resolve_opt(&self, spec: &Option<String>) -> (r: Option<Color>)
        ensures
            r == opt_resolve(self@, opt_string_view(*spec)),
    {
        match spec {
            Some(s) => self.resolve_color(s.as_str()),
            None => None,
        }
    }

    /// Get style properties for a named element (e.g. `"paragraph"`, `"heading1"`, `"link"`).
    ///
    /// Returns `(fg, bg, bold, italic, underline, strikethrough)`.
    pub fn style_for(&self, key: &str) -> (r: Option<(Option<Color>, Option<Color>, bool, bool, bool, bool)>)
        ensures
            r == style_for_spec(self@, key@),
    {
        let ghost ev = style_entries(self.styles@);
        proof {
            lemma_first_key_index(ev, key@);
        }
        match find_style(&self.styles, key) {
            Some(i) => {
                let def = &self.styles[i].1;
                assert(ev[i as int].1 == def@);
                let fg = self.resolve_opt(&def.fg);
                let bg = self.resolve_opt(&def.bg);
                Some(
                    (
                        fg,
                        bg,
                        match def.bold {
                            Some(b) => b,
                            None => false,
                        },
                        match def.italic {
                            Some(b) => b,
                            None => false,
                        },
                        match def.underline {
                            Some(b) => b,
                            None => false,
                        },
                        match def.strikethrough {
                            Some(b) => b,
                            None => false,
                        },
                    ),
                )
            },
            None => None,
        }
    }

    /// Resolve a style entry to a terminal `Style`, or `None` if the key is not found.
    pub fn style_as_style(&self, key: &str) -> (r: Option<Style>)
        ensures
            r == style_as_style_spec(self@, key@),
    {
        match self.style_for(key) {
            Some((fg, bg, bold, italic, underline, strikethrough)) => {
                let mut s = Style::new();
                if let Some(c) = fg {
                    s = s.fg(c);
                }
                if let Some(c) = bg {
                    s = s.bg(c);
                }
                if bold {
                    s = s.add_modifier(Modifier::bold());
                }
                if italic {
                    s = s.add_modifier(Modifier::italic());
                }
                if underline {
                    s = s.add_modifier(Modifier::underlined());
                }
                if strikethrough {
                    s = s.add_modifier(Modifier::crossed_out());
                }
                Some(s)
            },
            None => None,
        }
    }

    /// A theme from the contents of a theme file: its styles as written, and
    /// each named colour whose hex value parses.
    pub fn from_file(tf: ThemeFile) -> (r: Theme)
        ensures
            r@.styles == assoc_map(style_entries(tf.styles@)),
            r@.colors == assoc_map(parsed_colors(file_color_pairs(tf.colors))),
    {
        let ghost pairs = file_color_pairs(tf.colors);
        let mut colors: Vec<(String, Color)> = Vec::new();
        match &tf.colors {
            Some(c) => {
                let mut i: usize = 0;
                assert(pairs.subrange(0, 0) =~= Seq::<(Seq<char>, Seq<char>)>::empty());
                assert(color_entries(colors@) =~= Seq::<(Seq<char>, Color)>::empty());
                while i < c.len()
                    invariant
                        i <= c@.len(),
                        pairs == string_pairs(c@),
                        color_entries(colors@) == parsed_colors(pairs.subrange(0, i as int)),
                    decreases c.len() - i,
                {
                    let ghost before = color_entries(colors@);
                    assert(pairs.subrange(0, i + 1).drop_last() =~= pairs.subrange(0, i as int));
                    match parse_hex(c[i].1.as_str()) {
                        Some(col) => {
                            colors.push((c[i].0.clone(), col));
                            assert(color_entries(colors@) =~= before.push((c@[i as int].0@, col)));
                        },
                        None => {},
                    }
                    i = i + 1;
                }
                assert(pairs.subrange(0, c@.len() as int) =~= pairs);
            },
            None => {
                assert(color_entries(colors@) =~= Seq::<(Seq<char>, Color)>::empty());
            },
        }
        Theme { styles: tf.styles, colors }
    }

    /// Get the foreground colour for a named element.
    pub fn fg_for(&self, key: &str) -> (r: Option<Color>)
        ensures
            r == fg_for_spec(self@, key@),
    {
        let ghost ev = style_entries(self.styles@);
        proof {
            lemma_first_key_index(ev, key@);
        }
        match find_style(&self.styles, key) {
            Some(i) => {
                assert(ev[i as int].1 == self.styles@[i as int].1@);
                self.resolve_opt(&self.styles[i].1.fg)
            },
            None => None,
        }
    }
}

/// The names of the built-in themes, in alphabetical order.
pub open spec fn builtin_names() -> Seq<Seq<char>> {
    seq![
        "ayu_dark"@,
        "ayu_light"@,
        "ayu_mirage"@,
        "catppuccin_mocha"@,
        "dracula"@,
        "gruvbox_dark"@,
        "nord"@,
        "onedark"@,
        "solarized_light"@,
        "tokyonight"@,
    ]
}

/// The theme file text of the built-in theme called `name`, if there is one.
pub open spec fn built_in_text(name: Seq<char>) -> Option<&'static str> {
    if name == "onedark"@ {
        Some(ONEDARK)
    } else if name == "catppuccin_mocha"@ {
        Some(CATPPUCCIN_MOCHA)
    } else if name == "dracula"@ {
        Some(DRACULA)
    } else if name == "gruvbox_dark"@ {
        Some(GRUVBOX_DARK)
    } else if name == "nord"@ {
        Some(NORD)
    } else if name == "solarized_light"@ {
        Some(SOLARIZED_LIGHT)
    } else if name == "tokyonight"@ {
        Some(TOKYONIGHT)
    } else if name == "ayu_dark"@ {
        Some(AYU_DARK)
    } else if name == "ayu_mirage"@ {
        Some(AYU_MIRAGE)
    } else if name == "ayu_light"@ {
        Some(AYU_LIGHT)
    } else {
        None
    }
}

/// The theme file text of a built-in theme, looked up by name.
pub fn get_built_in(name: &str) -> (r: Option<&'static str>)
    ensures
        r == built_in_text(name@),
{
    if str_eq(name, "onedark") {
        Some(ONEDARK)
    } else if str_eq(name, "catppuccin_mocha") {
        Some(CATPPUCCIN_MOCHA)
    } else if str_eq(name, "dracula") {
        Some(DRACULA)
    } else if str_eq(name, "gruvbox_dark") {
        Some(GRUVBOX_DARK)
    } else if str_eq(name, "nord") {
        Some(NORD)
    } else if str_eq(name, "solarized_light") {
        Some(SOLARIZED_LIGHT)
    } else if str_eq(name, "tokyonight") {
        Some(TOKYONIGHT)
    } else if str_eq(name, "ayu_dark") {
        Some(AYU_DARK)
    } else if str_eq(name, "ayu_mirage") {
        Some(AYU_MIRAGE)
    } else if str_eq(name, "ayu_light") {
        Some(AYU_LIGHT)
    } else {
        None
    }
}

/// Every theme name that `list_names` gives has built-in text.
pub proof fn law_listed_themes_are_built_in(i: int)
    requires
        0 <= i < builtin_names().len(),
    ensures
        built_in_text(builtin_names()[i]) is Some,
{
}

/// The named colours a theme file writes, as pairs of name and value.
pub open spec fn file_color_pairs(o: Option<Vec<(String, String)>>) -> Seq<(Seq<char>, Seq<char>)> {
    match o {
        Some(c) => string_pairs(c@),
        None => Seq::empty(),
    }
}

/// The named colours of a theme file whose values parse as hex, in order.
pub open spec fn parsed_colors(e: Seq<(Seq<char>, Seq<char>)>) -> Seq<(Seq<char>, Color)>
    decreases e.len(),
{
    if e.len() == 0 {
        Seq::empty()
    } else {
        let prev = parsed_colors(e.drop_last());
        match parse_hex_spec(e.last().1) {
            Some(c) => prev.push((e.last().0, c)),
            None => prev,
        }
    }
}

/// The styles of the built-in dark theme, in the order they are set.
pub open spec fn dark_styles() -> Map<Seq<char>, StyleDefView> {
    Map::empty()
        .insert("paragraph"@, style_def_view(Some("#d4d4d4"@), None, false, false, false, false))
        .insert("bold"@, style_def_view(Some("#ffffff"@), None, true, false, false, false))
        .insert("italic"@, style_def_view(Some("#e6b450"@), None, false, true, false, false))
        .insert("strikeout"@, style_def_view(Some("#808080"@), None, false, false, false, false))
        .insert("inline_code"@, style_def_view(Some("#ce9178"@), Some("#2d2d2d"@), false, false, false, false))
        .insert("code_block"@, style_def_view(Some("#d4d4d4"@), Some("#1e1e1e"@), false, false, false, false))
        .insert("heading1"@, style_def_view(Some("#f44747"@), None, true, false, false, false))
        .insert("heading2"@, style_def_view(Some("#569cd6"@), None, true, false, false, false))
        .insert("heading3"@, style_def_view(Some("#4ec9b0"@), None, true, false, false, false))
        .insert("heading4"@, style_def_view(Some("#dcdcaa"@), None, false, false, false, false))
        .insert("heading5"@, style_def_view(Some("#9a9a9a"@), None, false, false, false, false))
        .insert("heading6"@, style_def_view(Some("#808080"@), None, false, false, false, false))
        .insert("link"@, style_def_view(Some("#569cd6"@), None, false, false, true, false))
        .insert("table"@, style_def_view(Some("#808080"@), None, false, false, false, false))
        .insert("bullet"@, style_def_view(Some("#569cd6"@), None, false, false, false, false))
        .insert("quote_mark"@, style_def_view(Some("#6a9955"@), None, false, false, false, false))
        .insert("horizontal_rule"@, style_def_view(Some("#404040"@), None, false, false, false, false))
        .insert("ellipsis"@, style_def_view(Some("#404040"@), None, false, false, false, false))
}

/// The styles of the built-in light theme, in the order they are set.
pub open spec fn light_styles() -> Map<Seq<char>, StyleDefView> {
    Map::empty()
        .insert("paragraph"@, style_def_view(Some("#333333"@), None, false, false, false, false))
        .insert("bold"@, style_def_view(Some("#000000"@), None, true, false, false, false))
        .insert("italic"@, style_def_view(Some("#e88d4a"@), None, false, true, false, false))
        .insert("strikeout"@, style_def_view(Some("#999999"@), None, false, false, false, false))
        .insert("inline_code"@, style_def_view(Some("#c7254e"@), Some("#f9f2f4"@), false, false, false, false))
        .insert("code_block"@, style_def_view(Some("#333333"@), Some("#f5f5f5"@), false, false, false, false))
        .insert("heading1"@, style_def_view(Some("#d73a49"@), None, true, false, false, false))
        .insert("heading2"@, style_def_view(Some("#005cc5"@), None, true, false, false, false))
        .insert("heading3"@, style_def_view(Some("#22863a"@), None, true, false, false, false))
        .insert("heading4"@, style_def_view(Some("#735c0f"@), None, false, false, false, false))
        .insert("heading5"@, style_def_view(Some("#6a737d"@), None, false, false, false, false))
        .insert("heading6"@, style_def_view(Some("#6a737d"@), None, false, false, false, false))
        .insert("link"@, style_def_view(Some("#005cc5"@), None, false, false, true, false))
        .insert("table"@, style_def_view(Some("#959da5"@), None, false, false, false, false))
        .insert("bullet"@, style_def_view(Some("#005cc5"@), None, false, false, false, false))
        .insert("quote_mark"@, style_def_view(Some("#22863a"@), None, false, false, false, false))
        .insert("horizontal_rule"@, style_def_view(Some("#d1d5da"@), None, false, false, false, false))
        .insert("ellipsis"@, style_def_view(Some("#d1d5da"@), None, false, false, false, false))
}

} // verus!
