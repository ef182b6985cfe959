//! ANSI SGR escape sequences: stripping them from text and turning them
//! into styled spans.

use vstd::prelude::*;

use crate::style::{spans_view, Color, Line, Modifier, Span, Style};
use crate::text::{chars_of, string_of, sub_chars};

verus! {

/// The escape character that starts a control sequence.
pub open spec fn esc() -> char {
    '\x1b'
}

/// Index of the first `m` at or after `j` in `s`, or `s.len()` when there is none.
pub open spec fn m_pos(s: Seq<char>, j: int) -> int
    decreases s.len() - j,
{
    if j >= s.len() {
        s.len() as int
    } else if s[j] == 'm' {
        j
    } else {
        m_pos(s, j + 1)
    }
}

pub proof fn lemma_m_pos(s: Seq<char>, j: int)
    requires
        0 <= j,
    ensures
        j <= s.len() ==> j <= m_pos(s, j) <= s.len(),
        j > s.len() ==> m_pos(s, j) == s.len(),
        m_pos(s, j) < s.len() ==> s[m_pos(s, j)] == 'm',
        forall|k: int| j <= k < m_pos(s, j) ==> s[k] != 'm',
    decreases s.len() - j,
{
    if j < s.len() && s[j] != 'm' {
        lemma_m_pos(s, j + 1);
    }
}

/// Position just after the control sequence whose parameters start at `j`.
pub open spec fn after_seq(s: Seq<char>, j: int) -> int {
    if m_pos(s, j) < s.len() {
        m_pos(s, j) + 1
    } else {
        s.len() as int
    }
}

/// `s` from position `i` on, with every escape sequence removed: an escape and
/// `[` drop everything up to and including the next `m`; an escape followed by
/// anything else drops that pair.
pub open spec fn strip_from(s: Seq<char>, i: int) -> Seq<char>
    decreases s.len() - i,
{
    if i < 0 || i >= s.len() {
        Seq::empty()
    } else if s[i] == esc() {
        if i + 1 < s.len() && s[i + 1] == '[' {
            proof {
                lemma_m_pos(s, i + 2);
            }
            strip_from(s, after_seq(s, i + 2))
        } else if i + 2 <= s.len() {
            strip_from(s, i + 2)
        } else {
            Seq::empty()
        }
    } else {
        seq![s[i]] + strip_from(s, i + 1)
    }
}

/// Remove ANSI escape sequences from `s`.
pub fn strip_ansi(s: &str) -> (r: String)
    ensures
        r@ == strip_from(s@, 0),
{
    let c = chars_of(s);
    let mut out: Vec<char> = Vec::new();
    let mut i: usize = 0;
    while i < c.len()
        invariant
            c@ == s@,
            i <= c@.len(),
            out@ + strip_from(s@, i as int) == strip_from(s@, 0),
        decreases c.len() - i,
    {
        let ghost gi = i as int;
        if c[i] == '\x1b' {
            if i + 1 < c.len() && c[i + 1] == '[' {
                let mut j = i + 2;
                while j < c.len() && c[j] != 'm'
                    invariant
                        c@ == s@,
                        gi + 2 <= j <= c@.len(),
                        m_pos(s@, j as int) == m_pos(s@, gi + 2),
                    decreases c.len() - j,
                {
                    j = j + 1;
                }
                proof {
                    lemma_m_pos(s@, gi + 2);
                }
                i = if j < c.len() { j + 1 } else { j };
            } else if i + 1 < c.len() {
                i = i + 2;
            } else {
                i = c.len();
            }
        } else {
            out.push(c[i]);
            proof {
                assert(out@.drop_last() + (seq![s@[gi]] + strip_from(s@, gi + 1)) =~= out@
                    + strip_from(s@, gi + 1));
            }
            i = i + 1;
        }
    }
    proof {
        assert(out@ + Seq::<char>::empty() =~= out@);
    }
    string_of(out.as_slice())
}

// ---------------------------------------------------------------------------
// Parameters of a sequence
// ---------------------------------------------------------------------------

/// Index of the first `;` at or after `j` in `s`, or `s.len()`.
pub open spec fn semi_pos(s: Seq<char>, j: int) -> int
    decreases s.len() - j,
{
    if j >= s.len() {
        s.len() as int
    } else if s[j] == ';' {
        j
    } else {
        semi_pos(s, j + 1)
    }
}

pub proof fn lemma_semi_pos(s: Seq<char>, j: int)
    requires
        0 <= j <= s.len(),
    ensures
        j <= semi_pos(s, j) <= s.len(),
        semi_pos(s, j) < s.len() ==> s[semi_pos(s, j)] == ';',
        forall|k: int| j <= k < semi_pos(s, j) ==> s[k] != ';',
    decreases s.len() - j,
{
    if j < s.len() && s[j] != ';' {
        lemma_semi_pos(s, j + 1);
    }
}

/// The parts of `s` from `j` on, split at each `;` (as `str::split(';')` does).
pub open spec fn split_semis_from(s: Seq<char>, j: int) -> Seq<Seq<char>>
    decreases s.len() - j,
{
    if j < 0 || j > s.len() {
        Seq::empty()
    } else {
        proof {
            lemma_semi_pos(s, j);
        }
        let k = semi_pos(s, j);
        if k < s.len() {
            seq![s.subrange(j, k)] + split_semis_from(s, k + 1)
        } else {
            seq![s.subrange(j, s.len() as int)]
        }
    }
}

/// Splits `p` at each `;`.
fn split_semis(p: &Vec<char>) -> (r: Vec<Vec<char>>)
    ensures
        r@.map_values(|v: Vec<char>| v@) == split_semis_from(p@, 0),
{
    let mut parts: Vec<Vec<char>> = Vec::new();
    let mut cur: Vec<char> = Vec::new();
    let mut start: usize = 0;
    let mut i: usize = 0;
    while i < p.len()
        invariant
            start <= i <= p@.len(),
            cur@ == p@.subrange(start as int, i as int),
            forall|k: int| start <= k < i ==> p@[k] != ';',
            parts@.map_values(|v: Vec<char>| v@) + split_semis_from(p@, start as int)
                == split_semis_from(p@, 0),
        decreases p.len() - i,
    {
        if p[i] == ';' {
            proof {
                lemma_semi_pos(p@, start as int);
                if semi_pos(p@, start as int) < i {
                    assert(p@[semi_pos(p@, start as int)] == ';');
                }
                assert(semi_pos(p@, start as int) == i);
            }
            let ghost before = parts@;
            let done = cur;
            parts.push(done);
            cur = Vec::new();
            proof {
                assert(parts@.map_values(|v: Vec<char>| v@) =~= before.map_values(|v: Vec<char>| v@).push(
                    p@.subrange(start as int, i as int),
                ));
                assert(parts@.map_values(|v: Vec<char>| v@) + split_semis_from(p@, i + 1) =~= before.map_values(
                    |v: Vec<char>| v@,
                ) + split_semis_from(p@, start as int));
                assert(cur@ =~= p@.subrange(i + 1, i + 1));
            }
            start = i + 1;
        } else {
            cur.push(p[i]);
            assert(cur@ =~= p@.subrange(start as int, i + 1));
        }
        i = i + 1;
    }
    proof {
        lemma_semi_pos(p@, start as int);
        if semi_pos(p@, start as int) < p@.len() {
            assert(p@[semi_pos(p@, start as int)] == ';');
        }
    }
    let ghost before = parts@;
    parts.push(cur);
    proof {
        assert(parts@.map_values(|v: Vec<char>| v@) =~= before.map_values(|v: Vec<char>| v@)
            + split_semis_from(p@, start as int));
    }
    parts
}

/// Whether `c` is an ASCII decimal digit.
pub open spec fn is_digit(c: char) -> bool {
    '0' <= c <= '9'
}

/// Value of a sequence of decimal digits.
pub open spec fn digits_value(d: Seq<char>) -> nat
    decreases d.len(),
{
    if d.len() == 0 {
        0
    } else {
        digits_value(d.drop_last()) * 10 + ((d.last() as u32) - ('0' as u32)) as nat
    }
}

/// The value `str::parse::<u8>` gives: an optional `+`, then at least one digit,
/// and a value at most 255.
/// The digits part of a number: without its leading `+`, if any.
pub open spec fn u8_digits(s: Seq<char>) -> Seq<char> {
    if s.len() > 0 && s[0] == '+' {
        s.drop_first()
    } else {
        s
    }
}

pub open spec fn parse_u8_spec(s: Seq<char>) -> Option<u8> {
    let d = u8_digits(s);
    if d.len() > 0 && (forall|k: int| 0 <= k < d.len() ==> is_digit(#[trigger] d[k]))
        && digits_value(d) <= 255 {
        Some(digits_value(d) as u8)
    } else {
        None
    }
}

/// Parses a decimal `u8` the way `str::parse::<u8>` does.
pub fn parse_u8(s: &Vec<char>) -> (r: Option<u8>)
    ensures
        r == parse_u8_spec(s@),
{
    let start: usize = if s.len() > 0 && s[0] == '+' {
        1
    } else {
        0
    };
    let ghost d = u8_digits(s@);
    assert(d =~= s@.subrange(start as int, s@.len() as int));
    if start >= s.len() {
        return None;
    }
    let mut acc: u32 = 0;
    let mut i = start;
    while i < s.len()
        invariant
            start <= i <= s@.len(),
            d == s@.subrange(start as int, s@.len() as int),
            d == u8_digits(s@),
            forall|k: int| start <= k < i ==> is_digit(s@[k]),
            acc as nat == if digits_value(s@.subrange(start as int, i as int)) < 256 {
                digits_value(s@.subrange(start as int, i as int))
            } else {
                256
            },
        decreases s.len() - i,
    {
        let ch = s[i];
        if !('0' <= ch && ch <= '9') {
            proof {
                assert(d[i - start] == ch);
                assert(!is_digit(d[i - start]));
            }
            return None;
        }
        let dv = (ch as u32) - ('0' as u32);
        proof {
            let pre = s@.subrange(start as int, i as int);
            let nxt = s@.subrange(start as int, i + 1);
            assert(nxt.drop_last() =~= pre);
            assert(nxt.last() == ch);
        }
        if acc >= 256 {
            acc = 256;
        } else {
            let na = acc * 10 + dv;
            acc = if na >= 256 { 256 } else { na };
        }
        i = i + 1;
    }
    proof {
        assert(s@.subrange(start as int, s@.len() as int) == d);
        assert forall|k: int| 0 <= k < d.len() implies is_digit(#[trigger] d[k]) by {
            assert(d[k] == s@[start + k]);
        }
    }
    if acc <= 255 {
        Some(acc as u8)
    } else {
        None
    }
}

/// Whether `v` holds exactly the characters `a`, `b`.
fn is2(v: &Vec<char>, a: char, b: char) -> (r: bool)
    ensures
        r == (v@ == seq![a, b]),
{
    let r = v.len() == 2 && v[0] == a && v[1] == b;
    proof {
        if v@.len() == 2 && v@[0] == a && v@[1] == b {
            assert(v@ =~= seq![a, b]);
        }
    }
    r
}

/// Whether `v` holds exactly the character `a`.
fn is1(v: &Vec<char>, a: char) -> (r: bool)
    ensures
        r == (v@ == seq![a]),
{
    let r = v.len() == 1 && v[0] == a;
    proof {
        if v@.len() == 1 && v@[0] == a {
            assert(v@ =~= seq![a]);
        }
    }
    r
}

/// The colour of an SGR index `i` in 0..8 of the basic palette.
pub open spec fn basic_color(i: int) -> Color {
    if i == 0 {
        Color::Black
    } else if i == 1 {
        Color::Red
    } else if i == 2 {
        Color::Green
    } else if i == 3 {
        Color::Yellow
    } else if i == 4 {
        Color::Blue
    } else if i == 5 {
        Color::Magenta
    } else if i == 6 {
        Color::Cyan
    } else {
        Color::Gray
    }
}

/// The colour of an SGR index `i` in 0..8 of the bright palette.
pub open spec fn bright_color(i: int) -> Color {
    if i == 0 {
        Color::DarkGray
    } else if i == 1 {
        Color::LightRed
    } else if i == 2 {
        Color::LightGreen
    } else if i == 3 {
        Color::LightYellow
    } else if i == 4 {
        Color::LightBlue
    } else if i == 5 {
        Color::LightMagenta
    } else if i == 6 {
        Color::LightCyan
    } else {
        Color::White
    }
}

/// The foreground colour that parameter `s` selects: `30`..`37` the basic
/// palette, `90`..`97` the bright one.
pub open spec fn fg_color_spec(s: Seq<char>) -> Option<Color> {
    if s.len() == 2 && s[0] == '3' && '0' <= s[1] <= '7' {
        Some(basic_color(s[1] as int - '0' as int))
    } else if s.len() == 2 && s[0] == '9' && '0' <= s[1] <= '7' {
        Some(bright_color(s[1] as int - '0' as int))
    } else {
        None
    }
}

/// The background colour that parameter `s` selects: `40`..`47` the basic
/// palette, `100`..`107` the bright one.
pub open spec fn bg_color_spec(s: Seq<char>) -> Option<Color> {
    if s.len() == 2 && s[0] == '4' && '0' <= s[1] <= '7' {
        Some(basic_color(s[1] as int - '0' as int))
    } else if s.len() == 3 && s[0] == '1' && s[1] == '0' && '0' <= s[2] <= '7' {
        Some(bright_color(s[2] as int - '0' as int))
    } else {
        None
    }
}

fn basic_color_exec(d: char) -> (c: Color)
    requires
        '0' <= d <= '7',
    ensures
        c == basic_color(d as int - '0' as int),
{
    if d == '0' {
        Color::Black
    } else if d == '1' {
        Color::Red
    } else if d == '2' {
        Color::Green
    } else if d == '3' {
        Color::Yellow
    } else if d == '4' {
        Color::Blue
    } else if d == '5' {
        Color::Magenta
    } else if d == '6' {
        Color::Cyan
    } else {
        Color::Gray
    }
}

fn bright_color_exec(d: char) -> (c: Color)
    requires
        '0' <= d <= '7',
    ensures
        c == bright_color(d as int - '0' as int),
{
    if d == '0' {
        Color::DarkGray
    } else if d == '1' {
        Color::LightRed
    } else if d == '2' {
        Color::LightGreen
    } else if d == '3' {
        Color::LightYellow
    } else if d == '4' {
        Color::LightBlue
    } else if d == '5' {
        Color::LightMagenta
    } else if d == '6' {
        Color::LightCyan
    } else {
        Color::White
    }
}

/// Foreground colour of an SGR parameter, if it is one.
fn fg_color(s: &Vec<char>) -> (r: Option<Color>)
    ensures
        r == fg_color_spec(s@),
{
    if s.len() == 2 && s[0] == '3' && '0' <= s[1] && s[1] <= '7' {
        Some(basic_color_exec(s[1]))
    } else if s.len() == 2 && s[0] == '9' && '0' <= s[1] && s[1] <= '7' {
        Some(bright_color_exec(s[1]))
    } else {
        None
    }
}

/// Background colour of an SGR parameter, if it is one.
fn bg_color(s: &Vec<char>) -> (r: Option<Color>)
    ensures
        r == bg_color_spec(s@),
{
    if s.len() == 2 && s[0] == '4' && '0' <= s[1] && s[1] <= '7' {
        Some(basic_color_exec(s[1]))
    } else if s.len() == 3 && s[0] == '1' && s[1] == '0' && '0' <= s[2] && s[2] <= '7' {
        Some(bright_color_exec(s[2]))
    } else {
        None
    }
}

pub open spec fn m_bold() -> Modifier {
    Modifier { bold: true, ..Modifier::spec_empty() }
}

pub open spec fn m_dim() -> Modifier {
    Modifier { dim: true, ..Modifier::spec_empty() }
}

pub open spec fn m_italic() -> Modifier {
    Modifier { italic: true, ..Modifier::spec_empty() }
}

pub open spec fn m_underlined() -> Modifier {
    Modifier { underlined: true, ..Modifier::spec_empty() }
}

/// The style after applying the parameters `parts[i..]` to `style`.
pub open spec fn apply_parts(parts: Seq<Seq<char>>, i: int, style: Style) -> Style
    decreases parts.len() - i,
{
    if i < 0 || i >= parts.len() {
        style
    } else {
        let p = parts[i];
        if p == seq!['0'] {
            apply_parts(parts, i + 1, Style::spec_default())
        } else if p == seq!['1'] {
            apply_parts(parts, i + 1, style.spec_add(m_bold()))
        } else if p == seq!['2'] {
            apply_parts(parts, i + 1, style.spec_add(m_dim()))
        } else if p == seq!['3'] {
            apply_parts(parts, i + 1, style.spec_add(m_italic()))
        } else if p == seq!['4'] {
            apply_parts(parts, i + 1, style.spec_add(m_underlined()))
        } else if p == seq!['2', '2'] {
            apply_parts(parts, i + 1, style.spec_remove(m_bold().spec_union(m_dim())))
        } else if p == seq!['2', '3'] {
            apply_parts(parts, i + 1, style.spec_remove(m_italic()))
        } else if p == seq!['2', '4'] {
            apply_parts(parts, i + 1, style.spec_remove(m_underlined()))
        } else if p == seq!['3', '8'] && i + 2 < parts.len() && parts[i + 1] == seq!['5'] {
            let s2 = match parse_u8_spec(parts[i + 2]) {
                Some(n) => style.spec_fg(Color::Indexed(n)),
                None => style,
            };
            apply_parts(parts, i + 3, s2)
        } else if p == seq!['4', '8'] && i + 2 < parts.len() && parts[i + 1] == seq!['5'] {
            let s2 = match parse_u8_spec(parts[i + 2]) {
                Some(n) => style.spec_bg(Color::Indexed(n)),
                None => style,
            };
            apply_parts(parts, i + 3, s2)
        } else if p == seq!['3', '9'] {
            apply_parts(parts, i + 1, style.spec_fg(Color::Reset))
        } else if p == seq!['4', '9'] {
            apply_parts(parts, i + 1, style.spec_bg(Color::Reset))
        } else if fg_color_spec(p) is Some {
            apply_parts(parts, i + 1, style.spec_fg(fg_color_spec(p)->0))
        } else if bg_color_spec(p) is Some {
            apply_parts(parts, i + 1, style.spec_bg(bg_color_spec(p)->0))
        } else {
            apply_parts(parts, i + 1, style)
        }
    }
}

/// The style after the SGR sequence with parameters `params`: an empty
/// parameter list or `0` resets, otherwise each `;`-separated part applies in turn.
pub open spec fn apply_ansi_spec(params: Seq<char>, style: Style) -> Style {
    if params.len() == 0 || params == seq!['0'] {
        Style::spec_default()
    } else {
        apply_parts(split_semis_from(params, 0), 0, style)
    }
}

/// Applies the SGR parameters `params` (the text between `ESC [` and `m`) to `style`.
pub fn apply_ansi_seq(params: &str, style: Style) -> (r: Style)
    ensures
        r == apply_ansi_spec(params@, style),
{
    let c = chars_of(params);
    apply_sgr_chars(&c, style)
}

/// Applies the SGR parameters given as characters to `style`.
fn apply_sgr_chars(params: &Vec<char>, style: Style) -> (r: Style)
    ensures
        r == apply_ansi_spec(params@, style),
{
    if params.len() == 0 || is1(params, '0') {
        return Style::new();
    }
    let parts = split_semis(params);
    let ghost ps = parts@.map_values(|v: Vec<char>| v@);
    let ghost init = style;
    let mut style = style;
    let mut i: usize = 0;
    while i < parts.len()
        invariant
            ps == parts@.map_values(|v: Vec<char>| v@),
            ps == split_semis_from(params@, 0),
            i <= parts@.len(),
            apply_parts(ps, i as int, style) == apply_parts(ps, 0, init),
        decreases parts.len() - i,
    {
        let ghost gi = i as int;
        let ghost before = style;
        assert(ps[gi] == parts@[gi]@);
        let p = &parts[i];
        if is1(p, '0') {
            style = Style::new();
        } else if is1(p, '1') {
            style = style.add_modifier(Modifier::bold());
        } else if is1(p, '2') {
            style = style.add_modifier(Modifier::dim());
        } else if is1(p, '3') {
            style = style.add_modifier(Modifier::italic());
        } else if is1(p, '4') {
            style = style.add_modifier(Modifier::underlined());
        } else if is2(p, '2', '2') {
            style = style.remove_modifier(Modifier::bold().union(Modifier::dim()));
        } else if is2(p, '2', '3') {
            style = style.remove_modifier(Modifier::italic());
        } else if is2(p, '2', '4') {
            style = style.remove_modifier(Modifier::underlined());
        } else if is2(p, '3', '8') && parts.len() - i > 2 && is1(&parts[i + 1], '5') {
            assert(ps[gi + 1] == parts@[gi + 1]@);
            assert(ps[gi + 2] == parts@[gi + 2]@);
            if let Some(n) = parse_u8(&parts[i + 2]) {
                style = style.fg(Color::Indexed(n));
            }
            i = i + 2;
        } else if is2(p, '4', '8') && parts.len() - i > 2 && is1(&parts[i + 1], '5') {
            assert(ps[gi + 1] == parts@[gi + 1]@);
            assert(ps[gi + 2] == parts@[gi + 2]@);
            if let Some(n) = parse_u8(&parts[i + 2]) {
                style = style.bg(Color::Indexed(n));
            }
            i = i + 2;
        } else if is2(p, '3', '9') {
            style = style.fg(Color::Reset);
        } else if is2(p, '4', '9') {
            style = style.bg(Color::Reset);
        } else {
            match fg_color(p) {
                Some(c) => {
                    style = style.fg(c);
                },
                None => {
                    match bg_color(p) {
                        Some(c) => {
                            style = style.bg(c);
                        },
                        None => {},
                    }
                },
            }
        }
        i = i + 1;
    }
    style
}


/// The text of `buf` as one span in `style`, or nothing when `buf` is empty.
pub open spec fn flush(buf: Seq<char>, style: Style) -> Seq<(Seq<char>, Style)> {
    if buf.len() > 0 {
        seq![(buf, style)]
    } else {
        Seq::empty()
    }
}

/// The spans of `s` from position `i` on, with `style` current and `buf`
/// collected so far: text accumulates in the current style; each SGR sequence
/// (escape, `[`, parameters up to `m`) ends the current span and changes the
/// style; an escape not followed by `[` stays in the text and the character
/// after it is dropped.
pub open spec fn parse_from(s: Seq<char>, i: int, style: Style, buf: Seq<char>) -> Seq<
    (Seq<char>, Style),
>
    decreases s.len() - i,
{
    if i < 0 || i >= s.len() {
        flush(buf, style)
    } else if s[i] == esc() {
        if i + 1 < s.len() && s[i + 1] == '[' {
            proof {
                lemma_m_pos(s, i + 2);
            }
            let params = s.subrange(i + 2, m_pos(s, i + 2));
            flush(buf, style) + parse_from(
                s,
                after_seq(s, i + 2),
                apply_ansi_spec(params, style),
                Seq::empty(),
            )
        } else if i + 2 <= s.len() {
            parse_from(s, i + 2, style, buf.push(esc()))
        } else {
            parse_from(s, s.len() as int, style, buf.push(esc()))
        }
    } else {
        parse_from(s, i + 1, style, buf.push(s[i]))
    }
}

/// Turns a line with ANSI SGR sequences into styled spans.
pub fn parse_ansi_line(s: &str) -> (r: Line)
    ensures
        spans_view(r.spans@) == parse_from(s@, 0, Style::spec_default(), Seq::empty()),
{
    let c = chars_of(s);
    let mut spans: Vec<Span> = Vec::new();
    let mut style = Style::new();
    let mut buf: Vec<char> = Vec::new();
    let mut i: usize = 0;
    let ghost target = parse_from(s@, 0, Style::spec_default(), Seq::empty());
    assert(buf@ =~= Seq::<char>::empty());
    while i < c.len()
        invariant
            c@ == s@,
            i <= c@.len(),
            spans_view(spans@) + parse_from(s@, i as int, style, buf@) == target,
        decreases c.len() - i,
    {
        let ghost gi = i as int;
        if c[i] == '\x1b' {
            if i + 1 < c.len() && c[i + 1] == '[' {
                let ghost before = spans_view(spans@);
                let ghost old_buf = buf@;
                let ghost old_style = style;
                if buf.len() > 0 {
                    let text = string_of(buf.as_slice());
                    spans.push(Span::styled(text, style));
                }
                proof {
                    assert(spans_view(spans@) =~= before + flush(old_buf, old_style));
                }
                let mut j = i + 2;
                while j < c.len() && c[j] != 'm'
                    invariant
                        c@ == s@,
                        gi + 2 <= j <= c@.len(),
                        m_pos(s@, j as int) == m_pos(s@, gi + 2),
                    decreases c.len() - j,
                {
                    j = j + 1;
                }
                let params = sub_chars(&c, i + 2, j);
                proof {
                    lemma_m_pos(s@, gi + 2);
                }
                style = apply_sgr_chars(&params, style);
                buf = Vec::new();
                proof {
                    assert(buf@ =~= Seq::<char>::empty());
                }
                i = if j < c.len() { j + 1 } else { j };
            } else {
                buf.push('\x1b');
                i = if i + 1 < c.len() { i + 2 } else { c.len() };
            }
        } else {
            buf.push(c[i]);
            i = i + 1;
        }
    }
    if buf.len() > 0 {
        let ghost before = spans_view(spans@);
        let text = string_of(buf.as_slice());
        spans.push(Span::styled(text, style));
        proof {
            assert(spans_view(spans@) =~= before + flush(buf@, style));
        }
    } else {
        proof {
            assert(spans_view(spans@) + flush(buf@, style) =~= spans_view(spans@));
        }
    }
    Line { spans }
}


/// Whether every escape met while scanning `s` from `i` opens an SGR
/// sequence (is followed by `[`).
pub open spec fn escapes_open_sequences(s: Seq<char>, i: int) -> bool
    decreases s.len() - i,
{
    if i < 0 || i >= s.len() {
        true
    } else if s[i] == esc() {
        if i + 1 < s.len() && s[i + 1] == '[' {
            proof {
                lemma_m_pos(s, i + 2);
            }
            escapes_open_sequences(s, after_seq(s, i + 2))
        } else {
            false
        }
    } else {
        escapes_open_sequences(s, i + 1)
    }
}

proof fn lemma_parse_text(s: Seq<char>, i: int, style: Style, buf: Seq<char>)
    requires
        0 <= i,
        escapes_open_sequences(s, i),
    ensures
        crate::style::pieces_text(parse_from(s, i, style, buf)) == buf + strip_from(s, i),
    decreases s.len() - i,
{
    if i >= s.len() {
        if buf.len() > 0 {
            crate::style::lemma_pieces_text_single((buf, style));
        }
        assert(buf + Seq::<char>::empty() =~= buf);
    } else if s[i] == esc() {
        lemma_m_pos(s, i + 2);
        let params = s.subrange(i + 2, m_pos(s, i + 2));
        let next = after_seq(s, i + 2);
        lemma_parse_text(s, next, apply_ansi_spec(params, style), Seq::empty());
        crate::style::lemma_pieces_text_append(
            flush(buf, style),
            parse_from(s, next, apply_ansi_spec(params, style), Seq::empty()),
        );
        if buf.len() > 0 {
            crate::style::lemma_pieces_text_single((buf, style));
        }
        assert(Seq::<char>::empty() + strip_from(s, next) =~= strip_from(s, next));
    } else {
        lemma_parse_text(s, i + 1, style, buf.push(s[i]));
        assert(buf.push(s[i]) + strip_from(s, i + 1) =~= buf + (seq![s[i]] + strip_from(s, i + 1)));
    }
}

/// Stripping the escape sequences of a text gives the text of the spans it
/// parses into, when every escape in it opens a sequence. (A lone escape
/// stays in the parsed text but not in the stripped one.)
pub proof fn law_strip_is_parsed_text(s: Seq<char>)
    requires
        escapes_open_sequences(s, 0),
    ensures
        crate::style::pieces_text(parse_from(s, 0, Style::spec_default(), Seq::empty())) == strip_from(s, 0),
{
    lemma_parse_text(s, 0, Style::spec_default(), Seq::empty());
    assert(Seq::<char>::empty() + strip_from(s, 0) =~= strip_from(s, 0));
}


/// The first `m` from `j` on is at `e` when there is none between them.
proof fn lemma_m_pos_at(s: Seq<char>, j: int, e: int)
    requires
        0 <= j <= e < s.len(),
        s[e] == 'm',
        forall|k: int| j <= k < e ==> s[k] != 'm',
    ensures
        m_pos(s, j) == e,
    decreases e - j,
{
    if j < e {
        lemma_m_pos_at(s, j + 1, e);
    }
}

/// Searching for `m` in `x + y` past `x` is searching in `y`.
proof fn lemma_m_pos_shift(x: Seq<char>, y: Seq<char>, j: int)
    requires
        0 <= j,
    ensures
        m_pos(x + y, x.len() + j) == x.len() + m_pos(y, j),
    decreases y.len() - j,
{
    if j < y.len() {
        assert((x + y)[x.len() + j] == y[j]);
        if y[j] != 'm' {
            lemma_m_pos_shift(x, y, j + 1);
        }
    }
}

/// Parsing `x + y` past `x` is parsing `y`.
proof fn lemma_parse_shift(x: Seq<char>, y: Seq<char>, j: int, style: Style, buf: Seq<char>)
    requires
        0 <= j,
    ensures
        parse_from(x + y, x.len() + j, style, buf) == parse_from(y, j, style, buf),
    decreases y.len() - j,
{
    let w = x + y;
    let o = x.len() as int;
    if j < y.len() {
        assert(w[o + j] == y[j]);
        if j + 1 < y.len() {
            assert(w[o + j + 1] == y[j + 1]);
        }
        if y[j] == esc() {
            if j + 1 < y.len() && y[j + 1] == '[' {
                lemma_m_pos_shift(x, y, j + 2);
                lemma_m_pos(y, j + 2);
                assert(w.subrange(o + j + 2, m_pos(w, o + j + 2)) =~= y.subrange(j + 2, m_pos(y, j + 2)));
                assert(after_seq(w, o + j + 2) == o + after_seq(y, j + 2));
                let params = y.subrange(j + 2, m_pos(y, j + 2));
                lemma_parse_shift(x, y, after_seq(y, j + 2), apply_ansi_spec(params, style), Seq::empty());
            } else if j + 2 <= y.len() {
                lemma_parse_shift(x, y, j + 2, style, buf.push(esc()));
            } else {
                assert(parse_from(w, w.len() as int, style, buf.push(esc())) == flush(buf.push(esc()), style));
                assert(parse_from(y, y.len() as int, style, buf.push(esc())) == flush(buf.push(esc()), style));
            }
        } else {
            lemma_parse_shift(x, y, j + 1, style, buf.push(y[j]));
        }
    }
}

/// Text without escapes from `k` up to `n` is collected into the current span.
proof fn lemma_parse_plain_run(w: Seq<char>, n: int, k: int, style: Style, buf: Seq<char>)
    requires
        0 <= k <= n <= w.len(),
        forall|j: int| k <= j < n ==> w[j] != esc(),
    ensures
        parse_from(w, k, style, buf) == parse_from(w, n, style, buf + w.subrange(k, n)),
    decreases n - k,
{
    if k < n {
        lemma_parse_plain_run(w, n, k + 1, style, buf.push(w[k]));
        assert(buf.push(w[k]) + w.subrange(k + 1, n) =~= buf + w.subrange(k, n));
    } else {
        assert(buf + w.subrange(n, n) =~= buf);
    }
}

/// An SGR sequence ends the span of the text before it, and the text after
/// it is parsed in the style the sequence's parameters make of the style in
/// effect: the styles of the spans accumulate the sequences met so far, in
/// order.
pub proof fn law_sequence_sets_style(t: Seq<char>, params: Seq<char>, rest: Seq<char>, style: Style)
    requires
        forall|k: int| 0 <= k < t.len() ==> t[k] != esc(),
        forall|k: int| 0 <= k < params.len() ==> params[k] != 'm',
    ensures
        parse_from(t + seq![esc(), '['] + params + seq!['m'] + rest, 0, style, Seq::empty())
            == flush(t, style) + parse_from(rest, 0, apply_ansi_spec(params, style), Seq::empty()),
{
    let x = t + seq![esc(), '['] + params + seq!['m'];
    let w = t + seq![esc(), '['] + params + seq!['m'] + rest;
    assert(w =~= x + rest);
    let n = t.len() as int;
    let e = n + 2 + params.len();
    assert forall|j: int| 0 <= j < n implies w[j] != esc() by {
        assert(w[j] == t[j]);
    }
    lemma_parse_plain_run(w, n, 0, style, Seq::empty());
    assert(Seq::<char>::empty() + w.subrange(0, n) =~= t);
    assert(w[n] == esc());
    assert(w[n + 1] == '[');
    assert(w[e] == 'm');
    assert forall|k: int| n + 2 <= k < e implies w[k] != 'm' by {
        assert(w[k] == params[k - n - 2]);
    }
    lemma_m_pos_at(w, n + 2, e);
    assert(w.subrange(n + 2, e) =~= params);
    assert(after_seq(w, n + 2) == x.len());
    lemma_parse_shift(x, rest, 0, apply_ansi_spec(params, style), Seq::empty());
}

proof fn lemma_parse_nonempty(s: Seq<char>, i: int, style: Style, buf: Seq<char>)
    requires
        0 <= i,
    ensures
        forall|k: int|
            0 <= k < parse_from(s, i, style, buf).len() ==> (#[trigger] parse_from(s, i, style, buf)[k]).0.len()
                > 0,
    decreases s.len() - i,
{
    if i < s.len() {
        if s[i] == esc() {
            if i + 1 < s.len() && s[i + 1] == '[' {
                lemma_m_pos(s, i + 2);
                let params = s.subrange(i + 2, m_pos(s, i + 2));
                let next = after_seq(s, i + 2);
                let rest = parse_from(s, next, apply_ansi_spec(params, style), Seq::empty());
                lemma_parse_nonempty(s, next, apply_ansi_spec(params, style), Seq::empty());
                let all = flush(buf, style) + rest;
                assert(parse_from(s, i, style, buf) == all);
                assert forall|k: int| 0 <= k < all.len() implies (#[trigger] all[k]).0.len() > 0 by {
                    if k >= flush(buf, style).len() {
                        assert(all[k] == rest[k - flush(buf, style).len()]);
                    }
                }
            } else if i + 2 <= s.len() {
                lemma_parse_nonempty(s, i + 2, style, buf.push(esc()));
                assert(parse_from(s, i, style, buf) == parse_from(s, i + 2, style, buf.push(esc())));
            } else {
                lemma_parse_nonempty(s, s.len() as int, style, buf.push(esc()));
                assert(parse_from(s, i, style, buf) == parse_from(s, s.len() as int, style, buf.push(esc())));
            }
        } else {
            lemma_parse_nonempty(s, i + 1, style, buf.push(s[i]));
            assert(parse_from(s, i, style, buf) == parse_from(s, i + 1, style, buf.push(s[i])));
        }
    } else {
        assert(parse_from(s, i, style, buf) == flush(buf, style));
    }
}

/// Parsing a line never gives a span without text.
pub proof fn law_spans_not_empty(s: Seq<char>)
    ensures
        forall|k: int|
            0 <= k < parse_from(s, 0, Style::spec_default(), Seq::empty()).len() ==> (#[trigger] parse_from(
                s,
                0,
                Style::spec_default(),
                Seq::empty(),
            )[k]).0.len() > 0,
{
    lemma_parse_nonempty(s, 0, Style::spec_default(), Seq::empty());
}

/// The first `;` from `j` on is at `e` when there is none between them (or
/// none at all, `e` being the end).
proof fn lemma_semi_pos_at(s: Seq<char>, j: int, e: int)
    requires
        0 <= j <= e <= s.len(),
        e < s.len() ==> s[e] == ';',
        forall|k: int| j <= k < e ==> s[k] != ';',
    ensures
        semi_pos(s, j) == e,
    decreases e - j,
{
    if j < e {
        lemma_semi_pos_at(s, j + 1, e);
    }
}

/// A parameter list without `;` is one part.
proof fn lemma_split_single(a: Seq<char>)
    requires
        forall|k: int| 0 <= k < a.len() ==> a[k] != ';',
    ensures
        split_semis_from(a, 0) == seq![a],
{
    lemma_semi_pos_at(a, 0, a.len() as int);
    assert(a.subrange(0, a.len() as int) =~= a);
}

/// The parameters of a sequence apply in turn: applying `a;b` is applying
/// `a` and then `b`, for non-empty parameters without `;`.
pub proof fn law_joined_params_apply_in_turn(a: Seq<char>, b: Seq<char>, style: Style)
    requires
        a.len() > 0,
        b.len() > 0,
        forall|k: int| 0 <= k < a.len() ==> a[k] != ';',
        forall|k: int| 0 <= k < b.len() ==> b[k] != ';',
    ensures
        apply_ansi_spec(a + seq![';'] + b, style) == apply_ansi_spec(b, apply_ansi_spec(a, style)),
{
    let p = a + seq![';'] + b;
    let n = a.len() as int;
    assert forall|k: int| 0 <= k < n implies p[k] != ';' by {
        assert(p[k] == a[k]);
    }
    assert(p[n] == ';');
    lemma_semi_pos_at(p, 0, n);
    assert forall|k: int| n + 1 <= k < p.len() implies p[k] != ';' by {
        assert(p[k] == b[k - n - 1]);
    }
    lemma_semi_pos_at(p, n + 1, p.len() as int);
    assert(p.subrange(0, n) =~= a);
    assert(p.subrange(n + 1, p.len() as int) =~= b);
    assert(split_semis_from(p, n + 1) == seq![b]);
    assert(split_semis_from(p, 0) =~= seq![a, b]);
    lemma_split_single(a);
    lemma_split_single(b);
    assert(p != seq!['0']) by {
        if p.len() == 1 {
            assert(false);
        }
    }
    let ps = seq![a, b];
    assert(apply_ansi_spec(p, style) == apply_parts(ps, 0, style));
    lemma_apply_first_of_two(a, b, style);
    lemma_apply_single(a, style);
    let s1 = apply_ansi_spec(a, style);
    lemma_apply_last(ps, 1, s1);
    assert(ps[1] == b);
    lemma_apply_single(b, s1);
}

/// A lone parameter applies as the whole parameter list.
proof fn lemma_apply_single(a: Seq<char>, style: Style)
    requires
        a.len() > 0,
        forall|k: int| 0 <= k < a.len() ==> a[k] != ';',
    ensures
        apply_ansi_spec(a, style) == apply_parts(seq![a], 0, style),
{
    lemma_split_single(a);
    if a == seq!['0'] {
        reveal_with_fuel(apply_parts, 2);
    }
}

/// The last parameter of a list applies as it would alone.
proof fn lemma_apply_last(ps: Seq<Seq<char>>, i: int, style: Style)
    requires
        0 <= i,
        i + 1 == ps.len(),
    ensures
        apply_parts(ps, i, style) == apply_parts(seq![ps[i]], 0, style),
{
    reveal_with_fuel(apply_parts, 2);
}

/// The first of two parameters applies as it would alone, before the second.
#[verifier::rlimit(40)]
proof fn lemma_apply_first_of_two(a: Seq<char>, b: Seq<char>, style: Style)
    ensures
        apply_parts(seq![a, b], 0, style) == apply_parts(seq![a, b], 1, apply_parts(seq![a], 0, style)),
{
    reveal_with_fuel(apply_parts, 2);
}

} // verus!
