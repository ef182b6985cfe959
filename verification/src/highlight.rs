//! Syntax highlighting of fenced code blocks.

use vstd::prelude::*;

use syntect::easy::HighlightLines;
use syntect::highlighting::{FontStyle, ThemeSet};
use syntect::parsing::SyntaxSet;

use crate::style::{span_view, spans_view, Color, Modifier, Span, Style};
use crate::text::{pieces_from, split_pieces, string_of, vv};

verus! {

/// One highlighted token: its foreground colour, font flags and text.
#[derive(Debug)]
pub struct HlToken {
    pub r: u8,
    pub g: u8,
    pub b: u8,
    pub bold: bool,
    pub italic: bool,
    pub underline: bool,
    pub text: String,
}

/// The plain value of a token.
pub type TokV = (u8, u8, u8, bool, bool, bool, Seq<char>);

pub open spec fn token_view(t: HlToken) -> TokV {
    (t.r, t.g, t.b, t.bold, t.italic, t.underline, t.text@)
}

pub open spec fn token_lines_view(v: Seq<Vec<HlToken>>) -> Seq<Seq<TokV>> {
    v.map_values(|l: Vec<HlToken>| l@.map_values(|t: HlToken| token_view(t)))
}

pub open spec fn strings_view(v: Seq<String>) -> Seq<Seq<char>> {
    v.map_values(|s: String| s@)
}

/// The tokens `syntect` gives for `lines`, highlighted one after the other
/// with the default syntaxes (the syntax `language` names, else plain text) and
/// the default theme `base16-ocean.dark`; nothing when it reports an error.
pub uninterp spec fn syntect_tokens(language: Seq<char>, lines: Seq<Seq<char>>) -> Option<
    Seq<Seq<TokV>>,
>;

/// Highlights `lines` in order with one `syntect::easy::HighlightLines` for
/// the syntax found by `SyntaxSet::find_syntax_by_token(language)` (plain text
/// when none) in the default syntax set and the theme `base16-ocean.dark` of the
/// default theme set. Its result is named by `syntect_tokens`; one token line
/// comes out per line that goes in, or nothing when `highlight_line` fails.
#[verifier::external_body]
fn syntax_highlight(language: &str, lines: &Vec<String>) -> (r: Option<Vec<Vec<HlToken>>>)
    ensures
        match r {
            Some(v) => {
                &&& syntect_tokens(language@, strings_view(lines@)) == Some(token_lines_view(v@))
                &&& v@.len() == lines@.len()
            },
            None => syntect_tokens(language@, strings_view(lines@)) is None,
        },
{
    let ss = SyntaxSet::load_defaults_newlines();
    let ts = ThemeSet::load_defaults();
    let syntax = ss.find_syntax_by_token(language).unwrap_or_else(|| ss.find_syntax_plain_text());
    let mut h = HighlightLines::new(syntax, &ts.themes["base16-ocean.dark"]);
    lines.iter().map(|l| h.highlight_line(l, &ss).ok().map(|toks| toks.iter().map(|(s, t)| HlToken {
        r: s.foreground.r, g: s.foreground.g, b: s.foreground.b,
        bold: s.font_style.contains(FontStyle::BOLD), italic: s.font_style.contains(FontStyle::ITALIC),
        underline: s.font_style.contains(FontStyle::UNDERLINE), text: t.to_string(),
    }).collect())).collect()
}

/// `x` without its trailing characters `c`.
pub open spec fn trim_end(x: Seq<char>, c: char) -> Seq<char>
    decreases x.len(),
{
    if x.len() > 0 && x.last() == c {
        trim_end(x.drop_last(), c)
    } else {
        x
    }
}

/// A piece without its trailing line feeds, then without its trailing carriage returns.
pub open spec fn trim_piece(x: Seq<char>) -> Seq<char> {
    trim_end(trim_end(x, '\n'), '\r')
}

/// Whether a piece holds nothing but its line ending.
pub open spec fn is_blank_piece(x: Seq<char>) -> bool {
    trim_piece(x).len() == 0 && x.len() > 0 && x.last() == '\n'
}

/// The trimmed pieces that are handed to the highlighter: all but the blank ones.
pub open spec fn sent_lines(ps: Seq<Seq<char>>) -> Seq<Seq<char>>
    decreases ps.len(),
{
    if ps.len() == 0 {
        Seq::empty()
    } else if is_blank_piece(ps.last()) {
        sent_lines(ps.drop_last())
    } else {
        sent_lines(ps.drop_last()).push(trim_piece(ps.last()))
    }
}

/// The style of a token: its colour, the block background if any, then its font flags.
pub open spec fn token_style(t: TokV, bg: Option<Color>) -> Style {
    let s1 = Style::spec_default().spec_fg(Color::Rgb(t.0, t.1, t.2));
    let s2 = match bg {
        Some(c) => s1.spec_bg(c),
        None => s1,
    };
    let s3 = if t.3 {
        s2.spec_add(Modifier { bold: true, ..Modifier::spec_empty() })
    } else {
        s2
    };
    let s4 = if t.4 {
        s3.spec_add(Modifier { italic: true, ..Modifier::spec_empty() })
    } else {
        s3
    };
    if t.5 {
        s4.spec_add(Modifier { underlined: true, ..Modifier::spec_empty() })
    } else {
        s4
    }
}

/// The texts of a line of tokens, concatenated.
pub open spec fn tokens_text(ts: Seq<TokV>) -> Seq<char>
    decreases ts.len(),
{
    if ts.len() == 0 {
        Seq::empty()
    } else {
        tokens_text(ts.drop_last()) + ts.last().6
    }
}

/// A highlighted line: one span per token, and its plain text.
pub open spec fn token_entry(ts: Seq<TokV>, bg: Option<Color>) -> (Seq<(Seq<char>, Style)>, Seq<char>) {
    (ts.map_values(|t: TokV| (t.6, token_style(t, bg))), tokens_text(ts))
}

/// The line that stands for a blank piece: one unstyled line feed, no text.
pub open spec fn blank_entry() -> (Seq<(Seq<char>, Style)>, Seq<char>) {
    (seq![("\n"@, Style::spec_default())], Seq::empty())
}

/// The highlighted lines of the pieces `ps`, taking the token lines `toks`
/// in order for the pieces that are not blank.
pub open spec fn combine(ps: Seq<Seq<char>>, toks: Seq<Seq<TokV>>, bg: Option<Color>) -> Seq<
    (Seq<(Seq<char>, Style)>, Seq<char>),
>
    decreases ps.len(),
{
    if ps.len() == 0 || (toks.len() == 0 && !is_blank_piece(ps.last())) {
        Seq::empty()
    } else if is_blank_piece(ps.last()) {
        combine(ps.drop_last(), toks, bg).push(blank_entry())
    } else {
        combine(ps.drop_last(), toks.drop_last(), bg).push(token_entry(toks.last(), bg))
    }
}

/// The highlighted lines of a code block, or nothing when the highlighter fails.
pub open spec fn highlight_spec(language: Seq<char>, code: Seq<char>, bg: Option<Color>) -> Option<
    Seq<(Seq<(Seq<char>, Style)>, Seq<char>)>,
> {
    let ps = pieces_from(code, 0);
    match syntect_tokens(language, sent_lines(ps)) {
        Some(t) => Some(combine(ps, t, bg)),
        None => None,
    }
}

pub open spec fn entries_view(v: Seq<(Vec<Span>, Vec<char>)>) -> Seq<
    (Seq<(Seq<char>, Style)>, Seq<char>),
> {
    v.map_values(|e: (Vec<Span>, Vec<char>)| (spans_view(e.0@), e.1@))
}

fn trim_end_exec(x: &Vec<char>, c: char) -> (r: usize)
    ensures
        r <= x@.len(),
        x@.subrange(0, r as int) == trim_end(x@, c),
{
    let mut n = x.len();
    assert(x@.subrange(0, n as int) =~= x@);
    while n > 0 && x[n - 1] == c
        invariant
            n <= x@.len(),
            trim_end(x@.subrange(0, n as int), c) == trim_end(x@, c),
        decreases n,
    {
        assert(x@.subrange(0, n as int).drop_last() =~= x@.subrange(0, n - 1));
        n = n - 1;
    }
    n
}

/// Trims a piece; returns the trimmed characters.
fn trim_piece_exec(x: &Vec<char>) -> (r: Vec<char>)
    ensures
        r@ == trim_piece(x@),
{
    let n1 = trim_end_exec(x, '\n');
    let y = crate::text::sub_chars(x, 0, n1);
    let n2 = trim_end_exec(&y, '\r');
    crate::text::sub_chars(&y, 0, n2)
}

proof fn lemma_tokens_entry_step(ts: Seq<TokV>, bg: Option<Color>)
    requires
        ts.len() > 0,
    ensures
        token_entry(ts, bg).0 == token_entry(ts.drop_last(), bg).0.push(
            (ts.last().6, token_style(ts.last(), bg)),
        ),
        token_entry(ts, bg).1 == token_entry(ts.drop_last(), bg).1 + ts.last().6,
{
    assert(token_entry(ts, bg).0 =~= token_entry(ts.drop_last(), bg).0.push(
        (ts.last().6, token_style(ts.last(), bg)),
    ));
}

/// The spans and text of one line of tokens.
fn token_line(toks: &Vec<HlToken>, bg: Option<Color>) -> (r: (Vec<Span>, Vec<char>))
    ensures
        (spans_view(r.0@), r.1@) == token_entry(toks@.map_values(|t: HlToken| token_view(t)), bg),
{
    let ghost tv = toks@.map_values(|t: HlToken| token_view(t));
    let mut spans: Vec<Span> = Vec::new();
    let mut raw: Vec<char> = Vec::new();
    let mut i: usize = 0;
    assert(spans_view(spans@) =~= token_entry(tv.subrange(0, 0), bg).0);
    assert(raw@ =~= token_entry(tv.subrange(0, 0), bg).1);
    while i < toks.len()
        invariant
            i <= toks@.len(),
            tv == toks@.map_values(|t: HlToken| token_view(t)),
            (spans_view(spans@), raw@) == token_entry(tv.subrange(0, i as int), bg),
        decreases toks.len() - i,
    {
        let t = &toks[i];
        let mut s = Style::new().fg(Color::Rgb(t.r, t.g, t.b));
        if let Some(c) = bg {
            s = s.bg(c);
        }
        if t.bold {
            s = s.add_modifier(Modifier::bold());
        }
        if t.italic {
            s = s.add_modifier(Modifier::italic());
        }
        if t.underline {
            s = s.add_modifier(Modifier::underlined());
        }
        let ghost before = spans@;
        spans.push(Span::styled(t.text.clone(), s));
        let mut tc = crate::text::chars_of(t.text.as_str());
        raw.append(&mut tc);
        proof {
            let sub = tv.subrange(0, i + 1);
            assert(sub.drop_last() =~= tv.subrange(0, i as int));
            assert(sub.last() == token_view(*t));
            lemma_tokens_entry_step(sub, bg);
            assert(spans_view(spans@) =~= spans_view(before).push((t.text@, s)));
        }
        i = i + 1;
    }
    assert(tv.subrange(0, toks@.len() as int) =~= tv);
    (spans, raw)
}

/// The highlighted lines of a code block in `language`, with the block
/// background `bg`, or nothing when the highlighter fails.
pub fn highlight_code(language: &str, code: &Vec<char>, bg: Option<Color>) -> (r: Option<
    Vec<(Vec<Span>, Vec<char>)>,
>)
    ensures
        match r {
            Some(v) => highlight_spec(language@, code@, bg) == Some(entries_view(v@)),
            None => highlight_spec(language@, code@, bg) is None,
        },
{
    let pieces = split_pieces(code);
    let ghost ps = vv(pieces@);
    let mut sent: Vec<String> = Vec::new();
    let mut i: usize = 0;
    while i < pieces.len()
        invariant
            i <= pieces@.len(),
            ps == vv(pieces@),
            strings_view(sent@) == sent_lines(ps.subrange(0, i as int)),
        decreases pieces.len() - i,
    {
        let p = &pieces[i];
        let t = trim_piece_exec(p);
        let b = t.len() == 0 && p.len() > 0 && p[p.len() - 1] == '\n';
        proof {
            let sub = ps.subrange(0, i + 1);
            assert(sub.drop_last() =~= ps.subrange(0, i as int));
            assert(sub.last() == p@);
        }
        if !b {
            let ghost before = sent@;
            sent.push(string_of(t.as_slice()));
            assert(strings_view(sent@) =~= strings_view(before).push(t@));
        }
        i = i + 1;
    }
    assert(ps.subrange(0, pieces@.len() as int) =~= ps);
    let toks = match syntax_highlight(language, &sent) {
        Some(t) => t,
        None => {
            return None;
        },
    };
    Some(highlighted_lines(&pieces, &toks, bg))
}

/// The highlighted lines of the pieces of a code block, given the token
/// lines of its pieces that are not blank, in order: a blank piece becomes
/// an unstyled line feed, any other takes the next token line.
pub fn highlighted_lines(pieces: &Vec<Vec<char>>, toks: &Vec<Vec<HlToken>>, bg: Option<Color>) -> (r: Vec<
    (Vec<Span>, Vec<char>),
>)
    requires
        toks@.len() == sent_lines(vv(pieces@)).len(),
    ensures
        entries_view(r@) == combine(vv(pieces@), token_lines_view(toks@), bg),
{
    let ghost ps = vv(pieces@);
    let ghost tl = token_lines_view(toks@);
    let ntoks = toks.len();
    let mut out: Vec<(Vec<Span>, Vec<char>)> = Vec::new();
    let mut j: usize = 0;
    let mut ti: usize = 0;
    assert(entries_view(out@) =~= combine(ps.subrange(0, 0), tl.subrange(0, 0), bg));
    while j < pieces.len()
        invariant
            j <= pieces@.len(),
            ps == vv(pieces@),
            tl == token_lines_view(toks@),
            tl.len() == sent_lines(ps).len(),
            ntoks == toks@.len(),
            tl.len() == toks@.len(),
            ti <= tl.len(),
            ti as int == sent_lines(ps.subrange(0, j as int)).len(),
            entries_view(out@) == combine(ps.subrange(0, j as int), tl.subrange(0, ti as int), bg),
        decreases pieces.len() - j,
    {
        proof {
            lemma_sent_prefix(ps, j as int);
        }
        let ghost sub = ps.subrange(0, j + 1);
        proof {
            assert(sub.drop_last() =~= ps.subrange(0, j as int));
            assert(sub.last() == ps[j as int]);
        }
        let ghost before = entries_view(out@);
        let p = &pieces[j];
        let t = trim_piece_exec(p);
        let blank = t.len() == 0 && p.len() > 0 && p[p.len() - 1] == '\n';
        assert(p@ == ps[j as int]);
        if blank {
            let mut sp: Vec<Span> = Vec::new();
            sp.push(Span::raw(String::from_str("\n")));
            let ghost spv = sp@;
            out.push((sp, Vec::new()));
            proof {
                assert(spans_view(spv) =~= blank_entry().0);
                assert(entries_view(out@) =~= before.push(blank_entry()));
            }
        } else {
            assert(ti < ntoks);
            let e = token_line(&toks[ti], bg);
            let ghost ev = (spans_view(e.0@), e.1@);
            out.push(e);
            proof {
                assert(tl[ti as int] == toks@[ti as int]@.map_values(|t: HlToken| token_view(t)));
                assert(tl.subrange(0, ti + 1).drop_last() =~= tl.subrange(0, ti as int));
                assert(entries_view(out@) =~= before.push(ev));
            }
            ti = ti + 1;
        }
        j = j + 1;
    }
    assert(ps.subrange(0, pieces@.len() as int) =~= ps);
    proof {
        assert(tl.subrange(0, ti as int) =~= tl);
    }
    out
}

/// How many of the first `j` pieces go to the highlighter, and that the count
/// grows by one exactly at the pieces that are not blank.
proof fn lemma_sent_prefix(ps: Seq<Seq<char>>, j: int)
    requires
        0 <= j < ps.len(),
    ensures
        sent_lines(ps.subrange(0, j + 1)).len() == sent_lines(ps.subrange(0, j)).len() + (if is_blank_piece(ps[j]) { 0int } else { 1int }),
        sent_lines(ps.subrange(0, j)).len() <= sent_lines(ps).len(),
        !is_blank_piece(ps[j]) ==> sent_lines(ps.subrange(0, j)).len() < sent_lines(ps).len(),
{
    let sub = ps.subrange(0, j + 1);
    assert(sub.drop_last() =~= ps.subrange(0, j));
    lemma_sent_monotone(ps, j + 1);
}

proof fn lemma_sent_monotone(ps: Seq<Seq<char>>, j: int)
    requires
        0 <= j <= ps.len(),
    ensures
        sent_lines(ps.subrange(0, j)).len() <= sent_lines(ps).len(),
    decreases ps.len() - j,
{
    if j < ps.len() {
        lemma_sent_monotone(ps, j + 1);
        let sub = ps.subrange(0, j + 1);
        assert(sub.drop_last() =~= ps.subrange(0, j));
    } else {
        assert(ps.subrange(0, j) =~= ps);
    }
}

} // verus!
