//! Rendering markdown events into styled terminal lines, with a plain-text
//! copy of every line for searching.

use vstd::prelude::*;

use unicode_width::UnicodeWidthStr;

use crate::markdown::{markdown_events, md_events, Align, MdEnd, MdEvent, MdTag};
use crate::style::{
    lemma_pieces_text_append, lemma_pieces_text_single, lemma_spans_text_view, pieces_text,
    span_view, spans_text, spans_view, Color, Line, Modifier, Span, Style,
};
use crate::text::{chars_of, str_is_empty, string_of};
use crate::theme::{fg_for_spec, style_for_spec, Theme, ThemeView};

verus! {

/// A piece of styled text: its characters and its style.
pub type SpanV = (Seq<char>, Style);

/// The colours and modifiers a markdown element is drawn with.
#[derive(Clone, Copy, Debug, PartialEq, Eq, Structural)]
pub struct ThemeStyle {
    pub fg: Option<Color>,
    pub bg: Option<Color>,
    pub bold: bool,
    pub italic: bool,
    pub underline: bool,
    pub strikethrough: bool,
}

impl ThemeStyle {
    /// The terminal style: the colours, then the modifiers added in one go.
    pub open spec fn spec_as_style(self) -> Style {
        let s0 = Style::spec_default();
        let s1 = match self.fg {
            Some(c) => s0.spec_fg(c),
            None => s0,
        };
        let s2 = match self.bg {
            Some(c) => s1.spec_bg(c),
            None => s1,
        };
        s2.spec_add(
            Modifier {
                bold: self.bold,
                dim: false,
                italic: self.italic,
                underlined: self.underline,
                crossed_out: self.strikethrough,
            },
        )
    }

    /// The terminal style of this element style.
    pub fn as_style(&self) -> (r: Style)
        ensures
            r == self.spec_as_style(),
    {
        let mut s = Style::new();
        if let Some(c) = self.fg {
            s = s.fg(c);
        }
        if let Some(c) = self.bg {
            s = s.bg(c);
        }
        let mut mods = Modifier::empty();
        if self.bold {
            mods = mods.union(Modifier::bold());
        }
        if self.italic {
            mods = mods.union(Modifier::italic());
        }
        if self.underline {
            mods = mods.union(Modifier::underlined());
        }
        if self.strikethrough {
            mods = mods.union(Modifier::crossed_out());
        }
        s.add_modifier(mods)
    }
}

/// The element styles a document is rendered with, taken from a theme.
#[derive(Clone, Copy, Debug, PartialEq, Eq, Structural)]
pub struct Renderer {
    pub para: ThemeStyle,
    pub bold: ThemeStyle,
    pub italic: ThemeStyle,
    pub strike: ThemeStyle,
    pub code: ThemeStyle,
    pub code_block: ThemeStyle,
    pub h1: ThemeStyle,
    pub h2: ThemeStyle,
    pub h3: ThemeStyle,
    pub h4: ThemeStyle,
    pub h5: ThemeStyle,
    pub h6: ThemeStyle,
    pub link: ThemeStyle,
    pub table_border: ThemeStyle,
    pub bullet: Option<Color>,
    pub quote_mark: Option<Color>,
    pub rule: Option<Color>,
}

impl Renderer {
    /// The style of headings of level `idx + 1`.
    pub open spec fn heading(self, idx: int) -> ThemeStyle {
        if idx <= 0 {
            self.h1
        } else if idx == 1 {
            self.h2
        } else if idx == 2 {
            self.h3
        } else if idx == 3 {
            self.h4
        } else if idx == 4 {
            self.h5
        } else {
            self.h6
        }
    }

    fn heading_exec(&self, idx: usize) -> (r: ThemeStyle)
        ensures
            r == self.heading(idx as int),
    {
        if idx == 0 {
            self.h1
        } else if idx == 1 {
            self.h2
        } else if idx == 2 {
            self.h3
        } else if idx == 3 {
            self.h4
        } else if idx == 4 {
            self.h5
        } else {
            self.h6
        }
    }
}

/// The element style that a theme's style tuple stands for.
pub open spec fn ts_of(t: (Option<Color>, Option<Color>, bool, bool, bool, bool)) -> ThemeStyle {
    ThemeStyle { fg: t.0, bg: t.1, bold: t.2, italic: t.3, underline: t.4, strikethrough: t.5 }
}

pub open spec fn plain_ts(fg: Option<Color>, bg: Option<Color>) -> ThemeStyle {
    ThemeStyle { fg, bg, bold: false, italic: false, underline: false, strikethrough: false }
}

pub open spec fn or_tuple<T>(a: Option<T>, b: Option<T>) -> Option<T> {
    match a {
        Some(x) => Some(x),
        None => b,
    }
}

/// The styles a theme gives for rendering: each element's own style, else a
/// fallback built on the paragraph colours.
pub open spec fn renderer_spec(t: ThemeView) -> Renderer {
    let para = style_for_spec(t, "paragraph"@);
    let bold = or_tuple(style_for_spec(t, "bold"@), para);
    let italic = or_tuple(style_for_spec(t, "italic"@), para);
    let strike = or_tuple(style_for_spec(t, "strikeout"@), para);
    let def_fg = match para {
        Some(p) => p.0,
        None => None,
    };
    let def_bg = match para {
        Some(p) => p.1,
        None => None,
    };
    Renderer {
        para: plain_ts(def_fg, def_bg),
        bold: match bold {
            Some(x) => ts_of(x),
            None => ThemeStyle { bold: true, ..plain_ts(def_fg, def_bg) },
        },
        italic: match italic {
            Some(x) => ts_of(x),
            None => ThemeStyle { italic: true, ..plain_ts(def_fg, def_bg) },
        },
        strike: match strike {
            Some(x) => ts_of(x),
            None => ThemeStyle { strikethrough: true, ..plain_ts(def_fg, def_bg) },
        },
        code: match style_for_spec(t, "inline_code"@) {
            Some(x) => ts_of(x),
            None => plain_ts(Some(Color::Yellow), def_bg),
        },
        code_block: match style_for_spec(t, "code_block"@) {
            Some(x) => ts_of(x),
            None => plain_ts(def_fg, def_bg),
        },
        h1: heading_spec(t, "heading1"@, def_fg, def_bg, true),
        h2: heading_spec(t, "heading2"@, def_fg, def_bg, true),
        h3: heading_spec(t, "heading3"@, def_fg, def_bg, true),
        h4: heading_spec(t, "heading4"@, def_fg, def_bg, false),
        h5: heading_spec(t, "heading5"@, def_fg, def_bg, false),
        h6: heading_spec(t, "heading6"@, def_fg, def_bg, false),
        link: match style_for_spec(t, "link"@) {
            Some(x) => ts_of(x),
            None => ThemeStyle { underline: true, ..plain_ts(Some(Color::Cyan), None) },
        },
        table_border: match style_for_spec(t, "table"@) {
            Some(x) => plain_ts(x.0, x.1),
            None => plain_ts(Some(Color::DarkGray), None),
        },
        bullet: fg_for_spec(t, "bullet"@),
        quote_mark: fg_for_spec(t, "quote_mark"@),
        rule: fg_for_spec(t, "horizontal_rule"@),
    }
}

pub open spec fn heading_spec(
    t: ThemeView,
    key: Seq<char>,
    def_fg: Option<Color>,
    def_bg: Option<Color>,
    bold: bool,
) -> ThemeStyle {
    match style_for_spec(t, key) {
        Some(x) => ts_of(x),
        None => ThemeStyle { bold, ..plain_ts(def_fg, def_bg) },
    }
}

fn ts_of_exec(t: (Option<Color>, Option<Color>, bool, bool, bool, bool)) -> (r: ThemeStyle)
    ensures
        r == ts_of(t),
{
    ThemeStyle { fg: t.0, bg: t.1, bold: t.2, italic: t.3, underline: t.4, strikethrough: t.5 }
}

fn plain_ts_exec(fg: Option<Color>, bg: Option<Color>) -> (r: ThemeStyle)
    ensures
        r == plain_ts(fg, bg),
{
    ThemeStyle { fg, bg, bold: false, italic: false, underline: false, strikethrough: false }
}

fn heading_exec(
    theme: &Theme,
    key: &str,
    def_fg: Option<Color>,
    def_bg: Option<Color>,
    bold: bool,
) -> (r: ThemeStyle)
    ensures
        r == heading_spec(theme@, key@, def_fg, def_bg, bold),
{
    match theme.style_for(key) {
        Some(x) => ts_of_exec(x),
        None => ThemeStyle { bold, ..plain_ts_exec(def_fg, def_bg) },
    }
}

impl Renderer {
    /// The element styles of `theme`.
    pub fn new(theme: &Theme) -> (r: Renderer)
        ensures
            r == renderer_spec(theme@),
    {
        let para = theme.style_for("paragraph");
        let bold = match theme.style_for("bold") {
            Some(x) => Some(x),
            None => para,
        };
        let italic = match theme.style_for("italic") {
            Some(x) => Some(x),
            None => para,
        };
        let strike = match theme.style_for("strikeout") {
            Some(x) => Some(x),
            None => para,
        };
        let def_fg = match para {
            Some(p) => p.0,
            None => None,
        };
        let def_bg = match para {
            Some(p) => p.1,
            None => None,
        };
        Renderer {
            para: plain_ts_exec(def_fg, def_bg),
            bold: match bold {
                Some(x) => ts_of_exec(x),
                None => ThemeStyle { bold: true, ..plain_ts_exec(def_fg, def_bg) },
            },
            italic: match italic {
                Some(x) => ts_of_exec(x),
                None => ThemeStyle { italic: true, ..plain_ts_exec(def_fg, def_bg) },
            },
            strike: match strike {
                Some(x) => ts_of_exec(x),
                None => ThemeStyle { strikethrough: true, ..plain_ts_exec(def_fg, def_bg) },
            },
            code: match theme.style_for("inline_code") {
                Some(x) => ts_of_exec(x),
                None => plain_ts_exec(Some(Color::Yellow), def_bg),
            },
            code_block: match theme.style_for("code_block") {
                Some(x) => ts_of_exec(x),
                None => plain_ts_exec(def_fg, def_bg),
            },
            h1: heading_exec(theme, "heading1", def_fg, def_bg, true),
            h2: heading_exec(theme, "heading2", def_fg, def_bg, true),
            h3: heading_exec(theme, "heading3", def_fg, def_bg, true),
            h4: heading_exec(theme, "heading4", def_fg, def_bg, false),
            h5: heading_exec(theme, "heading5", def_fg, def_bg, false),
            h6: heading_exec(theme, "heading6", def_fg, def_bg, false),
            link: match theme.style_for("link") {
                Some(x) => ts_of_exec(x),
                None => ThemeStyle { underline: true, ..plain_ts_exec(Some(Color::Cyan), None) },
            },
            table_border: match theme.style_for("table") {
                Some(x) => plain_ts_exec(x.0, x.1),
                None => plain_ts_exec(Some(Color::DarkGray), None),
            },
            bullet: theme.fg_for("bullet"),
            quote_mark: theme.fg_for("quote_mark"),
            rule: theme.fg_for("horizontal_rule"),
        }
    }
}

// ---------------------------------------------------------------------------
// Inline content
// ---------------------------------------------------------------------------

/// `spans` with the text of `buf`, if any, appended as one piece in `base`.
pub open spec fn flush_spec(spans: Seq<SpanV>, buf: Seq<char>, base: ThemeStyle) -> Seq<SpanV> {
    if buf.len() > 0 {
        spans.push((buf, base.spec_as_style()))
    } else {
        spans
    }
}

/// The end event that closes an element opened by `tag`, as skipping looks for it.
pub open spec fn end_of(tag: MdTag) -> MdEnd {
    match tag {
        MdTag::Paragraph => MdEnd::Paragraph,
        MdTag::Heading(l) => MdEnd::Heading(l),
        MdTag::CodeBlock(_) => MdEnd::CodeBlock,
        MdTag::List(_) => MdEnd::List(false),
        MdTag::Item => MdEnd::Item,
        MdTag::FootnoteDefinition => MdEnd::FootnoteDefinition,
        MdTag::Table(_) => MdEnd::Table,
        MdTag::TableHead => MdEnd::TableHead,
        MdTag::TableRow => MdEnd::TableRow,
        MdTag::TableCell => MdEnd::TableCell,
        MdTag::BlockQuote => MdEnd::BlockQuote(false),
        MdTag::Emphasis => MdEnd::Emphasis,
        MdTag::Strong => MdEnd::Strong,
        MdTag::Strikethrough => MdEnd::Strikethrough,
        MdTag::Link(_) => MdEnd::Link,
        MdTag::Image(_) => MdEnd::Image,
        MdTag::Other => MdEnd::Paragraph,
    }
}

fn end_of_exec(tag: &MdTag) -> (r: MdEnd)
    ensures
        r == end_of(*tag),
{
    match tag {
        MdTag::Paragraph => MdEnd::Paragraph,
        MdTag::Heading(l) => MdEnd::Heading(*l),
        MdTag::CodeBlock(_) => MdEnd::CodeBlock,
        MdTag::List(_) => MdEnd::List(false),
        MdTag::Item => MdEnd::Item,
        MdTag::FootnoteDefinition => MdEnd::FootnoteDefinition,
        MdTag::Table(_) => MdEnd::Table,
        MdTag::TableHead => MdEnd::TableHead,
        MdTag::TableRow => MdEnd::TableRow,
        MdTag::TableCell => MdEnd::TableCell,
        MdTag::BlockQuote => MdEnd::BlockQuote(false),
        MdTag::Emphasis => MdEnd::Emphasis,
        MdTag::Strong => MdEnd::Strong,
        MdTag::Strikethrough => MdEnd::Strikethrough,
        MdTag::Link(_) => MdEnd::Link,
        MdTag::Image(_) => MdEnd::Image,
        MdTag::Other => MdEnd::Paragraph,
    }
}

/// The position just after the end event `end`, skipping nested elements
/// whole, from `pos` on; the end of the events when there is none.
pub open spec fn skip_from(ev: Seq<MdEvent>, pos: int, end: MdEnd) -> int
    decreases ev.len() - pos,
{
    if pos < 0 || pos >= ev.len() {
        ev.len() as int
    } else {
        match ev[pos] {
            MdEvent::End(t) => if t == end {
                pos + 1
            } else {
                skip_from(ev, pos + 1, end)
            },
            MdEvent::Start(t) => {
                let p2 = skip_from(ev, pos + 1, end_of(t));
                let q = if p2 > pos && p2 <= ev.len() {
                    p2
                } else {
                    pos + 1
                };
                skip_from(ev, q, end)
            },
            _ => skip_from(ev, pos + 1, end),
        }
    }
}

/// Skips to just after the end event `end`, skipping nested elements whole.
fn skip_to(ev: &Vec<MdEvent>, pos: usize, end: MdEnd) -> (r: usize)
    requires
        pos <= ev@.len(),
    ensures
        r as int == skip_from(ev@, pos as int, end),
        r <= ev@.len(),
    decreases ev@.len() - pos,
{
    let mut p = pos;
    loop
        invariant
            pos <= p <= ev@.len(),
            skip_from(ev@, p as int, end) == skip_from(ev@, pos as int, end),
        decreases ev@.len() - p,
    {
        if p >= ev.len() {
            return ev.len();
        }
        match &ev[p] {
            MdEvent::End(t) => {
                if *t == end {
                    return p + 1;
                }
                p = p + 1;
            },
            MdEvent::Start(t) => {
                let e = end_of_exec(t);
                let p2 = skip_to(ev, p + 1, e);
                p = if p2 > p && p2 <= ev.len() { p2 } else { p + 1 };
            },
            _ => {
                p = p + 1;
            },
        }
    }
}

pub open spec fn url_style() -> Style {
    Style::spec_default().spec_fg(Color::DarkGray).spec_add(Modifier { dim: true, ..Modifier::spec_empty() })
}

/// The piece shown after a link or image: a dash and the destination.
pub open spec fn url_piece(url: Seq<char>) -> SpanV {
    (" ─ "@ + url, url_style())
}

/// The icon put before an image's text.
pub open spec fn image_icon() -> SpanV {
    ("🖼 "@, Style::spec_default().spec_fg(Color::DarkGray))
}

/// The checkbox of a task list item.
pub open spec fn task_piece(checked: bool) -> SpanV {
    (
        if checked { "☑"@ } else { "☐"@ },
        Style::spec_default().spec_fg(if checked { Color::Green } else { Color::Red }).spec_add(
            Modifier { bold: true, ..Modifier::spec_empty() },
        ),
    )
}

/// The pieces of inline content from `pos` up to the end event `end`, in the
/// style `base`, with the pieces `spans` and the pending text `buf` gathered
/// so far; also the position after the end event. Nested emphasis, strong,
/// strikethrough, link and image content takes its own style; code spans take
/// the code style; nested paragraphs, headings and code blocks are skipped;
/// line breaks become spaces, or pieces of their own holding a line feed when
/// `br` holds. At the end of the events the pending text is dropped.
pub open spec fn inline_from(
    r: Renderer,
    ev: Seq<MdEvent>,
    pos: int,
    end: MdEnd,
    base: ThemeStyle,
    br: bool,
    spans: Seq<SpanV>,
    buf: Seq<char>,
) -> (Seq<SpanV>, int)
    decreases ev.len() - pos,
{
    if pos < 0 || pos >= ev.len() {
        (spans, ev.len() as int)
    } else {
        match ev[pos] {
            MdEvent::Start(tag) => {
                let s1 = flush_spec(spans, buf, base);
                match tag {
                    MdTag::Emphasis => {
                        let (c, p2) = inline_from(r, ev, pos + 1, MdEnd::Emphasis, r.italic, br, Seq::empty(), Seq::empty());
                        inline_from(r, ev, if p2 > pos && p2 <= ev.len() { p2 } else { pos + 1 }, end, base, br, s1 + c, Seq::empty())
                    },
                    MdTag::Strong => {
                        let (c, p2) = inline_from(r, ev, pos + 1, MdEnd::Strong, r.bold, br, Seq::empty(), Seq::empty());
                        inline_from(r, ev, if p2 > pos && p2 <= ev.len() { p2 } else { pos + 1 }, end, base, br, s1 + c, Seq::empty())
                    },
                    MdTag::Strikethrough => {
                        let (c, p2) = inline_from(r, ev, pos + 1, MdEnd::Strikethrough, r.strike, br, Seq::empty(), Seq::empty());
                        inline_from(r, ev, if p2 > pos && p2 <= ev.len() { p2 } else { pos + 1 }, end, base, br, s1 + c, Seq::empty())
                    },
                    MdTag::Link(url) => {
                        let (c, p2) = inline_from(r, ev, pos + 1, MdEnd::Link, r.link, br, Seq::empty(), Seq::empty());
                        let c2 = if url@.len() > 0 {
                            c.push(url_piece(url@))
                        } else {
                            c
                        };
                        inline_from(r, ev, if p2 > pos && p2 <= ev.len() { p2 } else { pos + 1 }, end, base, br, s1 + c2, Seq::empty())
                    },
                    MdTag::Image(url) => {
                        let (c, p2) = inline_from(r, ev, pos + 1, MdEnd::Image, r.para, br, Seq::empty(), Seq::empty());
                        let s2 = s1.push(image_icon()) + c;
                        let s3 = if url@.len() > 0 {
                            s2.push(url_piece(url@))
                        } else {
                            s2
                        };
                        inline_from(r, ev, if p2 > pos && p2 <= ev.len() { p2 } else { pos + 1 }, end, base, br, s3, Seq::empty())
                    },
                    MdTag::CodeBlock(_) | MdTag::Paragraph | MdTag::Heading(_) => {
                        let p2 = skip_from(ev, pos + 1, end_of(tag));
                        inline_from(r, ev, if p2 > pos && p2 <= ev.len() { p2 } else { pos + 1 }, end, base, br, s1, Seq::empty())
                    },
                    _ => inline_from(r, ev, pos + 1, end, base, br, s1, Seq::empty()),
                }
            },
            MdEvent::End(t) => if t == end {
                (flush_spec(spans, buf, base), pos + 1)
            } else {
                inline_from(r, ev, pos + 1, end, base, br, spans, buf)
            },
            MdEvent::Text(t) => inline_from(r, ev, pos + 1, end, base, br, spans, buf + t@),
            MdEvent::Code(t) => inline_from(
                r,
                ev,
                pos + 1,
                end,
                base,
                br,
                flush_spec(spans, buf, base).push((t@, r.code.spec_as_style())),
                Seq::empty(),
            ),
            MdEvent::SoftBreak | MdEvent::HardBreak => if br {
                inline_from(
                    r,
                    ev,
                    pos + 1,
                    end,
                    base,
                    br,
                    flush_spec(spans, buf, base).push(("\n"@, Style::spec_default())),
                    Seq::empty(),
                )
            } else {
                inline_from(r, ev, pos + 1, end, base, br, spans, buf.push(' '))
            },
            MdEvent::TaskListMarker(c) => inline_from(
                r,
                ev,
                pos + 1,
                end,
                base,
                br,
                flush_spec(spans, buf, base).push(task_piece(c)),
                Seq::empty(),
            ),
            _ => inline_from(r, ev, pos + 1, end, base, br, spans, buf),
        }
    }
}

/// The pieces of inline content from `pos` up to `end`, and the position after it.
pub open spec fn inline_spec(
    r: Renderer,
    ev: Seq<MdEvent>,
    pos: int,
    end: MdEnd,
    base: ThemeStyle,
    br: bool,
) -> (Seq<SpanV>, int) {
    inline_from(r, ev, pos, end, base, br, Seq::empty(), Seq::empty())
}

proof fn lemma_spans_view_append(a: Seq<Span>, b: Seq<Span>)
    ensures
        spans_view(a + b) == spans_view(a) + spans_view(b),
{
    assert(spans_view(a + b) =~= spans_view(a) + spans_view(b));
}

proof fn lemma_spans_view_push(a: Seq<Span>, x: Span)
    ensures
        spans_view(a.push(x)) == spans_view(a).push(span_view(x)),
{
    assert(spans_view(a.push(x)) =~= spans_view(a).push(span_view(x)));
}

/// Appends the pending text, if any, as one span in `base`.
fn flush_buf(buf: &mut Vec<char>, spans: &mut Vec<Span>, base: ThemeStyle)
    ensures
        spans_view(final(spans)@) == flush_spec(spans_view(old(spans)@), old(buf)@, base),
        final(buf)@ == Seq::<char>::empty(),
{
    if buf.len() > 0 {
        let text = string_of(buf.as_slice());
        let sp = Span::styled(text, base.as_style());
        proof {
            lemma_spans_view_push(spans@, sp);
        }
        spans.push(sp);
    }
    *buf = Vec::new();
}

/// Appends `more` to `spans`.
fn append_spans(spans: &mut Vec<Span>, more: Vec<Span>)
    ensures
        spans_view(final(spans)@) == spans_view(old(spans)@) + spans_view(more@),
{
    let mut more = more;
    proof {
        lemma_spans_view_append(spans@, more@);
    }
    spans.append(&mut more);
}

/// Pushes one span.
fn push_span(spans: &mut Vec<Span>, sp: Span)
    ensures
        spans_view(final(spans)@) == spans_view(old(spans)@).push(span_view(sp)),
{
    proof {
        lemma_spans_view_push(spans@, sp);
    }
    spans.push(sp);
}

fn url_span(url: &String) -> (r: Span)
    ensures
        span_view(r) == url_piece(url@),
{
    let mut s = String::from_str(" ─ ");
    s.append(url.as_str());
    Span::styled(s, Style::new().fg(Color::DarkGray).add_modifier(Modifier::dim()))
}

impl Renderer {
    /// Collects inline content from `pos` up to the end event `end`, returning
    /// its spans and the position after the end event.
    pub fn collect_inline(
        &self,
        ev: &Vec<MdEvent>,
        pos: usize,
        end: MdEnd,
        base: ThemeStyle,
        br: bool,
    ) -> (r: (Vec<Span>, usize))
        requires
            pos <= ev@.len(),
        ensures
            (spans_view(r.0@), r.1 as int) == inline_spec(*self, ev@, pos as int, end, base, br),
            r.1 <= ev@.len(),
        decreases ev@.len() - pos,
    {
        let ghost target = inline_spec(*self, ev@, pos as int, end, base, br);
        let mut spans: Vec<Span> = Vec::new();
        let mut buf: Vec<char> = Vec::new();
        let mut p = pos;
        proof {
            assert(spans_view(spans@) =~= Seq::<SpanV>::empty());
            assert(buf@ =~= Seq::<char>::empty());
        }
        loop
            invariant
                pos <= p <= ev@.len(),
                target == inline_spec(*self, ev@, pos as int, end, base, br),
                inline_from(*self, ev@, p as int, end, base, br, spans_view(spans@), buf@) == target,
            decreases ev@.len() - p,
        {
            let ghost gp = p as int;
            let ghost sv = spans_view(spans@);
            let ghost bv = buf@;
            if p >= ev.len() {
                assert(inline_from(*self, ev@, gp, end, base, br, sv, bv) == (sv, ev@.len() as int));
                return (spans, ev.len());
            }
            match &ev[p] {
                MdEvent::Start(tag) => {
                    flush_buf(&mut buf, &mut spans, base);
                    match tag {
                        MdTag::Emphasis => {
                            let (child, p2) = self.collect_inline(ev, p + 1, MdEnd::Emphasis, self.italic, br);
                            append_spans(&mut spans, child);
                            p = if p2 > p && p2 <= ev.len() { p2 } else { p + 1 };
                        },
                        MdTag::Strong => {
                            let (child, p2) = self.collect_inline(ev, p + 1, MdEnd::Strong, self.bold, br);
                            append_spans(&mut spans, child);
                            p = if p2 > p && p2 <= ev.len() { p2 } else { p + 1 };
                        },
                        MdTag::Strikethrough => {
                            let (child, p2) = self.collect_inline(ev, p + 1, MdEnd::Strikethrough, self.strike, br);
                            append_spans(&mut spans, child);
                            p = if p2 > p && p2 <= ev.len() { p2 } else { p + 1 };
                        },
                        MdTag::Link(url) => {
                            let (mut child, p2) = self.collect_inline(ev, p + 1, MdEnd::Link, self.link, br);
                            if !str_is_empty(url.as_str()) {
                                push_span(&mut child, url_span(url));
                            }
                            append_spans(&mut spans, child);
                            p = if p2 > p && p2 <= ev.len() { p2 } else { p + 1 };
                        },
                        MdTag::Image(url) => {
                            let (child, p2) = self.collect_inline(ev, p + 1, MdEnd::Image, self.para, br);
                            push_span(&mut spans, Span::styled(String::from_str("🖼 "), Style::new().fg(Color::DarkGray)));
                            append_spans(&mut spans, child);
                            if !str_is_empty(url.as_str()) {
                                push_span(&mut spans, url_span(url));
                            }
                            p = if p2 > p && p2 <= ev.len() { p2 } else { p + 1 };
                        },
                        MdTag::CodeBlock(_) | MdTag::Paragraph | MdTag::Heading(_) => {
                            let e = end_of_exec(tag);
                            let p2 = skip_to(ev, p + 1, e);
                            p = if p2 > p && p2 <= ev.len() { p2 } else { p + 1 };
                        },
                        _ => {
                            p = p + 1;
                        },
                    }
                },
                MdEvent::End(t) => {
                    if *t == end {
                        flush_buf(&mut buf, &mut spans, base);
                        assert(inline_from(*self, ev@, gp, end, base, br, sv, bv) == (
                        flush_spec(sv, bv, base), gp + 1));
                        return (spans, p + 1);
                    }
                    p = p + 1;
                },
                MdEvent::Text(t) => {
                    let mut tc = chars_of(t.as_str());
                    buf.append(&mut tc);
                    p = p + 1;
                },
                MdEvent::Code(t) => {
                    flush_buf(&mut buf, &mut spans, base);
                    push_span(&mut spans, Span::styled(t.clone(), self.code.as_style()));
                    p = p + 1;
                },
                MdEvent::SoftBreak | MdEvent::HardBreak => {
                    if br {
                        flush_buf(&mut buf, &mut spans, base);
                        push_span(&mut spans, Span::raw(String::from_str("\n")));
                    } else {
                        buf.push(' ');
                    }
                    p = p + 1;
                },
                MdEvent::TaskListMarker(checked) => {
                    flush_buf(&mut buf, &mut spans, base);
                    let icon = if *checked {
                        String::from_str("☑")
                    } else {
                        String::from_str("☐")
                    };
                    let color = if *checked {
                        Color::Green
                    } else {
                        Color::Red
                    };
                    push_span(&mut spans, Span::styled(icon, Style::new().fg(color).add_modifier(Modifier::bold())));
                    p = p + 1;
                },
                _ => {
                    p = p + 1;
                },
            }
        }
    }
}

// ---------------------------------------------------------------------------
// Code blocks and table rows
// ---------------------------------------------------------------------------

/// The text of a code block from `pos` on, after `acc`, up to its end event,
/// and the position after that event.
pub open spec fn code_from(ev: Seq<MdEvent>, pos: int, acc: Seq<char>) -> (Seq<char>, int)
    decreases ev.len() - pos,
{
    if pos < 0 || pos >= ev.len() {
        (acc, ev.len() as int)
    } else {
        match ev[pos] {
            MdEvent::Text(t) => code_from(ev, pos + 1, acc + t@),
            MdEvent::End(MdEnd::CodeBlock) => (acc, pos + 1),
            _ => code_from(ev, pos + 1, acc),
        }
    }
}

/// Collects the text of a code block up to its end event.
fn collect_code(ev: &Vec<MdEvent>, pos: usize) -> (r: (Vec<char>, usize))
    requires
        pos <= ev@.len(),
    ensures
        (r.0@, r.1 as int) == code_from(ev@, pos as int, Seq::empty()),
        r.1 <= ev@.len(),
{
    let mut code: Vec<char> = Vec::new();
    let mut p = pos;
    assert(code@ =~= Seq::<char>::empty());
    loop
        invariant
            pos <= p <= ev@.len(),
            code_from(ev@, p as int, code@) == code_from(ev@, pos as int, Seq::empty()),
        decreases ev@.len() - p,
    {
        let ghost cv = code@;
        if p >= ev.len() {
            assert(code_from(ev@, p as int, cv) == (cv, ev@.len() as int));
            return (code, ev.len());
        }
        match &ev[p] {
            MdEvent::Text(t) => {
                let mut tc = chars_of(t.as_str());
                code.append(&mut tc);
            },
            MdEvent::End(MdEnd::CodeBlock) => {
                assert(code_from(ev@, p as int, cv) == (cv, p + 1));
                return (code, p + 1);
            },
            _ => {},
        }
        p = p + 1;
    }
}

/// The cells of a table row from `pos` on, after `row`, up to the end of the
/// row or head, and the position after that end event.
pub open spec fn row_from(r: Renderer, ev: Seq<MdEvent>, pos: int, row: Seq<Seq<SpanV>>) -> (
    Seq<Seq<SpanV>>,
    int,
)
    decreases ev.len() - pos,
{
    if pos < 0 || pos >= ev.len() {
        (row, ev.len() as int)
    } else {
        match ev[pos] {
            MdEvent::Start(MdTag::TableCell) => {
                let (cell, p2) = inline_spec(r, ev, pos + 1, MdEnd::TableCell, r.para, false);
                row_from(
                    r,
                    ev,
                    if p2 > pos && p2 <= ev.len() {
                        p2
                    } else {
                        pos + 1
                    },
                    row.push(cell),
                )
            },
            MdEvent::End(MdEnd::TableRow) | MdEvent::End(MdEnd::TableHead) => (row, pos + 1),
            _ => row_from(r, ev, pos + 1, row),
        }
    }
}

pub open spec fn cells_view(row: Seq<Vec<Span>>) -> Seq<Seq<SpanV>> {
    row.map_values(|c: Vec<Span>| spans_view(c@))
}

impl Renderer {
    /// Collects the cells of a table row up to the end of the row or head.
    fn collect_table_row(&self, ev: &Vec<MdEvent>, pos: usize) -> (r: (Vec<Vec<Span>>, usize))
        requires
            pos <= ev@.len(),
        ensures
            (cells_view(r.0@), r.1 as int) == row_from(*self, ev@, pos as int, Seq::empty()),
            r.1 <= ev@.len(),
    {
        let mut row: Vec<Vec<Span>> = Vec::new();
        let mut p = pos;
        assert(cells_view(row@) =~= Seq::<Seq<SpanV>>::empty());
        loop
            invariant
                pos <= p <= ev@.len(),
                row_from(*self, ev@, p as int, cells_view(row@)) == row_from(*self, ev@, pos as int, Seq::empty()),
            decreases ev@.len() - p,
        {
            let ghost rv = cells_view(row@);
            if p >= ev.len() {
                assert(row_from(*self, ev@, p as int, rv) == (rv, ev@.len() as int));
                return (row, ev.len());
            }
            match &ev[p] {
                MdEvent::Start(MdTag::TableCell) => {
                    let (cell, p2) = self.collect_inline(ev, p + 1, MdEnd::TableCell, self.para, false);
                    let ghost cv = spans_view(cell@);
                    row.push(cell);
                    assert(cells_view(row@) =~= rv.push(cv));
                    p = if p2 > p && p2 <= ev.len() { p2 } else { p + 1 };
                },
                MdEvent::End(MdEnd::TableRow) | MdEvent::End(MdEnd::TableHead) => {
                    assert(row_from(*self, ev@, p as int, rv) == (rv, p + 1));
                    return (row, p + 1);
                },
                _ => {
                    p = p + 1;
                },
            }
        }
    }
}

// ---------------------------------------------------------------------------
// Tables
// ---------------------------------------------------------------------------

/// The display width of a text in terminal columns, as `unicode-width` computes it.
pub uninterp spec fn spec_str_width(s: Seq<char>) -> nat;

/// `UnicodeWidthStr::width` of `unicode-width`: the display width of `s` in
/// columns. Its result is named by `spec_str_width`, a function of the text
/// alone. By the crate's documented rules each printable ASCII character
/// (space to `~`) has width 1 and no such text is a special sequence, so a
/// text of them is as wide as it is long.
#[verifier::external_body]
fn str_width(s: &str) -> (w: usize)
    ensures
        w as nat == spec_str_width(s@),
        (forall|k: int| 0 <= k < s@.len() ==> 0x20 <= (#[trigger] s@[k]) as u32 <= 0x7e) ==> w as nat == s@.len(),
{
    UnicodeWidthStr::width(s)
}

/// `a + b`, saturating at the largest `usize`.
pub open spec fn sat_add(a: nat, b: nat) -> nat {
    if a + b > usize::MAX {
        usize::MAX as nat
    } else {
        a + b
    }
}

/// `a - b`, or zero.
pub open spec fn sat_sub(a: nat, b: nat) -> nat {
    if a >= b {
        (a - b) as nat
    } else {
        0
    }
}

pub open spec fn max_nat(a: nat, b: nat) -> nat {
    if a >= b {
        a
    } else {
        b
    }
}

/// The width of a table cell: the widths of its pieces, summed.
pub open spec fn cell_width_spec(cell: Seq<SpanV>) -> nat
    decreases cell.len(),
{
    if cell.len() == 0 {
        0
    } else {
        sat_add(cell_width_spec(cell.drop_last()), spec_str_width(cell.last().0))
    }
}

fn cell_width(cell: &Vec<Span>) -> (r: usize)
    ensures
        r as nat == cell_width_spec(spans_view(cell@)),
{
    let ghost cv = spans_view(cell@);
    let mut total: usize = 0;
    let mut i: usize = 0;
    while i < cell.len()
        invariant
            i <= cell@.len(),
            cv == spans_view(cell@),
            total as nat == cell_width_spec(cv.subrange(0, i as int)),
        decreases cell.len() - i,
    {
        let w = str_width(cell[i].content.as_str());
        proof {
            let sub = cv.subrange(0, i + 1);
            assert(sub.drop_last() =~= cv.subrange(0, i as int));
            assert(sub.last() == span_view(cell@[i as int]));
        }
        total = total.saturating_add(w);
        i = i + 1;
    }
    assert(cv.subrange(0, cell@.len() as int) =~= cv);
    total
}

/// The widths of the cells of a row.
pub open spec fn row_widths(cells: Seq<Seq<SpanV>>) -> Seq<usize> {
    cells.map_values(|c: Seq<SpanV>| cell_width_spec(c) as usize)
}

/// The widths of the cells of each row.
pub open spec fn rows_widths(rows: Seq<Seq<Seq<SpanV>>>) -> Seq<Seq<usize>> {
    rows.map_values(|r: Seq<Seq<SpanV>>| row_widths(r))
}

/// The length of the longest row.
pub open spec fn max_row_len(rows: Seq<Seq<usize>>) -> nat
    decreases rows.len(),
{
    if rows.len() == 0 {
        0
    } else {
        max_nat(max_row_len(rows.drop_last()), rows.last().len())
    }
}

/// The number of columns: the widest of the header and the rows, at least one.
pub open spec fn num_cols_spec(hw: Seq<usize>, rw: Seq<Seq<usize>>) -> nat {
    max_nat(max_nat(hw.len(), max_row_len(rw)), 1)
}

/// The widest cell of column `i` among the rows whose cells are `rw` wide, folded onto `acc`.
pub open spec fn rows_col_width(rw: Seq<Seq<usize>>, i: int, acc: nat) -> nat
    decreases rw.len(),
{
    if rw.len() == 0 {
        acc
    } else {
        let prev = rows_col_width(rw.drop_last(), i, acc);
        if i < rw.last().len() {
            max_nat(prev, rw.last()[i] as nat)
        } else {
            prev
        }
    }
}

/// The width of column `i`: at least 3, and at least the width of each of its cells.
pub open spec fn col_width_spec(hw: Seq<usize>, rw: Seq<Seq<usize>>, i: int) -> nat {
    let h = if i < hw.len() {
        max_nat(3, hw[i] as nat)
    } else {
        3
    };
    rows_col_width(rw, i, h)
}

/// The column widths of a table whose header cells are `hw` wide and whose
/// row cells are `rw` wide.
pub open spec fn column_widths(hw: Seq<usize>, rw: Seq<Seq<usize>>) -> Seq<usize> {
    Seq::new(num_cols_spec(hw, rw), |i: int| col_width_spec(hw, rw, i) as usize)
}

proof fn lemma_rows_col_width(rw: Seq<Seq<usize>>, i: int, acc: nat)
    requires
        0 <= i,
    ensures
        rows_col_width(rw, i, acc) >= acc,
        forall|k: int| 0 <= k < rw.len() && 0 <= i < rw[k].len() ==> rows_col_width(rw, i, acc) >= rw[k][i],
        rows_col_width(rw, i, acc) == acc || exists|k: int|
            0 <= k < rw.len() && 0 <= i < rw[k].len() && rows_col_width(rw, i, acc) == rw[k][i],
    decreases rw.len(),
{
    if rw.len() > 0 {
        let prev = rw.drop_last();
        lemma_rows_col_width(prev, i, acc);
        assert forall|k: int| 0 <= k < rw.len() - 1 && 0 <= i < rw[k].len() implies rows_col_width(rw, i, acc)
            >= rw[k][i] by {
            assert(prev[k] == rw[k]);
        }
        let pv = rows_col_width(prev, i, acc);
        let v = rows_col_width(rw, i, acc);
        let last = rw.len() - 1;
        assert(rw.last() == rw[last]);
        if i < rw[last].len() && v == rw[last][i] as nat {
            assert(0 <= last < rw.len() && 0 <= i < rw[last].len() && v == rw[last][i]);
        } else {
            assert(v == pv);
            if pv != acc {
                let k = choose|k: int|
                    0 <= k < prev.len() && 0 <= i < prev[k].len() && pv == prev[k][i];
                assert(rw[k] == prev[k]);
                assert(0 <= k < rw.len() && 0 <= i < rw[k].len() && v == rw[k][i]);
            }
        }
    }
}

proof fn lemma_max_row_len_bound(rows: Seq<Seq<usize>>, k: int)
    requires
        0 <= k < rows.len(),
    ensures
        rows[k].len() <= max_row_len(rows),
    decreases rows.len(),
{
    if k < rows.len() - 1 {
        lemma_max_row_len_bound(rows.drop_last(), k);
        assert(rows.drop_last()[k] == rows[k]);
    }
}

/// Every column is at least 3 wide and at least as wide as each of its cells,
/// in the header and in every row, and no wider than it must be: its width is
/// 3 or the width of one of its cells. There is a column for every cell.
pub proof fn law_columns_fit_their_cells(hw: Seq<usize>, rw: Seq<Seq<usize>>)
    ensures
        ({
            let cw = column_widths(hw, rw);
            &&& cw.len() >= hw.len()
            &&& forall|k: int| 0 <= k < rw.len() ==> rw[k].len() <= cw.len()
            &&& forall|i: int| 0 <= i < cw.len() ==> cw[i] >= 3
            &&& forall|i: int| 0 <= i < hw.len() ==> cw[i] >= hw[i]
            &&& forall|k: int, i: int| 0 <= k < rw.len() && 0 <= i < rw[k].len() ==> cw[i] >= rw[k][i]
            &&& forall|i: int|
                0 <= i < cw.len() ==> (cw[i] == 3 || (i < hw.len() && cw[i] == hw[i]) || exists|k: int|
                    0 <= k < rw.len() && i < rw[k].len() && cw[i] == rw[k][i])
        }),
{
    let cw = column_widths(hw, rw);
    assert forall|k: int| 0 <= k < rw.len() implies rw[k].len() <= cw.len() by {
        lemma_max_row_len_bound(rw, k);
    }
    assert forall|i: int| 0 <= i < cw.len() implies {
        &&& cw[i] >= 3
        &&& (i < hw.len() ==> cw[i] >= hw[i])
        &&& (forall|k: int| 0 <= k < rw.len() && i < rw[k].len() ==> cw[i] >= rw[k][i])
        &&& (cw[i] == 3 || (i < hw.len() && cw[i] == hw[i]) || exists|k: int|
            0 <= k < rw.len() && i < rw[k].len() && cw[i] == rw[k][i])
    } by {
        let h = if i < hw.len() {
            max_nat(3, hw[i] as nat)
        } else {
            3
        };
        lemma_rows_col_width(rw, i, h);
        let v = rows_col_width(rw, i, h);
        assert(v <= usize::MAX) by {
            if v != h {
                let k = choose|k: int| 0 <= k < rw.len() && 0 <= i < rw[k].len() && v == rw[k][i];
            }
        }
        assert(cw[i] == v as usize);
    }
    assert forall|k: int, i: int| 0 <= k < rw.len() && 0 <= i < rw[k].len() implies cw[i] >= rw[k][i] by {
        lemma_max_row_len_bound(rw, k);
    }
}

/// A run of `n` copies of `c`.
pub open spec fn run(c: char, n: nat) -> Seq<char> {
    Seq::new(n, |k: int| c)
}

fn run_exec(c: char, n: usize) -> (r: String)
    ensures
        r@ == run(c, n as nat),
{
    let mut v: Vec<char> = Vec::new();
    let mut k: usize = 0;
    while k < n
        invariant
            k <= n,
            v@ == run(c, k as nat),
        decreases n - k,
    {
        v.push(c);
        k = k + 1;
        assert(v@ =~= run(c, k as nat));
    }
    string_of(v.as_slice())
}

/// The middle of a border line: a run of `─` two wider than each column,
/// with `sep` between columns.
pub open spec fn border_mid(widths: Seq<usize>, sep: Seq<char>, st: Style) -> Seq<SpanV>
    decreases widths.len(),
{
    if widths.len() == 0 {
        Seq::empty()
    } else if widths.len() == 1 {
        seq![(run('─', sat_add(widths[0] as nat, 2)), st)]
    } else {
        border_mid(widths.drop_last(), sep, st).push((sep, st)).push(
            (run('─', sat_add(widths.last() as nat, 2)), st),
        )
    }
}

/// A border line of a table.
pub open spec fn border_line(widths: Seq<usize>, left: Seq<char>, sep: Seq<char>, right: Seq<char>, st: Style) -> Seq<SpanV> {
    seq![(left, st)] + border_mid(widths, sep, st) + seq![(right, st)]
}

fn border_line_exec(widths: &Vec<usize>, left: &str, sep: &str, right: &str, st: Style) -> (r: Line)
    ensures
        spans_view(r.spans@) == border_line(widths@, left@, sep@, right@, st),
{
    let mut spans: Vec<Span> = Vec::new();
    push_span(&mut spans, Span::styled(String::from_str(left), st));
    let mut i: usize = 0;
    while i < widths.len()
        invariant
            i <= widths@.len(),
            spans_view(spans@) == seq![(left@, st)] + border_mid(widths@.subrange(0, i as int), sep@, st)
                + (if 0 < i < widths@.len() { seq![(sep@, st)] } else { Seq::empty() }),
        decreases widths.len() - i,
    {
        let ghost before = spans_view(spans@);
        let w = widths[i];
        push_span(&mut spans, Span::styled(run_exec('─', w.saturating_add(2)), st));
        if i + 1 < widths.len() {
            push_span(&mut spans, Span::styled(String::from_str(sep), st));
        }
        proof {
            let sub = widths@.subrange(0, i + 1);
            assert(sub.drop_last() =~= widths@.subrange(0, i as int));
            if i == 0 {
                assert(border_mid(widths@.subrange(0, 0), sep@, st) =~= Seq::<SpanV>::empty());
            }
            assert(spans_view(spans@) =~= seq![(left@, st)] + border_mid(sub, sep@, st)
                + (if 0 < i + 1 < widths@.len() { seq![(sep@, st)] } else { Seq::empty() }));
        }
        i = i + 1;
    }
    assert(widths@.subrange(0, widths@.len() as int) =~= widths@);
    push_span(&mut spans, Span::styled(String::from_str(right), st));
    Line { spans }
}

/// Padding before and after a cell's text for its alignment.
pub open spec fn pads(align: Align, pad: nat) -> (nat, nat) {
    match align {
        Align::Right => (pad, 0),
        Align::Center => ((pad / 2) as nat, (pad - pad / 2) as nat),
        _ => (0, pad),
    }
}

/// The pieces of cell `cell`, `cw` wide, laid out in a column of width `w` with `align`.
pub open spec fn cell_pieces(cell: Seq<SpanV>, cw: usize, w: nat, align: Align, st: Style, is_header: bool) -> Seq<SpanV> {
    let pad = sat_sub(w, cw as nat);
    let (l, r) = pads(align, pad);
    let lp = if l > 0 { seq![(run(' ', l), Style::spec_default())] } else { Seq::empty() };
    let body = if is_header {
        cell.map_values(|x: SpanV| (x.0, x.1.spec_add(Modifier { bold: true, ..Modifier::spec_empty() })))
    } else {
        cell
    };
    let rp = if r > 0 { seq![(run(' ', r), Style::spec_default())] } else { Seq::empty() };
    lp + body + rp + seq![("  │"@, st)]
}

/// The plain text of a laid-out cell.
pub open spec fn cell_raw(cell: Seq<SpanV>, cw: usize, w: nat, align: Align) -> Seq<char> {
    let pad = sat_sub(w, cw as nat);
    let (l, r) = pads(align, pad);
    seq![' '] + run(' ', l) + pieces_text(cell) + run(' ', sat_add(r, 2))
}

pub open spec fn width_at(widths: Seq<usize>, i: int) -> nat {
    if 0 <= i < widths.len() {
        widths[i] as nat
    } else {
        3
    }
}

pub open spec fn align_at(aligns: Seq<Align>, i: int) -> Align {
    if 0 <= i < aligns.len() {
        aligns[i]
    } else {
        Align::Unspecified
    }
}

/// A table row as a line and its plain text.
pub open spec fn row_line(
    cells: Seq<Seq<SpanV>>,
    cws: Seq<usize>,
    widths: Seq<usize>,
    st: Style,
    aligns: Seq<Align>,
    is_header: bool,
) -> (Seq<SpanV>, Seq<char>)
    decreases cells.len(),
{
    if cells.len() == 0 {
        (seq![("│"@, st)], Seq::empty())
    } else {
        let i = cells.len() - 1;
        let (sp, raw) = row_line(cells.drop_last(), cws, widths, st, aligns, is_header);
        (
            sp + cell_pieces(cells[i], cws[i], width_at(widths, i), align_at(aligns, i), st, is_header),
            raw + cell_raw(cells[i], cws[i], width_at(widths, i), align_at(aligns, i)),
        )
    }
}

/// The lines of a table and their plain texts: borders around the header
/// and the rows.
pub open spec fn table_lines(
    headers: Seq<Seq<SpanV>>,
    rows: Seq<Seq<Seq<SpanV>>>,
    hw: Seq<usize>,
    rw: Seq<Seq<usize>>,
    aligns: Seq<Align>,
    st: Style,
) -> (Seq<Seq<SpanV>>, Seq<Seq<char>>) {
    let widths = column_widths(hw, rw);
    let top = border_line(widths, "┌"@, "┬"@, "┐"@, st);
    let head: (Seq<Seq<SpanV>>, Seq<Seq<char>>) = if headers.len() > 0 {
        let (l, r) = row_line(headers, hw, widths, st, aligns, true);
        (seq![l, border_line(widths, "├"@, "┼"@, "┤"@, st)], seq![r, Seq::empty()])
    } else {
        (Seq::empty(), Seq::empty())
    };
    let body = rows_lines(rows, rw, widths, st, aligns);
    let bottom = border_line(widths, "└"@, "┴"@, "┘"@, st);
    (
        seq![top] + head.0 + body.0 + seq![bottom],
        seq![Seq::<char>::empty()] + head.1 + body.1 + seq![Seq::<char>::empty()],
    )
}

/// The data rows of a table as lines and plain texts.
pub open spec fn rows_lines(
    rows: Seq<Seq<Seq<SpanV>>>,
    rw: Seq<Seq<usize>>,
    widths: Seq<usize>,
    st: Style,
    aligns: Seq<Align>,
) -> (Seq<Seq<SpanV>>, Seq<Seq<char>>)
    decreases rows.len(),
{
    if rows.len() == 0 {
        (Seq::empty(), Seq::empty())
    } else {
        let (ls, rs) = rows_lines(rows.drop_last(), rw, widths, st, aligns);
        let (l, r) = row_line(rows.last(), rw[rows.len() - 1], widths, st, aligns, false);
        (ls.push(l), rs.push(r))
    }
}

pub open spec fn lines_view(v: Seq<Line>) -> Seq<Seq<SpanV>> {
    v.map_values(|l: Line| spans_view(l.spans@))
}

pub open spec fn strs_view(v: Seq<String>) -> Seq<Seq<char>> {
    v.map_values(|s: String| s@)
}

pub open spec fn rows_view(v: Seq<Vec<Vec<Span>>>) -> Seq<Seq<Seq<SpanV>>> {
    v.map_values(|r: Vec<Vec<Span>>| cells_view(r@))
}

/// Appends `sp` to `out` in the header style when `is_header` holds.
fn push_cell_spans(out: &mut Vec<Span>, cell: &Vec<Span>, is_header: bool)
    ensures
        spans_view(final(out)@) == spans_view(old(out)@) + (if is_header {
            spans_view(cell@).map_values(|x: SpanV| (x.0, x.1.spec_add(Modifier { bold: true, ..Modifier::spec_empty() })))
        } else {
            spans_view(cell@)
        }),
{
    let ghost start = spans_view(out@);
    let ghost cv = spans_view(cell@);
    let ghost body = if is_header {
        cv.map_values(|x: SpanV| (x.0, x.1.spec_add(Modifier { bold: true, ..Modifier::spec_empty() })))
    } else {
        cv
    };
    let mut i: usize = 0;
    while i < cell.len()
        invariant
            i <= cell@.len(),
            cv == spans_view(cell@),
            body == (if is_header {
                cv.map_values(|x: SpanV| (x.0, x.1.spec_add(Modifier { bold: true, ..Modifier::spec_empty() })))
            } else {
                cv
            }),
            spans_view(out@) == start + body.subrange(0, i as int),
        decreases cell.len() - i,
    {
        let s = &cell[i];
        let sp = if is_header {
            Span::styled(s.content.clone(), s.style.add_modifier(Modifier::bold()))
        } else {
            s.copy()
        };
        let ghost before = spans_view(out@);
        push_span(out, sp);
        proof {
            assert(cv[i as int] == span_view(cell@[i as int]));
            assert(body.subrange(0, i + 1) =~= body.subrange(0, i as int).push(body[i as int]));
        }
        i = i + 1;
    }
    assert(body.subrange(0, cell@.len() as int) =~= body);
}

/// Appends the plain text of a laid-out cell: a space, `left` spaces, the
/// cell's text and `right` + 2 spaces.
fn push_cell_raw(raw: &mut Vec<char>, cell: &Vec<Span>, left: usize, right: usize)
    ensures
        final(raw)@ == old(raw)@ + (seq![' '] + run(' ', left as nat) + pieces_text(spans_view(cell@)) + run(
            ' ',
            sat_add(right as nat, 2),
        )),
{
    let ghost rv0 = raw@;
    raw.push(' ');
    let lp = run_exec(' ', left);
    let mut lpc = chars_of(lp.as_str());
    raw.append(&mut lpc);
    let mut j: usize = 0;
    let ghost rv1 = raw@;
    assert(spans_view(cell@).subrange(0, 0) =~= Seq::<SpanV>::empty());
    assert(rv1 + pieces_text(Seq::<SpanV>::empty()) =~= rv1);
    while j < cell.len()
        invariant
            j <= cell@.len(),
            raw@ == rv1 + pieces_text(spans_view(cell@).subrange(0, j as int)),
        decreases cell.len() - j,
    {
        let mut cc = chars_of(cell[j].content.as_str());
        raw.append(&mut cc);
        proof {
            let sub = spans_view(cell@).subrange(0, j + 1);
            assert(sub.drop_last() =~= spans_view(cell@).subrange(0, j as int));
            assert(sub.last() == span_view(cell@[j as int]));
            assert(raw@ =~= rv1 + pieces_text(sub));
        }
        j = j + 1;
    }
    assert(spans_view(cell@).subrange(0, cell@.len() as int) =~= spans_view(cell@));
    let rp = run_exec(' ', right.saturating_add(2));
    let mut rpc = chars_of(rp.as_str());
    raw.append(&mut rpc);
    assert(raw@ =~= rv0 + (seq![' '] + run(' ', left as nat) + pieces_text(spans_view(cell@)) + run(
        ' ',
        sat_add(right as nat, 2),
    )));
}

/// Lays out one cell in a column of width `w`, appending its spans and plain text.
fn push_cell(
    spans: &mut Vec<Span>,
    raw: &mut Vec<char>,
    cell: &Vec<Span>,
    cw: usize,
    w: usize,
    align: Align,
    st: Style,
    is_header: bool,
)
    ensures
        spans_view(final(spans)@) == spans_view(old(spans)@) + cell_pieces(spans_view(cell@), cw, w as nat, align, st, is_header),
        final(raw)@ == old(raw)@ + cell_raw(spans_view(cell@), cw, w as nat, align),
{
    let pad = w.saturating_sub(cw);
    let left = match align {
        Align::Right => pad,
        Align::Center => pad / 2,
        _ => 0,
    };
    let right = match align {
        Align::Right => 0,
        Align::Center => pad - pad / 2,
        _ => pad,
    };
    let ghost sv0 = spans_view(spans@);
    let ghost rv0 = raw@;
    if left > 0 {
        push_span(spans, Span::styled(run_exec(' ', left), Style::new()));
    }
    push_cell_spans(spans, cell, is_header);
    if right > 0 {
        push_span(spans, Span::styled(run_exec(' ', right), Style::new()));
    }
    push_span(spans, Span::styled(String::from_str("  │"), st));
    push_cell_raw(raw, cell, left, right);
    proof {
        let c = spans_view(cell@);
        assert(spans_view(spans@) =~= sv0 + cell_pieces(c, cw, w as nat, align, st, is_header));
        assert(raw@ =~= rv0 + cell_raw(c, cw, w as nat, align));
    }
}

impl Renderer {
    /// One table row as a line and its plain text.
    fn push_table_row(
        &self,
        cells: &Vec<Vec<Span>>,
        cws: &Vec<usize>,
        widths: &Vec<usize>,
        st: Style,
        aligns: &Vec<Align>,
        is_header: bool,
    ) -> (r: (Line, String))
        requires
            cws@.len() == cells@.len(),
        ensures
            (spans_view(r.0.spans@), r.1@) == row_line(cells_view(cells@), cws@, widths@, st, aligns@, is_header),
    {
        let ghost cv = cells_view(cells@);
        let mut spans: Vec<Span> = Vec::new();
        push_span(&mut spans, Span::styled(String::from_str("│"), st));
        let mut raw: Vec<char> = Vec::new();
        let mut i: usize = 0;
        assert(cv.subrange(0, 0) =~= Seq::<Seq<SpanV>>::empty());
        assert(raw@ =~= Seq::<char>::empty());
        while i < cells.len()
            invariant
                i <= cells@.len(),
                cv == cells_view(cells@),
                cws@.len() == cells@.len(),
                (spans_view(spans@), raw@) == row_line(cv.subrange(0, i as int), cws@, widths@, st, aligns@, is_header),
            decreases cells.len() - i,
        {
            let cell = &cells[i];
            let w: usize = if i < widths.len() { widths[i] } else { 3 };
            let align = if i < aligns.len() { aligns[i] } else { Align::Unspecified };
            proof {
                assert(cv[i as int] == spans_view(cell@));
                let sub = cv.subrange(0, i + 1);
                assert(sub.drop_last() =~= cv.subrange(0, i as int));
            }
            push_cell(&mut spans, &mut raw, cell, cws[i], w, align, st, is_header);
            i = i + 1;
        }
        assert(cv.subrange(0, cells@.len() as int) =~= cv);
        (Line { spans }, string_of(raw.as_slice()))
    }
}

/// The widths of the cells of a row.
fn cell_widths(cells: &Vec<Vec<Span>>) -> (r: Vec<usize>)
    ensures
        r@ == row_widths(cells_view(cells@)),
{
    let ghost cv = cells_view(cells@);
    let mut out: Vec<usize> = Vec::new();
    let mut i: usize = 0;
    while i < cells.len()
        invariant
            i <= cells@.len(),
            cv == cells_view(cells@),
            out@ == row_widths(cv).subrange(0, i as int),
        decreases cells.len() - i,
    {
        let w = cell_width(&cells[i]);
        assert(cv[i as int] == spans_view(cells@[i as int]@));
        out.push(w);
        assert(out@ =~= row_widths(cv).subrange(0, i + 1));
        i = i + 1;
    }
    assert(row_widths(cv).subrange(0, cells@.len() as int) =~= row_widths(cv));
    out
}

pub open spec fn usize_rows(v: Seq<Vec<usize>>) -> Seq<Seq<usize>> {
    v.map_values(|r: Vec<usize>| r@)
}

/// The widths of the cells of each row.
fn rows_cell_widths(rows: &Vec<Vec<Vec<Span>>>) -> (r: Vec<Vec<usize>>)
    ensures
        usize_rows(r@) == rows_widths(rows_view(rows@)),
{
    let ghost rv = rows_view(rows@);
    let mut out: Vec<Vec<usize>> = Vec::new();
    let mut k: usize = 0;
    while k < rows.len()
        invariant
            k <= rows@.len(),
            rv == rows_view(rows@),
            usize_rows(out@) == rows_widths(rv).subrange(0, k as int),
        decreases rows.len() - k,
    {
        let w = cell_widths(&rows[k]);
        assert(rv[k as int] == cells_view(rows@[k as int]@));
        let ghost before = usize_rows(out@);
        out.push(w);
        assert(usize_rows(out@) =~= before.push(w@));
        assert(rows_widths(rv).subrange(0, k + 1) =~= rows_widths(rv).subrange(0, k as int).push(w@));
        k = k + 1;
    }
    assert(rows_widths(rv).subrange(0, rows@.len() as int) =~= rows_widths(rv));
    out
}

/// The column widths of a table whose header cells are `hw` wide and whose
/// row cells are `rw` wide: as many columns as the widest of the header and
/// the rows (at least one), each at least 3 and at least as wide as its cells.
pub fn table_column_widths(hw: &Vec<usize>, rw: &Vec<Vec<usize>>) -> (r: Vec<usize>)
    ensures
        r@ == column_widths(hw@, usize_rows(rw@)),
{
    let ghost rv = usize_rows(rw@);
    let mut maxrow: usize = 0;
    let mut k: usize = 0;
    while k < rw.len()
        invariant
            k <= rw@.len(),
            rv == usize_rows(rw@),
            maxrow as nat == max_row_len(rv.subrange(0, k as int)),
        decreases rw.len() - k,
    {
        proof {
            let sub = rv.subrange(0, k + 1);
            assert(sub.drop_last() =~= rv.subrange(0, k as int));
            assert(sub.last() == rw@[k as int]@);
        }
        if rw[k].len() > maxrow {
            maxrow = rw[k].len();
        }
        k = k + 1;
    }
    assert(rv.subrange(0, rw@.len() as int) =~= rv);
    let mut n = hw.len();
    if maxrow > n {
        n = maxrow;
    }
    if n < 1 {
        n = 1;
    }
    assert(n as nat == num_cols_spec(hw@, rv));
    let mut widths: Vec<usize> = Vec::new();
    let mut i: usize = 0;
    while i < n
        invariant
            i <= n,
            n as nat == num_cols_spec(hw@, rv),
            widths@.len() == i,
            forall|c: int| 0 <= c < i ==> widths@[c] as nat == (if c < hw@.len() {
                max_nat(3, hw@[c] as nat)
            } else {
                3
            }),
        decreases n - i,
    {
        let mut w: usize = 3;
        if i < hw.len() {
            if hw[i] > w {
                w = hw[i];
            }
        }
        widths.push(w);
        i = i + 1;
    }
    let mut k: usize = 0;
    while k < rw.len()
        invariant
            k <= rw@.len(),
            rv == usize_rows(rw@),
            widths@.len() == n,
            n as nat == num_cols_spec(hw@, rv),
            forall|c: int| 0 <= c < n ==> widths@[c] as nat == rows_col_width(
                rv.subrange(0, k as int),
                c,
                if c < hw@.len() {
                    max_nat(3, hw@[c] as nat)
                } else {
                    3
                },
            ),
        decreases rw.len() - k,
    {
        let row = &rw[k];
        let ghost old_w = widths@;
        let mut c: usize = 0;
        while c < row.len() && c < n
            invariant
                c <= n,
                widths@.len() == n,
                row == &rw@[k as int],
                forall|d: int| 0 <= d < n ==> widths@[d] as nat == (if d < c && d < row@.len() {
                    max_nat(old_w[d] as nat, row@[d] as nat)
                } else {
                    old_w[d] as nat
                }),
            decreases n - c,
        {
            if row[c] > widths[c] {
                widths.set(c, row[c]);
            }
            c = c + 1;
        }
        proof {
            let sub = rv.subrange(0, k + 1);
            assert(sub.drop_last() =~= rv.subrange(0, k as int));
            assert(sub.last() == row@);
            assert forall|d: int| 0 <= d < n implies widths@[d] as nat == rows_col_width(
                sub,
                d,
                if d < hw@.len() {
                    max_nat(3, hw@[d] as nat)
                } else {
                    3
                },
            ) by {
                if d < row@.len() {
                    assert(row@.len() <= max_row_len(rv)) by {
                        lemma_max_row_len(rv, k as int);
                    }
                }
            }
        }
        k = k + 1;
    }
    assert(rv.subrange(0, rw@.len() as int) =~= rv);
    assert(widths@ =~= column_widths(hw@, rv));
    widths
}

proof fn lemma_max_row_len(rows: Seq<Seq<usize>>, k: int)
    requires
        0 <= k < rows.len(),
    ensures
        rows[k].len() <= max_row_len(rows),
    decreases rows.len(),
{
    if k < rows.len() - 1 {
        lemma_max_row_len(rows.drop_last(), k);
    }
}

/// Pushes a line and its plain text.
fn push_line(lines: &mut Vec<Line>, raw: &mut Vec<String>, l: Line, r: String)
    ensures
        lines_view(final(lines)@) == lines_view(old(lines)@).push(spans_view(l.spans@)),
        strs_view(final(raw)@) == strs_view(old(raw)@).push(r@),
{
    let ghost lv = lines_view(lines@);
    let ghost rv = strs_view(raw@);
    let ghost lsv = spans_view(l.spans@);
    let ghost rsv = r@;
    lines.push(l);
    raw.push(r);
    assert(lines_view(lines@) =~= lv.push(lsv));
    assert(strs_view(raw@) =~= rv.push(rsv));
}

impl Renderer {
    /// Lays out a table whose header cells are `hw` wide and whose row cells
    /// are `rw` wide: borders around the header and the rows, each cell
    /// padded to its column's width by its column's alignment.
    pub fn layout_table(
        &self,
        headers: &Vec<Vec<Span>>,
        rows: &Vec<Vec<Vec<Span>>>,
        hw: &Vec<usize>,
        rw: &Vec<Vec<usize>>,
        aligns: &Vec<Align>,
    ) -> (r: (Vec<Line>, Vec<String>))
        requires
            hw@.len() == headers@.len(),
            rw@.len() == rows@.len(),
            forall|k: int| 0 <= k < rows@.len() ==> (#[trigger] rw@[k])@.len() == rows@[k]@.len(),
        ensures
            (lines_view(r.0@), strs_view(r.1@)) == table_lines(
                cells_view(headers@),
                rows_view(rows@),
                hw@,
                usize_rows(rw@),
                aligns@,
                self.table_border.spec_as_style(),
            ),
    {
        let ghost hv = cells_view(headers@);
        let ghost rv = rows_view(rows@);
        let ghost rwv = usize_rows(rw@);
        let mut lines: Vec<Line> = Vec::new();
        let mut raw: Vec<String> = Vec::new();
        let b = self.table_border.as_style();
        let widths = table_column_widths(hw, rw);
        let top = border_line_exec(&widths, "┌", "┬", "┐", b);
        push_line(&mut lines, &mut raw, top, String::new());
        let ghost head: (Seq<Seq<SpanV>>, Seq<Seq<char>>) = if hv.len() > 0 {
            let (l, r) = row_line(hv, hw@, widths@, b, aligns@, true);
            (seq![l, border_line(widths@, "├"@, "┼"@, "┤"@, b)], seq![r, Seq::empty()])
        } else {
            (Seq::empty(), Seq::empty())
        };
        if headers.len() > 0 {
            let (l, r) = self.push_table_row(headers, hw, &widths, b, aligns, true);
            push_line(&mut lines, &mut raw, l, r);
            let sep = border_line_exec(&widths, "├", "┼", "┤", b);
            push_line(&mut lines, &mut raw, sep, String::new());
        }
        assert(lines_view(lines@) =~= seq![border_line(widths@, "┌"@, "┬"@, "┐"@, b)] + head.0);
        assert(strs_view(raw@) =~= seq![Seq::<char>::empty()] + head.1);
        let ghost l1 = lines_view(lines@);
        let ghost r1 = strs_view(raw@);
        let mut k: usize = 0;
        assert(rv.subrange(0, 0) =~= Seq::<Seq<Seq<SpanV>>>::empty());
        assert(l1 + rows_lines(rv.subrange(0, 0), rwv, widths@, b, aligns@).0 =~= l1);
        assert(r1 + rows_lines(rv.subrange(0, 0), rwv, widths@, b, aligns@).1 =~= r1);
        while k < rows.len()
            invariant
                k <= rows@.len(),
                rv == rows_view(rows@),
                rwv == usize_rows(rw@),
                rw@.len() == rows@.len(),
                forall|j: int| 0 <= j < rows@.len() ==> (#[trigger] rw@[j])@.len() == rows@[j]@.len(),
                lines_view(lines@) == l1 + rows_lines(rv.subrange(0, k as int), rwv, widths@, b, aligns@).0,
                strs_view(raw@) == r1 + rows_lines(rv.subrange(0, k as int), rwv, widths@, b, aligns@).1,
            decreases rows.len() - k,
        {
            assert(rw@[k as int]@.len() == rows@[k as int]@.len());
            let (l, r) = self.push_table_row(&rows[k], &rw[k], &widths, b, aligns, false);
            push_line(&mut lines, &mut raw, l, r);
            proof {
                let sub = rv.subrange(0, k + 1);
                assert(sub.drop_last() =~= rv.subrange(0, k as int));
                assert(sub.last() == cells_view(rows@[k as int]@));
                assert(rwv[k as int] == rw@[k as int]@);
                assert(lines_view(lines@) =~= l1 + rows_lines(sub, rwv, widths@, b, aligns@).0);
                assert(strs_view(raw@) =~= r1 + rows_lines(sub, rwv, widths@, b, aligns@).1);
            }
            k = k + 1;
        }
        assert(rv.subrange(0, rows@.len() as int) =~= rv);
        let bottom = border_line_exec(&widths, "└", "┴", "┘", b);
        push_line(&mut lines, &mut raw, bottom, String::new());
        proof {
            let t = table_lines(hv, rv, hw@, rwv, aligns@, b);
            assert(lines_view(lines@) =~= t.0);
            assert(strs_view(raw@) =~= t.1);
        }
        (lines, raw)
    }

    /// Renders a table, its cells measured by their display width.
    fn render_table(
        &self,
        headers: &Vec<Vec<Span>>,
        rows: &Vec<Vec<Vec<Span>>>,
        aligns: &Vec<Align>,
        lines: &mut Vec<Line>,
        raw: &mut Vec<String>,
    )
        ensures
            lines_view(final(lines)@) == lines_view(old(lines)@) + table_lines(
                cells_view(headers@),
                rows_view(rows@),
                row_widths(cells_view(headers@)),
                rows_widths(rows_view(rows@)),
                aligns@,
                self.table_border.spec_as_style(),
            ).0,
            strs_view(final(raw)@) == strs_view(old(raw)@) + table_lines(
                cells_view(headers@),
                rows_view(rows@),
                row_widths(cells_view(headers@)),
                rows_widths(rows_view(rows@)),
                aligns@,
                self.table_border.spec_as_style(),
            ).1,
    {
        let hw = cell_widths(headers);
        let rw = rows_cell_widths(rows);
        proof {
            assert(usize_rows(rw@).len() == rw@.len());
            assert(rows_view(rows@).len() == rows@.len());
            assert(rows_widths(rows_view(rows@)).len() == rows@.len());
            assert forall|k: int| 0 <= k < rows@.len() implies (#[trigger] rw@[k])@.len() == rows@[k]@.len() by {
                assert(usize_rows(rw@)[k] == rw@[k]@);
                assert(rows_view(rows@)[k] == cells_view(rows@[k]@));
            }
        }
        let (mut tl, mut tr) = self.layout_table(headers, rows, &hw, &rw, aligns);
        let ghost l0 = lines_view(lines@);
        let ghost r0 = strs_view(raw@);
        let ghost tlv = lines_view(tl@);
        let ghost trv = strs_view(tr@);
        lines.append(&mut tl);
        raw.append(&mut tr);
        assert(lines_view(lines@) =~= l0 + tlv);
        assert(strs_view(raw@) =~= r0 + trv);
    }
}

// ---------------------------------------------------------------------------
// Block pieces: quotes, list bullets, code blocks
// ---------------------------------------------------------------------------

/// The lines of a block quote: its pieces split at each piece that is a line feed.
pub open spec fn quote_groups(s: Seq<SpanV>) -> Seq<Seq<SpanV>>
    decreases s.len(),
{
    if s.len() == 0 {
        seq![Seq::empty()]
    } else {
        let g = quote_groups(s.drop_last());
        if s.last().0 == "\n"@ {
            g.push(Seq::empty())
        } else {
            g.update(g.len() - 1, g.last().push(s.last()))
        }
    }
}

proof fn lemma_quote_groups_len(s: Seq<SpanV>)
    ensures
        quote_groups(s).len() >= 1,
    decreases s.len(),
{
    if s.len() > 0 {
        lemma_quote_groups_len(s.drop_last());
    }
}

pub open spec fn groups_view(g: Seq<Vec<Span>>) -> Seq<Seq<SpanV>> {
    g.map_values(|x: Vec<Span>| spans_view(x@))
}

/// Splits a quote's spans into lines at each span that is a line feed.
fn split_quote(spans: Vec<Span>) -> (r: Vec<Vec<Span>>)
    ensures
        groups_view(r@) == quote_groups(spans_view(spans@)),
{
    let ghost sv = spans_view(spans@);
    let mut groups: Vec<Vec<Span>> = Vec::new();
    let mut cur: Vec<Span> = Vec::new();
    let mut i: usize = 0;
    assert(sv.subrange(0, 0) =~= Seq::<SpanV>::empty());
    assert(spans_view(cur@) =~= Seq::<SpanV>::empty());
    assert(groups_view(groups@) =~= Seq::<Seq<SpanV>>::empty());
    assert(groups_view(groups@).push(spans_view(cur@)) =~= quote_groups(sv.subrange(0, 0)));
    while i < spans.len()
        invariant
            i <= spans@.len(),
            sv == spans_view(spans@),
            groups_view(groups@).push(spans_view(cur@)) == quote_groups(sv.subrange(0, i as int)),
        decreases spans.len() - i,
    {
        let sp = &spans[i];
        let ghost gv = groups_view(groups@);
        let ghost cv = spans_view(cur@);
        proof {
            let sub = sv.subrange(0, i + 1);
            assert(sub.drop_last() =~= sv.subrange(0, i as int));
            assert(sub.last() == span_view(*sp));
            lemma_quote_groups_len(sv.subrange(0, i as int));
        }
        if crate::text::str_eq(sp.content.as_str(), "\n") {
            let done = cur;
            groups.push(done);
            cur = Vec::new();
            assert(groups_view(groups@) =~= gv.push(cv));
            assert(spans_view(cur@) =~= Seq::<SpanV>::empty());
            assert(groups_view(groups@).push(spans_view(cur@)) =~= gv.push(cv).push(Seq::empty()));
        } else {
            push_span(&mut cur, sp.copy());
            assert(gv.push(spans_view(cur@)) =~= gv.push(cv).update(gv.len() as int, cv.push(span_view(*sp))));
        }
        i = i + 1;
    }
    assert(sv.subrange(0, spans@.len() as int) =~= sv);
    let ghost gv = groups_view(groups@);
    let ghost cv = spans_view(cur@);
    groups.push(cur);
    assert(groups_view(groups@) =~= gv.push(cv));
    groups
}

/// The colour of the quote mark at nesting depth `depth` (from 1) when the theme gives none.
pub open spec fn quote_palette(depth: nat) -> Color {
    let k = (depth - 1) % 3;
    if k == 0 {
        Color::Rgb(106, 153, 85)
    } else if k == 1 {
        Color::Rgb(86, 156, 214)
    } else {
        Color::Rgb(212, 71, 71)
    }
}

/// The digit character of `d` (0 to 9).
pub open spec fn digit_char(d: nat) -> char {
    if d == 0 {
        '0'
    } else if d == 1 {
        '1'
    } else if d == 2 {
        '2'
    } else if d == 3 {
        '3'
    } else if d == 4 {
        '4'
    } else if d == 5 {
        '5'
    } else if d == 6 {
        '6'
    } else if d == 7 {
        '7'
    } else if d == 8 {
        '8'
    } else {
        '9'
    }
}

/// The decimal digits of `n`.
pub open spec fn decimal(n: nat) -> Seq<char>
    decreases n,
{
    if n < 10 {
        seq![digit_char(n)]
    } else {
        decimal(n / 10).push(digit_char(n % 10))
    }
}

fn digit_exec(d: usize) -> (c: char)
    requires
        d < 10,
    ensures
        c == digit_char(d as nat),
{
    if d == 0 {
        '0'
    } else if d == 1 {
        '1'
    } else if d == 2 {
        '2'
    } else if d == 3 {
        '3'
    } else if d == 4 {
        '4'
    } else if d == 5 {
        '5'
    } else if d == 6 {
        '6'
    } else if d == 7 {
        '7'
    } else if d == 8 {
        '8'
    } else {
        '9'
    }
}

/// The decimal digits of `n`.
pub fn decimal_exec(n: usize) -> (r: Vec<char>)
    ensures
        r@ == decimal(n as nat),
    decreases n,
{
    if n < 10 {
        let mut v: Vec<char> = Vec::new();
        v.push(digit_exec(n));
        assert(v@ =~= seq![digit_char(n as nat)]);
        v
    } else {
        let mut v = decimal_exec(n / 10);
        v.push(digit_exec(n % 10));
        v
    }
}

/// The bullet of a list item: the item's number (none when it is 0), indented
/// below the first level.
pub open spec fn bullet_text(depth: nat, counter: usize) -> Seq<char> {
    let prefix = if counter == 0 {
        Seq::empty()
    } else {
        decimal(counter as nat)
    };
    if depth == 1 {
        "• "@ + prefix + " "@
    } else {
        "  • "@ + prefix + " "@
    }
}

fn bullet_exec(depth: usize, counter: usize) -> (r: String)
    ensures
        r@ == bullet_text(depth as nat, counter),
{
    let mut s = if depth == 1 {
        String::from_str("• ")
    } else {
        String::from_str("  • ")
    };
    if counter != 0 {
        let d = decimal_exec(counter);
        let ds = string_of(d.as_slice());
        s.append(ds.as_str());
    } else {
        assert(s@ + Seq::<char>::empty() =~= s@);
    }
    s.append(" ");
    s
}

/// The info line above a fenced code block.
pub open spec fn info_piece(info: Seq<char>) -> SpanV {
    (
        " "@ + info + " "@,
        Style::spec_default().spec_fg(Color::DarkGray).spec_add(Modifier { bold: true, ..Modifier::spec_empty() }),
    )
}

/// The lines of an unhighlighted code block, indented by two spaces.
pub open spec fn plain_code(ls: Seq<Seq<char>>, st: Style) -> (Seq<Seq<SpanV>>, Seq<Seq<char>>)
    decreases ls.len(),
{
    if ls.len() == 0 {
        (Seq::empty(), Seq::empty())
    } else {
        let (a, b) = plain_code(ls.drop_last(), st);
        (a.push(seq![("  "@ + ls.last(), st)]), b.push("  "@ + ls.last()))
    }
}

/// The lines of a highlighted code block, indented by two spaces.
pub open spec fn hl_code(es: Seq<(Seq<SpanV>, Seq<char>)>) -> (Seq<Seq<SpanV>>, Seq<Seq<char>>)
    decreases es.len(),
{
    if es.len() == 0 {
        (Seq::empty(), Seq::empty())
    } else {
        let (a, b) = hl_code(es.drop_last());
        (a.push(seq![("  "@, Style::spec_default())] + es.last().0), b.push("  "@ + es.last().1))
    }
}

fn push_plain_code(code: &Vec<char>, st: Style, lines: &mut Vec<Line>, raw: &mut Vec<String>)
    ensures
        lines_view(final(lines)@) == lines_view(old(lines)@) + plain_code(crate::text::lines_from(code@, 0), st).0,
        strs_view(final(raw)@) == strs_view(old(raw)@) + plain_code(crate::text::lines_from(code@, 0), st).1,
{
    let ls = crate::text::split_lines(code);
    let ghost lv = crate::text::vv(ls@);
    let ghost l0 = lines_view(lines@);
    let ghost r0 = strs_view(raw@);
    let mut i: usize = 0;
    assert(lv.subrange(0, 0) =~= Seq::<Seq<char>>::empty());
    assert(l0 + plain_code(lv.subrange(0, 0), st).0 =~= l0);
    assert(r0 + plain_code(lv.subrange(0, 0), st).1 =~= r0);
    while i < ls.len()
        invariant
            i <= ls@.len(),
            lv == crate::text::vv(ls@),
            lines_view(lines@) == l0 + plain_code(lv.subrange(0, i as int), st).0,
            strs_view(raw@) == r0 + plain_code(lv.subrange(0, i as int), st).1,
        decreases ls.len() - i,
    {
        let mut t = String::from_str("  ");
        let lt = string_of(ls[i].as_slice());
        t.append(lt.as_str());
        let mut sp: Vec<Span> = Vec::new();
        push_span(&mut sp, Span::styled(t.clone(), st));
        let ghost spv = spans_view(sp@);
        push_line(lines, raw, Line { spans: sp }, t);
        proof {
            let sub = lv.subrange(0, i + 1);
            assert(sub.drop_last() =~= lv.subrange(0, i as int));
            assert(sub.last() == ls@[i as int]@);
            assert(spv =~= seq![("  "@ + sub.last(), st)]);
            assert(lines_view(lines@) =~= l0 + plain_code(sub, st).0);
            assert(strs_view(raw@) =~= r0 + plain_code(sub, st).1);
        }
        i = i + 1;
    }
    assert(lv.subrange(0, ls@.len() as int) =~= lv);
}

fn push_hl_code(es: Vec<(Vec<Span>, Vec<char>)>, lines: &mut Vec<Line>, raw: &mut Vec<String>)
    ensures
        lines_view(final(lines)@) == lines_view(old(lines)@) + hl_code(crate::highlight::entries_view(es@)).0,
        strs_view(final(raw)@) == strs_view(old(raw)@) + hl_code(crate::highlight::entries_view(es@)).1,
{
    let ghost ev = crate::highlight::entries_view(es@);
    let ghost l0 = lines_view(lines@);
    let ghost r0 = strs_view(raw@);
    let mut i: usize = 0;
    assert(ev.subrange(0, 0) =~= Seq::<(Seq<SpanV>, Seq<char>)>::empty());
    assert(l0 + hl_code(ev.subrange(0, 0)).0 =~= l0);
    assert(r0 + hl_code(ev.subrange(0, 0)).1 =~= r0);
    while i < es.len()
        invariant
            i <= es@.len(),
            ev == crate::highlight::entries_view(es@),
            lines_view(lines@) == l0 + hl_code(ev.subrange(0, i as int)).0,
            strs_view(raw@) == r0 + hl_code(ev.subrange(0, i as int)).1,
        decreases es.len() - i,
    {
        let e = &es[i];
        let mut sp: Vec<Span> = Vec::new();
        push_span(&mut sp, Span::raw(String::from_str("  ")));
        let mut k: usize = 0;
        let ghost sp0 = spans_view(sp@);
        while k < e.0.len()
            invariant
                k <= e.0@.len(),
                spans_view(sp@) == sp0 + spans_view(e.0@).subrange(0, k as int),
            decreases e.0.len() - k,
        {
            push_span(&mut sp, e.0[k].copy());
            assert(spans_view(e.0@).subrange(0, k + 1) =~= spans_view(e.0@).subrange(0, k as int).push(
                span_view(e.0@[k as int]),
            ));
            k = k + 1;
        }
        assert(spans_view(e.0@).subrange(0, e.0@.len() as int) =~= spans_view(e.0@));
        let mut t = String::from_str("  ");
        let rt = string_of(e.1.as_slice());
        t.append(rt.as_str());
        let ghost spv = spans_view(sp@);
        push_line(lines, raw, Line { spans: sp }, t);
        proof {
            let sub = ev.subrange(0, i + 1);
            assert(sub.drop_last() =~= ev.subrange(0, i as int));
            assert(sub.last() == (spans_view(e.0@), e.1@));
            assert(spv =~= seq![("  "@, Style::spec_default())] + sub.last().0);
            assert(lines_view(lines@) =~= l0 + hl_code(sub).0);
            assert(strs_view(raw@) =~= r0 + hl_code(sub).1);
        }
        i = i + 1;
    }
    assert(ev.subrange(0, es@.len() as int) =~= ev);
}

// ---------------------------------------------------------------------------
// The document
// ---------------------------------------------------------------------------

/// The state of rendering a document: the lines and plain texts so far, the
/// counters of the open lists, the table being gathered, whether the next
/// block is preceded by a blank line, and how deep block quotes are nested.
pub struct DocState {
    pub lines: Seq<Seq<SpanV>>,
    pub raw: Seq<Seq<char>>,
    pub counters: Seq<usize>,
    pub in_table: bool,
    pub headers: Seq<Seq<SpanV>>,
    pub rows: Seq<Seq<Seq<SpanV>>>,
    pub aligns: Seq<Align>,
    pub needs_space: bool,
    pub quote_depth: nat,
}

/// The state before the first event.
pub open spec fn doc_init() -> DocState {
    DocState {
        lines: Seq::empty(),
        raw: Seq::empty(),
        counters: Seq::empty(),
        in_table: false,
        headers: Seq::empty(),
        rows: Seq::empty(),
        aligns: Seq::empty(),
        needs_space: false,
        quote_depth: 0,
    }
}

/// A blank line, when the last block asks for one.
pub open spec fn blank(st: DocState) -> DocState {
    if st.needs_space {
        DocState { lines: st.lines.push(Seq::empty()), raw: st.raw.push(Seq::empty()), ..st }
    } else {
        st
    }
}

pub open spec fn add_line(st: DocState, l: Seq<SpanV>, r: Seq<char>) -> DocState {
    DocState { lines: st.lines.push(l), raw: st.raw.push(r), ..st }
}

pub open spec fn add_lines(st: DocState, ls: (Seq<Seq<SpanV>>, Seq<Seq<char>>)) -> DocState {
    DocState { lines: st.lines + ls.0, raw: st.raw + ls.1, ..st }
}

/// The quote lines: the mark, then the group's pieces.
pub open spec fn quote_lines(gs: Seq<Seq<SpanV>>, mark: Style) -> (Seq<Seq<SpanV>>, Seq<Seq<char>>)
    decreases gs.len(),
{
    if gs.len() == 0 {
        (Seq::empty(), Seq::empty())
    } else {
        let (a, b) = quote_lines(gs.drop_last(), mark);
        (a.push(seq![("▐ "@, mark)] + gs.last()), b.push(pieces_text(gs.last())))
    }
}

/// The index of the heading style for a heading of level `level`.
pub open spec fn heading_index(level: u8) -> int {
    if level == 0 {
        0
    } else if level - 1 > 5 {
        5
    } else {
        level - 1
    }
}

/// A code block opened by `kind`, whose events start at `pos`.
pub open spec fn code_block_step(r: Renderer, ev: Seq<MdEvent>, pos: int, st: DocState, kind: Option<String>) -> (DocState, int) {
    let s1 = blank(st);
    let fenced = match kind {
        Some(info) => info@.len() > 0,
        None => false,
    };
    let info = match kind {
        Some(info) => info@,
        None => Seq::empty(),
    };
    let s2 = if fenced {
        add_line(s1, seq![info_piece(info)], info)
    } else {
        s1
    };
    let (code, p2) = code_from(ev, pos + 1, Seq::empty());
    let plain = plain_code(crate::text::lines_from(code, 0), r.code_block.spec_as_style());
    let s3 = if fenced {
        match crate::highlight::highlight_spec(info, code, r.code_block.bg) {
            Some(es) => add_lines(s2, hl_code(es)),
            None => add_lines(s2, plain),
        }
    } else {
        add_lines(s2, plain)
    };
    (DocState { needs_space: true, ..s3 }, p2)
}

/// What the event at `pos` does to the state, and where rendering goes on.
pub open spec fn doc_step(r: Renderer, ev: Seq<MdEvent>, pos: int, st: DocState) -> (DocState, int) {
    match ev[pos] {
        MdEvent::Start(tag) => match tag {
            MdTag::Paragraph => {
                let s1 = blank(st);
                let (sp, p2) = inline_spec(r, ev, pos + 1, MdEnd::Paragraph, r.para, false);
                (DocState { needs_space: true, ..add_line(s1, sp, pieces_text(sp)) }, p2)
            },
            MdTag::Heading(level) => {
                let s1 = blank(st);
                let hl = r.heading(heading_index(level));
                let (sp, p2) = inline_spec(r, ev, pos + 1, MdEnd::Heading(level), hl, false);
                (DocState { needs_space: true, ..add_line(s1, sp, pieces_text(sp)) }, p2)
            },
            MdTag::CodeBlock(kind) => code_block_step(r, ev, pos, st, kind),
            MdTag::List(start) => {
                let s1 = if st.needs_space {
                    DocState { needs_space: false, ..blank(st) }
                } else {
                    st
                };
                let c = match start {
                    Some(n) => n as usize,
                    None => 1usize,
                };
                (DocState { counters: s1.counters.push(c), ..s1 }, pos + 1)
            },
            MdTag::Item => {
                if st.counters.len() > 0 {
                    let depth = st.counters.len();
                    let c = st.counters.last();
                    let next = if c == usize::MAX {
                        0usize
                    } else {
                        (c + 1) as usize
                    };
                    let s1 = DocState { counters: st.counters.update(depth - 1, next), ..st };
                    let (items, p2) = inline_spec(r, ev, pos + 1, MdEnd::Item, r.para, false);
                    let bullet_color = match r.bullet {
                        Some(b) => b,
                        None => Color::DarkGray,
                    };
                    let line = seq![(bullet_text(depth, c), Style::spec_default().spec_fg(bullet_color))] + items;
                    (add_line(s1, line, pieces_text(line)), p2)
                } else {
                    (st, pos + 1)
                }
            },
            MdTag::Table(aligns) => (
                DocState {
                    in_table: true,
                    headers: Seq::empty(),
                    rows: Seq::empty(),
                    aligns: aligns@,
                    ..st
                },
                pos + 1,
            ),
            MdTag::TableHead => {
                let (row, p2) = row_from(r, ev, pos + 1, Seq::empty());
                (DocState { headers: row, ..st }, p2)
            },
            MdTag::TableRow => {
                let (row, p2) = row_from(r, ev, pos + 1, Seq::empty());
                (DocState { rows: st.rows.push(row), ..st }, p2)
            },
            MdTag::BlockQuote => {
                let depth = st.quote_depth + 1;
                let s1 = blank(DocState { quote_depth: depth, ..st });
                let (sp, p2) = inline_spec(r, ev, pos + 1, MdEnd::BlockQuote(false), r.para, true);
                let color = match r.quote_mark {
                    Some(c) => c,
                    None => quote_palette(depth),
                };
                let mark = Style::spec_default().spec_fg(color);
                (DocState { needs_space: true, ..add_lines(s1, quote_lines(quote_groups(sp), mark)) }, p2)
            },
            MdTag::FootnoteDefinition => (st, skip_from(ev, pos + 1, MdEnd::FootnoteDefinition)),
            _ => (st, pos + 1),
        },
        MdEvent::End(t) => match t {
            MdEnd::List(_) => (
                DocState {
                    counters: if st.counters.len() > 0 {
                        st.counters.drop_last()
                    } else {
                        st.counters
                    },
                    needs_space: true,
                    ..st
                },
                pos + 1,
            ),
            MdEnd::BlockQuote(_) => (
                DocState {
                    quote_depth: if st.quote_depth > 0 {
                        (st.quote_depth - 1) as nat
                    } else {
                        0
                    },
                    ..st
                },
                pos + 1,
            ),
            MdEnd::Table => if st.in_table {
                let s1 = blank(st);
                let t = table_lines(
                    s1.headers,
                    s1.rows,
                    row_widths(s1.headers),
                    rows_widths(s1.rows),
                    s1.aligns,
                    r.table_border.spec_as_style(),
                );
                (DocState { in_table: false, needs_space: true, ..add_lines(s1, t) }, pos + 1)
            } else {
                (st, pos + 1)
            },
            _ => (st, pos + 1),
        },
        MdEvent::Rule => {
            let s1 = blank(st);
            let rule_color = match r.rule {
                Some(c) => c,
                None => Color::DarkGray,
            };
            (
                DocState {
                    needs_space: true,
                    ..add_line(s1, seq![(run('─', 80), Style::spec_default().spec_fg(rule_color))], Seq::empty())
                },
                pos + 1,
            )
        },
        MdEvent::Html(t) => (add_line(st, seq![(t@, r.code.spec_as_style())], t@), pos + 1),
        _ => (st, pos + 1),
    }
}

/// An item of a list puts the list's current number on its bullet (no
/// number when it is 0), indented below the first level, and the next item
/// of that list gets the number after it.
pub proof fn law_item_takes_next_number(r: Renderer, ev: Seq<MdEvent>, pos: int, st: DocState)
    requires
        0 <= pos < ev.len(),
        ev[pos] == MdEvent::Start(MdTag::Item),
        st.counters.len() > 0,
        st.counters.last() < usize::MAX,
    ensures
        ({
            let s2 = doc_step(r, ev, pos, st).0;
            let c = st.counters.last();
            &&& s2.lines.len() == st.lines.len() + 1
            &&& s2.lines.last()[0].0 == (if st.counters.len() == 1 { "• "@ } else { "  • "@ }) + (if c == 0 {
                Seq::empty()
            } else {
                decimal(c as nat)
            }) + " "@
            &&& s2.counters.len() == st.counters.len()
            &&& s2.counters.last() == c + 1
            &&& s2.counters.drop_last() == st.counters.drop_last()
        }),
{
    let depth = st.counters.len();
    let c = st.counters.last();
    let s2 = doc_step(r, ev, pos, st).0;
    assert(s2.counters =~= st.counters.update(depth - 1, (c + 1) as usize));
    assert(s2.counters.drop_last() =~= st.counters.drop_last());
}

/// An ordered list whose first number is `n` numbers its first item `n`, and
/// counts on from there: the item right after the list opens has `n` on its
/// bullet, and the list's number is then `n + 1`.
pub proof fn law_ordered_list_starts_at_its_number(r: Renderer, ev: Seq<MdEvent>, pos: int, st: DocState, n: u64)
    requires
        0 <= pos,
        pos + 1 < ev.len(),
        ev[pos] == MdEvent::Start(MdTag::List(Some(n))),
        ev[pos + 1] == MdEvent::Start(MdTag::Item),
        1 <= n < usize::MAX,
    ensures
        ({
            let s1 = doc_step(r, ev, pos, st).0;
            let p1 = doc_step(r, ev, pos, st).1;
            let s2 = doc_step(r, ev, p1, s1).0;
            &&& p1 == pos + 1
            &&& s2.lines.len() == s1.lines.len() + 1
            &&& s2.lines.last()[0].0 == (if st.counters.len() == 0 { "• "@ } else { "  • "@ }) + decimal(
                n as nat,
            ) + " "@
            &&& s2.counters.len() == st.counters.len() + 1
            &&& s2.counters.last() == n + 1
            &&& s2.counters.drop_last() == st.counters
        }),
{
    let s1 = doc_step(r, ev, pos, st).0;
    assert(s1.counters == st.counters.push(n as usize));
    law_item_takes_next_number(r, ev, pos + 1, s1);
    assert(s1.counters.drop_last() =~= st.counters);
}

/// A list without a first number counts from 1: the item right after it
/// opens has 1 on its bullet, and the list's number is then 2.
pub proof fn law_list_without_number_starts_at_one(r: Renderer, ev: Seq<MdEvent>, pos: int, st: DocState)
    requires
        0 <= pos,
        pos + 1 < ev.len(),
        ev[pos] == MdEvent::Start(MdTag::List(None)),
        ev[pos + 1] == MdEvent::Start(MdTag::Item),
    ensures
        ({
            let s1 = doc_step(r, ev, pos, st).0;
            let p1 = doc_step(r, ev, pos, st).1;
            let s2 = doc_step(r, ev, p1, s1).0;
            &&& p1 == pos + 1
            &&& s2.lines.len() == s1.lines.len() + 1
            &&& s2.lines.last()[0].0 == (if st.counters.len() == 0 { "• "@ } else { "  • "@ }) + decimal(1) + " "@
            &&& s2.counters.len() == st.counters.len() + 1
            &&& s2.counters.last() == 2
        }),
{
    let s1 = doc_step(r, ev, pos, st).0;
    assert(s1.counters == st.counters.push(1usize));
    law_item_takes_next_number(r, ev, pos + 1, s1);
}

/// The state after rendering the events from `pos` on.
pub open spec fn doc_from(r: Renderer, ev: Seq<MdEvent>, pos: int, st: DocState) -> DocState
    decreases ev.len() - pos,
{
    if pos < 0 || pos >= ev.len() {
        st
    } else {
        let (st2, p2) = doc_step(r, ev, pos, st);
        doc_from(
            r,
            ev,
            if p2 > pos && p2 <= ev.len() {
                p2
            } else {
                pos + 1
            },
            st2,
        )
    }
}

/// The lines and plain texts of a document's events.
pub open spec fn render_spec(r: Renderer, ev: Seq<MdEvent>) -> (Seq<Seq<SpanV>>, Seq<Seq<char>>) {
    let st = doc_from(r, ev, 0, doc_init());
    (st.lines, st.raw)
}

/// The state of rendering a document.
struct Doc {
    lines: Vec<Line>,
    raw: Vec<String>,
    counters: Vec<usize>,
    in_table: bool,
    headers: Vec<Vec<Span>>,
    rows: Vec<Vec<Vec<Span>>>,
    aligns: Vec<Align>,
    needs_space: bool,
    quote_depth: usize,
}

spec fn doc_view(d: Doc) -> DocState {
    DocState {
        lines: lines_view(d.lines@),
        raw: strs_view(d.raw@),
        counters: d.counters@,
        in_table: d.in_table,
        headers: cells_view(d.headers@),
        rows: rows_view(d.rows@),
        aligns: d.aligns@,
        needs_space: d.needs_space,
        quote_depth: d.quote_depth as nat,
    }
}

fn push_blank(d: &mut Doc)
    ensures
        doc_view(*final(d)) == blank(doc_view(*old(d))),
{
    if d.needs_space {
        let ghost lv = lines_view(d.lines@);
        let ghost rv = strs_view(d.raw@);
        d.lines.push(Line { spans: Vec::new() });
        d.raw.push(String::new());
        assert(spans_view(Seq::<Span>::empty()) =~= Seq::<SpanV>::empty());
        assert(lines_view(d.lines@) =~= lv.push(Seq::empty()));
        assert(strs_view(d.raw@) =~= rv.push(Seq::empty()));
    }
}

fn push_doc_line(d: &mut Doc, l: Line, r: String)
    ensures
        doc_view(*final(d)) == add_line(doc_view(*old(d)), spans_view(l.spans@), r@),
{
    push_line(&mut d.lines, &mut d.raw, l, r);
}

fn copy_aligns(a: &Vec<Align>) -> (r: Vec<Align>)
    ensures
        r@ == a@,
{
    let mut out: Vec<Align> = Vec::new();
    let mut i: usize = 0;
    while i < a.len()
        invariant
            i <= a@.len(),
            out@ == a@.subrange(0, i as int),
        decreases a.len() - i,
    {
        out.push(a[i]);
        i = i + 1;
        assert(out@ =~= a@.subrange(0, i as int));
    }
    assert(a@.subrange(0, a@.len() as int) =~= a@);
    out
}

impl Renderer {
    /// A paragraph or heading: a line of its inline content in `base`.
    fn text_block(&self, ev: &Vec<MdEvent>, pos: usize, end: MdEnd, base: ThemeStyle, d: &mut Doc) -> (p2: usize)
        requires
            pos < ev@.len(),
        ensures
            p2 <= ev@.len(),
            ({
                let s1 = blank(doc_view(*old(d)));
                let (sp, q) = inline_spec(*self, ev@, pos + 1, end, base, false);
                doc_view(*final(d)) == DocState { needs_space: true, ..add_line(s1, sp, pieces_text(sp)) }
                    && p2 as int == q
            }),
    {
        let n = ev.len();
        push_blank(d);
        let (spans, p2) = self.collect_inline(ev, pos + 1, end, base, false);
        let l = Line { spans };
        let t = l.text();
        proof {
            lemma_spans_text_view(l.spans@);
        }
        push_doc_line(d, l, t);
        d.needs_space = true;
        p2
    }

    fn code_block(&self, ev: &Vec<MdEvent>, pos: usize, kind: &Option<String>, d: &mut Doc) -> (p2: usize)
        requires
            pos < ev@.len(),
        ensures
            p2 <= ev@.len(),
            (doc_view(*final(d)), p2 as int) == code_block_step(*self, ev@, pos as int, doc_view(*old(d)), *kind),
    {
        let n = ev.len();
        push_blank(d);
        let fenced = match kind {
            Some(info) => !str_is_empty(info.as_str()),
            None => false,
        };
        if fenced {
            let info = match kind {
                Some(i) => i.clone(),
                None => String::new(),
            };
            let mut head = String::from_str(" ");
            head.append(info.as_str());
            head.append(" ");
            let mut sp: Vec<Span> = Vec::new();
            push_span(&mut sp, Span::styled(head, Style::new().fg(Color::DarkGray).add_modifier(Modifier::bold())));
            assert(spans_view(sp@) =~= seq![info_piece(info@)]);
            push_doc_line(d, Line { spans: sp }, info.clone());
        }
        let (code, p2) = collect_code(ev, pos + 1);
        let ghost s2 = doc_view(*d);
        let style = self.code_block.as_style();
        if fenced {
            let info = match kind {
                Some(i) => i.as_str(),
                None => "",
            };
            match crate::highlight::highlight_code(info, &code, self.code_block.bg) {
                Some(es) => {
                    push_hl_code(es, &mut d.lines, &mut d.raw);
                },
                None => {
                    push_plain_code(&code, style, &mut d.lines, &mut d.raw);
                },
            }
        } else {
            push_plain_code(&code, style, &mut d.lines, &mut d.raw);
        }
        d.needs_space = true;
        p2
    }

    fn list_item(&self, ev: &Vec<MdEvent>, pos: usize, d: &mut Doc) -> (p2: usize)
        requires
            pos < ev@.len(),
            ev@[pos as int] matches MdEvent::Start(MdTag::Item),
        ensures
            p2 <= ev@.len(),
            (doc_view(*final(d)), p2 as int) == doc_step(*self, ev@, pos as int, doc_view(*old(d))),
    {
        let n = ev.len();
        let depth = d.counters.len();
        if depth == 0 {
            return pos + 1;
        }
        let ghost st = doc_view(*d);
        let c = d.counters[depth - 1];
        let bullet = bullet_exec(depth, c);
        let next = if c == usize::MAX {
            0
        } else {
            c + 1
        };
        d.counters.set(depth - 1, next);
        let ghost s1 = doc_view(*d);
        assert(s1 == DocState { counters: st.counters.update(depth - 1, next), ..st });
        let (items, p2) = self.collect_inline(ev, pos + 1, MdEnd::Item, self.para, false);
        let bc = match self.bullet {
            Some(b) => b,
            None => Color::DarkGray,
        };
        let mut spans: Vec<Span> = Vec::new();
        push_span(&mut spans, Span::styled(bullet, Style::new().fg(bc)));
        append_spans(&mut spans, items);
        let l = Line { spans };
        let t = l.text();
        proof {
            lemma_spans_text_view(l.spans@);
        }
        let ghost line = spans_view(l.spans@);
        assert(line =~= seq![(bullet_text(depth as nat, c), Style::spec_default().spec_fg(bc))] + spans_view(items@));
        push_doc_line(d, l, t);
        assert(doc_view(*d) == add_line(s1, line, pieces_text(line)));
        p2
    }

    fn block_quote(&self, ev: &Vec<MdEvent>, pos: usize, d: &mut Doc) -> (p2: usize)
        requires
            pos < ev@.len(),
            old(d).quote_depth <= pos,
            ev@[pos as int] matches MdEvent::Start(MdTag::BlockQuote),
        ensures
            p2 <= ev@.len(),
            final(d).quote_depth <= pos + 1,
            (doc_view(*final(d)), p2 as int) == doc_step(*self, ev@, pos as int, doc_view(*old(d))),
    {
        let n = ev.len();
        d.quote_depth = d.quote_depth + 1;
        push_blank(d);
        let (spans, p2) = self.collect_inline(ev, pos + 1, MdEnd::BlockQuote(false), self.para, true);
        let groups = split_quote(spans);
        let color = match self.quote_mark {
            Some(c) => c,
            None => {
                let k = (d.quote_depth - 1) % 3;
                if k == 0 {
                    Color::Rgb(106, 153, 85)
                } else if k == 1 {
                    Color::Rgb(86, 156, 214)
                } else {
                    Color::Rgb(212, 71, 71)
                }
            },
        };
        let mark = Style::new().fg(color);
        let ghost gv = groups_view(groups@);
        let ghost s1 = doc_view(*d);
        let mut i: usize = 0;
        assert(gv.subrange(0, 0) =~= Seq::<Seq<SpanV>>::empty());
        assert(add_lines(s1, quote_lines(gv.subrange(0, 0), mark)) =~= s1);
        while i < groups.len()
            invariant
                i <= groups@.len(),
                gv == groups_view(groups@),
                doc_view(*d) == add_lines(s1, quote_lines(gv.subrange(0, i as int), mark)),
            decreases groups.len() - i,
        {
            let g = &groups[i];
            let mut sp: Vec<Span> = Vec::new();
            push_span(&mut sp, Span::styled(String::from_str("▐ "), mark));
            let mut k: usize = 0;
            let ghost sp0 = spans_view(sp@);
            while k < g.len()
                invariant
                    k <= g@.len(),
                    spans_view(sp@) == sp0 + spans_view(g@).subrange(0, k as int),
                decreases g.len() - k,
            {
                push_span(&mut sp, g[k].copy());
                assert(spans_view(g@).subrange(0, k + 1) =~= spans_view(g@).subrange(0, k as int).push(
                    span_view(g@[k as int]),
                ));
                k = k + 1;
            }
            assert(spans_view(g@).subrange(0, g@.len() as int) =~= spans_view(g@));
            let t = Line::text_of(g);
            let ghost before = doc_view(*d);
            push_doc_line(d, Line { spans: sp }, t);
            proof {
                let sub = gv.subrange(0, i + 1);
                assert(sub.drop_last() =~= gv.subrange(0, i as int));
                assert(sub.last() == spans_view(g@));
                lemma_spans_text_view(g@);
                let (a, b) = quote_lines(gv.subrange(0, i as int), mark);
                let (a2, b2) = quote_lines(sub, mark);
                assert(a2 == a.push(seq![("▐ "@, mark)] + sub.last()));
                assert(b2 == b.push(pieces_text(sub.last())));
                assert(spans_view(sp@) =~= seq![("▐ "@, mark)] + sub.last());
                assert(before.lines =~= s1.lines + a);
                assert(doc_view(*d).lines =~= s1.lines + a2);
                assert(doc_view(*d).raw =~= s1.raw + b2);
                assert(doc_view(*d) =~= add_lines(s1, quote_lines(sub, mark)));
            }
            i = i + 1;
        }
        assert(gv.subrange(0, groups@.len() as int) =~= gv);
        d.needs_space = true;
        p2
    }
}


fn heading_index_exec(level: u8) -> (r: usize)
    ensures
        r as int == heading_index(level),
{
    if level == 0 {
        0
    } else if level - 1 > 5 {
        5
    } else {
        (level - 1) as usize
    }
}

impl Renderer {
    /// Handles the event at `pos`: the executable form of `doc_step`.
    fn step(&self, ev: &Vec<MdEvent>, pos: usize, d: &mut Doc) -> (p2: usize)
        requires
            pos < ev@.len(),
            old(d).quote_depth <= pos,
        ensures
            p2 <= ev@.len(),
            final(d).quote_depth <= pos + 1,
            (doc_view(*final(d)), p2 as int) == doc_step(*self, ev@, pos as int, doc_view(*old(d))),
    {
        let n = ev.len();
        match &ev[pos] {
            MdEvent::Start(tag) => match tag {
                MdTag::Paragraph => self.text_block(ev, pos, MdEnd::Paragraph, self.para, d),
                MdTag::Heading(level) => {
                    let hl = self.heading_exec(heading_index_exec(*level));
                    self.text_block(ev, pos, MdEnd::Heading(*level), hl, d)
                },
                MdTag::CodeBlock(kind) => self.code_block(ev, pos, kind, d),
                MdTag::List(start) => {
                    if d.needs_space {
                        push_blank(d);
                        d.needs_space = false;
                    }
                    let c: usize = match start {
                        Some(k) => #[verifier::truncate] (*k as usize),
                        None => 1,
                    };
                    let ghost s1 = doc_view(*d);
                    d.counters.push(c);
                    assert(doc_view(*d) =~= DocState { counters: s1.counters.push(c), ..s1 });
                    pos + 1
                },
                MdTag::Item => self.list_item(ev, pos, d),
                MdTag::Table(aligns) => {
                    d.in_table = true;
                    d.headers = Vec::new();
                    d.rows = Vec::new();
                    d.aligns = copy_aligns(aligns);
                    proof {
                        assert(cells_view(d.headers@) =~= Seq::<Seq<SpanV>>::empty());
                        assert(rows_view(d.rows@) =~= Seq::<Seq<Seq<SpanV>>>::empty());
                    }
                    pos + 1
                },
                MdTag::TableHead => {
                    let (row, p2) = self.collect_table_row(ev, pos + 1);
                    d.headers = row;
                    p2
                },
                MdTag::TableRow => {
                    let (row, p2) = self.collect_table_row(ev, pos + 1);
                    let ghost rv = rows_view(d.rows@);
                    let ghost cv = cells_view(row@);
                    d.rows.push(row);
                    assert(rows_view(d.rows@) =~= rv.push(cv));
                    p2
                },
                MdTag::BlockQuote => self.block_quote(ev, pos, d),
                MdTag::FootnoteDefinition => skip_to(ev, pos + 1, MdEnd::FootnoteDefinition),
                _ => pos + 1,
            },
            MdEvent::End(t) => match t {
                MdEnd::List(_) => {
                    if d.counters.len() > 0 {
                        d.counters.pop();
                    }
                    d.needs_space = true;
                    pos + 1
                },
                MdEnd::BlockQuote(_) => {
                    if d.quote_depth > 0 {
                        d.quote_depth = d.quote_depth - 1;
                    }
                    pos + 1
                },
                MdEnd::Table => {
                    if d.in_table {
                        push_blank(d);
                        let ghost s1 = doc_view(*d);
                        d.in_table = false;
                        self.render_table(&d.headers, &d.rows, &d.aligns, &mut d.lines, &mut d.raw);
                        d.needs_space = true;
                        proof {
                            let t = table_lines(
                                s1.headers,
                                s1.rows,
                                row_widths(s1.headers),
                                rows_widths(s1.rows),
                                s1.aligns,
                                self.table_border.spec_as_style(),
                            );
                            assert(doc_view(*d) =~= DocState { in_table: false, needs_space: true, ..add_lines(s1, t) });
                        }
                    }
                    pos + 1
                },
                _ => pos + 1,
            },
            MdEvent::Rule => {
                push_blank(d);
                let rc = match self.rule {
                    Some(c) => c,
                    None => Color::DarkGray,
                };
                let mut sp: Vec<Span> = Vec::new();
                push_span(&mut sp, Span::styled(run_exec('─', 80), Style::new().fg(rc)));
                assert(spans_view(sp@) =~= seq![(run('─', 80), Style::spec_default().spec_fg(rc))]);
                push_doc_line(d, Line { spans: sp }, String::new());
                d.needs_space = true;
                pos + 1
            },
            MdEvent::Html(t) => {
                let mut sp: Vec<Span> = Vec::new();
                push_span(&mut sp, Span::styled(t.clone(), self.code.as_style()));
                assert(spans_view(sp@) =~= seq![(t@, self.code.spec_as_style())]);
                push_doc_line(d, Line { spans: sp }, t.clone());
                pos + 1
            },
            _ => pos + 1,
        }
    }

    /// Renders a document's events into styled lines and their plain texts,
    /// one plain text for each line.
    pub fn render_events(&self, ev: &Vec<MdEvent>) -> (r: (Vec<Line>, Vec<String>))
        ensures
            (lines_view(r.0@), strs_view(r.1@)) == render_spec(*self, ev@),
            r.0@.len() == r.1@.len(),
    {
        let mut d = Doc {
            lines: Vec::new(),
            raw: Vec::new(),
            counters: Vec::new(),
            in_table: false,
            headers: Vec::new(),
            rows: Vec::new(),
            aligns: Vec::new(),
            needs_space: false,
            quote_depth: 0,
        };
        proof {
            assert(lines_view(d.lines@) =~= Seq::<Seq<SpanV>>::empty());
            assert(strs_view(d.raw@) =~= Seq::<Seq<char>>::empty());
            assert(cells_view(d.headers@) =~= Seq::<Seq<SpanV>>::empty());
            assert(rows_view(d.rows@) =~= Seq::<Seq<Seq<SpanV>>>::empty());
            assert(doc_view(d) =~= doc_init());
        }
        let mut p: usize = 0;
        while p < ev.len()
            invariant
                p <= ev@.len(),
                d.quote_depth <= p,
                doc_from(*self, ev@, p as int, doc_view(d)) == doc_from(*self, ev@, 0, doc_init()),
            decreases ev@.len() - p,
        {
            let p2 = self.step(ev, p, &mut d);
            p = if p2 > p && p2 <= ev.len() {
                p2
            } else {
                p + 1
            };
        }
        proof {
            lemma_doc_from_lengths(*self, ev@, 0, doc_init());
        }
        (d.lines, d.raw)
    }
}

proof fn lemma_plain_code_len(ls: Seq<Seq<char>>, st: Style)
    ensures
        plain_code(ls, st).0.len() == ls.len(),
        plain_code(ls, st).1.len() == ls.len(),
    decreases ls.len(),
{
    if ls.len() > 0 {
        lemma_plain_code_len(ls.drop_last(), st);
    }
}

proof fn lemma_hl_code_len(es: Seq<(Seq<SpanV>, Seq<char>)>)
    ensures
        hl_code(es).0.len() == es.len(),
        hl_code(es).1.len() == es.len(),
    decreases es.len(),
{
    if es.len() > 0 {
        lemma_hl_code_len(es.drop_last());
    }
}

proof fn lemma_quote_lines_len(gs: Seq<Seq<SpanV>>, mark: Style)
    ensures
        quote_lines(gs, mark).0.len() == gs.len(),
        quote_lines(gs, mark).1.len() == gs.len(),
    decreases gs.len(),
{
    if gs.len() > 0 {
        lemma_quote_lines_len(gs.drop_last(), mark);
    }
}

proof fn lemma_rows_lines_len(
    rows: Seq<Seq<Seq<SpanV>>>,
    rw: Seq<Seq<usize>>,
    widths: Seq<usize>,
    st: Style,
    aligns: Seq<Align>,
)
    ensures
        rows_lines(rows, rw, widths, st, aligns).0.len() == rows.len(),
        rows_lines(rows, rw, widths, st, aligns).1.len() == rows.len(),
    decreases rows.len(),
{
    if rows.len() > 0 {
        lemma_rows_lines_len(rows.drop_last(), rw, widths, st, aligns);
    }
}

proof fn lemma_step_lengths(r: Renderer, ev: Seq<MdEvent>, pos: int, st: DocState)
    requires
        0 <= pos < ev.len(),
        st.lines.len() == st.raw.len(),
    ensures
        doc_step(r, ev, pos, st).0.lines.len() == doc_step(r, ev, pos, st).0.raw.len(),
{
    match ev[pos] {
        MdEvent::Start(MdTag::CodeBlock(kind)) => {
            let (code, p2) = code_from(ev, pos + 1, Seq::empty());
            lemma_plain_code_len(crate::text::lines_from(code, 0), r.code_block.spec_as_style());
            let info = match kind {
                Some(i) => i@,
                None => Seq::empty(),
            };
            match crate::highlight::highlight_spec(info, code, r.code_block.bg) {
                Some(es) => lemma_hl_code_len(es),
                None => {},
            }
        },
        MdEvent::Start(MdTag::BlockQuote) => {
            let (sp, p2) = inline_spec(r, ev, pos + 1, MdEnd::BlockQuote(false), r.para, true);
            let color = match r.quote_mark {
                Some(c) => c,
                None => quote_palette(st.quote_depth + 1),
            };
            lemma_quote_lines_len(quote_groups(sp), Style::spec_default().spec_fg(color));
        },
        MdEvent::End(MdEnd::Table) => {
            let s1 = blank(st);
            let widths = column_widths(row_widths(s1.headers), rows_widths(s1.rows));
            lemma_rows_lines_len(s1.rows, rows_widths(s1.rows), widths, r.table_border.spec_as_style(), s1.aligns);
        },
        _ => {},
    }
}

proof fn lemma_doc_from_lengths(r: Renderer, ev: Seq<MdEvent>, pos: int, st: DocState)
    requires
        st.lines.len() == st.raw.len(),
    ensures
        doc_from(r, ev, pos, st).lines.len() == doc_from(r, ev, pos, st).raw.len(),
    decreases ev.len() - pos,
{
    if 0 <= pos < ev.len() {
        let (st2, p2) = doc_step(r, ev, pos, st);
        lemma_step_lengths(r, ev, pos, st);
        lemma_doc_from_lengths(r, ev, if p2 > pos && p2 <= ev.len() { p2 } else { pos + 1 }, st2);
    }
}

/// Every rendered line has exactly one plain text beside it: the two
/// sequences a document renders to are equally long.
pub proof fn law_one_text_per_line(r: Renderer, ev: Seq<MdEvent>)
    ensures
        render_spec(r, ev).0.len() == render_spec(r, ev).1.len(),
{
    lemma_doc_from_lengths(r, ev, 0, doc_init());
}

/// Renders markdown `content` with the styles of `theme`: the styled lines
/// and, for each of them, its plain text.
pub fn render(content: &str, theme: &Theme) -> (r: (Vec<Line>, Vec<String>))
    ensures
        (lines_view(r.0@), strs_view(r.1@)) == render_spec(renderer_spec(theme@), md_events(content@)),
        r.0@.len() == r.1@.len(),
{
    let renderer = Renderer::new(theme);
    let ev = markdown_events(content);
    renderer.render_events(&ev)
}

} // verus!
