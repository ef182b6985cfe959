//! Plain-value model of terminal styling: colours, text modifiers,
//! styles, spans and lines.

use vstd::prelude::*;

verus! {

/// A terminal colour.
#[derive(Clone, Copy, Debug, PartialEq, Eq, Structural)]
pub enum Color {
    Reset,
    Black,
    Red,
    Green,
    Yellow,
    Blue,
    Magenta,
    Cyan,
    Gray,
    DarkGray,
    LightRed,
    LightGreen,
    LightYellow,
    LightBlue,
    LightMagenta,
    LightCyan,
    White,
    Rgb(u8, u8, u8),
    Indexed(u8),
}

/// A set of text modifiers.
#[derive(Clone, Copy, Debug, PartialEq, Eq, Structural)]
pub struct Modifier {
    pub bold: bool,
    pub dim: bool,
    pub italic: bool,
    pub underlined: bool,
    pub crossed_out: bool,
}

impl Modifier {
    pub open spec fn spec_empty() -> Modifier {
        Modifier { bold: false, dim: false, italic: false, underlined: false, crossed_out: false }
    }

    pub open spec fn spec_union(self, o: Modifier) -> Modifier {
        Modifier {
            bold: self.bold || o.bold,
            dim: self.dim || o.dim,
            italic: self.italic || o.italic,
            underlined: self.underlined || o.underlined,
            crossed_out: self.crossed_out || o.crossed_out,
        }
    }

    pub open spec fn spec_minus(self, o: Modifier) -> Modifier {
        Modifier {
            bold: self.bold && !o.bold,
            dim: self.dim && !o.dim,
            italic: self.italic && !o.italic,
            underlined: self.underlined && !o.underlined,
            crossed_out: self.crossed_out && !o.crossed_out,
        }
    }

    /// No modifier.
    pub fn empty() -> (r: Modifier)
        ensures
            r == Modifier::spec_empty(),
    {
        Modifier { bold: false, dim: false, italic: false, underlined: false, crossed_out: false }
    }

    /// Bold only.
    pub fn bold() -> (r: Modifier)
        ensures
            r == (Modifier { bold: true, ..Modifier::spec_empty() }),
    {
        Modifier { bold: true, dim: false, italic: false, underlined: false, crossed_out: false }
    }

    /// Dim only.
    pub fn dim() -> (r: Modifier)
        ensures
            r == (Modifier { dim: true, ..Modifier::spec_empty() }),
    {
        Modifier { bold: false, dim: true, italic: false, underlined: false, crossed_out: false }
    }

    /// Italic only.
    pub fn italic() -> (r: Modifier)
        ensures
            r == (Modifier { italic: true, ..Modifier::spec_empty() }),
    {
        Modifier { bold: false, dim: false, italic: true, underlined: false, crossed_out: false }
    }

    /// Underlined only.
    pub fn underlined() -> (r: Modifier)
        ensures
            r == (Modifier { underlined: true, ..Modifier::spec_empty() }),
    {
        Modifier { bold: false, dim: false, italic: false, underlined: true, crossed_out: false }
    }

    /// Crossed out only.
    pub fn crossed_out() -> (r: Modifier)
        ensures
            r == (Modifier { crossed_out: true, ..Modifier::spec_empty() }),
    {
        Modifier { bold: false, dim: false, italic: false, underlined: false, crossed_out: true }
    }

    /// The modifiers in either set.
    pub fn union(self, o: Modifier) -> (r: Modifier)
        ensures
            r == self.spec_union(o),
    {
        Modifier {
            bold: self.bold || o.bold,
            dim: self.dim || o.dim,
            italic: self.italic || o.italic,
            underlined: self.underlined || o.underlined,
            crossed_out: self.crossed_out || o.crossed_out,
        }
    }

    /// The modifiers of `self` that are not in `o`.
    pub fn minus(self, o: Modifier) -> (r: Modifier)
        ensures
            r == self.spec_minus(o),
    {
        Modifier {
            bold: self.bold && !o.bold,
            dim: self.dim && !o.dim,
            italic: self.italic && !o.italic,
            underlined: self.underlined && !o.underlined,
            crossed_out: self.crossed_out && !o.crossed_out,
        }
    }
}

/// A text style: optional colours, the modifiers it adds and the modifiers it removes.
#[derive(Clone, Copy, Debug, PartialEq, Eq, Structural)]
pub struct Style {
    pub fg: Option<Color>,
    pub bg: Option<Color>,
    pub add_modifier: Modifier,
    pub sub_modifier: Modifier,
}

impl Style {
    pub open spec fn spec_default() -> Style {
        Style {
            fg: None,
            bg: None,
            add_modifier: Modifier::spec_empty(),
            sub_modifier: Modifier::spec_empty(),
        }
    }

    pub open spec fn spec_fg(self, c: Color) -> Style {
        Style { fg: Some(c), ..self }
    }

    pub open spec fn spec_bg(self, c: Color) -> Style {
        Style { bg: Some(c), ..self }
    }

    pub open spec fn spec_add(self, m: Modifier) -> Style {
        Style {
            add_modifier: self.add_modifier.spec_union(m),
            sub_modifier: self.sub_modifier.spec_minus(m),
            ..self
        }
    }

    pub open spec fn spec_remove(self, m: Modifier) -> Style {
        Style {
            add_modifier: self.add_modifier.spec_minus(m),
            sub_modifier: self.sub_modifier.spec_union(m),
            ..self
        }
    }

    /// The style that sets nothing.
    pub fn new() -> (r: Style)
        ensures
            r == Style::spec_default(),
    {
        Style { fg: None, bg: None, add_modifier: Modifier::empty(), sub_modifier: Modifier::empty() }
    }

    /// This style with foreground colour `c`.
    pub fn fg(self, c: Color) -> (r: Style)
        ensures
            r == self.spec_fg(c),
    {
        Style { fg: Some(c), ..self }
    }

    /// This style with background colour `c`.
    pub fn bg(self, c: Color) -> (r: Style)
        ensures
            r == self.spec_bg(c),
    {
        Style { bg: Some(c), ..self }
    }

    /// This style, also adding the modifiers `m`.
    pub fn add_modifier(self, m: Modifier) -> (r: Style)
        ensures
            r == self.spec_add(m),
    {
        Style {
            add_modifier: self.add_modifier.union(m),
            sub_modifier: self.sub_modifier.minus(m),
            ..self
        }
    }

    /// This style, also removing the modifiers `m`.
    pub fn remove_modifier(self, m: Modifier) -> (r: Style)
        ensures
            r == self.spec_remove(m),
    {
        Style {
            add_modifier: self.add_modifier.minus(m),
            sub_modifier: self.sub_modifier.union(m),
            ..self
        }
    }
}

/// A piece of text in one style.
#[derive(Debug)]
pub struct Span {
    pub content: String,
    pub style: Style,
}

/// A line of styled text.
#[derive(Debug)]
pub struct Line {
    pub spans: Vec<Span>,
}

/// Mathematical view of a span: its characters and its style.
pub open spec fn span_view(s: Span) -> (Seq<char>, Style) {
    (s.content@, s.style)
}

/// The text of a sequence of spans, concatenated.
pub open spec fn spans_text(s: Seq<Span>) -> Seq<char>
    decreases s.len(),
{
    if s.len() == 0 {
        Seq::empty()
    } else {
        spans_text(s.drop_last()) + s.last().content@
    }
}

impl Span {
    /// A span of `content` in `style`.
    pub fn styled(content: String, style: Style) -> (r: Span)
        ensures
            r.content@ == content@,
            r.style == style,
    {
        Span { content, style }
    }

    /// A span of `content` in the style that sets nothing.
    pub fn raw(content: String) -> (r: Span)
        ensures
            r.content@ == content@,
            r.style == Style::spec_default(),
    {
        Span { content, style: Style::new() }
    }
}

/// The view of a sequence of spans: each span's characters and style.
pub open spec fn spans_view(s: Seq<Span>) -> Seq<(Seq<char>, Style)> {
    s.map_values(|sp: Span| span_view(sp))
}

/// The text of a sequence of styled pieces, concatenated.
pub open spec fn pieces_text(s: Seq<(Seq<char>, Style)>) -> Seq<char>
    decreases s.len(),
{
    if s.len() == 0 {
        Seq::empty()
    } else {
        pieces_text(s.drop_last()) + s.last().0
    }
}

/// The text of a single piece is its characters.
pub proof fn lemma_pieces_text_single(x: (Seq<char>, Style))
    ensures
        pieces_text(seq![x]) == x.0,
{
    let e = Seq::<(Seq<char>, Style)>::empty();
    assert(seq![x].drop_last() =~= e);
    assert(pieces_text(e) == Seq::<char>::empty());
    assert(seq![x].last() == x);
    assert(Seq::<char>::empty() + x.0 =~= x.0);
}

/// The text of a concatenation is the concatenation of the texts.
pub proof fn lemma_pieces_text_append(a: Seq<(Seq<char>, Style)>, b: Seq<(Seq<char>, Style)>)
    ensures
        pieces_text(a + b) == pieces_text(a) + pieces_text(b),
    decreases b.len(),
{
    if b.len() == 0 {
        assert(a + b =~= a);
        assert(pieces_text(a) + Seq::<char>::empty() =~= pieces_text(a));
    } else {
        assert((a + b).drop_last() =~= a + b.drop_last());
        lemma_pieces_text_append(a, b.drop_last());
        assert(pieces_text(a) + pieces_text(b.drop_last()) + b.last().0 =~= pieces_text(a) + (
        pieces_text(b.drop_last()) + b.last().0));
    }
}

/// The text of spans is the text of their views.
pub proof fn lemma_spans_text_view(s: Seq<Span>)
    ensures
        spans_text(s) == pieces_text(spans_view(s)),
    decreases s.len(),
{
    if s.len() > 0 {
        assert(spans_view(s).drop_last() =~= spans_view(s.drop_last()));
        lemma_spans_text_view(s.drop_last());
    }
}

impl Span {
    /// A copy of this span.
    pub fn copy(&self) -> (r: Span)
        ensures
            span_view(r) == span_view(*self),
    {
        Span { content: self.content.clone(), style: self.style }
    }
}

impl Line {
    /// A copy of this line.
    pub fn copy(&self) -> (r: Line)
        ensures
            spans_view(r.spans@) == spans_view(self.spans@),
    {
        let mut spans: Vec<Span> = Vec::new();
        let mut i: usize = 0;
        while i < self.spans.len()
            invariant
                i <= self.spans@.len(),
                spans_view(spans@) == spans_view(self.spans@.subrange(0, i as int)),
            decreases self.spans.len() - i,
        {
            let ghost before = spans@;
            let c = self.spans[i].copy();
            spans.push(c);
            proof {
                assert(spans_view(before).len() == before.len());
                assert(spans_view(self.spans@.subrange(0, i as int)).len() == i);
                assert(spans@.len() == i + 1);
                assert(spans@[i as int] == c);
                let a = spans_view(spans@);
                let b = spans_view(self.spans@.subrange(0, i + 1));
                assert forall|k: int| 0 <= k < a.len() implies a[k] == b[k] by {
                    if k < i {
                        assert(spans_view(before)[k] == spans_view(self.spans@.subrange(0, i as int))[k]);
                    }
                }
                assert(a =~= b);
            }
            i = i + 1;
        }
        assert(self.spans@.subrange(0, self.spans@.len() as int) =~= self.spans@);
        Line { spans }
    }

    /// A line made of `spans`.
    pub fn from_spans(spans: Vec<Span>) -> (r: Line)
        ensures
            r.spans@ == spans@,
    {
        Line { spans }
    }

    /// The text of the line: its spans' contents concatenated.
    pub fn text(&self) -> (r: String)
        ensures
            r@ == spans_text(self.spans@),
    {
        Line::text_of(&self.spans)
    }

    /// The text of `spans`: their contents concatenated.
    pub fn text_of(spans: &Vec<Span>) -> (r: String)
        ensures
            r@ == spans_text(spans@),
    {
        let mut out = String::new();
        let mut i: usize = 0;
        while i < spans.len()
            invariant
                i <= spans@.len(),
                out@ == spans_text(spans@.subrange(0, i as int)),
            decreases spans.len() - i,
        {
            assert(spans@.subrange(0, i + 1).drop_last() =~= spans@.subrange(0, i as int));
            out.append(spans[i].content.as_str());
            i = i + 1;
        }
        assert(spans@.subrange(0, spans@.len() as int) =~= spans@);
        out
    }
}

} // verus!
