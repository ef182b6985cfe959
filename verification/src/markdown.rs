//! Markdown events: the stream of block and inline events a CommonMark
//! parser produces, as plain values, and the call that produces them.

use vstd::prelude::*;

use pulldown_cmark::{Alignment, CodeBlockKind, Event, Options, Parser, Tag, TagEnd};

verus! {

/// Text alignment of a table column.
#[derive(Clone, Copy, Debug, PartialEq, Eq, Structural)]
pub enum Align {
    /// No alignment given.
    Unspecified,
    Left,
    Center,
    Right,
}

/// The element an event opens.
#[derive(Debug)]
pub enum MdTag {
    Paragraph,
    /// A heading of level 1 to 6.
    Heading(u8),
    BlockQuote,
    /// A code block; the info string of a fenced block, nothing for an indented one.
    CodeBlock(Option<String>),
    /// A list; the number of its first item when it is ordered.
    List(Option<u64>),
    Item,
    FootnoteDefinition,
    /// A table with the alignment of each column.
    Table(Vec<Align>),
    TableHead,
    TableRow,
    TableCell,
    Emphasis,
    Strong,
    Strikethrough,
    /// A link with its destination.
    Link(String),
    /// An image with its destination.
    Image(String),
    /// Any other element.
    Other,
}

/// The element an event closes.
#[derive(Clone, Copy, Debug, PartialEq, Eq, Structural)]
pub enum MdEnd {
    Paragraph,
    Heading(u8),
    /// The end of a block quote; `true` for a quote of a special kind (an alert).
    BlockQuote(bool),
    CodeBlock,
    /// The end of a list; `true` for an ordered one.
    List(bool),
    Item,
    FootnoteDefinition,
    Table,
    TableHead,
    TableRow,
    TableCell,
    Emphasis,
    Strong,
    Strikethrough,
    Link,
    Image,
    Other,
}

/// One event of a parsed markdown document.
#[derive(Debug)]
pub enum MdEvent {
    Start(MdTag),
    End(MdEnd),
    Text(String),
    Code(String),
    Html(String),
    SoftBreak,
    HardBreak,
    Rule,
    TaskListMarker(bool),
    Other,
}

#[verifier::external_type_specification]
#[verifier::external_body]
pub struct ExEvent<'a>(Event<'a>);

#[verifier::external_type_specification]
#[verifier::external_body]
pub struct ExTag<'a>(Tag<'a>);

#[verifier::external_type_specification]
#[verifier::external_body]
pub struct ExTagEnd(TagEnd);

#[verifier::external_type_specification]
#[verifier::external_body]
pub struct ExAlignment(Alignment);

/// The events `pulldown_cmark` produces for `content` with tables,
/// strikethrough and task lists enabled.
pub uninterp spec fn md_events(content: Seq<char>) -> Seq<MdEvent>;

/// Runs `pulldown_cmark::Parser::new_ext` with tables, strikethrough and task
/// lists enabled on `content` and collects its events as plain values. The
/// result is named by `md_events`: the parser's output depends on the text and
/// the options alone.
#[verifier::external_body]
pub(crate) fn markdown_events(content: &str) -> (r: Vec<MdEvent>)
    ensures
        r@ == md_events(content@),
{
    let opts = Options::ENABLE_TABLES | Options::ENABLE_STRIKETHROUGH | Options::ENABLE_TASKLISTS;
    Parser::new_ext(content, opts).map(md_event).collect()
}

/// Converts one parser event, variant by variant.
#[verifier::external_body]
fn md_event(e: Event) -> MdEvent {
    match e {
        Event::Start(t) => MdEvent::Start(md_tag(t)),
        Event::End(t) => MdEvent::End(md_end(t)),
        Event::Text(s) => MdEvent::Text(s.to_string()),
        Event::Code(s) => MdEvent::Code(s.to_string()),
        Event::Html(s) => MdEvent::Html(s.to_string()),
        Event::SoftBreak => MdEvent::SoftBreak,
        Event::HardBreak => MdEvent::HardBreak,
        Event::Rule => MdEvent::Rule,
        Event::TaskListMarker(b) => MdEvent::TaskListMarker(b),
        _ => MdEvent::Other,
    }
}

/// Converts the tag of a block element, variant by variant; inline tags go to `md_span_tag`.
#[verifier::external_body]
fn md_tag(t: Tag) -> MdTag {
    match t {
        Tag::Paragraph => MdTag::Paragraph,
        Tag::Heading { level, .. } => MdTag::Heading(level as u8),
        Tag::BlockQuote(_) => MdTag::BlockQuote,
        Tag::CodeBlock(CodeBlockKind::Fenced(i)) => MdTag::CodeBlock(Some(i.to_string())),
        Tag::CodeBlock(CodeBlockKind::Indented) => MdTag::CodeBlock(None),
        Tag::List(s) => MdTag::List(s),
        Tag::Item => MdTag::Item,
        Tag::FootnoteDefinition(_) => MdTag::FootnoteDefinition,
        Tag::Table(a) => MdTag::Table(a.into_iter().map(md_align).collect()),
        Tag::TableHead => MdTag::TableHead,
        Tag::TableRow => MdTag::TableRow,
        Tag::TableCell => MdTag::TableCell,
        t => md_span_tag(t),
    }
}

/// Converts the tag of an inline element, variant by variant.
#[verifier::external_body]
fn md_span_tag(t: Tag) -> MdTag {
    match t {
        Tag::Emphasis => MdTag::Emphasis,
        Tag::Strong => MdTag::Strong,
        Tag::Strikethrough => MdTag::Strikethrough,
        Tag::Link { dest_url, .. } => MdTag::Link(dest_url.to_string()),
        Tag::Image { dest_url, .. } => MdTag::Image(dest_url.to_string()),
        _ => MdTag::Other,
    }
}

/// Converts the end of a block element, variant by variant; inline ends go to `md_span_end`.
#[verifier::external_body]
fn md_end(t: TagEnd) -> MdEnd {
    match t {
        TagEnd::Paragraph => MdEnd::Paragraph,
        TagEnd::Heading(level) => MdEnd::Heading(level as u8),
        TagEnd::BlockQuote(kind) => MdEnd::BlockQuote(kind.is_some()),
        TagEnd::CodeBlock => MdEnd::CodeBlock,
        TagEnd::List(ordered) => MdEnd::List(ordered),
        TagEnd::Item => MdEnd::Item,
        TagEnd::FootnoteDefinition => MdEnd::FootnoteDefinition,
        TagEnd::Table => MdEnd::Table,
        TagEnd::TableHead => MdEnd::TableHead,
        TagEnd::TableRow => MdEnd::TableRow,
        TagEnd::TableCell => MdEnd::TableCell,
        t => md_span_end(t),
    }
}

/// Converts the end of an inline element, variant by variant.
#[verifier::external_body]
fn md_span_end(t: TagEnd) -> MdEnd {
    match t {
        TagEnd::Emphasis => MdEnd::Emphasis,
        TagEnd::Strong => MdEnd::Strong,
        TagEnd::Strikethrough => MdEnd::Strikethrough,
        TagEnd::Link => MdEnd::Link,
        TagEnd::Image => MdEnd::Image,
        _ => MdEnd::Other,
    }
}

/// Converts a column alignment, variant by variant.
#[verifier::external_body]
fn md_align(a: Alignment) -> Align {
    match a {
        Alignment::None => Align::Unspecified,
        Alignment::Left => Align::Left,
        Alignment::Center => Align::Center,
        Alignment::Right => Align::Right,
    }
}

} // verus!
