//! The stream of Markdown events that the parser builds blocks from, and the
//! bridge that obtains it from `pulldown_cmark`.
use vstd::prelude::*;

use pulldown_cmark::HeadingLevel as CmarkHeadingLevel;
use pulldown_cmark::{CodeBlockKind, Event, Options, Parser, Tag, TagEnd};

verus! {

/// Heading depth, `#` to `######`.
#[derive(Clone, Copy, Debug, PartialEq, Eq, Structural)]
pub enum HeadingLevel {
    H1,
    H2,
    H3,
    H4,
    H5,
    H6,
}

/// Horizontal alignment of a table column.
#[derive(Clone, Copy, Debug, PartialEq, Eq, Structural)]
pub enum TableAlignment {
    /// No alignment given for the column.
    Unaligned,
    Left,
    Center,
    Right,
}

/// The element an `End` event closes. Elements that the viewer does not
/// show are `Other`.
#[derive(Clone, Copy, Debug, PartialEq, Eq, Structural)]
pub enum MdTagEnd {
    Paragraph,
    Heading(HeadingLevel),
    BlockQuote,
    CodeBlock,
    List,
    Item,
    Table,
    TableHead,
    TableRow,
    TableCell,
    Emphasis,
    Strong,
    Link,
    Image,
    Other,
}

/// The element a `Start` event opens.
pub enum MdTag {
    Paragraph,
    Heading(HeadingLevel),
    BlockQuote,
    /// A code block: the info string of a fenced block, `None` when indented.
    CodeBlock(Option<String>),
    /// A list: the number of its first item when ordered.
    List(Option<u64>),
    Item,
    Table(Vec<TableAlignment>),
    TableHead,
    TableRow,
    TableCell,
    Emphasis,
    Strong,
    /// A link to a destination.
    Link(String),
    /// An image at a destination.
    Image(String),
    Other,
}

/// One event of the Markdown event stream.
pub enum MdEvent {
    Start(MdTag),
    End(MdTagEnd),
    Text(String),
    Code(String),
    InlineMath(String),
    DisplayMath(String),
    SoftBreak,
    HardBreak,
    Other,
}

/// `MdTag` with its strings as character sequences.
pub enum MdTagV {
    Paragraph,
    Heading(HeadingLevel),
    BlockQuote,
    CodeBlock(Option<Seq<char>>),
    List(Option<u64>),
    Item,
    Table(Seq<TableAlignment>),
    TableHead,
    TableRow,
    TableCell,
    Emphasis,
    Strong,
    Link(Seq<char>),
    Image(Seq<char>),
    Other,
}

/// `MdEvent` with its strings as character sequences.
pub enum MdEventV {
    Start(MdTagV),
    End(MdTagEnd),
    Text(Seq<char>),
    Code(Seq<char>),
    InlineMath(Seq<char>),
    DisplayMath(Seq<char>),
    SoftBreak,
    HardBreak,
    Other,
}

impl View for MdTag {
    type V = MdTagV;

    open spec fn view(&self) -> MdTagV {
        match self {
            MdTag::Paragraph => MdTagV::Paragraph,
            MdTag::Heading(l) => MdTagV::Heading(*l),
            MdTag::BlockQuote => MdTagV::BlockQuote,
            MdTag::CodeBlock(k) => MdTagV::CodeBlock(
                match k {
                    Some(s) => Some(s@),
                    None => None,
                },
            ),
            MdTag::List(s) => MdTagV::List(*s),
            MdTag::Item => MdTagV::Item,
            MdTag::Table(a) => MdTagV::Table(a@),
            MdTag::TableHead => MdTagV::TableHead,
            MdTag::TableRow => MdTagV::TableRow,
            MdTag::TableCell => MdTagV::TableCell,
            MdTag::Emphasis => MdTagV::Emphasis,
            MdTag::Strong => MdTagV::Strong,
            MdTag::Link(d) => MdTagV::Link(d@),
            MdTag::Image(d) => MdTagV::Image(d@),
            MdTag::Other => MdTagV::Other,
        }
    }
}

impl View for MdEvent {
    type V = MdEventV;

    open spec fn view(&self) -> MdEventV {
        match self {
            MdEvent::Start(t) => MdEventV::Start(t@),
            MdEvent::End(t) => MdEventV::End(*t),
            MdEvent::Text(s) => MdEventV::Text(s@),
            MdEvent::Code(s) => MdEventV::Code(s@),
            MdEvent::InlineMath(s) => MdEventV::InlineMath(s@),
            MdEvent::DisplayMath(s) => MdEventV::DisplayMath(s@),
            MdEvent::SoftBreak => MdEventV::SoftBreak,
            MdEvent::HardBreak => MdEventV::HardBreak,
            MdEvent::Other => MdEventV::Other,
        }
    }
}

/// The views of a list of events.
pub open spec fn events_view(events: Seq<MdEvent>) -> Seq<MdEventV> {
    events.map_values(|e: MdEvent| e@)
}

/// The event stream that `pulldown_cmark` produces for a Markdown text with
/// tables and math enabled, each event reduced to what the viewer reads.
pub uninterp spec fn markdown_events(input: Seq<char>) -> Seq<MdEventV>;

#[verifier::external_type_specification]
#[verifier::external_body]
pub struct ExEvent<'a>(Event<'a>);

#[verifier::external_type_specification]
#[verifier::external_body]
pub struct ExTag<'a>(Tag<'a>);

#[verifier::external_type_specification]
#[verifier::external_body]
pub struct ExTagEnd(TagEnd);

#[verifier::external_type_specification]
#[verifier::external_body]
pub struct ExAlignment(pulldown_cmark::Alignment);

#[verifier::external_type_specification]
#[verifier::external_body]
pub struct ExCmarkHeadingLevel(CmarkHeadingLevel);

/// Runs `pulldown_cmark::Parser` with tables and math enabled over `input`
/// and collects its events. Trusted: the events are those the parser
/// yields, in order; each one reduced by `event_from_pulldown`.
#[verifier::external_body]
pub(crate) fn parse_markdown_events(input: &str) -> (r: Vec<MdEvent>)
    ensures
        events_view(r@) == markdown_events(input@),
{
    let mut options = Options::empty();
    options.insert(Options::ENABLE_TABLES);
    options.insert(Options::ENABLE_MATH);
    Parser::new_ext(input, options).map(event_from_pulldown).collect()
}

/// Converts one `pulldown_cmark::Event`, variant for variant; the events the
/// viewer ignores become `Other`. Trusted conversion without a contract.
#[verifier::external_body]
fn event_from_pulldown(event: Event<'_>) -> MdEvent {
    match event {
        Event::Start(tag) => MdEvent::Start(tag_from_pulldown(tag)),
        Event::End(tag) => MdEvent::End(tag_end_from_pulldown(tag)),
        Event::Text(s) => MdEvent::Text(s.into_string()),
        Event::Code(s) => MdEvent::Code(s.into_string()),
        Event::InlineMath(s) => MdEvent::InlineMath(s.into_string()),
        Event::DisplayMath(s) => MdEvent::DisplayMath(s.into_string()),
        Event::SoftBreak => MdEvent::SoftBreak,
        Event::HardBreak => MdEvent::HardBreak,
        _ => MdEvent::Other,
    }
}

/// Converts one block-level `pulldown_cmark::Tag`, variant for variant;
/// other tags go to `span_tag_from_pulldown`. Trusted conversion without a
/// contract.
#[verifier::external_body]
fn tag_from_pulldown(tag: Tag<'_>) -> MdTag {
    match tag {
        Tag::Paragraph => MdTag::Paragraph,
        Tag::Heading { level, .. } => MdTag::Heading(heading_level_from_pulldown(level)),
        Tag::BlockQuote(_) => MdTag::BlockQuote,
        Tag::CodeBlock(CodeBlockKind::Fenced(name)) => MdTag::CodeBlock(Some(name.into_string())),
        Tag::CodeBlock(CodeBlockKind::Indented) => MdTag::CodeBlock(None),
        Tag::List(start) => MdTag::List(start),
        Tag::Item => MdTag::Item,
        Tag::Table(a) => MdTag::Table(a.into_iter().map(alignment_from_pulldown).collect()),
        other => span_tag_from_pulldown(other),
    }
}

/// Converts one table-part or inline `pulldown_cmark::Tag`, variant for
/// variant; tags the viewer ignores become `Other`. Trusted conversion
/// without a contract.
#[verifier::external_body]
fn span_tag_from_pulldown(tag: Tag<'_>) -> MdTag {
    match tag {
        Tag::TableHead => MdTag::TableHead,
        Tag::TableRow => MdTag::TableRow,
        Tag::TableCell => MdTag::TableCell,
        Tag::Emphasis => MdTag::Emphasis,
        Tag::Strong => MdTag::Strong,
        Tag::Link { dest_url, .. } => MdTag::Link(dest_url.into_string()),
        Tag::Image { dest_url, .. } => MdTag::Image(dest_url.into_string()),
        _ => MdTag::Other,
    }
}

/// Converts one block-level `pulldown_cmark::TagEnd`, variant for variant;
/// other ends go to `span_tag_end_from_pulldown`. Trusted conversion without
/// a contract.
#[verifier::external_body]
fn tag_end_from_pulldown(tag: TagEnd) -> MdTagEnd {
    match tag {
        TagEnd::Paragraph => MdTagEnd::Paragraph,
        TagEnd::Heading(level) => MdTagEnd::Heading(heading_level_from_pulldown(level)),
        TagEnd::BlockQuote(_) => MdTagEnd::BlockQuote,
        TagEnd::CodeBlock => MdTagEnd::CodeBlock,
        TagEnd::List(_) => MdTagEnd::List,
        TagEnd::Item => MdTagEnd::Item,
        TagEnd::Table => MdTagEnd::Table,
        other => span_tag_end_from_pulldown(other),
    }
}

/// Converts one table-part or inline `pulldown_cmark::TagEnd`, variant for
/// variant; ends of elements the viewer ignores become `Other`. Trusted
/// conversion without a contract.
#[verifier::external_body]
fn span_tag_end_from_pulldown(tag: TagEnd) -> MdTagEnd {
    match tag {
        TagEnd::TableHead => MdTagEnd::TableHead,
        TagEnd::TableRow => MdTagEnd::TableRow,
        TagEnd::TableCell => MdTagEnd::TableCell,
        TagEnd::Emphasis => MdTagEnd::Emphasis,
        TagEnd::Strong => MdTagEnd::Strong,
        TagEnd::Link => MdTagEnd::Link,
        TagEnd::Image => MdTagEnd::Image,
        _ => MdTagEnd::Other,
    }
}

/// Converts one `pulldown_cmark::HeadingLevel`, variant for variant.
/// Trusted conversion without a contract.
#[verifier::external_body]
fn heading_level_from_pulldown(level: CmarkHeadingLevel) -> HeadingLevel {
    match level {
        CmarkHeadingLevel::H1 => HeadingLevel::H1,
        CmarkHeadingLevel::H2 => HeadingLevel::H2,
        CmarkHeadingLevel::H3 => HeadingLevel::H3,
        CmarkHeadingLevel::H4 => HeadingLevel::H4,
        CmarkHeadingLevel::H5 => HeadingLevel::H5,
        CmarkHeadingLevel::H6 => HeadingLevel::H6,
    }
}

/// Converts one `pulldown_cmark::Alignment`, variant for variant. Trusted
/// conversion without a contract.
#[verifier::external_body]
fn alignment_from_pulldown(alignment: pulldown_cmark::Alignment) -> TableAlignment {
    match alignment {
        pulldown_cmark::Alignment::None => TableAlignment::Unaligned,
        pulldown_cmark::Alignment::Left => TableAlignment::Left,
        pulldown_cmark::Alignment::Center => TableAlignment::Center,
        pulldown_cmark::Alignment::Right => TableAlignment::Right,
    }
}

} // verus!
