//! Turning Markdown into the blocks the viewer shows: the block structure
//! built from the event stream, plain text of blocks, heading anchors and
//! search matches.
use vstd::prelude::*;

use crate::events::{
    HeadingLevel, MdEvent, MdEventV, MdTag, MdTagEnd, MdTagV, TableAlignment, events_view,
    markdown_events, parse_markdown_events,
};
use crate::search::{
    SearchMatch, contains_normalized_query, fold, fold_chars, lemma_fold_step, normalized_query,
    normalized_query_spec, preview_spec, preview_text,
};
use crate::text::{
    char_alphanumeric, char_to_lowercase, is_alphanumeric_char, seq_contains, seq_eq, str_lowercase,
    is_white_space,
    chars_of, extend_chars, subrange_chars, is_blank, string_from_chars, trim, trim_bounds, trim_spec, trimmed_string,
};

verus! {

broadcast use vstd::string::group_string_axioms;

// ---------------------------------------------------------------------------
// Document types
// ---------------------------------------------------------------------------
/// One styled piece of inline text.
pub enum InlineSpan {
    Text(String),
    Strong(String),
    Emphasis(String),
    Code(String),
    Math(String),
    Link { text: String, destination: String },
    Image { alt: String, destination: String },
    LineBreak,
}

/// The inline spans of a paragraph, heading, list item or table cell.
pub struct InlineContent {
    pub spans: Vec<InlineSpan>,
}

/// A block of the document.
pub enum Block {
    Heading { level: HeadingLevel, content: InlineContent },
    Paragraph(InlineContent),
    UnorderedList(Vec<InlineContent>),
    OrderedList { start: u64, items: Vec<InlineContent> },
    BlockQuote(Vec<InlineContent>),
    CodeBlock { language: Option<String>, code: String },
    /// A fenced diagram (`mermaid` or `mmd`): its language and source.
    DiagramBlock { language: String, source: String },
    MathBlock { expression: String },
    Table {
        alignments: Vec<TableAlignment>,
        headers: Vec<InlineContent>,
        rows: Vec<Vec<InlineContent>>,
    },
}

/// `InlineSpan` with its strings as character sequences.
pub enum SpanV {
    Text(Seq<char>),
    Strong(Seq<char>),
    Emphasis(Seq<char>),
    Code(Seq<char>),
    Math(Seq<char>),
    Link { text: Seq<char>, destination: Seq<char> },
    Image { alt: Seq<char>, destination: Seq<char> },
    LineBreak,
}

/// The view of inline content: its spans.
pub type ContentV = Seq<SpanV>;

/// `Block` with its strings as character sequences.
pub enum BlockV {
    Heading { level: HeadingLevel, content: ContentV },
    Paragraph(ContentV),
    UnorderedList(Seq<ContentV>),
    OrderedList { start: u64, items: Seq<ContentV> },
    BlockQuote(Seq<ContentV>),
    CodeBlock { language: Option<Seq<char>>, code: Seq<char> },
    DiagramBlock { language: Seq<char>, source: Seq<char> },
    MathBlock { expression: Seq<char> },
    Table { alignments: Seq<TableAlignment>, headers: Seq<ContentV>, rows: Seq<Seq<ContentV>> },
}

impl View for InlineSpan {
    type V = SpanV;

    open spec fn view(&self) -> SpanV {
        match self {
            InlineSpan::Text(s) => SpanV::Text(s@),
            InlineSpan::Strong(s) => SpanV::Strong(s@),
            InlineSpan::Emphasis(s) => SpanV::Emphasis(s@),
            InlineSpan::Code(s) => SpanV::Code(s@),
            InlineSpan::Math(s) => SpanV::Math(s@),
            InlineSpan::Link { text, destination } => SpanV::Link {
                text: text@,
                destination: destination@,
            },
            InlineSpan::Image { alt, destination } => SpanV::Image {
                alt: alt@,
                destination: destination@,
            },
            InlineSpan::LineBreak => SpanV::LineBreak,
        }
    }
}

/// The views of a list of spans.
pub open spec fn spans_view(spans: Seq<InlineSpan>) -> ContentV {
    spans.map_values(|s: InlineSpan| s@)
}

impl View for InlineContent {
    type V = ContentV;

    open spec fn view(&self) -> ContentV {
        spans_view(self.spans@)
    }
}

/// The views of a list of inline contents.
pub open spec fn contents_view(items: Seq<InlineContent>) -> Seq<ContentV> {
    items.map_values(|c: InlineContent| c@)
}

/// The views of table rows.
pub open spec fn rows_view(rows: Seq<Vec<InlineContent>>) -> Seq<Seq<ContentV>> {
    rows.map_values(|r: Vec<InlineContent>| contents_view(r@))
}

/// The view of an optional string.
pub open spec fn opt_string_view(s: Option<String>) -> Option<Seq<char>> {
    match s {
        Some(v) => Some(v@),
        None => None,
    }
}

impl View for Block {
    type V = BlockV;

    open spec fn view(&self) -> BlockV {
        match self {
            Block::Heading { level, content } => BlockV::Heading {
                level: *level,
                content: content@,
            },
            Block::Paragraph(c) => BlockV::Paragraph(c@),
            Block::UnorderedList(items) => BlockV::UnorderedList(contents_view(items@)),
            Block::OrderedList { start, items } => BlockV::OrderedList {
                start: *start,
                items: contents_view(items@),
            },
            Block::BlockQuote(lines) => BlockV::BlockQuote(contents_view(lines@)),
            Block::CodeBlock { language, code } => BlockV::CodeBlock {
                language: opt_string_view(*language),
                code: code@,
            },
            Block::DiagramBlock { language, source } => BlockV::DiagramBlock {
                language: language@,
                source: source@,
            },
            Block::MathBlock { expression } => BlockV::MathBlock { expression: expression@ },
            Block::Table { alignments, headers, rows } => BlockV::Table {
                alignments: alignments@,
                headers: contents_view(headers@),
                rows: rows_view(rows@),
            },
        }
    }
}

/// The views of a list of blocks.
pub open spec fn blocks_view(blocks: Seq<Block>) -> Seq<BlockV> {
    blocks.map_values(|b: Block| b@)
}

// ---------------------------------------------------------------------------
// The block structure of an event stream
// ---------------------------------------------------------------------------
/// Whether `e` ends the element `t`.
pub open spec fn is_end(e: MdEventV, t: MdTagEnd) -> bool {
    match e {
        MdEventV::End(x) => x == t,
        _ => false,
    }
}

/// The text and code of the events from `p` up to the end of `end`, soft
/// and hard breaks as newlines, appended to `acc`; and the position after
/// the closing event (or the end of the stream).
pub open spec fn text_raw(ev: Seq<MdEventV>, p: int, end: MdTagEnd, acc: Seq<char>) -> (Seq<char>, int)
    decreases ev.len() - p,
{
    if p < 0 || p >= ev.len() {
        (acc, p)
    } else {
        match ev[p] {
            MdEventV::End(t) => if t == end {
                (acc, p + 1)
            } else {
                text_raw(ev, p + 1, end, acc)
            },
            MdEventV::Text(v) => text_raw(ev, p + 1, end, acc + v),
            MdEventV::Code(v) => text_raw(ev, p + 1, end, acc + v),
            MdEventV::SoftBreak => text_raw(ev, p + 1, end, acc.push('\n')),
            MdEventV::HardBreak => text_raw(ev, p + 1, end, acc.push('\n')),
            _ => text_raw(ev, p + 1, end, acc),
        }
    }
}

/// The trimmed text up to the end of `end`, and the position after it.
pub open spec fn text_until(ev: Seq<MdEventV>, p: int, end: MdTagEnd) -> (Seq<char>, int) {
    let r = text_raw(ev, p, end, Seq::empty());
    (trim_spec(r.0), r.1)
}

pub proof fn lemma_text_raw_pos(ev: Seq<MdEventV>, p: int, end: MdTagEnd, acc: Seq<char>)
    requires
        0 <= p <= ev.len(),
    ensures
        p <= text_raw(ev, p, end, acc).1 <= ev.len(),
    decreases ev.len() - p,
{
    if p < ev.len() {
        match ev[p] {
            MdEventV::Text(v) => lemma_text_raw_pos(ev, p + 1, end, acc + v),
            MdEventV::Code(v) => lemma_text_raw_pos(ev, p + 1, end, acc + v),
            MdEventV::SoftBreak => lemma_text_raw_pos(ev, p + 1, end, acc.push('\n')),
            MdEventV::HardBreak => lemma_text_raw_pos(ev, p + 1, end, acc.push('\n')),
            _ => lemma_text_raw_pos(ev, p + 1, end, acc),
        }
    }
}

/// Appends the span for the event at `p` (reading a whole strong, emphasis,
/// link or image element), and gives the position after what it read.
pub open spec fn push_span(ev: Seq<MdEventV>, p: int, spans: ContentV) -> (ContentV, int)
    recommends
        0 <= p < ev.len(),
{
    match ev[p] {
        MdEventV::Text(v) => (spans.push(SpanV::Text(v)), p + 1),
        MdEventV::Code(v) => (spans.push(SpanV::Code(v)), p + 1),
        MdEventV::InlineMath(v) => (spans.push(SpanV::Math(v)), p + 1),
        MdEventV::DisplayMath(v) => (spans.push(SpanV::Math(v)), p + 1),
        MdEventV::SoftBreak => (spans.push(SpanV::LineBreak), p + 1),
        MdEventV::HardBreak => (spans.push(SpanV::LineBreak), p + 1),
        MdEventV::Start(MdTagV::Strong) => {
            let (t, q) = text_until(ev, p + 1, MdTagEnd::Strong);
            (
                if t.len() > 0 {
                    spans.push(SpanV::Strong(t))
                } else {
                    spans
                },
                q,
            )
        },
        MdEventV::Start(MdTagV::Emphasis) => {
            let (t, q) = text_until(ev, p + 1, MdTagEnd::Emphasis);
            (
                if t.len() > 0 {
                    spans.push(SpanV::Emphasis(t))
                } else {
                    spans
                },
                q,
            )
        },
        MdEventV::Start(MdTagV::Link(d)) => {
            let (t, q) = text_until(ev, p + 1, MdTagEnd::Link);
            (
                if t.len() > 0 {
                    spans.push(SpanV::Link { text: t, destination: d })
                } else {
                    spans
                },
                q,
            )
        },
        MdEventV::Start(MdTagV::Image(d)) => {
            let (t, q) = text_until(ev, p + 1, MdTagEnd::Image);
            (spans.push(SpanV::Image { alt: t, destination: d }), q)
        },
        _ => (spans, p + 1),
    }
}

pub proof fn lemma_push_span_pos(ev: Seq<MdEventV>, p: int, spans: ContentV)
    requires
        0 <= p < ev.len(),
    ensures
        p < push_span(ev, p, spans).1 <= ev.len(),
{
    lemma_text_raw_pos(ev, p + 1, MdTagEnd::Strong, Seq::empty());
    lemma_text_raw_pos(ev, p + 1, MdTagEnd::Emphasis, Seq::empty());
    lemma_text_raw_pos(ev, p + 1, MdTagEnd::Link, Seq::empty());
    lemma_text_raw_pos(ev, p + 1, MdTagEnd::Image, Seq::empty());
}

/// The spans up to the end of `end`, appended to `spans`, and the position
/// after the closing event.
pub open spec fn inline_until(ev: Seq<MdEventV>, p: int, end: MdTagEnd, spans: ContentV) -> (
    ContentV,
    int,
)
    decreases ev.len() - p,
{
    if p < 0 || p >= ev.len() {
        (spans, p)
    } else if is_end(ev[p], end) {
        (spans, p + 1)
    } else {
        proof {
            lemma_push_span_pos(ev, p, spans);
        }
        let (s2, q) = push_span(ev, p, spans);
        inline_until(ev, q, end, s2)
    }
}

pub proof fn lemma_inline_until_pos(ev: Seq<MdEventV>, p: int, end: MdTagEnd, spans: ContentV)
    requires
        0 <= p <= ev.len(),
    ensures
        p <= inline_until(ev, p, end, spans).1 <= ev.len(),
    decreases ev.len() - p,
{
    if p < ev.len() && !is_end(ev[p], end) {
        lemma_push_span_pos(ev, p, spans);
        let (s2, q) = push_span(ev, p, spans);
        lemma_inline_until_pos(ev, q, end, s2);
    }
}

/// Whether a span shows nothing (a line break always shows something).
pub open spec fn span_is_empty(s: SpanV) -> bool {
    match s {
        SpanV::Text(t) => t.len() == 0,
        SpanV::Strong(t) => t.len() == 0,
        SpanV::Emphasis(t) => t.len() == 0,
        SpanV::Code(t) => t.len() == 0,
        SpanV::Math(t) => t.len() == 0,
        SpanV::Link { text, .. } => text.len() == 0,
        SpanV::Image { alt, destination } => alt.len() == 0 && destination.len() == 0,
        SpanV::LineBreak => false,
    }
}

/// Whether inline content shows nothing.
pub open spec fn content_is_empty(c: ContentV) -> bool {
    forall|i: int| 0 <= i < c.len() ==> span_is_empty(#[trigger] c[i])
}

/// The spans of a list item from `p` (its paragraphs' spans inlined),
/// appended to `spans`, and the position after the item's end.
pub open spec fn list_item(ev: Seq<MdEventV>, p: int, spans: ContentV) -> (ContentV, int)
    decreases ev.len() - p,
{
    if p < 0 || p >= ev.len() {
        (spans, p)
    } else {
        match ev[p] {
            MdEventV::Start(MdTagV::Paragraph) => {
                proof {
                    lemma_inline_until_pos(ev, p + 1, MdTagEnd::Paragraph, spans);
                }
                let (s2, q) = inline_until(ev, p + 1, MdTagEnd::Paragraph, spans);
                list_item(ev, q, s2)
            },
            MdEventV::End(MdTagEnd::Item) => (spans, p + 1),
            _ => {
                proof {
                    lemma_push_span_pos(ev, p, spans);
                }
                let (s2, q) = push_span(ev, p, spans);
                list_item(ev, q, s2)
            },
        }
    }
}

pub proof fn lemma_list_item_pos(ev: Seq<MdEventV>, p: int, spans: ContentV)
    requires
        0 <= p <= ev.len(),
    ensures
        p <= list_item(ev, p, spans).1 <= ev.len(),
    decreases ev.len() - p,
{
    if p < ev.len() {
        match ev[p] {
            MdEventV::Start(MdTagV::Paragraph) => {
                lemma_inline_until_pos(ev, p + 1, MdTagEnd::Paragraph, spans);
                let (s2, q) = inline_until(ev, p + 1, MdTagEnd::Paragraph, spans);
                lemma_list_item_pos(ev, q, s2);
            },
            MdEventV::End(MdTagEnd::Item) => {},
            _ => {
                lemma_push_span_pos(ev, p, spans);
                let (s2, q) = push_span(ev, p, spans);
                lemma_list_item_pos(ev, q, s2);
            },
        }
    }
}

/// The non-empty items of a list from `p`, appended to `items`, and the
/// position after the list's end.
pub open spec fn list_items(ev: Seq<MdEventV>, p: int, items: Seq<ContentV>) -> (Seq<ContentV>, int)
    decreases ev.len() - p,
{
    if p < 0 || p >= ev.len() {
        (items, p)
    } else {
        match ev[p] {
            MdEventV::Start(MdTagV::Item) => {
                proof {
                    lemma_list_item_pos(ev, p + 1, Seq::empty());
                }
                let (c, q) = list_item(ev, p + 1, Seq::empty());
                list_items(
                    ev,
                    q,
                    if content_is_empty(c) {
                        items
                    } else {
                        items.push(c)
                    },
                )
            },
            MdEventV::End(MdTagEnd::List) => (items, p + 1),
            _ => list_items(ev, p + 1, items),
        }
    }
}

pub proof fn lemma_list_items_pos(ev: Seq<MdEventV>, p: int, items: Seq<ContentV>)
    requires
        0 <= p <= ev.len(),
    ensures
        p <= list_items(ev, p, items).1 <= ev.len(),
    decreases ev.len() - p,
{
    if p < ev.len() {
        match ev[p] {
            MdEventV::Start(MdTagV::Item) => {
                lemma_list_item_pos(ev, p + 1, Seq::empty());
                let (c, q) = list_item(ev, p + 1, Seq::empty());
                lemma_list_items_pos(
                    ev,
                    q,
                    if content_is_empty(c) {
                        items
                    } else {
                        items.push(c)
                    },
                );
            },
            MdEventV::End(MdTagEnd::List) => {},
            _ => lemma_list_items_pos(ev, p + 1, items),
        }
    }
}

/// The non-empty paragraphs of a block quote from `p`, appended to `lines`,
/// and the position after the quote's end.
pub open spec fn quote_lines(ev: Seq<MdEventV>, p: int, lines: Seq<ContentV>) -> (Seq<ContentV>, int)
    decreases ev.len() - p,
{
    if p < 0 || p >= ev.len() {
        (lines, p)
    } else {
        match ev[p] {
            MdEventV::Start(MdTagV::Paragraph) => {
                proof {
                    lemma_inline_until_pos(ev, p + 1, MdTagEnd::Paragraph, Seq::empty());
                }
                let (c, q) = inline_until(ev, p + 1, MdTagEnd::Paragraph, Seq::empty());
                quote_lines(
                    ev,
                    q,
                    if content_is_empty(c) {
                        lines
                    } else {
                        lines.push(c)
                    },
                )
            },
            MdEventV::End(MdTagEnd::BlockQuote) => (lines, p + 1),
            _ => quote_lines(ev, p + 1, lines),
        }
    }
}

pub proof fn lemma_quote_lines_pos(ev: Seq<MdEventV>, p: int, lines: Seq<ContentV>)
    requires
        0 <= p <= ev.len(),
    ensures
        p <= quote_lines(ev, p, lines).1 <= ev.len(),
    decreases ev.len() - p,
{
    if p < ev.len() {
        match ev[p] {
            MdEventV::Start(MdTagV::Paragraph) => {
                lemma_inline_until_pos(ev, p + 1, MdTagEnd::Paragraph, Seq::empty());
                let (c, q) = inline_until(ev, p + 1, MdTagEnd::Paragraph, Seq::empty());
                lemma_quote_lines_pos(
                    ev,
                    q,
                    if content_is_empty(c) {
                        lines
                    } else {
                        lines.push(c)
                    },
                );
            },
            MdEventV::End(MdTagEnd::BlockQuote) => {},
            _ => lemma_quote_lines_pos(ev, p + 1, lines),
        }
    }
}

/// The cells of a table head or row from `p`, appended to `cells`, and the
/// position after the row's end.
pub open spec fn table_cells(ev: Seq<MdEventV>, p: int, row_end: MdTagEnd, cells: Seq<ContentV>) -> (
    Seq<ContentV>,
    int,
)
    decreases ev.len() - p,
{
    if p < 0 || p >= ev.len() {
        (cells, p)
    } else {
        match ev[p] {
            MdEventV::Start(MdTagV::TableCell) => {
                proof {
                    lemma_inline_until_pos(ev, p + 1, MdTagEnd::TableCell, Seq::empty());
                }
                let (c, q) = inline_until(ev, p + 1, MdTagEnd::TableCell, Seq::empty());
                table_cells(ev, q, row_end, cells.push(c))
            },
            MdEventV::End(t) => if t == row_end {
                (cells, p + 1)
            } else {
                table_cells(ev, p + 1, row_end, cells)
            },
            _ => table_cells(ev, p + 1, row_end, cells),
        }
    }
}

pub proof fn lemma_table_cells_pos(ev: Seq<MdEventV>, p: int, row_end: MdTagEnd, cells: Seq<ContentV>)
    requires
        0 <= p <= ev.len(),
    ensures
        p <= table_cells(ev, p, row_end, cells).1 <= ev.len(),
    decreases ev.len() - p,
{
    if p < ev.len() {
        match ev[p] {
            MdEventV::Start(MdTagV::TableCell) => {
                lemma_inline_until_pos(ev, p + 1, MdTagEnd::TableCell, Seq::empty());
                let (c, q) = inline_until(ev, p + 1, MdTagEnd::TableCell, Seq::empty());
                lemma_table_cells_pos(ev, q, row_end, cells.push(c));
            },
            MdEventV::End(t) => if t != row_end {
                lemma_table_cells_pos(ev, p + 1, row_end, cells);
            },
            _ => lemma_table_cells_pos(ev, p + 1, row_end, cells),
        }
    }
}

/// The header cells and non-empty rows of a table from `p` (a later head
/// replaces an earlier one), and the position after the table's end.
pub open spec fn table(ev: Seq<MdEventV>, p: int, headers: Seq<ContentV>, rows: Seq<Seq<ContentV>>) -> (
    (Seq<ContentV>, Seq<Seq<ContentV>>),
    int,
)
    decreases ev.len() - p,
{
    if p < 0 || p >= ev.len() {
        ((headers, rows), p)
    } else {
        match ev[p] {
            MdEventV::Start(MdTagV::TableHead) => {
                proof {
                    lemma_table_cells_pos(ev, p + 1, MdTagEnd::TableHead, Seq::empty());
                }
                let (h, q) = table_cells(ev, p + 1, MdTagEnd::TableHead, Seq::empty());
                table(ev, q, h, rows)
            },
            MdEventV::Start(MdTagV::TableRow) => {
                proof {
                    lemma_table_cells_pos(ev, p + 1, MdTagEnd::TableRow, Seq::empty());
                }
                let (r, q) = table_cells(ev, p + 1, MdTagEnd::TableRow, Seq::empty());
                table(
                    ev,
                    q,
                    headers,
                    if r.len() == 0 {
                        rows
                    } else {
                        rows.push(r)
                    },
                )
            },
            MdEventV::End(MdTagEnd::Table) => ((headers, rows), p + 1),
            _ => table(ev, p + 1, headers, rows),
        }
    }
}

pub proof fn lemma_table_pos(
    ev: Seq<MdEventV>,
    p: int,
    headers: Seq<ContentV>,
    rows: Seq<Seq<ContentV>>,
)
    requires
        0 <= p <= ev.len(),
    ensures
        p <= table(ev, p, headers, rows).1 <= ev.len(),
    decreases ev.len() - p,
{
    if p < ev.len() {
        match ev[p] {
            MdEventV::Start(MdTagV::TableHead) => {
                lemma_table_cells_pos(ev, p + 1, MdTagEnd::TableHead, Seq::empty());
                let (h, q) = table_cells(ev, p + 1, MdTagEnd::TableHead, Seq::empty());
                lemma_table_pos(ev, q, h, rows);
            },
            MdEventV::Start(MdTagV::TableRow) => {
                lemma_table_cells_pos(ev, p + 1, MdTagEnd::TableRow, Seq::empty());
                let (r, q) = table_cells(ev, p + 1, MdTagEnd::TableRow, Seq::empty());
                lemma_table_pos(
                    ev,
                    q,
                    headers,
                    if r.len() == 0 {
                        rows
                    } else {
                        rows.push(r)
                    },
                );
            },
            MdEventV::End(MdTagEnd::Table) => {},
            _ => lemma_table_pos(ev, p + 1, headers, rows),
        }
    }
}

/// Reads spans from `i` on: `expr` is the math expression seen so far.
/// Other content than blank text and line breaks, a second expression or a
/// blank expression make the content no standalone formula.
pub open spec fn standalone_math_from(c: ContentV, i: int, expr: Option<Seq<char>>) -> Option<Seq<char>>
    decreases c.len() - i,
{
    if i < 0 || i >= c.len() {
        expr
    } else {
        match c[i] {
            SpanV::Math(v) => if expr is None {
                if trim_spec(v).len() == 0 {
                    None
                } else {
                    standalone_math_from(c, i + 1, Some(trim_spec(v)))
                }
            } else {
                None
            },
            SpanV::Text(t) => if trim_spec(t).len() == 0 {
                standalone_math_from(c, i + 1, expr)
            } else {
                None
            },
            SpanV::LineBreak => standalone_math_from(c, i + 1, expr),
            _ => None,
        }
    }
}

/// The expression of a paragraph that holds one formula and nothing else.
pub open spec fn standalone_math(c: ContentV) -> Option<Seq<char>> {
    standalone_math_from(c, 0, None)
}

/// The language of a code block: the trimmed info string, unless blank.
pub open spec fn code_language(kind: Option<Seq<char>>) -> Option<Seq<char>> {
    match kind {
        Some(name) => if trim_spec(name).len() == 0 {
            None
        } else {
            Some(trim_spec(name))
        },
        None => None,
    }
}

/// Whether a code block's language names a diagram: `mermaid` or `mmd`.
pub open spec fn is_diagram_language(language: Seq<char>) -> bool {
    language == seq!['m', 'e', 'r', 'm', 'a', 'i', 'd'] || language == seq!['m', 'm', 'd']
}

/// The block of a fenced or indented code block: a diagram block when its
/// language names a diagram, else a code block.
pub open spec fn code_or_diagram_block(language: Option<Seq<char>>, code: Seq<char>) -> BlockV {
    match language {
        Some(l) => if is_diagram_language(l) {
            BlockV::DiagramBlock { language: l, source: code }
        } else {
            BlockV::CodeBlock { language: Some(l), code }
        },
        None => BlockV::CodeBlock { language: None, code },
    }
}

/// The blocks of the events from `p` on, appended to `acc`.
pub open spec fn blocks_from(ev: Seq<MdEventV>, p: int, acc: Seq<BlockV>) -> Seq<BlockV>
    decreases ev.len() - p,
{
    if p < 0 || p >= ev.len() {
        acc
    } else {
        match ev[p] {
            MdEventV::Start(MdTagV::Heading(level)) => {
                proof {
                    lemma_inline_until_pos(ev, p + 1, MdTagEnd::Heading(level), Seq::empty());
                }
                let (c, q) = inline_until(ev, p + 1, MdTagEnd::Heading(level), Seq::empty());
                blocks_from(
                    ev,
                    q,
                    if content_is_empty(c) {
                        acc
                    } else {
                        acc.push(BlockV::Heading { level, content: c })
                    },
                )
            },
            MdEventV::Start(MdTagV::Paragraph) => {
                proof {
                    lemma_inline_until_pos(ev, p + 1, MdTagEnd::Paragraph, Seq::empty());
                }
                let (c, q) = inline_until(ev, p + 1, MdTagEnd::Paragraph, Seq::empty());
                blocks_from(
                    ev,
                    q,
                    match standalone_math(c) {
                        Some(e) => acc.push(BlockV::MathBlock { expression: e }),
                        None => if content_is_empty(c) {
                            acc
                        } else {
                            acc.push(BlockV::Paragraph(c))
                        },
                    },
                )
            },
            MdEventV::Start(MdTagV::List(start)) => {
                proof {
                    lemma_list_items_pos(ev, p + 1, Seq::empty());
                }
                let (items, q) = list_items(ev, p + 1, Seq::empty());
                blocks_from(
                    ev,
                    q,
                    acc.push(
                        match start {
                            Some(s) => BlockV::OrderedList { start: s, items },
                            None => BlockV::UnorderedList(items),
                        },
                    ),
                )
            },
            MdEventV::Start(MdTagV::BlockQuote) => {
                proof {
                    lemma_quote_lines_pos(ev, p + 1, Seq::empty());
                }
                let (lines, q) = quote_lines(ev, p + 1, Seq::empty());
                blocks_from(
                    ev,
                    q,
                    if lines.len() == 0 {
                        acc
                    } else {
                        acc.push(BlockV::BlockQuote(lines))
                    },
                )
            },
            MdEventV::Start(MdTagV::CodeBlock(kind)) => {
                proof {
                    lemma_text_raw_pos(ev, p + 1, MdTagEnd::CodeBlock, Seq::empty());
                }
                let (code, q) = text_until(ev, p + 1, MdTagEnd::CodeBlock);
                blocks_from(
                    ev,
                    q,
                    acc.push(code_or_diagram_block(code_language(kind), code)),
                )
            },
            MdEventV::Start(MdTagV::Table(alignments)) => {
                proof {
                    lemma_table_pos(ev, p + 1, Seq::empty(), Seq::empty());
                }
                let (hr, q) = table(ev, p + 1, Seq::empty(), Seq::empty());
                blocks_from(
                    ev,
                    q,
                    if hr.0.len() == 0 && hr.1.len() == 0 {
                        acc
                    } else {
                        acc.push(BlockV::Table { alignments, headers: hr.0, rows: hr.1 })
                    },
                )
            },
            MdEventV::DisplayMath(v) => blocks_from(
                ev,
                p + 1,
                if trim_spec(v).len() == 0 {
                    acc
                } else {
                    acc.push(BlockV::MathBlock { expression: trim_spec(v) })
                },
            ),
            _ => blocks_from(ev, p + 1, acc),
        }
    }
}

/// The blocks of an event stream.
pub open spec fn blocks_of_events(ev: Seq<MdEventV>) -> Seq<BlockV> {
    blocks_from(ev, 0, Seq::empty())
}


// ---------------------------------------------------------------------------
// Building the blocks
// ---------------------------------------------------------------------------
proof fn lemma_event_at(events: Seq<MdEvent>, p: int)
    requires
        0 <= p < events.len(),
    ensures
        events_view(events)[p] == events[p]@,
        events_view(events).len() == events.len(),
{
}

proof fn lemma_events_len(events: Seq<MdEvent>)
    ensures
        events_view(events).len() == events.len(),
{
}

proof fn lemma_spans_push(spans: Seq<InlineSpan>, s: InlineSpan)
    ensures
        spans_view(spans.push(s)) == spans_view(spans).push(s@),
{
    assert(spans_view(spans.push(s)) =~= spans_view(spans).push(s@));
}

proof fn lemma_contents_push(items: Seq<InlineContent>, c: InlineContent)
    ensures
        contents_view(items.push(c)) == contents_view(items).push(c@),
{
    assert(contents_view(items.push(c)) =~= contents_view(items).push(c@));
}

proof fn lemma_rows_push(rows: Seq<Vec<InlineContent>>, r: Vec<InlineContent>)
    ensures
        rows_view(rows.push(r)) == rows_view(rows).push(contents_view(r@)),
{
    assert(rows_view(rows.push(r)) =~= rows_view(rows).push(contents_view(r@)));
}

proof fn lemma_blocks_push(blocks: Seq<Block>, b: Block)
    ensures
        blocks_view(blocks.push(b)) == blocks_view(blocks).push(b@),
{
    assert(blocks_view(blocks.push(b)) =~= blocks_view(blocks).push(b@));
}

/// The trimmed text and code of the events from `start` up to the end of
/// `end_tag`, and the position after the closing event.
fn collect_text_until(events: &Vec<MdEvent>, start: usize, end_tag: MdTagEnd) -> (r: (String, usize))
    requires
        start <= events@.len(),
    ensures
        r.0@ == text_until(events_view(events@), start as int, end_tag).0,
        r.1 == text_until(events_view(events@), start as int, end_tag).1,
{
    let ghost ev = events_view(events@);
    proof {
        lemma_events_len(events@);
    }
    let mut acc: Vec<char> = Vec::new();
    let mut p = start;
    loop
        invariant
            ev == events_view(events@),
            ev.len() == events@.len(),
            start <= p <= events@.len(),
            text_raw(ev, p as int, end_tag, acc@) == text_raw(ev, start as int, end_tag, Seq::empty()),
        decreases events@.len() - p,
    {
        if p >= events.len() {
            return (trimmed_string(&acc), p);
        }
        proof {
            lemma_event_at(events@, p as int);
        }
        match &events[p] {
            MdEvent::End(t) => {
                if *t == end_tag {
                    return (trimmed_string(&acc), p + 1);
                }
            },
            MdEvent::Text(v) => {
                extend_chars(&mut acc, v.as_str());
            },
            MdEvent::Code(v) => {
                extend_chars(&mut acc, v.as_str());
            },
            MdEvent::SoftBreak => {
                acc.push('\n');
            },
            MdEvent::HardBreak => {
                acc.push('\n');
            },
            _ => {},
        }
        p = p + 1;
    }
}

/// Appends the span of the event at `p` and gives the position after what
/// was read.
fn push_inline_span(spans: &mut Vec<InlineSpan>, events: &Vec<MdEvent>, p: usize) -> (q: usize)
    requires
        p < events@.len(),
    ensures
        spans_view(final(spans)@) == push_span(events_view(events@), p as int, spans_view(old(spans)@)).0,
        q == push_span(events_view(events@), p as int, spans_view(old(spans)@)).1,
{
    let ghost ev = events_view(events@);
    proof {
        lemma_events_len(events@);
    }
    proof {
        lemma_event_at(events@, p as int);
        lemma_push_span_pos(ev, p as int, spans_view(spans@));
    }
    let ghost old_spans = spans@;
    let n = events.len();
    let next = p + 1;
    match &events[p] {
        MdEvent::Text(v) => {
            let s = InlineSpan::Text(v.clone());
            proof { lemma_spans_push(old_spans, s); }
            spans.push(s);
            next
        },
        MdEvent::Code(v) => {
            let s = InlineSpan::Code(v.clone());
            proof { lemma_spans_push(old_spans, s); }
            spans.push(s);
            next
        },
        MdEvent::InlineMath(v) => {
            let s = InlineSpan::Math(v.clone());
            proof { lemma_spans_push(old_spans, s); }
            spans.push(s);
            next
        },
        MdEvent::DisplayMath(v) => {
            let s = InlineSpan::Math(v.clone());
            proof { lemma_spans_push(old_spans, s); }
            spans.push(s);
            next
        },
        MdEvent::SoftBreak => {
            proof { lemma_spans_push(old_spans, InlineSpan::LineBreak); }
            spans.push(InlineSpan::LineBreak);
            next
        },
        MdEvent::HardBreak => {
            proof { lemma_spans_push(old_spans, InlineSpan::LineBreak); }
            spans.push(InlineSpan::LineBreak);
            next
        },
        MdEvent::Start(MdTag::Strong) => {
            let (text, q) = collect_text_until(events, p + 1, MdTagEnd::Strong);
            if !text.as_str().is_empty() {
                let s = InlineSpan::Strong(text);
                proof { lemma_spans_push(old_spans, s); }
                spans.push(s);
            }
            q
        },
        MdEvent::Start(MdTag::Emphasis) => {
            let (text, q) = collect_text_until(events, p + 1, MdTagEnd::Emphasis);
            if !text.as_str().is_empty() {
                let s = InlineSpan::Emphasis(text);
                proof { lemma_spans_push(old_spans, s); }
                spans.push(s);
            }
            q
        },
        MdEvent::Start(MdTag::Link(destination)) => {
            let (text, q) = collect_text_until(events, p + 1, MdTagEnd::Link);
            if !text.as_str().is_empty() {
                let s = InlineSpan::Link { text, destination: destination.clone() };
                proof { lemma_spans_push(old_spans, s); }
                spans.push(s);
            }
            q
        },
        MdEvent::Start(MdTag::Image(destination)) => {
            let (alt, q) = collect_text_until(events, p + 1, MdTagEnd::Image);
            let s = InlineSpan::Image { alt, destination: destination.clone() };
            proof { lemma_spans_push(old_spans, s); }
            spans.push(s);
            q
        },
        _ => next,
    }
}

/// Appends the spans up to the end of `end_tag` and gives the position after
/// the closing event.
fn collect_inline_into(spans: &mut Vec<InlineSpan>, events: &Vec<MdEvent>, start: usize, end_tag: MdTagEnd) -> (q: usize)
    requires
        start <= events@.len(),
    ensures
        spans_view(final(spans)@) == inline_until(events_view(events@), start as int, end_tag, spans_view(old(spans)@)).0,
        q == inline_until(events_view(events@), start as int, end_tag, spans_view(old(spans)@)).1,
{
    let ghost ev = events_view(events@);
    proof {
        lemma_events_len(events@);
    }
    let ghost target = inline_until(ev, start as int, end_tag, spans_view(spans@));
    let mut p = start;
    loop
        invariant
            ev == events_view(events@),
            ev.len() == events@.len(),
            target == inline_until(ev, start as int, end_tag, spans_view(old(spans)@)),
            start <= p <= events@.len(),
            inline_until(ev, p as int, end_tag, spans_view(spans@)) == target,
        decreases events@.len() - p,
    {
        if p >= events.len() {
            return p;
        }
        proof {
            lemma_event_at(events@, p as int);
            lemma_push_span_pos(ev, p as int, spans_view(spans@));
        }
        if let MdEvent::End(t) = &events[p] {
            if *t == end_tag {
                return p + 1;
            }
        }
        p = push_inline_span(spans, events, p);
    }
}

/// The inline content up to the end of `end_tag`, and the position after it.
fn collect_inline_content(events: &Vec<MdEvent>, start: usize, end_tag: MdTagEnd) -> (r: (InlineContent, usize))
    requires
        start <= events@.len(),
    ensures
        r.0@ == inline_until(events_view(events@), start as int, end_tag, Seq::empty()).0,
        r.1 == inline_until(events_view(events@), start as int, end_tag, Seq::empty()).1,
{
    let mut spans: Vec<InlineSpan> = Vec::new();
    assert(spans_view(spans@) =~= Seq::<SpanV>::empty());
    let q = collect_inline_into(&mut spans, events, start, end_tag);
    (InlineContent { spans }, q)
}

/// Whether a span shows nothing.
fn inline_span_is_empty(span: &InlineSpan) -> (r: bool)
    ensures
        r == span_is_empty(span@),
{
    match span {
        InlineSpan::Text(text) => text.as_str().is_empty(),
        InlineSpan::Strong(text) => text.as_str().is_empty(),
        InlineSpan::Emphasis(text) => text.as_str().is_empty(),
        InlineSpan::Code(text) => text.as_str().is_empty(),
        InlineSpan::Math(text) => text.as_str().is_empty(),
        InlineSpan::Link { text, .. } => text.as_str().is_empty(),
        InlineSpan::Image { alt, destination } => alt.as_str().is_empty() && destination.as_str().is_empty(),
        InlineSpan::LineBreak => false,
    }
}

impl InlineContent {
    /// Whether the content shows nothing: every span is empty text, an
    /// empty link text, or an image with neither alt text nor destination.
    pub fn is_empty(&self) -> (r: bool)
        ensures
            r == content_is_empty(self@),
    {
        let mut i: usize = 0;
        while i < self.spans.len()
            invariant
                i <= self.spans@.len(),
                forall|k: int| 0 <= k < i ==> span_is_empty(#[trigger] self@[k]),
            decreases self.spans.len() - i,
        {
            if !inline_span_is_empty(&self.spans[i]) {
                assert(!span_is_empty(self@[i as int]));
                return false;
            }
            i = i + 1;
        }
        true
    }
}

/// Appends the spans of a list item (its paragraphs' spans inlined) and
/// gives the position after the item's end.
fn collect_list_item(events: &Vec<MdEvent>, start: usize) -> (r: (InlineContent, usize))
    requires
        start <= events@.len(),
    ensures
        r.0@ == list_item(events_view(events@), start as int, Seq::empty()).0,
        r.1 == list_item(events_view(events@), start as int, Seq::empty()).1,
{
    let ghost ev = events_view(events@);
    proof {
        lemma_events_len(events@);
    }
    let mut spans: Vec<InlineSpan> = Vec::new();
    assert(spans_view(spans@) =~= Seq::<SpanV>::empty());
    let ghost target = list_item(ev, start as int, Seq::empty());
    let mut p = start;
    loop
        invariant
            ev == events_view(events@),
            ev.len() == events@.len(),
            target == list_item(ev, start as int, Seq::empty()),
            start <= p <= events@.len(),
            list_item(ev, p as int, spans_view(spans@)) == target,
        decreases events@.len() - p,
    {
        if p >= events.len() {
            return (InlineContent { spans }, p);
        }
        proof {
            lemma_event_at(events@, p as int);
            lemma_push_span_pos(ev, p as int, spans_view(spans@));
            lemma_inline_until_pos(ev, p + 1, MdTagEnd::Paragraph, spans_view(spans@));
        }
        match &events[p] {
            MdEvent::Start(MdTag::Paragraph) => {
                p = collect_inline_into(&mut spans, events, p + 1, MdTagEnd::Paragraph);
            },
            MdEvent::End(MdTagEnd::Item) => {
                return (InlineContent { spans }, p + 1);
            },
            _ => {
                p = push_inline_span(&mut spans, events, p);
            },
        }
    }
}

/// The non-empty items of a list and the position after the list's end.
fn collect_list_items(events: &Vec<MdEvent>, start: usize) -> (r: (Vec<InlineContent>, usize))
    requires
        start <= events@.len(),
    ensures
        contents_view(r.0@) == list_items(events_view(events@), start as int, Seq::empty()).0,
        r.1 == list_items(events_view(events@), start as int, Seq::empty()).1,
{
    let ghost ev = events_view(events@);
    proof {
        lemma_events_len(events@);
    }
    let mut items: Vec<InlineContent> = Vec::new();
    assert(contents_view(items@) =~= Seq::<ContentV>::empty());
    let ghost target = list_items(ev, start as int, Seq::empty());
    let mut p = start;
    loop
        invariant
            ev == events_view(events@),
            ev.len() == events@.len(),
            target == list_items(ev, start as int, Seq::empty()),
            start <= p <= events@.len(),
            list_items(ev, p as int, contents_view(items@)) == target,
        decreases events@.len() - p,
    {
        if p >= events.len() {
            return (items, p);
        }
        proof {
            lemma_event_at(events@, p as int);
            lemma_list_item_pos(ev, p + 1, Seq::empty());
        }
        match &events[p] {
            MdEvent::Start(MdTag::Item) => {
                let (content, q) = collect_list_item(events, p + 1);
                if !content.is_empty() {
                    proof { lemma_contents_push(items@, content); }
                    items.push(content);
                }
                p = q;
            },
            MdEvent::End(MdTagEnd::List) => {
                return (items, p + 1);
            },
            _ => {
                p = p + 1;
            },
        }
    }
}

/// The non-empty paragraphs of a block quote and the position after its end.
fn collect_blockquote_lines(events: &Vec<MdEvent>, start: usize) -> (r: (Vec<InlineContent>, usize))
    requires
        start <= events@.len(),
    ensures
        contents_view(r.0@) == quote_lines(events_view(events@), start as int, Seq::empty()).0,
        r.1 == quote_lines(events_view(events@), start as int, Seq::empty()).1,
{
    let ghost ev = events_view(events@);
    proof {
        lemma_events_len(events@);
    }
    let mut lines: Vec<InlineContent> = Vec::new();
    assert(contents_view(lines@) =~= Seq::<ContentV>::empty());
    let ghost target = quote_lines(ev, start as int, Seq::empty());
    let mut p = start;
    loop
        invariant
            ev == events_view(events@),
            ev.len() == events@.len(),
            target == quote_lines(ev, start as int, Seq::empty()),
            start <= p <= events@.len(),
            quote_lines(ev, p as int, contents_view(lines@)) == target,
        decreases events@.len() - p,
    {
        if p >= events.len() {
            return (lines, p);
        }
        proof {
            lemma_event_at(events@, p as int);
            lemma_inline_until_pos(ev, p + 1, MdTagEnd::Paragraph, Seq::empty());
        }
        match &events[p] {
            MdEvent::Start(MdTag::Paragraph) => {
                let (content, q) = collect_inline_content(events, p + 1, MdTagEnd::Paragraph);
                if !content.is_empty() {
                    proof { lemma_contents_push(lines@, content); }
                    lines.push(content);
                }
                p = q;
            },
            MdEvent::End(MdTagEnd::BlockQuote) => {
                return (lines, p + 1);
            },
            _ => {
                p = p + 1;
            },
        }
    }
}

/// The cells of a table head or row and the position after its end.
fn collect_table_cells(events: &Vec<MdEvent>, start: usize, row_end: MdTagEnd) -> (r: (Vec<InlineContent>, usize))
    requires
        start <= events@.len(),
    ensures
        contents_view(r.0@) == table_cells(events_view(events@), start as int, row_end, Seq::empty()).0,
        r.1 == table_cells(events_view(events@), start as int, row_end, Seq::empty()).1,
{
    let ghost ev = events_view(events@);
    proof {
        lemma_events_len(events@);
    }
    let mut cells: Vec<InlineContent> = Vec::new();
    assert(contents_view(cells@) =~= Seq::<ContentV>::empty());
    let ghost target = table_cells(ev, start as int, row_end, Seq::empty());
    let mut p = start;
    loop
        invariant
            ev == events_view(events@),
            ev.len() == events@.len(),
            target == table_cells(ev, start as int, row_end, Seq::empty()),
            start <= p <= events@.len(),
            table_cells(ev, p as int, row_end, contents_view(cells@)) == target,
        decreases events@.len() - p,
    {
        if p >= events.len() {
            return (cells, p);
        }
        proof {
            lemma_event_at(events@, p as int);
            lemma_inline_until_pos(ev, p + 1, MdTagEnd::TableCell, Seq::empty());
        }
        match &events[p] {
            MdEvent::Start(MdTag::TableCell) => {
                let (content, q) = collect_inline_content(events, p + 1, MdTagEnd::TableCell);
                proof { lemma_contents_push(cells@, content); }
                cells.push(content);
                p = q;
            },
            MdEvent::End(t) => {
                if *t == row_end {
                    return (cells, p + 1);
                }
                p = p + 1;
            },
            _ => {
                p = p + 1;
            },
        }
    }
}

/// The header cells and non-empty rows of a table, and the position after
/// the table's end.
fn collect_table(events: &Vec<MdEvent>, start: usize) -> (r: (Vec<InlineContent>, Vec<Vec<InlineContent>>, usize))
    requires
        start <= events@.len(),
    ensures
        contents_view(r.0@) == table(events_view(events@), start as int, Seq::empty(), Seq::empty()).0.0,
        rows_view(r.1@) == table(events_view(events@), start as int, Seq::empty(), Seq::empty()).0.1,
        r.2 == table(events_view(events@), start as int, Seq::empty(), Seq::empty()).1,
{
    let ghost ev = events_view(events@);
    proof {
        lemma_events_len(events@);
    }
    let mut headers: Vec<InlineContent> = Vec::new();
    let mut rows: Vec<Vec<InlineContent>> = Vec::new();
    assert(contents_view(headers@) =~= Seq::<ContentV>::empty());
    assert(rows_view(rows@) =~= Seq::<Seq<ContentV>>::empty());
    let ghost target = table(ev, start as int, Seq::empty(), Seq::empty());
    let mut p = start;
    loop
        invariant
            ev == events_view(events@),
            ev.len() == events@.len(),
            target == table(ev, start as int, Seq::empty(), Seq::empty()),
            start <= p <= events@.len(),
            table(ev, p as int, contents_view(headers@), rows_view(rows@)) == target,
        decreases events@.len() - p,
    {
        if p >= events.len() {
            return (headers, rows, p);
        }
        proof {
            lemma_event_at(events@, p as int);
            lemma_table_cells_pos(ev, p + 1, MdTagEnd::TableHead, Seq::empty());
            lemma_table_cells_pos(ev, p + 1, MdTagEnd::TableRow, Seq::empty());
        }
        match &events[p] {
            MdEvent::Start(MdTag::TableHead) => {
                let (cells, q) = collect_table_cells(events, p + 1, MdTagEnd::TableHead);
                headers = cells;
                p = q;
            },
            MdEvent::Start(MdTag::TableRow) => {
                let (row, q) = collect_table_cells(events, p + 1, MdTagEnd::TableRow);
                if row.len() != 0 {
                    proof { lemma_rows_push(rows@, row); }
                    rows.push(row);
                }
                p = q;
            },
            MdEvent::End(MdTagEnd::Table) => {
                return (headers, rows, p + 1);
            },
            _ => {
                p = p + 1;
            },
        }
    }
}


/// The expression of a paragraph that holds exactly one formula and nothing
/// else but blank text and line breaks.
fn standalone_math_block(content: &InlineContent) -> (r: Option<String>)
    ensures
        opt_string_view(r) == standalone_math(content@),
{
    let mut expression: Option<String> = None;
    let mut i: usize = 0;
    while i < content.spans.len()
        invariant
            i <= content.spans@.len(),
            standalone_math_from(content@, i as int, opt_string_view(expression))
                == standalone_math(content@),
        decreases content.spans.len() - i,
    {
        assert(content@[i as int] == content.spans@[i as int]@);
        match &content.spans[i] {
            InlineSpan::Math(value) => {
                if expression.is_none() {
                    let trimmed = trim(value.as_str());
                    if trimmed.is_empty() {
                        return None;
                    }
                    expression = Some(trimmed.to_owned());
                } else {
                    return None;
                }
            },
            InlineSpan::Text(text) => {
                if !is_blank(text.as_str()) {
                    return None;
                }
            },
            InlineSpan::LineBreak => {},
            _ => {
                return None;
            },
        }
        i = i + 1;
    }
    expression
}

/// The language of a code block from its info string.
fn is_diagram_language_exec(language: &str) -> (r: bool)
    ensures
        r == is_diagram_language(language@),
{
    proof {
        reveal_strlit("mermaid");
        reveal_strlit("mmd");
        assert("mermaid"@ =~= seq!['m', 'e', 'r', 'm', 'a', 'i', 'd']);
        assert("mmd"@ =~= seq!['m', 'm', 'd']);
    }
    crate::text::str_eq(language, "mermaid") || crate::text::str_eq(language, "mmd")
}

fn code_block_language(kind: &Option<String>) -> (r: Option<String>)
    ensures
        opt_string_view(r) == code_language(opt_string_view(*kind)),
{
    match kind {
        Some(name) => {
            let trimmed = trim(name.as_str());
            if trimmed.is_empty() {
                None
            } else {
                Some(trimmed.to_owned())
            }
        },
        None => None,
    }
}

/// The blocks of an event stream.
pub fn collect_blocks(events: &Vec<MdEvent>) -> (r: Vec<Block>)
    ensures
        blocks_view(r@) == blocks_of_events(events_view(events@)),
{
    let ghost ev = events_view(events@);
    proof {
        lemma_events_len(events@);
    }
    let mut blocks: Vec<Block> = Vec::new();
    assert(blocks_view(blocks@) =~= Seq::<BlockV>::empty());
    let mut p: usize = 0;
    loop
        invariant
            ev == events_view(events@),
            ev.len() == events@.len(),
            p <= events@.len(),
            blocks_from(ev, p as int, blocks_view(blocks@)) == blocks_of_events(ev),
        decreases events@.len() - p,
    {
        if p >= events.len() {
            return blocks;
        }
        proof {
            lemma_event_at(events@, p as int);
        }
        let ghost old_blocks = blocks@;
        match &events[p] {
            MdEvent::Start(MdTag::Heading(level)) => {
                proof {
                    lemma_inline_until_pos(ev, p + 1, MdTagEnd::Heading(*level), Seq::empty());
                }
                let (content, q) = collect_inline_content(events, p + 1, MdTagEnd::Heading(*level));
                if !content.is_empty() {
                    let b = Block::Heading { level: *level, content };
                    proof { lemma_blocks_push(old_blocks, b); }
                    blocks.push(b);
                }
                p = q;
            },
            MdEvent::Start(MdTag::Paragraph) => {
                proof {
                    lemma_inline_until_pos(ev, p + 1, MdTagEnd::Paragraph, Seq::empty());
                }
                let (content, q) = collect_inline_content(events, p + 1, MdTagEnd::Paragraph);
                match standalone_math_block(&content) {
                    Some(expression) => {
                        let b = Block::MathBlock { expression };
                        proof { lemma_blocks_push(old_blocks, b); }
                        blocks.push(b);
                    },
                    None => {
                        if !content.is_empty() {
                            let b = Block::Paragraph(content);
                            proof { lemma_blocks_push(old_blocks, b); }
                            blocks.push(b);
                        }
                    },
                }
                p = q;
            },
            MdEvent::Start(MdTag::List(start)) => {
                proof {
                    lemma_list_items_pos(ev, p + 1, Seq::empty());
                }
                let (items, q) = collect_list_items(events, p + 1);
                let b = match start {
                    Some(s) => Block::OrderedList { start: *s, items },
                    None => Block::UnorderedList(items),
                };
                proof { lemma_blocks_push(old_blocks, b); }
                blocks.push(b);
                p = q;
            },
            MdEvent::Start(MdTag::BlockQuote) => {
                proof {
                    lemma_quote_lines_pos(ev, p + 1, Seq::empty());
                }
                let (lines, q) = collect_blockquote_lines(events, p + 1);
                if lines.len() != 0 {
                    let b = Block::BlockQuote(lines);
                    proof { lemma_blocks_push(old_blocks, b); }
                    blocks.push(b);
                }
                p = q;
            },
            MdEvent::Start(MdTag::CodeBlock(kind)) => {
                proof {
                    lemma_text_raw_pos(ev, p + 1, MdTagEnd::CodeBlock, Seq::empty());
                }
                let language = code_block_language(kind);
                let (code, q) = collect_text_until(events, p + 1, MdTagEnd::CodeBlock);
                let b = match language {
                    Some(l) => if is_diagram_language_exec(l.as_str()) {
                        Block::DiagramBlock { language: l, source: code }
                    } else {
                        Block::CodeBlock { language: Some(l), code }
                    },
                    None => Block::CodeBlock { language: None, code },
                };
                proof { lemma_blocks_push(old_blocks, b); }
                blocks.push(b);
                p = q;
            },
            MdEvent::Start(MdTag::Table(alignments)) => {
                proof {
                    lemma_table_pos(ev, p + 1, Seq::empty(), Seq::empty());
                }
                let (headers, rows, q) = collect_table(events, p + 1);
                if headers.len() != 0 || rows.len() != 0 {
                    let b = Block::Table { alignments: alignments.clone(), headers, rows };
                    proof { lemma_blocks_push(old_blocks, b); }
                    blocks.push(b);
                }
                p = q;
            },
            MdEvent::DisplayMath(value) => {
                let expression = trim(value.as_str());
                if !expression.is_empty() {
                    let b = Block::MathBlock { expression: expression.to_owned() };
                    proof { lemma_blocks_push(old_blocks, b); }
                    blocks.push(b);
                }
                p = p + 1;
            },
            _ => {
                p = p + 1;
            },
        }
    }
}


// ---------------------------------------------------------------------------
// Plain text of inline content and blocks
// ---------------------------------------------------------------------------
/// `buf` with a single separating space added, unless it is empty or
/// already ends with one.
pub open spec fn push_space(buf: Seq<char>) -> Seq<char> {
    if buf.len() > 0 && buf.last() != ' ' {
        buf.push(' ')
    } else {
        buf
    }
}

/// `buf` with `text` appended, every white-space run collapsed to a single
/// space.
pub open spec fn append_normalized(buf: Seq<char>, text: Seq<char>) -> Seq<char>
    decreases text.len(),
{
    if text.len() == 0 {
        buf
    } else {
        let c = text[0];
        append_normalized(
            if is_white_space(c) {
                push_space(buf)
            } else {
                buf.push(c)
            },
            text.drop_first(),
        )
    }
}

/// `buf` without one trailing space.
pub open spec fn trim_trailing_space(buf: Seq<char>) -> Seq<char> {
    if buf.len() > 0 && buf.last() == ' ' {
        buf.drop_last()
    } else {
        buf
    }
}

/// `buf` with the text of one span appended.
pub open spec fn append_span(buf: Seq<char>, s: SpanV) -> Seq<char> {
    match s {
        SpanV::Text(v) => append_normalized(buf, v),
        SpanV::Strong(v) => append_normalized(buf, v),
        SpanV::Emphasis(v) => append_normalized(buf, v),
        SpanV::Code(v) => append_normalized(buf, v),
        SpanV::Math(v) => append_normalized(buf, v),
        SpanV::Link { text, .. } => append_normalized(buf, text),
        SpanV::Image { alt, .. } => append_normalized(buf, alt),
        SpanV::LineBreak => push_space(buf),
    }
}

/// `buf` with the text of the spans `c[i..]` appended.
pub open spec fn append_spans(buf: Seq<char>, c: ContentV, i: int) -> Seq<char>
    decreases c.len() - i,
{
    if i < 0 || i >= c.len() {
        buf
    } else {
        append_spans(append_span(buf, c[i]), c, i + 1)
    }
}

/// The plain text of inline content: span texts with white space collapsed
/// to single spaces and no trailing space.
pub open spec fn content_plain(c: ContentV) -> Seq<char> {
    trim_trailing_space(append_spans(Seq::empty(), c, 0))
}

/// `buf` with the plain text of `c` appended after a space, when that text
/// is not empty.
pub open spec fn append_joined(buf: Seq<char>, c: ContentV) -> Seq<char> {
    let p = content_plain(c);
    if p.len() == 0 {
        buf
    } else if buf.len() > 0 {
        buf.push(' ') + p
    } else {
        p
    }
}

/// `buf` with the plain texts of `items[i..]` joined on.
pub open spec fn join_from(buf: Seq<char>, items: Seq<ContentV>, i: int) -> Seq<char>
    decreases items.len() - i,
{
    if i < 0 || i >= items.len() {
        buf
    } else {
        join_from(append_joined(buf, items[i]), items, i + 1)
    }
}

/// `buf` with the plain texts of all cells of `rows[i..]` joined on.
pub open spec fn join_rows_from(buf: Seq<char>, rows: Seq<Seq<ContentV>>, i: int) -> Seq<char>
    decreases rows.len() - i,
{
    if i < 0 || i >= rows.len() {
        buf
    } else {
        join_rows_from(join_from(buf, rows[i], 0), rows, i + 1)
    }
}

/// A text with white space collapsed and no trailing space.
pub open spec fn normalized_text_spec(t: Seq<char>) -> Seq<char> {
    trim_trailing_space(append_normalized(Seq::empty(), t))
}

/// The plain text of a block, as search sees it.
pub open spec fn block_plain(b: BlockV) -> Seq<char> {
    match b {
        BlockV::Heading { content, .. } => content_plain(content),
        BlockV::Paragraph(content) => content_plain(content),
        BlockV::UnorderedList(items) => join_from(Seq::empty(), items, 0),
        BlockV::OrderedList { items, .. } => join_from(Seq::empty(), items, 0),
        BlockV::BlockQuote(lines) => join_from(Seq::empty(), lines, 0),
        BlockV::CodeBlock { code, .. } => normalized_text_spec(code),
        BlockV::DiagramBlock { source, .. } => normalized_text_spec(source),
        BlockV::MathBlock { expression } => normalized_text_spec(expression),
        BlockV::Table { headers, rows, .. } => join_rows_from(
            join_from(Seq::empty(), headers, 0),
            rows,
            0,
        ),
    }
}

/// Adds a separating space to `buffer` unless it is empty or ends in one.
fn push_normalized_space(buffer: &mut Vec<char>)
    ensures
        final(buffer)@ == push_space(old(buffer)@),
{
    let n = buffer.len();
    if n > 0 && buffer[n - 1] != ' ' {
        buffer.push(' ');
    }
}

/// Appends `text` with white space collapsed.
fn append_normalized_text(buffer: &mut Vec<char>, text: &str)
    ensures
        final(buffer)@ == append_normalized(old(buffer)@, text@),
{
    let cs = chars_of(text);
    let mut i: usize = 0;
    let ghost target = append_normalized(buffer@, text@);
    assert(cs@.skip(0) =~= cs@);
    while i < cs.len()
        invariant
            cs@ == text@,
            i <= cs@.len(),
            target == append_normalized(old(buffer)@, text@),
            append_normalized(buffer@, cs@.skip(i as int)) == target,
        decreases cs.len() - i,
    {
        let c = cs[i];
        assert(cs@.skip(i as int).drop_first() =~= cs@.skip(i + 1));
        assert(cs@.skip(i as int)[0] == c);
        if crate::text::is_whitespace_char(c) {
            push_normalized_space(buffer);
        } else {
            buffer.push(c);
        }
        i = i + 1;
    }
    assert(cs@.skip(i as int) =~= Seq::<char>::empty());
}

/// Removes one trailing space.
fn trim_trailing_normalized_space(buffer: &mut Vec<char>)
    ensures
        final(buffer)@ == trim_trailing_space(old(buffer)@),
{
    let n = buffer.len();
    if n > 0 && buffer[n - 1] == ' ' {
        buffer.pop();
    }
}

/// Appends the text of one span.
fn append_span_text(buffer: &mut Vec<char>, span: &InlineSpan)
    ensures
        final(buffer)@ == append_span(old(buffer)@, span@),
{
    match span {
        InlineSpan::Text(value) => append_normalized_text(buffer, value.as_str()),
        InlineSpan::Strong(value) => append_normalized_text(buffer, value.as_str()),
        InlineSpan::Emphasis(value) => append_normalized_text(buffer, value.as_str()),
        InlineSpan::Code(value) => append_normalized_text(buffer, value.as_str()),
        InlineSpan::Math(value) => append_normalized_text(buffer, value.as_str()),
        InlineSpan::Link { text, .. } => append_normalized_text(buffer, text.as_str()),
        InlineSpan::Image { alt, .. } => append_normalized_text(buffer, alt.as_str()),
        InlineSpan::LineBreak => push_normalized_space(buffer),
    }
}

impl InlineContent {
    /// The characters of the plain text.
    fn plain_chars(&self) -> (r: Vec<char>)
        ensures
            r@ == content_plain(self@),
    {
        let mut text: Vec<char> = Vec::new();
        let mut i: usize = 0;
        let ghost target = append_spans(Seq::empty(), self@, 0);
        while i < self.spans.len()
            invariant
                i <= self.spans@.len(),
                self@.len() == self.spans@.len(),
                target == append_spans(Seq::empty(), self@, 0),
                append_spans(text@, self@, i as int) == target,
            decreases self.spans.len() - i,
        {
            assert(self@[i as int] == self.spans@[i as int]@);
            append_span_text(&mut text, &self.spans[i]);
            i = i + 1;
        }
        trim_trailing_normalized_space(&mut text);
        text
    }

    /// The plain text: span texts with white space collapsed to single
    /// spaces and no trailing space.
    pub fn plain_text(&self) -> (r: String)
        ensures
            r@ == content_plain(self@),
    {
        let chars = self.plain_chars();
        string_from_chars(chars.as_slice())
    }
}

/// Appends the plain text of `content` after a space, unless it is empty.
fn append_joined_inline_content(buffer: &mut Vec<char>, content: &InlineContent)
    ensures
        final(buffer)@ == append_joined(old(buffer)@, content@),
{
    let plain = content.plain_chars();
    if plain.len() == 0 {
        return;
    }
    if buffer.len() > 0 {
        buffer.push(' ');
    }
    let mut k: usize = 0;
    let ghost before = buffer@;
    while k < plain.len()
        invariant
            k <= plain@.len(),
            buffer@ == before + plain@.take(k as int),
        decreases plain.len() - k,
    {
        assert(plain@.take(k + 1) =~= plain@.take(k as int).push(plain@[k as int]));
        buffer.push(plain[k]);
        k = k + 1;
    }
    assert(plain@.take(k as int) =~= plain@);
    assert(before.len() == 0 ==> before + plain@ =~= plain@);
}

/// Appends the plain texts of `items`, joined with spaces.
fn append_joined_items(buffer: &mut Vec<char>, items: &Vec<InlineContent>)
    ensures
        final(buffer)@ == join_from(old(buffer)@, contents_view(items@), 0),
{
    let ghost iv = contents_view(items@);
    let ghost target = join_from(buffer@, iv, 0);
    let mut i: usize = 0;
    while i < items.len()
        invariant
            i <= items@.len(),
            iv == contents_view(items@),
            iv.len() == items@.len(),
            target == join_from(old(buffer)@, iv, 0),
            join_from(buffer@, iv, i as int) == target,
        decreases items.len() - i,
    {
        assert(iv[i as int] == items@[i as int]@);
        append_joined_inline_content(buffer, &items[i]);
        i = i + 1;
    }
}

/// The plain texts of the items joined with single spaces.
fn join_inline_items(items: &Vec<InlineContent>) -> (r: Vec<char>)
    ensures
        r@ == join_from(Seq::empty(), contents_view(items@), 0),
{
    let mut joined: Vec<char> = Vec::new();
    append_joined_items(&mut joined, items);
    joined
}

/// A text with white space collapsed and no trailing space.
fn normalized_text(text: &str) -> (r: Vec<char>)
    ensures
        r@ == normalized_text_spec(text@),
{
    let mut normalized: Vec<char> = Vec::new();
    append_normalized_text(&mut normalized, text);
    trim_trailing_normalized_space(&mut normalized);
    normalized
}

impl Block {
    /// The characters of the plain text of the block.
    fn plain_chars(&self) -> (r: Vec<char>)
        ensures
            r@ == block_plain(self@),
    {
        match self {
            Block::Heading { content, .. } => content.plain_chars(),
            Block::Paragraph(content) => content.plain_chars(),
            Block::UnorderedList(items) => join_inline_items(items),
            Block::OrderedList { items, .. } => join_inline_items(items),
            Block::BlockQuote(lines) => join_inline_items(lines),
            Block::CodeBlock { code, .. } => normalized_text(code.as_str()),
            Block::DiagramBlock { source, .. } => normalized_text(source.as_str()),
            Block::MathBlock { expression } => normalized_text(expression.as_str()),
            Block::Table { headers, rows, .. } => {
                let mut text: Vec<char> = Vec::new();
                append_joined_items(&mut text, headers);
                let ghost rv = rows_view(rows@);
                let ghost target = join_rows_from(text@, rv, 0);
                let mut i: usize = 0;
                while i < rows.len()
                    invariant
                        i <= rows@.len(),
                        rv == rows_view(rows@),
                        rv.len() == rows@.len(),
                        join_rows_from(text@, rv, i as int) == target,
                    decreases rows.len() - i,
                {
                    assert(rv[i as int] == contents_view(rows@[i as int]@));
                    append_joined_items(&mut text, &rows[i]);
                    i = i + 1;
                }
                text
            },
        }
    }

    /// The plain text of the block, as search sees it.
    pub fn plain_text(&self) -> (r: String)
        ensures
            r@ == block_plain(self@),
    {
        let chars = self.plain_chars();
        string_from_chars(chars.as_slice())
    }
}


// ---------------------------------------------------------------------------
// Heading anchors
// ---------------------------------------------------------------------------
/// One step of building a slug: letters and digits are kept; white space
/// and hyphens become a single hyphen after a kept character.
pub open spec fn slug_step(acc: Seq<char>, c: char) -> Seq<char> {
    if char_alphanumeric(c) {
        acc.push(c)
    } else if (is_white_space(c) || c == '-') && acc.len() > 0 && acc.last() != '-' {
        acc.push('-')
    } else {
        acc
    }
}

/// The slug built from a sequence of (already lowercased) characters.
pub open spec fn slug_of(s: Seq<char>) -> Seq<char>
    decreases s.len(),
{
    if s.len() == 0 {
        Seq::empty()
    } else {
        slug_step(slug_of(s.drop_last()), s.last())
    }
}

/// `s` without its trailing hyphens.
pub open spec fn strip_trailing_dashes(s: Seq<char>) -> Seq<char>
    decreases s.len(),
{
    if s.len() > 0 && s.last() == '-' {
        strip_trailing_dashes(s.drop_last())
    } else {
        s
    }
}

/// The word used for a heading whose title gives an empty slug.
pub open spec fn section_word() -> Seq<char> {
    seq!['s', 'e', 'c', 't', 'i', 'o', 'n']
}

/// The anchor slug of a heading title: the trimmed title lowercased
/// character by character, letters and digits kept, white-space and hyphen
/// runs turned into single hyphens, no hyphen at either end, and "section"
/// when nothing is left.
pub open spec fn anchor_slug_spec(title: Seq<char>) -> Seq<char> {
    let s = strip_trailing_dashes(slug_of(fold(trim_spec(title))));
    if s.len() == 0 {
        section_word()
    } else {
        s
    }
}

/// The decimal digit for `d < 10`.
pub open spec fn digit_char(d: nat) -> char {
    (48 + d) as char
}

/// The decimal representation of `n`.
pub open spec fn decimal(n: nat) -> Seq<char>
    decreases n,
{
    if n < 10 {
        seq![digit_char(n)]
    } else {
        decimal(n / 10).push(digit_char(n % 10))
    }
}

/// The anchor for the `count`-th earlier heading with the same slug:
/// the slug itself the first time, then the slug with "-1", "-2", ...
pub open spec fn anchor_with_count(base: Seq<char>, count: nat) -> Seq<char> {
    if count == 0 {
        base
    } else {
        base + seq!['-'] + decimal(count)
    }
}

/// A heading of the navigation: its block, level, title and anchor.
pub struct HeadingItemV {
    pub block_index: int,
    pub level: HeadingLevel,
    pub title: Seq<char>,
    pub anchor: Seq<char>,
}

/// The headings among the first `n` blocks that have a non-empty title, as
/// (block index, level, title).
pub open spec fn heading_entries(blocks: Seq<BlockV>, n: int) -> Seq<(int, HeadingLevel, Seq<char>)>
    decreases n,
{
    if n <= 0 || n > blocks.len() {
        Seq::empty()
    } else {
        let prev = heading_entries(blocks, n - 1);
        match blocks[n - 1] {
            BlockV::Heading { level, content } => if content_plain(content).len() > 0 {
                prev.push((n - 1, level, content_plain(content)))
            } else {
                prev
            },
            _ => prev,
        }
    }
}

/// How many of the first `k` entries have the slug `base`.
pub open spec fn count_slug(entries: Seq<(int, HeadingLevel, Seq<char>)>, k: int, base: Seq<char>) -> nat
    decreases k,
{
    if k <= 0 || k > entries.len() {
        0
    } else {
        count_slug(entries, k - 1, base) + if anchor_slug_spec(entries[k - 1].2) == base {
            1nat
        } else {
            0nat
        }
    }
}

/// The navigation headings of a document: every heading with a non-empty
/// title, in order, each anchored by its slug made unique with a counter.
pub open spec fn heading_items(blocks: Seq<BlockV>) -> Seq<HeadingItemV> {
    let entries = heading_entries(blocks, blocks.len() as int);
    Seq::new(
        entries.len(),
        |k: int|
            HeadingItemV {
                block_index: entries[k].0,
                level: entries[k].1,
                title: entries[k].2,
                anchor: anchor_with_count(
                    anchor_slug_spec(entries[k].2),
                    count_slug(entries, k, anchor_slug_spec(entries[k].2)),
                ),
            },
    )
}

/// The characters of the anchor slug of `title`.
fn anchor_slug_chars(title: &str) -> (r: Vec<char>)
    ensures
        r@ == anchor_slug_spec(title@),
{
    let trimmed = trim(title);
    let t = chars_of(trimmed);
    let mut slug: Vec<char> = Vec::new();
    let mut i: usize = 0;
    let ghost mut processed: Seq<char> = Seq::empty();
    assert(t@.take(0) =~= Seq::<char>::empty());
    while i < t.len()
        invariant
            t@ == trim_spec(title@),
            i <= t@.len(),
            processed == fold(t@.take(i as int)),
            slug@ == slug_of(processed),
        decreases t.len() - i,
    {
        proof {
            lemma_fold_step(t@, i as int);
        }
        let lower = char_to_lowercase(t[i]);
        let mut k: usize = 0;
        let ghost base = processed;
        while k < lower.len()
            invariant
                k <= lower@.len(),
                processed == base + lower@.take(k as int),
                slug@ == slug_of(processed),
            decreases lower.len() - k,
        {
            let c = lower[k];
            let n = slug.len();
            if is_alphanumeric_char(c) {
                slug.push(c);
            } else if (crate::text::is_whitespace_char(c) || c == '-') && n > 0 && slug[n - 1] != '-' {
                slug.push('-');
            }
            proof {
                assert(processed.push(c).drop_last() =~= processed);
                processed = processed.push(c);
                assert(lower@.take(k + 1) =~= lower@.take(k as int).push(c));
            }
            k = k + 1;
        }
        assert(lower@.take(k as int) =~= lower@);
        i = i + 1;
    }
    assert(t@.take(i as int) =~= t@);
    let ghost raw = slug@;
    while slug.len() > 0 && slug[slug.len() - 1] == '-'
        invariant
            strip_trailing_dashes(slug@) == strip_trailing_dashes(raw),
        decreases slug.len(),
    {
        slug.pop();
    }
    if slug.len() == 0 {
        let mut word: Vec<char> = Vec::new();
        word.push('s');
        word.push('e');
        word.push('c');
        word.push('t');
        word.push('i');
        word.push('o');
        word.push('n');
        assert(word@ =~= section_word());
        word
    } else {
        slug
    }
}

/// The anchor slug of a heading title.
pub fn anchor_slug(title: &str) -> (r: String)
    ensures
        r@ == anchor_slug_spec(title@),
{
    let chars = anchor_slug_chars(title);
    string_from_chars(chars.as_slice())
}

/// The decimal digits of `n`.
pub fn decimal_chars(n: usize) -> (r: Vec<char>)
    ensures
        r@ == decimal(n as nat),
    decreases n,
{
    let d = n % 10;
    let c = char_from_digit(d);
    if n < 10 {
        let mut v: Vec<char> = Vec::new();
        v.push(c);
        v
    } else {
        let mut v = decimal_chars(n / 10);
        v.push(c);
        v
    }
}

/// The character of a decimal digit.
fn char_from_digit(d: usize) -> (c: char)
    requires
        d < 10,
    ensures
        c == digit_char(d as nat),
{
    if d == 0 { '0' } else if d == 1 { '1' } else if d == 2 { '2' } else if d == 3 { '3' } else if d == 4 { '4' } else if d == 5 { '5' } else if d == 6 { '6' } else if d == 7 { '7' } else if d == 8 { '8' } else { '9' }
}


/// A heading of the navigation panel.
pub struct HeadingNavItem {
    pub block_index: usize,
    pub level: HeadingLevel,
    pub title: String,
    pub anchor: String,
}

impl View for HeadingNavItem {
    type V = HeadingItemV;

    open spec fn view(&self) -> HeadingItemV {
        HeadingItemV {
            block_index: self.block_index as int,
            level: self.level,
            title: self.title@,
            anchor: self.anchor@,
        }
    }
}

/// The views of a list of headings.
pub open spec fn headings_view(items: Seq<HeadingNavItem>) -> Seq<HeadingItemV> {
    items.map_values(|h: HeadingNavItem| h@)
}

/// A parsed document: its blocks and the headings for navigation.
pub struct MarkdownDocument {
    pub blocks: Vec<Block>,
    /// Built together with the blocks; read it through `headings()`.
    pub headings: Vec<HeadingNavItem>,
}

impl MarkdownDocument {
    /// The navigation headings of the document.
    pub open spec fn heading_list(&self) -> Seq<HeadingItemV> {
        headings_view(self.headings@)
    }
}

proof fn lemma_heading_entries_step(blocks: Seq<BlockV>, n: int)
    requires
        0 <= n < blocks.len(),
    ensures
        heading_entries(blocks, n + 1) == (match blocks[n] {
            BlockV::Heading { level, content } => if content_plain(content).len() > 0 {
                heading_entries(blocks, n).push((n, level, content_plain(content)))
            } else {
                heading_entries(blocks, n)
            },
            _ => heading_entries(blocks, n),
        }),
{
}

proof fn lemma_heading_entries_len(blocks: Seq<BlockV>, n: int)
    requires
        0 <= n <= blocks.len(),
    ensures
        heading_entries(blocks, n).len() <= n,
    decreases n,
{
    if n > 0 {
        lemma_heading_entries_len(blocks, n - 1);
    }
}

/// The navigation headings of a list of blocks.
fn collect_heading_nav_items(blocks: &Vec<Block>) -> (r: Vec<HeadingNavItem>)
    ensures
        headings_view(r@) == heading_items(blocks_view(blocks@)),
{
    let ghost bv = blocks_view(blocks@);
    let mut items: Vec<HeadingNavItem> = Vec::new();
    let mut bases: Vec<Vec<char>> = Vec::new();
    let mut i: usize = 0;
    while i < blocks.len()
        invariant
            bv == blocks_view(blocks@),
            bv.len() == blocks@.len(),
            i <= blocks@.len(),
            items@.len() == heading_entries(bv, i as int).len(),
            bases@.len() == items@.len(),
            forall|k: int|
                #![trigger items@[k]]
                0 <= k < items@.len() ==> {
                    let e = heading_entries(bv, i as int)[k];
                    &&& items@[k]@ == HeadingItemV {
                        block_index: e.0,
                        level: e.1,
                        title: e.2,
                        anchor: anchor_with_count(
                            anchor_slug_spec(e.2),
                            count_slug(heading_entries(bv, i as int), k, anchor_slug_spec(e.2)),
                        ),
                    }
                    &&& bases@[k]@ == anchor_slug_spec(e.2)
                },
        decreases blocks.len() - i,
    {
        proof {
            lemma_heading_entries_step(bv, i as int);
            lemma_heading_entries_len(bv, i as int);
        }
        let ghost entries = heading_entries(bv, i as int);
        assert(bv[i as int] == blocks@[i as int]@);
        match &blocks[i] {
            Block::Heading { level, content } => {
                let title = content.plain_text();
                if !title.as_str().is_empty() {
                    let base = anchor_slug_chars(title.as_str());
                    let mut count: usize = 0;
                    let mut j: usize = 0;
                    assert forall|k: int|
                        0 <= k < entries.len() implies (#[trigger] bases@[k])@ == anchor_slug_spec(
                            entries[k].2,
                        ) by {
                        let _ = items@[k];
                    }
                    while j < bases.len()
                        invariant
                            j <= bases@.len(),
                            bases@.len() == entries.len(),
                            entries.len() <= i,
                            count <= j,
                            count == count_slug(entries, j as int, base@),
                            forall|k: int|
                                0 <= k < entries.len() ==> (#[trigger] bases@[k])@ == anchor_slug_spec(
                                    entries[k].2,
                                ),
                        decreases bases.len() - j,
                    {
                        if seq_eq(&bases[j], &base) {
                            count = count + 1;
                        }
                        j = j + 1;
                    }
                    let mut anchor = base.clone();
                    if count > 0 {
                        anchor.push('-');
                        let digits = decimal_chars(count);
                        let mut d: usize = 0;
                        let ghost before = anchor@;
                        while d < digits.len()
                            invariant
                                d <= digits@.len(),
                                anchor@ == before + digits@.take(d as int),
                            decreases digits.len() - d,
                        {
                            assert(digits@.take(d + 1) =~= digits@.take(d as int).push(digits@[d as int]));
                            anchor.push(digits[d]);
                            d = d + 1;
                        }
                        assert(digits@.take(d as int) =~= digits@);
                        assert(anchor@ =~= base@ + seq!['-'] + decimal(count as nat));
                    }
                    let ghost new_entries = entries.push((i as int, *level, title@));
                    let item = HeadingNavItem {
                        block_index: i,
                        level: *level,
                        title,
                        anchor: string_from_chars(anchor.as_slice()),
                    };
                    proof {
                        assert forall|k: int| 0 <= k < entries.len() implies count_slug(new_entries, k, anchor_slug_spec(entries[k].2)) == count_slug(entries, k, anchor_slug_spec(entries[k].2)) by {
                            lemma_count_slug_prefix(entries, new_entries, k, anchor_slug_spec(entries[k].2));
                        }
                        lemma_count_slug_prefix(entries, new_entries, entries.len() as int, base@);
                    }
                    items.push(item);
                    bases.push(base);
                    proof {
                        assert forall|k: int|
                            #![trigger items@[k]]
                            0 <= k < items@.len() implies {
                                let e = new_entries[k];
                                &&& items@[k]@ == HeadingItemV {
                                    block_index: e.0,
                                    level: e.1,
                                    title: e.2,
                                    anchor: anchor_with_count(
                                        anchor_slug_spec(e.2),
                                        count_slug(new_entries, k, anchor_slug_spec(e.2)),
                                    ),
                                }
                                &&& bases@[k]@ == anchor_slug_spec(e.2)
                            } by {
                            if k < entries.len() {
                                assert(new_entries[k] == entries[k]);
                            }
                        }
                    }
                }
            },
            _ => {},
        }
        i = i + 1;
    }
    proof {
        let entries = heading_entries(bv, bv.len() as int);
        assert(headings_view(items@) =~= heading_items(bv));
    }
    items
}

proof fn lemma_count_slug_prefix(
    entries: Seq<(int, HeadingLevel, Seq<char>)>,
    longer: Seq<(int, HeadingLevel, Seq<char>)>,
    k: int,
    base: Seq<char>,
)
    requires
        0 <= k <= entries.len() <= longer.len(),
        forall|j: int| 0 <= j < entries.len() ==> longer[j] == entries[j],
    ensures
        count_slug(longer, k, base) == count_slug(entries, k, base),
    decreases k,
{
    if k > 0 {
        lemma_count_slug_prefix(entries, longer, k - 1, base);
    }
}


// ---------------------------------------------------------------------------
// Documents
// ---------------------------------------------------------------------------
/// The matches of an already normalized query among the first `n` blocks:
/// each block whose lowercased plain text contains it, with a preview.
pub open spec fn matches_upto(blocks: Seq<BlockV>, nq: Seq<char>, n: int) -> Seq<(int, Seq<char>)>
    decreases n,
{
    if n <= 0 || n > blocks.len() {
        Seq::empty()
    } else {
        let prev = matches_upto(blocks, nq, n - 1);
        let plain = block_plain(blocks[n - 1]);
        if seq_contains(str_lowercase(plain), nq) {
            prev.push((n - 1, preview_spec(plain)))
        } else {
            prev
        }
    }
}

/// The search matches of a raw query in a list of blocks.
pub open spec fn search_matches_spec(blocks: Seq<BlockV>, query: Seq<char>) -> Seq<(int, Seq<char>)> {
    match normalized_query_spec(query) {
        Some(nq) => matches_upto(blocks, nq, blocks.len() as int),
        None => Seq::empty(),
    }
}

/// The views of a list of search matches.
pub open spec fn matches_view(ms: Seq<SearchMatch>) -> Seq<(int, Seq<char>)> {
    ms.map_values(|m: SearchMatch| m@)
}

/// `s` without its leading `#` characters.
pub open spec fn strip_leading_hashes(s: Seq<char>) -> Seq<char>
    decreases s.len(),
{
    if s.len() > 0 && s[0] == '#' {
        strip_leading_hashes(s.drop_first())
    } else {
        s
    }
}

/// An anchor as headings store it: trimmed, without leading `#`, trimmed
/// again and lowercased character by character.
pub open spec fn normalize_anchor_spec(anchor: Seq<char>) -> Seq<char> {
    fold(trim_spec(strip_leading_hashes(trim_spec(anchor))))
}

/// The block of the first heading from `i` on whose anchor is `a`.
pub open spec fn heading_block_from(hs: Seq<HeadingItemV>, a: Seq<char>, i: int) -> Option<int>
    decreases hs.len() - i,
{
    if i < 0 || i >= hs.len() {
        None
    } else if hs[i].anchor == a {
        Some(hs[i].block_index)
    } else {
        heading_block_from(hs, a, i + 1)
    }
}

/// The normalized form of an anchor taken from a link.
fn normalize_anchor(anchor: &str) -> (r: Vec<char>)
    ensures
        r@ == normalize_anchor_spec(anchor@),
{
    let a = trim(anchor);
    let cs = chars_of(a);
    let mut i: usize = 0;
    assert(cs@.skip(0) =~= cs@);
    while i < cs.len() && cs[i] == '#'
        invariant
            i <= cs@.len(),
            strip_leading_hashes(cs@.skip(i as int)) == strip_leading_hashes(trim_spec(anchor@)),
        decreases cs.len() - i,
    {
        assert(cs@.skip(i as int).drop_first() =~= cs@.skip(i + 1));
        i = i + 1;
    }
    let rest = subrange_chars(&cs, i, cs.len());
    assert(rest@ =~= cs@.skip(i as int));
    assert(strip_leading_hashes(rest@) == rest@);
    let (from, to) = trim_bounds(&rest);
    let trimmed = subrange_chars(&rest, from, to);
    fold_chars(&trimmed)
}

impl MarkdownDocument {
    /// The navigation headings of the document.
    pub fn headings(&self) -> (r: &[HeadingNavItem])
        ensures
            headings_view(r@) == self.heading_list(),
    {
        self.headings.as_slice()
    }

    /// The block of the first heading whose anchor matches a link target
    /// (trimmed, leading `#` removed, lowercased).
    pub fn heading_block_for_anchor(&self, anchor: &str) -> (r: Option<usize>)
        ensures
            match r {
                Some(b) => heading_block_from(self.heading_list(), normalize_anchor_spec(anchor@), 0)
                    == Some(b as int),
                None => heading_block_from(self.heading_list(), normalize_anchor_spec(anchor@), 0) is None,
            },
    {
        let normalized = normalize_anchor(anchor);
        let ghost hs = self.heading_list();
        let mut i: usize = 0;
        while i < self.headings.len()
            invariant
                hs == headings_view(self.headings@),
                hs.len() == self.headings@.len(),
                normalized@ == normalize_anchor_spec(anchor@),
                i <= self.headings@.len(),
                heading_block_from(hs, normalized@, i as int) == heading_block_from(hs, normalized@, 0),
            decreases self.headings.len() - i,
        {
            let heading = &self.headings[i];
            assert(hs[i as int] == heading@);
            let anchor_chars = chars_of(heading.anchor.as_str());
            if seq_eq(&anchor_chars, &normalized) {
                return Some(heading.block_index);
            }
            i = i + 1;
        }
        None
    }

    /// The blocks whose plain text contains the normalized query, each with
    /// a preview; none for a blank query.
    pub fn search_matches(&self, query: &str) -> (r: Vec<SearchMatch>)
        ensures
            matches_view(r@) == search_matches_spec(blocks_view(self.blocks@), query@),
    {
        let ghost bv = blocks_view(self.blocks@);
        let nq = match normalized_query(query) {
            Some(q) => q,
            None => {
                let empty: Vec<SearchMatch> = Vec::new();
                assert(matches_view(empty@) =~= Seq::<(int, Seq<char>)>::empty());
                return empty;
            },
        };
        let mut found: Vec<SearchMatch> = Vec::new();
        let mut i: usize = 0;
        assert(matches_view(found@) =~= Seq::<(int, Seq<char>)>::empty());
        while i < self.blocks.len()
            invariant
                bv == blocks_view(self.blocks@),
                bv.len() == self.blocks@.len(),
                normalized_query_spec(query@) == Some(nq@),
                i <= self.blocks@.len(),
                matches_view(found@) == matches_upto(bv, nq@, i as int),
            decreases self.blocks.len() - i,
        {
            assert(bv[i as int] == self.blocks@[i as int]@);
            let plain = self.blocks[i].plain_text();
            if contains_normalized_query(plain.as_str(), nq.as_str()) {
                let m = SearchMatch { block_index: i, preview: preview_text(plain.as_str()) };
                let ghost before = found@;
                found.push(m);
                assert(matches_view(found@) =~= matches_view(before).push(m@));
            }
            i = i + 1;
        }
        found
    }
}

/// Parses Markdown (CommonMark with tables and math) into the blocks and
/// headings the viewer shows.
pub fn parse_markdown(input: &str) -> (r: MarkdownDocument)
    ensures
        blocks_view(r.blocks@) == blocks_of_events(markdown_events(input@)),
        r.heading_list() == heading_items(blocks_view(r.blocks@)),
{
    let events = parse_markdown_events(input);
    document_from_events(&events)
}

/// The document built from an event stream: its blocks and headings.
pub fn document_from_events(events: &Vec<MdEvent>) -> (r: MarkdownDocument)
    ensures
        blocks_view(r.blocks@) == blocks_of_events(events_view(events@)),
        r.heading_list() == heading_items(blocks_view(r.blocks@)),
{
    let blocks = collect_blocks(events);
    let headings = collect_heading_nav_items(&blocks);
    MarkdownDocument { blocks, headings }
}

/// A block is a heading with a non-empty title.
pub open spec fn is_titled_heading(b: BlockV) -> bool {
    b matches BlockV::Heading { content, .. } && content_plain(content).len() > 0
}

/// `h` names a heading block of `blocks`, with that block's level and title.
pub open spec fn names_heading_block(blocks: Seq<BlockV>, h: HeadingItemV) -> bool {
    &&& 0 <= h.block_index < blocks.len()
    &&& blocks[h.block_index] matches BlockV::Heading { level, content } && level == h.level
        && content_plain(content) == h.title && h.title.len() > 0
}

/// The heading entries among the first `n` blocks name heading blocks, in
/// block order, and every titled heading among them has an entry.
proof fn lemma_heading_entries_sound(blocks: Seq<BlockV>, n: int)
    requires
        0 <= n <= blocks.len(),
    ensures
        forall|k: int|
            #![trigger heading_entries(blocks, n)[k]]
            0 <= k < heading_entries(blocks, n).len() ==> {
                let e = heading_entries(blocks, n)[k];
                &&& 0 <= e.0 < n
                &&& names_heading_block(
                    blocks,
                    HeadingItemV { block_index: e.0, level: e.1, title: e.2, anchor: Seq::empty() },
                )
            },
        forall|j: int, k: int|
            0 <= j < k < heading_entries(blocks, n).len() ==> (#[trigger] heading_entries(
                blocks,
                n,
            )[j]).0 < (#[trigger] heading_entries(blocks, n)[k]).0,
        forall|b: int|
            0 <= b < n && is_titled_heading(#[trigger] blocks[b]) ==> exists|k: int|
                0 <= k < heading_entries(blocks, n).len() && (#[trigger] heading_entries(
                    blocks,
                    n,
                )[k]).0 == b,
    decreases n,
{
    if n > 0 {
        lemma_heading_entries_sound(blocks, n - 1);
        lemma_heading_entries_step(blocks, n - 1);
        let prev = heading_entries(blocks, n - 1);
        let cur = heading_entries(blocks, n);
        assert forall|b: int| 0 <= b < n && is_titled_heading(#[trigger] blocks[b]) implies exists|
            k: int,
        | 0 <= k < cur.len() && (#[trigger] cur[k]).0 == b by {
            if b < n - 1 {
                let k = choose|k: int| 0 <= k < prev.len() && (#[trigger] prev[k]).0 == b;
                assert(cur[k] == prev[k]);
            } else {
                assert(cur[prev.len() as int].0 == b);
            }
        }
        assert forall|k: int| 0 <= k < cur.len() implies 0 <= (#[trigger] cur[k]).0 < n by {
            if k < prev.len() {
                assert(cur[k] == prev[k]);
            }
        }
    }
}

/// Every navigation heading names a heading block of the document, with
/// that block's level and title; the headings come in the order of their
/// blocks; and every heading with a non-empty title has one.
pub proof fn law_headings_name_heading_blocks(blocks: Seq<BlockV>)
    ensures
        forall|k: int|
            0 <= k < heading_items(blocks).len() ==> names_heading_block(
                blocks,
                #[trigger] heading_items(blocks)[k],
            ),
        forall|j: int, k: int|
            0 <= j < k < heading_items(blocks).len() ==> (#[trigger] heading_items(blocks)[j]).block_index
                < (#[trigger] heading_items(blocks)[k]).block_index,
        forall|b: int|
            0 <= b < blocks.len() && is_titled_heading(#[trigger] blocks[b]) ==> exists|k: int|
                0 <= k < heading_items(blocks).len() && (#[trigger] heading_items(blocks)[k]).block_index
                    == b,
{
    let n = blocks.len() as int;
    lemma_heading_entries_sound(blocks, n);
    let e = heading_entries(blocks, n);
    let items = heading_items(blocks);
    assert forall|k: int| 0 <= k < items.len() implies names_heading_block(
        blocks,
        #[trigger] items[k],
    ) by {
        let x = e[k];
        assert(names_heading_block(
            blocks,
            HeadingItemV { block_index: x.0, level: x.1, title: x.2, anchor: Seq::empty() },
        ));
    }
    assert forall|j: int, k: int| 0 <= j < k < items.len() implies (#[trigger] items[j]).block_index
        < (#[trigger] items[k]).block_index by {
        assert(e[j].0 < e[k].0);
    }
    assert forall|b: int| 0 <= b < n && is_titled_heading(#[trigger] blocks[b]) implies exists|k: int|
        0 <= k < items.len() && (#[trigger] items[k]).block_index == b by {
        let k = choose|k: int| 0 <= k < e.len() && (#[trigger] e[k]).0 == b;
        assert(items[k].block_index == b);
    }
}

/// The search matches of the first `n` blocks name blocks that contain the
/// query, in block order, and every such block has one.
proof fn lemma_matches_upto_sound(blocks: Seq<BlockV>, nq: Seq<char>, n: int)
    requires
        0 <= n <= blocks.len(),
    ensures
        forall|k: int|
            0 <= k < matches_upto(blocks, nq, n).len() ==> {
                let m = #[trigger] matches_upto(blocks, nq, n)[k];
                &&& 0 <= m.0 < n
                &&& seq_contains(str_lowercase(block_plain(blocks[m.0])), nq)
                &&& m.1 == preview_spec(block_plain(blocks[m.0]))
            },
        forall|j: int, k: int|
            0 <= j < k < matches_upto(blocks, nq, n).len() ==> (#[trigger] matches_upto(
                blocks,
                nq,
                n,
            )[j]).0 < (#[trigger] matches_upto(blocks, nq, n)[k]).0,
        forall|b: int|
            0 <= b < n && seq_contains(str_lowercase(block_plain(#[trigger] blocks[b])), nq)
                ==> exists|k: int|
                0 <= k < matches_upto(blocks, nq, n).len() && (#[trigger] matches_upto(
                    blocks,
                    nq,
                    n,
                )[k]).0 == b,
    decreases n,
{
    if n > 0 {
        lemma_matches_upto_sound(blocks, nq, n - 1);
        let prev = matches_upto(blocks, nq, n - 1);
        let cur = matches_upto(blocks, nq, n);
        assert forall|b: int|
            0 <= b < n && seq_contains(
                str_lowercase(block_plain(#[trigger] blocks[b])),
                nq,
            ) implies exists|k: int| 0 <= k < cur.len() && (#[trigger] cur[k]).0 == b by {
            if b < n - 1 {
                let k = choose|k: int| 0 <= k < prev.len() && (#[trigger] prev[k]).0 == b;
                assert(cur[k] == prev[k]);
            } else {
                assert(cur[prev.len() as int].0 == b);
            }
        }
        assert forall|k: int| 0 <= k < cur.len() implies 0 <= (#[trigger] cur[k]).0 < n by {
            if k < prev.len() {
                assert(cur[k] == prev[k]);
            }
        }
    }
}

/// Search finds exactly the blocks whose lowercased plain text contains
/// the normalized query, each once, in document order, with the preview of
/// that block; a blank query finds nothing.
pub proof fn law_search_matches_are_the_matching_blocks(blocks: Seq<BlockV>, query: Seq<char>)
    ensures
        normalized_query_spec(query) is None ==> search_matches_spec(blocks, query).len() == 0,
        normalized_query_spec(query) matches Some(nq) ==> {
            &&& forall|k: int|
                0 <= k < search_matches_spec(blocks, query).len() ==> {
                    let m = #[trigger] search_matches_spec(blocks, query)[k];
                    &&& 0 <= m.0 < blocks.len()
                    &&& seq_contains(str_lowercase(block_plain(blocks[m.0])), nq)
                    &&& m.1 == preview_spec(block_plain(blocks[m.0]))
                }
            &&& forall|j: int, k: int|
                0 <= j < k < search_matches_spec(blocks, query).len() ==> (
                #[trigger] search_matches_spec(blocks, query)[j]).0 < (
                #[trigger] search_matches_spec(blocks, query)[k]).0
            &&& forall|b: int|
                0 <= b < blocks.len() && seq_contains(
                    str_lowercase(block_plain(#[trigger] blocks[b])),
                    nq,
                ) ==> exists|k: int|
                    0 <= k < search_matches_spec(blocks, query).len() && (
                    #[trigger] search_matches_spec(blocks, query)[k]).0 == b
        },
{
    if let Some(nq) = normalized_query_spec(query) {
        lemma_matches_upto_sound(blocks, nq, blocks.len() as int);
    }
}

// ---------------------------------------------------------------------------
// What an emphasised or strong element becomes
// ---------------------------------------------------------------------------
/// An element keeps the kind of its start tag: an emphasis element adds at
/// most one span, an `Emphasis` span of its trimmed text, and a strong
/// element at most one `Strong` span of its trimmed text; nothing else is
/// added and the spans before are kept.
pub proof fn law_span_kind_follows_start_tag(ev: Seq<MdEventV>, p: int, spans: ContentV)
    requires
        0 <= p < ev.len(),
    ensures
        ev[p] == MdEventV::Start(MdTagV::Emphasis) ==> {
            let r = push_span(ev, p, spans).0;
            let t = trim_spec(text_raw(ev, p + 1, MdTagEnd::Emphasis, Seq::empty()).0);
            &&& t.len() > 0 ==> r == spans + seq![SpanV::Emphasis(t)]
            &&& t.len() == 0 ==> r == spans
        },
        ev[p] == MdEventV::Start(MdTagV::Strong) ==> {
            let r = push_span(ev, p, spans).0;
            let t = trim_spec(text_raw(ev, p + 1, MdTagEnd::Strong, Seq::empty()).0);
            &&& t.len() > 0 ==> r == spans + seq![SpanV::Strong(t)]
            &&& t.len() == 0 ==> r == spans
        },
{
    assert(spans.push(SpanV::Emphasis(trim_spec(text_raw(ev, p + 1, MdTagEnd::Emphasis, Seq::empty()).0)))
        =~= spans + seq![SpanV::Emphasis(trim_spec(text_raw(ev, p + 1, MdTagEnd::Emphasis, Seq::empty()).0))]);
    assert(spans.push(SpanV::Strong(trim_spec(text_raw(ev, p + 1, MdTagEnd::Strong, Seq::empty()).0)))
        =~= spans + seq![SpanV::Strong(trim_spec(text_raw(ev, p + 1, MdTagEnd::Strong, Seq::empty()).0))]);
}

/// A paragraph holding `a`, then an emphasised `t`, then `b` (the events of
/// `a *t* b`) is one paragraph of three spans: the text `a`, `t` trimmed as
/// emphasis, and the text `b`; with `**t**` the middle span is strong.
pub proof fn law_paragraph_with_emphasis(a: Seq<char>, t: Seq<char>, b: Seq<char>)
    requires
        trim_spec(a).len() > 0,
        trim_spec(t).len() > 0,
    ensures
        blocks_of_events(
            seq![
                MdEventV::Start(MdTagV::Paragraph),
                MdEventV::Text(a),
                MdEventV::Start(MdTagV::Emphasis),
                MdEventV::Text(t),
                MdEventV::End(MdTagEnd::Emphasis),
                MdEventV::Text(b),
                MdEventV::End(MdTagEnd::Paragraph),
            ],
        ) == seq![
            BlockV::Paragraph(seq![SpanV::Text(a), SpanV::Emphasis(trim_spec(t)), SpanV::Text(b)]),
        ],
        blocks_of_events(
            seq![
                MdEventV::Start(MdTagV::Paragraph),
                MdEventV::Text(a),
                MdEventV::Start(MdTagV::Strong),
                MdEventV::Text(t),
                MdEventV::End(MdTagEnd::Strong),
                MdEventV::Text(b),
                MdEventV::End(MdTagEnd::Paragraph),
            ],
        ) == seq![BlockV::Paragraph(seq![SpanV::Text(a), SpanV::Strong(trim_spec(t)), SpanV::Text(b)])],
{
    lemma_paragraph_with_element(a, t, b, MdTagV::Emphasis, MdTagEnd::Emphasis);
    lemma_paragraph_with_element(a, t, b, MdTagV::Strong, MdTagEnd::Strong);
}

proof fn lemma_paragraph_with_element(
    a: Seq<char>,
    t: Seq<char>,
    b: Seq<char>,
    start: MdTagV,
    end: MdTagEnd,
)
    requires
        trim_spec(a).len() > 0,
        trim_spec(t).len() > 0,
        (start == MdTagV::Emphasis && end == MdTagEnd::Emphasis) || (start == MdTagV::Strong && end
            == MdTagEnd::Strong),
    ensures
        ({
            let ev = seq![
                MdEventV::Start(MdTagV::Paragraph),
                MdEventV::Text(a),
                MdEventV::Start(start),
                MdEventV::Text(t),
                MdEventV::End(end),
                MdEventV::Text(b),
                MdEventV::End(MdTagEnd::Paragraph),
            ];
            let middle = if start == MdTagV::Emphasis {
                SpanV::Emphasis(trim_spec(t))
            } else {
                SpanV::Strong(trim_spec(t))
            };
            blocks_of_events(ev) == seq![BlockV::Paragraph(seq![SpanV::Text(a), middle, SpanV::Text(b)])]
        }),
{
    let ev = seq![
        MdEventV::Start(MdTagV::Paragraph),
        MdEventV::Text(a),
        MdEventV::Start(start),
        MdEventV::Text(t),
        MdEventV::End(end),
        MdEventV::Text(b),
        MdEventV::End(MdTagEnd::Paragraph),
    ];
    let middle = if start == MdTagV::Emphasis {
        SpanV::Emphasis(trim_spec(t))
    } else {
        SpanV::Strong(trim_spec(t))
    };
    // the element's text
    assert(text_raw(ev, 4, end, t) == (t, 5int));
    assert(Seq::<char>::empty() + t =~= t);
    assert(text_raw(ev, 3, end, Seq::empty()) == (t, 5int));
    let s1 = seq![SpanV::Text(a)];
    assert(Seq::<SpanV>::empty().push(SpanV::Text(a)) =~= s1);
    assert(push_span(ev, 1, Seq::empty()) == (s1, 2int));
    let s2 = seq![SpanV::Text(a), middle];
    assert(s1.push(middle) =~= s2);
    assert(push_span(ev, 2, s1) == (s2, 5int));
    let s3 = seq![SpanV::Text(a), middle, SpanV::Text(b)];
    assert(s2.push(SpanV::Text(b)) =~= s3);
    assert(push_span(ev, 5, s2) == (s3, 6int));
    assert(inline_until(ev, 7, MdTagEnd::Paragraph, s3) == (s3, 7int));
    assert(inline_until(ev, 6, MdTagEnd::Paragraph, s3) == (s3, 7int));
    assert(inline_until(ev, 5, MdTagEnd::Paragraph, s2) == (s3, 7int));
    assert(inline_until(ev, 2, MdTagEnd::Paragraph, s1) == (s3, 7int));
    assert(inline_until(ev, 1, MdTagEnd::Paragraph, Seq::empty()) == (s3, 7int));
    // not a formula, and not empty
    assert(standalone_math_from(s3, 1, None) is None);
    assert(standalone_math(s3) is None);
    assert(!span_is_empty(s3[1]));
    assert(!content_is_empty(s3));
    assert(blocks_from(ev, 7, seq![BlockV::Paragraph(s3)]) == seq![BlockV::Paragraph(s3)]);
    assert(Seq::<BlockV>::empty().push(BlockV::Paragraph(s3)) =~= seq![BlockV::Paragraph(s3)]);
}

// ---------------------------------------------------------------------------
// What an anchor slug keeps of its title
// ---------------------------------------------------------------------------
/// The characters of a slug other than its hyphens.
pub open spec fn slug_letters(slug: Seq<char>) -> Seq<char> {
    slug.filter(|c: char| c != '-')
}

/// The letters and digits of a title (Unicode's alphanumeric characters),
/// in order.
pub open spec fn title_letters(title: Seq<char>) -> Seq<char> {
    title.filter(|c: char| char_alphanumeric(c) && c != '-')
}

/// Building a slug keeps every letter and digit, in order, and adds no other
/// character but hyphens: without its hyphens the slug is exactly the
/// letters and digits of what it was built from.
pub proof fn law_slug_keeps_letters_and_digits(s: Seq<char>)
    ensures
        slug_letters(slug_of(s)) == title_letters(s),
    decreases s.len(),
{
    reveal(Seq::filter);
    if s.len() == 0 {
        assert(slug_of(s) =~= Seq::<char>::empty());
    } else {
        let p = s.drop_last();
        let c = s.last();
        law_slug_keeps_letters_and_digits(p);
        let prev = slug_of(p);
        assert(slug_of(s) == slug_step(prev, c));
        if char_alphanumeric(c) {
            assert(prev.push(c).drop_last() =~= prev);
            assert(slug_letters(prev.push(c)) == if c != '-' {
                slug_letters(prev).push(c)
            } else {
                slug_letters(prev)
            });
        } else if (is_white_space(c) || c == '-') && prev.len() > 0 && prev.last() != '-' {
            assert(prev.push('-').drop_last() =~= prev);
            assert(slug_letters(prev.push('-')) == slug_letters(prev));
        }
    }
}

proof fn lemma_strip_dashes_keeps_letters(s: Seq<char>)
    ensures
        slug_letters(strip_trailing_dashes(s)) == slug_letters(s),
    decreases s.len(),
{
    reveal(Seq::filter);
    if s.len() > 0 && s.last() == '-' {
        lemma_strip_dashes_keeps_letters(s.drop_last());
    }
}

/// The anchor slug of a heading keeps every letter and digit of the
/// (trimmed, lowercased) title, in order, with only hyphens between them;
/// "section" stands only for a title without any.
pub proof fn law_anchor_slug_keeps_letters_and_digits(title: Seq<char>)
    ensures
        title_letters(fold(trim_spec(title))).len() > 0 ==> slug_letters(anchor_slug_spec(title))
            == title_letters(fold(trim_spec(title))),
        anchor_slug_spec(title) == section_word() || slug_letters(anchor_slug_spec(title))
            == title_letters(fold(trim_spec(title))),
{
    reveal(Seq::filter);
    let f = fold(trim_spec(title));
    law_slug_keeps_letters_and_digits(f);
    lemma_strip_dashes_keeps_letters(slug_of(f));
    let s = strip_trailing_dashes(slug_of(f));
    if s.len() == 0 {
        assert(slug_letters(s) =~= Seq::<char>::empty());
    }
}

} // verus!
