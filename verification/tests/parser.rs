use oxidemd::events::HeadingLevel;
use oxidemd::parser::{anchor_slug, parse_markdown, Block, InlineSpan};

#[test]
fn parses_inline_math_spans() {
    let document = parse_markdown("Euler wrote $e^{i\\pi} + 1 = 0$ in one line.");

    let Block::Paragraph(content) = &document.blocks[0] else {
        panic!("expected paragraph");
    };

    assert!(matches!(content.spans[0], InlineSpan::Text(_)));
    assert!(matches!(
        &content.spans[1],
        InlineSpan::Math(expression) if expression == "e^{i\\pi} + 1 = 0"
    ));
}

#[test]
fn parses_display_math_blocks() {
    let document = parse_markdown("$$\na^2 + b^2 = c^2\n$$");

    assert!(matches!(
        &document.blocks[0],
        Block::MathBlock { expression } if expression == "a^2 + b^2 = c^2"
    ));
}

#[test]
fn leaves_unclosed_inline_math_as_text() {
    let document = parse_markdown("This costs $5 today.");

    let Block::Paragraph(content) = &document.blocks[0] else {
        panic!("expected paragraph");
    };

    assert!(content
        .spans
        .iter()
        .all(|span| !matches!(span, InlineSpan::Math(_))));
}

#[test]
fn headings_get_unique_anchors() {
    let document = parse_markdown("# Intro\n\n## Intro\n\n### Intro\n\n# Hello, World!\n");
    let headings = document.headings();

    assert_eq!(headings.len(), 4);
    assert_eq!(headings[0].anchor, "intro");
    assert_eq!(headings[1].anchor, "intro-1");
    assert_eq!(headings[2].anchor, "intro-2");
    assert_eq!(headings[3].anchor, "hello-world");
    assert_eq!(headings[1].level, HeadingLevel::H2);
    assert_eq!(headings[3].block_index, 3);
    assert_eq!(document.heading_block_for_anchor("#Intro-1"), Some(1));
    assert_eq!(document.heading_block_for_anchor("  ##HELLO-WORLD "), Some(3));
    assert_eq!(document.heading_block_for_anchor("missing"), None);
}

#[test]
fn slug_falls_back_to_section() {
    assert_eq!(anchor_slug("  ***  "), "section");
    assert_eq!(anchor_slug(" A  -- b "), "a-b");
    assert_eq!(anchor_slug("Trailing -"), "trailing");
}

#[test]
fn parses_lists_quotes_code_and_tables() {
    let document = parse_markdown(
        "- one\n- two\n\n3. three\n\n> quoted\n\n```rust\nfn main() {}\n```\n\n| A | B |\n| - | - |\n| 1 | 2 |\n",
    );

    assert_eq!(document.blocks.len(), 5);
    assert!(matches!(&document.blocks[0], Block::UnorderedList(items) if items.len() == 2));
    assert!(matches!(&document.blocks[1], Block::OrderedList { start: 3, items } if items.len() == 1));
    assert!(matches!(&document.blocks[2], Block::BlockQuote(lines) if lines.len() == 1));
    assert!(matches!(
        &document.blocks[3],
        Block::CodeBlock { language: Some(language), code } if language == "rust" && code == "fn main() {}"
    ));
    assert!(matches!(
        &document.blocks[4],
        Block::Table { headers, rows, .. } if headers.len() == 2 && rows.len() == 1
    ));
    assert_eq!(document.blocks[0].plain_text(), "one two");
    assert_eq!(document.blocks[4].plain_text(), "A B 1 2");
}

#[test]
fn plain_text_collapses_white_space() {
    let document = parse_markdown("Some **bold**  text\nwith a [link](https://x.y) and `code`.");
    assert_eq!(document.blocks[0].plain_text(), "Some bold text with a link and code.");
}

#[test]
fn search_matches_give_previews() {
    let document = parse_markdown("# Rust\n\nNothing here\n\nRust again");
    let matches = document.search_matches(" rust ");
    assert_eq!(matches.len(), 2);
    assert_eq!(matches[0].block_index, 0);
    assert_eq!(matches[1].block_index, 2);
    assert_eq!(matches[1].preview, "Rust again");
    assert!(document.search_matches("   ").is_empty());
}

#[test]
fn headings_name_their_heading_blocks_in_order() {
    let document = parse_markdown("Intro text\n\n# First\n\nBody\n\n## Second\n\n#\n\n### Third\n");
    let headings = document.headings();
    assert_eq!(headings.len(), 3);
    let mut previous: Option<usize> = None;
    for heading in headings {
        match &document.blocks[heading.block_index] {
            Block::Heading { level, content } => {
                assert_eq!(*level, heading.level);
                assert_eq!(content.plain_text(), heading.title);
            }
            _ => panic!("a navigation heading must name a heading block"),
        }
        if let Some(before) = previous {
            assert!(before < heading.block_index);
        }
        previous = Some(heading.block_index);
    }
}

#[test]
fn search_finds_each_matching_block_once_in_order() {
    let document = parse_markdown("Rust one\n\nNothing here\n\n# RUST heading\n\n- rust item\n");
    let matches = document.search_matches("  rust ");
    let blocks: Vec<usize> = matches.iter().map(|found| found.block_index).collect();
    assert_eq!(blocks, vec![0, 2, 3]);
    assert!(document.search_matches("   ").is_empty());
}

#[test]
fn mermaid_fences_become_diagram_blocks() {
    let document = parse_markdown("```mermaid\ngraph TD\n  A --> B\n```");
    assert_eq!(document.blocks.len(), 1);
    assert!(matches!(
        &document.blocks[0],
        Block::DiagramBlock { language, source } if language == "mermaid" && source == "graph TD\n  A --> B"
    ));
    let short = parse_markdown("```mmd\nsequenceDiagram\n```\n\n```rust\nfn main() {}\n```\n");
    assert!(matches!(&short.blocks[0], Block::DiagramBlock { language, .. } if language == "mmd"));
    assert!(matches!(&short.blocks[1], Block::CodeBlock { language: Some(language), .. } if language == "rust"));
    assert_eq!(short.blocks[0].plain_text(), "sequenceDiagram");
}
