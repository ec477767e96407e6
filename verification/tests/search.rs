use oxidemd::parser::parse_markdown;
use oxidemd::search::{
    contains_normalized_query, for_each_highlighted_segment, normalized_query, preview_text,
    split_highlighted_segments, text_matches_query, HighlightWalkSummary, SearchState,
    MAX_PREVIEW_CHARS,
};

#[test]
fn normalized_matching_is_case_insensitive() {
    let query = normalized_query("rust").expect("query should not be empty");

    assert!(contains_normalized_query("Rust Markdown viewer", &query));
}

#[test]
fn highlighted_segments_match_case_insensitively() {
    let segments = split_highlighted_segments("Fast Rust viewer", Some("rust"), false);

    assert_eq!(segments.len(), 3);
    assert_eq!(segments[0].text, "Fast ");
    assert!(!segments[0].is_match);
    assert_eq!(segments[1].text, "Rust");
    assert!(segments[1].is_match);
    assert!(!segments[1].is_active_match);
    assert_eq!(segments[2].text, " viewer");
    assert!(!segments[2].is_match);
}

#[test]
fn highlighted_segments_keep_source_boundaries_for_expanded_lowercase() {
    let segments = split_highlighted_segments("İstanbul", Some("i"), false);

    assert_eq!(segments.len(), 2);
    assert_eq!(segments[0].text, "İ");
    assert!(segments[0].is_match);
    assert_eq!(segments[1].text, "stanbul");
    assert!(!segments[1].is_match);
}

#[test]
fn highlighted_segments_mark_active_matches() {
    let segments = split_highlighted_segments("Rust", Some("rust"), true);

    assert_eq!(segments.len(), 1);
    assert!(segments[0].is_match);
    assert!(segments[0].is_active_match);
}

#[test]
fn preview_text_truncates_by_characters() {
    let text = "あ".repeat(MAX_PREVIEW_CHARS + 1);
    let preview = preview_text(&text);

    assert_eq!(preview.chars().count(), MAX_PREVIEW_CHARS + 3);
    assert!(preview.ends_with("..."));
}

#[test]
fn preview_text_keeps_short_trimmed_text() {
    assert_eq!(preview_text("  short text \n"), "short text");
    assert_eq!(preview_text("   "), "");
}

#[test]
fn blank_queries_do_not_normalize() {
    assert_eq!(normalized_query("   "), None);
    assert_eq!(normalized_query(" RuSt "), Some("rust".to_owned()));
    assert!(!text_matches_query("anything", Some("  ")));
    assert!(!text_matches_query("anything", None));
    assert!(text_matches_query("Some Thing", Some("thing")));
}

#[test]
fn walk_counts_segments_and_matches() {
    let mut seen = Vec::new();
    let summary = for_each_highlighted_segment("a rust and RUST", Some("rust"), false, |segment| {
        seen.push((segment.text.to_owned(), segment.is_match));
    });

    assert_eq!(summary, HighlightWalkSummary { segment_count: 4, match_count: 2 });
    assert_eq!(
        seen,
        vec![
            ("a ".to_owned(), false),
            ("rust".to_owned(), true),
            (" and ".to_owned(), false),
            ("RUST".to_owned(), true),
        ]
    );
}

#[test]
fn highlighting_without_query_gives_the_whole_text() {
    let segments = split_highlighted_segments("", None, false);
    assert_eq!(segments.len(), 1);
    assert_eq!(segments[0].text, "");
    assert!(!segments[0].is_match);

    let segments = split_highlighted_segments("no hit here", Some("zzz"), false);
    assert_eq!(segments.len(), 1);
    assert_eq!(segments[0].text, "no hit here");
}

#[test]
fn selection_wraps_in_both_directions() {
    let document = parse_markdown("alpha one\n\nbeta\n\nalpha two\n");
    let mut state = SearchState::new();
    state.query = "alpha".to_owned();
    state.refresh_matches(Some(&document));

    assert_eq!(state.matches.len(), 2);
    assert_eq!(state.active_index, Some(0));
    assert_eq!(state.select_next(), Some(2));
    assert_eq!(state.select_next(), Some(0));
    assert_eq!(state.select_previous(), Some(2));
    assert_eq!(state.select_previous(), Some(0));
    assert_eq!(state.select_match(5), None);
    assert_eq!(state.active_index, Some(0));
    assert_eq!(state.active_block(), Some(0));
}

#[test]
fn refresh_keeps_the_selected_block() {
    let document = parse_markdown("alpha one\n\nbeta\n\nalpha two\n");
    let mut state = SearchState::new();
    state.query = "alpha".to_owned();
    state.refresh_matches(Some(&document));
    state.select_next();
    state.refresh_matches(Some(&document));
    assert_eq!(state.active_block(), Some(2));

    state.refresh_matches(None);
    assert!(!state.has_matches());
    assert_eq!(state.active_index, None);
}

#[test]
fn active_query_is_trimmed() {
    let mut state = SearchState::new();
    state.query = "  term ".to_owned();
    assert_eq!(state.active_query(), Some("term"));
    state.clear();
    assert_eq!(state.active_query(), None);
}

#[test]
fn highlighted_segments_cover_the_whole_text() {
    let text = "Rust is rusty, RUST!";
    let segments = split_highlighted_segments(text, Some("rust"), false);
    let joined: String = segments.iter().map(|segment| segment.text).collect();
    assert_eq!(joined, text);
    assert_eq!(segments.iter().filter(|segment| segment.is_match).count(), 3);
}

#[test]
fn match_starting_inside_an_expanded_character_shows_it_again() {
    let segments = split_highlighted_segments("İİİ", Some("\u{307}i"), false);
    assert_eq!(segments.len(), 2);
    assert_eq!(segments[0].text, "İİ");
    assert!(segments[0].is_match);
    assert_eq!(segments[1].text, "İİ");
    assert!(segments[1].is_match);
}
