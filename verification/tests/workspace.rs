use std::sync::Arc;

use oxidemd::document_loader::fingerprint_content;
use oxidemd::document_session::DocumentSession;
use oxidemd::document_workspace::{DocumentId, DocumentWorkspace};
use oxidemd::math::{math_cache_key, MathRenderMode, RawMathResult};
use oxidemd::parser::parse_markdown;

fn test_session(path: &str, content: &str) -> DocumentSession {
    DocumentSession::new(
        path.to_owned(),
        Arc::new(parse_markdown(content)),
        fingerprint_content(content),
        None,
    )
}

#[test]
fn opens_documents_and_marks_latest_active() {
    let mut workspace = DocumentWorkspace::new();
    let first_path = "first.md";
    let second_path = "second.md";

    let first_id = workspace.open_document(test_session(first_path, "# First"));
    let second_id = workspace.open_document(test_session(second_path, "# Second"));

    let tabs = workspace.document_tabs();
    assert_eq!(tabs.len(), 2);
    assert_eq!(tabs[0].id, first_id);
    assert_eq!(tabs[0].path, first_path);
    assert!(!tabs[0].is_active);
    assert_eq!(tabs[1].id, second_id);
    assert_eq!(tabs[1].path, second_path);
    assert!(tabs[1].is_active);
    assert_eq!(workspace.active_document_id(), Some(second_id));
    assert_eq!(workspace.current_file(), Some(second_path));
}

#[test]
fn switches_to_existing_document() {
    let mut workspace = DocumentWorkspace::new();
    let first_path = "first.md";
    let second_path = "second.md";

    let first_id = workspace.open_document(test_session(first_path, "# First"));
    workspace.open_document(test_session(second_path, "# Second"));

    assert!(workspace.switch_to(first_id));
    assert_eq!(workspace.active_document_id(), Some(first_id));
    assert_eq!(workspace.current_file(), Some(first_path));
    assert!(!workspace.switch_to(DocumentId(999)));
    assert_eq!(workspace.active_document_id(), Some(first_id));
}

#[test]
fn closes_active_document_and_selects_neighbor() {
    let mut workspace = DocumentWorkspace::new();
    let first_path = "first.md";
    let second_path = "second.md";
    let third_path = "third.md";

    let first_id = workspace.open_document(test_session(first_path, "# First"));
    let second_id = workspace.open_document(test_session(second_path, "# Second"));
    let third_id = workspace.open_document(test_session(third_path, "# Third"));

    assert!(workspace.switch_to(second_id));
    let closed = workspace
        .close(second_id)
        .expect("active document should close");

    assert_eq!(closed.path, second_path);
    assert_eq!(workspace.active_document_id(), Some(third_id));

    let tabs = workspace.document_tabs();
    assert_eq!(tabs.len(), 2);
    assert_eq!(tabs[0].id, first_id);
    assert!(!tabs[0].is_active);
    assert_eq!(tabs[1].id, third_id);
    assert!(tabs[1].is_active);
}

#[test]
fn closing_document_before_active_preserves_active_document() {
    let mut workspace = DocumentWorkspace::new();
    let first_path = "first.md";
    let second_path = "second.md";
    let third_path = "third.md";

    let first_id = workspace.open_document(test_session(first_path, "# First"));
    let second_id = workspace.open_document(test_session(second_path, "# Second"));
    let third_id = workspace.open_document(test_session(third_path, "# Third"));

    assert_eq!(workspace.active_document_id(), Some(third_id));
    let closed = workspace.close(second_id).expect("document should close");

    assert_eq!(closed.path, second_path);
    assert_eq!(workspace.active_document_id(), Some(third_id));
    assert_eq!(workspace.current_file(), Some(third_path));

    let tabs = workspace.document_tabs();
    assert_eq!(tabs.len(), 2);
    assert_eq!(tabs[0].id, first_id);
    assert_eq!(tabs[1].id, third_id);
    assert!(tabs[1].is_active);
}

#[test]
fn closing_last_active_document_selects_previous_document() {
    let mut workspace = DocumentWorkspace::new();
    let first_path = "first.md";
    let second_path = "second.md";

    let first_id = workspace.open_document(test_session(first_path, "# First"));
    let second_id = workspace.open_document(test_session(second_path, "# Second"));

    let closed = workspace
        .close(second_id)
        .expect("active document should close");

    assert_eq!(closed.path, second_path);
    assert_eq!(workspace.active_document_id(), Some(first_id));
    assert_eq!(workspace.current_file(), Some(first_path));
}

#[test]
fn replacing_active_document_keeps_position_and_allocates_new_id() {
    let mut workspace = DocumentWorkspace::new();
    let first_path = "first.md";
    let second_path = "second.md";
    let replacement_path = "replacement.md";

    let first_id = workspace.open_document(test_session(first_path, "# First"));
    let second_id = workspace.open_document(test_session(second_path, "# Second"));

    assert!(workspace.switch_to(first_id));
    let replacement_id =
        workspace.replace_active_session(test_session(replacement_path, "# Replacement"));

    let tabs = workspace.document_tabs();
    assert_eq!(tabs.len(), 2);
    assert_eq!(tabs[0].id, replacement_id);
    assert_eq!(tabs[0].path, replacement_path);
    assert!(tabs[0].is_active);
    assert_eq!(tabs[1].id, second_id);
    assert_eq!(tabs[1].path, second_path);
    assert!(!tabs[1].is_active);
    assert_ne!(replacement_id, first_id);
}

#[test]
fn restores_taken_active_document_to_original_position() {
    let mut workspace = DocumentWorkspace::new();
    let first_path = "first.md";
    let second_path = "second.md";
    let third_path = "third.md";

    let first_id = workspace.open_document(test_session(first_path, "# First"));
    let second_id = workspace.open_document(test_session(second_path, "# Second"));
    let third_id = workspace.open_document(test_session(third_path, "# Third"));

    assert!(workspace.switch_to(second_id));
    let active = workspace
        .take_active_session()
        .expect("active document should be taken");

    assert_eq!(active.id(), second_id);
    assert_eq!(workspace.active_document_id(), Some(third_id));

    workspace.restore_active_session(active);

    let tabs = workspace.document_tabs();
    assert_eq!(tabs.len(), 3);
    assert_eq!(tabs[0].id, first_id);
    assert_eq!(tabs[1].id, second_id);
    assert!(tabs[1].is_active);
    assert_eq!(tabs[2].id, third_id);
}

#[test]
fn workspace_ids_start_at_one_and_are_never_reused() {
    let mut workspace = DocumentWorkspace::new();
    assert!(workspace.is_empty());
    assert_eq!(workspace.active_document_id(), None);
    let first_id = workspace.open_document(test_session("a.md", "a"));
    assert_eq!(first_id, DocumentId(1));
    assert!(workspace.close(first_id).is_some());
    assert!(workspace.is_empty());
    assert_eq!(workspace.active_document_id(), None);
    assert_eq!(workspace.current_file(), None);
    let second_id = workspace.open_document(test_session("b.md", "b"));
    assert_eq!(second_id, DocumentId(2));
    assert!(workspace.close(DocumentId(1)).is_none());
}

#[test]
fn take_and_restore_on_single_document_workspace() {
    let mut workspace = DocumentWorkspace::new();
    assert!(workspace.take_active_session().is_none());
    let id = workspace.open_document(test_session("only.md", "# Only"));
    let taken = workspace.take_active_session().expect("a document is active");
    assert!(workspace.is_empty());
    assert_eq!(taken.session().path, "only.md");
    workspace.restore_active_session(taken);
    assert_eq!(workspace.active_document_id(), Some(id));
    workspace.clear_active_session();
    assert!(workspace.is_empty());
}

#[test]
fn session_starts_at_first_heading_and_jumps() {
    let mut session = test_session("doc.md", "intro\n\n# One\n\n## Two\n");
    assert_eq!(session.active_heading, Some(1));
    assert_eq!(session.selected_heading, None);
    session.jump_to_heading(2);
    assert_eq!(session.active_heading, Some(2));
    assert_eq!(session.selected_heading, Some(2));
    assert_eq!(session.pending_block_scroll, Some(2));
    session.clear_selected_heading();
    assert_eq!(session.selected_heading, None);
}

#[test]
fn session_search_selection_scrolls_to_match() {
    let mut session = test_session("doc.md", "alpha\n\nbeta\n\nalpha beta\n");
    session.search.query = "beta".to_owned();
    session.refresh_search_matches();
    assert_eq!(session.search.matches.len(), 2);
    assert_eq!(session.search.active_index, Some(0));
    session.select_next_search_match();
    assert_eq!(session.pending_block_scroll, Some(2));
    session.select_previous_search_match();
    assert_eq!(session.pending_block_scroll, Some(1));
    session.select_search_match(7);
    assert_eq!(session.pending_block_scroll, Some(1));
    session.replace_document(
        Arc::new(parse_markdown("# New\n\nbeta\n")),
        fingerprint_content("# New\n\nbeta\n"),
        None,
    );
    assert_eq!(session.pending_block_scroll, None);
    assert_eq!(session.active_heading, Some(0));
    assert_eq!(session.search.matches.len(), 1);
    assert_eq!(session.search.matches[0].block_index, 1);
}

#[test]
fn finds_open_document_by_path() {
    let mut workspace = DocumentWorkspace::new();
    let first_id = workspace.open_document(test_session("/docs/first.md", "# First"));
    workspace.open_document(test_session("/docs/second.md", "# Second"));
    assert_eq!(workspace.document_id_for_path("/docs/first.md"), Some(first_id));
    assert_eq!(workspace.document_id_for_path("/docs/third.md"), None);
}

#[test]
fn changes_sessions_through_mutable_access() {
    let mut workspace = DocumentWorkspace::new();
    assert!(workspace.active_session_mut().is_none());
    let first_id = workspace.open_document(test_session("first.md", "# First"));
    workspace.open_document(test_session("second.md", "# Second"));
    workspace
        .active_session_mut()
        .expect("a document is active")
        .jump_to_heading(0);
    assert_eq!(
        workspace.active_session().expect("active").pending_block_scroll,
        Some(0)
    );
    workspace
        .active_session_mut_for_id(first_id)
        .expect("first is open")
        .pending_block_scroll = Some(7);
    assert!(workspace.switch_to(first_id));
    assert_eq!(
        workspace.active_session().expect("active").pending_block_scroll,
        Some(7)
    );
    assert!(workspace.active_session_mut_for_id(DocumentId(99)).is_none());
}

#[test]
fn open_or_replace_and_unchanged_snapshot() {
    let mut workspace = DocumentWorkspace::new();
    let first = workspace.open_or_replace_active(test_session("a.md", "# A"));
    let second = workspace.open_or_replace_active(test_session("b.md", "# B"));
    assert_ne!(first, second);
    assert_eq!(workspace.document_tabs().len(), 1);
    assert_eq!(workspace.current_file(), Some("b.md"));

    let mut session = test_session("c.md", "# C");
    let fingerprint = fingerprint_content("# C");
    session.update_unchanged_snapshot(fingerprint, None);
    assert_eq!(session.fingerprint, fingerprint);
    assert!(session.file_snapshot.is_none());
}

#[test]
fn session_base_dir_is_the_directory_of_the_file() {
    let session = test_session("docs/guide.md", "# Guide");
    assert_eq!(session.base_dir().as_deref(), Some("docs"));
    let empty = test_session("", "# Guide");
    assert_eq!(empty.base_dir(), None);
}

#[test]
fn replacing_document_drops_its_renders() {
    let mut session = test_session("notes.md", "Euler $e^{i\\pi}$");
    let key = || math_cache_key(MathRenderMode::Inline, 100, "e^{i\\pi}");
    let started = session.math_render_cache.request(key());
    assert_eq!(started.len(), 1);
    let old_generation = started[0].generation;
    session.replace_document(
        Arc::new(parse_markdown("Changed")),
        fingerprint_content("Changed"),
        None,
    );
    assert!(session.math_render_cache.state(&key()).is_none());
    assert_eq!(session.math_render_cache.active_job_count(), 0);
    assert_eq!(session.math_render_cache.generation(), old_generation + 1);
    assert_eq!(session.diagram_render_cache.generation(), 1);
    let late = RawMathResult::Error("late".to_owned());
    assert!(!session.math_render_cache.finish(old_generation, key(), late));
    assert!(session.math_render_cache.state(&key()).is_none());
}
