use std::sync::Arc;

use oxidemd::document_loader::{
    fingerprint_content, prepare_document, reload_content, unchanged_by_snapshot, ContentReload,
    FileSnapshot, ParsedDocumentCache, MAX_PARSED_DOCUMENT_CACHE_ENTRIES,
};

#[test]
fn fingerprints_follow_the_text() {
    assert_eq!(fingerprint_content("# A"), fingerprint_content("# A"));
    assert_ne!(fingerprint_content("# A"), fingerprint_content("# B"));
    assert_eq!(fingerprint_content("é").byte_len(), 2);
    assert_eq!(fingerprint_content("").byte_len(), 0);
}

#[test]
fn cache_reuses_parsed_document_for_same_text() {
    let mut cache = ParsedDocumentCache::new();
    let first = prepare_document(&mut cache, "# A\n\ntext");
    assert!(!first.reused);
    assert_eq!(first.document.blocks.len(), 2);
    let second = prepare_document(&mut cache, "# A\n\ntext");
    assert!(second.reused);
    assert!(Arc::ptr_eq(&first.document, &second.document));
    assert_eq!(first.fingerprint, second.fingerprint);
    assert_eq!(cache.len(), 1);
}

#[test]
fn cache_keeps_only_most_recently_used_documents() {
    let mut cache = ParsedDocumentCache::new();
    let texts = ["one", "two", "three", "four", "five"];
    for text in texts {
        prepare_document(&mut cache, text);
    }
    assert_eq!(cache.len(), MAX_PARSED_DOCUMENT_CACHE_ENTRIES);
    assert!(!prepare_document(&mut cache, "one").reused);
    assert!(prepare_document(&mut cache, "five").reused);
}

#[test]
fn lookup_protects_an_entry_from_eviction() {
    let mut cache = ParsedDocumentCache::new();
    for text in ["a", "b", "c", "d"] {
        prepare_document(&mut cache, text);
    }
    assert!(cache.cached_parsed_document(fingerprint_content("a")).is_some());
    prepare_document(&mut cache, "e");
    assert!(cache.cached_parsed_document(fingerprint_content("a")).is_some());
    assert!(cache.cached_parsed_document(fingerprint_content("b")).is_none());
}

#[test]
fn reload_of_same_text_is_unchanged() {
    let mut cache = ParsedDocumentCache::new();
    let first = prepare_document(&mut cache, "# Same");
    match reload_content(&mut cache, "# Same", Some(first.fingerprint)) {
        ContentReload::Unchanged(fingerprint) => assert_eq!(fingerprint, first.fingerprint),
        ContentReload::Reloaded(_) => panic!("text did not change"),
    }
    match reload_content(&mut cache, "# Other", Some(first.fingerprint)) {
        ContentReload::Reloaded(prepared) => {
            assert!(!prepared.reused);
            assert_eq!(prepared.document.headings().len(), 1);
        }
        ContentReload::Unchanged(_) => panic!("text changed"),
    }
    match reload_content(&mut cache, "# Same", None) {
        ContentReload::Reloaded(prepared) => assert!(prepared.reused),
        ContentReload::Unchanged(_) => panic!("no previous fingerprint"),
    }
}

#[test]
fn reload_skips_reading_when_snapshot_is_unchanged() {
    let fingerprint = fingerprint_content("x");
    let snapshot = FileSnapshot::new(10, 1_700_000_000_000_000_000);
    let touched = FileSnapshot::new(10, 1_700_000_000_000_000_001);
    assert_eq!(snapshot.byte_len(), 10);
    assert_eq!(
        unchanged_by_snapshot(Some(snapshot), Some(snapshot), Some(fingerprint)),
        Some(fingerprint)
    );
    assert_eq!(unchanged_by_snapshot(Some(touched), Some(snapshot), Some(fingerprint)), None);
    assert_eq!(unchanged_by_snapshot(None, Some(snapshot), Some(fingerprint)), None);
    assert_eq!(unchanged_by_snapshot(Some(snapshot), Some(snapshot), None), None);
}
