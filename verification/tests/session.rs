use oxidemd::i18n::{tr, Language, TranslationKey};
use oxidemd::session::{
    is_markdown_path, language_from_storage_value, language_storage_value,
    recent_files_from_storage_value, recent_files_storage_value, remember_recent_file,
    restore_session, restored_current_file, session_storage_entries, StoredSession, theme_id_from_storage_value,
    theme_id_storage_value, ExternalLinkBehavior, SessionSaveData, ThemeId, MAX_RECENT_FILES,
    STORAGE_KEY_CURRENT_FILE, STORAGE_KEY_LANGUAGE, STORAGE_KEY_RECENT_FILES,
};

#[test]
fn settings_round_trip_through_storage_values() {
    for language in [Language::En, Language::Ja] {
        assert_eq!(
            language_from_storage_value(language_storage_value(language)).map(|l| l == language),
            Some(true)
        );
    }
    for theme in [ThemeId::WarmPaper, ThemeId::Mist, ThemeId::NightOwl] {
        assert_eq!(theme_id_from_storage_value(theme_id_storage_value(theme)), Some(theme));
    }
    for behavior in [ExternalLinkBehavior::AskFirst, ExternalLinkBehavior::OpenDirectly] {
        assert_eq!(
            ExternalLinkBehavior::from_storage_value(behavior.storage_value()),
            Some(behavior)
        );
        assert_eq!(behavior.next().next(), behavior);
    }
    assert_eq!(language_storage_value(Language::Ja), "ja");
    assert_eq!(theme_id_storage_value(ThemeId::NightOwl), "night_owl");
    assert_eq!(theme_id_from_storage_value("dark"), None);
    assert!(language_from_storage_value("fr").is_none());
    assert_eq!(
        ExternalLinkBehavior::AskFirst.label(Language::En),
        tr(Language::En, TranslationKey::ValueAskFirst)
    );
}

#[test]
fn markdown_paths_by_extension() {
    assert!(is_markdown_path("notes.md"));
    assert!(is_markdown_path("/docs/README.MARKDOWN"));
    assert!(!is_markdown_path("notes.txt"));
    assert!(!is_markdown_path("notes"));
}

#[test]
fn remembering_a_file_puts_it_first_without_duplicates() {
    let mut recent = vec!["a.md".to_owned(), "b.md".to_owned(), "gone.md".to_owned()];
    remember_recent_file(&mut recent, "b.md", &[true, true, false]);
    assert_eq!(recent, vec!["b.md".to_owned(), "a.md".to_owned()]);

    let mut many: Vec<String> = (0..MAX_RECENT_FILES).map(|i| format!("{i}.md")).collect();
    let flags = vec![true; many.len()];
    remember_recent_file(&mut many, "new.md", &flags);
    assert_eq!(many.len(), MAX_RECENT_FILES);
    assert_eq!(many[0], "new.md");
    assert_eq!(many[1], "0.md");
}

#[test]
fn recent_files_round_trip_through_storage() {
    let recent = vec!["/docs/a.md".to_owned(), "/docs/b.markdown".to_owned()];
    let value = recent_files_storage_value(&recent);
    assert_eq!(value, "/docs/a.md\n/docs/b.markdown");
    let restored = recent_files_from_storage_value(&value, &[true, true]);
    assert_eq!(restored, recent);
    let filtered = recent_files_from_storage_value("a.md\nb.txt\na.md\nc.md", &[true, true, true, false]);
    assert_eq!(filtered, vec!["a.md".to_owned()]);
    assert_eq!(recent_files_storage_value(&[]), "");
}

#[test]
fn restored_current_file_depends_on_availability() {
    assert_eq!(restored_current_file(None, true), (None, None));
    assert_eq!(restored_current_file(Some(String::new()), true), (None, None));
    assert_eq!(
        restored_current_file(Some("a.md".to_owned()), true),
        (Some("a.md".to_owned()), None)
    );
    assert_eq!(
        restored_current_file(Some("a.md".to_owned()), false),
        (None, Some("a.md".to_owned()))
    );
}

#[test]
fn saved_session_entries() {
    let recent = vec!["/docs/a.md".to_owned()];
    let entries = session_storage_entries(&SessionSaveData {
        language: Language::Ja,
        theme_id: ThemeId::Mist,
        external_link_behavior: ExternalLinkBehavior::OpenDirectly,
        current_file: None,
        recent_files: &recent,
    });
    assert_eq!(entries.len(), 5);
    assert_eq!(entries[0], (STORAGE_KEY_LANGUAGE, "ja".to_owned()));
    assert_eq!(entries[1].1, "mist");
    assert_eq!(entries[2].1, "open");
    assert_eq!(entries[3], (STORAGE_KEY_CURRENT_FILE, String::new()));
    assert_eq!(entries[4], (STORAGE_KEY_RECENT_FILES, "/docs/a.md".to_owned()));
}

#[test]
fn restores_what_was_saved() {
    let recent = vec!["/docs/a.md".to_owned(), "/docs/b.md".to_owned()];
    let entries = session_storage_entries(&SessionSaveData {
        language: Language::Ja,
        theme_id: ThemeId::NightOwl,
        external_link_behavior: ExternalLinkBehavior::OpenDirectly,
        current_file: Some("/docs/a.md"),
        recent_files: &recent,
    });
    let value = |key: &str| {
        entries
            .iter()
            .find(|(stored_key, _)| *stored_key == key)
            .map(|(_, value)| value.clone())
    };
    let restored = restore_session(
        StoredSession {
            language: value(STORAGE_KEY_LANGUAGE),
            theme: value("oxidemd.theme"),
            external_links: value("oxidemd.external_links"),
            current_file: value(STORAGE_KEY_CURRENT_FILE),
            recent_files: value(STORAGE_KEY_RECENT_FILES),
        },
        &[true, false],
        true,
    );
    assert!(matches!(restored.language, Some(Language::Ja)));
    assert_eq!(restored.theme_id, Some(ThemeId::NightOwl));
    assert_eq!(restored.external_link_behavior, Some(ExternalLinkBehavior::OpenDirectly));
    assert_eq!(restored.recent_files, Some(vec!["/docs/a.md".to_owned()]));
    assert_eq!(restored.current_file.as_deref(), Some("/docs/a.md"));
    assert_eq!(restored.unavailable_current_file, None);

    let nothing = restore_session(
        StoredSession {
            language: Some("fr".to_owned()),
            theme: None,
            external_links: None,
            current_file: Some("/gone.md".to_owned()),
            recent_files: None,
        },
        &[],
        false,
    );
    assert!(nothing.language.is_none());
    assert!(nothing.recent_files.is_none());
    assert_eq!(nothing.unavailable_current_file.as_deref(), Some("/gone.md"));
}

#[test]
fn recent_files_keep_stored_order_without_repeats() {
    let stored = "b.md\na.txt\nb.md\nc.markdown\ngone.md";
    let recent = recent_files_from_storage_value(stored, &[true, true, true, true, false]);
    assert_eq!(recent, vec!["b.md".to_owned(), "c.markdown".to_owned()]);
    assert!(is_markdown_path(".notes.md"));
    assert!(!is_markdown_path(".md"));
}

#[test]
fn remembering_the_same_file_twice_changes_nothing_more() {
    let mut recent = vec!["/docs/a.md".to_owned(), "/docs/b.md".to_owned()];
    remember_recent_file(&mut recent, "/docs/c.md", &[true, true]);
    assert_eq!(recent, vec!["/docs/c.md".to_owned(), "/docs/a.md".to_owned(), "/docs/b.md".to_owned()]);
    let once = recent.clone();
    remember_recent_file(&mut recent, "/docs/c.md", &[true, true, true]);
    assert_eq!(recent, once);
    assert!(is_markdown_path("a/notes.MD"));
    assert!(!is_markdown_path("a/md"));
}

#[test]
fn paths_spelled_differently_are_read_by_their_components() {
    assert!(is_markdown_path("./notes.md"));
    assert!(is_markdown_path("dir//a.md"));
    assert!(is_markdown_path("docs/a.md/"));
    assert!(!is_markdown_path("docs/a.md/.."));
    let mut recent = vec!["docs/a.md".to_owned(), "./docs/b.md".to_owned()];
    remember_recent_file(&mut recent, "docs//a.md", &[true, true]);
    assert_eq!(recent, vec!["docs//a.md".to_owned(), "./docs/b.md".to_owned()]);
    let restored = recent_files_from_storage_value("/d/a.md\n/d//a.md\n/d/./b.md\n", &[true, true, true]);
    assert_eq!(restored, vec!["/d/a.md".to_owned(), "/d/./b.md".to_owned()]);
}
