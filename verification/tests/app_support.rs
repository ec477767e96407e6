use oxidemd::bottom_bar::BottomBarAction;
use oxidemd::diagram::{
    has_dangling_arrow_operator, is_arrow_operator_char, is_mermaid_header,
    strip_mermaid_comment, validate_diagram_source,
};
use oxidemd::embedded_svg::{EmbeddedSourceAction, EmbeddedSvgContentKind};
use oxidemd::external_links::{handle_external_link_click, resolve_external_link_prompt};
use oxidemd::i18n::{tr, Language, TranslationKey};
use oxidemd::math::{is_fraction_inline_math, math_render_expression, math_svg_uri, MathRenderMode};
use oxidemd::renderer::{
    estimate_inline_line_count, internal_anchor, is_remote_or_data_uri, is_tall_inline_math,
    local_image_target, resolve_local_image_path, table_column_count,
};
use oxidemd::parser::{InlineContent, InlineSpan};
use oxidemd::search_panel::SearchPanelAction;
use oxidemd::session::ExternalLinkBehavior;
use oxidemd::shortcuts::shortcuts_help_items;
use oxidemd::status::{
    current_file_label, export_file_name, export_name_for, home_label_for, label_for_path,
    user_visible_file_path, StatusState,
};
use oxidemd::svg::{apply_current_color, color_hash, color_to_hex, svg_uri_hash, Rgba};
use oxidemd::syntax::{highlight_theme, highlight_theme_name, HighlightTheme};
use oxidemd::top_bar::TopBarAction;
use oxidemd::watcher::{matches_watched_file, should_reload, WatchEvent, WatchEventKind};

#[test]
fn user_visible_file_path_removes_windows_verbatim_disk_prefix() {
    let path = user_visible_file_path(r"\\?\C:\Users\example\doc.md");

    assert_eq!(path, r"C:\Users\example\doc.md");
}

#[test]
fn user_visible_file_path_removes_windows_verbatim_unc_prefix() {
    let path = user_visible_file_path(r"\\?\UNC\server\share\doc.md");

    assert_eq!(path, r"\\server\share\doc.md");
}

#[test]
fn user_visible_file_path_keeps_ordinary_paths() {
    assert_eq!(user_visible_file_path("/home/user/doc.md"), "/home/user/doc.md");
}

#[test]
fn source_action_can_wrap_fallback_source_text() {
    let action = EmbeddedSourceAction::new("fallback");

    assert_eq!(action.source_text(), "fallback");
}

#[test]
fn embedded_kinds_are_distinct() {
    assert_ne!(EmbeddedSvgContentKind::Math, EmbeddedSvgContentKind::Diagram);
}

#[test]
fn appends_style_when_missing() {
    let svg = "<svg viewBox=\"0 0 1 1\"><g /></svg>";
    let colored = apply_current_color(svg, Rgba::from_rgb(1, 2, 3));

    assert!(colored.contains("style=\"color:#010203\""));
}

#[test]
fn merges_with_existing_style() {
    let svg = "<svg style=\"vertical-align: -0.452ex;\" viewBox=\"0 0 1 1\"><g /></svg>";
    let colored = apply_current_color(svg, Rgba::from_rgb(1, 2, 3));

    assert!(colored.contains("style=\"vertical-align: -0.452ex;color:#010203\""));
    assert_eq!(colored.matches("style=\"").count(), 1);
}

#[test]
fn current_color_edge_cases() {
    let red = Rgba::from_rgb(255, 0, 16);
    assert_eq!(apply_current_color("no image here", red), "no image here");
    assert_eq!(apply_current_color("<svg", red), "<svg");
    assert_eq!(
        apply_current_color("<svg><g/></svg>", red),
        "<svg style=\"color:#ff0010\"><g/></svg>"
    );
    assert_eq!(
        apply_current_color("<svg style=\"  \"></svg>", red),
        "<svg style=\"color:#ff0010\"></svg>"
    );
    assert_eq!(
        apply_current_color("<svg style=\"fill: red\"></svg>", red),
        "<svg style=\"fill: red; color:#ff0010\"></svg>"
    );
}

#[test]
fn color_names_and_hashes() {
    let color = Rgba { r: 0x22, g: 0x22, b: 0x22, a: 0xff };
    assert_eq!(color_hash(color), "222222ff");
    assert_eq!(color_to_hex(Rgba::from_rgb(224, 232, 242)), "#e0e8f2");
    assert_eq!(svg_uri_hash(""), "cbf29ce484222325");
    assert_eq!(svg_uri_hash("a"), "af63dc4c8601ec8c");
}

#[test]
fn math_uri_names_formula_by_hash() {
    let color = Rgba { r: 0x22, g: 0x22, b: 0x22, a: 0xff };
    let uri = math_svg_uri(color, 100, MathRenderMode::Inline, true, 160, "\\frac{1}{x+y}");
    assert!(uri.starts_with("bytes://math-222222ff-100-inline-display-160-"));
    assert!(uri.ends_with(".svg"));
    assert!(!uri.contains("\\frac"));
    assert_eq!(uri.len(), "bytes://math-222222ff-100-inline-display-160-".len() + 16 + 4);
}

#[test]
fn fractions_use_display_style_inline_only() {
    assert!(is_fraction_inline_math("\\frac{1}{2}"));
    assert!(is_fraction_inline_math("a + \\genfrac{}{}{}{}{1}{2}"));
    assert!(!is_fraction_inline_math("x^2"));
    assert!(is_tall_inline_math("\\dfrac{a}{b}"));
    let (expression, display) = math_render_expression("\\tfrac{a}{b}", MathRenderMode::Inline);
    assert!(display);
    assert_eq!(expression, "\\displaystyle \\tfrac{a}{b}");
    let (expression, display) = math_render_expression("\\tfrac{a}{b}", MathRenderMode::Block);
    assert!(!display);
    assert_eq!(expression, "\\tfrac{a}{b}");
}

#[test]
fn rejects_dangling_flowchart_arrow() {
    let error = validate_diagram_source("flowchart TD\n    Broken -->").unwrap_err();
    assert!(error.contains("incomplete arrow"));
    assert!(validate_diagram_source("graph TD\n  A --> B").is_ok());
    assert!(validate_diagram_source("flowchart LR\n  A --> B %% trailing -->\n").is_ok());
    assert!(validate_diagram_source("").is_ok());
    assert!(validate_diagram_source("sequenceDiagram\n  A->>B: hi\n  B-->>A: ok").is_ok());
    assert!(validate_diagram_source("graph LR\n  A ==>").is_err());
}

#[test]
fn diagram_line_helpers() {
    assert_eq!(strip_mermaid_comment("A --> B %% note"), "A --> B ");
    assert_eq!(strip_mermaid_comment("no comment"), "no comment");
    assert!(is_mermaid_header("Flowchart TD"));
    assert!(is_mermaid_header("stateDiagram-v2"));
    assert!(!is_mermaid_header("flowchart"));
    assert!(has_dangling_arrow_operator("A -->  "));
    assert!(!has_dangling_arrow_operator("A --> B"));
    assert!(!has_dangling_arrow_operator("A >"));
    assert!(!has_dangling_arrow_operator("A ox"));
    assert!(is_arrow_operator_char('x'));
    assert!(!is_arrow_operator_char('y'));
}

fn cell() -> InlineContent {
    InlineContent { spans: vec![InlineSpan::Text("a".to_owned())] }
}

#[test]
fn renderer_helpers() {
    let headers = vec![cell(), cell()];
    let rows = vec![vec![cell()], vec![cell(), cell(), cell()]];
    assert_eq!(table_column_count(&headers, &rows), 3);
    assert_eq!(table_column_count(&[], &[]), 0);

    let long = "x".repeat(200);
    let content = InlineContent {
        spans: vec![
            InlineSpan::Text(long),
            InlineSpan::LineBreak,
            InlineSpan::Code("short".to_owned()),
        ],
    };
    assert_eq!(estimate_inline_line_count(&content), 4);
    assert_eq!(estimate_inline_line_count(&InlineContent { spans: vec![] }), 1);

    assert!(is_remote_or_data_uri("  HTTPS://example.com/a.png"));
    assert!(is_remote_or_data_uri("data:image/png;base64,AAAA"));
    assert!(!is_remote_or_data_uri("./images/a.png"));
    assert_eq!(internal_anchor("  #intro "), Some("intro"));
    assert_eq!(internal_anchor("#   "), None);
    assert_eq!(internal_anchor("https://example.com/#intro"), None);
}

#[test]
fn status_and_labels() {
    let mut status = StatusState::new(Language::En);
    assert_eq!(status.message, tr(Language::En, TranslationKey::StatusNoFile));
    assert_eq!(status.hover_message, None);
    status.set_with_hover("Loaded".to_owned(), "/docs/a.md".to_owned());
    assert_eq!(status.hover_message.as_deref(), Some("/docs/a.md"));
    status.set_message("Reloaded".to_owned());
    assert_eq!(status.message, "Reloaded");
    assert_eq!(status.hover_message, None);

    assert_eq!(label_for_path(Some("a.md".to_owned()), "/docs/a.md"), "a.md");
    assert_eq!(label_for_path(None, "/"), "/");
    assert_eq!(home_label_for("a.md".to_owned(), Some("/docs".to_owned())), "a.md  /docs");
    assert_eq!(home_label_for("a.md".to_owned(), None), "a.md");
    assert_eq!(export_name_for(Some("notes".to_owned())), "notes.html");
    assert_eq!(export_name_for(Some(String::new())), "export.html");
    assert_eq!(export_name_for(None), "export.html");
    assert_eq!(export_file_name("/docs/notes.md"), "notes.html");
    assert_eq!(
        current_file_label(Language::En, None),
        tr(Language::En, TranslationKey::LabelNoFile)
    );
    assert_eq!(current_file_label(Language::En, Some("/docs/notes.md")), "notes.md");
}

#[test]
fn watched_file_matching() {
    assert!(matches_watched_file("/docs/a.md", "/docs/a.md"));
    assert!(matches_watched_file("/docs/./a.md", "/docs/a.md"));
    assert!(!matches_watched_file("/docs/b.md", "/docs/a.md"));
}

#[test]
fn external_link_clicks() {
    let mut pending = None;
    let open = handle_external_link_click(
        ExternalLinkBehavior::AskFirst,
        &mut pending,
        "https://example.com".to_owned(),
    );
    assert_eq!(open, None);
    assert_eq!(pending.as_deref(), Some("https://example.com"));
    assert_eq!(resolve_external_link_prompt(&mut pending, false, false), None);
    assert!(pending.is_some());
    assert_eq!(
        resolve_external_link_prompt(&mut pending, true, false).as_deref(),
        Some("https://example.com")
    );
    assert!(pending.is_none());

    let open = handle_external_link_click(
        ExternalLinkBehavior::OpenDirectly,
        &mut pending,
        "https://example.org".to_owned(),
    );
    assert_eq!(open.as_deref(), Some("https://example.org"));
    assert!(pending.is_none());

    let mut waiting = Some("https://example.net".to_owned());
    assert_eq!(resolve_external_link_prompt(&mut waiting, false, true), None);
    assert!(waiting.is_none());
}

#[test]
fn shortcut_help_lists_every_shortcut() {
    let items = shortcuts_help_items(Language::En);
    assert_eq!(items.len(), 11);
    assert_eq!(items[0].1, "Ctrl+O");
    assert_eq!(items[7].1, "Ctrl++ / Ctrl+=");
    assert_eq!(items[10].1, "F1");
    assert_eq!(items[0].0, tr(Language::En, TranslationKey::ShortcutOpenFile));
}

#[test]
fn ui_actions_start_empty_and_themes_are_named() {
    let top = TopBarAction::new();
    assert!(!top.open_file && top.open_recent_file.is_none() && top.select_theme.is_none());
    assert_eq!(
        BottomBarAction::new(),
        BottomBarAction { zoom_in: false, zoom_out: false, reset_zoom: false }
    );
    assert!(!SearchPanelAction::new().query_changed);
    assert_eq!(highlight_theme(true), HighlightTheme::Dark);
    assert_eq!(highlight_theme_name(highlight_theme(false)), "InspiredGitHub");
    assert_eq!(highlight_theme_name(HighlightTheme::Dark), "base16-ocean.dark");
}

#[test]
fn reload_events_for_the_watched_file() {
    let event = WatchEvent {
        kind: WatchEventKind::Modify,
        paths: vec!["/docs/other.md".to_owned(), "/docs/a.md".to_owned()],
    };
    assert!(should_reload(&event, "/docs/a.md"));
    assert!(!should_reload(&event, "/docs/b.md"));
    let access = WatchEvent { kind: WatchEventKind::Access, paths: vec!["/docs/a.md".to_owned()] };
    assert!(!should_reload(&access, "/docs/a.md"));
}

#[test]
fn local_image_targets() {
    assert_eq!(local_image_target(" ./img/a.png?v=2#top "), Some("./img/a.png".to_owned()));
    assert_eq!(local_image_target("https://example.com/a.png"), None);
    assert_eq!(local_image_target("   "), None);
    assert_eq!(resolve_local_image_path(None, "img/a.png"), None);
    assert_eq!(
        resolve_local_image_path(Some("/docs"), "img/a.png"),
        Some("/docs/img/a.png".to_owned())
    );
    assert_eq!(resolve_local_image_path(None, "/abs/a.png#x"), Some("/abs/a.png".to_owned()));
}

#[test]
fn status_messages_with_path_and_error() {
    let mut status = StatusState::new(Language::En);
    status.set_with_path(Language::En, TranslationKey::StatusLoadFailed, "/docs/a.md");
    let prefix = tr(Language::En, TranslationKey::StatusLoadFailed);
    assert_eq!(status.message, format!("{} a.md", prefix));
    assert_eq!(status.hover_message, Some(format!("{} /docs/a.md", prefix)));
    status.set_error(Language::En, TranslationKey::StatusLoadFailed, "denied");
    assert_eq!(status.message, format!("{} denied", prefix));
    assert!(status.hover_message.is_none());
}

#[test]
fn language_switch_and_file_labels() {
    use_labels();
}

fn use_labels() {
    assert_eq!(oxidemd::i18n::next_language(Language::En), Language::Ja);
    assert_eq!(oxidemd::i18n::next_language(Language::Ja), Language::En);
    assert_eq!(oxidemd::status::recent_file_label("/docs/a.md"), "a.md");
    assert_eq!(oxidemd::status::status_path_label("/docs/a.md"), "a.md");
    assert_eq!(oxidemd::status::home_recent_file_label("/docs/a.md"), "a.md  /docs");
}

#[test]
fn default_theme_uses_warm_light_colors() {
    let theme = oxidemd::theme::default_theme();
    assert_eq!(theme.app_background, Rgba::from_rgb(241, 238, 232));
    assert_eq!(theme.text_primary, Rgba::from_rgb(34, 34, 34));
    assert_eq!(theme.link, Rgba::from_rgb(0, 92, 197));
    assert_eq!(theme.content_shadow, Rgba { r: 60, g: 50, b: 35, a: 16 });
    assert_eq!(theme.status_error_text, Rgba::from_rgb(150, 47, 47));
}

#[test]
fn plain_file_names_label_and_match_themselves() {
    assert_eq!(oxidemd::status::status_path_label("notes.md"), "notes.md");
    assert_eq!(oxidemd::status::recent_file_label(""), "");
    assert_eq!(oxidemd::status::home_recent_file_label("notes.md"), "notes.md  ");
    assert_eq!(oxidemd::status::export_file_name("notes.v2.md"), "notes.v2.html");
    assert_eq!(oxidemd::status::export_file_name(".profile"), ".profile.html");
    assert!(matches_watched_file("notes.md", "notes.md"));
    assert!(!matches_watched_file("notes.md", "other.md"));
    assert_eq!(
        oxidemd::renderer::resolve_local_image_path(Some("docs"), "pic.png").as_deref(),
        Some("docs/pic.png")
    );
    assert_eq!(oxidemd::renderer::resolve_local_image_path(None, "pic.png"), None);
}

#[test]
fn canonical_paths_are_labelled_by_their_last_component() {
    assert_eq!(oxidemd::status::status_path_label("/home/user/notes.md"), "notes.md");
    assert_eq!(oxidemd::status::home_recent_file_label("docs/guide.md"), "guide.md  docs");
    assert_eq!(oxidemd::status::export_file_name("/home/user/notes.md"), "notes.html");
}

#[test]
fn every_interface_text_is_given_in_both_languages() {
    for language in [Language::En, Language::Ja] {
        for key in [
            TranslationKey::ActionCancel,
            TranslationKey::ActionExportHtml,
            TranslationKey::LabelExport,
            TranslationKey::ShortcutOpenFile,
            TranslationKey::StatusExported,
            TranslationKey::ValueAskFirst,
            TranslationKey::ValueOpenDirectly,
        ] {
            assert!(!tr(language, key).is_empty());
        }
    }
    assert_eq!(tr(Language::En, TranslationKey::ValueAskFirst), "Ask first");
    assert_eq!(tr(Language::Ja, TranslationKey::ActionCancel), "キャンセル");
    assert_eq!(ExternalLinkBehavior::OpenDirectly.label(Language::En), "Open directly");
    assert!(shortcuts_help_items(Language::Ja).iter().all(|(action, _)| !action.is_empty()));
}

#[test]
fn nested_image_targets_resolve_under_the_document_folder() {
    let resolved = resolve_local_image_path(Some("/docs"), "images/a.png").unwrap();
    assert!(resolved == "/docs/images/a.png" || resolved == "/docs\\images/a.png");
    assert_eq!(
        resolve_local_image_path(Some("docs/"), "img/b.png").as_deref(),
        Some("docs/img/b.png")
    );
}

#[test]
fn events_on_neighbouring_files_do_not_reload() {
    let event = WatchEvent {
        kind: WatchEventKind::Modify,
        paths: vec!["/docs/other.md".to_owned(), "/docs/notes.txt".to_owned()],
    };
    assert!(!should_reload(&event, "/docs/a.md"));
    assert!(!matches_watched_file("/docs/sub/a.md", "/docs/a.md"));
    assert!(matches_watched_file("/docs/sub/a.md", "/docs/sub/a.md"));
}

#[test]
fn portable_paths_are_labelled_by_their_last_name() {
    assert_eq!(oxidemd::status::status_path_label("./docs//notes.md"), "notes.md");
    assert_eq!(oxidemd::status::recent_file_label("docs/notes.md/"), "notes.md");
    assert_eq!(oxidemd::status::status_path_label("docs/.."), "docs/..");
    assert_eq!(oxidemd::status::export_file_name("./docs/guide.v1.md"), "guide.v1.html");
    assert_eq!(current_file_label(Language::En, Some("a/b/..")), tr(Language::En, TranslationKey::LabelNoFile));
}

#[test]
fn portable_paths_of_the_watched_file_are_recognised() {
    assert!(matches_watched_file("/docs/./a.md", "/docs/a.md"));
    assert!(matches_watched_file("/docs//a.md", "/docs/a.md"));
    assert!(!matches_watched_file("/docs/b/../a.md", "/docs/a.md"));
    let event = WatchEvent {
        kind: WatchEventKind::Create,
        paths: vec!["/docs/other.md".to_owned(), "/docs//a.md".to_owned()],
    };
    assert!(should_reload(&event, "/docs/a.md"));
}
