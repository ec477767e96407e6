//! The user-interface strings in English and Japanese.
use vstd::prelude::*;

verus! {

/// The languages of the user interface.
#[derive(Clone, Copy, Debug, PartialEq, Eq, Structural)]
pub enum Language {
    En,
    Ja,
}

/// The strings the user interface shows.
#[derive(Clone, Copy, Debug, PartialEq, Eq, Structural)]
pub enum TranslationKey {
    ActionCopy,
    ActionOpen,
    ActionSearchNext,
    ActionSearchPrevious,
    ActionSearchClear,
    ActionResetZoom,
    ActionSwitchLanguage,
    ActionSwitchTheme,
    LabelCurrentFile,
    LabelNoFile,
    LabelSearch,
    LabelSearchResults,
    LabelZoom,
    MessageCopied,
    MessageDropMarkdown,
    MessageEmpty,
    MessageImageLoadFailed,
    MessageImageUnsupported,
    MessageOpenPrompt,
    MessageSearchNoResults,
    NavJumpToHeading,
    NavSections,
    ReloadError,
    ReloadIdle,
    ReloadReloading,
    StatusLoadFailed,
    StatusLoaded,
    StatusNoFile,
    StatusReloadFailed,
    StatusReloadSkipped,
    StatusReloadStarted,
    StatusReloaded,
    StatusUnsupportedFile,
    StatusWatchFailed,
    StatusWorkerFailed,
    ThemeMist,
    ThemeNightOwl,
    ThemeWarmPaper,
    ActionCancel,
    ActionClearRecentFiles,
    ActionClose,
    ActionCopyPath,
    ActionCopySource,
    ActionCopyTex,
    ActionExportHtml,
    ActionHideSections,
    ActionOpenExternalLink,
    ActionShowSections,
    LabelExport,
    LabelExternalLinks,
    LabelFile,
    LabelHelp,
    LabelMath,
    LabelMermaid,
    LabelRecentFiles,
    LabelShortcut,
    LabelShortcutAction,
    LabelShortcuts,
    LabelStart,
    LabelView,
    MessageDiagramPreviewPending,
    MessageDiagramPreviewUnavailable,
    MessageExternalLinkPrompt,
    MessageNoRecentFiles,
    MessageRecentFileUnavailable,
    MessageRecentFilesPrompt,
    NavNoSections,
    ShortcutFocusSearch,
    ShortcutOpenFile,
    ShortcutReloadFile,
    ShortcutResetZoom,
    ShortcutSearchNext,
    ShortcutSearchPrevious,
    ShortcutShowHelp,
    ShortcutSwitchLanguage,
    ShortcutSwitchTheme,
    ShortcutZoomIn,
    ShortcutZoomOut,
    StatusExportFailed,
    StatusExported,
    StatusLastFileUnavailable,
    StatusPathCopied,
    StatusRecentFilesCleared,
    ValueAskFirst,
    ValueOpenDirectly,
}

/// The English and Japanese text for a key.
pub open spec fn translation(key: TranslationKey) -> (Seq<char>, Seq<char>) {
    match key {
        TranslationKey::ActionCopy => ("Copy"@, "コピー"@),
        TranslationKey::ActionOpen => ("Open Markdown"@, "Markdownを開く"@),
        TranslationKey::ActionSearchNext => ("Next"@, "次へ"@),
        TranslationKey::ActionSearchPrevious => ("Previous"@, "前へ"@),
        TranslationKey::ActionSearchClear => ("Clear"@, "クリア"@),
        TranslationKey::ActionResetZoom => ("Reset"@, "リセット"@),
        TranslationKey::ActionSwitchLanguage => ("日本語 / English"@, "日本語 / English"@),
        TranslationKey::ActionSwitchTheme => ("Theme:"@, "テーマ:"@),
        TranslationKey::LabelCurrentFile => ("Current file:"@, "現在のファイル:"@),
        TranslationKey::LabelNoFile => ("No file selected"@, "ファイル未選択"@),
        TranslationKey::LabelSearch => ("Search:"@, "検索:"@),
        TranslationKey::LabelSearchResults => ("Matches:"@, "一致:"@),
        TranslationKey::LabelZoom => ("Zoom:"@, "ズーム:"@),
        TranslationKey::MessageCopied => ("Copied"@, "コピーしました"@),
        TranslationKey::MessageDropMarkdown => ("Drop Markdown file to open"@, "Markdownファイルをドロップして開く"@),
        TranslationKey::MessageEmpty => ("No markdown file is open"@, "Markdownファイルはまだ開かれていません"@),
        TranslationKey::MessageImageLoadFailed => ("Failed to load image:"@, "画像の読み込みに失敗しました:"@),
        TranslationKey::MessageImageUnsupported => ("Only local image paths are supported:"@, "ローカル画像パスのみ対応しています:"@),
        TranslationKey::MessageOpenPrompt => ("Choose or drop a Markdown file to start reading."@, "Markdownファイルを選択またはドロップして読み込みます。"@),
        TranslationKey::MessageSearchNoResults => ("No matches found"@, "一致する内容はありません"@),
        TranslationKey::NavJumpToHeading => ("Jump to this section"@, "この見出しへ移動"@),
        TranslationKey::NavSections => ("Sections"@, "見出し"@),
        TranslationKey::ReloadError => ("Error"@, "エラー"@),
        TranslationKey::ReloadIdle => ("Ready"@, "待機中"@),
        TranslationKey::ReloadReloading => ("Reloading"@, "再読み込み中"@),
        TranslationKey::StatusLoadFailed => ("Failed to load file:"@, "ファイルの読み込みに失敗しました:"@),
        TranslationKey::StatusLoaded => ("Loaded:"@, "読み込み完了:"@),
        TranslationKey::StatusNoFile => ("No file selected."@, "ファイルが選択されていません。"@),
        TranslationKey::StatusReloadFailed => ("Failed to reload file:"@, "ファイルの再読み込みに失敗しました:"@),
        TranslationKey::StatusReloadSkipped => ("No changes detected:"@, "変更はありません:"@),
        TranslationKey::StatusReloadStarted => ("Reloading file:"@, "ファイルを再読み込み中:"@),
        TranslationKey::StatusReloaded => ("Reloaded:"@, "再読み込み完了:"@),
        TranslationKey::StatusUnsupportedFile => ("Unsupported file type:"@, "対応していないファイル形式です:"@),
        TranslationKey::StatusWatchFailed => ("Failed to watch file:"@, "ファイル監視の開始に失敗しました:"@),
        TranslationKey::StatusWorkerFailed => ("Failed to queue reload:"@, "再読み込み要求の送信に失敗しました:"@),
        TranslationKey::ThemeMist => ("Mist"@, "ミスト"@),
        TranslationKey::ThemeNightOwl => ("Night Owl"@, "ナイトアウル"@),
        TranslationKey::ThemeWarmPaper => ("Warm Paper"@, "ウォームペーパー"@),
        TranslationKey::ActionCancel => ("Cancel"@, "キャンセル"@),
        TranslationKey::ActionClearRecentFiles => ("Clear recent files"@, "最近使ったファイルを消去"@),
        TranslationKey::ActionClose => ("Close"@, "閉じる"@),
        TranslationKey::ActionCopyPath => ("Copy file path"@, "ファイルパスをコピー"@),
        TranslationKey::ActionCopySource => ("Copy source"@, "ソースをコピー"@),
        TranslationKey::ActionCopyTex => ("Copy TeX"@, "TeXをコピー"@),
        TranslationKey::ActionExportHtml => ("Export as HTML"@, "HTMLとして書き出す"@),
        TranslationKey::ActionHideSections => ("Hide sections"@, "見出しを隠す"@),
        TranslationKey::ActionOpenExternalLink => ("Open link"@, "リンクを開く"@),
        TranslationKey::ActionShowSections => ("Show sections"@, "見出しを表示"@),
        TranslationKey::LabelExport => ("Export"@, "書き出し"@),
        TranslationKey::LabelExternalLinks => ("External links:"@, "外部リンク:"@),
        TranslationKey::LabelFile => ("File"@, "ファイル"@),
        TranslationKey::LabelHelp => ("Help"@, "ヘルプ"@),
        TranslationKey::LabelMath => ("Math"@, "数式"@),
        TranslationKey::LabelMermaid => ("Mermaid"@, "Mermaid"@),
        TranslationKey::LabelRecentFiles => ("Recent files"@, "最近使ったファイル"@),
        TranslationKey::LabelShortcut => ("Shortcut"@, "ショートカット"@),
        TranslationKey::LabelShortcutAction => ("Action"@, "操作"@),
        TranslationKey::LabelShortcuts => ("Keyboard shortcuts"@, "キーボードショートカット"@),
        TranslationKey::LabelStart => ("Start"@, "はじめに"@),
        TranslationKey::LabelView => ("View"@, "表示"@),
        TranslationKey::MessageDiagramPreviewPending => ("Rendering diagram preview..."@, "図のプレビューを生成中..."@),
        TranslationKey::MessageDiagramPreviewUnavailable => ("Diagram preview is unavailable:"@, "図のプレビューを表示できません:"@),
        TranslationKey::MessageExternalLinkPrompt => ("Open external link?"@, "外部リンクを開きますか?"@),
        TranslationKey::MessageNoRecentFiles => ("No recent files"@, "最近使ったファイルはありません"@),
        TranslationKey::MessageRecentFileUnavailable => ("Recent file is no longer available:"@, "最近使ったファイルが見つかりません:"@),
        TranslationKey::MessageRecentFilesPrompt => ("Open a recent file or choose another Markdown file."@, "最近使ったファイルを開くか、別のMarkdownファイルを選択してください。"@),
        TranslationKey::NavNoSections => ("No sections"@, "見出しはありません"@),
        TranslationKey::ShortcutFocusSearch => ("Focus search"@, "検索へ移動"@),
        TranslationKey::ShortcutOpenFile => ("Open file"@, "ファイルを開く"@),
        TranslationKey::ShortcutReloadFile => ("Reload file"@, "ファイルを再読み込み"@),
        TranslationKey::ShortcutResetZoom => ("Reset zoom"@, "ズームをリセット"@),
        TranslationKey::ShortcutSearchNext => ("Next match"@, "次の一致"@),
        TranslationKey::ShortcutSearchPrevious => ("Previous match"@, "前の一致"@),
        TranslationKey::ShortcutShowHelp => ("Show keyboard shortcuts"@, "キーボードショートカットを表示"@),
        TranslationKey::ShortcutSwitchLanguage => ("Switch language"@, "言語を切り替え"@),
        TranslationKey::ShortcutSwitchTheme => ("Switch theme"@, "テーマを切り替え"@),
        TranslationKey::ShortcutZoomIn => ("Zoom in"@, "拡大"@),
        TranslationKey::ShortcutZoomOut => ("Zoom out"@, "縮小"@),
        TranslationKey::StatusExportFailed => ("Failed to export HTML:"@, "HTMLの書き出しに失敗しました:"@),
        TranslationKey::StatusExported => ("Exported:"@, "書き出し完了:"@),
        TranslationKey::StatusLastFileUnavailable => ("Last opened file is unavailable:"@, "前回開いたファイルが見つかりません:"@),
        TranslationKey::StatusPathCopied => ("Copied file path:"@, "ファイルパスをコピーしました:"@),
        TranslationKey::StatusRecentFilesCleared => ("Cleared recent files"@, "最近使ったファイルを消去しました"@),
        TranslationKey::ValueAskFirst => ("Ask first"@, "確認してから開く"@),
        TranslationKey::ValueOpenDirectly => ("Open directly"@, "直接開く"@),
    }
}

/// The text for `key` in `language`.
pub open spec fn tr_spec(language: Language, key: TranslationKey) -> Seq<char> {
    match language {
        Language::En => translation(key).0,
        Language::Ja => translation(key).1,
    }
}

/// The English and Japanese text for a key.
fn entry(key: TranslationKey) -> (r: (&'static str, &'static str))
    ensures
        r.0@ == translation(key).0,
        r.1@ == translation(key).1,
{
    match key {
        TranslationKey::ActionCopy => ("Copy", "コピー"),
        TranslationKey::ActionOpen => ("Open Markdown", "Markdownを開く"),
        TranslationKey::ActionSearchNext => ("Next", "次へ"),
        TranslationKey::ActionSearchPrevious => ("Previous", "前へ"),
        TranslationKey::ActionSearchClear => ("Clear", "クリア"),
        TranslationKey::ActionResetZoom => ("Reset", "リセット"),
        TranslationKey::ActionSwitchLanguage => ("日本語 / English", "日本語 / English"),
        TranslationKey::ActionSwitchTheme => ("Theme:", "テーマ:"),
        TranslationKey::LabelCurrentFile => ("Current file:", "現在のファイル:"),
        TranslationKey::LabelNoFile => ("No file selected", "ファイル未選択"),
        TranslationKey::LabelSearch => ("Search:", "検索:"),
        TranslationKey::LabelSearchResults => ("Matches:", "一致:"),
        TranslationKey::LabelZoom => ("Zoom:", "ズーム:"),
        TranslationKey::MessageCopied => ("Copied", "コピーしました"),
        TranslationKey::MessageDropMarkdown => ("Drop Markdown file to open", "Markdownファイルをドロップして開く"),
        TranslationKey::MessageEmpty => ("No markdown file is open", "Markdownファイルはまだ開かれていません"),
        TranslationKey::MessageImageLoadFailed => ("Failed to load image:", "画像の読み込みに失敗しました:"),
        TranslationKey::MessageImageUnsupported => ("Only local image paths are supported:", "ローカル画像パスのみ対応しています:"),
        TranslationKey::MessageOpenPrompt => ("Choose or drop a Markdown file to start reading.", "Markdownファイルを選択またはドロップして読み込みます。"),
        TranslationKey::MessageSearchNoResults => ("No matches found", "一致する内容はありません"),
        TranslationKey::NavJumpToHeading => ("Jump to this section", "この見出しへ移動"),
        TranslationKey::NavSections => ("Sections", "見出し"),
        TranslationKey::ReloadError => ("Error", "エラー"),
        TranslationKey::ReloadIdle => ("Ready", "待機中"),
        TranslationKey::ReloadReloading => ("Reloading", "再読み込み中"),
        TranslationKey::StatusLoadFailed => ("Failed to load file:", "ファイルの読み込みに失敗しました:"),
        TranslationKey::StatusLoaded => ("Loaded:", "読み込み完了:"),
        TranslationKey::StatusNoFile => ("No file selected.", "ファイルが選択されていません。"),
        TranslationKey::StatusReloadFailed => ("Failed to reload file:", "ファイルの再読み込みに失敗しました:"),
        TranslationKey::StatusReloadSkipped => ("No changes detected:", "変更はありません:"),
        TranslationKey::StatusReloadStarted => ("Reloading file:", "ファイルを再読み込み中:"),
        TranslationKey::StatusReloaded => ("Reloaded:", "再読み込み完了:"),
        TranslationKey::StatusUnsupportedFile => ("Unsupported file type:", "対応していないファイル形式です:"),
        TranslationKey::StatusWatchFailed => ("Failed to watch file:", "ファイル監視の開始に失敗しました:"),
        TranslationKey::StatusWorkerFailed => ("Failed to queue reload:", "再読み込み要求の送信に失敗しました:"),
        TranslationKey::ThemeMist => ("Mist", "ミスト"),
        TranslationKey::ThemeNightOwl => ("Night Owl", "ナイトアウル"),
        TranslationKey::ThemeWarmPaper => ("Warm Paper", "ウォームペーパー"),
        TranslationKey::ActionCancel => ("Cancel", "キャンセル"),
        TranslationKey::ActionClearRecentFiles => ("Clear recent files", "最近使ったファイルを消去"),
        TranslationKey::ActionClose => ("Close", "閉じる"),
        TranslationKey::ActionCopyPath => ("Copy file path", "ファイルパスをコピー"),
        TranslationKey::ActionCopySource => ("Copy source", "ソースをコピー"),
        TranslationKey::ActionCopyTex => ("Copy TeX", "TeXをコピー"),
        TranslationKey::ActionExportHtml => ("Export as HTML", "HTMLとして書き出す"),
        TranslationKey::ActionHideSections => ("Hide sections", "見出しを隠す"),
        TranslationKey::ActionOpenExternalLink => ("Open link", "リンクを開く"),
        TranslationKey::ActionShowSections => ("Show sections", "見出しを表示"),
        TranslationKey::LabelExport => ("Export", "書き出し"),
        TranslationKey::LabelExternalLinks => ("External links:", "外部リンク:"),
        TranslationKey::LabelFile => ("File", "ファイル"),
        TranslationKey::LabelHelp => ("Help", "ヘルプ"),
        TranslationKey::LabelMath => ("Math", "数式"),
        TranslationKey::LabelMermaid => ("Mermaid", "Mermaid"),
        TranslationKey::LabelRecentFiles => ("Recent files", "最近使ったファイル"),
        TranslationKey::LabelShortcut => ("Shortcut", "ショートカット"),
        TranslationKey::LabelShortcutAction => ("Action", "操作"),
        TranslationKey::LabelShortcuts => ("Keyboard shortcuts", "キーボードショートカット"),
        TranslationKey::LabelStart => ("Start", "はじめに"),
        TranslationKey::LabelView => ("View", "表示"),
        TranslationKey::MessageDiagramPreviewPending => ("Rendering diagram preview...", "図のプレビューを生成中..."),
        TranslationKey::MessageDiagramPreviewUnavailable => ("Diagram preview is unavailable:", "図のプレビューを表示できません:"),
        TranslationKey::MessageExternalLinkPrompt => ("Open external link?", "外部リンクを開きますか?"),
        TranslationKey::MessageNoRecentFiles => ("No recent files", "最近使ったファイルはありません"),
        TranslationKey::MessageRecentFileUnavailable => ("Recent file is no longer available:", "最近使ったファイルが見つかりません:"),
        TranslationKey::MessageRecentFilesPrompt => ("Open a recent file or choose another Markdown file.", "最近使ったファイルを開くか、別のMarkdownファイルを選択してください。"),
        TranslationKey::NavNoSections => ("No sections", "見出しはありません"),
        TranslationKey::ShortcutFocusSearch => ("Focus search", "検索へ移動"),
        TranslationKey::ShortcutOpenFile => ("Open file", "ファイルを開く"),
        TranslationKey::ShortcutReloadFile => ("Reload file", "ファイルを再読み込み"),
        TranslationKey::ShortcutResetZoom => ("Reset zoom", "ズームをリセット"),
        TranslationKey::ShortcutSearchNext => ("Next match", "次の一致"),
        TranslationKey::ShortcutSearchPrevious => ("Previous match", "前の一致"),
        TranslationKey::ShortcutShowHelp => ("Show keyboard shortcuts", "キーボードショートカットを表示"),
        TranslationKey::ShortcutSwitchLanguage => ("Switch language", "言語を切り替え"),
        TranslationKey::ShortcutSwitchTheme => ("Switch theme", "テーマを切り替え"),
        TranslationKey::ShortcutZoomIn => ("Zoom in", "拡大"),
        TranslationKey::ShortcutZoomOut => ("Zoom out", "縮小"),
        TranslationKey::StatusExportFailed => ("Failed to export HTML:", "HTMLの書き出しに失敗しました:"),
        TranslationKey::StatusExported => ("Exported:", "書き出し完了:"),
        TranslationKey::StatusLastFileUnavailable => ("Last opened file is unavailable:", "前回開いたファイルが見つかりません:"),
        TranslationKey::StatusPathCopied => ("Copied file path:", "ファイルパスをコピーしました:"),
        TranslationKey::StatusRecentFilesCleared => ("Cleared recent files", "最近使ったファイルを消去しました"),
        TranslationKey::ValueAskFirst => ("Ask first", "確認してから開く"),
        TranslationKey::ValueOpenDirectly => ("Open directly", "直接開く"),
    }
}

/// Every key has text in both languages: no label, button or message of the
/// interface is blank.
pub proof fn law_every_text_nonempty(language: Language, key: TranslationKey)
    ensures
        tr_spec(language, key).len() > 0,
{
    match key {
        TranslationKey::ActionCopy => {
            reveal_strlit("Copy");
            reveal_strlit("コピー");
        },
        TranslationKey::ActionOpen => {
            reveal_strlit("Open Markdown");
            reveal_strlit("Markdownを開く");
        },
        TranslationKey::ActionSearchNext => {
            reveal_strlit("Next");
            reveal_strlit("次へ");
        },
        TranslationKey::ActionSearchPrevious => {
            reveal_strlit("Previous");
            reveal_strlit("前へ");
        },
        TranslationKey::ActionSearchClear => {
            reveal_strlit("Clear");
            reveal_strlit("クリア");
        },
        TranslationKey::ActionResetZoom => {
            reveal_strlit("Reset");
            reveal_strlit("リセット");
        },
        TranslationKey::ActionSwitchLanguage => {
            reveal_strlit("日本語 / English");
        },
        TranslationKey::ActionSwitchTheme => {
            reveal_strlit("Theme:");
            reveal_strlit("テーマ:");
        },
        TranslationKey::LabelCurrentFile => {
            reveal_strlit("Current file:");
            reveal_strlit("現在のファイル:");
        },
        TranslationKey::LabelNoFile => {
            reveal_strlit("No file selected");
            reveal_strlit("ファイル未選択");
        },
        TranslationKey::LabelSearch => {
            reveal_strlit("Search:");
            reveal_strlit("検索:");
        },
        TranslationKey::LabelSearchResults => {
            reveal_strlit("Matches:");
            reveal_strlit("一致:");
        },
        TranslationKey::LabelZoom => {
            reveal_strlit("Zoom:");
            reveal_strlit("ズーム:");
        },
        TranslationKey::MessageCopied => {
            reveal_strlit("Copied");
            reveal_strlit("コピーしました");
        },
        TranslationKey::MessageDropMarkdown => {
            reveal_strlit("Drop Markdown file to open");
            reveal_strlit("Markdownファイルをドロップして開く");
        },
        TranslationKey::MessageEmpty => {
            reveal_strlit("No markdown file is open");
            reveal_strlit("Markdownファイルはまだ開かれていません");
        },
        TranslationKey::MessageImageLoadFailed => {
            reveal_strlit("Failed to load image:");
            reveal_strlit("画像の読み込みに失敗しました:");
        },
        TranslationKey::MessageImageUnsupported => {
            reveal_strlit("Only local image paths are supported:");
            reveal_strlit("ローカル画像パスのみ対応しています:");
        },
        TranslationKey::MessageOpenPrompt => {
            reveal_strlit("Choose or drop a Markdown file to start reading.");
            reveal_strlit("Markdownファイルを選択またはドロップして読み込みます。");
        },
        TranslationKey::MessageSearchNoResults => {
            reveal_strlit("No matches found");
            reveal_strlit("一致する内容はありません");
        },
        TranslationKey::NavJumpToHeading => {
            reveal_strlit("Jump to this section");
            reveal_strlit("この見出しへ移動");
        },
        TranslationKey::NavSections => {
            reveal_strlit("Sections");
            reveal_strlit("見出し");
        },
        TranslationKey::ReloadError => {
            reveal_strlit("Error");
            reveal_strlit("エラー");
        },
        TranslationKey::ReloadIdle => {
            reveal_strlit("Ready");
            reveal_strlit("待機中");
        },
        TranslationKey::ReloadReloading => {
            reveal_strlit("Reloading");
            reveal_strlit("再読み込み中");
        },
        TranslationKey::StatusLoadFailed => {
            reveal_strlit("Failed to load file:");
            reveal_strlit("ファイルの読み込みに失敗しました:");
        },
        TranslationKey::StatusLoaded => {
            reveal_strlit("Loaded:");
            reveal_strlit("読み込み完了:");
        },
        TranslationKey::StatusNoFile => {
            reveal_strlit("No file selected.");
            reveal_strlit("ファイルが選択されていません。");
        },
        TranslationKey::StatusReloadFailed => {
            reveal_strlit("Failed to reload file:");
            reveal_strlit("ファイルの再読み込みに失敗しました:");
        },
        TranslationKey::StatusReloadSkipped => {
            reveal_strlit("No changes detected:");
            reveal_strlit("変更はありません:");
        },
        TranslationKey::StatusReloadStarted => {
            reveal_strlit("Reloading file:");
            reveal_strlit("ファイルを再読み込み中:");
        },
        TranslationKey::StatusReloaded => {
            reveal_strlit("Reloaded:");
            reveal_strlit("再読み込み完了:");
        },
        TranslationKey::StatusUnsupportedFile => {
            reveal_strlit("Unsupported file type:");
            reveal_strlit("対応していないファイル形式です:");
        },
        TranslationKey::StatusWatchFailed => {
            reveal_strlit("Failed to watch file:");
            reveal_strlit("ファイル監視の開始に失敗しました:");
        },
        TranslationKey::StatusWorkerFailed => {
            reveal_strlit("Failed to queue reload:");
            reveal_strlit("再読み込み要求の送信に失敗しました:");
        },
        TranslationKey::ThemeMist => {
            reveal_strlit("Mist");
            reveal_strlit("ミスト");
        },
        TranslationKey::ThemeNightOwl => {
            reveal_strlit("Night Owl");
            reveal_strlit("ナイトアウル");
        },
        TranslationKey::ThemeWarmPaper => {
            reveal_strlit("Warm Paper");
            reveal_strlit("ウォームペーパー");
        },
        TranslationKey::ActionCancel => {
            reveal_strlit("Cancel");
            reveal_strlit("キャンセル");
        },
        TranslationKey::ActionClearRecentFiles => {
            reveal_strlit("Clear recent files");
            reveal_strlit("最近使ったファイルを消去");
        },
        TranslationKey::ActionClose => {
            reveal_strlit("Close");
            reveal_strlit("閉じる");
        },
        TranslationKey::ActionCopyPath => {
            reveal_strlit("Copy file path");
            reveal_strlit("ファイルパスをコピー");
        },
        TranslationKey::ActionCopySource => {
            reveal_strlit("Copy source");
            reveal_strlit("ソースをコピー");
        },
        TranslationKey::ActionCopyTex => {
            reveal_strlit("Copy TeX");
            reveal_strlit("TeXをコピー");
        },
        TranslationKey::ActionExportHtml => {
            reveal_strlit("Export as HTML");
            reveal_strlit("HTMLとして書き出す");
        },
        TranslationKey::ActionHideSections => {
            reveal_strlit("Hide sections");
            reveal_strlit("見出しを隠す");
        },
        TranslationKey::ActionOpenExternalLink => {
            reveal_strlit("Open link");
            reveal_strlit("リンクを開く");
        },
        TranslationKey::ActionShowSections => {
            reveal_strlit("Show sections");
            reveal_strlit("見出しを表示");
        },
        TranslationKey::LabelExport => {
            reveal_strlit("Export");
            reveal_strlit("書き出し");
        },
        TranslationKey::LabelExternalLinks => {
            reveal_strlit("External links:");
            reveal_strlit("外部リンク:");
        },
        TranslationKey::LabelFile => {
            reveal_strlit("File");
            reveal_strlit("ファイル");
        },
        TranslationKey::LabelHelp => {
            reveal_strlit("Help");
            reveal_strlit("ヘルプ");
        },
        TranslationKey::LabelMath => {
            reveal_strlit("Math");
            reveal_strlit("数式");
        },
        TranslationKey::LabelMermaid => {
            reveal_strlit("Mermaid");
        },
        TranslationKey::LabelRecentFiles => {
            reveal_strlit("Recent files");
            reveal_strlit("最近使ったファイル");
        },
        TranslationKey::LabelShortcut => {
            reveal_strlit("Shortcut");
            reveal_strlit("ショートカット");
        },
        TranslationKey::LabelShortcutAction => {
            reveal_strlit("Action");
            reveal_strlit("操作");
        },
        TranslationKey::LabelShortcuts => {
            reveal_strlit("Keyboard shortcuts");
            reveal_strlit("キーボードショートカット");
        },
        TranslationKey::LabelStart => {
            reveal_strlit("Start");
            reveal_strlit("はじめに");
        },
        TranslationKey::LabelView => {
            reveal_strlit("View");
            reveal_strlit("表示");
        },
        TranslationKey::MessageDiagramPreviewPending => {
            reveal_strlit("Rendering diagram preview...");
            reveal_strlit("図のプレビューを生成中...");
        },
        TranslationKey::MessageDiagramPreviewUnavailable => {
            reveal_strlit("Diagram preview is unavailable:");
            reveal_strlit("図のプレビューを表示できません:");
        },
        TranslationKey::MessageExternalLinkPrompt => {
            reveal_strlit("Open external link?");
            reveal_strlit("外部リンクを開きますか?");
        },
        TranslationKey::MessageNoRecentFiles => {
            reveal_strlit("No recent files");
            reveal_strlit("最近使ったファイルはありません");
        },
        TranslationKey::MessageRecentFileUnavailable => {
            reveal_strlit("Recent file is no longer available:");
            reveal_strlit("最近使ったファイルが見つかりません:");
        },
        TranslationKey::MessageRecentFilesPrompt => {
            reveal_strlit("Open a recent file or choose another Markdown file.");
            reveal_strlit("最近使ったファイルを開くか、別のMarkdownファイルを選択してください。");
        },
        TranslationKey::NavNoSections => {
            reveal_strlit("No sections");
            reveal_strlit("見出しはありません");
        },
        TranslationKey::ShortcutFocusSearch => {
            reveal_strlit("Focus search");
            reveal_strlit("検索へ移動");
        },
        TranslationKey::ShortcutOpenFile => {
            reveal_strlit("Open file");
            reveal_strlit("ファイルを開く");
        },
        TranslationKey::ShortcutReloadFile => {
            reveal_strlit("Reload file");
            reveal_strlit("ファイルを再読み込み");
        },
        TranslationKey::ShortcutResetZoom => {
            reveal_strlit("Reset zoom");
            reveal_strlit("ズームをリセット");
        },
        TranslationKey::ShortcutSearchNext => {
            reveal_strlit("Next match");
            reveal_strlit("次の一致");
        },
        TranslationKey::ShortcutSearchPrevious => {
            reveal_strlit("Previous match");
            reveal_strlit("前の一致");
        },
        TranslationKey::ShortcutShowHelp => {
            reveal_strlit("Show keyboard shortcuts");
            reveal_strlit("キーボードショートカットを表示");
        },
        TranslationKey::ShortcutSwitchLanguage => {
            reveal_strlit("Switch language");
            reveal_strlit("言語を切り替え");
        },
        TranslationKey::ShortcutSwitchTheme => {
            reveal_strlit("Switch theme");
            reveal_strlit("テーマを切り替え");
        },
        TranslationKey::ShortcutZoomIn => {
            reveal_strlit("Zoom in");
            reveal_strlit("拡大");
        },
        TranslationKey::ShortcutZoomOut => {
            reveal_strlit("Zoom out");
            reveal_strlit("縮小");
        },
        TranslationKey::StatusExportFailed => {
            reveal_strlit("Failed to export HTML:");
            reveal_strlit("HTMLの書き出しに失敗しました:");
        },
        TranslationKey::StatusExported => {
            reveal_strlit("Exported:");
            reveal_strlit("書き出し完了:");
        },
        TranslationKey::StatusLastFileUnavailable => {
            reveal_strlit("Last opened file is unavailable:");
            reveal_strlit("前回開いたファイルが見つかりません:");
        },
        TranslationKey::StatusPathCopied => {
            reveal_strlit("Copied file path:");
            reveal_strlit("ファイルパスをコピーしました:");
        },
        TranslationKey::StatusRecentFilesCleared => {
            reveal_strlit("Cleared recent files");
            reveal_strlit("最近使ったファイルを消去しました");
        },
        TranslationKey::ValueAskFirst => {
            reveal_strlit("Ask first");
            reveal_strlit("確認してから開く");
        },
        TranslationKey::ValueOpenDirectly => {
            reveal_strlit("Open directly");
            reveal_strlit("直接開く");
        },
    }
}

/// The text for `key` in `language`; it is never empty.
pub fn tr(language: Language, key: TranslationKey) -> (r: &'static str)
    ensures
        r@ == tr_spec(language, key),
        r@.len() > 0,
{
    proof {
        law_every_text_nonempty(language, key);
    }
    let (en, ja) = entry(key);
    match language {
        Language::En => en,
        Language::Ja => ja,
    }
}

/// The other language.
pub open spec fn other_language(language: Language) -> Language {
    match language {
        Language::En => Language::Ja,
        Language::Ja => Language::En,
    }
}

/// The language the language switch turns to: the other one.
pub fn next_language(language: Language) -> (r: Language)
    ensures
        r == other_language(language),
{
    match language {
        Language::En => Language::Ja,
        Language::Ja => Language::En,
    }
}

/// Switching the language twice gives the language one started with, and
/// switching once always changes it.
pub proof fn law_switch_language_twice(language: Language)
    ensures
        other_language(other_language(language)) == language,
        other_language(language) != language,
{
}

} // verus!
