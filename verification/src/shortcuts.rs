//! The keyboard shortcuts: what one frame of key presses asked for, and the
//! list the help window shows.
use vstd::prelude::*;

use crate::i18n::{tr, tr_spec, Language, TranslationKey};

verus! {

/// The shortcuts pressed in one frame.
#[derive(Clone, Copy, Debug, PartialEq, Eq, Structural)]
pub struct ShortcutActions {
    pub open_file: bool,
    pub focus_search: bool,
    pub show_shortcuts_help: bool,
    pub reload_file: bool,
    pub next_search: bool,
    pub previous_search: bool,
    pub switch_language: bool,
    pub switch_theme: bool,
    pub zoom_in: bool,
    pub zoom_out: bool,
    pub reset_zoom: bool,
}

/// The action described by line `i` of the shortcut help.
pub open spec fn help_action_key(i: int) -> TranslationKey {
    if i == 0 {
        TranslationKey::ShortcutOpenFile
    } else if i == 1 {
        TranslationKey::ShortcutFocusSearch
    } else if i == 2 {
        TranslationKey::ShortcutSearchNext
    } else if i == 3 {
        TranslationKey::ShortcutSearchPrevious
    } else if i == 4 {
        TranslationKey::ShortcutReloadFile
    } else if i == 5 {
        TranslationKey::ShortcutSwitchTheme
    } else if i == 6 {
        TranslationKey::ShortcutSwitchLanguage
    } else if i == 7 {
        TranslationKey::ShortcutZoomIn
    } else if i == 8 {
        TranslationKey::ShortcutZoomOut
    } else if i == 9 {
        TranslationKey::ShortcutResetZoom
    } else {
        TranslationKey::ShortcutShowHelp
    }
}

/// The keys of line `i` of the shortcut help.
pub open spec fn help_keys(i: int) -> Seq<char> {
    if i == 0 {
        "Ctrl+O"@
    } else if i == 1 {
        "Ctrl+F"@
    } else if i == 2 {
        "F3 / Enter"@
    } else if i == 3 {
        "Shift+F3"@
    } else if i == 4 {
        "Ctrl+R / F5"@
    } else if i == 5 {
        "Ctrl+T"@
    } else if i == 6 {
        "Ctrl+L"@
    } else if i == 7 {
        "Ctrl++ / Ctrl+="@
    } else if i == 8 {
        "Ctrl+-"@
    } else if i == 9 {
        "Ctrl+0"@
    } else {
        "F1"@
    }
}

/// The lines of the shortcut help: each action in `language` and its keys.
pub fn shortcuts_help_items(language: Language) -> (r: [(&'static str, &'static str); 11])
    ensures
        forall|i: int|
            0 <= i < 11 ==> (#[trigger] r@[i]).0@ == tr_spec(language, help_action_key(i))
                && r@[i].1@ == help_keys(i),
{
    [
        (tr(language, TranslationKey::ShortcutOpenFile), "Ctrl+O"),
        (tr(language, TranslationKey::ShortcutFocusSearch), "Ctrl+F"),
        (tr(language, TranslationKey::ShortcutSearchNext), "F3 / Enter"),
        (tr(language, TranslationKey::ShortcutSearchPrevious), "Shift+F3"),
        (tr(language, TranslationKey::ShortcutReloadFile), "Ctrl+R / F5"),
        (tr(language, TranslationKey::ShortcutSwitchTheme), "Ctrl+T"),
        (tr(language, TranslationKey::ShortcutSwitchLanguage), "Ctrl+L"),
        (tr(language, TranslationKey::ShortcutZoomIn), "Ctrl++ / Ctrl+="),
        (tr(language, TranslationKey::ShortcutZoomOut), "Ctrl+-"),
        (tr(language, TranslationKey::ShortcutResetZoom), "Ctrl+0"),
        (tr(language, TranslationKey::ShortcutShowHelp), "F1"),
    ]
}

} // verus!
