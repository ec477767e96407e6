//! What the top bar asks the application to do.
use vstd::prelude::*;

use crate::session::ThemeId;

verus! {

/// The requests of one frame of the top bar: its menu entries and buttons.
pub struct TopBarAction {
    pub open_file: bool,
    pub open_recent_file: Option<String>,
    pub clear_recent_files: bool,
    pub export_html: bool,
    pub switch_language: bool,
    pub select_theme: Option<ThemeId>,
    pub switch_external_links: bool,
    pub toggle_heading_panel: bool,
    pub show_shortcuts_help: bool,
    pub copy_path: bool,
}

impl TopBarAction {
    /// No request.
    pub fn new() -> (r: Self)
        ensures
            !r.open_file && r.open_recent_file is None && !r.clear_recent_files && !r.export_html
                && !r.switch_language && r.select_theme is None && !r.switch_external_links
                && !r.toggle_heading_panel && !r.show_shortcuts_help && !r.copy_path,
    {
        TopBarAction {
            open_file: false,
            open_recent_file: None,
            clear_recent_files: false,
            export_html: false,
            switch_language: false,
            select_theme: None,
            switch_external_links: false,
            toggle_heading_panel: false,
            show_shortcuts_help: false,
            copy_path: false,
        }
    }
}

} // verus!
