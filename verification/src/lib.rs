//! Verified core of a local Markdown viewer: parsing into blocks, search,
//! heading anchors, document tabs, session storage values and HTML export.
use vstd::prelude::*;

pub mod text;
pub mod search;
pub mod events;
pub mod parser;
pub mod i18n;
pub mod session;
pub mod cli;
pub mod document_loader;
pub mod document_session;
pub mod document_workspace;
pub mod export;
pub mod diagram;
pub mod svg;
pub mod embedded_svg;
pub mod math;
pub mod renderer;
pub mod status;
pub mod render_jobs;
pub mod top_bar;
pub mod bottom_bar;
pub mod search_panel;
pub mod watcher;
pub mod shortcuts;
pub mod syntax;
pub mod highlight_engine;
pub mod external_links;
pub mod theme;

verus! {

} // verus!
