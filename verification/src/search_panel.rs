//! What the search panel asks the application to do.
use vstd::prelude::*;

verus! {

/// The requests of one frame of the search panel.
#[derive(Clone, Copy, Debug, PartialEq, Eq, Structural)]
pub struct SearchPanelAction {
    pub query_changed: bool,
    pub select_next: bool,
    pub select_previous: bool,
}

impl SearchPanelAction {
    /// No request.
    pub fn new() -> (r: Self)
        ensures
            r == (SearchPanelAction { query_changed: false, select_next: false, select_previous: false }),
    {
        SearchPanelAction { query_changed: false, select_next: false, select_previous: false }
    }
}

} // verus!
