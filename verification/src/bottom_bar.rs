//! What the bottom bar asks the application to do.
use vstd::prelude::*;

verus! {

/// The zoom requests of one frame of the bottom bar.
#[derive(Clone, Copy, Debug, PartialEq, Eq, Structural)]
pub struct BottomBarAction {
    pub zoom_in: bool,
    pub zoom_out: bool,
    pub reset_zoom: bool,
}

impl BottomBarAction {
    /// No request.
    pub fn new() -> (r: Self)
        ensures
            r == (BottomBarAction { zoom_in: false, zoom_out: false, reset_zoom: false }),
    {
        BottomBarAction { zoom_in: false, zoom_out: false, reset_zoom: false }
    }
}

} // verus!
