//! The colours of the viewer's interface.
use vstd::prelude::*;

use crate::svg::Rgba;

verus! {

/// The colours of the interface: backgrounds, borders, text, links, quotes,
/// code and the three states of the status badge.
#[derive(Clone, Copy)]
pub struct Theme {
    pub app_background: Rgba,
    pub top_bar_background: Rgba,
    pub content_background: Rgba,
    pub content_border: Rgba,
    /// The shadow colour, with its alpha not yet applied to the components.
    pub content_shadow: Rgba,
    pub text_primary: Rgba,
    pub text_secondary: Rgba,
    pub link: Rgba,
    pub quote_background: Rgba,
    pub quote_border: Rgba,
    pub code_background: Rgba,
    pub status_idle_background: Rgba,
    pub status_idle_text: Rgba,
    pub status_loading_background: Rgba,
    pub status_loading_text: Rgba,
    pub status_error_background: Rgba,
    pub status_error_text: Rgba,
}

/// An opaque colour.
pub open spec fn opaque(r: u8, g: u8, b: u8) -> Rgba {
    Rgba { r, g, b, a: 255 }
}

/// The light, warm default theme.
pub open spec fn default_theme_spec() -> Theme {
    Theme {
        app_background: opaque(241, 238, 232),
        top_bar_background: opaque(236, 232, 224),
        content_background: opaque(255, 255, 255),
        content_border: opaque(215, 208, 198),
        content_shadow: Rgba { r: 60, g: 50, b: 35, a: 16 },
        text_primary: opaque(34, 34, 34),
        text_secondary: opaque(98, 94, 87),
        link: opaque(0, 92, 197),
        quote_background: opaque(247, 245, 240),
        quote_border: opaque(214, 208, 198),
        code_background: opaque(244, 244, 244),
        status_idle_background: opaque(231, 239, 229),
        status_idle_text: opaque(58, 95, 60),
        status_loading_background: opaque(243, 236, 214),
        status_loading_text: opaque(122, 92, 25),
        status_error_background: opaque(245, 224, 224),
        status_error_text: opaque(150, 47, 47),
    }
}

/// The default theme.
pub fn default_theme() -> (t: Theme)
    ensures
        t == default_theme_spec(),
{
    Theme {
        app_background: Rgba::from_rgb(241, 238, 232),
        top_bar_background: Rgba::from_rgb(236, 232, 224),
        content_background: Rgba::from_rgb(255, 255, 255),
        content_border: Rgba::from_rgb(215, 208, 198),
        content_shadow: Rgba { r: 60, g: 50, b: 35, a: 16 },
        text_primary: Rgba::from_rgb(34, 34, 34),
        text_secondary: Rgba::from_rgb(98, 94, 87),
        link: Rgba::from_rgb(0, 92, 197),
        quote_background: Rgba::from_rgb(247, 245, 240),
        quote_border: Rgba::from_rgb(214, 208, 198),
        code_background: Rgba::from_rgb(244, 244, 244),
        status_idle_background: Rgba::from_rgb(231, 239, 229),
        status_idle_text: Rgba::from_rgb(58, 95, 60),
        status_loading_background: Rgba::from_rgb(243, 236, 214),
        status_loading_text: Rgba::from_rgb(122, 92, 25),
        status_error_background: Rgba::from_rgb(245, 224, 224),
        status_error_text: Rgba::from_rgb(150, 47, 47),
    }
}

} // verus!
