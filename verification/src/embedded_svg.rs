//! What an image rendered from text (a formula or a diagram) keeps besides
//! the image: its kind and the source text that can be copied back.
use vstd::prelude::*;

verus! {

/// Whether an embedded image shows a formula or a diagram.
#[derive(Clone, Copy, Debug, PartialEq, Eq, Structural)]
pub enum EmbeddedSvgContentKind {
    Math,
    Diagram,
}

/// The action that copies the source text of an embedded image.
#[derive(Clone, Copy)]
pub struct EmbeddedSourceAction<'a> {
    source_text: &'a str,
}

impl<'a> View for EmbeddedSourceAction<'a> {
    type V = Seq<char>;

    closed spec fn view(&self) -> Seq<char> {
        self.source_text@
    }
}

impl<'a> EmbeddedSourceAction<'a> {
    /// The action for `source_text`.
    pub fn new(source_text: &'a str) -> (r: Self)
        ensures
            r@ == source_text@,
    {
        EmbeddedSourceAction { source_text }
    }

    /// The text the action copies.
    pub fn source_text(&self) -> (r: &'a str)
        ensures
            r@ == self@,
    {
        self.source_text
    }
}

} // verus!
