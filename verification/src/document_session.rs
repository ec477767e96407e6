//! One open document: its file, its parsed text, the state of its search
//! and where its view should scroll.
use std::sync::Arc;

use vstd::prelude::*;

use crate::document_loader::{DocumentFingerprint, FileSnapshot};
use crate::parser::{HeadingItemV, MarkdownDocument};
use crate::diagram::DiagramSvg;
use crate::math::RawMathResult;
use crate::render_jobs::{queue_cleared, queue_empty, queue_wf, RenderJobQueue};
use crate::search::{next_index, previous_index, search_refreshed, SearchState};

verus! {

/// The block of the first navigation heading, if there is one.
pub open spec fn first_heading_block(headings: Seq<HeadingItemV>) -> Option<usize> {
    if headings.len() > 0 {
        Some(headings[0].block_index as usize)
    } else {
        None
    }
}

/// An open document and the state of its view.
pub struct DocumentSession {
    pub path: String,
    pub document: Arc<MarkdownDocument>,
    pub fingerprint: DocumentFingerprint,
    pub file_snapshot: Option<FileSnapshot>,
    pub pending_block_scroll: Option<usize>,
    pub active_heading: Option<usize>,
    pub selected_heading: Option<usize>,
    pub search: SearchState,
    /// Formulas of this document rendered to SVG, by formula and settings.
    pub math_render_cache: RenderJobQueue<RawMathResult>,
    /// Diagrams of this document rendered to SVG, by source and colours.
    pub diagram_render_cache: RenderJobQueue<Result<DiagramSvg, String>>,
}

/// The render caches of `session` are empty and well formed.
pub open spec fn render_caches_fresh(session: DocumentSession) -> bool {
    &&& queue_empty(session.math_render_cache@)
    &&& queue_wf(session.math_render_cache@)
    &&& queue_empty(session.diagram_render_cache@)
    &&& queue_wf(session.diagram_render_cache@)
}

/// The render caches of `after` are those of `before`, cleared.
pub open spec fn render_caches_cleared(before: DocumentSession, after: DocumentSession) -> bool {
    &&& queue_cleared(before.math_render_cache@, after.math_render_cache@)
    &&& queue_wf(after.math_render_cache@)
    &&& queue_cleared(before.diagram_render_cache@, after.diagram_render_cache@)
    &&& queue_wf(after.diagram_render_cache@)
}

/// The block of the first heading of `document`.
fn first_heading(document: &MarkdownDocument) -> (r: Option<usize>)
    ensures
        r == first_heading_block(document.heading_list()),
{
    let headings = document.headings();
    if headings.len() > 0 {
        assert(document.heading_list()[0] == headings@[0]@);
        Some(headings[0].block_index)
    } else {
        None
    }
}

impl DocumentSession {
    /// A session for `document`, read from `path`: no scroll pending, the
    /// first heading active, none selected, an empty search and nothing
    /// rendered yet.
    pub fn new(
        path: String,
        document: Arc<MarkdownDocument>,
        fingerprint: DocumentFingerprint,
        file_snapshot: Option<FileSnapshot>,
    ) -> (r: Self)
        ensures
            r.path == path,
            r.document == document,
            r.fingerprint == fingerprint,
            r.file_snapshot == file_snapshot,
            r.pending_block_scroll is None,
            r.active_heading == first_heading_block(document.heading_list()),
            r.selected_heading is None,
            r.search.query@.len() == 0,
            r.search.matches@.len() == 0,
            r.search.active_index is None,
            render_caches_fresh(r),
            r.math_render_cache@.generation == 0,
            r.diagram_render_cache@.generation == 0,
    {
        let active_heading = first_heading(&*document);
        let mut session = DocumentSession {
            path,
            document,
            fingerprint,
            file_snapshot,
            pending_block_scroll: None,
            active_heading,
            selected_heading: None,
            search: SearchState::new(),
            math_render_cache: RenderJobQueue::new(),
            diagram_render_cache: RenderJobQueue::new(),
        };
        session.refresh_search_matches();
        session
    }

    /// Shows a new version of the document: what was rendered of the old
    /// one is dropped, the search is recomputed, the navigation starts again
    /// at the first heading.
    pub fn replace_document(
        &mut self,
        document: Arc<MarkdownDocument>,
        fingerprint: DocumentFingerprint,
        file_snapshot: Option<FileSnapshot>,
    )
        ensures
            final(self).path == old(self).path,
            final(self).document == document,
            final(self).fingerprint == fingerprint,
            final(self).file_snapshot == file_snapshot,
            final(self).pending_block_scroll is None,
            final(self).active_heading == first_heading_block(document.heading_list()),
            final(self).selected_heading is None,
            search_refreshed(old(self).search, final(self).search, *document),
            render_caches_cleared(*old(self), *final(self)),
    {
        self.document = document;
        self.fingerprint = fingerprint;
        self.file_snapshot = file_snapshot;
        self.clear_render_caches();
        self.reset_navigation();
        self.refresh_search_matches();
    }

    /// Records that the file was checked and its text had not changed.
    pub fn update_unchanged_snapshot(
        &mut self,
        fingerprint: DocumentFingerprint,
        file_snapshot: Option<FileSnapshot>,
    )
        ensures
            *final(self) == (DocumentSession { fingerprint, file_snapshot, ..*old(self) }),
    {
        self.fingerprint = fingerprint;
        self.file_snapshot = file_snapshot;
    }

    /// Drops every rendered formula and diagram and every render still
    /// waiting; results of renders still running are ignored when they come.
    pub fn clear_render_caches(&mut self)
        ensures
            render_caches_cleared(*old(self), *final(self)),
            *final(self) == (DocumentSession {
                math_render_cache: final(self).math_render_cache,
                diagram_render_cache: final(self).diagram_render_cache,
                ..*old(self)
            }),
    {
        self.math_render_cache.clear();
        self.diagram_render_cache.clear();
    }

    /// The directory that holds the document's file, which relative links
    /// and images are resolved against: a shorter start of the path. The
    /// empty path has none; a canonical path has the text before its last
    /// `/` (the root, or the empty path, the current directory, without one),
    /// and a portable path a start whose components are its own without
    /// the last one (none when it ends in its root).
    pub fn base_dir(&self) -> (r: Option<String>)
        ensures
            r matches Some(d) ==> crate::text::is_proper_prefix(self.path@, d@),
            self.path@.len() == 0 ==> r is None,
            crate::text::canonical_path(self.path@) ==> (r matches Some(d) && d@
                == crate::text::parent_text(self.path@)),
            crate::text::portable_path(self.path@) ==> match r {
                Some(d) => crate::text::portable_path(d@) && crate::text::portable_parent(self.path@)
                    == Some(crate::text::path_components(d@)),
                None => crate::text::portable_parent(self.path@) is None,
            },
    {
        crate::status::path_parent(self.path.as_str())
    }

    /// Recomputes the search matches in the current document.
    pub fn refresh_search_matches(&mut self)
        ensures
            search_refreshed(old(self).search, final(self).search, *old(self).document),
            *final(self) == (DocumentSession { search: final(self).search, ..*old(self) }),
    {
        self.search.refresh_matches(Some(&*self.document));
    }

    /// Selects search match `index`; when there is such a match its block
    /// is scrolled to and the heading selection is dropped.
    pub fn select_search_match(&mut self, index: usize)
        ensures
            final(self).search.query == old(self).search.query,
            final(self).search.matches == old(self).search.matches,
            index < old(self).search.matches@.len() ==> {
                &&& final(self).search.active_index == Some(index)
                &&& final(self).pending_block_scroll == Some(
                    old(self).search.matches@[index as int].block_index,
                )
                &&& final(self).selected_heading is None
            },
            index >= old(self).search.matches@.len() ==> *final(self) == *old(self),
            final(self).path == old(self).path,
            final(self).document == old(self).document,
            final(self).active_heading == old(self).active_heading,
    {
        if let Some(block_index) = self.search.select_match(index) {
            self.pending_block_scroll = Some(block_index);
            self.selected_heading = None;
        }
    }

    /// Moves to the next search match and scrolls to its block.
    pub fn select_next_search_match(&mut self)
        ensures
            final(self).search.query == old(self).search.query,
            final(self).search.matches == old(self).search.matches,
            old(self).search.matches@.len() == 0 ==> *final(self) == *old(self),
            old(self).search.matches@.len() > 0 ==> {
                let k = next_index(old(self).search.active_index, old(self).search.matches@.len());
                &&& final(self).search.active_index == Some(k as usize)
                &&& final(self).pending_block_scroll == Some(
                    old(self).search.matches@[k].block_index,
                )
                &&& final(self).selected_heading is None
            },
            final(self).path == old(self).path,
            final(self).document == old(self).document,
            final(self).active_heading == old(self).active_heading,
    {
        if let Some(block_index) = self.search.select_next() {
            self.pending_block_scroll = Some(block_index);
            self.selected_heading = None;
        }
    }

    /// Moves to the previous search match and scrolls to its block.
    pub fn select_previous_search_match(&mut self)
        ensures
            final(self).search.query == old(self).search.query,
            final(self).search.matches == old(self).search.matches,
            old(self).search.matches@.len() == 0 ==> *final(self) == *old(self),
            old(self).search.matches@.len() > 0 ==> {
                let k = previous_index(
                    old(self).search.active_index,
                    old(self).search.matches@.len(),
                );
                &&& k < old(self).search.matches@.len() ==> {
                    &&& final(self).search.active_index == Some(k as usize)
                    &&& final(self).pending_block_scroll == Some(
                        old(self).search.matches@[k].block_index,
                    )
                    &&& final(self).selected_heading is None
                }
                &&& k >= old(self).search.matches@.len() ==> *final(self) == *old(self)
            },
            final(self).path == old(self).path,
            final(self).document == old(self).document,
            final(self).active_heading == old(self).active_heading,
    {
        if let Some(block_index) = self.search.select_previous() {
            self.pending_block_scroll = Some(block_index);
            self.selected_heading = None;
        }
    }

    /// Selects the heading of block `block_index` and scrolls to it.
    pub fn jump_to_heading(&mut self, block_index: usize)
        ensures
            *final(self) == (DocumentSession {
                selected_heading: Some(block_index),
                active_heading: Some(block_index),
                pending_block_scroll: Some(block_index),
                ..*old(self)
            }),
    {
        self.selected_heading = Some(block_index);
        self.active_heading = Some(block_index);
        self.pending_block_scroll = Some(block_index);
    }

    /// Drops the heading selection.
    pub fn clear_selected_heading(&mut self)
        ensures
            *final(self) == (DocumentSession { selected_heading: None, ..*old(self) }),
    {
        self.selected_heading = None;
    }

    fn reset_navigation(&mut self)
        ensures
            *final(self) == (DocumentSession {
                pending_block_scroll: None,
                active_heading: first_heading_block(old(self).document.heading_list()),
                selected_heading: None,
                ..*old(self)
            }),
    {
        self.pending_block_scroll = None;
        self.active_heading = first_heading(&*self.document);
        self.selected_heading = None;
    }
}

} // verus!
