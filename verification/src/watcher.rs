//! Which file-system events concern the watched document.
use vstd::prelude::*;

use crate::session::same_path;
use crate::status::{path_file_name, path_parent};
use crate::text::{
    canonical_path, lemma_canonical_split, path_components, portable_file_name, portable_parent,
    portable_path, simple_path, str_eq,
};

verus! {

/// What the file watcher reports: the file changed, or watching failed.
pub enum FileWatchEvent {
    Changed,
    Error(String),
}

fn same_optional_path(a: Option<String>, b: Option<String>) -> (r: bool)
    ensures
        (a is None && b is None) ==> r,
        (a is None) != (b is None) ==> !r,
        a matches Some(x) ==> (b matches Some(y) ==> (simple_path(x@) && simple_path(y@) ==> (r
            <==> x@ == y@))),
        a matches Some(x) ==> (b matches Some(y) ==> (portable_path(x@) && portable_path(y@) ==> (r
            <==> path_components(x@) == path_components(y@)))),
{
    match (a, b) {
        (Some(x), Some(y)) => same_path(x.as_str(), y.as_str()),
        (None, None) => true,
        _ => false,
    }
}

/// Two portable paths concern the same file: they have the same
/// components, or the same file name (or none) in folders with the same
/// components (or both without a folder).
pub open spec fn same_watched_file(path: Seq<char>, watched: Seq<char>) -> bool {
    ||| path_components(path) == path_components(watched)
    ||| (portable_parent(path) == portable_parent(watched) && portable_file_name(path)
        == portable_file_name(watched))
}

/// Whether an event on `path` concerns `watched_file`: the same path, or
/// the same file name in the same folder. Two canonical paths (plain names
/// joined by single `/`s) concern each other just when their texts are
/// equal; two portable paths as `same_watched_file` says.
pub fn matches_watched_file(path: &str, watched_file: &str) -> (r: bool)
    ensures
        path@ == watched_file@ ==> r,
        canonical_path(path@) && canonical_path(watched_file@) ==> (r <==> path@
            == watched_file@),
        portable_path(path@) && portable_path(watched_file@) ==> (r <==> same_watched_file(
            path@,
            watched_file@,
        )),
{
    proof {
        if canonical_path(path@) && canonical_path(watched_file@) {
            lemma_canonical_split(path@);
            lemma_canonical_split(watched_file@);
        }
    }
    if same_path(path, watched_file) {
        return true;
    }
    if !same_optional_path(path_parent(path), path_parent(watched_file)) {
        return false;
    }
    match (path_file_name(path), path_file_name(watched_file)) {
        (Some(a), Some(b)) => str_eq(a.as_str(), b.as_str()),
        (None, None) => true,
        _ => false,
    }
}

/// The kind of a file-system event, as the watcher reports it.
#[derive(Clone, Copy, Debug, PartialEq, Eq, Structural)]
pub enum WatchEventKind {
    Any,
    Access,
    Create,
    Modify,
    Remove,
    Other,
}

/// A file-system event: its kind and the paths it concerns.
pub struct WatchEvent {
    pub kind: WatchEventKind,
    pub paths: Vec<String>,
}

/// Kinds of events that can change what a file holds.
pub open spec fn changes_content(kind: WatchEventKind) -> bool {
    kind == WatchEventKind::Modify || kind == WatchEventKind::Create || kind
        == WatchEventKind::Remove
}

/// Whether an event calls for reloading `watched_file`: it modifies,
/// creates or removes a file, and one of its paths is the watched file.
/// Where all the paths are canonical, that is one of them written as the
/// watched file is, and where they are portable, one of them that
/// `same_watched_file` relates to it: events on neighbouring files cause no
/// reload.
pub fn should_reload(event: &WatchEvent, watched_file: &str) -> (r: bool)
    ensures
        portable_path(watched_file@) && (forall|i: int|
            0 <= i < event.paths@.len() ==> portable_path(#[trigger] event.paths@[i]@)) ==> (r
            <==> changes_content(event.kind) && exists|i: int|
            0 <= i < event.paths@.len() && same_watched_file(
                #[trigger] event.paths@[i]@,
                watched_file@,
            )),
        r ==> changes_content(event.kind),
        changes_content(event.kind) && (exists|i: int|
            0 <= i < event.paths@.len() && (#[trigger] event.paths@[i])@ == watched_file@) ==> r,
        canonical_path(watched_file@) && (forall|i: int|
            0 <= i < event.paths@.len() ==> canonical_path(#[trigger] event.paths@[i]@)) ==> (r
            <==> changes_content(event.kind) && exists|i: int|
            0 <= i < event.paths@.len() && (#[trigger] event.paths@[i])@ == watched_file@),
{
    match event.kind {
        WatchEventKind::Modify | WatchEventKind::Create | WatchEventKind::Remove => {},
        _ => return false,
    }
    let mut i: usize = 0;
    while i < event.paths.len()
        invariant
            changes_content(event.kind),
            i <= event.paths@.len(),
            forall|k: int| 0 <= k < i ==> (#[trigger] event.paths@[k])@ != watched_file@,
            portable_path(watched_file@) && (forall|k: int|
                0 <= k < event.paths@.len() ==> portable_path(#[trigger] event.paths@[k]@))
                ==> forall|k: int|
                0 <= k < i ==> !same_watched_file(#[trigger] event.paths@[k]@, watched_file@),
        decreases event.paths.len() - i,
    {
        proof {
            if forall|k: int|
                0 <= k < event.paths@.len() ==> portable_path(#[trigger] event.paths@[k]@) {
                assert(portable_path(event.paths@[i as int]@));
            }
        }
        if matches_watched_file(event.paths[i].as_str(), watched_file) {
            proof {
                if canonical_path(event.paths@[i as int]@) && canonical_path(watched_file@) {
                    assert(event.paths@[i as int]@ == watched_file@);
                }
                if portable_path(event.paths@[i as int]@) && portable_path(watched_file@) {
                    assert(same_watched_file(event.paths@[i as int]@, watched_file@));
                }
            }
            return true;
        }
        i = i + 1;
    }
    false
}

} // verus!
