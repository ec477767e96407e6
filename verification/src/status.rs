//! The status line and the labels that name files in it, in the tab bar and
//! in the list of recent files.
use vstd::prelude::*;

use crate::i18n::{tr, tr_spec, Language, TranslationKey};
use crate::text::{
    canonical_path, extend_chars, is_component_text, is_proper_prefix, last_component, name_stem,
    parent_text, path_components, portable_file_name, portable_parent, portable_path, starts_with,
    str_strip_prefix, string_from_chars, to_owned_string,
};

verus! {

broadcast use vstd::string::group_string_axioms;

/// The status message and the longer text shown when hovering over it.
pub struct StatusState {
    pub message: String,
    pub hover_message: Option<String>,
}

impl StatusState {
    /// The status before any file is open.
    pub fn new(language: Language) -> (r: Self)
        ensures
            r.message@ == tr_spec(language, TranslationKey::StatusNoFile),
            r.hover_message is None,
    {
        StatusState {
            message: to_owned_string(tr(language, TranslationKey::StatusNoFile)),
            hover_message: None,
        }
    }

    /// Shows `message`, with nothing more on hover.
    pub fn set_message(&mut self, message: String)
        ensures
            final(self).message == message,
            final(self).hover_message is None,
    {
        self.message = message;
        self.hover_message = None;
    }

    /// Shows what `key` says in `language`, then the file's label; the whole
    /// path on hover.
    pub fn set_with_path(&mut self, language: Language, key: TranslationKey, path: &str)
        ensures
            exists|label: Seq<char>|
                final(self).message@ == tr_spec(language, key) + seq![' '] + label,
            final(self).hover_message matches Some(h) && h@ == tr_spec(language, key) + seq![' ']
                + path@,
    {
        let label = status_path_label(path);
        let ghost label_view = label@;
        let mut message: Vec<char> = Vec::new();
        crate::text::extend_chars(&mut message, tr(language, key));
        message.push(' ');
        crate::text::extend_chars(&mut message, label.as_str());
        let mut hover: Vec<char> = Vec::new();
        crate::text::extend_chars(&mut hover, tr(language, key));
        hover.push(' ');
        crate::text::extend_chars(&mut hover, path);
        self.message = string_from_chars(message.as_slice());
        self.hover_message = Some(string_from_chars(hover.as_slice()));
        assert(message@ =~= tr_spec(language, key) + seq![' '] + label_view);
        assert(hover@ =~= tr_spec(language, key) + seq![' '] + path@);
    }

    /// Shows what `key` says in `language`, then the error.
    pub fn set_error(&mut self, language: Language, key: TranslationKey, error: &str)
        ensures
            final(self).message@ == tr_spec(language, key) + seq![' '] + error@,
            final(self).hover_message is None,
    {
        let mut message: Vec<char> = Vec::new();
        crate::text::extend_chars(&mut message, tr(language, key));
        message.push(' ');
        crate::text::extend_chars(&mut message, error);
        self.message = string_from_chars(message.as_slice());
        self.hover_message = None;
        assert(message@ =~= tr_spec(language, key) + seq![' '] + error@);
    }

    /// Shows `message`, and `hover_message` on hover.
    pub fn set_with_hover(&mut self, message: String, hover_message: String)
        ensures
            final(self).message == message,
            final(self).hover_message == Some(hover_message),
    {
        self.message = message;
        self.hover_message = Some(hover_message);
    }
}

// ---------------------------------------------------------------------------
// Paths as the user sees them
// ---------------------------------------------------------------------------
/// `\\?\UNC\`.
pub open spec fn verbatim_unc_prefix() -> Seq<char> {
    seq!['\\', '\\', '?', '\\', 'U', 'N', 'C', '\\']
}

/// `\\?\`.
pub open spec fn verbatim_prefix() -> Seq<char> {
    seq!['\\', '\\', '?', '\\']
}

/// A Windows path without its verbatim prefix: `\\?\UNC\server\...`
/// becomes `\\server\...`, `\\?\C:\...` becomes `C:\...`; other paths stay.
pub open spec fn user_visible_spec(path: Seq<char>) -> Seq<char> {
    if starts_with(path, verbatim_unc_prefix()) {
        seq!['\\', '\\'] + path.subrange(8, path.len() as int)
    } else if starts_with(path, verbatim_prefix()) {
        path.subrange(4, path.len() as int)
    } else {
        path
    }
}

/// The path as the user would write it, without a verbatim prefix.
pub fn user_visible_file_path(path: &str) -> (r: String)
    ensures
        r@ == user_visible_spec(path@),
{
    proof {
        reveal_strlit("\\\\?\\UNC\\");
        reveal_strlit("\\\\?\\");
        assert("\\\\?\\UNC\\"@ =~= verbatim_unc_prefix());
        assert("\\\\?\\"@ =~= verbatim_prefix());
    }
    if let Some(rest) = str_strip_prefix(path, "\\\\?\\UNC\\") {
        let mut out: Vec<char> = Vec::new();
        out.push('\\');
        out.push('\\');
        extend_chars(&mut out, rest);
        assert(out@ =~= seq!['\\', '\\'] + rest@);
        return string_from_chars(out.as_slice());
    }
    if let Some(rest) = str_strip_prefix(path, "\\\\?\\") {
        return to_owned_string(rest);
    }
    to_owned_string(path)
}

// ---------------------------------------------------------------------------
// File labels
// ---------------------------------------------------------------------------
/// `Path::file_name` of `path`, when it is valid text. Trusted, as std
/// documents it: the name is the path's final component, so it is text of
/// one component of the path, with no `/` unless the path has a verbatim
/// prefix (where `/` is no separator); the empty path has none, and a
/// portable path's name is its last name (none when that is `..`), and a canonical
/// path's name is its last component. Which component is final for other
/// paths follows the platform's separators and is not claimed here.
#[verifier::external_body]
pub(crate) fn path_file_name(path: &str) -> (r: Option<String>)
    ensures
        r matches Some(n) ==> is_component_text(path@, n@),
        path@.len() == 0 ==> r is None,
        canonical_path(path@) ==> r is Some,
        r matches Some(n) ==> (canonical_path(path@) ==> n@ == last_component(path@)),
        portable_path(path@) ==> match r {
            Some(n) => portable_file_name(path@) == Some(n@),
            None => portable_file_name(path@) is None,
        },
{
    std::path::Path::new(path).file_name().and_then(|name| name.to_str()).map(|name| name.to_owned())
}

/// `Path::parent` of `path`, when it is valid text. Trusted, as std
/// documents it: the path without its final component, so a shorter start
/// of it; none for the empty path, and for a canonical path the text
/// before its last `/` (the root `/`, or the empty path when it has no
/// `/`). For a portable path it is a start of it whose components are the
/// path's without the last one (none when it ends in its root or is
/// empty). Where other paths are cut follows the platform's separators and
/// is not claimed here.
#[verifier::external_body]
pub(crate) fn path_parent(path: &str) -> (r: Option<String>)
    ensures
        r matches Some(p) ==> is_proper_prefix(path@, p@),
        path@.len() == 0 ==> r is None,
        canonical_path(path@) ==> r is Some,
        r matches Some(p) ==> (canonical_path(path@) ==> p@ == parent_text(path@)),
        portable_path(path@) ==> match r {
            Some(p) => portable_path(p@) && portable_parent(path@) == Some(path_components(p@)),
            None => portable_parent(path@) is None,
        },
{
    std::path::Path::new(path).parent().and_then(|parent| parent.to_str()).map(|parent| parent.to_owned())
}

/// `Path::file_stem` of `path`, when it is valid text. Trusted, as std
/// documents it: the stem is taken from the file name, so it is text of one
/// component of the path, with no `/` unless the path has a verbatim
/// prefix; the empty path has none, a portable path's stem is that of its
/// file name, and for a canonical path
/// it is its last component before the last dot (the whole component when
/// it has no dot or only a leading one). Other paths follow the platform's
/// separators and are not claimed here.
#[verifier::external_body]
fn path_file_stem(path: &str) -> (r: Option<String>)
    ensures
        r matches Some(s) ==> is_component_text(path@, s@),
        path@.len() == 0 ==> r is None,
        canonical_path(path@) ==> r is Some,
        r matches Some(s) ==> (canonical_path(path@) ==> s@ == name_stem(last_component(path@))),
        portable_path(path@) ==> match r {
            Some(s) => portable_file_name(path@) matches Some(n) && s@ == name_stem(n),
            None => portable_file_name(path@) is None,
        },
{
    std::path::Path::new(path).file_stem().and_then(|stem| stem.to_str()).map(|stem| stem.to_owned())
}

/// A file's label: its file name, else the whole path.
pub open spec fn file_label_spec(file_name: Option<Seq<char>>, path: Seq<char>) -> Seq<char> {
    match file_name {
        Some(name) => name,
        None => path,
    }
}

/// The optional text as a character sequence.
pub open spec fn opt_chars(s: Option<String>) -> Option<Seq<char>> {
    match s {
        Some(v) => Some(v@),
        None => None,
    }
}

/// The label of a file given the file name the platform found in its path.
pub fn label_for_path(file_name: Option<String>, path: &str) -> (r: String)
    ensures
        r@ == file_label_spec(opt_chars(file_name), path@),
{
    match file_name {
        Some(name) => name,
        None => to_owned_string(path),
    }
}

/// A label shows a file: the whole path, or the text of one of its
/// components (its file name).
pub open spec fn shows_file(path: Seq<char>, label: Seq<char>) -> bool {
    label == path || is_component_text(path, label)
}

/// The label of the file shown in the status line: its file name, or the
/// path when it has none. A canonical path is labelled by its last
/// component; the empty path has the empty label.
pub fn status_path_label(path: &str) -> (r: String)
    ensures
        shows_file(path@, r@),
        portable_path(path@) ==> r@ == file_label_spec(portable_file_name(path@), path@),
        canonical_path(path@) ==> r@ == last_component(path@),
        path@.len() == 0 ==> r@.len() == 0,
{
    label_for_path(path_file_name(path), path)
}

/// The label of a file in the list of recent files: its file name, or the
/// path when it has none. A canonical path is labelled by its last
/// component; the empty path has the empty label.
pub fn recent_file_label(path: &str) -> (r: String)
    ensures
        shows_file(path@, r@),
        portable_path(path@) ==> r@ == file_label_spec(portable_file_name(path@), path@),
        canonical_path(path@) ==> r@ == last_component(path@),
        path@.len() == 0 ==> r@.len() == 0,
{
    label_for_path(path_file_name(path), path)
}

/// The label of the open file in the top bar, or "no file" in `language`.
pub open spec fn current_label_spec(language: Language, file_name: Option<Seq<char>>) -> Seq<char> {
    match file_name {
        Some(name) => name,
        None => tr_spec(language, TranslationKey::LabelNoFile),
    }
}

/// The label of the open file given the file name the platform found in
/// its path.
pub fn current_label_for(language: Language, file_name: Option<String>) -> (r: String)
    ensures
        r@ == current_label_spec(language, opt_chars(file_name)),
{
    match file_name {
        Some(name) => name,
        None => to_owned_string(tr(language, TranslationKey::LabelNoFile)),
    }
}

/// The label of the open file in the top bar: its file name, "no file"
/// when there is no open file or its path has no file name. A canonical
/// path is labelled by its last component.
pub fn current_file_label(language: Language, path: Option<&str>) -> (r: String)
    ensures
        path is None ==> r@ == tr_spec(language, TranslationKey::LabelNoFile),
        path matches Some(p) ==> (r@ == tr_spec(language, TranslationKey::LabelNoFile)
            || is_component_text(p@, r@)),
        path matches Some(p) ==> (canonical_path(p@) ==> r@ == last_component(p@)),
        path matches Some(p) ==> (portable_path(p@) ==> r@ == current_label_spec(
            language,
            portable_file_name(p@),
        )),
        path matches Some(p) ==> (p@.len() == 0 ==> r@ == tr_spec(
            language,
            TranslationKey::LabelNoFile,
        )),
{
    match path {
        Some(p) => current_label_for(language, path_file_name(p)),
        None => current_label_for(language, None),
    }
}

/// A recent file on the home screen: its label, then two spaces and its
/// folder when the folder is known.
pub open spec fn home_label_spec(label: Seq<char>, parent: Option<Seq<char>>) -> Seq<char> {
    match parent {
        Some(p) => label + seq![' ', ' '] + p,
        None => label,
    }
}

/// The home-screen label given the file's label and its folder.
pub fn home_label_for(label: String, parent: Option<String>) -> (r: String)
    ensures
        r@ == home_label_spec(label@, opt_chars(parent)),
{
    match parent {
        Some(p) => {
            let mut out: Vec<char> = Vec::new();
            extend_chars(&mut out, label.as_str());
            out.push(' ');
            out.push(' ');
            extend_chars(&mut out, p.as_str());
            assert(out@ =~= label@ + seq![' ', ' '] + p@);
            string_from_chars(out.as_slice())
        },
        None => label,
    }
}

/// The label of a recent file on the home screen: the file's label, then
/// two spaces and its folder when it has one. A canonical path gives its
/// last component, two spaces and the text before its last `/`; a portable
/// path its file name and a folder with its components but the last; the
/// empty path has the empty label.
pub fn home_recent_file_label(path: &str) -> (r: String)
    ensures
        exists|label: Seq<char>, parent: Option<Seq<char>>|
            {
                &&& shows_file(path@, label)
                &&& (parent matches Some(p) ==> is_proper_prefix(path@, p))
                &&& r@ == home_label_spec(label, parent)
            },
        canonical_path(path@) ==> r@ == last_component(path@) + seq![' ', ' '] + parent_text(path@),
        path@.len() == 0 ==> r@.len() == 0,
        portable_path(path@) ==> exists|parent: Option<Seq<char>>|
            {
                &&& r@ == home_label_spec(file_label_spec(portable_file_name(path@), path@), parent)
                &&& match parent {
                    Some(d) => portable_parent(path@) == Some(path_components(d)),
                    None => portable_parent(path@) is None,
                }
            },
{
    let name = path_file_name(path);
    let parent = path_parent(path);
    let label = label_for_path(name, path);
    assert(shows_file(path@, label@));
    let r = home_label_for(label, parent);
    assert(opt_chars(parent) matches Some(p) ==> is_proper_prefix(path@, p));
    assert(r@ == home_label_spec(label@, opt_chars(parent)));
    proof {
        if portable_path(path@) {
            assert(label@ == file_label_spec(portable_file_name(path@), path@));
            assert(match opt_chars(parent) {
                Some(d) => portable_parent(path@) == Some(path_components(d)),
                None => portable_parent(path@) is None,
            });
        }
    }
    r
}

/// The suggested name of an HTML export: the document's file stem, or
/// `export` when it has none, with `.html` added.
pub open spec fn export_name_spec(stem: Option<Seq<char>>) -> Seq<char> {
    match stem {
        Some(s) => if s.len() > 0 {
            s + seq!['.', 'h', 't', 'm', 'l']
        } else {
            seq!['e', 'x', 'p', 'o', 'r', 't', '.', 'h', 't', 'm', 'l']
        },
        None => seq!['e', 'x', 'p', 'o', 'r', 't', '.', 'h', 't', 'm', 'l'],
    }
}

/// The export name given the document's file stem.
pub fn export_name_for(stem: Option<String>) -> (r: String)
    ensures
        r@ == export_name_spec(opt_chars(stem)),
{
    proof {
        reveal_strlit("export.html");
        reveal_strlit(".html");
        assert("export.html"@ =~= seq!['e', 'x', 'p', 'o', 'r', 't', '.', 'h', 't', 'm', 'l']);
        assert(".html"@ =~= seq!['.', 'h', 't', 'm', 'l']);
    }
    match stem {
        Some(s) => if s.as_str().is_empty() {
            to_owned_string("export.html")
        } else {
            let mut out: Vec<char> = Vec::new();
            extend_chars(&mut out, s.as_str());
            extend_chars(&mut out, ".html");
            string_from_chars(out.as_slice())
        },
        None => to_owned_string("export.html"),
    }
}

/// The suggested file name for exporting the document at `path` as HTML.
pub fn export_file_name(path: &str) -> (r: String)
    ensures
        crate::text::ends_with(r@, seq!['.', 'h', 't', 'm', 'l']),
        exists|stem: Option<Seq<char>>|
            (stem matches Some(s) ==> is_component_text(path@, s)) && r@ == export_name_spec(stem),
        canonical_path(path@) ==> r@ == name_stem(last_component(path@)) + seq!['.', 'h', 't', 'm', 'l'],
        portable_path(path@) ==> r@ == export_name_spec(
            match portable_file_name(path@) {
                Some(n) => Some(name_stem(n)),
                None => None,
            },
        ),
        path@.len() == 0 ==> r@ == seq!['e', 'x', 'p', 'o', 'r', 't', '.', 'h', 't', 'm', 'l'],
{
    let r = export_name_for(path_file_stem(path));
    assert(r@.subrange(r@.len() - 5, r@.len() as int) =~= seq!['.', 'h', 't', 'm', 'l']);
    r
}

} // verus!
