//! What the viewer remembers between runs: the values it stores for its
//! settings, the list of recent files and which paths count as Markdown.
use vstd::prelude::*;

use crate::i18n::{Language, TranslationKey, tr, tr_spec};
use crate::text::{
    all_portable, canonical_path, chars_of, last_component, name_extension, path_components,
    portable_extension, portable_path, push_char, simple_path,
    str_eq, string_from_chars,
};

verus! {

broadcast use vstd::string::group_string_axioms;

/// Most recent files remembered.
pub const MAX_RECENT_FILES: usize = 8;

/// Whether clicking an external link asks first or opens it directly.
#[derive(Clone, Copy, Debug, PartialEq, Eq, Structural)]
pub enum ExternalLinkBehavior {
    AskFirst,
    OpenDirectly,
}

/// The colour themes of the viewer.
#[derive(Clone, Copy, Debug, PartialEq, Eq, Structural)]
pub enum ThemeId {
    WarmPaper,
    Mist,
    NightOwl,
}

impl ExternalLinkBehavior {
    /// The other behaviour.
    pub fn next(self) -> (r: Self)
        ensures
            r == next_behavior(self),
    {
        match self {
            ExternalLinkBehavior::AskFirst => ExternalLinkBehavior::OpenDirectly,
            ExternalLinkBehavior::OpenDirectly => ExternalLinkBehavior::AskFirst,
        }
    }

    /// The label of the behaviour in `language`.
    pub fn label(self, language: Language) -> (r: &'static str)
        ensures
            r@ == tr_spec(
                language,
                match self {
                    ExternalLinkBehavior::AskFirst => TranslationKey::ValueAskFirst,
                    ExternalLinkBehavior::OpenDirectly => TranslationKey::ValueOpenDirectly,
                },
            ),
    {
        match self {
            ExternalLinkBehavior::AskFirst => tr(language, TranslationKey::ValueAskFirst),
            ExternalLinkBehavior::OpenDirectly => tr(language, TranslationKey::ValueOpenDirectly),
        }
    }

    /// The value stored for the behaviour.
    pub fn storage_value(self) -> (r: &'static str)
        ensures
            r@ == link_behavior_value(self),
    {
        match self {
            ExternalLinkBehavior::AskFirst => "ask",
            ExternalLinkBehavior::OpenDirectly => "open",
        }
    }

    /// The behaviour a stored value names, if any.
    pub fn from_storage_value(value: &str) -> (r: Option<Self>)
        ensures
            r == link_behavior_from(value@),
    {
        if str_eq(value, "ask") {
            Some(ExternalLinkBehavior::AskFirst)
        } else if str_eq(value, "open") {
            Some(ExternalLinkBehavior::OpenDirectly)
        } else {
            None
        }
    }
}

/// The stored value of a link behaviour.
pub open spec fn link_behavior_value(b: ExternalLinkBehavior) -> Seq<char> {
    match b {
        ExternalLinkBehavior::AskFirst => "ask"@,
        ExternalLinkBehavior::OpenDirectly => "open"@,
    }
}

/// The link behaviour a stored value names.
pub open spec fn link_behavior_from(v: Seq<char>) -> Option<ExternalLinkBehavior> {
    if v == "ask"@ {
        Some(ExternalLinkBehavior::AskFirst)
    } else if v == "open"@ {
        Some(ExternalLinkBehavior::OpenDirectly)
    } else {
        None
    }
}

/// The stored value of a language.
pub open spec fn language_value(l: Language) -> Seq<char> {
    match l {
        Language::En => "en"@,
        Language::Ja => "ja"@,
    }
}

/// The language a stored value names.
pub open spec fn language_from(v: Seq<char>) -> Option<Language> {
    if v == "en"@ {
        Some(Language::En)
    } else if v == "ja"@ {
        Some(Language::Ja)
    } else {
        None
    }
}

/// The stored value of a theme.
pub open spec fn theme_value(t: ThemeId) -> Seq<char> {
    match t {
        ThemeId::WarmPaper => "warm_paper"@,
        ThemeId::Mist => "mist"@,
        ThemeId::NightOwl => "night_owl"@,
    }
}

/// The theme a stored value names.
pub open spec fn theme_from(v: Seq<char>) -> Option<ThemeId> {
    if v == "warm_paper"@ {
        Some(ThemeId::WarmPaper)
    } else if v == "mist"@ {
        Some(ThemeId::Mist)
    } else if v == "night_owl"@ {
        Some(ThemeId::NightOwl)
    } else {
        None
    }
}

/// The value stored for a language.
pub fn language_storage_value(language: Language) -> (r: &'static str)
    ensures
        r@ == language_value(language),
{
    match language {
        Language::En => "en",
        Language::Ja => "ja",
    }
}

/// The language a stored value names, if any.
pub fn language_from_storage_value(value: &str) -> (r: Option<Language>)
    ensures
        r == language_from(value@),
{
    if str_eq(value, "en") {
        Some(Language::En)
    } else if str_eq(value, "ja") {
        Some(Language::Ja)
    } else {
        None
    }
}

/// The value stored for a theme.
pub fn theme_id_storage_value(theme_id: ThemeId) -> (r: &'static str)
    ensures
        r@ == theme_value(theme_id),
{
    match theme_id {
        ThemeId::WarmPaper => "warm_paper",
        ThemeId::Mist => "mist",
        ThemeId::NightOwl => "night_owl",
    }
}

/// The theme a stored value names, if any.
pub fn theme_id_from_storage_value(value: &str) -> (r: Option<ThemeId>)
    ensures
        r == theme_from(value@),
{
    if str_eq(value, "warm_paper") {
        Some(ThemeId::WarmPaper)
    } else if str_eq(value, "mist") {
        Some(ThemeId::Mist)
    } else if str_eq(value, "night_owl") {
        Some(ThemeId::NightOwl)
    } else {
        None
    }
}

/// Every setting reads back as what was stored for it.
pub proof fn law_settings_round_trip(l: Language, t: ThemeId, b: ExternalLinkBehavior)
    ensures
        language_from(language_value(l)) == Some(l),
        theme_from(theme_value(t)) == Some(t),
        link_behavior_from(link_behavior_value(b)) == Some(b),
{
    reveal_strlit("en");
    reveal_strlit("ja");
    reveal_strlit("warm_paper");
    reveal_strlit("mist");
    reveal_strlit("night_owl");
    reveal_strlit("ask");
    reveal_strlit("open");
    assert("en"@[0] != "ja"@[0]);
    assert("warm_paper"@[0] != "mist"@[0]);
    assert("warm_paper"@[0] != "night_owl"@[0]);
    assert("mist"@[0] != "night_owl"@[0]);
    assert("ask"@[0] != "open"@[0]);
}

/// The behaviour `next` switches to.
pub open spec fn next_behavior(b: ExternalLinkBehavior) -> ExternalLinkBehavior {
    match b {
        ExternalLinkBehavior::AskFirst => ExternalLinkBehavior::OpenDirectly,
        ExternalLinkBehavior::OpenDirectly => ExternalLinkBehavior::AskFirst,
    }
}

/// Switching the link behaviour changes it, and switching twice gives the
/// original one back.
pub proof fn law_link_behavior_next_twice(b: ExternalLinkBehavior)
    ensures
        next_behavior(b) != b,
        next_behavior(next_behavior(b)) == b,
{
}


// ---------------------------------------------------------------------------
// Markdown paths
// ---------------------------------------------------------------------------
/// ASCII-lowercase of a character; other characters stay as they are.
pub open spec fn ascii_lower(c: char) -> char {
    if 'A' <= c && c <= 'Z' {
        ((c as u32) + 32) as char
    } else {
        c
    }
}

/// `str::eq_ignore_ascii_case`: equal after ASCII-lowercasing both.
pub open spec fn eq_ignore_ascii_case_spec(a: Seq<char>, b: Seq<char>) -> bool {
    a.len() == b.len() && forall|i: int| 0 <= i < a.len() ==> ascii_lower(#[trigger] a[i]) == ascii_lower(b[i])
}

fn ascii_lower_char(c: char) -> (r: char)
    ensures
        r == ascii_lower(c),
{
    if 'A' <= c && c <= 'Z' {
        let u = c as u32 + 32;
        char_from_ascii_letter(u)
    } else {
        c
    }
}

/// The character of a lowercase ASCII letter's code.
fn char_from_ascii_letter(u: u32) -> (r: char)
    requires
        97 <= u <= 122,
    ensures
        r as u32 == u,
{
    let b = u as u8;
    b as char
}

/// Whether two texts are equal ignoring ASCII case.
pub fn eq_ignore_ascii_case(a: &str, b: &str) -> (r: bool)
    ensures
        r == eq_ignore_ascii_case_spec(a@, b@),
{
    let x = chars_of(a);
    let y = chars_of(b);
    if x.len() != y.len() {
        return false;
    }
    let mut i: usize = 0;
    while i < x.len()
        invariant
            x@ == a@,
            y@ == b@,
            x@.len() == y@.len(),
            i <= x@.len(),
            forall|k: int| 0 <= k < i ==> ascii_lower(#[trigger] x@[k]) == ascii_lower(y@[k]),
        decreases x.len() - i,
    {
        if ascii_lower_char(x[i]) != ascii_lower_char(y[i]) {
            return false;
        }
        i = i + 1;
    }
    true
}

/// Whether a file extension is that of a Markdown file (`md` or `markdown`,
/// in any ASCII case).
pub open spec fn is_markdown_extension_spec(extension: Option<Seq<char>>) -> bool {
    match extension {
        Some(e) => eq_ignore_ascii_case_spec(e, "md"@) || eq_ignore_ascii_case_spec(e, "markdown"@),
        None => false,
    }
}

/// Whether a file extension is that of a Markdown file.
pub fn is_markdown_extension(extension: Option<&str>) -> (r: bool)
    ensures
        r == is_markdown_extension_spec(
            match extension {
                Some(e) => Some(e@),
                None => None,
            },
        ),
{
    match extension {
        Some(e) => eq_ignore_ascii_case(e, "md") || eq_ignore_ascii_case(e, "markdown"),
        None => false,
    }
}

/// `Path::extension` of a path, as text. Trusted, as std documents it: the
/// extension follows a dot in the path; it is taken from the file name
/// (the last component, when that is a name and not `..`): what follows
/// the name's last dot, none when the name has no dot or only a leading
/// one. For a portable path (only `/` as separator, no prefix) the
/// components are its names between `/`s; which part of other paths is the
/// file name depends on the platform's separators and is left unstated.
#[verifier::external_body]
fn path_extension(path: &str) -> (r: Option<String>)
    ensures
        r matches Some(e) ==> crate::text::seq_contains(path@, seq!['.'] + e@),
        portable_path(path@) ==> match r {
            Some(e) => portable_extension(path@) == Some(e@),
            None => portable_extension(path@) is None,
        },
        canonical_path(path@) ==> match r {
            Some(e) => name_extension(last_component(path@)) == Some(e@),
            None => name_extension(last_component(path@)) is None,
        },
{
    std::path::Path::new(path).extension().and_then(|e| e.to_str()).map(|e| e.to_owned())
}

/// Whether the path names a Markdown file by its extension. For a
/// portable path that is exactly whether the extension of its file name is
/// `md` or `markdown`, in any case; for a canonical path, of its last
/// component.
pub fn is_markdown_path(path: &str) -> (r: bool)
    ensures
        r ==> exists|e: Seq<char>|
            crate::text::seq_contains(path@, seq!['.'] + e) && is_markdown_extension_spec(Some(e)),
        portable_path(path@) ==> (r == is_markdown_extension_spec(portable_extension(path@))),
        canonical_path(path@) ==> (r == is_markdown_extension_spec(
            name_extension(last_component(path@)),
        )),
{
    let extension = path_extension(path);
    match extension {
        Some(e) => {
            let r = is_markdown_extension(Some(e.as_str()));
            if r {
                assert(crate::text::seq_contains(path@, seq!['.'] + e@));
            }
            r
        },
        None => false,
    }
}

/// `Path == Path` for two paths given as text. Trusted: std compares paths
/// by their components, so a path equals a path with the same text, two
/// simple paths (canonical, empty or the root) are equal just when their
/// texts are, and two portable paths just when they have the same root,
/// leading `.` and names (repeated and trailing `/`s and later `.`s are no
/// components). Which other spellings count as equal is left unstated.
#[verifier::external_body]
pub(crate) fn same_path(a: &str, b: &str) -> (r: bool)
    ensures
        a@ == b@ ==> r,
        simple_path(a@) && simple_path(b@) ==> (r <==> a@ == b@),
        portable_path(a@) && portable_path(b@) ==> (r <==> path_components(a@) == path_components(
            b@,
        )),
{
    std::path::Path::new(a) == std::path::Path::new(b)
}

// ---------------------------------------------------------------------------
// Recent files
// ---------------------------------------------------------------------------
/// The views of a list of paths.
pub open spec fn paths_view(paths: Seq<String>) -> Seq<Seq<char>> {
    paths.map_values(|p: String| p@)
}

/// The entries of `s` whose flag in `keep` is set, in order.
pub open spec fn kept(s: Seq<Seq<char>>, keep: Seq<bool>) -> Seq<Seq<char>>
    decreases s.len(),
{
    if s.len() == 0 {
        Seq::empty()
    } else {
        let prev = kept(s.drop_last(), keep);
        if keep[s.len() - 1] {
            prev.push(s.last())
        } else {
            prev
        }
    }
}

/// The recent files after opening `path`: `path` first, then the remembered
/// files that are kept, at most `MAX_RECENT_FILES` in all.
pub open spec fn remembered(recent: Seq<Seq<char>>, path: Seq<char>, keep: Seq<bool>) -> Seq<Seq<char>> {
    let all = seq![path] + kept(recent, keep);
    if all.len() <= MAX_RECENT_FILES {
        all
    } else {
        all.take(MAX_RECENT_FILES as int)
    }
}

proof fn lemma_kept_push(s: Seq<Seq<char>>, keep: Seq<bool>, i: int)
    requires
        0 <= i < s.len(),
    ensures
        kept(s.take(i + 1), keep) == if keep[i] {
            kept(s.take(i), keep).push(s[i])
        } else {
            kept(s.take(i), keep)
        },
{
    assert(s.take(i + 1).drop_last() =~= s.take(i));
}

/// Puts `path` at the front of the recent files. A remembered file stays
/// only while `is_file` says it still exists and it is another path than
/// `path`; at most `MAX_RECENT_FILES` are kept. When every path is
/// portable, exactly the existing files whose components differ from those
/// of `path` stay.
pub fn remember_recent_file(recent_files: &mut Vec<String>, path: &str, is_file: &[bool])
    requires
        is_file@.len() == old(recent_files)@.len(),
    ensures
        exists|keep: Seq<bool>|
            {
                &&& keep.len() == old(recent_files)@.len()
                &&& forall|i: int|
                    0 <= i < keep.len() ==> (#[trigger] keep[i] ==> is_file@[i] && old(
                        recent_files,
                    )@[i]@ != path@)
                &&& paths_view(final(recent_files)@) == remembered(
                    paths_view(old(recent_files)@),
                    path@,
                    keep,
                )
            },
        all_portable(paths_view(old(recent_files)@)) && portable_path(path@) ==> paths_view(
            final(recent_files)@,
        ) == remembered(
            paths_view(old(recent_files)@),
            path@,
            kept_flags(paths_view(old(recent_files)@), path@, is_file@),
        ),
{
    let ghost old_view = paths_view(recent_files@);
    let mut keep: Vec<bool> = Vec::new();
    let mut result: Vec<String> = Vec::new();
    result.push(path.to_owned());
    let mut i: usize = 0;
    assert(old_view.take(0) =~= Seq::<Seq<char>>::empty());
    while i < recent_files.len()
        invariant
            old_view == paths_view(recent_files@),
            old_view.len() == recent_files@.len(),
            is_file@.len() == recent_files@.len(),
            i <= recent_files@.len(),
            keep@.len() == i,
            forall|k: int|
                0 <= k < i ==> (#[trigger] keep@[k] ==> is_file@[k] && old_view[k] != path@),
            all_portable(old_view) && portable_path(path@) ==> forall|k: int|
                0 <= k < i ==> #[trigger] keep@[k] == (is_file@[k] && path_components(old_view[k])
                    != path_components(path@)),
            paths_view(result@) == seq![path@] + kept(old_view.take(i as int), keep@),
        decreases recent_files.len() - i,
    {
        proof {
            if all_portable(old_view) {
                assert(portable_path(old_view[i as int]));
                assert(old_view[i as int] == recent_files@[i as int]@);
            }
        }
        let k = is_file[i] && !same_path(recent_files[i].as_str(), path);
        let ghost old_keep = keep@;
        keep.push(k);
        proof {
            lemma_kept_push(old_view, keep@, i as int);
            lemma_kept_prefix_flags(old_view.take(i as int), keep@, old_keep);
        }
        if k {
            let ghost before = result@;
            result.push(recent_files[i].clone());
            assert(paths_view(result@) =~= paths_view(before).push(recent_files@[i as int]@));
        }
        i = i + 1;
    }
    assert(old_view.take(i as int) =~= old_view);
    if result.len() > MAX_RECENT_FILES {
        result.truncate(MAX_RECENT_FILES);
        assert(paths_view(result@) =~= (seq![path@] + kept(old_view, keep@)).take(
            MAX_RECENT_FILES as int,
        ));
    }
    *recent_files = result;
    let ghost witness = keep@;
    assert(witness.len() == old_view.len());
    assert(paths_view(recent_files@) == remembered(old_view, path@, witness));
    proof {
        if all_portable(old_view) && portable_path(path@) {
            let exact = kept_flags(old_view, path@, is_file@);
            assert forall|k: int| 0 <= k < exact.len() implies exact[k] == witness[k] by {
                assert(old_view[k] == old(recent_files)@[k]@);
            }
            assert(witness =~= exact);
        }
    }
}

/// Which remembered files stay when every path is portable: those that
/// still exist and whose components differ from those of `path`.
pub open spec fn kept_flags(recent: Seq<Seq<char>>, path: Seq<char>, is_file: Seq<bool>) -> Seq<bool> {
    Seq::new(recent.len(), |i: int| is_file[i] && path_components(recent[i]) != path_components(path))
}

/// Keeping every entry but the first keeps all but the first.
proof fn lemma_kept_all_but_first(s: Seq<Seq<char>>, keep: Seq<bool>)
    requires
        s.len() > 0,
        keep.len() >= s.len(),
        !keep[0],
        forall|i: int| 1 <= i < s.len() ==> keep[i],
    ensures
        kept(s, keep) == s.drop_first(),
    decreases s.len(),
{
    let t = s.drop_last();
    if s.len() == 1 {
        assert(t =~= Seq::<Seq<char>>::empty());
        assert(kept(t, keep) == Seq::<Seq<char>>::empty());
        assert(kept(s, keep) == kept(t, keep));
        assert(s.drop_first() =~= Seq::<Seq<char>>::empty());
    } else {
        lemma_kept_all_but_first(t, keep);
        assert(keep[s.len() - 1]);
        assert(kept(s, keep) == kept(t, keep).push(s.last()));
        assert(t.drop_first().push(s.last()) =~= s.drop_first());
    }
}

/// Opening the same file again, while the same files exist, changes the
/// recent files no more: after one `remember_recent_file` of `path` (over
/// portable paths), a second one leaves the list as it is, with `path`
/// first and no other path with its components.
pub proof fn law_remember_twice(
    recent: Seq<Seq<char>>,
    path: Seq<char>,
    is_file: Seq<bool>,
    is_file_again: Seq<bool>,
)
    requires
        is_file.len() == recent.len(),
        is_file_again.len() == remembered(recent, path, kept_flags(recent, path, is_file)).len(),
        forall|i: int|
            1 <= i < is_file_again.len() ==> #[trigger] is_file_again[i],
    ensures
        ({
            let once = remembered(recent, path, kept_flags(recent, path, is_file));
            &&& once[0] == path
            &&& forall|i: int|
                1 <= i < once.len() ==> path_components(#[trigger] once[i]) != path_components(path)
            &&& remembered(once, path, kept_flags(once, path, is_file_again)) == once
        }),
{
    let keep = kept_flags(recent, path, is_file);
    let once = remembered(recent, path, keep);
    let all = seq![path] + kept(recent, keep);
    lemma_kept_avoids(recent, keep, path);
    assert(once.len() <= MAX_RECENT_FILES);
    assert(once[0] == path);
    assert forall|i: int| 1 <= i < once.len() implies path_components(#[trigger] once[i])
        != path_components(path) by {
        assert(once[i] == all[i]);
        assert(all[i] == kept(recent, keep)[i - 1]);
    }
    let keep2 = kept_flags(once, path, is_file_again);
    lemma_kept_all_but_first(once, keep2);
    assert(seq![path] + once.drop_first() =~= once);
}

/// No kept entry has the components of `path` when no kept entry of `s`
/// has them.
proof fn lemma_kept_avoids(s: Seq<Seq<char>>, keep: Seq<bool>, path: Seq<char>)
    requires
        keep.len() >= s.len(),
        forall|i: int|
            0 <= i < s.len() ==> (#[trigger] keep[i] ==> path_components(s[i]) != path_components(
                path,
            )),
    ensures
        forall|i: int|
            0 <= i < kept(s, keep).len() ==> path_components(#[trigger] kept(s, keep)[i])
                != path_components(path),
    decreases s.len(),
{
    if s.len() > 0 {
        let t = s.drop_last();
        lemma_kept_avoids(t, keep, path);
        let prev = kept(t, keep);
        if keep[s.len() - 1] {
            assert(kept(s, keep) == prev.push(s.last()));
            assert forall|i: int| 0 <= i < kept(s, keep).len() implies path_components(
                #[trigger] kept(s, keep)[i],
            ) != path_components(path) by {
                if i < prev.len() {
                    assert(kept(s, keep)[i] == prev[i]);
                }
            }
        } else {
            assert(kept(s, keep) == prev);
        }
    }
}

proof fn lemma_kept_prefix_flags(s: Seq<Seq<char>>, a: Seq<bool>, b: Seq<bool>)
    requires
        s.len() <= a.len(),
        s.len() <= b.len(),
        forall|j: int| 0 <= j < s.len() ==> a[j] == b[j],
    ensures
        kept(s, a) == kept(s, b),
    decreases s.len(),
{
    if s.len() > 0 {
        lemma_kept_prefix_flags(s.drop_last(), a, b);
    }
}


/// The first newline in `s` from `i` on.
pub open spec fn newline_from(s: Seq<char>, i: int) -> Option<int>
    decreases s.len() - i,
{
    if i < 0 || i >= s.len() {
        None
    } else if s[i] == '\n' {
        Some(i)
    } else {
        newline_from(s, i + 1)
    }
}

/// A line without the carriage return that ended it.
pub open spec fn strip_cr(line: Seq<char>) -> Seq<char> {
    if line.len() > 0 && line.last() == '\r' {
        line.drop_last()
    } else {
        line
    }
}

/// The lines of a text as `str::lines` gives them: split at `\n`, each
/// line without a `\r` that came right before its `\n`, and no empty last
/// line after a final newline.
pub open spec fn lines_spec(s: Seq<char>) -> Seq<Seq<char>>
    decreases s.len(),
{
    if s.len() == 0 {
        Seq::empty()
    } else {
        match newline_from(s, 0) {
            Some(i) => {
                proof {
                    lemma_newline_from(s, 0);
                }
                seq![strip_cr(s.take(i))] + lines_spec(s.skip(i + 1))
            },
            None => seq![s],
        }
    }
}

pub proof fn lemma_newline_from(s: Seq<char>, i: int)
    ensures
        newline_from(s, i) matches Some(k) ==> i <= k < s.len() && s[k] == '\n',
        newline_from(s, i) matches Some(k) ==> forall|j: int| i <= j < k ==> s[j] != '\n',
        newline_from(s, i) is None && 0 <= i ==> forall|j: int| i <= j < s.len() ==> s[j] != '\n',
    decreases s.len() - i,
{
    if 0 <= i < s.len() && s[i] != '\n' {
        lemma_newline_from(s, i + 1);
    }
}

/// The stored recent files: the first `MAX_RECENT_FILES` paths, one per line.
pub open spec fn join_lines(paths: Seq<Seq<char>>) -> Seq<char>
    decreases paths.len(),
{
    if paths.len() == 0 {
        Seq::empty()
    } else if paths.len() == 1 {
        paths[0]
    } else {
        paths[0] + seq!['\n'] + join_lines(paths.drop_first())
    }
}

/// The value stored for the recent files.
pub open spec fn recent_files_value(paths: Seq<Seq<char>>) -> Seq<char> {
    join_lines(
        if paths.len() <= MAX_RECENT_FILES {
            paths
        } else {
            paths.take(MAX_RECENT_FILES as int)
        },
    )
}

/// The lines of a stored value (`str::lines`).
pub fn storage_lines(value: &str) -> (r: Vec<String>)
    ensures
        paths_view(r@) == lines_spec(value@),
{
    let cs = chars_of(value);
    let mut out: Vec<String> = Vec::new();
    let mut start: usize = 0;
    let ghost target = lines_spec(value@);
    assert(cs@.skip(0) =~= cs@);
    assert(paths_view(out@) =~= Seq::<Seq<char>>::empty());
    while start < cs.len()
        invariant
            cs@ == value@,
            start <= cs@.len(),
            target == lines_spec(value@),
            paths_view(out@) + lines_spec(cs@.skip(start as int)) == target,
        decreases cs.len() - start,
    {
        let ghost rest = cs@.skip(start as int);
        let mut end = start;
        while end < cs.len() && cs[end] != '\n'
            invariant
                start <= end <= cs@.len(),
                forall|j: int| start <= j < end ==> cs@[j] != '\n',
            decreases cs.len() - end,
        {
            end = end + 1;
        }
        let mut line_end = end;
        if line_end > start && cs[line_end - 1] == '\r' && end < cs.len() {
            line_end = line_end - 1;
        }
        let line = crate::text::subrange_chars(&cs, start, line_end);
        let ghost before = out@;
        out.push(string_from_chars(line.as_slice()));
        proof {
            assert(paths_view(out@) =~= paths_view(before).push(line@));
            if end < cs.len() {
                assert(rest[end - start] == '\n');
                lemma_newline_exact(rest, end - start);
                assert(rest.take(end - start) =~= cs@.subrange(start as int, end as int));
                assert(rest.skip(end - start + 1) =~= cs@.skip(end + 1));
                assert(line@ =~= strip_cr(rest.take(end - start)));
                assert(lines_spec(rest) == seq![line@] + lines_spec(cs@.skip(end + 1)));
                assert(paths_view(out@) + lines_spec(cs@.skip(end + 1)) =~= paths_view(before)
                    + lines_spec(rest));
            } else {
                lemma_newline_none(rest);
                assert(line@ =~= rest);
                assert(cs@.skip(end as int) =~= Seq::<char>::empty());
                assert(paths_view(out@) + lines_spec(cs@.skip(end as int)) =~= paths_view(before)
                    + lines_spec(rest));
            }
        }
        if end < cs.len() {
            start = end + 1;
        } else {
            start = end;
        }
    }
    assert(cs@.skip(start as int) =~= Seq::<char>::empty());
    assert(paths_view(out@) + Seq::<Seq<char>>::empty() =~= paths_view(out@));
    out
}

proof fn lemma_newline_exact(s: Seq<char>, k: int)
    requires
        0 <= k < s.len(),
        s[k] == '\n',
        forall|j: int| 0 <= j < k ==> s[j] != '\n',
    ensures
        newline_from(s, 0) == Some(k),
{
    lemma_newline_walk(s, 0, k);
}

proof fn lemma_newline_walk(s: Seq<char>, i: int, k: int)
    requires
        0 <= i <= k < s.len(),
        s[k] == '\n',
        forall|j: int| i <= j < k ==> s[j] != '\n',
    ensures
        newline_from(s, i) == Some(k),
    decreases k - i,
{
    if i < k {
        lemma_newline_walk(s, i + 1, k);
    }
}

proof fn lemma_newline_none(s: Seq<char>)
    requires
        forall|j: int| 0 <= j < s.len() ==> s[j] != '\n',
    ensures
        newline_from(s, 0) is None,
{
    lemma_newline_none_from(s, 0);
}

proof fn lemma_newline_none_from(s: Seq<char>, i: int)
    requires
        0 <= i,
        forall|j: int| i <= j < s.len() ==> s[j] != '\n',
    ensures
        newline_from(s, i) is None,
    decreases s.len() - i,
{
    if i < s.len() {
        lemma_newline_none_from(s, i + 1);
    }
}

/// The value stored for the recent files: the first `MAX_RECENT_FILES`
/// paths, one per line.
pub fn recent_files_storage_value(recent_files: &[String]) -> (r: String)
    ensures
        r@ == recent_files_value(recent_files@.map_values(|p: String| p@)),
{
    let ghost pv = recent_files@.map_values(|p: String| p@);
    let n = if recent_files.len() <= MAX_RECENT_FILES {
        recent_files.len()
    } else {
        MAX_RECENT_FILES
    };
    let ghost taken = if pv.len() <= MAX_RECENT_FILES {
        pv
    } else {
        pv.take(MAX_RECENT_FILES as int)
    };
    assert(taken.len() == n);
    let mut out = String::new();
    let mut i: usize = 0;
    assert(taken.skip(0) =~= taken);
    while i < n
        invariant
            pv == recent_files@.map_values(|p: String| p@),
            n <= recent_files@.len(),
            taken.len() == n,
            forall|k: int| 0 <= k < n ==> taken[k] == pv[k],
            i <= n,
            i == n ==> out@ == join_lines(taken),
            i < n ==> join_lines(taken) == out@ + (if i == 0 {
                Seq::<char>::empty()
            } else {
                seq!['\n']
            }) + join_lines(taken.skip(i as int)),
        decreases n - i,
    {
        assert(pv[i as int] == recent_files@[i as int]@);
        let ghost rest = taken.skip(i as int);
        if i > 0 {
            push_char(&mut out, '\n');
        }
        out.append(recent_files[i].as_str());
        proof {
            assert(rest[0] == taken[i as int]);
            if i + 1 < n {
                assert(rest.drop_first() =~= taken.skip(i + 1));
                assert(join_lines(rest) == rest[0] + seq!['\n'] + join_lines(rest.drop_first()));
            } else {
                assert(rest.len() == 1);
            }
        }
        i = i + 1;
    }
    if n == 0 {
        assert(join_lines(taken) =~= Seq::<char>::empty());
    }
    out
}


/// `p` is line `i` of `lines` for some `i` where `is_file` is set.
pub open spec fn is_listed_file(lines: Seq<Seq<char>>, is_file: Seq<bool>, p: Seq<char>) -> bool {
    exists|i: int| 0 <= i < lines.len() && is_file[i] && lines[i] == p
}

/// A path that can be stored on a line of its own and read back.
pub open spec fn storable_path(p: Seq<char>) -> bool {
    &&& p.len() > 0
    &&& forall|j: int| 0 <= j < p.len() ==> p[j] != '\n'
    &&& p.last() != '\r'
}

/// Reading back the stored recent files gives the paths that were stored,
/// for paths that are not empty and hold no line break.
pub proof fn law_recent_files_round_trip(paths: Seq<Seq<char>>)
    requires
        paths.len() <= MAX_RECENT_FILES,
        forall|i: int| 0 <= i < paths.len() ==> storable_path(#[trigger] paths[i]),
    ensures
        lines_spec(recent_files_value(paths)) == paths,
{
    lemma_lines_of_join(paths);
}

proof fn lemma_lines_of_join(paths: Seq<Seq<char>>)
    requires
        forall|i: int| 0 <= i < paths.len() ==> storable_path(#[trigger] paths[i]),
    ensures
        lines_spec(join_lines(paths)) == paths,
    decreases paths.len(),
{
    if paths.len() == 0 {
        assert(lines_spec(Seq::<char>::empty()) =~= Seq::<Seq<char>>::empty());
    } else if paths.len() == 1 {
        let p = paths[0];
        assert(storable_path(p));
        lemma_newline_none(p);
        assert(lines_spec(p) == seq![p]);
        assert(seq![p] =~= paths);
    } else {
        let p = paths[0];
        assert(storable_path(p));
        let rest = paths.drop_first();
        assert forall|i: int| 0 <= i < rest.len() implies storable_path(#[trigger] rest[i]) by {
            assert(rest[i] == paths[i + 1]);
        }
        lemma_lines_of_join(rest);
        let j = join_lines(paths);
        assert(j == p + seq!['\n'] + join_lines(rest));
        assert(j[p.len() as int] == '\n');
        assert forall|k: int| 0 <= k < p.len() implies j[k] != '\n' by {
            assert(j[k] == p[k]);
        }
        lemma_newline_exact(j, p.len() as int);
        assert(j.take(p.len() as int) =~= p);
        assert(j.skip(p.len() as int + 1) =~= join_lines(rest));
        assert(strip_cr(p) == p);
        assert(seq![p] + rest =~= paths);
    }
}

/// The recent files chosen from the first `n` stored lines when each line
/// is a portable path: a line is taken while fewer than
/// `MAX_RECENT_FILES` are taken, when it is a file, has a Markdown
/// extension and no path with its components was taken before.
pub open spec fn recent_selection(lines: Seq<Seq<char>>, is_file: Seq<bool>, n: int) -> Seq<
    Seq<char>,
>
    decreases n,
{
    if n <= 0 {
        Seq::empty()
    } else {
        let prev = recent_selection(lines, is_file, n - 1);
        let line = lines[n - 1];
        if prev.len() < MAX_RECENT_FILES && is_file[n - 1] && is_markdown_extension_spec(
            portable_extension(line),
        ) && !has_same_components(prev, line) {
            prev.push(line)
        } else {
            prev
        }
    }
}

/// Saving recent files and restoring them gives them back: the stored
/// value reads back as the saved paths, and when every saved path is a
/// portable path of an existing Markdown file and no two saved paths have
/// the same components (as `remember_recent_file` keeps them), the
/// restored list is the saved one.
pub proof fn law_save_then_restore_recent_files(paths: Seq<Seq<char>>, is_file: Seq<bool>)
    requires
        paths.len() <= MAX_RECENT_FILES,
        forall|i: int| 0 <= i < paths.len() ==> storable_path(#[trigger] paths[i]),
        is_file.len() == paths.len(),
    ensures
        lines_spec(recent_files_value(paths)) == paths,
        (forall|i: int|
            0 <= i < paths.len() ==> #[trigger] is_file[i] && is_markdown_extension_spec(
                portable_extension(paths[i]),
            )) && (forall|i: int, j: int|
            0 <= i < j < paths.len() ==> path_components(#[trigger] paths[i]) != path_components(
                #[trigger] paths[j],
            )) ==> recent_selection(paths, is_file, paths.len() as int) == paths,
{
    law_recent_files_round_trip(paths);
    if (forall|i: int|
        0 <= i < paths.len() ==> #[trigger] is_file[i] && is_markdown_extension_spec(
            portable_extension(paths[i]),
        )) && (forall|i: int, j: int|
        0 <= i < j < paths.len() ==> path_components(#[trigger] paths[i]) != path_components(
            #[trigger] paths[j],
        )) {
        lemma_selection_takes_all(paths, is_file, paths.len() as int);
        assert(paths.take(paths.len() as int) =~= paths);
    }
}

proof fn lemma_selection_takes_all(paths: Seq<Seq<char>>, is_file: Seq<bool>, n: int)
    requires
        0 <= n <= paths.len(),
        paths.len() <= MAX_RECENT_FILES,
        is_file.len() == paths.len(),
        forall|i: int|
            0 <= i < paths.len() ==> #[trigger] is_file[i] && is_markdown_extension_spec(
                portable_extension(paths[i]),
            ),
        forall|i: int, j: int|
            0 <= i < j < paths.len() ==> path_components(#[trigger] paths[i]) != path_components(
                #[trigger] paths[j],
            ),
    ensures
        recent_selection(paths, is_file, n) == paths.take(n),
    decreases n,
{
    if n > 0 {
        lemma_selection_takes_all(paths, is_file, n - 1);
        let prev = paths.take(n - 1);
        assert(is_file[n - 1]);
        assert(!has_same_components(prev, paths[n - 1])) by {
            if has_same_components(prev, paths[n - 1]) {
                let k = choose|k: int|
                    0 <= k < prev.len() && path_components(#[trigger] prev[k]) == path_components(
                        paths[n - 1],
                    );
                assert(prev[k] == paths[k]);
                assert(path_components(paths[k]) != path_components(paths[n - 1]));
            }
        }
        assert(prev.push(paths[n - 1]) =~= paths.take(n));
    } else {
        assert(paths.take(0) =~= Seq::<Seq<char>>::empty());
    }
}

/// Some path of `paths` has the components of `p`.
pub open spec fn has_same_components(paths: Seq<Seq<char>>, p: Seq<char>) -> bool {
    exists|k: int| 0 <= k < paths.len() && path_components(#[trigger] paths[k]) == path_components(p)
}

proof fn lemma_recent_selection_full(lines: Seq<Seq<char>>, is_file: Seq<bool>, n: int, m: int)
    requires
        0 <= n <= m,
        recent_selection(lines, is_file, n).len() >= MAX_RECENT_FILES,
    ensures
        recent_selection(lines, is_file, m) == recent_selection(lines, is_file, n),
    decreases m - n,
{
    if m > n {
        lemma_recent_selection_full(lines, is_file, n, m - 1);
    }
}

/// The recent files read from a stored value: its lines in order, skipping
/// lines that `is_file` says are no files, that are no Markdown paths or
/// that repeat an earlier path, until `MAX_RECENT_FILES` are found. When
/// every line is a portable path this is `recent_selection`.
pub fn recent_files_from_storage_value(value: &str, is_file: &[bool]) -> (r: Vec<String>)
    requires
        is_file@.len() == lines_spec(value@).len(),
    ensures
        r@.len() <= MAX_RECENT_FILES,
        forall|k: int|
            0 <= k < r@.len() ==> is_listed_file(lines_spec(value@), is_file@, #[trigger] r@[k]@),
        forall|a: int, b: int| 0 <= a < b < r@.len() ==> r@[a]@ != r@[b]@,
        all_portable(lines_spec(value@)) ==> paths_view(r@) == recent_selection(
            lines_spec(value@),
            is_file@,
            lines_spec(value@).len() as int,
        ),
{
    let lines = storage_lines(value);
    let ghost lv = lines_spec(value@);
    let mut recent: Vec<String> = Vec::new();
    let mut i: usize = 0;
    while i < lines.len() && recent.len() < MAX_RECENT_FILES
        invariant
            paths_view(lines@) == lv,
            lv == lines_spec(value@),
            lv.len() == lines@.len(),
            is_file@.len() == lv.len(),
            i <= lines@.len(),
            recent@.len() <= MAX_RECENT_FILES,
            forall|k: int|
                0 <= k < recent@.len() ==> is_listed_file(lv, is_file@, #[trigger] recent@[k]@),
            forall|a: int, b: int| 0 <= a < b < recent@.len() ==> recent@[a]@ != recent@[b]@,
            all_portable(lv) ==> paths_view(recent@) == recent_selection(lv, is_file@, i as int),
        decreases lines.len() - i,
    {
        assert(lv[i as int] == lines@[i as int]@);
        let path = &lines[i];
        let ghost prev = paths_view(recent@);
        proof {
            if all_portable(lv) {
                assert(portable_path(lv[i as int]));
                assert forall|k: int| 0 <= k < prev.len() implies portable_path(#[trigger] prev[k]) by {
                    assert(prev[k] == recent@[k]@);
                    assert(is_listed_file(lv, is_file@, recent@[k]@));
                    let j = choose|j: int| 0 <= j < lv.len() && is_file@[j] && lv[j] == recent@[k]@;
                    assert(portable_path(lv[j]));
                }
                assert(prev.len() == recent@.len());
                assert(forall|k: int| 0 <= k < prev.len() ==> prev[k] == (#[trigger] recent@[k])@);
            }
        }
        let is_md = is_markdown_path(path.as_str());
        let dup = contains_path(&recent, path.as_str());
        proof {
            if all_portable(lv) {
                assert(all_portable(paths_view(recent@)));
                assert(paths_view(recent@) == prev);
                assert(dup == has_same_components(prev, lv[i as int]));
            }
        }
        if is_file[i] && is_md && !dup {
            let ghost before = recent@;
            recent.push(path.clone());
            proof {
                assert(paths_view(recent@) =~= prev.push(lv[i as int]));
                assert forall|k: int|
                    0 <= k < recent@.len() implies is_listed_file(lv, is_file@, #[trigger] recent@[k]@) by {
                    if k == recent@.len() - 1 {
                        assert(recent@[k]@ == lv[i as int]);
                        assert(is_file@[i as int]);
                    } else {
                        assert(recent@[k] == before[k]);
                    }
                }
            }
        } else {
            proof {
                assert(paths_view(recent@) == prev);
            }
        }
        i = i + 1;
    }
    proof {
        if all_portable(lv) && i < lines@.len() {
            lemma_recent_selection_full(lv, is_file@, i as int, lv.len() as int);
        }
    }
    recent
}

/// `q` may count as the same path as `p`: the same text, or one of them is
/// not a simple path, where std's component rules decide.
pub open spec fn may_be_same_path(q: Seq<char>, p: Seq<char>) -> bool {
    q == p || !(simple_path(q) && simple_path(p))
}

/// Whether `paths` holds a path that std counts as the same as `path`:
/// it does when it holds `path` itself, and it does not when no entry may
/// be the same (so among canonical paths it is a test of equal text).
fn contains_path(paths: &Vec<String>, path: &str) -> (r: bool)
    ensures
        (exists|k: int| 0 <= k < paths@.len() && #[trigger] paths@[k]@ == path@) ==> r,
        r ==> exists|k: int| 0 <= k < paths@.len() && may_be_same_path(#[trigger] paths@[k]@, path@),
        all_portable(paths_view(paths@)) && portable_path(path@) ==> (r == has_same_components(
            paths_view(paths@),
            path@,
        )),
{
    let ghost pv = paths_view(paths@);
    let mut i: usize = 0;
    while i < paths.len()
        invariant
            pv == paths_view(paths@),
            i <= paths@.len(),
            forall|k: int| 0 <= k < i ==> (#[trigger] paths@[k])@ != path@,
            all_portable(pv) && portable_path(path@) ==> forall|k: int|
                0 <= k < i ==> path_components(#[trigger] pv[k]) != path_components(path@),
        decreases paths.len() - i,
    {
        proof {
            if all_portable(pv) {
                assert(pv[i as int] == paths@[i as int]@);
                assert(portable_path(pv[i as int]));
            }
        }
        if same_path(paths[i].as_str(), path) {
            assert(may_be_same_path(paths@[i as int]@, path@));
            proof {
                if all_portable(pv) && portable_path(path@) {
                    assert(path_components(pv[i as int]) == path_components(path@));
                }
            }
            return true;
        }
        i = i + 1;
    }
    false
}

/// The file to reopen from the stored current file: a non-empty value
/// names a file to open when `is_markdown_file` says it is an existing
/// Markdown file, else one to report as unavailable.
pub fn restored_current_file(value: Option<String>, is_markdown_file: bool) -> (r: (Option<String>, Option<String>))
    ensures
        match value {
            None => r.0 is None && r.1 is None,
            Some(v) => if v@.len() == 0 {
                r.0 is None && r.1 is None
            } else if is_markdown_file {
                r.0 == Some(v) && r.1 is None
            } else {
                r.0 is None && r.1 == Some(v)
            },
        },
{
    match value {
        None => (None, None),
        Some(current_file) => {
            if current_file.as_str().is_empty() {
                (None, None)
            } else if is_markdown_file {
                (Some(current_file), None)
            } else {
                (None, Some(current_file))
            }
        },
    }
}

// ---------------------------------------------------------------------------
// Saving the session
// ---------------------------------------------------------------------------
/// The storage key of the interface language.
pub const STORAGE_KEY_LANGUAGE: &'static str = "oxidemd.language";

/// The storage key of the theme.
pub const STORAGE_KEY_THEME: &'static str = "oxidemd.theme";

/// The storage key of the zoom factor.
pub const STORAGE_KEY_ZOOM: &'static str = "oxidemd.zoom";

/// The storage key of the external link behaviour.
pub const STORAGE_KEY_EXTERNAL_LINKS: &'static str = "oxidemd.external_links";

/// The storage key of the file that was open.
pub const STORAGE_KEY_CURRENT_FILE: &'static str = "oxidemd.current_file";

/// The storage key of the recent files.
pub const STORAGE_KEY_RECENT_FILES: &'static str = "oxidemd.recent_files";

/// The settings and files that are saved when the viewer closes (the zoom
/// factor, a float, is written by the caller under `STORAGE_KEY_ZOOM`).
pub struct SessionSaveData<'a> {
    pub language: Language,
    pub theme_id: ThemeId,
    pub external_link_behavior: ExternalLinkBehavior,
    pub current_file: Option<&'a str>,
    pub recent_files: &'a [String],
}

/// The stored value of the open file: its path, or nothing.
pub open spec fn current_file_value(current_file: Option<&str>) -> Seq<char> {
    match current_file {
        Some(p) => p@,
        None => Seq::empty(),
    }
}

/// The key and value pairs that save `data`, in the order they are written:
/// language, theme, link behaviour, open file and recent files.
pub fn session_storage_entries(data: &SessionSaveData) -> (r: Vec<(&'static str, String)>)
    ensures
        r@.len() == 5,
        r@[0].0 == STORAGE_KEY_LANGUAGE && r@[0].1@ == language_value(data.language),
        r@[1].0 == STORAGE_KEY_THEME && r@[1].1@ == theme_value(data.theme_id),
        r@[2].0 == STORAGE_KEY_EXTERNAL_LINKS && r@[2].1@ == link_behavior_value(
            data.external_link_behavior,
        ),
        r@[3].0 == STORAGE_KEY_CURRENT_FILE && r@[3].1@ == current_file_value(data.current_file),
        r@[4].0 == STORAGE_KEY_RECENT_FILES && r@[4].1@ == recent_files_value(
            data.recent_files@.map_values(|p: String| p@),
        ),
{
    let mut entries: Vec<(&'static str, String)> = Vec::new();
    entries.push(
        (STORAGE_KEY_LANGUAGE, crate::text::to_owned_string(language_storage_value(data.language))),
    );
    entries.push(
        (STORAGE_KEY_THEME, crate::text::to_owned_string(theme_id_storage_value(data.theme_id))),
    );
    entries.push(
        (
            STORAGE_KEY_EXTERNAL_LINKS,
            crate::text::to_owned_string(data.external_link_behavior.storage_value()),
        ),
    );
    let current = match data.current_file {
        Some(path) => crate::text::to_owned_string(path),
        None => String::new(),
    };
    entries.push((STORAGE_KEY_CURRENT_FILE, current));
    entries.push((STORAGE_KEY_RECENT_FILES, recent_files_storage_value(data.recent_files)));
    entries
}

// ---------------------------------------------------------------------------
// Restoring the session
// ---------------------------------------------------------------------------
/// The stored values read back at start-up, by key (the zoom factor, a
/// float, is read by the caller).
pub struct StoredSession {
    pub language: Option<String>,
    pub theme: Option<String>,
    pub external_links: Option<String>,
    pub current_file: Option<String>,
    pub recent_files: Option<String>,
}

/// The settings and files restored from the stored values: each setting
/// that was stored and is understood, the recent files that still exist,
/// and the file to reopen or to report as unavailable.
pub struct RestoredSession {
    pub language: Option<Language>,
    pub theme_id: Option<ThemeId>,
    pub external_link_behavior: Option<ExternalLinkBehavior>,
    pub recent_files: Option<Vec<String>>,
    pub current_file: Option<String>,
    pub unavailable_current_file: Option<String>,
}

/// The setting a stored value names, when there is a stored value.
pub open spec fn restored_setting<T>(value: Option<String>, from: spec_fn(Seq<char>) -> Option<T>) -> Option<T> {
    match value {
        Some(v) => from(v@),
        None => None,
    }
}

/// The recent-file lines of the stored value, when there is one.
pub open spec fn stored_recent_lines(stored: StoredSession) -> Seq<Seq<char>> {
    match stored.recent_files {
        Some(v) => lines_spec(v@),
        None => Seq::empty(),
    }
}

/// The session restored from the stored values. `recent_is_file` says for
/// each stored recent file whether it still exists, `current_is_markdown_file`
/// whether the stored open file is an existing Markdown file.
pub fn restore_session(
    stored: StoredSession,
    recent_is_file: &[bool],
    current_is_markdown_file: bool,
) -> (r: RestoredSession)
    requires
        recent_is_file@.len() == stored_recent_lines(stored).len(),
    ensures
        r.language == restored_setting(stored.language, |v: Seq<char>| language_from(v)),
        r.theme_id == restored_setting(stored.theme, |v: Seq<char>| theme_from(v)),
        r.external_link_behavior == restored_setting(
            stored.external_links,
            |v: Seq<char>| link_behavior_from(v),
        ),
        stored.recent_files is None ==> r.recent_files is None,
        stored.recent_files matches Some(v) ==> r.recent_files matches Some(files) && files@.len()
            <= MAX_RECENT_FILES && forall|k: int|
            0 <= k < files@.len() ==> is_listed_file(lines_spec(v@), recent_is_file@, #[trigger] files@[k]@),
        stored.recent_files matches Some(v) ==> (all_portable(lines_spec(v@)) ==> (
        r.recent_files matches Some(files) && paths_view(files@) == recent_selection(
            lines_spec(v@),
            recent_is_file@,
            lines_spec(v@).len() as int,
        ))),
        match stored.current_file {
            None => r.current_file is None && r.unavailable_current_file is None,
            Some(v) => if v@.len() == 0 {
                r.current_file is None && r.unavailable_current_file is None
            } else if current_is_markdown_file {
                r.current_file == Some(v) && r.unavailable_current_file is None
            } else {
                r.current_file is None && r.unavailable_current_file == Some(v)
            },
        },
{
    let language = match &stored.language {
        Some(v) => language_from_storage_value(v.as_str()),
        None => None,
    };
    let theme_id = match &stored.theme {
        Some(v) => theme_id_from_storage_value(v.as_str()),
        None => None,
    };
    let external_link_behavior = match &stored.external_links {
        Some(v) => ExternalLinkBehavior::from_storage_value(v.as_str()),
        None => None,
    };
    let recent_files = match &stored.recent_files {
        Some(v) => Some(recent_files_from_storage_value(v.as_str(), recent_is_file)),
        None => None,
    };
    let (current_file, unavailable_current_file) = restored_current_file(
        stored.current_file,
        current_is_markdown_file,
    );
    RestoredSession {
        language,
        theme_id,
        external_link_behavior,
        recent_files,
        current_file,
        unavailable_current_file,
    }
}

/// What saving stored restores to what was saved: when the stored values
/// are the ones `session_storage_entries` writes for a language, a theme
/// and a link behaviour, restoring gives back that language, theme and link
/// behaviour.
pub proof fn law_save_then_restore_settings(
    language: Language,
    theme_id: ThemeId,
    behavior: ExternalLinkBehavior,
    stored: StoredSession,
)
    requires
        stored.language matches Some(v) && v@ == language_value(language),
        stored.theme matches Some(v) && v@ == theme_value(theme_id),
        stored.external_links matches Some(v) && v@ == link_behavior_value(behavior),
    ensures
        restored_setting(stored.language, |v: Seq<char>| language_from(v)) == Some(language),
        restored_setting(stored.theme, |v: Seq<char>| theme_from(v)) == Some(theme_id),
        restored_setting(stored.external_links, |v: Seq<char>| link_behavior_from(v)) == Some(
            behavior,
        ),
{
    law_settings_round_trip(language, theme_id, behavior);
}

} // verus!
