//! Syntax highlighting of code blocks: the theme for the background, the
//! styled pieces of each line, and a bounded cache of highlighted code.
use vstd::prelude::*;

use crate::highlight_engine::{
    find_syntax_by_extension, find_syntax_by_name, find_syntax_by_token, find_theme,
    highlight_next_line, load_bundled_syntaxes, load_bundled_themes, new_line_highlighter,
    opt_pieces_view, pieces_view, syntect_extension_syntax, syntect_line_styles,
    syntect_name_syntax, syntect_token_syntax, BundledSyntaxes, BundledThemes, FoundSyntax,
    LOOKUP_EXTENSION, LOOKUP_NAME, LOOKUP_TOKEN,
};
use crate::session::{lemma_newline_from, newline_from};
use crate::svg::Rgba;
use crate::text::{chars_of, str_eq, string_from_chars, trim, trim_spec};

verus! {

/// The highlighting theme: for light or for dark backgrounds.
#[derive(Clone, Copy, Debug, PartialEq, Eq, Hash, Structural)]
pub enum HighlightTheme {
    Light,
    Dark,
}

/// The theme for a dark or a light background.
pub fn highlight_theme(is_dark: bool) -> (r: HighlightTheme)
    ensures
        r == (if is_dark {
            HighlightTheme::Dark
        } else {
            HighlightTheme::Light
        }),
{
    if is_dark {
        HighlightTheme::Dark
    } else {
        HighlightTheme::Light
    }
}

/// The name of the highlighting theme in the default theme set.
pub open spec fn theme_name_spec(theme: HighlightTheme) -> Seq<char> {
    match theme {
        HighlightTheme::Dark => "base16-ocean.dark"@,
        HighlightTheme::Light => "InspiredGitHub"@,
    }
}

/// The name under which the theme set holds `theme`.
pub fn highlight_theme_name(theme: HighlightTheme) -> (r: &'static str)
    ensures
        r@ == theme_name_spec(theme),
{
    match theme {
        HighlightTheme::Dark => "base16-ocean.dark",
        HighlightTheme::Light => "InspiredGitHub",
    }
}

/// A piece of highlighted code and its foreground colour.
pub struct StyledText {
    pub color: Rgba,
    pub text: String,
}

/// The text of the styled pieces, one after the other.
pub open spec fn styled_text_of(pieces: Seq<StyledText>) -> Seq<char>
    decreases pieces.len(),
{
    if pieces.len() == 0 {
        Seq::empty()
    } else {
        styled_text_of(pieces.drop_last()) + pieces.last().text@
    }
}

// ---------------------------------------------------------------------------
// Lines
// ---------------------------------------------------------------------------
/// The lines of `s`, each with its `\n`, and the rest after the last one
/// when it is not empty.
pub open spec fn lines_with_endings(s: Seq<char>) -> Seq<Seq<char>>
    decreases s.len(),
{
    if s.len() == 0 {
        Seq::empty()
    } else {
        match newline_from(s, 0) {
            Some(i) => {
                proof {
                    lemma_newline_from(s, 0);
                }
                seq![s.take(i + 1)] + lines_with_endings(s.skip(i + 1))
            },
            None => seq![s],
        }
    }
}

/// The lines put together one after the other.
pub open spec fn concat_lines(lines: Seq<Seq<char>>) -> Seq<char>
    decreases lines.len(),
{
    if lines.len() == 0 {
        Seq::empty()
    } else {
        lines[0] + concat_lines(lines.drop_first())
    }
}

/// The lines with their endings put together give the text back.
pub proof fn lemma_lines_with_endings_concat(s: Seq<char>)
    ensures
        concat_lines(lines_with_endings(s)) == s,
    decreases s.len(),
{
    if s.len() > 0 {
        lemma_newline_from(s, 0);
        match newline_from(s, 0) {
            Some(i) => {
                lemma_lines_with_endings_concat(s.skip(i + 1));
                let ls = lines_with_endings(s);
                assert(ls[0] == s.take(i + 1));
                assert(ls.drop_first() =~= lines_with_endings(s.skip(i + 1)));
                assert(s.take(i + 1) + s.skip(i + 1) =~= s);
            },
            None => {
                let ls = lines_with_endings(s);
                assert(ls.drop_first() =~= Seq::<Seq<char>>::empty());
                assert(concat_lines(ls.drop_first()) =~= Seq::<char>::empty());
                assert(s + Seq::<char>::empty() =~= s);
            },
        }
    }
}

fn split_lines_with_endings(code: &str) -> (r: Vec<String>)
    ensures
        r@.map_values(|l: String| l@) == lines_with_endings(code@),
{
    let cs = chars_of(code);
    let mut out: Vec<String> = Vec::new();
    let mut start: usize = 0;
    let ghost target = lines_with_endings(code@);
    assert(cs@.skip(0) =~= cs@);
    assert(out@.map_values(|l: String| l@) =~= Seq::<Seq<char>>::empty());
    while start < cs.len()
        invariant
            cs@ == code@,
            start <= cs@.len(),
            target == lines_with_endings(code@),
            out@.map_values(|l: String| l@) + lines_with_endings(cs@.skip(start as int)) == target,
        decreases cs.len() - start,
    {
        let ghost rest = cs@.skip(start as int);
        let mut end = start;
        while end < cs.len() && cs[end] != '\n'
            invariant
                start <= end <= cs@.len(),
                forall|j: int| start <= j < end ==> cs@[j] != '\n',
            decreases cs.len() - end,
        {
            end = end + 1;
        }
        let line_end = if end < cs.len() { end + 1 } else { end };
        let mut piece: Vec<char> = Vec::new();
        let mut k = start;
        while k < line_end
            invariant
                start <= k <= line_end <= cs@.len(),
                piece@ == cs@.subrange(start as int, k as int),
            decreases line_end - k,
        {
            piece.push(cs[k]);
            assert(cs@.subrange(start as int, k + 1) =~= cs@.subrange(start as int, k as int).push(
                cs@[k as int],
            ));
            k = k + 1;
        }
        let ghost before = out@.map_values(|l: String| l@);
        out.push(string_from_chars(piece.as_slice()));
        proof {
            lemma_newline_from(rest, 0);
            if end < cs.len() {
                assert forall|j: int| 0 <= j < end - start implies rest[j] != '\n' by {
                    assert(rest[j] == cs@[start + j]);
                }
                assert(rest[end - start] == '\n');
                lemma_first_newline(rest, (end - start) as int);
                assert(rest.take(end - start + 1) =~= piece@);
                assert(rest.skip(end - start + 1) =~= cs@.skip(end + 1));
            } else {
                assert forall|j: int| 0 <= j < rest.len() implies rest[j] != '\n' by {
                    assert(rest[j] == cs@[start + j]);
                }
                lemma_no_newline(rest);
                assert(rest =~= piece@);
                assert(cs@.skip(end as int) =~= Seq::<char>::empty());
            }
            assert(out@.map_values(|l: String| l@) =~= before.push(piece@));
        }
        start = line_end;
    }
    assert(cs@.skip(start as int) =~= Seq::<char>::empty());
    out
}

proof fn lemma_first_newline(s: Seq<char>, k: int)
    requires
        0 <= k < s.len(),
        s[k] == '\n',
        forall|j: int| 0 <= j < k ==> s[j] != '\n',
    ensures
        newline_from(s, 0) == Some(k),
{
    lemma_newline_from(s, 0);
    match newline_from(s, 0) {
        Some(m) => {
            if m < k {
                assert(s[m] != '\n');
            } else if m > k {
                lemma_newline_between(s, 0, k);
            }
        },
        None => {},
    }
}

proof fn lemma_newline_between(s: Seq<char>, i: int, k: int)
    requires
        0 <= i <= k < s.len(),
        s[k] == '\n',
    ensures
        newline_from(s, i) matches Some(m) && m <= k,
    decreases k - i,
{
    if s[i] != '\n' {
        lemma_newline_between(s, i + 1, k);
    }
}

proof fn lemma_no_newline(s: Seq<char>)
    requires
        forall|j: int| 0 <= j < s.len() ==> s[j] != '\n',
    ensures
        newline_from(s, 0) is None,
{
    lemma_newline_from(s, 0);
}

// ---------------------------------------------------------------------------
// Highlighting with a cache
// ---------------------------------------------------------------------------
/// Most highlighted code blocks kept; a full cache is emptied before the
/// next one is added.
pub const MAX_HIGHLIGHT_CACHE_ENTRIES: usize = 128;

struct HighlightCacheEntry {
    language: String,
    code: String,
    theme: HighlightTheme,
    pieces: Vec<StyledText>,
}

/// A cached highlight: the language, the code, the theme and the pieces.
pub type HighlightEntryV = (Seq<char>, Seq<char>, HighlightTheme, Seq<StyledText>);

/// The syntaxes and themes, and the highlighted code blocks kept so far.
pub struct CodeHighlighter {
    syntaxes: BundledSyntaxes,
    themes: BundledThemes,
    cache: Vec<HighlightCacheEntry>,
}

impl View for CodeHighlighter {
    type V = Seq<HighlightEntryV>;

    closed spec fn view(&self) -> Seq<HighlightEntryV> {
        self.cache@.map_values(
            |e: HighlightCacheEntry| (e.language@, e.code@, e.theme, e.pieces@),
        )
    }
}

/// How highlighting finds the syntax of `language` among the bundled ones:
/// by token, else by file extension, else by name.
pub open spec fn syntax_choice(language: Seq<char>) -> Option<(u8, Seq<char>)> {
    if syntect_token_syntax(language) {
        Some((LOOKUP_TOKEN, language))
    } else if syntect_extension_syntax(language) {
        Some((LOOKUP_EXTENSION, language))
    } else if syntect_name_syntax(language) {
        Some((LOOKUP_NAME, language))
    } else {
        None
    }
}

/// The pieces of the first `n` of `lines`, each line highlighted after the
/// ones before it by one highlighter; none when a line fails.
pub open spec fn styles_of_lines(
    lookup: u8,
    key: Seq<char>,
    theme: Seq<char>,
    lines: Seq<Seq<char>>,
    n: int,
) -> Option<Seq<(u8, u8, u8, u8, Seq<char>)>>
    decreases n,
{
    if n <= 0 {
        Some(Seq::empty())
    } else {
        match styles_of_lines(lookup, key, theme, lines, n - 1) {
            Some(before) => match syntect_line_styles(lookup, key, theme, lines.take(n - 1), lines[n - 1]) {
                Some(p) => Some(before + p),
                None => None,
            },
            None => None,
        }
    }
}

/// The highlighted pieces of `code` in `language` and `theme`: its lines,
/// with their endings, highlighted one after another with the bundled
/// syntax that `language` finds; none when it finds none or a line fails.
pub open spec fn highlighted_code(language: Seq<char>, theme: HighlightTheme, code: Seq<char>) -> Option<
    Seq<(u8, u8, u8, u8, Seq<char>)>,
> {
    match syntax_choice(language) {
        Some(found) => styles_of_lines(
            found.0,
            found.1,
            theme_name_spec(theme),
            lines_with_endings(code),
            lines_with_endings(code).len() as int,
        ),
        None => None,
    }
}

/// A well-formed cache: within its limit, and every entry holds the
/// highlighted pieces of its code, which give the code back.
pub open spec fn highlight_cache_wf(cache: Seq<HighlightEntryV>) -> bool {
    &&& cache.len() <= MAX_HIGHLIGHT_CACHE_ENTRIES
    &&& forall|i: int| 0 <= i < cache.len() ==> styled_text_of((#[trigger] cache[i]).3) == cache[i].1
    &&& forall|i: int|
        0 <= i < cache.len() ==> highlighted_code((#[trigger] cache[i]).0, cache[i].2, cache[i].1)
            == Some(pieces_view(cache[i].3))
}

/// The first cached highlight of `code` in `language` and `theme`.
pub open spec fn cached_highlight(
    cache: Seq<HighlightEntryV>,
    language: Seq<char>,
    code: Seq<char>,
    theme: HighlightTheme,
) -> Option<Seq<StyledText>>
    decreases cache.len(),
{
    if cache.len() == 0 {
        None
    } else if cache[0].0 == language && cache[0].1 == code && cache[0].2 == theme {
        Some(cache[0].3)
    } else {
        cached_highlight(cache.drop_first(), language, code, theme)
    }
}

/// The cache after keeping a new highlight: emptied first when full.
pub open spec fn with_highlight(cache: Seq<HighlightEntryV>, entry: HighlightEntryV) -> Seq<
    HighlightEntryV,
> {
    if cache.len() >= MAX_HIGHLIGHT_CACHE_ENTRIES {
        seq![entry]
    } else {
        cache.push(entry)
    }
}

/// The language of a code block as highlighting uses it: trimmed, and
/// none when blank.
pub open spec fn highlight_language(language: Option<&str>) -> Option<Seq<char>> {
    match language {
        Some(l) => if trim_spec(l@).len() > 0 {
            Some(trim_spec(l@))
        } else {
            None
        },
        None => None,
    }
}

proof fn lemma_cached_highlight_wf(
    cache: Seq<HighlightEntryV>,
    language: Seq<char>,
    code: Seq<char>,
    theme: HighlightTheme,
)
    requires
        forall|i: int| 0 <= i < cache.len() ==> styled_text_of((#[trigger] cache[i]).3) == cache[i].1,
        forall|i: int|
            0 <= i < cache.len() ==> highlighted_code((#[trigger] cache[i]).0, cache[i].2, cache[i].1)
                == Some(pieces_view(cache[i].3)),
    ensures
        cached_highlight(cache, language, code, theme) matches Some(p) ==> styled_text_of(p) == code
            && highlighted_code(language, theme, code) == Some(pieces_view(p)),
    decreases cache.len(),
{
    if cache.len() > 0 {
        assert(styled_text_of(cache[0].3) == cache[0].1);
        assert(highlighted_code(cache[0].0, cache[0].2, cache[0].1) == Some(pieces_view(cache[0].3)));
        let rest = cache.drop_first();
        assert forall|i: int| 0 <= i < rest.len() implies styled_text_of((#[trigger] rest[i]).3)
            == rest[i].1 && highlighted_code(rest[i].0, rest[i].2, rest[i].1) == Some(pieces_view(
            rest[i].3,
        )) by {
            assert(rest[i] == cache[i + 1]);
        }
        lemma_cached_highlight_wf(rest, language, code, theme);
    }
}

proof fn lemma_styled_text_push(pieces: Seq<StyledText>, more: Seq<StyledText>)
    ensures
        styled_text_of(pieces + more) == styled_text_of(pieces) + styled_text_of(more),
    decreases more.len(),
{
    if more.len() == 0 {
        assert(pieces + more =~= pieces);
        assert(styled_text_of(pieces) + Seq::<char>::empty() =~= styled_text_of(pieces));
    } else {
        lemma_styled_text_push(pieces, more.drop_last());
        assert((pieces + more).drop_last() =~= pieces + more.drop_last());
        assert(styled_text_of(pieces) + styled_text_of(more.drop_last()) + more.last().text@
            =~= styled_text_of(pieces) + (styled_text_of(more.drop_last()) + more.last().text@));
    }
}

proof fn lemma_concat_lines_take(lines: Seq<Seq<char>>, i: int)
    requires
        0 <= i < lines.len(),
    ensures
        concat_lines(lines.take(i + 1)) == concat_lines(lines.take(i)) + lines[i],
    decreases i,
{
    if i == 0 {
        assert(lines.take(1).drop_first() =~= Seq::<Seq<char>>::empty());
        assert(lines.take(0) =~= Seq::<Seq<char>>::empty());
        assert(lines[0] + Seq::<char>::empty() =~= lines[0]);
        assert(Seq::<char>::empty() + lines[0] =~= lines[0]);
    } else {
        let d = lines.drop_first();
        lemma_concat_lines_take(d, i - 1);
        assert(lines.take(i + 1).drop_first() =~= d.take(i));
        assert(lines.take(i).drop_first() =~= d.take(i - 1));
        assert(d[i - 1] == lines[i]);
        assert(lines.take(i + 1)[0] == lines[0]);
        assert(lines.take(i)[0] == lines[0]);
        assert(lines[0] + (concat_lines(d.take(i - 1)) + lines[i]) =~= (lines[0] + concat_lines(
            d.take(i - 1),
        )) + lines[i]);
    }
}

proof fn lemma_styles_none_stays(
    lookup: u8,
    key: Seq<char>,
    theme: Seq<char>,
    lines: Seq<Seq<char>>,
    m: int,
    n: int,
)
    requires
        m <= n,
        styles_of_lines(lookup, key, theme, lines, m) is None,
    ensures
        styles_of_lines(lookup, key, theme, lines, n) is None,
    decreases n - m,
{
    if m < n {
        lemma_styles_none_stays(lookup, key, theme, lines, m, n - 1);
    }
}

fn find_syntax<'a>(syntaxes: &'a BundledSyntaxes, language: &str) -> (r: Option<FoundSyntax<'a>>)
    ensures
        match r {
            Some(f) => syntax_choice(language@) == Some(f@),
            None => syntax_choice(language@) is None,
        },
{
    match find_syntax_by_token(syntaxes, language) {
        Some(syntax) => Some(syntax),
        None => match find_syntax_by_extension(syntaxes, language) {
            Some(syntax) => Some(syntax),
            None => find_syntax_by_name(syntaxes, language),
        },
    }
}

impl CodeHighlighter {
    /// Every highlighter's cache is well formed.
    #[verifier::type_invariant]
    spec fn cache_is_wf(self) -> bool {
        highlight_cache_wf(self@)
    }

    /// A highlighter with the bundled syntaxes and themes and an empty
    /// cache.
    pub fn new() -> (r: Self)
        ensures
            r@.len() == 0,
    {
        let r = CodeHighlighter {
            syntaxes: load_bundled_syntaxes(),
            themes: load_bundled_themes(),
            cache: Vec::new(),
        };
        assert(r@ =~= Seq::<HighlightEntryV>::empty());
        r
    }

    fn lookup(&self, language: &str, code: &str, theme: HighlightTheme) -> (r: Option<usize>)
        ensures
            match r {
                Some(i) => i < self@.len() && cached_highlight(self@, language@, code@, theme)
                    == Some(self@[i as int].3),
                None => cached_highlight(self@, language@, code@, theme) is None,
            },
    {
        let ghost c = self@;
        let mut i: usize = 0;
        assert(c.skip(0) =~= c);
        while i < self.cache.len()
            invariant
                c == self@,
                c.len() == self.cache@.len(),
                i <= c.len(),
                cached_highlight(c, language@, code@, theme) == cached_highlight(
                    c.skip(i as int),
                    language@,
                    code@,
                    theme,
                ),
            decreases self.cache.len() - i,
        {
            let entry = &self.cache[i];
            assert(c[i as int] == (entry.language@, entry.code@, entry.theme, entry.pieces@));
            assert(c.skip(i as int)[0] == c[i as int]);
            assert(c.skip(i as int).drop_first() =~= c.skip(i + 1));
            if str_eq(entry.language.as_str(), language) && str_eq(entry.code.as_str(), code)
                && entry.theme == theme {
                return Some(i);
            }
            i = i + 1;
        }
        None
    }

    /// The highlighted pieces of a code block in `language`, for a dark or
    /// a light background: from the cache, or highlighted and then kept.
    /// `None` when the language is blank or unknown, or highlighting fails.
    pub fn highlight_code(&mut self, language: Option<&str>, code: &str, is_dark: bool) -> (r:
        Option<&[StyledText]>)
        ensures
            highlight_cache_wf(final(self)@),
            highlight_language(language) is None ==> r is None && final(self)@ == old(self)@,
            r matches Some(pieces) ==> styled_text_of(pieces@) == code@,
            highlight_language(language) matches Some(l) ==> match r {
                Some(pieces) => highlighted_code(
                    l,
                    if is_dark {
                        HighlightTheme::Dark
                    } else {
                        HighlightTheme::Light
                    },
                    code@,
                ) == Some(pieces_view(pieces@)),
                None => highlighted_code(
                    l,
                    if is_dark {
                        HighlightTheme::Dark
                    } else {
                        HighlightTheme::Light
                    },
                    code@,
                ) is None,
            },
            highlight_language(language) matches Some(l) ==> (cached_highlight(
                old(self)@,
                l,
                code@,
                if is_dark {
                    HighlightTheme::Dark
                } else {
                    HighlightTheme::Light
                },
            ) matches Some(p) ==> r matches Some(pieces) && pieces@ == p && final(self)@ == old(
                self,
            )@),
            highlight_language(language) matches Some(l) ==> (cached_highlight(
                old(self)@,
                l,
                code@,
                if is_dark {
                    HighlightTheme::Dark
                } else {
                    HighlightTheme::Light
                },
            ) is None ==> match r {
                Some(pieces) => final(self)@ == with_highlight(
                    old(self)@,
                    (
                        l,
                        code@,
                        if is_dark {
                            HighlightTheme::Dark
                        } else {
                            HighlightTheme::Light
                        },
                        pieces@,
                    ),
                ),
                None => final(self)@ == old(self)@,
            }),
    {
        proof {
            use_type_invariant(&*self);
        }
        let language = match language {
            Some(l) => trim(l),
            None => return None,
        };
        if language.is_empty() {
            return None;
        }
        let theme = highlight_theme(is_dark);
        proof {
            lemma_cached_highlight_wf(self@, language@, code@, theme);
        }
        if let Some(i) = self.lookup(language, code, theme) {
            assert(self@[i as int].3 == self.cache@[i as int].pieces@);
            return Some(self.cache[i].pieces.as_slice());
        }
        let pieces = match self.highlight_uncached(language, code, theme) {
            Some(pieces) => pieces,
            None => return None,
        };
        let ghost old_cache = self@;
        let ghost entry = (language@, code@, theme, pieces@);
        let mut cache: Vec<HighlightCacheEntry> = Vec::new();
        std::mem::swap(&mut cache, &mut self.cache);
        if cache.len() >= MAX_HIGHLIGHT_CACHE_ENTRIES {
            cache.clear();
        }
        cache.push(
            HighlightCacheEntry {
                language: crate::text::to_owned_string(language),
                code: crate::text::to_owned_string(code),
                theme,
                pieces,
            },
        );
        proof {
            let c2 = cache@.map_values(
                |e: HighlightCacheEntry| (e.language@, e.code@, e.theme, e.pieces@),
            );
            assert(c2 =~= with_highlight(old_cache, entry));
            law_highlight_store_then_lookup(old_cache, entry);
        }
        self.cache = cache;
        assert(self@ =~= with_highlight(old_cache, entry));
        let last = self.cache.len() - 1;
        assert(self@[last as int] == entry);
        Some(self.cache[last].pieces.as_slice())
    }

    fn highlight_uncached(&self, language: &str, code: &str, theme: HighlightTheme) -> (r: Option<
        Vec<StyledText>,
    >)
        ensures
            r matches Some(pieces) ==> styled_text_of(pieces@) == code@,
            opt_pieces_view(r) == highlighted_code(language@, theme, code@),
    {
        let syntax = match find_syntax(&self.syntaxes, language) {
            Some(syntax) => syntax,
            None => return None,
        };
        let syntect_theme = match find_theme(&self.themes, highlight_theme_name(theme)) {
            Some(t) => t,
            None => return None,
        };
        let mut highlighter = new_line_highlighter(&syntax, &syntect_theme);
        let lines = split_lines_with_endings(code);
        let ghost lv = lines@.map_values(|l: String| l@);
        let ghost found = syntax@;
        let ghost tname = theme_name_spec(theme);
        let mut pieces: Vec<StyledText> = Vec::new();
        let mut i: usize = 0;
        assert(lv.take(0) =~= Seq::<Seq<char>>::empty());
        assert(pieces_view(pieces@) =~= Seq::<(u8, u8, u8, u8, Seq<char>)>::empty());
        while i < lines.len()
            invariant
                lv == lines@.map_values(|l: String| l@),
                lv == lines_with_endings(code@),
                i <= lines@.len(),
                styled_text_of(pieces@) == concat_lines(lv.take(i as int)),
                highlighter@ == (found.0, found.1, tname, lv.take(i as int)),
                syntax_choice(language@) == Some(found),
                tname == theme_name_spec(theme),
                styles_of_lines(found.0, found.1, tname, lv, i as int) == Some(pieces_view(pieces@)),
            decreases lines.len() - i,
        {
            let line_pieces = match highlight_next_line(&mut highlighter, lines[i].as_str(), &self.syntaxes) {
                Some(p) => p,
                None => {
                    proof {
                        assert(lv[i as int] == lines@[i as int]@);
                        assert(syntect_line_styles(found.0, found.1, tname, lv.take(i as int), lv[i as int]) is None);
                        assert(styles_of_lines(found.0, found.1, tname, lv, i + 1) is None);
                        lemma_styles_none_stays(found.0, found.1, tname, lv, i + 1, lv.len() as int);
                        assert(highlighted_code(language@, theme, code@) == styles_of_lines(found.0, found.1, tname, lv, lv.len() as int));
                    }
                    return None;
                },
            };
            proof {
                lemma_styled_text_push(pieces@, line_pieces@);
                lemma_concat_lines_take(lv, i as int);
                assert(lv[i as int] == lines@[i as int]@);
                assert(lv.take(i as int).push(lv[i as int]) =~= lv.take(i + 1));
                assert(pieces_view(pieces@ + line_pieces@) =~= pieces_view(pieces@) + pieces_view(
                    line_pieces@,
                ));
            }
            let mut line_pieces = line_pieces;
            pieces.append(&mut line_pieces);
            i = i + 1;
        }
        proof {
            assert(lv.take(i as int) =~= lv);
            lemma_lines_with_endings_concat(code@);
        }
        Some(pieces)
    }
}

/// Keeping a highlight that the cache did not hold keeps the cache well
/// formed when the pieces give back the code, and the highlight is then
/// what a lookup finds.
pub proof fn law_highlight_store_then_lookup(cache: Seq<HighlightEntryV>, entry: HighlightEntryV)
    requires
        highlight_cache_wf(cache),
        styled_text_of(entry.3) == entry.1,
        highlighted_code(entry.0, entry.2, entry.1) == Some(pieces_view(entry.3)),
        cached_highlight(cache, entry.0, entry.1, entry.2) is None,
    ensures
        highlight_cache_wf(with_highlight(cache, entry)),
        cached_highlight(with_highlight(cache, entry), entry.0, entry.1, entry.2) == Some(entry.3),
{
    let c2 = with_highlight(cache, entry);
    if cache.len() >= MAX_HIGHLIGHT_CACHE_ENTRIES {
        assert(c2.drop_first() =~= Seq::<HighlightEntryV>::empty());
    } else {
        assert forall|i: int| 0 <= i < c2.len() implies styled_text_of((#[trigger] c2[i]).3)
            == c2[i].1 && highlighted_code(c2[i].0, c2[i].2, c2[i].1) == Some(pieces_view(c2[i].3)) by {
            if i < cache.len() {
                assert(c2[i] == cache[i]);
            }
        }
        lemma_cached_highlight_push_missing(cache, entry);
    }
}

proof fn lemma_cached_highlight_push_missing(cache: Seq<HighlightEntryV>, entry: HighlightEntryV)
    requires
        cached_highlight(cache, entry.0, entry.1, entry.2) is None,
    ensures
        cached_highlight(cache.push(entry), entry.0, entry.1, entry.2) == Some(entry.3),
    decreases cache.len(),
{
    if cache.len() == 0 {
        assert(cache.push(entry)[0] == entry);
    } else {
        assert(cache.push(entry)[0] == cache[0]);
        assert(cache.push(entry).drop_first() =~= cache.drop_first().push(entry));
        lemma_cached_highlight_push_missing(cache.drop_first(), entry);
    }
}

} // verus!
