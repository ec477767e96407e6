//! The syntaxes and themes bundled with syntect, and highlighting with them
//! line by line. Every value of this module is made from the bundled sets
//! alone, and each remembers how it was made (which syntax, which theme,
//! which lines so far), so that what syntect returns can be named by plain
//! values.
use vstd::prelude::*;

use syntect::easy::HighlightLines;
use syntect::highlighting::Theme as SyntectTheme;
use syntect::highlighting::ThemeSet;
use syntect::parsing::{SyntaxReference, SyntaxSet};

use crate::svg::Rgba;
use crate::syntax::{styled_text_of, StyledText};

verus! {

#[verifier::external_type_specification]
#[verifier::external_body]
pub struct ExSyntaxSet(SyntaxSet);

#[verifier::external_type_specification]
#[verifier::external_body]
pub struct ExThemeSet(ThemeSet);

#[verifier::external_type_specification]
#[verifier::external_body]
pub struct ExSyntaxReference(SyntaxReference);

#[verifier::external_type_specification]
#[verifier::external_body]
pub struct ExSyntectTheme(SyntectTheme);

#[verifier::external_type_specification]
#[verifier::external_body]
pub struct ExHighlightLines<'a>(HighlightLines<'a>);

/// A syntax found by a language's token.
pub const LOOKUP_TOKEN: u8 = 0;

/// A syntax found by a file extension.
pub const LOOKUP_EXTENSION: u8 = 1;

/// A syntax found by its name.
pub const LOOKUP_NAME: u8 = 2;

/// Whether the bundled syntaxes have one for the token `token`.
pub uninterp spec fn syntect_token_syntax(token: Seq<char>) -> bool;

/// Whether the bundled syntaxes have one for the file extension `extension`.
pub uninterp spec fn syntect_extension_syntax(extension: Seq<char>) -> bool;

/// Whether the bundled syntaxes have one named `name`.
pub uninterp spec fn syntect_name_syntax(name: Seq<char>) -> bool;

/// What syntect gives for `line` when a highlighter for the bundled syntax
/// found by `lookup` and `key`, in the bundled theme `theme`, has already
/// been given the lines `earlier`: each piece's foreground colour and text,
/// or none when it fails.
pub uninterp spec fn syntect_line_styles(
    lookup: u8,
    key: Seq<char>,
    theme: Seq<char>,
    earlier: Seq<Seq<char>>,
    line: Seq<char>,
) -> Option<Seq<(u8, u8, u8, u8, Seq<char>)>>;

/// A styled piece as plain values: its colour's channels and its text.
pub open spec fn styled_view(piece: StyledText) -> (u8, u8, u8, u8, Seq<char>) {
    (piece.color.r, piece.color.g, piece.color.b, piece.color.a, piece.text@)
}

/// Styled pieces as plain values.
pub open spec fn pieces_view(pieces: Seq<StyledText>) -> Seq<(u8, u8, u8, u8, Seq<char>)> {
    pieces.map_values(|p: StyledText| styled_view(p))
}

/// Optional styled pieces as plain values.
pub open spec fn opt_pieces_view(pieces: Option<Vec<StyledText>>) -> Option<
    Seq<(u8, u8, u8, u8, Seq<char>)>,
> {
    match pieces {
        Some(p) => Some(pieces_view(p@)),
        None => None,
    }
}

/// The syntaxes bundled with syntect (`SyntaxSet::load_defaults_newlines`);
/// no other set can be made.
pub struct BundledSyntaxes {
    set: SyntaxSet,
}

/// The themes bundled with syntect (`ThemeSet::load_defaults`); no other set
/// can be made.
pub struct BundledThemes {
    set: ThemeSet,
}

/// A syntax of the bundled set, with how it was found.
pub struct FoundSyntax<'a> {
    syntax: &'a SyntaxReference,
    lookup: u8,
    key: String,
}

impl<'a> View for FoundSyntax<'a> {
    type V = (u8, Seq<char>);

    closed spec fn view(&self) -> (u8, Seq<char>) {
        (self.lookup, self.key@)
    }
}

/// A theme of the bundled set, with its name.
pub struct FoundTheme<'a> {
    theme: &'a SyntectTheme,
    name: String,
}

impl<'a> View for FoundTheme<'a> {
    type V = Seq<char>;

    closed spec fn view(&self) -> Seq<char> {
        self.name@
    }
}

/// A syntect highlighter, with the syntax and theme it was made for and the
/// lines it has been given so far.
pub struct LineHighlighter<'a> {
    inner: HighlightLines<'a>,
    lookup: u8,
    key: String,
    theme: String,
    fed: Vec<String>,
}

impl<'a> View for LineHighlighter<'a> {
    type V = (u8, Seq<char>, Seq<char>, Seq<Seq<char>>);

    closed spec fn view(&self) -> (u8, Seq<char>, Seq<char>, Seq<Seq<char>>) {
        (self.lookup, self.key@, self.theme@, self.fed@.map_values(|l: String| l@))
    }
}

/// `SyntaxSet::load_defaults_newlines`: the syntaxes bundled with syntect.
#[verifier::external_body]
pub(crate) fn load_bundled_syntaxes() -> (r: BundledSyntaxes) {
    BundledSyntaxes { set: SyntaxSet::load_defaults_newlines() }
}

/// `ThemeSet::load_defaults`: the themes bundled with syntect.
#[verifier::external_body]
pub(crate) fn load_bundled_themes() -> (r: BundledThemes) {
    BundledThemes { set: ThemeSet::load_defaults() }
}

/// `SyntaxSet::find_syntax_by_token` on the bundled syntaxes. Trusted: it
/// finds one just when the bundled set has one for the token, which is a
/// fact of the token alone; the syntax is remembered as found by token.
#[verifier::external_body]
pub(crate) fn find_syntax_by_token<'a>(syntaxes: &'a BundledSyntaxes, token: &str) -> (r: Option<
    FoundSyntax<'a>,
>)
    ensures
        (r is Some) == syntect_token_syntax(token@),
        r matches Some(f) ==> f@ == (LOOKUP_TOKEN, token@),
{
    syntaxes.set.find_syntax_by_token(token).map(
        |syntax| FoundSyntax { syntax, lookup: LOOKUP_TOKEN, key: token.to_owned() },
    )
}

/// `SyntaxSet::find_syntax_by_extension` on the bundled syntaxes. Trusted:
/// it finds one just when the bundled set has one for the extension; the
/// syntax is remembered as found by extension.
#[verifier::external_body]
pub(crate) fn find_syntax_by_extension<'a>(syntaxes: &'a BundledSyntaxes, extension: &str) -> (r:
    Option<FoundSyntax<'a>>)
    ensures
        (r is Some) == syntect_extension_syntax(extension@),
        r matches Some(f) ==> f@ == (LOOKUP_EXTENSION, extension@),
{
    syntaxes.set.find_syntax_by_extension(extension).map(
        |syntax| FoundSyntax { syntax, lookup: LOOKUP_EXTENSION, key: extension.to_owned() },
    )
}

/// `SyntaxSet::find_syntax_by_name` on the bundled syntaxes. Trusted: it
/// finds one just when the bundled set has one of that name; the syntax is
/// remembered as found by name.
#[verifier::external_body]
pub(crate) fn find_syntax_by_name<'a>(syntaxes: &'a BundledSyntaxes, name: &str) -> (r: Option<
    FoundSyntax<'a>,
>)
    ensures
        (r is Some) == syntect_name_syntax(name@),
        r matches Some(f) ==> f@ == (LOOKUP_NAME, name@),
{
    syntaxes.set.find_syntax_by_name(name).map(
        |syntax| FoundSyntax { syntax, lookup: LOOKUP_NAME, key: name.to_owned() },
    )
}

/// The bundled theme of that name (`ThemeSet::themes`, a map by name).
/// Trusted, as `ThemeSet::load_defaults` documents: `base16-ocean.dark` and
/// `InspiredGitHub` are among the bundled themes; a theme found is
/// remembered by its name.
#[verifier::external_body]
pub(crate) fn find_theme<'a>(themes: &'a BundledThemes, name: &str) -> (r: Option<FoundTheme<'a>>)
    ensures
        name@ == "base16-ocean.dark"@ || name@ == "InspiredGitHub"@ ==> r is Some,
        r matches Some(t) ==> t@ == name@,
{
    themes.set.themes.get(name).map(|theme| FoundTheme { theme, name: name.to_owned() })
}

/// `HighlightLines::new`: a highlighter for a syntax and a theme that has
/// been given no line yet.
#[verifier::external_body]
pub(crate) fn new_line_highlighter<'a>(syntax: &FoundSyntax, theme: &FoundTheme<'a>) -> (r:
    LineHighlighter<'a>)
    ensures
        r@ == (syntax@.0, syntax@.1, theme@, Seq::<Seq<char>>::empty()),
{
    LineHighlighter {
        inner: HighlightLines::new(syntax.syntax, theme.theme),
        lookup: syntax.lookup,
        key: syntax.key.clone(),
        theme: theme.name.clone(),
        fed: Vec::new(),
    }
}

/// `HighlightLines::highlight_line` on the bundled syntaxes, each style
/// given by its foreground colour. Trusted: the result is syntect's for
/// this syntax, theme and earlier lines (named, not stated), and, as
/// syntect's source shows, the pieces' texts put together give the line; a
/// parse error gives `None`. The line is then among the lines given.
#[verifier::external_body]
pub(crate) fn highlight_next_line(
    highlighter: &mut LineHighlighter,
    line: &str,
    syntaxes: &BundledSyntaxes,
) -> (r: Option<Vec<StyledText>>)
    ensures
        opt_pieces_view(r) == syntect_line_styles(
            old(highlighter)@.0,
            old(highlighter)@.1,
            old(highlighter)@.2,
            old(highlighter)@.3,
            line@,
        ),
        r matches Some(pieces) ==> styled_text_of(pieces@) == line@,
        final(highlighter)@ == (
            old(highlighter)@.0,
            old(highlighter)@.1,
            old(highlighter)@.2,
            old(highlighter)@.3.push(line@),
        ),
{
    let ranges = highlighter.inner.highlight_line(line, &syntaxes.set).ok();
    highlighter.fed.push(line.to_owned());
    Some(ranges?.into_iter().map(|(style, text)| StyledText {
        color: Rgba { r: style.foreground.r, g: style.foreground.g, b: style.foreground.b, a: style.foreground.a },
        text: text.to_owned(),
    }).collect())
}

} // verus!
