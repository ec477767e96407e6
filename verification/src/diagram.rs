//! Mermaid diagrams: the check made before a diagram is rendered (a line
//! that ends in an arrow with nothing after it is refused), the call of the
//! renderer in the viewer's colours, and the naming of the result.
use vstd::prelude::*;

use mermaid_rs_renderer::Theme as MermaidTheme;

use crate::search::{first_occurrence, lemma_first_occurrence_found, lemma_first_occurrence_none};
use crate::session::{ascii_lower, lines_spec, paths_view, storage_lines};
use crate::render_jobs::{key_view, RenderKey};
use crate::svg::{
    apply_current_color, apply_current_color_spec, color_hash, color_hash_spec, color_hex_spec,
    color_to_hex, fnv1a_spec, hex_digits, svg_parse_error, svg_uri_hash, usvg_parse_error, Rgba,
};
use crate::text::{
    chars_of, extend_chars, find_from, is_white_space, is_whitespace_char, starts_with,
    string_from_chars, to_owned_string, trim, trim_spec,
};

verus! {

broadcast use vstd::string::group_string_axioms;

/// The message for a diagram with an incomplete arrow.
pub const INCOMPLETE_ARROW_MESSAGE: &'static str = "Mermaid diagram has an incomplete arrow.";

/// A line without its `%%` comment.
pub open spec fn comment_free(line: Seq<char>) -> Seq<char> {
    match first_occurrence(line, seq!['%', '%'], 0) {
        Some(i) => line.take(i),
        None => line,
    }
}

/// The characters an arrow operator is made of.
pub open spec fn is_arrow_char(c: char) -> bool {
    c == '<' || c == '>' || c == '-' || c == '.' || c == '=' || c == 'o' || c == 'x'
}

/// The last white-space separated word of `s`.
pub open spec fn last_word(s: Seq<char>) -> Seq<char>
    decreases s.len(),
{
    if s.len() == 0 || is_white_space(s.last()) {
        Seq::empty()
    } else {
        last_word(s.drop_last()).push(s.last())
    }
}

/// A line ends in an arrow operator: its last word is at least two arrow
/// characters, among them a `-` or a `=`.
pub open spec fn dangling_arrow(line: Seq<char>) -> bool {
    let w = last_word(trim_spec(line));
    &&& w.len() >= 2
    &&& forall|i: int| 0 <= i < w.len() ==> is_arrow_char(#[trigger] w[i])
    &&& exists|i: int| 0 <= i < w.len() && (#[trigger] w[i] == '-' || w[i] == '=')
}

/// A line is a diagram header: after ASCII-lowercasing it starts with
/// `flowchart ` or `graph `, or it is `sequencediagram`, `classdiagram` or
/// `statediagram-v2`.
pub open spec fn is_header_spec(line: Seq<char>) -> bool {
    let lower = line.map_values(|c: char| ascii_lower(c));
    ||| starts_with(lower, seq!['f', 'l', 'o', 'w', 'c', 'h', 'a', 'r', 't', ' '])
    ||| starts_with(lower, seq!['g', 'r', 'a', 'p', 'h', ' '])
    ||| lower == seq!['s', 'e', 'q', 'u', 'e', 'n', 'c', 'e', 'd', 'i', 'a', 'g', 'r', 'a', 'm']
    ||| lower == seq!['c', 'l', 'a', 's', 's', 'd', 'i', 'a', 'g', 'r', 'a', 'm']
    ||| lower == seq!['s', 't', 'a', 't', 'e', 'd', 'i', 'a', 'g', 'r', 'a', 'm', '-', 'v', '2']
}

/// A line of a diagram that ends in an incomplete arrow: what is left of it
/// without its comment and surrounding white space is not empty, not a
/// header, and ends in an arrow operator.
pub open spec fn line_is_broken(line: Seq<char>) -> bool {
    let t = trim_spec(comment_free(line));
    t.len() > 0 && !is_header_spec(t) && dangling_arrow(t)
}

/// A diagram source none of whose lines ends in an incomplete arrow.
pub open spec fn diagram_source_ok(source: Seq<char>) -> bool {
    forall|i: int| 0 <= i < lines_spec(source).len() ==> !line_is_broken(#[trigger] lines_spec(source)[i])
}

/// Whether `character` can be part of an arrow operator.
pub fn is_arrow_operator_char(character: char) -> (r: bool)
    ensures
        r == is_arrow_char(character),
{
    character == '<' || character == '>' || character == '-' || character == '.' || character
        == '=' || character == 'o' || character == 'x'
}

/// `line` up to its first `%%`.
pub fn strip_mermaid_comment(line: &str) -> (r: &str)
    ensures
        r@ == comment_free(line@),
{
    let chars = chars_of(line);
    let mut marker: Vec<char> = Vec::new();
    marker.push('%');
    marker.push('%');
    assert(marker@ =~= seq!['%', '%']);
    match find_from(&chars, &marker, 0) {
        Some(i) => {
            proof {
                lemma_first_occurrence_found(chars@, marker@, 0, i as int);
            }
            line.substring_char(0, i)
        },
        None => {
            proof {
                lemma_first_occurrence_none(chars@, marker@, 0);
            }
            line
        },
    }
}

fn ascii_lowercase_chars(chars: &Vec<char>) -> (r: Vec<char>)
    ensures
        r@ == chars@.map_values(|c: char| ascii_lower(c)),
{
    let mut out: Vec<char> = Vec::new();
    let mut i: usize = 0;
    while i < chars.len()
        invariant
            i <= chars@.len(),
            out@ == chars@.take(i as int).map_values(|c: char| ascii_lower(c)),
        decreases chars.len() - i,
    {
        let c = chars[i];
        let lower = if 'A' <= c && c <= 'Z' {
            char_from_code(c as u32 + 32)
        } else {
            c
        };
        out.push(lower);
        assert(out@ =~= chars@.take(i + 1).map_values(|c: char| ascii_lower(c)));
        i = i + 1;
    }
    assert(chars@.take(i as int) =~= chars@);
    out
}

fn char_from_code(u: u32) -> (r: char)
    requires
        97 <= u <= 122,
    ensures
        r as u32 == u,
{
    let b = u as u8;
    b as char
}

fn chars_start_with(chars: &Vec<char>, prefix: &str) -> (r: bool)
    ensures
        r == starts_with(chars@, prefix@),
{
    let p = chars_of(prefix);
    if p.len() > chars.len() {
        return false;
    }
    let mut i: usize = 0;
    while i < p.len()
        invariant
            p@ == prefix@,
            p@.len() <= chars@.len(),
            i <= p@.len(),
            forall|k: int| 0 <= k < i ==> chars@[k] == p@[k],
        decreases p.len() - i,
    {
        if chars[i] != p[i] {
            assert(chars@.subrange(0, p@.len() as int)[i as int] != p@[i as int]);
            return false;
        }
        i = i + 1;
    }
    assert(chars@.subrange(0, p@.len() as int) =~= p@);
    true
}

fn chars_equal(chars: &Vec<char>, other: &str) -> (r: bool)
    ensures
        r == (chars@ == other@),
{
    let o = chars_of(other);
    if o.len() != chars.len() {
        return false;
    }
    let mut i: usize = 0;
    while i < o.len()
        invariant
            o@ == other@,
            o@.len() == chars@.len(),
            i <= o@.len(),
            forall|k: int| 0 <= k < i ==> chars@[k] == o@[k],
        decreases o.len() - i,
    {
        if chars[i] != o[i] {
            return false;
        }
        i = i + 1;
    }
    assert(chars@ =~= o@);
    true
}

/// Whether `line` is a diagram header line.
pub fn is_mermaid_header(line: &str) -> (r: bool)
    ensures
        r == is_header_spec(line@),
{
    let chars = chars_of(line);
    let lower = ascii_lowercase_chars(&chars);
    proof {
        reveal_strlit("flowchart ");
        reveal_strlit("graph ");
        reveal_strlit("sequencediagram");
        reveal_strlit("classdiagram");
        reveal_strlit("statediagram-v2");
        assert("flowchart "@ =~= seq!['f', 'l', 'o', 'w', 'c', 'h', 'a', 'r', 't', ' ']);
        assert("graph "@ =~= seq!['g', 'r', 'a', 'p', 'h', ' ']);
        assert("sequencediagram"@ =~= seq![
            's',
            'e',
            'q',
            'u',
            'e',
            'n',
            'c',
            'e',
            'd',
            'i',
            'a',
            'g',
            'r',
            'a',
            'm',
        ]);
        assert("classdiagram"@ =~= seq!['c', 'l', 'a', 's', 's', 'd', 'i', 'a', 'g', 'r', 'a', 'm']);
        assert("statediagram-v2"@ =~= seq![
            's',
            't',
            'a',
            't',
            'e',
            'd',
            'i',
            'a',
            'g',
            'r',
            'a',
            'm',
            '-',
            'v',
            '2',
        ]);
    }
    chars_start_with(&lower, "flowchart ") || chars_start_with(&lower, "graph ") || chars_equal(
        &lower,
        "sequencediagram",
    ) || chars_equal(&lower, "classdiagram") || chars_equal(&lower, "statediagram-v2")
}

/// Whether `line` ends in an arrow operator with nothing after it.
pub fn has_dangling_arrow_operator(line: &str) -> (r: bool)
    ensures
        r == dangling_arrow(line@),
{
    let trimmed = trim(line);
    let cs = chars_of(trimmed);
    let n = cs.len();
    let mut j: usize = n;
    assert(cs@.take(n as int) =~= cs@);
    assert(cs@.subrange(n as int, n as int) =~= Seq::<char>::empty());
    while j > 0 && !is_whitespace_char(cs[j - 1])
        invariant
            j <= n,
            n == cs@.len(),
            last_word(cs@) == last_word(cs@.take(j as int)) + cs@.subrange(j as int, n as int),
        decreases j,
    {
        assert(cs@.take(j as int).drop_last() =~= cs@.take(j - 1));
        assert(cs@.subrange(j - 1, n as int) =~= seq![cs@[j - 1]] + cs@.subrange(j as int, n as int));
        j = j - 1;
    }
    let ghost w = cs@.subrange(j as int, n as int);
    assert(last_word(cs@) == w);
    if n - j < 2 {
        return false;
    }
    let mut all_arrow = true;
    let mut has_line = false;
    let mut k: usize = j;
    while k < n
        invariant
            j <= k <= n,
            n == cs@.len(),
            w == cs@.subrange(j as int, n as int),
            all_arrow == (forall|i: int| 0 <= i < k - j ==> is_arrow_char(#[trigger] w[i])),
            has_line == (exists|i: int| 0 <= i < k - j && (#[trigger] w[i] == '-' || w[i] == '=')),
        decreases n - k,
    {
        let c = cs[k];
        assert(w[k - j] == c);
        if !is_arrow_operator_char(c) {
            all_arrow = false;
        }
        if c == '-' || c == '=' {
            has_line = true;
        }
        k = k + 1;
    }
    all_arrow && has_line
}

/// Whether a line of a diagram ends in an incomplete arrow.
fn line_is_broken_exec(line: &str) -> (r: bool)
    ensures
        r == line_is_broken(line@),
{
    let trimmed = trim(strip_mermaid_comment(line));
    if trimmed.is_empty() || is_mermaid_header(trimmed) {
        return false;
    }
    has_dangling_arrow_operator(trimmed)
}

/// Accepts a diagram source unless one of its lines ends in an arrow with
/// nothing after it.
pub fn validate_diagram_source(source: &str) -> (r: Result<(), String>)
    ensures
        r is Ok <==> diagram_source_ok(source@),
        r matches Err(message) ==> message@ == INCOMPLETE_ARROW_MESSAGE@,
{
    let lines = storage_lines(source);
    let ghost ls = lines_spec(source@);
    let mut i: usize = 0;
    while i < lines.len()
        invariant
            paths_view(lines@) == ls,
            ls == lines_spec(source@),
            i <= lines@.len(),
            forall|k: int| 0 <= k < i ==> !line_is_broken(#[trigger] ls[k]),
        decreases lines.len() - i,
    {
        assert(ls[i as int] == lines@[i as int]@);
        if line_is_broken_exec(lines[i].as_str()) {
            return Err(to_owned_string(INCOMPLETE_ARROW_MESSAGE));
        }
        i = i + 1;
    }
    Ok(())
}

/// The name of a rendered diagram image: its text and background colours
/// and the hash of its source.
pub open spec fn diagram_uri_spec(text: Rgba, background: Rgba, source: Seq<char>) -> Seq<char> {
    "bytes://diagram-"@ + color_hash_spec(text) + seq!['-'] + color_hash_spec(background) + seq![
        '-',
    ] + hex_digits(fnv1a_spec(vstd::utf8::encode_utf8(source)) as nat, 16) + ".svg"@
}

/// The name of the image of the diagram `source` drawn in these colours.
pub fn diagram_svg_uri(text: Rgba, background: Rgba, source: &str) -> (r: String)
    ensures
        r@ == diagram_uri_spec(text, background, source@),
{
    proof {
        reveal_strlit("-");
        assert("-"@ =~= seq!['-']);
    }
    let mut out: Vec<char> = Vec::new();
    extend_chars(&mut out, "bytes://diagram-");
    extend_chars(&mut out, color_hash(text).as_str());
    extend_chars(&mut out, "-");
    extend_chars(&mut out, color_hash(background).as_str());
    extend_chars(&mut out, "-");
    extend_chars(&mut out, svg_uri_hash(source).as_str());
    extend_chars(&mut out, ".svg");
    assert(out@ =~= diagram_uri_spec(text, background, source@));
    string_from_chars(out.as_slice())
}

/// A rendered diagram: the name of its image, the SVG in its text colour,
/// and its source for copying.
pub struct DiagramSvg {
    pub uri: String,
    pub svg: String,
    pub source: String,
}

/// What showing a diagram gives for a render result: a refused source's
/// message, the renderer's message, or the coloured SVG under its name.
pub open spec fn prepared_diagram_spec(
    source: Seq<char>,
    text: Rgba,
    background: Rgba,
    rendered: Result<Seq<char>, Seq<char>>,
) -> Result<(Seq<char>, Seq<char>), Seq<char>> {
    if !diagram_source_ok(source) {
        Err(INCOMPLETE_ARROW_MESSAGE@)
    } else {
        match rendered {
            Ok(svg) => {
                let colored = apply_current_color_spec(svg, text);
                match usvg_parse_error(colored) {
                    Some(e) => Err(e),
                    None => Ok((diagram_uri_spec(text, background, source), colored)),
                }
            },
            Err(message) => Err(message),
        }
    }
}

/// The render result as character sequences.
pub open spec fn render_view(rendered: Result<String, String>) -> Result<Seq<char>, Seq<char>> {
    match rendered {
        Ok(svg) => Ok(svg@),
        Err(m) => Err(m@),
    }
}

/// `r` is the diagram that `source` gives in these colours when the
/// renderer made `rendered` of it.
pub open spec fn diagram_prepared_as(
    r: Result<DiagramSvg, String>,
    source: Seq<char>,
    text: Rgba,
    background: Rgba,
    rendered: Result<Seq<char>, Seq<char>>,
) -> bool {
    match r {
        Ok(d) => {
            &&& d.source@ == source
            &&& prepared_diagram_spec(source, text, background, rendered) == Ok::<
                (Seq<char>, Seq<char>),
                Seq<char>,
            >((d.uri@, d.svg@))
        },
        Err(message) => prepared_diagram_spec(source, text, background, rendered) == Err::<
            (Seq<char>, Seq<char>),
            Seq<char>,
        >(message@),
    }
}

/// The diagram for `source` given what the renderer made of it: checked
/// first, then coloured, refused when usvg cannot read the SVG, and named.
pub fn diagram_from_render(
    source: &str,
    text: Rgba,
    background: Rgba,
    rendered: Result<String, String>,
) -> (r: Result<DiagramSvg, String>)
    ensures
        diagram_prepared_as(r, source@, text, background, render_view(rendered)),
{
    if let Err(error) = validate_diagram_source(source) {
        return Err(error);
    }
    match rendered {
        Ok(svg) => {
            let colored = apply_current_color(svg.as_str(), text);
            if let Some(error) = svg_parse_error(colored.as_str()) {
                return Err(error);
            }
            Ok(
                DiagramSvg {
                    uri: diagram_svg_uri(text, background, source),
                    svg: colored,
                    source: to_owned_string(source),
                },
            )
        },
        Err(error) => Err(error),
    }
}

#[verifier::external_type_specification]
#[verifier::external_body]
pub struct ExMermaidTheme(MermaidTheme);

/// `mermaid_rs_renderer::Theme::modern`, the renderer's modern theme.
/// Trusted, with nothing claimed of the theme.
#[verifier::external_body]
fn mermaid_modern_theme() -> (r: MermaidTheme) {
    MermaidTheme::modern()
}

/// The colours the diagram renderer's theme is given, one per theme field
/// that the viewer sets, each as `#rrggbb`.
pub struct MermaidThemeColors {
    pub background: String,
    pub primary_color: String,
    pub secondary_color: String,
    pub tertiary_color: String,
    pub edge_label_background: String,
    pub cluster_background: String,
    pub sequence_actor_fill: String,
    pub sequence_note_fill: String,
    pub sequence_activation_fill: String,
    pub primary_text_color: String,
    pub text_color: String,
    pub pie_title_text_color: String,
    pub pie_section_text_color: String,
    pub pie_legend_text_color: String,
    pub primary_border_color: String,
    pub line_color: String,
    pub cluster_border: String,
    pub sequence_actor_border: String,
    pub sequence_actor_line: String,
    pub sequence_note_border: String,
    pub sequence_activation_border: String,
    pub pie_stroke_color: String,
    pub pie_outer_stroke_color: String,
}

/// The viewer's rule for the renderer's theme: every fill (background,
/// node, edge label, cluster and sequence fills) in the background colour,
/// every text, border, line and stroke in the text colour.
pub open spec fn mermaid_colors_are(c: MermaidThemeColors, text: Seq<char>, background: Seq<char>) -> bool {
    &&& c.background@ == background
    &&& c.primary_color@ == background
    &&& c.secondary_color@ == background
    &&& c.tertiary_color@ == background
    &&& c.edge_label_background@ == background
    &&& c.cluster_background@ == background
    &&& c.sequence_actor_fill@ == background
    &&& c.sequence_note_fill@ == background
    &&& c.sequence_activation_fill@ == background
    &&& c.primary_text_color@ == text
    &&& c.text_color@ == text
    &&& c.pie_title_text_color@ == text
    &&& c.pie_section_text_color@ == text
    &&& c.pie_legend_text_color@ == text
    &&& c.primary_border_color@ == text
    &&& c.line_color@ == text
    &&& c.cluster_border@ == text
    &&& c.sequence_actor_border@ == text
    &&& c.sequence_actor_line@ == text
    &&& c.sequence_note_border@ == text
    &&& c.sequence_activation_border@ == text
    &&& c.pie_stroke_color@ == text
    &&& c.pie_outer_stroke_color@ == text
}

/// The theme colours for a diagram drawn in `text` on `background`.
pub fn mermaid_theme_colors(text: Rgba, background: Rgba) -> (r: MermaidThemeColors)
    ensures
        mermaid_colors_are(r, color_hex_spec(text), color_hex_spec(background)),
{
    let t = color_to_hex(text);
    let b = color_to_hex(background);
    MermaidThemeColors {
        background: to_owned_string(b.as_str()),
        primary_color: to_owned_string(b.as_str()),
        secondary_color: to_owned_string(b.as_str()),
        tertiary_color: to_owned_string(b.as_str()),
        edge_label_background: to_owned_string(b.as_str()),
        cluster_background: to_owned_string(b.as_str()),
        sequence_actor_fill: to_owned_string(b.as_str()),
        sequence_note_fill: to_owned_string(b.as_str()),
        sequence_activation_fill: to_owned_string(b.as_str()),
        primary_text_color: to_owned_string(t.as_str()),
        text_color: to_owned_string(t.as_str()),
        pie_title_text_color: to_owned_string(t.as_str()),
        pie_section_text_color: to_owned_string(t.as_str()),
        pie_legend_text_color: to_owned_string(t.as_str()),
        primary_border_color: to_owned_string(t.as_str()),
        line_color: to_owned_string(t.as_str()),
        cluster_border: to_owned_string(t.as_str()),
        sequence_actor_border: to_owned_string(t.as_str()),
        sequence_actor_line: to_owned_string(t.as_str()),
        sequence_note_border: to_owned_string(t.as_str()),
        sequence_activation_border: to_owned_string(t.as_str()),
        pie_stroke_color: to_owned_string(t.as_str()),
        pie_outer_stroke_color: to_owned_string(t.as_str()),
    }
}

/// Stores the nine fill colours of `colors` in the fields of the same
/// names of a `mermaid_rs_renderer::Theme`. Trusted, with nothing claimed of
/// the theme, which Verus cannot see into.
#[verifier::external_body]
fn store_mermaid_fill_colors(theme: &mut MermaidTheme, colors: &MermaidThemeColors) {
    theme.background = colors.background.clone();
    theme.primary_color = colors.primary_color.clone();
    theme.secondary_color = colors.secondary_color.clone();
    theme.tertiary_color = colors.tertiary_color.clone();
    theme.edge_label_background = colors.edge_label_background.clone();
    theme.cluster_background = colors.cluster_background.clone();
    theme.sequence_actor_fill = colors.sequence_actor_fill.clone();
    theme.sequence_note_fill = colors.sequence_note_fill.clone();
    theme.sequence_activation_fill = colors.sequence_activation_fill.clone();
}

/// Stores the fourteen text, border, line and stroke colours of `colors` in
/// the fields of the same names of a `mermaid_rs_renderer::Theme`. Trusted,
/// with nothing claimed of the theme, which Verus cannot see into.
#[verifier::external_body]
fn store_mermaid_line_colors(theme: &mut MermaidTheme, colors: &MermaidThemeColors) {
    theme.primary_text_color = colors.primary_text_color.clone();
    theme.text_color = colors.text_color.clone();
    theme.pie_title_text_color = colors.pie_title_text_color.clone();
    theme.pie_section_text_color = colors.pie_section_text_color.clone();
    theme.pie_legend_text_color = colors.pie_legend_text_color.clone();
    theme.primary_border_color = colors.primary_border_color.clone();
    theme.line_color = colors.line_color.clone();
    theme.cluster_border = colors.cluster_border.clone();
    theme.sequence_actor_border = colors.sequence_actor_border.clone();
    theme.sequence_actor_line = colors.sequence_actor_line.clone();
    theme.sequence_note_border = colors.sequence_note_border.clone();
    theme.sequence_activation_border = colors.sequence_activation_border.clone();
    theme.pie_stroke_color = colors.pie_stroke_color.clone();
    theme.pie_outer_stroke_color = colors.pie_outer_stroke_color.clone();
}

/// `mermaid_rs_renderer::render_with_options` with `theme` and the default
/// layout: the SVG, or the renderer's message. Trusted, with nothing
/// claimed of the result: the renderer measures text with the fonts
/// installed on the machine, so the SVG is not a function of its
/// arguments alone. Its parse errors come back as `Err`; whether some
/// source can reach a panic inside its layout code is not settled here.
#[verifier::external_body]
fn mermaid_render(source: &str, theme: MermaidTheme) -> (r: Result<String, String>) {
    let layout = mermaid_rs_renderer::LayoutConfig::default();
    mermaid_rs_renderer::render_with_options(
        source,
        mermaid_rs_renderer::RenderOptions { theme, layout },
    ).map_err(|error| error.to_string())
}

/// The renderer's theme for a diagram in these colours: the modern theme
/// with the colours of `mermaid_theme_colors` stored in it.
fn mermaid_theme(text: Rgba, background: Rgba) -> MermaidTheme {
    let colors = mermaid_theme_colors(text, background);
    let mut theme = mermaid_modern_theme();
    store_mermaid_fill_colors(&mut theme, &colors);
    store_mermaid_line_colors(&mut theme, &colors);
    theme
}

/// Renders a Mermaid diagram in these colours. A source with an incomplete
/// arrow is refused before the renderer sees it; otherwise the renderer's
/// message is returned, or its SVG in the text colour under a name made of
/// the colours and the hash of the source.
pub fn prepare_diagram(_language: &str, source: &str, text: Rgba, background: Rgba) -> (r: Result<
    DiagramSvg,
    String,
>)
    ensures
        !diagram_source_ok(source@) ==> (r matches Err(message) && message@
            == INCOMPLETE_ARROW_MESSAGE@),
        exists|rendered: Result<Seq<char>, Seq<char>>|
            diagram_prepared_as(r, source@, text, background, rendered),
{
    if let Err(error) = validate_diagram_source(source) {
        let r: Result<DiagramSvg, String> = Err(error);
        assert(diagram_prepared_as(r, source@, text, background, Ok(Seq::empty())));
        return r;
    }
    let rendered = mermaid_render(source, mermaid_theme(text, background));
    let ghost witness = render_view(rendered);
    let r = diagram_from_render(source, text, background, rendered);
    assert(diagram_prepared_as(r, source@, text, background, witness));
    r
}

/// The cache key of a diagram: its language, colours and source.
pub fn diagram_cache_key(language: &str, text: Rgba, background: Rgba, source: &str) -> (r: RenderKey)
    ensures
        key_view(r) == seq![language@, color_hash_spec(text), color_hash_spec(background), source@],
{
    let mut parts: Vec<String> = Vec::new();
    parts.push(to_owned_string(language));
    parts.push(color_hash(text));
    parts.push(color_hash(background));
    parts.push(to_owned_string(source));
    let r = RenderKey { parts };
    assert(key_view(r) =~= seq![language@, color_hash_spec(text), color_hash_spec(background), source@]);
    r
}

} // verus!
