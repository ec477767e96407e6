//! Formula rendering: when an inline formula is shown in display style, the
//! call of MathJax, and the colouring and names of rendered formula images.
use vstd::prelude::*;

use mathjax_svg_rs::Options as MathJaxOptions;

use crate::parser::decimal;
use crate::svg::{color_hash_spec, fnv1a_spec, hex_digits, svg_parse_error, usvg_parse_error, Rgba};
use crate::render_jobs::{key_view, RenderKey};
use crate::text::{chars_of, extend_chars, seq_contains, str_contains, string_from_chars, to_owned_string};

verus! {

broadcast use vstd::string::group_string_axioms;

/// Whether a formula stands in a line of text or as a block of its own.
#[derive(Clone, Copy, Debug, PartialEq, Eq, Hash, Structural)]
pub enum MathRenderMode {
    Inline,
    Block,
}

/// `\frac`, `\dfrac`, `\tfrac` or `\genfrac` occurs in the formula.
pub open spec fn has_fraction(e: Seq<char>) -> bool {
    ||| seq_contains(e, seq!['\\', 'f', 'r', 'a', 'c'])
    ||| seq_contains(e, seq!['\\', 'd', 'f', 'r', 'a', 'c'])
    ||| seq_contains(e, seq!['\\', 't', 'f', 'r', 'a', 'c'])
    ||| seq_contains(e, seq!['\\', 'g', 'e', 'n', 'f', 'r', 'a', 'c'])
}

/// Whether an inline formula holds a fraction, which is then drawn in
/// display style so that it stays legible.
pub fn is_fraction_inline_math(expression: &str) -> (r: bool)
    ensures
        r == has_fraction(expression@),
{
    proof {
        reveal_strlit("\\frac");
        reveal_strlit("\\dfrac");
        reveal_strlit("\\tfrac");
        reveal_strlit("\\genfrac");
        assert("\\frac"@ =~= seq!['\\', 'f', 'r', 'a', 'c']);
        assert("\\dfrac"@ =~= seq!['\\', 'd', 'f', 'r', 'a', 'c']);
        assert("\\tfrac"@ =~= seq!['\\', 't', 'f', 'r', 'a', 'c']);
        assert("\\genfrac"@ =~= seq!['\\', 'g', 'e', 'n', 'f', 'r', 'a', 'c']);
    }
    str_contains(expression, "\\frac") || str_contains(expression, "\\dfrac") || str_contains(
        expression,
        "\\tfrac",
    ) || str_contains(expression, "\\genfrac")
}

/// `\displaystyle ` followed by a space.
pub open spec fn display_style_prefix() -> Seq<char> {
    seq!['\\', 'd', 'i', 's', 'p', 'l', 'a', 'y', 's', 't', 'y', 'l', 'e', ' ']
}

/// Whether a formula is drawn in display style: inline formulas with a
/// fraction are.
pub open spec fn uses_display_style(e: Seq<char>, mode: MathRenderMode) -> bool {
    mode == MathRenderMode::Inline && has_fraction(e)
}

/// The TeX handed to the renderer, and whether it is in display style.
pub fn math_render_expression(expression: &str, mode: MathRenderMode) -> (r: (String, bool))
    ensures
        r.1 == uses_display_style(expression@, mode),
        r.1 ==> r.0@ == display_style_prefix() + expression@,
        !r.1 ==> r.0@ == expression@,
{
    let display = match mode {
        MathRenderMode::Inline => is_fraction_inline_math(expression),
        MathRenderMode::Block => false,
    };
    if display {
        let mut out: Vec<char> = Vec::new();
        extend_chars(&mut out, "\\displaystyle ");
        extend_chars(&mut out, expression);
        proof {
            reveal_strlit("\\displaystyle ");
            assert("\\displaystyle "@ =~= display_style_prefix());
        }
        (string_from_chars(out.as_slice()), true)
    } else {
        (string_from_chars(chars_of(expression).as_slice()), false)
    }
}

/// The name of a mode in image names.
pub open spec fn mode_name(mode: MathRenderMode) -> Seq<char> {
    match mode {
        MathRenderMode::Inline => seq!['i', 'n', 'l', 'i', 'n', 'e'],
        MathRenderMode::Block => seq!['b', 'l', 'o', 'c', 'k'],
    }
}

/// The name of a display style in image names.
pub open spec fn style_name(display: bool) -> Seq<char> {
    if display {
        seq!['d', 'i', 's', 'p', 'l', 'a', 'y']
    } else {
        seq!['t', 'e', 'x', 't']
    }
}

/// The name of a rendered formula image: its colour, zoom, mode, style,
/// font size and the hash of its TeX, so that it never embeds the TeX.
pub open spec fn math_uri_spec(
    color: Rgba,
    zoom_bucket: u16,
    mode: MathRenderMode,
    display: bool,
    font_size_bucket: u16,
    expression: Seq<char>,
) -> Seq<char> {
    seq!['b', 'y', 't', 'e', 's', ':', '/', '/', 'm', 'a', 't', 'h', '-'] + color_hash_spec(color)
        + seq!['-'] + decimal(zoom_bucket as nat) + seq!['-'] + mode_name(mode) + seq!['-']
        + style_name(display) + seq!['-'] + decimal(font_size_bucket as nat) + seq!['-']
        + hex_digits(fnv1a_spec(vstd::utf8::encode_utf8(expression)) as nat, 16) + seq![
        '.',
        's',
        'v',
        'g',
    ]
}

/// The name of the image of `expression` rendered with these settings.
pub fn math_svg_uri(
    color: Rgba,
    zoom_bucket: u16,
    mode: MathRenderMode,
    display: bool,
    font_size_bucket: u16,
    expression: &str,
) -> (r: String)
    ensures
        r@ == math_uri_spec(color, zoom_bucket, mode, display, font_size_bucket, expression@),
{
    proof {
        reveal_strlit("bytes://math-");
        reveal_strlit("-");
        reveal_strlit("inline");
        reveal_strlit("block");
        reveal_strlit("display");
        reveal_strlit("text");
        reveal_strlit(".svg");
        assert("bytes://math-"@ =~= seq!['b', 'y', 't', 'e', 's', ':', '/', '/', 'm', 'a', 't', 'h', '-']);
        assert("-"@ =~= seq!['-']);
        assert("inline"@ =~= mode_name(MathRenderMode::Inline));
        assert("block"@ =~= mode_name(MathRenderMode::Block));
        assert("display"@ =~= style_name(true));
        assert("text"@ =~= style_name(false));
        assert(".svg"@ =~= seq!['.', 's', 'v', 'g']);
    }
    let mut out: Vec<char> = Vec::new();
    extend_chars(&mut out, "bytes://math-");
    extend_chars(&mut out, crate::svg::color_hash(color).as_str());
    extend_chars(&mut out, "-");
    let zoom = crate::parser::decimal_chars(zoom_bucket as usize);
    extend_chars(&mut out, string_from_chars(zoom.as_slice()).as_str());
    extend_chars(&mut out, "-");
    match mode {
        MathRenderMode::Inline => extend_chars(&mut out, "inline"),
        MathRenderMode::Block => extend_chars(&mut out, "block"),
    }
    extend_chars(&mut out, "-");
    if display {
        extend_chars(&mut out, "display");
    } else {
        extend_chars(&mut out, "text");
    }
    extend_chars(&mut out, "-");
    let size = crate::parser::decimal_chars(font_size_bucket as usize);
    extend_chars(&mut out, string_from_chars(size.as_slice()).as_str());
    extend_chars(&mut out, "-");
    extend_chars(&mut out, crate::svg::svg_uri_hash(expression).as_str());
    extend_chars(&mut out, ".svg");
    assert(out@ =~= math_uri_spec(color, zoom_bucket, mode, display, font_size_bucket, expression@));
    string_from_chars(out.as_slice())
}

/// The cache key of a formula's rendering: its mode, zoom and TeX.
pub fn math_cache_key(mode: MathRenderMode, zoom_bucket: u16, expression: &str) -> (r: RenderKey)
    ensures
        key_view(r) == seq![mode_name(mode), decimal(zoom_bucket as nat), expression@],
{
    proof {
        reveal_strlit("inline");
        reveal_strlit("block");
        assert("inline"@ =~= mode_name(MathRenderMode::Inline));
        assert("block"@ =~= mode_name(MathRenderMode::Block));
    }
    let mut parts: Vec<String> = Vec::new();
    match mode {
        MathRenderMode::Inline => parts.push(to_owned_string("inline")),
        MathRenderMode::Block => parts.push(to_owned_string("block")),
    }
    let zoom = crate::parser::decimal_chars(zoom_bucket as usize);
    parts.push(string_from_chars(zoom.as_slice()));
    parts.push(to_owned_string(expression));
    let r = RenderKey { parts };
    assert(key_view(r) =~= seq![mode_name(mode), decimal(zoom_bucket as nat), expression@]);
    r
}

/// The cache key of a formula drawn in a text colour: the key of its
/// rendering with the colour added.
pub fn colored_math_cache_key(
    mode: MathRenderMode,
    zoom_bucket: u16,
    color: Rgba,
    expression: &str,
) -> (r: RenderKey)
    ensures
        key_view(r) == seq![
            mode_name(mode),
            decimal(zoom_bucket as nat),
            color_hash_spec(color),
            expression@,
        ],
{
    proof {
        reveal_strlit("inline");
        reveal_strlit("block");
        assert("inline"@ =~= mode_name(MathRenderMode::Inline));
        assert("block"@ =~= mode_name(MathRenderMode::Block));
    }
    let mut parts: Vec<String> = Vec::new();
    match mode {
        MathRenderMode::Inline => parts.push(to_owned_string("inline")),
        MathRenderMode::Block => parts.push(to_owned_string("block")),
    }
    let zoom = crate::parser::decimal_chars(zoom_bucket as usize);
    parts.push(string_from_chars(zoom.as_slice()));
    parts.push(crate::svg::color_hash(color));
    parts.push(to_owned_string(expression));
    let r = RenderKey { parts };
    assert(key_view(r) =~= seq![
        mode_name(mode),
        decimal(zoom_bucket as nat),
        color_hash_spec(color),
        expression@,
    ]);
    r
}

/// A formula rendered to SVG, before it is coloured: the SVG, whether it
/// was drawn in display style, and the font size it was drawn at (in
/// tenths).
pub struct RawMathSvg {
    pub source: String,
    pub display: bool,
    pub font_size_bucket: u16,
}

/// What rendering a formula gave: an SVG, or the renderer's message.
pub enum RawMathResult {
    Svg(RawMathSvg),
    Error(String),
}

#[verifier::external_type_specification]
#[verifier::external_body]
pub struct ExMathJaxOptions(MathJaxOptions);

/// `mathjax_svg_rs::render_tex`: the TeX rendered to SVG by the crate's
/// shared MathJax worker at the options' font size, or MathJax's message.
/// Trusted, with nothing claimed of the result: the worker's JavaScript
/// state carries over from one formula to the next, so the SVG is not a
/// function of the arguments alone.
#[verifier::external_body]
fn mathjax_render_tex(tex: &str, options: &MathJaxOptions) -> (r: Result<String, String>) {
    mathjax_svg_rs::render_tex(tex, options)
}

/// Renders a formula with MathJax. The TeX handed to MathJax is
/// `math_render_expression(expression, mode)`: inline formulas with a
/// fraction are drawn in display style. `options` carries the font size in
/// pixels and `font_size_bucket` the same size in tenths of a pixel, which
/// names the image. The result is MathJax's SVG with the style and the
/// size, or MathJax's message.
pub fn prepare_math(
    expression: &str,
    mode: MathRenderMode,
    options: &MathJaxOptions,
    font_size_bucket: u16,
) -> (r: RawMathResult)
    ensures
        r matches RawMathResult::Svg(raw) ==> raw.display == uses_display_style(expression@, mode)
            && raw.font_size_bucket == font_size_bucket,
{
    let (tex, display) = math_render_expression(expression, mode);
    match mathjax_render_tex(tex.as_str(), options) {
        Ok(svg) => RawMathResult::Svg(RawMathSvg { source: svg, display, font_size_bucket }),
        Err(error) => RawMathResult::Error(error),
    }
}

/// A formula ready to show: the name of its image, the SVG in the text
/// colour, and its TeX for copying.
pub struct MathSvg {
    pub uri: String,
    pub svg: String,
    pub source: String,
}

/// A rendered formula in a text colour: the renderer's message, usvg's
/// message when it cannot read the coloured SVG, or the coloured SVG under a
/// name made from the colour, zoom, mode, style, font size and the hash of
/// the TeX.
pub fn prepare_colored_math(
    expression: &str,
    mode: MathRenderMode,
    zoom_bucket: u16,
    result: &RawMathResult,
    color: Rgba,
) -> (r: Result<MathSvg, String>)
    ensures
        match (result, r) {
            (RawMathResult::Error(message), Err(e)) => e@ == message@,
            (RawMathResult::Svg(raw), Err(e)) => usvg_parse_error(
                crate::svg::apply_current_color_spec(raw.source@, color),
            ) == Some(e@),
            (RawMathResult::Svg(raw), Ok(m)) => {
                &&& usvg_parse_error(crate::svg::apply_current_color_spec(raw.source@, color)) is None
                &&& m.uri@ == math_uri_spec(
                    color,
                    zoom_bucket,
                    mode,
                    raw.display,
                    raw.font_size_bucket,
                    expression@,
                )
                &&& m.svg@ == crate::svg::apply_current_color_spec(raw.source@, color)
                &&& m.source@ == expression@
            },
            _ => false,
        },
{
    match result {
        RawMathResult::Error(message) => Err(to_owned_string(message.as_str())),
        RawMathResult::Svg(raw) => {
            let svg = crate::svg::apply_current_color(raw.source.as_str(), color);
            if let Some(error) = svg_parse_error(svg.as_str()) {
                return Err(error);
            }
            let uri = math_svg_uri(
                color,
                zoom_bucket,
                mode,
                raw.display,
                raw.font_size_bucket,
                expression,
            );
            Ok(MathSvg { uri, svg, source: to_owned_string(expression) })
        },
    }
}

} // verus!
