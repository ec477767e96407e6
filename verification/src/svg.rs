//! Colouring and naming of SVG images: the text colour goes into the root
//! element's style, and images are named by hashes of their source.
use vstd::prelude::*;

use crate::search::{first_occurrence, lemma_first_occurrence_found, lemma_first_occurrence_none};
use crate::text::{chars_of, extend_chars, find_from, string_from_chars, subrange_chars, trim_bounds, trim_spec};

verus! {

broadcast use vstd::string::group_string_axioms;

/// A colour as red, green, blue and alpha components.
#[derive(Clone, Copy, Debug, PartialEq, Eq, Structural)]
pub struct Rgba {
    pub r: u8,
    pub g: u8,
    pub b: u8,
    pub a: u8,
}

impl Rgba {
    /// An opaque colour.
    pub fn from_rgb(r: u8, g: u8, b: u8) -> (c: Self)
        ensures
            c == (Rgba { r, g, b, a: 255 }),
    {
        Rgba { r, g, b, a: 255 }
    }
}

// ---------------------------------------------------------------------------
// Hexadecimal
// ---------------------------------------------------------------------------
/// The lower-case hexadecimal digit for `d < 16`.
pub open spec fn hex_lower(d: nat) -> char {
    if d < 10 {
        ((0x30 + d) as u8) as char
    } else {
        ((0x57 + d) as u8) as char
    }
}

/// The last `n` hexadecimal digits of `v`, lower case, with leading zeros.
pub open spec fn hex_digits(v: nat, n: nat) -> Seq<char>
    decreases n,
{
    if n == 0 {
        Seq::empty()
    } else {
        hex_digits(v / 16, (n - 1) as nat).push(hex_lower(v % 16))
    }
}

fn hex_lower_digit(d: u64) -> (c: char)
    requires
        d < 16,
    ensures
        c == hex_lower(d as nat),
{
    let b = d as u8;
    if b < 10 {
        (0x30 + b) as char
    } else {
        (0x57 + b) as char
    }
}

fn push_hex_digits(out: &mut Vec<char>, v: u64, n: u32)
    ensures
        final(out)@ == old(out)@ + hex_digits(v as nat, n as nat),
    decreases n,
{
    if n > 0 {
        push_hex_digits(out, v / 16, n - 1);
        out.push(hex_lower_digit(v % 16));
    }
}

/// `#rrggbb`, lower case.
pub open spec fn color_hex_spec(c: Rgba) -> Seq<char> {
    seq!['#'] + hex_digits(c.r as nat, 2) + hex_digits(c.g as nat, 2) + hex_digits(c.b as nat, 2)
}

/// `rrggbbaa`, lower case.
pub open spec fn color_hash_spec(c: Rgba) -> Seq<char> {
    hex_digits(c.r as nat, 2) + hex_digits(c.g as nat, 2) + hex_digits(c.b as nat, 2) + hex_digits(
        c.a as nat,
        2,
    )
}

/// The colour as `#rrggbb`.
pub fn color_to_hex(color: Rgba) -> (r: String)
    ensures
        r@ == color_hex_spec(color),
{
    let mut out: Vec<char> = Vec::new();
    out.push('#');
    push_hex_digits(&mut out, color.r as u64, 2);
    push_hex_digits(&mut out, color.g as u64, 2);
    push_hex_digits(&mut out, color.b as u64, 2);
    assert(out@ =~= color_hex_spec(color));
    string_from_chars(out.as_slice())
}

/// The colour as `rrggbbaa`, for image names.
pub fn color_hash(color: Rgba) -> (r: String)
    ensures
        r@ == color_hash_spec(color),
{
    let mut out: Vec<char> = Vec::new();
    push_hex_digits(&mut out, color.r as u64, 2);
    push_hex_digits(&mut out, color.g as u64, 2);
    push_hex_digits(&mut out, color.b as u64, 2);
    push_hex_digits(&mut out, color.a as u64, 2);
    assert(out@ =~= color_hash_spec(color));
    string_from_chars(out.as_slice())
}

// ---------------------------------------------------------------------------
// Source hashes
// ---------------------------------------------------------------------------
/// The offset basis of the 64-bit FNV-1a hash.
pub const FNV_OFFSET_BASIS: u64 = 0xcbf29ce484222325;

/// The prime of the 64-bit FNV-1a hash.
pub const FNV_PRIME: u64 = 0x100000001b3;

/// The 64-bit FNV-1a hash of `bytes`: for each byte, xor it in, then
/// multiply by the prime modulo 2^64.
pub open spec fn fnv1a_spec(bytes: Seq<u8>) -> u64
    decreases bytes.len(),
{
    if bytes.len() == 0 {
        FNV_OFFSET_BASIS
    } else {
        let h = fnv1a_spec(bytes.drop_last()) ^ (bytes.last() as u64);
        ((h as nat * FNV_PRIME as nat) % 0x1_0000_0000_0000_0000) as u64
    }
}

/// The FNV-1a hash of the UTF-8 bytes of `source`, as 16 lower-case
/// hexadecimal digits.
pub fn svg_uri_hash(source: &str) -> (r: String)
    ensures
        r@ == hex_digits(fnv1a_spec(vstd::utf8::encode_utf8(source@)) as nat, 16),
{
    let bytes = source.as_bytes();
    let ghost bs = bytes@;
    let mut hash: u64 = FNV_OFFSET_BASIS;
    let mut i: usize = 0;
    assert(bs.take(0) =~= Seq::<u8>::empty());
    while i < bytes.len()
        invariant
            bs == bytes@,
            i <= bs.len(),
            hash == fnv1a_spec(bs.take(i as int)),
        decreases bytes.len() - i,
    {
        hash = hash ^ (bytes[i] as u64);
        hash = hash.wrapping_mul(FNV_PRIME);
        assert(bs.take(i + 1).drop_last() =~= bs.take(i as int));
        i = i + 1;
    }
    assert(bs.take(i as int) =~= bs);
    let mut out: Vec<char> = Vec::new();
    push_hex_digits(&mut out, hash, 16);
    assert(out@ =~= hex_digits(hash as nat, 16));
    string_from_chars(out.as_slice())
}

// ---------------------------------------------------------------------------
// The current colour of an SVG image
// ---------------------------------------------------------------------------
/// `<svg`.
pub open spec fn svg_open() -> Seq<char> {
    seq!['<', 's', 'v', 'g']
}

/// ` style="`.
pub open spec fn style_mark() -> Seq<char> {
    seq![' ', 's', 't', 'y', 'l', 'e', '=', '"']
}

/// `color:`.
pub open spec fn color_decl() -> Seq<char> {
    seq!['c', 'o', 'l', 'o', 'r', ':']
}

/// The style `existing` with `color: cv` added after what it already says.
pub open spec fn merged_style(existing: Seq<char>, cv: Seq<char>) -> Seq<char> {
    let ex = trim_spec(existing);
    if ex.len() == 0 {
        color_decl() + cv
    } else if ex.last() == ';' {
        ex + color_decl() + cv
    } else {
        ex + seq![';', ' '] + color_decl() + cv
    }
}

/// `svg` with the text colour set as the CSS `color` of its root element, so
/// that `currentColor` in the image takes it: merged into the element's
/// `style` attribute when it has one, else as a new `style` attribute before
/// the end of the start tag. Without an `<svg` start tag the text stays as
/// it is.
pub open spec fn apply_current_color_spec(s: Seq<char>, color: Rgba) -> Seq<char> {
    match first_occurrence(s, svg_open(), 0) {
        None => s,
        Some(start) => match first_occurrence(s, seq!['>'], start) {
            None => s,
            Some(tag_end) => {
                let cv = color_hex_spec(color);
                let appended = s.take(tag_end) + style_mark() + color_decl() + cv + seq!['"'] + s.skip(
                    tag_end,
                );
                match first_occurrence(s.subrange(start, tag_end + 1), style_mark(), 0) {
                    Some(si) => {
                        let value_start = start + si + 8;
                        match first_occurrence(s, seq!['"'], value_start) {
                            Some(value_end) => s.take(value_start) + merged_style(
                                s.subrange(value_start, value_end),
                                cv,
                            ) + s.skip(value_end),
                            None => appended,
                        }
                    },
                    None => appended,
                }
            },
        },
    }
}

fn find_first(text: &Vec<char>, pat: &Vec<char>, from: usize) -> (r: Option<usize>)
    requires
        from <= text@.len(),
    ensures
        match r {
            Some(i) => first_occurrence(text@, pat@, from as int) == Some(i as int) && from <= i
                && i + pat@.len() <= text@.len(),
            None => first_occurrence(text@, pat@, from as int) is None,
        },
{
    match find_from(text, pat, from) {
        Some(i) => {
            proof {
                lemma_first_occurrence_found(text@, pat@, from as int, i as int);
            }
            Some(i)
        },
        None => {
            proof {
                lemma_first_occurrence_none(text@, pat@, from as int);
            }
            None
        },
    }
}

fn push_all(out: &mut Vec<char>, v: &Vec<char>, from: usize, to: usize)
    requires
        from <= to <= v@.len(),
    ensures
        final(out)@ == old(out)@ + v@.subrange(from as int, to as int),
{
    let part = subrange_chars(v, from, to);
    let ghost start = out@;
    let mut i: usize = 0;
    while i < part.len()
        invariant
            i <= part@.len(),
            out@ == start + part@.take(i as int),
        decreases part.len() - i,
    {
        out.push(part[i]);
        assert(part@.take(i + 1) =~= part@.take(i as int).push(part@[i as int]));
        i = i + 1;
    }
    assert(part@.take(i as int) =~= part@);
}

/// Sets `color` as the current colour of the SVG image `svg`.
pub fn apply_current_color(svg: &str, color: Rgba) -> (r: String)
    ensures
        r@ == apply_current_color_spec(svg@, color),
{
    proof {
        reveal_strlit("<svg");
        reveal_strlit(">");
        reveal_strlit(" style=\"");
        reveal_strlit("\"");
        reveal_strlit("color:");
        reveal_strlit("; ");
        assert("<svg"@ =~= svg_open());
        assert(">"@ =~= seq!['>']);
        assert(" style=\""@ =~= style_mark());
        assert("\""@ =~= seq!['"']);
        assert("color:"@ =~= color_decl());
        assert("; "@ =~= seq![';', ' ']);
    }
    let s = chars_of(svg);
    let n = s.len();
    let svg_tag_open = chars_of("<svg");
    let start = match find_first(&s, &svg_tag_open, 0) {
        Some(start) => start,
        None => return string_from_chars(s.as_slice()),
    };
    let close = chars_of(">");
    let tag_end = match find_first(&s, &close, start) {
        Some(tag_end) => tag_end,
        None => return string_from_chars(s.as_slice()),
    };
    let cv = chars_of(color_to_hex(color).as_str());
    let tag = subrange_chars(&s, start, tag_end + 1);
    let mark = chars_of(" style=\"");
    let quote = chars_of("\"");
    if let Some(style_index) = find_first(&tag, &mark, 0) {
        let value_start = start + style_index + 8;
        if let Some(value_end) = find_first(&s, &quote, value_start) {
            let mut out: Vec<char> = Vec::new();
            push_all(&mut out, &s, 0, value_start);
            let existing = subrange_chars(&s, value_start, value_end);
            let (a, b) = trim_bounds(&existing);
            let ghost ex = trim_spec(existing@);
            assert(existing@.subrange(a as int, b as int) == ex);
            push_all(&mut out, &existing, a, b);
            if a == b {
                extend_chars(&mut out, "color:");
            } else if existing[b - 1] == ';' {
                extend_chars(&mut out, "color:");
            } else {
                extend_chars(&mut out, "; ");
                extend_chars(&mut out, "color:");
            }
            push_all(&mut out, &cv, 0, cv.len());
            push_all(&mut out, &s, value_end, n);
            assert(cv@.subrange(0, cv@.len() as int) =~= cv@);
            assert(s@.subrange(0, value_start as int) =~= s@.take(value_start as int));
            assert(s@.subrange(value_end as int, n as int) =~= s@.skip(value_end as int));
            assert(out@ =~= apply_current_color_spec(svg@, color));
            return string_from_chars(out.as_slice());
        }
    }
    let mut out: Vec<char> = Vec::new();
    push_all(&mut out, &s, 0, tag_end);
    extend_chars(&mut out, " style=\"");
    extend_chars(&mut out, "color:");
    push_all(&mut out, &cv, 0, cv.len());
    extend_chars(&mut out, "\"");
    push_all(&mut out, &s, tag_end, n);
    assert(cv@.subrange(0, cv@.len() as int) =~= cv@);
    assert(s@.subrange(0, tag_end as int) =~= s@.take(tag_end as int));
    assert(s@.subrange(tag_end as int, n as int) =~= s@.skip(tag_end as int));
    assert(out@ =~= apply_current_color_spec(svg@, color));
    string_from_chars(out.as_slice())
}

/// The message with which usvg refuses an SVG document, if it does: what
/// `usvg::Tree::from_str` with the default options reports for the text.
/// Whether a document parses is decided by its text alone; the fonts and
/// images it names only change what is drawn.
pub uninterp spec fn usvg_parse_error(svg: Seq<char>) -> Option<Seq<char>>;

/// `resvg::usvg::Tree::from_str` with the default options, as the message
/// of its error. Trusted: the message is `usvg_parse_error` of the text.
#[verifier::external_body]
pub(crate) fn svg_parse_error(svg: &str) -> (r: Option<String>)
    ensures
        match r {
            Some(e) => usvg_parse_error(svg@) == Some(e@),
            None => usvg_parse_error(svg@) is None,
        },
{
    let options = resvg::usvg::Options::default();
    resvg::usvg::Tree::from_str(svg, &options).err().map(|error| error.to_string())
}

} // verus!
