//! The decisions of the document view that do not depend on drawing: table
//! widths, line estimates, and which link and image targets are local.
use vstd::prelude::*;
use vstd::utf8::encode_utf8;

use crate::parser::{ContentV, InlineContent, InlineSpan, SpanV, spans_view};
use crate::session::ascii_lower;
use crate::text::{
    chars_of, has_verbatim_prefix, is_blank, rootless_relative_path, starts_with, str_strip_prefix, string_from_chars, trim,
    trim_spec,
};

verus! {

broadcast use vstd::string::group_string_axioms;

/// Characters of running text a line is estimated to hold.
pub const ESTIMATED_CHARS_PER_LINE: usize = 90;

/// What drawing the document reported back: whether it scrolled, whether
/// the scroll still has to settle, the heading at the top of the view, and
/// the internal or external link that was clicked.
pub struct RenderOutcome {
    pub did_scroll: bool,
    pub needs_scroll_stabilization: bool,
    pub active_heading: Option<usize>,
    pub clicked_anchor: Option<String>,
    pub clicked_external_link: Option<String>,
}

// ---------------------------------------------------------------------------
// Tables
// ---------------------------------------------------------------------------
/// The most cells in any row, or in the header row.
pub open spec fn column_count_spec(headers: nat, rows: Seq<nat>) -> nat
    decreases rows.len(),
{
    if rows.len() == 0 {
        headers
    } else {
        let rest = column_count_spec(headers, rows.drop_last());
        if rows.last() > rest {
            rows.last()
        } else {
            rest
        }
    }
}

/// The number of columns a table needs: its widest row, header included.
pub fn table_column_count(headers: &[InlineContent], rows: &[Vec<InlineContent>]) -> (r: usize)
    ensures
        r == column_count_spec(headers@.len(), rows@.map_values(|row: Vec<InlineContent>| row@.len())),
{
    let ghost lens = rows@.map_values(|row: Vec<InlineContent>| row@.len());
    let mut best: usize = headers.len();
    let mut i: usize = 0;
    while i < rows.len()
        invariant
            lens == rows@.map_values(|row: Vec<InlineContent>| row@.len()),
            i <= rows@.len(),
            best == column_count_spec(headers@.len(), lens.take(i as int)),
        decreases rows.len() - i,
    {
        let n = rows[i].len();
        assert(lens.take(i + 1).drop_last() =~= lens.take(i as int));
        if n > best {
            best = n;
        }
        i = i + 1;
    }
    assert(lens.take(i as int) =~= lens);
    best
}

// ---------------------------------------------------------------------------
// Line estimates
// ---------------------------------------------------------------------------
/// The length in bytes of the text a span shows; a line break shows none.
pub open spec fn span_text_len(span: SpanV) -> nat {
    match span {
        SpanV::Text(t) => encode_utf8(t).len(),
        SpanV::Strong(t) => encode_utf8(t).len(),
        SpanV::Emphasis(t) => encode_utf8(t).len(),
        SpanV::Code(t) => encode_utf8(t).len(),
        SpanV::Math(t) => encode_utf8(t).len(),
        SpanV::Link { text, .. } => encode_utf8(text).len(),
        SpanV::Image { alt, .. } => encode_utf8(alt).len(),
        SpanV::LineBreak => 0,
    }
}

/// The estimate after one more span, from (lines so far, characters in
/// the last line): a line break starts a new line, text fills the current
/// one, and every full `ESTIMATED_CHARS_PER_LINE` characters wrap.
pub open spec fn line_estimate_step(state: (nat, nat), span: SpanV) -> (nat, nat) {
    let (count, len) = match span {
        SpanV::LineBreak => (state.0 + 1, 0nat),
        _ => (state.0, state.1 + span_text_len(span)),
    };
    if len >= ESTIMATED_CHARS_PER_LINE {
        (count + len / ESTIMATED_CHARS_PER_LINE as nat, len % ESTIMATED_CHARS_PER_LINE as nat)
    } else {
        (count, len)
    }
}

/// The estimate after the spans `spans`, starting from one empty line.
pub open spec fn line_estimate(spans: ContentV) -> (nat, nat)
    decreases spans.len(),
{
    if spans.len() == 0 {
        (1, 0)
    } else {
        line_estimate_step(line_estimate(spans.drop_last()), spans.last())
    }
}

/// The counted lines never shrink from one span to the next.
proof fn lemma_line_estimate_grows(spans: ContentV, i: int)
    requires
        0 <= i <= spans.len(),
    ensures
        line_estimate(spans.take(i)).0 <= line_estimate(spans).0,
        line_estimate(spans).1 < ESTIMATED_CHARS_PER_LINE,
    decreases spans.len(),
{
    if spans.len() > 0 {
        if i < spans.len() {
            assert(spans.drop_last().take(i) =~= spans.take(i));
            lemma_line_estimate_grows(spans.drop_last(), i);
        } else {
            assert(spans.take(i) =~= spans);
            lemma_line_estimate_grows(spans.drop_last(), 0);
        }
        let s = line_estimate(spans.drop_last());
        let len = match spans.last() {
            SpanV::LineBreak => 0nat,
            _ => s.1 + span_text_len(spans.last()),
        };
        if len >= ESTIMATED_CHARS_PER_LINE {
            assert(len % (ESTIMATED_CHARS_PER_LINE as nat) < ESTIMATED_CHARS_PER_LINE) by (
            nonlinear_arith);
        }
    }
}

fn span_text_byte_len(span: &InlineSpan) -> (r: usize)
    ensures
        r == span_text_len(span@),
{
    match span {
        InlineSpan::Text(t) => utf8_len(t.as_str()),
        InlineSpan::Strong(t) => utf8_len(t.as_str()),
        InlineSpan::Emphasis(t) => utf8_len(t.as_str()),
        InlineSpan::Code(t) => utf8_len(t.as_str()),
        InlineSpan::Math(t) => utf8_len(t.as_str()),
        InlineSpan::Link { text, .. } => utf8_len(text.as_str()),
        InlineSpan::Image { alt, .. } => utf8_len(alt.as_str()),
        InlineSpan::LineBreak => 0,
    }
}

fn utf8_len(s: &str) -> (r: usize)
    ensures
        r == encode_utf8(s@).len(),
{
    let bytes = s.as_bytes();
    bytes.len()
}

/// The number of lines the content is estimated to take, for sizing a
/// block before it is drawn.
pub fn estimate_inline_line_count(content: &InlineContent) -> (r: usize)
    requires
        line_estimate(content@).0 <= usize::MAX,
    ensures
        r == line_estimate(content@).0,
{
    let ghost sv = content@;
    let mut line_count: usize = 1;
    let mut line_len: usize = 0;
    let mut i: usize = 0;
    while i < content.spans.len()
        invariant
            sv == spans_view(content.spans@),
            sv.len() == content.spans@.len(),
            i <= sv.len(),
            line_estimate(sv).0 <= usize::MAX,
            (line_count as nat, line_len as nat) == line_estimate(sv.take(i as int)),
            line_len < ESTIMATED_CHARS_PER_LINE,
        decreases content.spans.len() - i,
    {
        proof {
            assert(sv.take(i + 1).drop_last() =~= sv.take(i as int));
            lemma_line_estimate_grows(sv, i + 1);
        }
        let span = &content.spans[i];
        assert(sv[i as int] == span@);
        let mut len: u128 = line_len as u128;
        match span {
            InlineSpan::LineBreak => {
                line_count = line_count + 1;
                len = 0;
            },
            _ => {
                len = len + span_text_byte_len(span) as u128;
            },
        }
        if len >= ESTIMATED_CHARS_PER_LINE as u128 {
            line_count = line_count + (len / ESTIMATED_CHARS_PER_LINE as u128) as usize;
            len = len % ESTIMATED_CHARS_PER_LINE as u128;
        }
        line_len = len as usize;
        i = i + 1;
    }
    assert(sv.take(i as int) =~= sv);
    line_count
}

// ---------------------------------------------------------------------------
// Link and image targets
// ---------------------------------------------------------------------------
/// The ASCII-lowercase of a text.
pub open spec fn ascii_lowercase(s: Seq<char>) -> Seq<char> {
    s.map_values(|c: char| ascii_lower(c))
}

/// A target that is fetched over HTTP(S) or carries its data inline:
/// after trimming and ASCII-lowercasing it starts with `http://`,
/// `https://` or `data:`.
pub open spec fn is_remote_or_data_spec(destination: Seq<char>) -> bool {
    let n = ascii_lowercase(trim_spec(destination));
    ||| starts_with(n, seq!['h', 't', 't', 'p', ':', '/', '/'])
    ||| starts_with(n, seq!['h', 't', 't', 'p', 's', ':', '/', '/'])
    ||| starts_with(n, seq!['d', 'a', 't', 'a', ':'])
}

fn lower_starts_with(chars: &Vec<char>, prefix: &Vec<char>) -> (r: bool)
    ensures
        r == starts_with(ascii_lowercase(chars@), prefix@),
{
    if prefix.len() > chars.len() {
        return false;
    }
    let mut i: usize = 0;
    while i < prefix.len()
        invariant
            prefix@.len() <= chars@.len(),
            i <= prefix@.len(),
            forall|k: int| 0 <= k < i ==> ascii_lower(chars@[k]) == prefix@[k],
        decreases prefix.len() - i,
    {
        let c = chars[i];
        let lower = if 'A' <= c && c <= 'Z' {
            char_from_code(c as u32 + 32)
        } else {
            c
        };
        if lower != prefix[i] {
            assert(ascii_lowercase(chars@).subrange(0, prefix@.len() as int)[i as int] != prefix@[i as int]);
            return false;
        }
        i = i + 1;
    }
    assert(ascii_lowercase(chars@).subrange(0, prefix@.len() as int) =~= prefix@);
    true
}

fn char_from_code(u: u32) -> (r: char)
    requires
        97 <= u <= 122,
    ensures
        r as u32 == u,
{
    let b = u as u8;
    b as char
}

/// Whether an image or link target is remote or a data URI.
pub fn is_remote_or_data_uri(destination: &str) -> (r: bool)
    ensures
        r == is_remote_or_data_spec(destination@),
{
    proof {
        reveal_strlit("http://");
        reveal_strlit("https://");
        reveal_strlit("data:");
    }
    let chars = chars_of(trim(destination));
    let http = chars_of("http://");
    let https = chars_of("https://");
    let data = chars_of("data:");
    assert(http@ =~= seq!['h', 't', 't', 'p', ':', '/', '/']);
    assert(https@ =~= seq!['h', 't', 't', 'p', 's', ':', '/', '/']);
    assert(data@ =~= seq!['d', 'a', 't', 'a', ':']);
    lower_starts_with(&chars, &http) || lower_starts_with(&chars, &https) || lower_starts_with(
        &chars,
        &data,
    )
}

/// The anchor of a link to a heading of the same document: the trimmed
/// target after a leading `#`, unless nothing but white space follows it.
pub open spec fn internal_anchor_spec(destination: Seq<char>) -> Option<Seq<char>> {
    let t = trim_spec(destination);
    if t.len() > 0 && t[0] == '#' && trim_spec(t.drop_first()).len() > 0 {
        Some(t.drop_first())
    } else {
        None
    }
}

/// The heading anchor a link points to, when it points into the document.
pub fn internal_anchor(destination: &str) -> (r: Option<&str>)
    ensures
        match r {
            Some(a) => internal_anchor_spec(destination@) == Some(a@),
            None => internal_anchor_spec(destination@) is None,
        },
{
    proof {
        reveal_strlit("#");
        assert("#"@ =~= seq!['#']);
    }
    let trimmed = trim(destination);
    match str_strip_prefix(trimmed, "#") {
        Some(anchor) => {
            assert(trimmed@.subrange(0, 1)[0] == trimmed@[0]);
            assert(anchor@ =~= trimmed@.drop_first());
            if is_blank(anchor) {
                None
            } else {
                Some(anchor)
            }
        },
        None => {
            proof {
                if trimmed@.len() > 0 && trimmed@[0] == '#' {
                    assert(trimmed@.subrange(0, 1) =~= seq!['#']);
                }
            }
            None
        },
    }
}

/// Whether an inline formula is tall, because it holds a fraction.
pub fn is_tall_inline_math(expression: &str) -> (r: bool)
    ensures
        r == crate::math::has_fraction(expression@),
{
    crate::math::is_fraction_inline_math(expression)
}

/// `s` up to the first `c`, or all of `s` when there is none.
pub open spec fn before_char(s: Seq<char>, c: char) -> Seq<char>
    decreases s.len(),
{
    if s.len() == 0 {
        s
    } else if s[0] == c {
        Seq::empty()
    } else {
        seq![s[0]] + before_char(s.drop_first(), c)
    }
}

fn chars_before(s: &Vec<char>, c: char) -> (r: Vec<char>)
    ensures
        r@ == before_char(s@, c),
{
    let mut i: usize = 0;
    assert(s@.skip(0) =~= s@);
    assert(s@.take(0) =~= Seq::<char>::empty());
    while i < s.len() && s[i] != c
        invariant
            i <= s@.len(),
            before_char(s@, c) == s@.take(i as int) + before_char(s@.skip(i as int), c),
        decreases s.len() - i,
    {
        assert(s@.skip(i as int).drop_first() =~= s@.skip(i + 1));
        assert(s@.take(i + 1) =~= s@.take(i as int) + seq![s@[i as int]]);
        i = i + 1;
    }
    if i < s.len() {
        assert(s@.skip(i as int)[0] == c);
    } else {
        assert(s@.skip(i as int) =~= Seq::<char>::empty());
    }
    let mut out: Vec<char> = Vec::new();
    let mut k: usize = 0;
    while k < i
        invariant
            k <= i <= s@.len(),
            out@ == s@.take(k as int),
        decreases i - k,
    {
        out.push(s[k]);
        assert(s@.take(k + 1) =~= s@.take(k as int).push(s@[k as int]));
        k = k + 1;
    }
    out
}

/// The file an image target names, before it is resolved against the
/// document's folder: the trimmed target without its `#` fragment and its
/// `?` query; nothing for an empty, remote or data target.
pub open spec fn local_image_target_spec(destination: Seq<char>) -> Option<Seq<char>> {
    let t = trim_spec(destination);
    if t.len() == 0 || is_remote_or_data_spec(t) {
        None
    } else {
        Some(before_char(before_char(t, '#'), '?'))
    }
}

/// The local file an image target names, without fragment and query.
pub fn local_image_target(destination: &str) -> (r: Option<String>)
    ensures
        match r {
            Some(p) => local_image_target_spec(destination@) == Some(p@),
            None => local_image_target_spec(destination@) is None,
        },
{
    let cleaned = trim(destination);
    if cleaned.is_empty() || is_remote_or_data_uri(cleaned) {
        return None;
    }
    let chars = chars_of(cleaned);
    let without_fragment = chars_before(&chars, '#');
    let without_query = chars_before(&without_fragment, '?');
    Some(string_from_chars(without_query.as_slice()))
}

/// `Path::is_absolute`. Trusted, as std documents it: an absolute path has
/// a root, so a path that starts with no separator and holds no drive is
/// relative. The answer for other paths follows the platform's path rules
/// and is not claimed here.
#[verifier::external_body]
fn path_is_absolute(path: &str) -> (r: bool)
    ensures
        rootless_relative_path(path@) ==> !r,
{
    std::path::Path::new(path).is_absolute()
}

/// `Path::join`, as text. Trusted, as std documents `PathBuf::push`: a
/// path with neither root nor prefix is added to `base`, after a separator
/// (`/`, or a backslash on Windows) unless `base` is empty or already ends
/// in one. A base with a verbatim prefix is rebuilt from its components
/// instead, and a path with a root or a prefix replaces all or part of
/// `base`; neither is claimed here.
#[verifier::external_body]
fn path_join(base: &str, path: &str) -> (r: String)
    ensures
        rootless_relative_path(path@) && !has_verbatim_prefix(base@) ==> joined_with_separator(
            base@,
            path@,
            r@,
        ),
{
    std::path::Path::new(base).join(path).to_string_lossy().into_owned()
}

/// `joined` is `base` followed by `path`, with a `/` or a backslash
/// between them or nothing.
pub open spec fn joined_with_separator(base: Seq<char>, path: Seq<char>, joined: Seq<char>) -> bool {
    ||| joined == base + path
    ||| joined == base + seq!['/'] + path
    ||| joined == base + seq!['\\'] + path
}

/// The file a local image target names: an absolute path as it is, a
/// relative one inside the document's folder (none without a folder);
/// nothing for empty, remote and data targets. A target with neither root
/// nor drive is relative: it is found under the folder (joined after a
/// separator, when the folder has no verbatim prefix), and not without one.
pub fn resolve_local_image_path(base_dir: Option<&str>, destination: &str) -> (r: Option<String>)
    ensures
        local_image_target_spec(destination@) is None ==> r is None,
        local_image_target_spec(destination@) is Some && base_dir is Some ==> r is Some,
        base_dir is None ==> (r matches Some(p) ==> local_image_target_spec(destination@)
            == Some(p@)),
        local_image_target_spec(destination@) matches Some(t) ==> (rootless_relative_path(t)
            ==> match base_dir {
            Some(b) => r is Some && (!has_verbatim_prefix(b@) ==> (r matches Some(p)
                && joined_with_separator(b@, t, p@))),
            None => r is None,
        }),
{
    let target = match local_image_target(destination) {
        Some(target) => target,
        None => return None,
    };
    if path_is_absolute(target.as_str()) {
        Some(target)
    } else {
        match base_dir {
            Some(base) => Some(path_join(base, target.as_str())),
            None => None,
        }
    }
}

/// The cache key of an image: its path.
pub fn image_cache_key(path: &str) -> (r: crate::render_jobs::RenderKey)
    ensures
        crate::render_jobs::key_view(r) == seq![path@],
{
    let mut parts: Vec<String> = Vec::new();
    parts.push(crate::text::to_owned_string(path));
    let r = crate::render_jobs::RenderKey { parts };
    assert(crate::render_jobs::key_view(r) =~= seq![path@]);
    r
}

} // verus!
