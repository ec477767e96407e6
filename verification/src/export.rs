//! Export of a document as a standalone HTML page: escaping, `file:` URLs
//! for the page's base, and the page around the rendered Markdown.
use vstd::prelude::*;
use vstd::utf8::encode_utf8;

use crate::text::{
    chars_of, extend_chars, starts_with, str_strip_prefix, string_from_chars, to_owned_string,
};

verus! {

broadcast use vstd::string::group_string_axioms;

// ---------------------------------------------------------------------------
// HTML escaping
// ---------------------------------------------------------------------------
/// What a character becomes in HTML text or an attribute value.
pub open spec fn escape_char(c: char) -> Seq<char> {
    if c == '&' {
        seq!['&', 'a', 'm', 'p', ';']
    } else if c == '<' {
        seq!['&', 'l', 't', ';']
    } else if c == '>' {
        seq!['&', 'g', 't', ';']
    } else if c == '"' {
        seq!['&', 'q', 'u', 'o', 't', ';']
    } else if c == '\'' {
        seq!['&', '#', '3', '9', ';']
    } else {
        seq![c]
    }
}

/// `s` with `&`, `<`, `>`, `"` and `'` replaced by character references.
pub open spec fn escape_html_spec(s: Seq<char>) -> Seq<char>
    decreases s.len(),
{
    if s.len() == 0 {
        Seq::empty()
    } else {
        escape_html_spec(s.drop_last()) + escape_char(s.last())
    }
}

/// Escaped text holds no `<`, `>`, `"` or `'`: a title or link placed in
/// the page can neither open or close an element nor end an attribute.
pub proof fn law_escaped_text_has_no_markup(s: Seq<char>)
    ensures
        forall|i: int|
            0 <= i < escape_html_spec(s).len() ==> {
                let c = #[trigger] escape_html_spec(s)[i];
                c != '<' && c != '>' && c != '"' && c != '\''
            },
    decreases s.len(),
{
    if s.len() > 0 {
        law_escaped_text_has_no_markup(s.drop_last());
        let prev = escape_html_spec(s.drop_last());
        let tail = escape_char(s.last());
        assert forall|i: int| 0 <= i < escape_html_spec(s).len() implies {
            let c = #[trigger] escape_html_spec(s)[i];
            c != '<' && c != '>' && c != '"' && c != '\''
        } by {
            if i < prev.len() {
                assert(escape_html_spec(s)[i] == prev[i]);
            } else {
                assert(escape_html_spec(s)[i] == tail[i - prev.len()]);
            }
        }
    }
}

fn push_escaped_char(out: &mut Vec<char>, c: char)
    ensures
        final(out)@ == old(out)@ + escape_char(c),
{
    if c == '&' {
        out.push('&');
        out.push('a');
        out.push('m');
        out.push('p');
        out.push(';');
    } else if c == '<' {
        out.push('&');
        out.push('l');
        out.push('t');
        out.push(';');
    } else if c == '>' {
        out.push('&');
        out.push('g');
        out.push('t');
        out.push(';');
    } else if c == '"' {
        out.push('&');
        out.push('q');
        out.push('u');
        out.push('o');
        out.push('t');
        out.push(';');
    } else if c == '\'' {
        out.push('&');
        out.push('#');
        out.push('3');
        out.push('9');
        out.push(';');
    } else {
        out.push(c);
    }
}

fn extend_escaped(out: &mut Vec<char>, value: &str)
    ensures
        final(out)@ == old(out)@ + escape_html_spec(value@),
{
    let chars = chars_of(value);
    let ghost start = out@;
    let mut i: usize = 0;
    while i < chars.len()
        invariant
            chars@ == value@,
            i <= chars@.len(),
            out@ == start + escape_html_spec(chars@.take(i as int)),
        decreases chars.len() - i,
    {
        let ghost before = out@;
        push_escaped_char(out, chars[i]);
        assert(chars@.take(i + 1).drop_last() =~= chars@.take(i as int));
        assert(out@ =~= start + escape_html_spec(chars@.take(i + 1)));
        i = i + 1;
    }
    assert(chars@.take(i as int) =~= value@);
}

/// `value` with `&`, `<`, `>`, `"` and `'` escaped for HTML.
pub fn escape_html(value: &str) -> (r: String)
    ensures
        r@ == escape_html_spec(value@),
{
    let mut out: Vec<char> = Vec::new();
    extend_escaped(&mut out, value);
    assert(out@ =~= escape_html_spec(value@));
    string_from_chars(out.as_slice())
}

// ---------------------------------------------------------------------------
// file: URLs
// ---------------------------------------------------------------------------
/// The bytes a `file:` URL path keeps as they are: ASCII letters and digits
/// and `-._~/:`.
pub open spec fn is_url_path_byte(b: u8) -> bool {
    ||| 0x30 <= b <= 0x39
    ||| 0x41 <= b <= 0x5a
    ||| 0x61 <= b <= 0x7a
    ||| b == 0x2d
    ||| b == 0x2e
    ||| b == 0x5f
    ||| b == 0x7e
    ||| b == 0x2f
    ||| b == 0x3a
}

/// The upper-case hexadecimal digit for `d < 16`.
pub open spec fn hex_upper(d: u8) -> char {
    if d < 10 {
        ((0x30 + d) as u8) as char
    } else {
        ((0x37 + d) as u8) as char
    }
}

/// A byte in a URL path: itself when it may stand there, else `%` and its
/// two upper-case hexadecimal digits.
pub open spec fn encode_url_byte(b: u8) -> Seq<char> {
    if is_url_path_byte(b) {
        seq![b as char]
    } else {
        seq!['%', hex_upper(b / 16), hex_upper(b % 16)]
    }
}

/// The percent-encoding of a sequence of bytes.
pub open spec fn percent_encode_spec(bytes: Seq<u8>) -> Seq<char>
    decreases bytes.len(),
{
    if bytes.len() == 0 {
        Seq::empty()
    } else {
        percent_encode_spec(bytes.drop_last()) + encode_url_byte(bytes.last())
    }
}

/// A percent-encoded `file:` URL path is plain ASCII and holds no space,
/// `#` or `?`, so that nothing of the path is read as a fragment or a query.
pub proof fn law_encoded_url_path_is_plain(bytes: Seq<u8>)
    ensures
        forall|i: int|
            0 <= i < percent_encode_spec(bytes).len() ==> {
                let c = #[trigger] percent_encode_spec(bytes)[i];
                (c as u32) < 128 && c != ' ' && c != '#' && c != '?'
            },
    decreases bytes.len(),
{
    if bytes.len() > 0 {
        law_encoded_url_path_is_plain(bytes.drop_last());
        let prev = percent_encode_spec(bytes.drop_last());
        let b = bytes.last();
        let tail = encode_url_byte(b);
        assert forall|j: int| 0 <= j < tail.len() implies {
            let c = #[trigger] tail[j];
            (c as u32) < 128 && c != ' ' && c != '#' && c != '?'
        } by {
            if !is_url_path_byte(b) {
                assert(b / 16 < 16);
                assert(b % 16 < 16);
            }
        }
        assert forall|i: int| 0 <= i < percent_encode_spec(bytes).len() implies {
            let c = #[trigger] percent_encode_spec(bytes)[i];
            (c as u32) < 128 && c != ' ' && c != '#' && c != '?'
        } by {
            if i < prev.len() {
                assert(percent_encode_spec(bytes)[i] == prev[i]);
            } else {
                assert(percent_encode_spec(bytes)[i] == tail[i - prev.len()]);
            }
        }
    }
}

/// Whether `byte` may stand unencoded in a `file:` URL path.
pub fn is_file_url_path_byte(byte: u8) -> (r: bool)
    ensures
        r == is_url_path_byte(byte),
{
    (0x30 <= byte && byte <= 0x39) || (0x41 <= byte && byte <= 0x5a) || (0x61 <= byte && byte
        <= 0x7a) || byte == 0x2d || byte == 0x2e || byte == 0x5f || byte == 0x7e || byte == 0x2f
        || byte == 0x3a
}

fn hex_digit_upper(d: u8) -> (c: char)
    requires
        d < 16,
    ensures
        c == hex_upper(d),
{
    if d < 10 {
        (0x30 + d) as char
    } else {
        (0x37 + d) as char
    }
}

/// The UTF-8 bytes of `path`, percent-encoded where a URL path needs it.
pub fn percent_encode_file_url_path(path: &str) -> (r: String)
    ensures
        r@ == percent_encode_spec(encode_utf8(path@)),
{
    let bytes = path.as_bytes();
    let ghost bs = bytes@;
    assert(bs == encode_utf8(path@));
    let mut out: Vec<char> = Vec::new();
    let mut i: usize = 0;
    while i < bytes.len()
        invariant
            bs == bytes@,
            i <= bs.len(),
            out@ == percent_encode_spec(bs.take(i as int)),
        decreases bytes.len() - i,
    {
        let byte = bytes[i];
        if is_file_url_path_byte(byte) {
            out.push(byte as char);
        } else {
            out.push('%');
            out.push(hex_digit_upper(byte / 16));
            out.push(hex_digit_upper(byte % 16));
        }
        assert(bs.take(i + 1).drop_last() =~= bs.take(i as int));
        assert(out@ =~= percent_encode_spec(bs.take(i + 1)));
        i = i + 1;
    }
    assert(bs.take(i as int) =~= bs);
    string_from_chars(out.as_slice())
}

/// A Windows verbatim path written with forward slashes, without its
/// verbatim prefix: `//?/UNC/server/...` becomes `//server/...` and
/// `//?/C:/...` becomes `C:/...`; other paths stay as they are.
pub open spec fn normalize_windows_spec(s: Seq<char>) -> Seq<char> {
    if starts_with(s, seq!['/', '/', '?', '/', 'U', 'N', 'C', '/']) {
        seq!['/', '/'] + s.subrange(8, s.len() as int)
    } else if starts_with(s, seq!['/', '/', '?', '/']) {
        s.subrange(4, s.len() as int)
    } else {
        s
    }
}

/// Removes the Windows verbatim prefix from a path written with forward
/// slashes.
pub fn normalize_windows_file_url_path(path: &str) -> (r: String)
    ensures
        r@ == normalize_windows_spec(path@),
{
    proof {
        reveal_strlit("//?/UNC/");
        reveal_strlit("//?/");
        assert("//?/UNC/"@ =~= seq!['/', '/', '?', '/', 'U', 'N', 'C', '/']);
        assert("//?/"@ =~= seq!['/', '/', '?', '/']);
    }
    if let Some(rest) = str_strip_prefix(path, "//?/UNC/") {
        let mut out: Vec<char> = Vec::new();
        out.push('/');
        out.push('/');
        extend_chars(&mut out, rest);
        assert(out@ =~= seq!['/', '/'] + rest@);
        string_from_chars(out.as_slice())
    } else if let Some(rest) = str_strip_prefix(path, "//?/") {
        to_owned_string(rest)
    } else {
        to_owned_string(path)
    }
}

/// `s` with every backslash turned into a forward slash.
pub open spec fn forward_slashes(s: Seq<char>) -> Seq<char> {
    s.map_values(|c: char| if c == '\\' { '/' } else { c })
}

/// `s` ending in `/`.
pub open spec fn with_trailing_slash(s: Seq<char>) -> Seq<char> {
    if s.len() > 0 && s.last() == '/' {
        s
    } else {
        s.push('/')
    }
}

/// The `file:` URL of a directory: forward slashes, no verbatim prefix, a
/// trailing slash, and the path percent-encoded; a network path (starting
/// with `//`) after `file:`, any other after `file:///`.
pub open spec fn file_url_spec(path: Seq<char>) -> Seq<char> {
    let p = with_trailing_slash(normalize_windows_spec(forward_slashes(path)));
    let scheme = if starts_with(p, seq!['/', '/']) {
        seq!['f', 'i', 'l', 'e', ':']
    } else {
        seq!['f', 'i', 'l', 'e', ':', '/', '/', '/']
    };
    scheme + percent_encode_spec(encode_utf8(p))
}

/// The `file:` URL of the directory `path`.
pub fn file_url_for_directory(path: &str) -> (r: String)
    ensures
        r@ == file_url_spec(path@),
{
    let chars = chars_of(path);
    let mut slashed: Vec<char> = Vec::new();
    let mut i: usize = 0;
    while i < chars.len()
        invariant
            chars@ == path@,
            i <= chars@.len(),
            slashed@ == forward_slashes(chars@.take(i as int)),
        decreases chars.len() - i,
    {
        let c = chars[i];
        slashed.push(if c == '\\' { '/' } else { c });
        assert(slashed@ =~= forward_slashes(chars@.take(i + 1)));
        i = i + 1;
    }
    assert(chars@.take(i as int) =~= path@);
    let slashed = string_from_chars(slashed.as_slice());
    let normalized = normalize_windows_file_url_path(slashed.as_str());
    let mut p = chars_of(normalized.as_str());
    if !(p.len() > 0 && p[p.len() - 1] == '/') {
        p.push('/');
    }
    let ghost pv = with_trailing_slash(normalize_windows_spec(forward_slashes(path@)));
    assert(p@ =~= pv);
    let p_string = string_from_chars(p.as_slice());
    let encoded = percent_encode_file_url_path(p_string.as_str());
    let mut out: Vec<char> = Vec::new();
    if p.len() >= 2 && p[0] == '/' && p[1] == '/' {
        extend_chars(&mut out, "file:");
        proof {
            reveal_strlit("file:");
            assert(pv.subrange(0, 2) =~= seq!['/', '/']);
        }
    } else {
        extend_chars(&mut out, "file:///");
        proof {
            reveal_strlit("file:///");
            if pv.len() >= 2 {
                assert(pv.subrange(0, 2)[0] == pv[0]);
                assert(pv.subrange(0, 2)[1] == pv[1]);
            }
        }
    }
    extend_chars(&mut out, encoded.as_str());
    assert(out@ =~= file_url_spec(path@));
    string_from_chars(out.as_slice())
}

// ---------------------------------------------------------------------------
// The exported page
// ---------------------------------------------------------------------------
/// The page up to the title.
pub const HTML_PAGE_START: &'static str = "<!doctype html>\n<html lang=\"en\">\n<head>\n<meta charset=\"utf-8\">\n<meta name=\"viewport\" content=\"width=device-width, initial-scale=1\">\n<title>";

/// Between the title and the optional base element.
pub const HTML_TITLE_END: &'static str = "</title>\n";

/// The style sheet, the end of the head and the start of the body.
pub const HTML_PAGE_STYLE: &'static str = "\n<style>\n:root {\n  color-scheme: light;\n  --text: #1f2933;\n  --muted: #5f6b7a;\n  --border: #d7dde5;\n  --background: #ffffff;\n  --code-background: #f4f6f8;\n  --quote-background: #f7f9fb;\n  --link: #1f6feb;\n}\nbody {\n  margin: 40px auto;\n  max-width: 760px;\n  padding: 0 24px 48px;\n  background: var(--background);\n  color: var(--text);\n  font-family: system-ui, -apple-system, BlinkMacSystemFont, \"Segoe UI\", sans-serif;\n  line-height: 1.65;\n}\nh1, h2, h3, h4, h5, h6 {\n  line-height: 1.25;\n  margin: 1.6em 0 0.55em;\n}\np, ul, ol, blockquote, table, pre {\n  margin: 0 0 1.1em;\n}\na {\n  color: var(--link);\n}\ncode, pre {\n  font-family: ui-monospace, SFMono-Regular, Consolas, \"Liberation Mono\", monospace;\n}\ncode {\n  border-radius: 4px;\n  background: var(--code-background);\n  padding: 0.1em 0.3em;\n}\npre {\n  overflow-x: auto;\n  border: 1px solid var(--border);\n  border-radius: 8px;\n  background: var(--code-background);\n  padding: 14px 16px;\n}\npre code {\n  background: transparent;\n  padding: 0;\n}\nblockquote {\n  border-left: 4px solid var(--border);\n  background: var(--quote-background);\n  color: var(--muted);\n  padding: 10px 16px;\n}\ntable {\n  border-collapse: collapse;\n  display: block;\n  overflow-x: auto;\n}\nth, td {\n  border: 1px solid var(--border);\n  padding: 6px 10px;\n}\nimg {\n  max-width: 100%;\n  height: auto;\n}\n</style>\n</head>\n<body>\n";

/// The end of the page.
pub const HTML_PAGE_END: &'static str = "\n</body>\n</html>\n";

/// The HTML that pulldown-cmark renders for `markdown` with tables enabled.
pub uninterp spec fn markdown_html(markdown: Seq<char>) -> Seq<char>;

/// Renders Markdown to HTML with `pulldown_cmark::html::push_html` over a
/// `pulldown_cmark::Parser` with tables enabled. Trusted: the result is
/// `markdown_html` of the text, a function of the text alone.
#[verifier::external_body]
fn render_markdown_html(markdown: &str) -> (r: String)
    ensures
        r@ == markdown_html(markdown@),
{
    let mut body = String::new();
    let parser = pulldown_cmark::Parser::new_ext(markdown, pulldown_cmark::Options::ENABLE_TABLES);
    pulldown_cmark::html::push_html(&mut body, parser);
    body
}

/// The base element for `base_href`, or nothing.
pub open spec fn base_tag_spec(base_href: Option<Seq<char>>) -> Seq<char> {
    match base_href {
        Some(href) => seq!['<', 'b', 'a', 's', 'e', ' ', 'h', 'r', 'e', 'f', '=', '"'] + escape_html_spec(
            href,
        ) + seq!['"', '>'],
        None => Seq::empty(),
    }
}

/// The page: the escaped title, the base element, the style sheet and the
/// rendered Markdown as the body.
pub open spec fn html_document_spec(
    body: Seq<char>,
    title: Seq<char>,
    base_href: Option<Seq<char>>,
) -> Seq<char> {
    HTML_PAGE_START@ + escape_html_spec(title) + HTML_TITLE_END@ + base_tag_spec(base_href)
        + HTML_PAGE_STYLE@ + body + HTML_PAGE_END@
}

/// The optional base href as a character sequence.
pub open spec fn opt_view(s: Option<&str>) -> Option<Seq<char>> {
    match s {
        Some(v) => Some(v@),
        None => None,
    }
}

/// The page for already rendered HTML `body`.
pub fn html_document(body: &str, title: &str, base_href: Option<&str>) -> (r: String)
    ensures
        r@ == html_document_spec(body@, title@, opt_view(base_href)),
{
    let mut out: Vec<char> = Vec::new();
    extend_chars(&mut out, HTML_PAGE_START);
    extend_escaped(&mut out, title);
    extend_chars(&mut out, HTML_TITLE_END);
    let ghost before_base = out@;
    match base_href {
        Some(href) => {
            extend_chars(&mut out, "<base href=\"");
            extend_escaped(&mut out, href);
            extend_chars(&mut out, "\">");
            proof {
                reveal_strlit("<base href=\"");
                reveal_strlit("\">");
            }
            assert(out@ =~= before_base + base_tag_spec(opt_view(base_href)));
        },
        None => {
            assert(out@ =~= before_base + base_tag_spec(opt_view(base_href)));
        },
    }
    extend_chars(&mut out, HTML_PAGE_STYLE);
    extend_chars(&mut out, body);
    extend_chars(&mut out, HTML_PAGE_END);
    assert(out@ =~= html_document_spec(body@, title@, opt_view(base_href)));
    string_from_chars(out.as_slice())
}

/// The standalone HTML page for `markdown`, titled `title`, with relative
/// links resolved against `base_href` when there is one.
pub fn markdown_to_html_document(markdown: &str, title: &str, base_href: Option<&str>) -> (r: String)
    ensures
        r@ == html_document_spec(markdown_html(markdown@), title@, opt_view(base_href)),
{
    let body = render_markdown_html(markdown);
    html_document(body.as_str(), title, base_href)
}

} // verus!
