use oxidemd::export::{
    escape_html, file_url_for_directory, is_file_url_path_byte, markdown_to_html_document,
    normalize_windows_file_url_path, percent_encode_file_url_path,
};

#[test]
fn html_export_renders_markdown_blocks() {
    let html = markdown_to_html_document(
        "# Title\n\nA **bold** paragraph.\n\n| A | B |\n| - | - |\n| 1 | 2 |\n",
        "sample.md",
        None,
    );

    assert!(html.contains("<h1>Title</h1>"));
    assert!(html.contains("<strong>bold</strong>"));
    assert!(html.contains("<table>"));
}

#[test]
fn html_export_escapes_document_title() {
    let html = markdown_to_html_document("# Title", "a <b>& \"quote\".md", None);

    assert!(html.contains("<title>a &lt;b&gt;&amp; &quot;quote&quot;.md</title>"));
}

#[test]
fn html_export_includes_base_href_when_available() {
    let html = markdown_to_html_document(
        "![Image](./assets/image.png)",
        "sample.md",
        Some("file:///C:/Docs/Markdown/"),
    );

    assert!(html.contains(r#"<base href="file:///C:/Docs/Markdown/">"#));
    assert!(html.contains(r#"<img src="./assets/image.png" alt="Image" />"#));
}

#[test]
fn file_url_for_directory_encodes_spaces_and_fragments() {
    let href = file_url_for_directory(r"C:\Docs\Markdown Files\#drafts");

    assert_eq!(href, "file:///C:/Docs/Markdown%20Files/%23drafts/");
}

#[test]
fn normalize_windows_file_url_path_removes_verbatim_prefix() {
    assert_eq!(
        normalize_windows_file_url_path("//?/C:/Docs/Markdown"),
        "C:/Docs/Markdown"
    );
    assert_eq!(
        normalize_windows_file_url_path("//?/UNC/server/share/Docs"),
        "//server/share/Docs"
    );
}

#[test]
fn html_page_without_base_has_no_base_element() {
    let html = markdown_to_html_document("plain", "t", None);
    assert!(html.starts_with("<!doctype html>\n<html lang=\"en\">"));
    assert!(!html.contains("<base"));
    assert!(html.contains("<body>\n<p>plain</p>\n\n</body>\n</html>\n"));
}

#[test]
fn escape_html_replaces_all_special_characters() {
    assert_eq!(escape_html("a&b<c>d\"e'f"), "a&amp;b&lt;c&gt;d&quot;e&#39;f");
    assert_eq!(escape_html(""), "");
    assert_eq!(escape_html("日本"), "日本");
}

#[test]
fn file_urls_for_unix_and_network_paths() {
    assert_eq!(file_url_for_directory("/home/user/docs"), "file:////home/user/docs/");
    assert_eq!(file_url_for_directory("/home/user/docs/"), "file:////home/user/docs/");
    assert_eq!(
        file_url_for_directory(r"\\?\UNC\server\share\Docs"),
        "file://server/share/Docs/"
    );
    assert_eq!(file_url_for_directory(r"\\?\C:\Docs"), "file:///C:/Docs/");
}

#[test]
fn percent_encoding_uses_utf8_bytes_in_upper_case_hex() {
    assert_eq!(percent_encode_file_url_path("a b/é~"), "a%20b/%C3%A9~");
    assert!(is_file_url_path_byte(b':'));
    assert!(!is_file_url_path_byte(b'#'));
    assert_eq!(normalize_windows_file_url_path("/plain/path"), "/plain/path");
}

#[test]
fn escaped_text_holds_no_markup_characters() {
    let escaped = escape_html("<img src=\"x\" onerror='y'> & more");
    assert!(!escaped.contains('<'));
    assert!(!escaped.contains('>'));
    assert!(!escaped.contains('"'));
    assert!(!escaped.contains('\''));
    assert_eq!(escaped, "&lt;img src=&quot;x&quot; onerror=&#39;y&#39;&gt; &amp; more");
}

#[test]
fn encoded_url_path_is_plain_ascii() {
    let encoded = percent_encode_file_url_path("C:/Docs/Mark down/#drafts?x/é");
    assert!(encoded.is_ascii());
    assert!(!encoded.contains(' '));
    assert!(!encoded.contains('#'));
    assert!(!encoded.contains('?'));
    assert_eq!(encoded, "C:/Docs/Mark%20down/%23drafts%3Fx/%C3%A9");
}
