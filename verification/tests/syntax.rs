use oxidemd::syntax::{highlight_theme, highlight_theme_name, CodeHighlighter, HighlightTheme};

#[test]
fn highlights_known_language_and_keeps_the_code() {
    let mut highlighter = CodeHighlighter::new();
    let code = "fn main() {\n    let x = 1;\n}\n";
    let pieces = highlighter
        .highlight_code(Some(" rust "), code, false)
        .expect("rust is a known syntax");
    let text: String = pieces.iter().map(|piece| piece.text.as_str()).collect();
    assert_eq!(text, code);
    assert!(pieces.len() > 3);
    let first_color = pieces[0].color;
    assert!(pieces.iter().any(|piece| piece.color != first_color));
}

#[test]
fn skips_blank_and_unknown_languages() {
    let mut highlighter = CodeHighlighter::new();
    assert!(highlighter.highlight_code(None, "x", true).is_none());
    assert!(highlighter.highlight_code(Some("   "), "x", true).is_none());
    assert!(highlighter
        .highlight_code(Some("no-such-language-here"), "x", true)
        .is_none());
}

#[test]
fn reuses_cached_highlight() {
    let mut highlighter = CodeHighlighter::new();
    let first: Vec<String> = highlighter
        .highlight_code(Some("py"), "print('hi')", true)
        .expect("python by extension")
        .iter()
        .map(|piece| piece.text.clone())
        .collect();
    let second: Vec<String> = highlighter
        .highlight_code(Some("py"), "print('hi')", true)
        .expect("cached")
        .iter()
        .map(|piece| piece.text.clone())
        .collect();
    assert_eq!(first, second);
    assert_eq!(first.concat(), "print('hi')");
}

#[test]
fn theme_names_for_backgrounds() {
    assert_eq!(highlight_theme(true), HighlightTheme::Dark);
    assert_eq!(highlight_theme_name(HighlightTheme::Light), "InspiredGitHub");
}

#[test]
fn highlighting_is_the_same_for_the_same_code() {
    let code = "let x = 1;\nlet y = \"two\";\n";
    let mut first = CodeHighlighter::new();
    let mut second = CodeHighlighter::new();
    let a: Vec<(String, u8, u8, u8)> = first
        .highlight_code(Some("rs"), code, true)
        .expect("rust by extension")
        .iter()
        .map(|piece| (piece.text.clone(), piece.color.r, piece.color.g, piece.color.b))
        .collect();
    let b: Vec<(String, u8, u8, u8)> = second
        .highlight_code(Some("rs"), code, true)
        .expect("rust by extension")
        .iter()
        .map(|piece| (piece.text.clone(), piece.color.r, piece.color.g, piece.color.b))
        .collect();
    assert_eq!(a, b);
    let light: Vec<(u8, u8, u8)> = first
        .highlight_code(Some("rs"), code, false)
        .expect("light theme")
        .iter()
        .map(|piece| (piece.color.r, piece.color.g, piece.color.b))
        .collect();
    let dark: Vec<(u8, u8, u8)> = a.iter().map(|(_, r, g, b)| (*r, *g, *b)).collect();
    assert_ne!(light, dark);
}
