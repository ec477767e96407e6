use oxidemd::cli::{gui_launch_options, help_text, parse_args, CliAction};

fn args(values: &[&str]) -> Vec<String> {
    values.iter().map(|value| value.to_string()).collect()
}

#[test]
fn parses_gui_without_file() {
    let action = parse_args(args(&[])).expect("args should parse");

    assert!(matches!(
        action,
        CliAction::RunGui {
            initial_file: None,
            restore_file: true,
            reset_session: false
        }
    ));
}

#[test]
fn parses_gui_with_file() {
    let action = parse_args(args(&["sample.md"])).expect("args should parse");

    assert!(
        matches!(action, CliAction::RunGui { initial_file: Some(path), restore_file: true, reset_session: false } if path == "sample.md")
    );
}

#[test]
fn parses_gui_without_restored_file() {
    let action = parse_args(args(&["--no-restore-file"])).expect("args should parse");

    assert!(matches!(
        action,
        CliAction::RunGui {
            initial_file: None,
            restore_file: false,
            reset_session: false
        }
    ));
}

#[test]
fn parses_gui_with_file_without_restored_file() {
    let action =
        parse_args(args(&["--no-restore-file", "sample.md"])).expect("args should parse");

    assert!(
        matches!(action, CliAction::RunGui { initial_file: Some(path), restore_file: false, reset_session: false } if path == "sample.md")
    );
}

#[test]
fn parses_html_export() {
    let action = parse_args(args(&["--export-html", "input.md", "output.html"]))
        .expect("args should parse");

    assert!(matches!(
        action,
        CliAction::ExportHtml { input, output }
            if input == "input.md" && output == "output.html"
    ));
}

#[test]
fn rejects_incomplete_html_export() {
    let error =
        parse_args(args(&["--export-html", "input.md"])).expect_err("args should be rejected");

    assert!(error.contains("Missing output file"));
}

#[test]
fn parses_help_version_and_rejects_unknown_flags() {
    assert!(matches!(parse_args(args(&["--help"])), Ok(CliAction::PrintHelp)));
    assert!(matches!(parse_args(args(&["-h"])), Ok(CliAction::PrintHelp)));
    assert!(matches!(parse_args(args(&["-V"])), Ok(CliAction::PrintVersion)));
    assert_eq!(
        parse_args(args(&["--export-html"])).unwrap_err(),
        "Missing arguments for --export-html. Usage: oxidemd --export-html <input.md> <output.html>"
    );
    assert_eq!(
        parse_args(args(&["--frobnicate"])).unwrap_err(),
        "Unsupported arguments. Use --help for usage."
    );
    assert!(parse_args(args(&["--no-restore-file", "-x"])).is_err());
    assert!(parse_args(args(&["a.md", "b.md"])).is_err());
}

#[test]
fn launch_options_only_for_gui() {
    let options = gui_launch_options(parse_args(args(&["doc.md"])).unwrap()).unwrap();
    assert_eq!(options.initial_file.as_deref(), Some("doc.md"));
    assert!(options.restore_file);
    assert!(gui_launch_options(CliAction::PrintHelp).is_none());
    assert!(help_text().starts_with("OxideMD\n\nUsage:\n"));
}

#[test]
fn parses_session_reset() {
    let action = parse_args(args(&["--reset-session"])).expect("args should parse");
    assert!(matches!(
        action,
        CliAction::RunGui { initial_file: None, restore_file: true, reset_session: true }
    ));
    let with_file = parse_args(args(&["--reset-session", "notes.md"])).expect("args should parse");
    assert!(
        matches!(&with_file, CliAction::RunGui { initial_file: Some(path), restore_file: true, reset_session: true } if path == "notes.md")
    );
    let options = gui_launch_options(with_file).expect("the viewer starts");
    assert!(options.reset_session);
    assert!(parse_args(args(&["--reset-session", "--help"])).is_err());
}
