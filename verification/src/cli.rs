//! The command line: which action the arguments ask for.
use vstd::prelude::*;

use crate::text::{str_eq, to_owned_string};

verus! {

broadcast use vstd::string::group_string_axioms;

/// What the command line asks the program to do.
#[derive(Debug)]
pub enum CliAction {
    /// Open the viewer: with this file, restoring the previous file unless
    /// told not to, and with the saved session reset when asked.
    RunGui { initial_file: Option<String>, restore_file: bool, reset_session: bool },
    PrintHelp,
    PrintVersion,
    ExportHtml { input: String, output: String },
}

/// How to start the viewer window.
pub struct GuiLaunchOptions {
    pub initial_file: Option<String>,
    pub restore_file: bool,
    /// Start with the saved settings and recent files reset.
    pub reset_session: bool,
}

/// `CliAction` with its strings as character sequences.
pub enum CliActionV {
    RunGui { initial_file: Option<Seq<char>>, restore_file: bool, reset_session: bool },
    PrintHelp,
    PrintVersion,
    ExportHtml { input: Seq<char>, output: Seq<char> },
}

impl View for CliAction {
    type V = CliActionV;

    open spec fn view(&self) -> CliActionV {
        match self {
            CliAction::RunGui { initial_file, restore_file, reset_session } => CliActionV::RunGui {
                initial_file: match initial_file {
                    Some(f) => Some(f@),
                    None => None,
                },
                restore_file: *restore_file,
                reset_session: *reset_session,
            },
            CliAction::PrintHelp => CliActionV::PrintHelp,
            CliAction::PrintVersion => CliActionV::PrintVersion,
            CliAction::ExportHtml { input, output } => CliActionV::ExportHtml {
                input: input@,
                output: output@,
            },
        }
    }
}

/// Whether an argument looks like an option rather than a file.
pub open spec fn looks_like_flag_spec(a: Seq<char>) -> bool {
    a.len() > 0 && a[0] == '-'
}

/// The message when `--export-html` comes alone.
pub open spec fn missing_arguments_message() -> Seq<char> {
    "Missing arguments for --export-html. Usage: oxidemd --export-html <input.md> <output.html>"@
}

/// The message when `--export-html` comes with one file.
pub open spec fn missing_output_message() -> Seq<char> {
    "Missing output file for --export-html. Usage: oxidemd --export-html <input.md> <output.html>"@
}

/// The message for any other arguments.
pub open spec fn unsupported_message() -> Seq<char> {
    "Unsupported arguments. Use --help for usage."@
}

/// The action the arguments (without the program name) ask for, or the
/// error message shown for them.
pub open spec fn parse_args_spec(args: Seq<Seq<char>>) -> Result<CliActionV, Seq<char>> {
    if args.len() == 0 {
        Ok(CliActionV::RunGui { initial_file: None, restore_file: true, reset_session: false })
    } else if args.len() == 1 && (args[0] == "--help"@ || args[0] == "-h"@) {
        Ok(CliActionV::PrintHelp)
    } else if args.len() == 1 && (args[0] == "--version"@ || args[0] == "-V"@) {
        Ok(CliActionV::PrintVersion)
    } else if args.len() == 1 && args[0] == "--no-restore-file"@ {
        Ok(CliActionV::RunGui { initial_file: None, restore_file: false, reset_session: false })
    } else if args.len() == 2 && args[0] == "--no-restore-file"@ && !looks_like_flag_spec(args[1]) {
        Ok(
            CliActionV::RunGui {
                initial_file: Some(args[1]),
                restore_file: false,
                reset_session: false,
            },
        )
    } else if args.len() == 1 && args[0] == "--reset-session"@ {
        Ok(CliActionV::RunGui { initial_file: None, restore_file: true, reset_session: true })
    } else if args.len() == 2 && args[0] == "--reset-session"@ && !looks_like_flag_spec(args[1]) {
        Ok(
            CliActionV::RunGui {
                initial_file: Some(args[1]),
                restore_file: true,
                reset_session: true,
            },
        )
    } else if args.len() == 3 && args[0] == "--export-html"@ {
        Ok(CliActionV::ExportHtml { input: args[1], output: args[2] })
    } else if args.len() == 1 && !looks_like_flag_spec(args[0]) {
        Ok(CliActionV::RunGui { initial_file: Some(args[0]), restore_file: true, reset_session: false })
    } else if args.len() == 1 && args[0] == "--export-html"@ {
        Err(missing_arguments_message())
    } else if args.len() == 2 && args[0] == "--export-html"@ {
        Err(missing_output_message())
    } else {
        Err(unsupported_message())
    }
}

/// Whether an argument starts with `-`.
fn looks_like_flag(value: &str) -> (r: bool)
    ensures
        r == looks_like_flag_spec(value@),
{
    let r = crate::text::str_starts_with(value, "-");
    proof {
        reveal_strlit("-");
        if value@.len() > 0 && value@[0] == '-' {
            assert(value@.subrange(0, 1) =~= "-"@);
        }
        if r {
            assert(value@.subrange(0, 1)[0] == value@[0]);
            assert("-"@[0] == '-');
        }
    }
    r
}

/// The action the arguments (without the program name) ask for, or the
/// message to show for arguments it does not accept.
pub fn parse_args(args: Vec<String>) -> (r: Result<CliAction, String>)
    ensures
        match r {
            Ok(action) => parse_args_spec(args@.map_values(|a: String| a@)) == Ok::<
                CliActionV,
                Seq<char>,
            >(action@),
            Err(message) => parse_args_spec(args@.map_values(|a: String| a@)) == Err::<
                CliActionV,
                Seq<char>,
            >(message@),
        },
{
    let ghost av = args@.map_values(|a: String| a@);
    let n = args.len();
    if n == 0 {
        return Ok(CliAction::RunGui { initial_file: None, restore_file: true, reset_session: false });
    }
    assert(av[0] == args@[0]@);
    let first = args[0].as_str();
    if n == 1 && (str_eq(first, "--help") || str_eq(first, "-h")) {
        return Ok(CliAction::PrintHelp);
    }
    if n == 1 && (str_eq(first, "--version") || str_eq(first, "-V")) {
        return Ok(CliAction::PrintVersion);
    }
    if n == 1 && str_eq(first, "--no-restore-file") {
        return Ok(
            CliAction::RunGui { initial_file: None, restore_file: false, reset_session: false },
        );
    }
    if n == 2 {
        assert(av[1] == args@[1]@);
    }
    if n == 2 && str_eq(first, "--no-restore-file") && !looks_like_flag(args[1].as_str()) {
        return Ok(
            CliAction::RunGui {
                initial_file: Some(args[1].clone()),
                restore_file: false,
                reset_session: false,
            },
        );
    }
    if n == 1 && str_eq(first, "--reset-session") {
        return Ok(
            CliAction::RunGui { initial_file: None, restore_file: true, reset_session: true },
        );
    }
    if n == 2 && str_eq(first, "--reset-session") && !looks_like_flag(args[1].as_str()) {
        return Ok(
            CliAction::RunGui {
                initial_file: Some(args[1].clone()),
                restore_file: true,
                reset_session: true,
            },
        );
    }
    if n == 3 && str_eq(first, "--export-html") {
        assert(av[1] == args@[1]@);
        assert(av[2] == args@[2]@);
        return Ok(CliAction::ExportHtml { input: args[1].clone(), output: args[2].clone() });
    }
    if n == 1 && !looks_like_flag(first) {
        return Ok(
            CliAction::RunGui {
                initial_file: Some(args[0].clone()),
                restore_file: true,
                reset_session: false,
            },
        );
    }
    if n == 1 && str_eq(first, "--export-html") {
        return Err(
            to_owned_string(
                "Missing arguments for --export-html. Usage: oxidemd --export-html <input.md> <output.html>",
            ),
        );
    }
    if n == 2 && str_eq(first, "--export-html") {
        return Err(
            to_owned_string(
                "Missing output file for --export-html. Usage: oxidemd --export-html <input.md> <output.html>",
            ),
        );
    }
    Err(to_owned_string("Unsupported arguments. Use --help for usage."))
}

/// The usage text.
pub fn help_text() -> (r: &'static str)
    ensures
        r@ == help_text_spec(),
{
    "OxideMD\n\nUsage:\n  oxidemd [file.md]\n  oxidemd --no-restore-file [file.md]\n  oxidemd --export-html <input.md> <output.html>\n  oxidemd --help\n  oxidemd --version\n\nOptions:\n  --no-restore-file  Start without reopening the previous file.\n  --export-html    Export a Markdown file as HTML without opening the GUI.\n  -h, --help       Show this help text.\n  -V, --version    Show the OxideMD version.\n"
}

/// The usage text.
pub open spec fn help_text_spec() -> Seq<char> {
    "OxideMD\n\nUsage:\n  oxidemd [file.md]\n  oxidemd --no-restore-file [file.md]\n  oxidemd --export-html <input.md> <output.html>\n  oxidemd --help\n  oxidemd --version\n\nOptions:\n  --no-restore-file  Start without reopening the previous file.\n  --export-html    Export a Markdown file as HTML without opening the GUI.\n  -h, --help       Show this help text.\n  -V, --version    Show the OxideMD version.\n"@
}

/// The window options for a `RunGui` action; the other actions do not open
/// a window.
pub fn gui_launch_options(action: CliAction) -> (r: Option<GuiLaunchOptions>)
    ensures
        match action {
            CliAction::RunGui { initial_file, restore_file, reset_session } => r matches Some(o)
                && o.initial_file == initial_file && o.restore_file == restore_file
                && o.reset_session == reset_session,
            _ => r is None,
        },
{
    match action {
        CliAction::RunGui { initial_file, restore_file, reset_session } => Some(
            GuiLaunchOptions { initial_file, restore_file, reset_session },
        ),
        _ => None,
    }
}

/// The short form a documented flag also has: `-h` for `--help`, `-V` for
/// `--version`; any other argument is its own.
pub open spec fn short_flag(a: Seq<char>) -> Seq<char> {
    if a == "--help"@ {
        "-h"@
    } else if a == "--version"@ {
        "-V"@
    } else {
        a
    }
}

/// The long and the short form of a flag ask for the same: a single
/// argument gives the same action as its short form; a lone `--help` or
/// `-h` prints the help and a lone `--version` or `-V` prints the version,
/// and nothing else prints either.
pub proof fn law_flag_forms_agree(a: Seq<char>, args: Seq<Seq<char>>)
    ensures
        parse_args_spec(seq![a]) == parse_args_spec(seq![short_flag(a)]),
        parse_args_spec(seq!["--help"@]) == Ok::<CliActionV, Seq<char>>(CliActionV::PrintHelp),
        parse_args_spec(seq!["-h"@]) == Ok::<CliActionV, Seq<char>>(CliActionV::PrintHelp),
        parse_args_spec(seq!["--version"@]) == Ok::<CliActionV, Seq<char>>(CliActionV::PrintVersion),
        parse_args_spec(seq!["-V"@]) == Ok::<CliActionV, Seq<char>>(CliActionV::PrintVersion),
        parse_args_spec(args) == Ok::<CliActionV, Seq<char>>(CliActionV::PrintVersion) ==> args
            =~= seq!["--version"@] || args =~= seq!["-V"@],
        parse_args_spec(args) == Ok::<CliActionV, Seq<char>>(CliActionV::PrintHelp) ==> args
            =~= seq!["--help"@] || args =~= seq!["-h"@],
{
    reveal_strlit("--help");
    reveal_strlit("-h");
    reveal_strlit("--version");
    reveal_strlit("-V");
    reveal_strlit("--no-restore-file");
    reveal_strlit("--reset-session");
    reveal_strlit("--export-html");
    assert(seq!["--help"@][0] == "--help"@);
    assert(seq!["-h"@][0] == "-h"@);
    assert(seq!["--version"@][0] == "--version"@);
    assert(seq!["-V"@][0] == "-V"@);
    assert("--help"@ != "-h"@);
    assert("--version"@ != "--help"@) by {
        assert("--version"@[2] != "--help"@[2]);
    }
    assert("-V"@ != "-h"@) by {
        assert("-V"@[1] != "-h"@[1]);
    }
    assert("--version"@ != "--no-restore-file"@);
    assert("--version"@ != "--reset-session"@);
    assert("--version"@ != "--export-html"@);
    assert("-V"@ != "--no-restore-file"@);
    assert("-V"@ != "--reset-session"@);
    assert("-V"@ != "--export-html"@);
    assert("-h"@ != "--no-restore-file"@);
    assert("-h"@ != "--reset-session"@);
    assert("-h"@ != "--export-html"@);
    assert("--help"@ != "--no-restore-file"@);
    assert("--help"@ != "--reset-session"@);
    assert("--help"@ != "--export-html"@);
    assert(seq![short_flag(a)][0] == short_flag(a));
    assert(seq![a][0] == a);
    if args.len() == 1 {
        assert(args =~= seq![args[0]]);
    }
}

} // verus!
