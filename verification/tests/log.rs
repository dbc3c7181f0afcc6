use crossterm::style::force_color_output;
use io_watch::diff::{comparable, Change, ChangeTag};
use io_watch::log::Log;
use io_watch::style::{assemble, paint, pieces, render, Paint, Span};
use io_watch::verdict::TestResult;
use std::path::{Path, PathBuf};

fn plain(text: &str) -> Span {
    Span { paint: None, text: text.to_string() }
}

fn styled(paint: Paint, text: &str) -> Span {
    Span { paint: Some(paint), text: text.to_string() }
}

fn change(tag: ChangeTag, text: &str) -> Change {
    Change { tag, text: text.to_string() }
}

fn comparison() -> Vec<Span> {
    vec![
        plain(" expected:\n"),
        plain("  │"),
        plain("a\n"),
        styled(Paint::DarkRed, "  ┃"),
        styled(Paint::BoldDarkRed, "b\n"),
        plain("  │"),
        plain("c\n"),
        plain("\n"),
        plain(" actual:\n"),
        plain("  │"),
        plain("a\n"),
        styled(Paint::DarkGreen, "  ┃"),
        styled(Paint::BoldDarkGreen, "x\n"),
        plain("  │"),
        plain("c\n"),
        plain("\n"),
    ]
}

#[test]
fn paths_are_shown_in_quotes() {
    assert_eq!(styled(Paint::Magenta, "'d/a.cpp'"), Log::format_path(Path::new("d/a.cpp")));
}

#[test]
fn comparisons_show_each_side() {
    assert_eq!(
        comparison(),
        Log::format_comparison(&vec![
            change(ChangeTag::Equal, "a\n"),
            change(ChangeTag::Delete, "b\n"),
            change(ChangeTag::Insert, "x\n"),
            change(ChangeTag::Equal, "c\n"),
        ]),
    );
}

#[test]
fn texts_are_compared_line_by_line() {
    assert_eq!(comparison(), Log::format_output("a\nx\nc\n", Some("a\nb\nc\n")));
}

#[test]
fn each_side_of_a_comparison_is_complete() {
    let expected = "a\nb\nc\na\nb\nb\na";
    let actual = "c\nb\na\nb\na\nc\n";
    let spans = Log::format_output(actual, Some(expected));
    let mut sides = vec![String::new(), String::new()];
    let mut side = 0;
    let mut i = 0;
    while i < spans.len() {
        if spans[i].text == " actual:\n" {
            side = 1;
        } else if spans[i].text.starts_with("  │") || spans[i].text.starts_with("  ┃") {
            sides[side] += &spans[i + 1].text;
            i += 1;
        }
        i += 1;
    }
    assert_eq!(expected, sides[0]);
    assert_eq!(actual, sides[1]);
}

#[test]
fn output_is_shown_line_by_line() {
    assert_eq!(
        vec![plain(" stdout:\n"), plain("a\nb\n"), plain("\n")],
        Log::format_output("a\r\nb", None),
    );
    assert_eq!(
        vec![plain(" stdout:\n"), plain(""), plain("\n")],
        Log::format_output("", None),
    );
}

#[test]
fn events_are_reported() {
    let path = PathBuf::from("d/a.cpp");
    let shown = || styled(Paint::Magenta, "'d/a.cpp'");
    assert_eq!(
        vec![plain("  "), styled(Paint::Grey, "Modified"), plain(" "), shown(), plain("\n")],
        Log::Modified(path.clone()).spans(),
    );
    assert_eq!(
        vec![
            plain("=== "),
            styled(Paint::BoldDarkYellow, "Could not detect source file of "),
            shown(),
            plain("\n"),
        ],
        Log::SourceNotFound(path.clone()).spans(),
    );
    assert_eq!(
        vec![plain(" "), styled(Paint::Cyan, "Compiling"), plain(" "), shown(), plain("...\n")],
        Log::Compiling(path.clone()).spans(),
    );
    assert_eq!(
        vec![plain("   "), styled(Paint::Cyan, "Testing"), plain(" "), shown(), plain("...\n")],
        Log::Testing(path).spans(),
    );
}

#[test]
fn compile_results_are_reported() {
    let good = || {
        vec![
            plain("=== "),
            styled(Paint::BoldDarkGreen, "Compilation Succeeded"),
            plain("\n"),
        ]
    };
    assert_eq!(good(), Log::CompileResult(Ok(None)).spans());
    let mut warned = good();
    warned.push(styled(Paint::BoldDarkYellow, "warning"));
    warned.push(plain(": "));
    warned.push(plain("unused"));
    warned.push(plain("\n"));
    assert_eq!(warned, Log::CompileResult(Ok(Some("unused".to_string()))).spans());
    assert_eq!(
        vec![
            plain("=== "),
            styled(Paint::BoldDarkRed, "Compilation Failed"),
            plain("\n"),
            plain("bad"),
            plain("\n"),
        ],
        Log::CompileResult(Err("bad".to_string())).spans(),
    );
}

// Whether colours are written is one flag of the process, so that one test sets it.
#[test]
fn styles_are_written_as_the_flag_of_the_process_says() {
    force_color_output(false);
    assert_eq!("\u{1b}[mx\u{1b}[m", paint("x", Paint::Grey));
    assert_eq!("\u{1b}[m\u{1b}[1mx\u{1b}[0m", paint("x", Paint::BoldDarkRed));
    assert_eq!("a\u{1b}[mb\u{1b}[m", render(&vec![plain("a"), styled(Paint::Cyan, "b")]));

    force_color_output(true);
    assert_eq!("\u{1b}[38;5;7mx\u{1b}[39m", paint("x", Paint::Grey));
    assert_eq!("\u{1b}[38;5;14mx\u{1b}[39m", paint("x", Paint::Cyan));
    assert_eq!("\u{1b}[38;5;13mx\u{1b}[39m", paint("x", Paint::Magenta));
    assert_eq!("\u{1b}[38;5;1mx\u{1b}[39m", paint("x", Paint::DarkRed));
    assert_eq!("\u{1b}[38;5;2mx\u{1b}[39m", paint("x", Paint::DarkGreen));
    assert_eq!("\u{1b}[38;5;1m\u{1b}[1mx\u{1b}[0m", paint("x", Paint::BoldDarkRed));
    assert_eq!("\u{1b}[38;5;2m\u{1b}[1mx\u{1b}[0m", paint("x", Paint::BoldDarkGreen));
    assert_eq!("\u{1b}[38;5;3m\u{1b}[1mx\u{1b}[0m", paint("x", Paint::BoldDarkYellow));

    assert_eq!("", render(&Vec::new()));
    let spans = vec![plain("a"), styled(Paint::Cyan, "b"), plain("c")];
    assert_eq!(vec!["a", "\u{1b}[38;5;14mb\u{1b}[39m", "c"], pieces(&spans));
    assert_eq!("a\u{1b}[38;5;14mb\u{1b}[39mc", render(&spans));

    let text = |result: TestResult| Log::TestResult(result).text();
    assert_eq!(
        "=== \u{1b}[38;5;2m\u{1b}[1mExecution Succeeded\u{1b}[0m\n stdout:\na\n\n",
        text(TestResult::ExecutionSucceeded { stdout: "a".to_string() }),
    );
    assert_eq!(
        "=== \u{1b}[38;5;1m\u{1b}[1mExecution Failed\u{1b}[0m\n status: exit status: 1\n \
         stdout:\n\n",
        text(TestResult::ExecutionFailed {
            stdout: "".to_string(),
            status: "exit status: 1".to_string(),
        }),
    );
    assert_eq!(
        "=== \u{1b}[38;5;1m\u{1b}[1mTime Limit Exceeded\u{1b}[0m\n stdout:\na\n\n",
        text(TestResult::TimeLimitExceeded { stdout: "a\n".to_string() }),
    );
    assert_eq!(
        "=== \u{1b}[38;5;2m\u{1b}[1mAssertion Succeeded\u{1b}[0m\n",
        text(TestResult::AssertionSucceeded),
    );
    assert_eq!(
        "=== \u{1b}[38;5;1m\u{1b}[1mAssertion Failed\u{1b}[0m\n expected:\n\u{1b}[38;5;1m  \
         ┃\u{1b}[39m\u{1b}[38;5;1m\u{1b}[1ma\n\u{1b}[0m\n actual:\n\u{1b}[38;5;2m  \
         ┃\u{1b}[39m\u{1b}[38;5;2m\u{1b}[1mb\n\u{1b}[0m\n",
        text(TestResult::AssertionFailed {
            expected: "a\n".to_string(),
            actual: "b\n".to_string(),
        }),
    );
}

#[test]
fn pieces_are_put_together_in_order() {
    assert_eq!("", assemble(&Vec::new()));
    let three = vec!["a".to_string(), "b\n".to_string(), "c".to_string()];
    assert_eq!("ab\nc", assemble(&three));
    assert_eq!(vec!["a", "b"], pieces(&vec![plain("a"), plain("b")]));
}

#[test]
fn same_texts_show_thin_bars_alone() {
    assert_eq!(
        vec![
            plain(" expected:\n"),
            plain("  │"),
            plain("a\n"),
            plain("  │"),
            plain("b"),
            plain("\n"),
            plain(" actual:\n"),
            plain("  │"),
            plain("a\n"),
            plain("  │"),
            plain("b"),
            plain("\n"),
        ],
        Log::format_output("a\nb", Some("a\nb")),
    );
}

#[test]
fn a_comparison_reads_as_both_texts_with_bars() {
    let spans = Log::format_output("a\nx\nc", Some("a\nb\nc\n"));
    let text: String = spans.iter().map(|s| s.text.as_str()).collect();
    assert_eq!(" expected:\n  │a\n  ┃b\n  ┃c\n\n actual:\n  │a\n  ┃x\n  ┃c\n", text);
}

#[test]
fn compared_lines_end_at_carriage_returns_too() {
    assert_eq!(
        vec![
            plain(" expected:\n"),
            plain("  │"),
            plain("a\r"),
            plain("  │"),
            plain("b\r\n"),
            styled(Paint::DarkRed, "  ┃"),
            styled(Paint::BoldDarkRed, "c"),
            plain("\n"),
            plain(" actual:\n"),
            plain("  │"),
            plain("a\r"),
            plain("  │"),
            plain("b\r\n"),
            plain("\n"),
        ],
        Log::format_output("a\rb\r\n", Some("a\rb\r\nc")),
    );
}

#[test]
fn ordinary_texts_can_be_compared() {
    assert!(comparable("", ""));
    assert!(comparable("a\r\nb\rc", "\n\r\n"));
    assert!(comparable("a\nb", &"x\n".repeat(1000)));
    assert!(Log::CompileResult(Ok(None)).is_reportable());
    assert!(Log::TestResult(TestResult::AssertionFailed {
        expected: "a\n".to_string(),
        actual: "b\n".to_string(),
    })
    .is_reportable());
}

#[test]
fn long_texts_are_compared_line_by_line() {
    let expected: String = (0..300).map(|i| format!("{i}\n")).collect();
    let actual: String = (0..300).filter(|i| *i != 150).map(|i| format!("{i}\n")).collect();
    let spans = Log::format_output(&actual, Some(&expected));
    let thick: Vec<&Span> = spans.iter().filter(|s| s.paint.is_some()).collect();
    assert_eq!(
        vec![&styled(Paint::DarkRed, "  ┃"), &styled(Paint::BoldDarkRed, "150\n")],
        thick,
    );
    assert_eq!(2 * 300 + 2 * 299 + 4, spans.len());
}
