//! What the watcher reports, as styled text.
use crate::diff::{
    can_compare, change_views, comparable, diff_lines, ended_lines, is_difference, law_few_lines,
    line_changes, new_side, old_side, Change, ChangeTag,
};
use crate::paths::{path_bytes, path_of, shown, shown_path};
use crate::style::{is_rendered, plain, render, span_views, styled, Paint, Span};
use crate::text::{
    join_lines, law_lines_put_together, law_unlines, lines, lines_of, unlines, utf8_text,
};
use crate::verdict::{TestResult, TestResultView};
use std::path::{Path, PathBuf};
use vstd::prelude::*;
use vstd::seq_lib::lemma_flatten_concat;
use vstd::string::StringExecFns;

verus! {

/// An event that is reported.
pub enum Log {
    /// A watched file was modified.
    Modified(PathBuf),
    /// No source file was found for a test case.
    SourceNotFound(PathBuf),
    /// A source file is being compiled.
    Compiling(PathBuf),
    /// A compilation succeeded, perhaps with warnings, or failed with a message.
    CompileResult(Result<Option<String>, String>),
    /// The tests of a source file are being run.
    Testing(PathBuf),
    /// A test was run.
    TestResult(TestResult),
}

/// The two texts that are shown where a test failed.
#[derive(Debug, PartialEq, Eq, Clone, Copy, Structural)]
pub enum Side {
    Expected,
    Actual,
}

/// A path as it is reported: in quotes.
pub open spec fn path_span(path: &Path) -> (Option<Paint>, Seq<char>) {
    styled(Paint::Magenta, "'"@ + shown_path(path) + "'"@)
}

/// What is shown of a change on one side: nothing where it does not stand on that side, and
/// otherwise a bar and the text, both of them styled where the change stands on that side alone.
pub open spec fn change_spans(change: (ChangeTag, Seq<char>), side: Side) -> Seq<
    (Option<Paint>, Seq<char>),
> {
    match (change.0, side) {
        (ChangeTag::Equal, _) => seq![plain("  │"@), plain(change.1)],
        (ChangeTag::Delete, Side::Expected) => seq![
            styled(Paint::DarkRed, "  ┃"@),
            styled(Paint::BoldDarkRed, change.1),
        ],
        (ChangeTag::Insert, Side::Actual) => seq![
            styled(Paint::DarkGreen, "  ┃"@),
            styled(Paint::BoldDarkGreen, change.1),
        ],
        _ => seq![],
    }
}

/// What is shown of changes on one side, in order.
pub open spec fn side_spans(changes: Seq<(ChangeTag, Seq<char>)>, side: Side) -> Seq<
    (Option<Paint>, Seq<char>),
>
    decreases changes.len(),
{
    if changes.len() == 0 {
        seq![]
    } else {
        side_spans(changes.drop_last(), side) + change_spans(changes.last(), side)
    }
}

/// A failed comparison: the expected text, and below it the actual one.
pub open spec fn comparison_spans(changes: Seq<(ChangeTag, Seq<char>)>) -> Seq<
    (Option<Paint>, Seq<char>),
> {
    seq![plain(" expected:\n"@)] + side_spans(changes, Side::Expected) + seq![plain("\n"@)]
        + seq![plain(" actual:\n"@)] + side_spans(changes, Side::Actual) + seq![plain("\n"@)]
}

/// The text of spans, without their styles.
pub open spec fn unstyled(spans: Seq<(Option<Paint>, Seq<char>)>) -> Seq<char> {
    spans.map_values(|s: (Option<Paint>, Seq<char>)| s.1).flatten()
}

/// The bar in front of a change: a thin one where it stands on both sides, and else a thick one.
pub open spec fn bar(tag: ChangeTag) -> Seq<char> {
    if tag == ChangeTag::Equal {
        "  │"@
    } else {
        "  ┃"@
    }
}

/// The texts of changes in order, each with its bar in front.
pub open spec fn barred(changes: Seq<(ChangeTag, Seq<char>)>) -> Seq<char> {
    changes.map_values(|c: (ChangeTag, Seq<char>)| bar(c.0) + c.1).flatten()
}

/// The changes that are shown on one side.
pub open spec fn on_side(changes: Seq<(ChangeTag, Seq<char>)>, side: Side) -> Seq<
    (ChangeTag, Seq<char>),
> {
    match side {
        Side::Expected => old_side(changes),
        Side::Actual => new_side(changes),
    }
}

/// The text of spans put one behind the other.
proof fn lemma_unstyled_concat(
    first: Seq<(Option<Paint>, Seq<char>)>,
    second: Seq<(Option<Paint>, Seq<char>)>,
)
    ensures
        unstyled(first + second) == unstyled(first) + unstyled(second),
{
    let text = |s: (Option<Paint>, Seq<char>)| s.1;
    assert((first + second).map_values(text) == first.map_values(text) + second.map_values(text));
    lemma_flatten_concat(first.map_values(text), second.map_values(text));
}

/// The text of one span.
proof fn lemma_unstyled_one(span: (Option<Paint>, Seq<char>))
    ensures
        unstyled(seq![span]) == span.1,
{
    let texts = seq![span].map_values(|s: (Option<Paint>, Seq<char>)| s.1);
    texts.lemma_flatten_one_element();
}

/// The text of one side of a comparison.
proof fn lemma_unstyled_side(changes: Seq<(ChangeTag, Seq<char>)>, side: Side)
    ensures
        unstyled(side_spans(changes, side)) == barred(on_side(changes, side)),
    decreases changes.len(),
{
    reveal(Seq::filter);
    if changes.len() > 0 {
        let rest = changes.drop_last();
        let change = changes.last();
        let more = change_spans(change, side);
        let shown = on_side(rest, side);
        let with_bar = |c: (ChangeTag, Seq<char>)| bar(c.0) + c.1;
        lemma_unstyled_side(rest, side);
        lemma_unstyled_concat(side_spans(rest, side), more);
        if more.len() == 0 {
            assert(on_side(changes, side) == shown);
            assert(side_spans(rest, side) + more == side_spans(rest, side));
        } else {
            assert(on_side(changes, side) == shown.push(change));
            assert(shown.push(change).map_values(with_bar) == shown.map_values(with_bar).push(
                with_bar(change),
            ));
            shown.map_values(with_bar).lemma_flatten_push(with_bar(change));
            assert(more == seq![more[0]] + seq![more[1]]);
            lemma_unstyled_concat(seq![more[0]], seq![more[1]]);
            lemma_unstyled_one(more[0]);
            lemma_unstyled_one(more[1]);
        }
    }
}

/// Without its styles, a comparison reads as the lines of the one side and then those of the other,
/// complete and in order, each with its bar in front.
pub proof fn law_comparison_text(changes: Seq<(ChangeTag, Seq<char>)>)
    ensures
        unstyled(comparison_spans(changes)) == " expected:\n"@ + barred(old_side(changes)) + "\n"@
            + " actual:\n"@ + barred(new_side(changes)) + "\n"@,
{
    let top = seq![plain(" expected:\n"@)];
    let middle = seq![plain("\n"@)];
    let bottom = seq![plain(" actual:\n"@)];
    let expected = side_spans(changes, Side::Expected);
    let actual = side_spans(changes, Side::Actual);
    lemma_unstyled_concat(top, expected);
    lemma_unstyled_concat(top + expected, middle);
    lemma_unstyled_concat(top + expected + middle, bottom);
    lemma_unstyled_concat(top + expected + middle + bottom, actual);
    lemma_unstyled_concat(top + expected + middle + bottom + actual, middle);
    lemma_unstyled_one(plain(" expected:\n"@));
    lemma_unstyled_one(plain("\n"@));
    lemma_unstyled_one(plain(" actual:\n"@));
    lemma_unstyled_side(changes, Side::Expected);
    lemma_unstyled_side(changes, Side::Actual);
}

/// A comparison in which every change stands on both sides shows nothing styled, and so no thick
/// bar; both of its sides show the same.
pub proof fn law_equal_sides_plain(changes: Seq<(ChangeTag, Seq<char>)>)
    requires
        forall|i: int| 0 <= i < changes.len() ==> (#[trigger] changes[i]).0 == ChangeTag::Equal,
    ensures
        forall|i: int|
            0 <= i < comparison_spans(changes).len() ==> (#[trigger] comparison_spans(
                changes,
            )[i]).0 is None,
        old_side(changes) == changes,
        new_side(changes) == changes,
    decreases changes.len(),
{
    reveal(Seq::filter);
    if changes.len() > 0 {
        let rest = changes.drop_last();
        assert forall|i: int| 0 <= i < rest.len() implies (#[trigger] rest[i]).0
            == ChangeTag::Equal by {
            assert(rest[i] == changes[i]);
        }
        law_equal_sides_plain(rest);
        assert(changes.last().0 == ChangeTag::Equal);
        lemma_side_plain(changes, Side::Expected);
        lemma_side_plain(changes, Side::Actual);
    }
}

/// One side of a comparison in which every change stands on both sides shows nothing styled.
proof fn lemma_side_plain(changes: Seq<(ChangeTag, Seq<char>)>, side: Side)
    requires
        forall|i: int| 0 <= i < changes.len() ==> (#[trigger] changes[i]).0 == ChangeTag::Equal,
    ensures
        forall|i: int|
            0 <= i < side_spans(changes, side).len() ==> (#[trigger] side_spans(
                changes,
                side,
            )[i]).0 is None,
    decreases changes.len(),
{
    if changes.len() > 0 {
        let rest = changes.drop_last();
        assert forall|i: int| 0 <= i < rest.len() implies (#[trigger] rest[i]).0
            == ChangeTag::Equal by {
            assert(rest[i] == changes[i]);
        }
        lemma_side_plain(rest, side);
        assert(changes.last().0 == ChangeTag::Equal);
    }
}

/// What a program wrote, and where it was expected to write something else, that too.
pub open spec fn output_spans(output: Seq<char>, expected: Option<Seq<char>>) -> Seq<
    (Option<Paint>, Seq<char>),
> {
    match expected {
        Some(wanted) => comparison_spans(line_changes(wanted, output)),
        None => seq![plain(" stdout:\n"@), plain(unlines(lines_of(output))), plain("\n"@)],
    }
}

/// The first line of the report of a result.
pub open spec fn headline(paint: Paint, text: Seq<char>) -> Seq<(Option<Paint>, Seq<char>)> {
    seq![plain("=== "@), styled(paint, text), plain("\n"@)]
}

/// The report of a test.
pub open spec fn result_spans(result: TestResultView) -> Seq<(Option<Paint>, Seq<char>)> {
    match result {
        TestResultView::ExecutionSucceeded { stdout } => headline(
            Paint::BoldDarkGreen,
            "Execution Succeeded"@,
        ) + output_spans(stdout, None),
        TestResultView::ExecutionFailed { stdout, status } => headline(
            Paint::BoldDarkRed,
            "Execution Failed"@,
        ) + seq![plain(" status: "@), plain(status), plain("\n"@)] + output_spans(stdout, None),
        TestResultView::TimeLimitExceeded { stdout } => headline(
            Paint::BoldDarkRed,
            "Time Limit Exceeded"@,
        ) + output_spans(stdout, None),
        TestResultView::AssertionSucceeded => headline(
            Paint::BoldDarkGreen,
            "Assertion Succeeded"@,
        ),
        TestResultView::AssertionFailed { expected, actual } => headline(
            Paint::BoldDarkRed,
            "Assertion Failed"@,
        ) + output_spans(actual, Some(expected)),
    }
}

/// The report of an event.
pub open spec fn log_spans(log: Log) -> Seq<(Option<Paint>, Seq<char>)> {
    match log {
        Log::Modified(path) => seq![
            plain("  "@),
            styled(Paint::Grey, "Modified"@),
            plain(" "@),
            path_span(path_of(path)),
            plain("\n"@),
        ],
        Log::SourceNotFound(path) => seq![
            plain("=== "@),
            styled(Paint::BoldDarkYellow, "Could not detect source file of "@),
            path_span(path_of(path)),
            plain("\n"@),
        ],
        Log::Compiling(path) => seq![
            plain(" "@),
            styled(Paint::Cyan, "Compiling"@),
            plain(" "@),
            path_span(path_of(path)),
            plain("...\n"@),
        ],
        Log::CompileResult(Ok(warning)) => headline(
            Paint::BoldDarkGreen,
            "Compilation Succeeded"@,
        ) + match warning {
            Some(warning) => seq![
                styled(Paint::BoldDarkYellow, "warning"@),
                plain(": "@),
                plain(warning@),
                plain("\n"@),
            ],
            None => seq![],
        },
        Log::CompileResult(Err(message)) => headline(
            Paint::BoldDarkRed,
            "Compilation Failed"@,
        ) + seq![plain(message@), plain("\n"@)],
        Log::Testing(path) => seq![
            plain("   "@),
            styled(Paint::Cyan, "Testing"@),
            plain(" "@),
            path_span(path_of(path)),
            plain("...\n"@),
        ],
        Log::TestResult(result) => result_spans(result@),
    }
}

/// One span more has its text behind the others, and stands among the styled ones where it is styled.
proof fn lemma_push_span(spans: Seq<(Option<Paint>, Seq<char>)>, span: (Option<Paint>, Seq<char>))
    ensures
        spans.push(span).map_values(|s: (Option<Paint>, Seq<char>)| s.1).flatten()
            == spans.map_values(
            |s: (Option<Paint>, Seq<char>)| s.1,
        ).flatten() + span.1,
        span.0 is Some ==> spans.push(span).filter(|s: (Option<Paint>, Seq<char>)| s.0 is Some)
            == spans.filter(|s: (Option<Paint>, Seq<char>)| s.0 is Some).push(span),
        span.0 is None ==> spans.push(span).filter(|s: (Option<Paint>, Seq<char>)| s.0 is Some)
            == spans.filter(|s: (Option<Paint>, Seq<char>)| s.0 is Some),
{
    reveal(Seq::filter);
    let text = |s: (Option<Paint>, Seq<char>)| s.1;
    assert(spans.push(span).map_values(text) == spans.map_values(text).push(span.1));
    spans.map_values(text).lemma_flatten_push(span.1);
    assert(spans.push(span).drop_last() == spans);
}

/// No spans have no text, and none of them is styled.
proof fn lemma_no_spans()
    ensures
        Seq::<(Option<Paint>, Seq<char>)>::empty().map_values(
            |s: (Option<Paint>, Seq<char>)| s.1,
        ).flatten() == Seq::<char>::empty(),
        Seq::<(Option<Paint>, Seq<char>)>::empty().filter(|s: (Option<Paint>, Seq<char>)| s.0 is Some)
            == Seq::<(Option<Paint>, Seq<char>)>::empty(),
{
    reveal(Seq::filter);
    let none = Seq::<(Option<Paint>, Seq<char>)>::empty();
    assert(none.map_values(|s: (Option<Paint>, Seq<char>)| s.1) == Seq::<Seq<char>>::empty());
}

/// Three spans.
proof fn lemma_three(
    a: (Option<Paint>, Seq<char>),
    b: (Option<Paint>, Seq<char>),
    c: (Option<Paint>, Seq<char>),
)
    ensures
        seq![a, b, c].map_values(|s: (Option<Paint>, Seq<char>)| s.1).flatten() == a.1 + b.1 + c.1,
        a.0 is None && b.0 is Some && c.0 is None ==> seq![a, b, c].filter(
            |s: (Option<Paint>, Seq<char>)| s.0 is Some,
        ) == seq![b],
        a.0 is None && b.0 is None && c.0 is None ==> seq![a, b, c].filter(
            |s: (Option<Paint>, Seq<char>)| s.0 is Some,
        ) == Seq::<(Option<Paint>, Seq<char>)>::empty(),
{
    let none = Seq::<(Option<Paint>, Seq<char>)>::empty();
    lemma_no_spans();
    lemma_push_span(none, a);
    lemma_push_span(none.push(a), b);
    lemma_push_span(none.push(a).push(b), c);
    assert(none.push(a).push(b).push(c) == seq![a, b, c]);
    assert(none.push(b) == seq![b]);
    assert(Seq::<char>::empty() + a.1 == a.1);
}

/// Three spans of which the one in the middle is styled, and then a path and one more.
proof fn lemma_five(
    a: (Option<Paint>, Seq<char>),
    b: (Option<Paint>, Seq<char>),
    c: (Option<Paint>, Seq<char>),
    d: (Option<Paint>, Seq<char>),
    e: (Option<Paint>, Seq<char>),
)
    requires
        a.0 is None,
        b.0 is Some,
        c.0 is None,
        d.0 is Some,
        e.0 is None,
    ensures
        seq![a, b, c, d, e].map_values(|s: (Option<Paint>, Seq<char>)| s.1).flatten() == a.1 + b.1
            + c.1 + d.1 + e.1,
        seq![a, b, c, d, e].filter(|s: (Option<Paint>, Seq<char>)| s.0 is Some) == seq![b, d],
{
    lemma_three(a, b, c);
    lemma_push_span(seq![a, b, c], d);
    lemma_push_span(seq![a, b, c].push(d), e);
    assert(seq![a, b, c].push(d).push(e) == seq![a, b, c, d, e]);
    assert(seq![b].push(d) == seq![b, d]);
}

/// The reports of events about a path say in full what happened and to which path, and style both.
pub proof fn law_path_reports(path: PathBuf)
    ensures
        ({
            let text = |spans: Seq<(Option<Paint>, Seq<char>)>|
                spans.map_values(|s: (Option<Paint>, Seq<char>)| s.1).flatten();
            let styles = |spans: Seq<(Option<Paint>, Seq<char>)>|
                spans.filter(|s: (Option<Paint>, Seq<char>)| s.0 is Some);
            let quoted = "'"@ + shown_path(path_of(path)) + "'"@;
            let modified = log_spans(Log::Modified(path));
            let missing = log_spans(Log::SourceNotFound(path));
            let compiling = log_spans(Log::Compiling(path));
            let testing = log_spans(Log::Testing(path));
            &&& text(modified) == "  "@ + "Modified"@ + " "@ + quoted + "\n"@
            &&& styles(modified) == seq![
                (Some(Paint::Grey), "Modified"@),
                (Some(Paint::Magenta), quoted),
            ]
            &&& text(missing) == "=== "@ + "Could not detect source file of "@ + quoted + "\n"@
            &&& styles(missing) == seq![
                (Some(Paint::BoldDarkYellow), "Could not detect source file of "@),
                (Some(Paint::Magenta), quoted),
            ]
            &&& text(compiling) == " "@ + "Compiling"@ + " "@ + quoted + "...\n"@
            &&& styles(compiling) == seq![
                (Some(Paint::Cyan), "Compiling"@),
                (Some(Paint::Magenta), quoted),
            ]
            &&& text(testing) == "   "@ + "Testing"@ + " "@ + quoted + "...\n"@
            &&& styles(testing) == seq![
                (Some(Paint::Cyan), "Testing"@),
                (Some(Paint::Magenta), quoted),
            ]
        }),
{
    let at = path_span(path_of(path));
    lemma_five(plain("  "@), styled(Paint::Grey, "Modified"@), plain(" "@), at, plain("\n"@));
    lemma_five(plain(" "@), styled(Paint::Cyan, "Compiling"@), plain(" "@), at, plain("...\n"@));
    lemma_five(plain("   "@), styled(Paint::Cyan, "Testing"@), plain(" "@), at, plain("...\n"@));
    let none = Seq::<(Option<Paint>, Seq<char>)>::empty();
    let start = plain("=== "@);
    let missing = styled(Paint::BoldDarkYellow, "Could not detect source file of "@);
    lemma_no_spans();
    lemma_push_span(none, start);
    lemma_push_span(none.push(start), missing);
    lemma_push_span(none.push(start).push(missing), at);
    lemma_push_span(none.push(start).push(missing).push(at), plain("\n"@));
    assert(Seq::<char>::empty() + start.1 == start.1);
    assert(none.push(missing).push(at) == seq![missing, at]);
    assert(log_spans(Log::SourceNotFound(path)) == none.push(start).push(missing).push(at).push(
        plain("\n"@),
    ));
}

/// The report of a compilation says in full how it ended, and holds all of its message.
pub proof fn law_compile_reports(message: String)
    ensures
        ({
            let text = |spans: Seq<(Option<Paint>, Seq<char>)>|
                spans.map_values(|s: (Option<Paint>, Seq<char>)| s.1).flatten();
            let styles = |spans: Seq<(Option<Paint>, Seq<char>)>|
                spans.filter(|s: (Option<Paint>, Seq<char>)| s.0 is Some);
            let clean = log_spans(Log::CompileResult(Ok(None)));
            let warned = log_spans(Log::CompileResult(Ok(Some(message))));
            let failed = log_spans(Log::CompileResult(Err(message)));
            &&& text(clean) == "=== "@ + "Compilation Succeeded"@ + "\n"@
            &&& styles(clean) == seq![(Some(Paint::BoldDarkGreen), "Compilation Succeeded"@)]
            &&& text(warned) == text(clean) + "warning"@ + ": "@ + message@ + "\n"@
            &&& styles(warned) == seq![
                (Some(Paint::BoldDarkGreen), "Compilation Succeeded"@),
                (Some(Paint::BoldDarkYellow), "warning"@),
            ]
            &&& text(failed) == "=== "@ + "Compilation Failed"@ + "\n"@ + message@ + "\n"@
            &&& styles(failed) == seq![(Some(Paint::BoldDarkRed), "Compilation Failed"@)]
        }),
{
    let good = headline(Paint::BoldDarkGreen, "Compilation Succeeded"@);
    let bad = headline(Paint::BoldDarkRed, "Compilation Failed"@);
    lemma_three(
        plain("=== "@),
        styled(Paint::BoldDarkGreen, "Compilation Succeeded"@),
        plain("\n"@),
    );
    lemma_three(plain("=== "@), styled(Paint::BoldDarkRed, "Compilation Failed"@), plain("\n"@));
    assert(log_spans(Log::CompileResult(Ok(None))) == good);
    let warning = styled(Paint::BoldDarkYellow, "warning"@);
    lemma_push_span(good, warning);
    lemma_push_span(good.push(warning), plain(": "@));
    lemma_push_span(good.push(warning).push(plain(": "@)), plain(message@));
    lemma_push_span(good.push(warning).push(plain(": "@)).push(plain(message@)), plain("\n"@));
    assert(log_spans(Log::CompileResult(Ok(Some(message)))) == good.push(warning).push(
        plain(": "@),
    ).push(plain(message@)).push(plain("\n"@)));
    lemma_push_span(bad, plain(message@));
    lemma_push_span(bad.push(plain(message@)), plain("\n"@));
    assert(log_spans(Log::CompileResult(Err(message))) == bad.push(plain(message@)).push(
        plain("\n"@),
    ));
}

/// What a program wrote is shown in full, line by line. Output whose lines all end in `\n` and that
/// holds no `\r` is shown as it is; where the last line lacks its ending, one is added. None of it is
/// styled.
pub proof fn law_shown_output(output: Seq<char>)
    ensures
        ({
            let spans = output_spans(output, None);
            let text = spans.map_values(|s: (Option<Paint>, Seq<char>)| s.1).flatten();
            &&& forall|i: int| 0 <= i < spans.len() ==> (#[trigger] spans[i]).0 is None
            &&& text == " stdout:\n"@ + lines_of(output).map_values(
                |line: Seq<char>| line.push('\n'),
            ).flatten() + "\n"@
            &&& !output.contains('\r') && (output.len() == 0 || output.last() == '\n') ==> text
                == " stdout:\n"@ + output + "\n"@
            &&& !output.contains('\r') && output.len() > 0 && output.last() != '\n' ==> text
                == " stdout:\n"@ + output.push('\n') + "\n"@
        }),
{
    lemma_three(plain(" stdout:\n"@), plain(unlines(lines_of(output))), plain("\n"@));
    law_unlines(lines_of(output));
    if !output.contains('\r') {
        law_lines_put_together(output);
    }
}

/// The report of a test says in full how it ended, and holds all that is reported of it: the output
/// of a program that was not compared, the status of one that failed, and both outputs of one that
/// wrote something else than was expected.
pub proof fn law_test_reports(
    stdout: Seq<char>,
    status: Seq<char>,
    expected: Seq<char>,
    actual: Seq<char>,
)
    ensures
        ({
            let text = |spans: Seq<(Option<Paint>, Seq<char>)>|
                spans.map_values(|s: (Option<Paint>, Seq<char>)| s.1).flatten();
            let shown = " stdout:\n"@ + lines_of(stdout).map_values(
                |line: Seq<char>| line.push('\n'),
            ).flatten() + "\n"@;
            let changes = line_changes(expected, actual);
            let wanted = changes.filter(|c: (ChangeTag, Seq<char>)| c.0 != ChangeTag::Insert).map_values(
                |c: (ChangeTag, Seq<char>)|
                    (if c.0 == ChangeTag::Equal {
                        "  │"@
                    } else {
                        "  ┃"@
                    }) + c.1,
            ).flatten();
            let written = changes.filter(|c: (ChangeTag, Seq<char>)| c.0 != ChangeTag::Delete).map_values(
                |c: (ChangeTag, Seq<char>)|
                    (if c.0 == ChangeTag::Equal {
                        "  │"@
                    } else {
                        "  ┃"@
                    }) + c.1,
            ).flatten();
            &&& text(result_spans(TestResultView::ExecutionSucceeded { stdout })) == "=== "@
                + "Execution Succeeded"@ + "\n"@ + shown
            &&& text(result_spans(TestResultView::ExecutionFailed { stdout, status })) == "=== "@
                + "Execution Failed"@ + "\n"@ + (" status: "@ + status + "\n"@) + shown
            &&& text(result_spans(TestResultView::TimeLimitExceeded { stdout })) == "=== "@
                + "Time Limit Exceeded"@ + "\n"@ + shown
            &&& text(result_spans(TestResultView::AssertionSucceeded)) == "=== "@
                + "Assertion Succeeded"@ + "\n"@
            &&& text(result_spans(TestResultView::AssertionFailed { expected, actual })) == "=== "@
                + "Assertion Failed"@ + "\n"@ + (" expected:\n"@ + wanted + "\n"@ + " actual:\n"@
                + written + "\n"@)
        }),
{
    lemma_three(plain("=== "@), styled(Paint::BoldDarkGreen, "Execution Succeeded"@), plain("\n"@));
    lemma_three(plain("=== "@), styled(Paint::BoldDarkRed, "Execution Failed"@), plain("\n"@));
    lemma_three(plain("=== "@), styled(Paint::BoldDarkRed, "Time Limit Exceeded"@), plain("\n"@));
    lemma_three(plain("=== "@), styled(Paint::BoldDarkGreen, "Assertion Succeeded"@), plain("\n"@));
    lemma_three(plain("=== "@), styled(Paint::BoldDarkRed, "Assertion Failed"@), plain("\n"@));
    lemma_three(plain(" status: "@), plain(status), plain("\n"@));
    law_shown_output(stdout);
    let shown = output_spans(stdout, None);
    let code = seq![plain(" status: "@), plain(status), plain("\n"@)];
    let failed = headline(Paint::BoldDarkRed, "Execution Failed"@);
    let changes = line_changes(expected, actual);
    lemma_unstyled_concat(headline(Paint::BoldDarkGreen, "Execution Succeeded"@), shown);
    lemma_unstyled_concat(failed, code);
    lemma_unstyled_concat(failed + code, shown);
    lemma_unstyled_concat(headline(Paint::BoldDarkRed, "Time Limit Exceeded"@), shown);
    lemma_unstyled_concat(
        headline(Paint::BoldDarkRed, "Assertion Failed"@),
        comparison_spans(changes),
    );
    law_comparison_text(changes);
    let with_bar = |c: (ChangeTag, Seq<char>)| bar(c.0) + c.1;
    let plainly = |c: (ChangeTag, Seq<char>)|
        (if c.0 == ChangeTag::Equal {
            "  │"@
        } else {
            "  ┃"@
        }) + c.1;
    assert(with_bar =~= plainly);
}

/// The one styled part of the report of a test that was not compared, or that passed, is what it says
/// of how the test ended: in green where it went well, and in red where it did not. Where the outputs
/// differ, the comparison has styled parts too.
pub proof fn law_test_styles(
    stdout: Seq<char>,
    status: Seq<char>,
    expected: Seq<char>,
    actual: Seq<char>,
)
    ensures
        ({
            let styles = |spans: Seq<(Option<Paint>, Seq<char>)>|
                spans.filter(|s: (Option<Paint>, Seq<char>)| s.0 is Some);
            &&& styles(result_spans(TestResultView::ExecutionSucceeded { stdout })) == seq![
                (Some(Paint::BoldDarkGreen), "Execution Succeeded"@),
            ]
            &&& styles(result_spans(TestResultView::ExecutionFailed { stdout, status })) == seq![
                (Some(Paint::BoldDarkRed), "Execution Failed"@),
            ]
            &&& styles(result_spans(TestResultView::TimeLimitExceeded { stdout })) == seq![
                (Some(Paint::BoldDarkRed), "Time Limit Exceeded"@),
            ]
            &&& styles(result_spans(TestResultView::AssertionSucceeded)) == seq![
                (Some(Paint::BoldDarkGreen), "Assertion Succeeded"@),
            ]
            &&& styles(result_spans(TestResultView::AssertionFailed { expected, actual })) == seq![
                (Some(Paint::BoldDarkRed), "Assertion Failed"@),
            ] + styles(output_spans(actual, Some(expected)))
        }),
{
    let styled_only = |s: (Option<Paint>, Seq<char>)| s.0 is Some;
    lemma_three(plain("=== "@), styled(Paint::BoldDarkGreen, "Execution Succeeded"@), plain("\n"@));
    lemma_three(plain("=== "@), styled(Paint::BoldDarkRed, "Execution Failed"@), plain("\n"@));
    lemma_three(plain("=== "@), styled(Paint::BoldDarkRed, "Time Limit Exceeded"@), plain("\n"@));
    lemma_three(plain("=== "@), styled(Paint::BoldDarkGreen, "Assertion Succeeded"@), plain("\n"@));
    lemma_three(plain("=== "@), styled(Paint::BoldDarkRed, "Assertion Failed"@), plain("\n"@));
    lemma_three(plain(" status: "@), plain(status), plain("\n"@));
    lemma_three(plain(" stdout:\n"@), plain(unlines(lines_of(stdout))), plain("\n"@));
    let shown = output_spans(stdout, None);
    let code = seq![plain(" status: "@), plain(status), plain("\n"@)];
    let failed = headline(Paint::BoldDarkRed, "Execution Failed"@);
    Seq::filter_distributes_over_add(
        headline(Paint::BoldDarkGreen, "Execution Succeeded"@),
        shown,
        styled_only,
    );
    Seq::filter_distributes_over_add(failed, code, styled_only);
    Seq::filter_distributes_over_add(failed + code, shown, styled_only);
    Seq::filter_distributes_over_add(
        headline(Paint::BoldDarkRed, "Time Limit Exceeded"@),
        shown,
        styled_only,
    );
    Seq::filter_distributes_over_add(
        headline(Paint::BoldDarkRed, "Assertion Failed"@),
        output_spans(actual, Some(expected)),
        styled_only,
    );
}

/// Each change that stands on a side is shown there as a bar and its whole text, in order. A change on
/// both sides is plain with a thin bar; one on the expected side alone is red, and one on the actual
/// side alone is green, both with a thick bar and the text bold.
pub proof fn law_side_spans(changes: Seq<(ChangeTag, Seq<char>)>, i: int)
    ensures
        ({
            let wanted = changes.filter(|c: (ChangeTag, Seq<char>)| c.0 != ChangeTag::Insert);
            let written = changes.filter(|c: (ChangeTag, Seq<char>)| c.0 != ChangeTag::Delete);
            let expected = side_spans(changes, Side::Expected);
            let actual = side_spans(changes, Side::Actual);
            &&& expected.len() == 2 * wanted.len()
            &&& actual.len() == 2 * written.len()
            &&& 0 <= i < wanted.len() ==> if wanted[i].0 == ChangeTag::Equal {
                expected[2 * i] == (None::<Paint>, "  │"@) && expected[2 * i + 1] == (
                    None::<Paint>,
                    wanted[i].1,
                )
            } else {
                expected[2 * i] == (Some(Paint::DarkRed), "  ┃"@) && expected[2 * i + 1] == (
                    Some(Paint::BoldDarkRed),
                    wanted[i].1,
                )
            }
            &&& 0 <= i < written.len() ==> if written[i].0 == ChangeTag::Equal {
                actual[2 * i] == (None::<Paint>, "  │"@) && actual[2 * i + 1] == (
                    None::<Paint>,
                    written[i].1,
                )
            } else {
                actual[2 * i] == (Some(Paint::DarkGreen), "  ┃"@) && actual[2 * i + 1] == (
                    Some(Paint::BoldDarkGreen),
                    written[i].1,
                )
            }
        }),
    decreases changes.len(),
{
    reveal(Seq::filter);
    if changes.len() > 0 {
        law_side_spans(changes.drop_last(), i);
    }
}

/// Whether a report can be made: the two texts of a failed comparison can be compared.
pub open spec fn can_report(log: Log) -> bool {
    log matches Log::TestResult(TestResult::AssertionFailed { expected, actual }) ==> can_compare(
        expected@,
        actual@,
    )
}

/// A report can be made of every event but a failed comparison, and of that one wherever the texts
/// together have no more lines than can be numbered in 32 bits.
pub proof fn law_can_report(log: Log)
    ensures
        !(log matches Log::TestResult(TestResult::AssertionFailed { .. })) ==> can_report(log),
        log matches Log::TestResult(TestResult::AssertionFailed { expected, actual }) ==> ended_lines(
            expected@,
        ).len() + ended_lines(actual@).len() <= u32::MAX ==> can_report(log),
{
    if let Log::TestResult(TestResult::AssertionFailed { expected, actual }) = log {
        if ended_lines(expected@).len() + ended_lines(actual@).len() <= u32::MAX {
            law_few_lines(expected@, actual@);
        }
    }
}

/// Whether the path that an event is about, if it is about one, is shown as it is where it is text.
pub open spec fn shows_path(log: Log) -> bool {
    match log {
        Log::Modified(path) | Log::SourceNotFound(path) | Log::Compiling(path) | Log::Testing(path) => {
            utf8_text(path_bytes(path_of(path))) matches Some(text) ==> shown_path(path_of(path))
                == text
        },
        _ => true,
    }
}

/// Whether what is shown of two texts is a comparison of them: it reads as the lines of the
/// expected text and then those of the actual one, each line with its bar, and nothing in it is
/// styled where the texts are the same.
pub open spec fn shows_comparison(
    spans: Seq<(Option<Paint>, Seq<char>)>,
    expected: Seq<char>,
    actual: Seq<char>,
) -> bool {
    let changes = line_changes(expected, actual);
    &&& is_difference(changes, expected, actual)
    &&& unstyled(spans) == " expected:\n"@ + barred(old_side(changes)) + "\n"@ + " actual:\n"@
        + barred(new_side(changes)) + "\n"@
    &&& expected == actual ==> forall|i: int|
        0 <= i < spans.len() ==> (#[trigger] spans[i]).0 is None
}

/// Adds a piece of text.
fn add_span(spans: &mut Vec<Span>, span: Span)
    ensures
        span_views(final(spans)@) == span_views(old(spans)@).push(span@),
{
    proof {
        assert(span_views(spans@.push(span)) == span_views(spans@).push(span@));
    }
    spans.push(span);
}

/// Adds a plain piece of text.
fn add_plain(spans: &mut Vec<Span>, text: &str)
    ensures
        span_views(final(spans)@) == span_views(old(spans)@).push(plain(text@)),
{
    add_span(spans, Span { paint: None, text: text.to_owned() });
}

/// Adds a styled piece of text.
fn add_styled(spans: &mut Vec<Span>, paint: Paint, text: &str)
    ensures
        span_views(final(spans)@) == span_views(old(spans)@).push(styled(paint, text@)),
{
    add_span(spans, Span { paint: Some(paint), text: text.to_owned() });
}

/// Adds several pieces of text.
fn add_all(spans: &mut Vec<Span>, more: Vec<Span>)
    ensures
        span_views(final(spans)@) == span_views(old(spans)@) + span_views(more@),
{
    let mut more = more;
    proof {
        assert(span_views(spans@ + more@) == span_views(spans@) + span_views(more@));
    }
    spans.append(&mut more);
}

/// Adds the first line of the report of a result.
fn add_headline(spans: &mut Vec<Span>, paint: Paint, text: &str)
    ensures
        span_views(final(spans)@) == span_views(old(spans)@) + headline(paint, text@),
{
    add_plain(spans, "=== ");
    add_styled(spans, paint, text);
    add_plain(spans, "\n");
}

/// Adds what is shown of changes on one side.
fn add_side(spans: &mut Vec<Span>, changes: &Vec<Change>, side: Side)
    ensures
        span_views(final(spans)@) == span_views(old(spans)@) + side_spans(
            change_views(changes@),
            side,
        ),
{
    let ghost views = change_views(changes@);
    let mut i: usize = 0;
    while i < changes.len()
        invariant
            i <= changes@.len(),
            views == change_views(changes@),
            span_views(spans@) == span_views(old(spans)@) + side_spans(
                views.take(i as int),
                side,
            ),
        decreases changes@.len() - i,
    {
        let ghost before = span_views(spans@);
        let change = &changes[i];
        match (change.tag, side) {
            (ChangeTag::Equal, _) => {
                add_plain(spans, "  │");
                add_plain(spans, change.text.as_str());
            },
            (ChangeTag::Delete, Side::Expected) => {
                add_styled(spans, Paint::DarkRed, "  ┃");
                add_styled(spans, Paint::BoldDarkRed, change.text.as_str());
            },
            (ChangeTag::Insert, Side::Actual) => {
                add_styled(spans, Paint::DarkGreen, "  ┃");
                add_styled(spans, Paint::BoldDarkGreen, change.text.as_str());
            },
            _ => {},
        }
        proof {
            assert(views.take(i + 1).drop_last() == views.take(i as int));
            assert(span_views(spans@) == before + change_spans(views[i as int], side));
        }
        i += 1;
    }
    assert(views.take(i as int) == views);
}

impl Log {
    /// A path as it is reported.
    pub fn format_path(path: &Path) -> (r: Span)
        ensures
            r@ == path_span(path),
            r.text@ == "'"@ + shown_path(path) + "'"@,
            r.paint == Some(Paint::Magenta),
            utf8_text(path_bytes(path)) matches Some(text) ==> shown_path(path) == text,
    {
        let mut text: String = String::new();
        text.append("'");
        text.append(shown(path).as_str());
        text.append("'");
        Span { paint: Some(Paint::Magenta), text }
    }

    /// A failed comparison, given the changes from the expected text to the actual one.
    pub fn format_comparison(changes: &Vec<Change>) -> (r: Vec<Span>)
        ensures
            span_views(r@) == comparison_spans(change_views(changes@)),
    {
        let mut spans: Vec<Span> = Vec::new();
        add_plain(&mut spans, " expected:\n");
        add_side(&mut spans, changes, Side::Expected);
        add_plain(&mut spans, "\n");
        add_plain(&mut spans, " actual:\n");
        add_side(&mut spans, changes, Side::Actual);
        add_plain(&mut spans, "\n");
        spans
    }

    /// What a program wrote, and where it was expected to write something else, that too.
    pub fn format_output(output: &str, diff_with_expected: Option<&str>) -> (r: Vec<Span>)
        requires
            diff_with_expected matches Some(expected) ==> can_compare(expected@, output@),
        ensures
            span_views(r@) == output_spans(
                output@,
                match diff_with_expected {
                    Some(expected) => Some(expected@),
                    None => None,
                },
            ),
            diff_with_expected is None ==> span_views(r@).map_values(
                |s: (Option<Paint>, Seq<char>)| s.1,
            ).flatten() == " stdout:\n"@ + lines_of(output@).map_values(
                |line: Seq<char>| line.push('\n'),
            ).flatten() + "\n"@,
            diff_with_expected matches Some(expected) ==> shows_comparison(
                span_views(r@),
                expected@,
                output@,
            ),
    {
        match diff_with_expected {
            Some(expected) => {
                let changes = diff_lines(expected, output);
                proof {
                    law_comparison_text(change_views(changes@));
                    if expected@ == output@ {
                        law_equal_sides_plain(change_views(changes@));
                    }
                }
                Log::format_comparison(&changes)
            },
            None => {
                let lines = lines(output);
                let mut spans: Vec<Span> = Vec::new();
                add_plain(&mut spans, " stdout:\n");
                add_plain(&mut spans, join_lines(&lines, 0, lines.len()).as_str());
                add_plain(&mut spans, "\n");
                proof {
                    let all = lines_of(output@);
                    assert(all.subrange(0, all.len() as int) == all);
                    assert(span_views(spans@) == output_spans(output@, None));
                    law_shown_output(output@);
                }
                spans
            },
        }
    }

    /// The report of a test.
    fn result_spans(result: &TestResult) -> (r: Vec<Span>)
        requires
            result matches TestResult::AssertionFailed { expected, actual } ==> can_compare(
                expected@,
                actual@,
            ),
        ensures
            span_views(r@) == result_spans(result@),
            result matches TestResult::AssertionFailed { expected, actual } ==> is_difference(
                line_changes(expected@, actual@),
                expected@,
                actual@,
            ),
    {
        let mut spans: Vec<Span> = Vec::new();
        match result {
            TestResult::ExecutionSucceeded { stdout } => {
                add_headline(&mut spans, Paint::BoldDarkGreen, "Execution Succeeded");
                add_all(&mut spans, Log::format_output(stdout.as_str(), None));
            },
            TestResult::ExecutionFailed { stdout, status } => {
                add_headline(&mut spans, Paint::BoldDarkRed, "Execution Failed");
                add_plain(&mut spans, " status: ");
                add_plain(&mut spans, status.as_str());
                add_plain(&mut spans, "\n");
                add_all(&mut spans, Log::format_output(stdout.as_str(), None));
            },
            TestResult::TimeLimitExceeded { stdout } => {
                add_headline(&mut spans, Paint::BoldDarkRed, "Time Limit Exceeded");
                add_all(&mut spans, Log::format_output(stdout.as_str(), None));
            },
            TestResult::AssertionSucceeded => {
                add_headline(&mut spans, Paint::BoldDarkGreen, "Assertion Succeeded");
            },
            TestResult::AssertionFailed { expected, actual } => {
                add_headline(&mut spans, Paint::BoldDarkRed, "Assertion Failed");
                add_all(
                    &mut spans,
                    Log::format_output(actual.as_str(), Some(expected.as_str())),
                );
            },
        }
        spans
    }

    /// Whether a report can be made.
    pub fn is_reportable(&self) -> (r: bool)
        ensures
            r == can_report(*self),
            self matches Log::TestResult(TestResult::AssertionFailed { expected, actual }) ==> (r
                <==> can_compare(expected@, actual@)),
            !(self matches Log::TestResult(TestResult::AssertionFailed { .. })) ==> r,
    {
        match self {
            Log::TestResult(TestResult::AssertionFailed { expected, actual }) => comparable(
                expected.as_str(),
                actual.as_str(),
            ),
            _ => true,
        }
    }

    /// The report of an event.
    pub fn spans(&self) -> (r: Vec<Span>)
        requires
            can_report(*self),
        ensures
            span_views(r@) == log_spans(*self),
            self matches Log::TestResult(TestResult::AssertionFailed { expected, actual })
                ==> is_difference(line_changes(expected@, actual@), expected@, actual@),
            shows_path(*self),
    {
        let mut spans: Vec<Span> = Vec::new();
        match self {
            Log::Modified(path) => {
                add_plain(&mut spans, "  ");
                add_styled(&mut spans, Paint::Grey, "Modified");
                add_plain(&mut spans, " ");
                add_span(&mut spans, Log::format_path(path.as_path()));
                add_plain(&mut spans, "\n");
            },
            Log::SourceNotFound(path) => {
                add_plain(&mut spans, "=== ");
                add_styled(&mut spans, Paint::BoldDarkYellow, "Could not detect source file of ");
                add_span(&mut spans, Log::format_path(path.as_path()));
                add_plain(&mut spans, "\n");
            },
            Log::Compiling(path) => {
                add_plain(&mut spans, " ");
                add_styled(&mut spans, Paint::Cyan, "Compiling");
                add_plain(&mut spans, " ");
                add_span(&mut spans, Log::format_path(path.as_path()));
                add_plain(&mut spans, "...\n");
            },
            Log::CompileResult(Ok(warning)) => {
                add_headline(&mut spans, Paint::BoldDarkGreen, "Compilation Succeeded");
                if let Some(warning) = warning {
                    add_styled(&mut spans, Paint::BoldDarkYellow, "warning");
                    add_plain(&mut spans, ": ");
                    add_plain(&mut spans, warning.as_str());
                    add_plain(&mut spans, "\n");
                }
            },
            Log::CompileResult(Err(message)) => {
                add_headline(&mut spans, Paint::BoldDarkRed, "Compilation Failed");
                add_plain(&mut spans, message.as_str());
                add_plain(&mut spans, "\n");
            },
            Log::Testing(path) => {
                add_plain(&mut spans, "   ");
                add_styled(&mut spans, Paint::Cyan, "Testing");
                add_plain(&mut spans, " ");
                add_span(&mut spans, Log::format_path(path.as_path()));
                add_plain(&mut spans, "...\n");
            },
            Log::TestResult(result) => {
                spans = Log::result_spans(result);
            },
        }
        spans
    }

    /// The report of an event, as the terminal takes it.
    pub fn text(&self) -> (r: String)
        requires
            can_report(*self),
        ensures
            is_rendered(log_spans(*self), r@),
            self matches Log::TestResult(TestResult::AssertionFailed { expected, actual })
                ==> is_difference(line_changes(expected@, actual@), expected@, actual@),
            shows_path(*self),
    {
        let spans = self.spans();
        render(&spans)
    }
}

} // verus!
