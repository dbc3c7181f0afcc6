use io_watch::compile::{compile_result, compiler, flags, report};
use io_watch::output::{add_line, take_line};
use io_watch::text::{is_white_space, lines, trim};
use io_watch::verdict::{judge, run_result, RunEnd, TestResult};
use tokio::io::AsyncBufReadExt;

fn exited(success: bool) -> RunEnd {
    RunEnd::Exited { success, status: "exit status: 7".to_string() }
}

fn wanted(text: &str) -> Option<String> {
    Some(text.to_string())
}

#[test]
fn a_late_program_is_not_compared() {
    assert_eq!(
        Some(TestResult::TimeLimitExceeded { stdout: "a\n".to_string() }),
        run_result(RunEnd::TimedOut, &b"a\n".to_vec(), wanted("a\n")),
    );
}

#[test]
fn a_program_that_was_not_started_has_no_result() {
    assert_eq!(None, run_result(RunEnd::NotStarted, &Vec::new(), wanted("")));
}

#[test]
fn a_failed_program_is_not_compared() {
    assert_eq!(
        Some(TestResult::ExecutionFailed {
            stdout: "a\n".to_string(),
            status: "exit status: 7".to_string(),
        }),
        run_result(exited(false), &b"a\n".to_vec(), wanted("a\n")),
    );
}

#[test]
fn a_program_passes_where_its_bytes_are_those_expected() {
    assert_eq!(
        Some(TestResult::AssertionSucceeded),
        run_result(exited(true), &"é\n".as_bytes().to_vec(), wanted("é\n")),
    );
    assert_eq!(
        Some(TestResult::AssertionFailed { expected: "a\n".to_string(), actual: "a".to_string() }),
        run_result(exited(true), &b"a".to_vec(), wanted("a\n")),
    );
    assert_eq!(
        Some(TestResult::AssertionFailed { expected: "b".to_string(), actual: "a".to_string() }),
        run_result(exited(true), &b"a".to_vec(), wanted("b")),
    );
}

#[test]
fn what_is_not_text_is_replaced_when_shown() {
    assert_eq!(
        Some(TestResult::ExecutionSucceeded { stdout: "a\u{fffd}b".to_string() }),
        run_result(exited(true), &vec![b'a', 0xff, b'b'], None),
    );
    assert_eq!(
        Some(TestResult::AssertionFailed {
            expected: "\u{fffd}".to_string(),
            actual: "\u{fffd}".to_string(),
        }),
        run_result(exited(true), &vec![0xff], wanted("\u{fffd}")),
    );
}

#[test]
fn the_shown_text_is_handed_on() {
    assert_eq!(
        Some(TestResult::ExecutionSucceeded { stdout: "shown".to_string() }),
        judge(exited(true), &vec![1, 2], "shown".to_string(), None),
    );
}

#[test]
fn carriage_returns_before_line_feeds_are_dropped() {
    let mut stdout = b"x".to_vec();
    add_line(&mut stdout, b"hello\r\n".to_vec());
    add_line(&mut stdout, b"\r\n".to_vec());
    add_line(&mut stdout, b"\n".to_vec());
    add_line(&mut stdout, b"a\rb\r\r\n".to_vec());
    add_line(&mut stdout, b"\r".to_vec());
    add_line(&mut stdout, Vec::new());
    assert_eq!(b"xhello\n\n\na\rb\r\n\r".to_vec(), stdout);
}

#[test]
fn a_program_passes_with_either_line_ending() {
    let mut stdout = Vec::new();
    for line in ["Hello\r\n", "\r\n", "World\n"] {
        add_line(&mut stdout, line.as_bytes().to_vec());
    }
    assert_eq!(
        Some(TestResult::AssertionSucceeded),
        run_result(exited(true), &stdout, wanted("Hello\n\nWorld\n")),
    );
}

#[test]
fn test_line_receiver() {
    let runtime = tokio::runtime::Builder::new_current_thread().build().unwrap();
    let mut reader = std::io::Cursor::new("hello\nworld\n!");
    let mut buffer = Vec::new();
    let mut receive = || {
        let read = runtime.block_on(reader.read_until(b'\n', &mut buffer)).unwrap();
        take_line(read, &mut buffer)
    };
    assert_eq!("hello\n".as_bytes().to_vec(), receive().unwrap());
    assert_eq!("world\n".as_bytes().to_vec(), receive().unwrap());
    assert_eq!("!".as_bytes().to_vec(), receive().unwrap());
    assert!(receive().is_none());
}

#[test]
fn lines_are_taken_from_the_buffer_until_the_end() {
    let mut buffer = b"hello\n".to_vec();
    assert_eq!(Some(b"hello\n".to_vec()), take_line(6, &mut buffer));
    assert_eq!(Vec::<u8>::new(), buffer);
    assert_eq!(None, take_line(0, &mut buffer));
    buffer.push(b'!');
    assert_eq!(None, take_line(0, &mut buffer));
    assert_eq!(b"!".to_vec(), buffer);
    assert_eq!(Some(b"!".to_vec()), take_line(1, &mut buffer));
}

#[test]
fn compilations_are_reported() {
    assert_eq!(None, compile_result(true, &b" \n\t".to_vec()));
    assert_eq!(
        Some(Ok(Some("unused \u{fffd}".to_string()))),
        compile_result(true, &b"\n unused \xff\n\n".to_vec()),
    );
    assert_eq!(Some(Err("bad".to_string())), compile_result(false, &b"bad\n".to_vec()));
    assert_eq!(Some(Err("".to_string())), compile_result(false, &Vec::new()));
    assert_eq!(Some(Ok(Some(" w".to_string()))), report(true, " w".to_string()));
}

#[test]
fn the_compiler_is_called_with_these_flags() {
    assert_eq!("g++", compiler());
    assert_eq!(
        vec![
            "-Wall", "-Wextra", "-fdiagnostics-color=always", "-x", "c++", "-g", "-O2",
            "-std=gnu++20", "-static", "-o",
        ],
        flags(),
    );
}

#[test]
fn white_space_is_that_of_the_standard_library() {
    let mut code: u32 = 0;
    while code <= 0x10ffff {
        if let Some(c) = char::from_u32(code) {
            assert_eq!(c.is_whitespace(), is_white_space(c));
        }
        code += 1;
    }
}

#[test]
fn texts_are_trimmed_on_both_sides() {
    for text in ["", " ", "a", " a b\t\r\n", "\u{3000}x\u{a0}", "\u{200b}x"] {
        assert_eq!(text.trim(), trim(text));
    }
}

#[test]
fn texts_have_lines() {
    for text in ["", "\n", "a", "a\n", "a\nb", "a\r\nb\r", "\r\n\r\r\n\n", "é\n猫"] {
        let expected: Vec<String> = text.lines().map(|l| l.to_string()).collect();
        assert_eq!(expected, lines(text));
    }
}
