use io_watch::test_case::TestCase;

#[test]
fn test_parse_test_case() {
    assert_eq!(
        TestCase {
            input: String::from(
                "\
Hello
World
"
            ),
            output: None,
        },
        TestCase::parse(
            "\
===
Hello
World
"
        ),
    );
    assert_eq!(
        TestCase {
            input: String::from(
                "\
Hello
World
"
            ),
            output: Some(String::from(
                "\
HELLO WORLD
"
            )),
        },
        TestCase::parse(
            "\
===
Hello
World
===
HELLO WORLD
"
        ),
    );
}

fn case(input: &str, output: Option<&str>) -> TestCase {
    TestCase {
        input: input.to_string(),
        output: output.map(|o| o.to_string()),
    }
}

#[test]
fn an_empty_file_is_an_empty_input() {
    assert_eq!(case("", None), TestCase::parse(""));
    assert_eq!(case("", None), TestCase::parse("===\n"));
    assert_eq!(case("", None), TestCase::parse("==="));
}

#[test]
fn the_separator_is_whatever_the_first_line_is() {
    assert_eq!(case("a\n", Some("b\n")), TestCase::parse("--\na\n--\nb\n"));
    assert_eq!(case("a\n", Some("b\n")), TestCase::parse("\na\n\nb\n"));
    assert_eq!(case("--- \n", None), TestCase::parse("---\n--- \n"));
}

#[test]
fn only_the_second_separator_separates() {
    assert_eq!(case("", Some("")), TestCase::parse("=\n=\n"));
    assert_eq!(case("", Some("=\nx\n")), TestCase::parse("=\n=\n=\nx"));
}

#[test]
fn line_endings_do_not_matter() {
    assert_eq!(
        TestCase::parse("===\nHello\n===\nHELLO\n"),
        TestCase::parse("===\r\nHello\r\n===\r\nHELLO\r\n"),
    );
    assert_eq!(case("a\r\n", None), TestCase::parse("=\na\r\r\n"));
    assert_eq!(case("a\r\n", None), TestCase::parse("=\na\r"));
}

#[test]
fn text_beyond_ascii_is_kept() {
    assert_eq!(case("猫\n", Some("犬é\n")), TestCase::parse("=\n猫\n=\n犬é\n"));
}

#[test]
fn a_last_line_without_an_ending_is_read_with_either_line_ending() {
    let text = "===\na\rb\n\n===\nc\nd";
    assert_eq!(case("a\rb\n\n", Some("c\nd\n")), TestCase::parse(text));
    assert_eq!(TestCase::parse(text), TestCase::parse(&text.replace('\n', "\r\n")));
}
