//! The test case format: a separator line, the input, and then, behind the next line equal to the
//! separator, the expected output.
use crate::seqs::{before, lemma_before_unique};
use crate::text::{
    is_line, join_lines, law_crlf, law_last_line_feed, law_lines_read_back, lines, lines_of,
    text_of, texts, unlines, with_crlf,
};
use vstd::prelude::*;

verus! {

/// What a program is given on its standard input, and what it is expected to answer, if that is
/// known.
#[derive(Debug, PartialEq, Eq)]
pub struct TestCase {
    pub input: String,
    pub output: Option<String>,
}

/// The lines behind the separator line, which is the first line of the file.
pub open spec fn body_of(content: Seq<char>) -> Seq<Seq<char>> {
    let lines = lines_of(content);
    if lines.len() == 0 {
        seq![]
    } else {
        lines.skip(1)
    }
}

/// How many lines of the body are input: those before the first line equal to the separator.
pub open spec fn input_lines(content: Seq<char>) -> int {
    before(body_of(content), lines_of(content)[0]) as int
}

/// The input that a test case file holds.
pub open spec fn input_of(content: Seq<char>) -> Seq<char> {
    unlines(body_of(content).take(input_lines(content)))
}

/// The expected output that a test case file holds: what follows the second separator line. There
/// is none where the separator does not occur again.
pub open spec fn output_of(content: Seq<char>) -> Option<Seq<char>> {
    if input_lines(content) < body_of(content).len() {
        Some(unlines(body_of(content).skip(input_lines(content) + 1)))
    } else {
        None
    }
}

/// A file written with a separator line, the input, the separator again and the expected output is
/// read back as that input and that output, whatever the separator is, as long as no line of the
/// input equals it.
pub proof fn law_reads_back_output(
    separator: Seq<char>,
    input: Seq<Seq<char>>,
    output: Seq<Seq<char>>,
)
    requires
        is_line(separator),
        forall|i: int| 0 <= i < input.len() ==> is_line(#[trigger] input[i]),
        forall|i: int| 0 <= i < output.len() ==> is_line(#[trigger] output[i]),
        !input.contains(separator),
    ensures
        ({
            let content = unlines(seq![separator] + input + seq![separator] + output);
            &&& input_of(content) == unlines(input)
            &&& output_of(content) == Some(unlines(output))
        }),
{
    let lines = seq![separator] + input + seq![separator] + output;
    law_lines_read_back(lines);
    let body = lines.skip(1);
    assert forall|j: int| 0 <= j < input.len() implies body[j] != separator by {
        assert(body[j] == input[j]);
        assert(input.contains(input[j]));
    }
    lemma_before_unique(body, separator, input.len() as int);
    assert(body.take(input.len() as int) == input);
    assert(body.skip(input.len() as int + 1) == output);
}

/// A file written with a separator line and the input alone is read back as that input, with no
/// expected output.
pub proof fn law_reads_back_input(separator: Seq<char>, input: Seq<Seq<char>>)
    requires
        is_line(separator),
        forall|i: int| 0 <= i < input.len() ==> is_line(#[trigger] input[i]),
        !input.contains(separator),
    ensures
        input_of(unlines(seq![separator] + input)) == unlines(input),
        output_of(unlines(seq![separator] + input)) is None,
{
    let lines = seq![separator] + input;
    law_lines_read_back(lines);
    assert(lines.skip(1) == input);
    assert forall|j: int| 0 <= j < input.len() implies input[j] != separator by {
        assert(input.contains(input[j]));
    }
    lemma_before_unique(input, separator, input.len() as int);
    assert(input.take(input.len() as int) == input);
}

/// A file in which no `\r\n` stands is read the same with `\r\n` in place of each `\n`.
pub proof fn law_line_endings(content: Seq<char>)
    requires
        forall|i: int|
            0 <= i < content.len() - 1 && content[i] == '\r' ==> #[trigger] content[i + 1] != '\n',
    ensures
        input_of(with_crlf(content)) == input_of(content),
        output_of(with_crlf(content)) == output_of(content),
{
    law_crlf(content);
}

/// A line feed that is missing at the end of a file changes nothing.
pub proof fn law_last_ending(content: Seq<char>)
    requires
        content.len() > 0,
        content.last() != '\n',
        content.last() != '\r',
    ensures
        input_of(content.push('\n')) == input_of(content),
        output_of(content.push('\n')) == output_of(content),
{
    law_last_line_feed(content);
}

/// The first line of a file is the separator. What stands between it and the next line that equals
/// it is the input, and all that stands behind that one is the expected output, further lines that
/// equal the separator included.
pub proof fn law_parts(content: Seq<char>, next: int)
    requires
        1 <= next < lines_of(content).len(),
        lines_of(content)[next] == lines_of(content)[0],
        forall|j: int| 1 <= j < next ==> #[trigger] lines_of(content)[j] != lines_of(content)[0],
    ensures
        input_of(content) == unlines(lines_of(content).subrange(1, next)),
        output_of(content) == Some(unlines(lines_of(content).skip(next + 1))),
{
    let lines = lines_of(content);
    let body = lines.skip(1);
    assert forall|j: int| 0 <= j < next - 1 implies body[j] != lines[0] by {
        assert(body[j] == lines[j + 1]);
    }
    lemma_before_unique(body, lines[0], next - 1);
    assert(body.take(next - 1) == lines.subrange(1, next));
    assert(body.skip(next) == lines.skip(next + 1));
}

/// A file in which no line equals the first one holds input alone, which is all that stands behind
/// the first line. An empty file holds no input either.
pub proof fn law_input_alone(content: Seq<char>)
    requires
        forall|j: int|
            1 <= j < lines_of(content).len() ==> #[trigger] lines_of(content)[j] != lines_of(
                content,
            )[0],
    ensures
        output_of(content) is None,
        lines_of(content).len() > 0 ==> input_of(content) == unlines(lines_of(content).skip(1)),
        content.len() == 0 ==> input_of(content).len() == 0,
{
    let lines = lines_of(content);
    let body = body_of(content);
    assert forall|j: int| 0 <= j < body.len() implies body[j] != lines[0] by {
        assert(body[j] == lines[j + 1]);
    }
    lemma_before_unique(body, lines[0], body.len() as int);
    assert(body.take(body.len() as int) == body);
}

impl TestCase {
    /// Reads the content of a test case file.
    pub fn parse(content: &str) -> (r: Self)
        ensures
            r.input@ == input_of(content@),
            text_of(r.output) == output_of(content@),
    {
        let lines = lines(content);
        if lines.len() == 0 {
            proof {
                assert(texts(lines@) == lines_of(content@));
                assert(body_of(content@).take(0) == body_of(content@));
            }
            return TestCase { input: String::new(), output: None };
        }
        let ghost all = texts(lines@);
        let ghost body = body_of(content@);
        let mut i: usize = 1;
        while i < lines.len() && lines[i] != lines[0]
            invariant
                lines@.len() > 0,
                all == texts(lines@),
                1 <= i <= lines@.len(),
                forall|j: int| 1 <= j < i ==> #[trigger] all[j] != all[0],
            decreases lines@.len() - i,
        {
            i += 1;
        }
        proof {
            assert forall|j: int| 0 <= j < i - 1 implies body[j] != all[0] by {
                assert(body[j] == all[j + 1]);
            }
            if i < lines@.len() {
                assert(body[i - 1] == all[i as int]);
            }
            lemma_before_unique(body, all[0], i - 1);
            assert(body.take(i - 1) == all.subrange(1, i as int));
        }
        let input = join_lines(&lines, 1, i);
        let output = if i < lines.len() {
            proof {
                assert(body.skip(i as int) == all.subrange(i + 1, all.len() as int));
            }
            Some(join_lines(&lines, i + 1, lines.len()))
        } else {
            None
        };
        TestCase { input, output }
    }
}

} // verus!
