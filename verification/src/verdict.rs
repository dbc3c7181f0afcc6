//! How the run of a program on a test case is judged.
use crate::output::{
    collapsed, collected, from_utf8_lossy, law_collected_stream, law_stream_kept, lossy_text,
    stream_lines,
};
use crate::text::{text_of, utf8_text};
use vstd::prelude::*;
use vstd::utf8::encode_utf8;

verus! {

/// The time in seconds that a program has for one test case.
pub const TIME_LIMIT_SECONDS: u64 = 3;

/// How the run of a program ended.
pub enum RunEnd {
    /// There was no executable to run.
    NotStarted,
    /// The time limit passed before the program ended.
    TimedOut,
    /// The program ended, with success or not, and with a status that can be shown.
    Exited { success: bool, status: String },
}

/// What the run of a program on a test case has shown.
#[derive(Debug, PartialEq, Eq)]
pub enum TestResult {
    /// The program ran through, and the test case expects no particular output.
    ExecutionSucceeded { stdout: String },
    /// The program ended without success.
    ExecutionFailed { stdout: String, status: String },
    /// The program did not end in time.
    TimeLimitExceeded { stdout: String },
    /// The program wrote what was expected.
    AssertionSucceeded,
    /// The program wrote something else than what was expected.
    AssertionFailed { expected: String, actual: String },
}

/// What a [`RunEnd`] holds.
pub ghost enum RunEndView {
    NotStarted,
    TimedOut,
    Exited { success: bool, status: Seq<char> },
}

/// What a [`TestResult`] holds.
pub ghost enum TestResultView {
    ExecutionSucceeded { stdout: Seq<char> },
    ExecutionFailed { stdout: Seq<char>, status: Seq<char> },
    TimeLimitExceeded { stdout: Seq<char> },
    AssertionSucceeded,
    AssertionFailed { expected: Seq<char>, actual: Seq<char> },
}

impl View for RunEnd {
    type V = RunEndView;

    open spec fn view(&self) -> RunEndView {
        match self {
            RunEnd::NotStarted => RunEndView::NotStarted,
            RunEnd::TimedOut => RunEndView::TimedOut,
            RunEnd::Exited { success, status } => RunEndView::Exited {
                success: *success,
                status: status@,
            },
        }
    }
}

impl View for TestResult {
    type V = TestResultView;

    open spec fn view(&self) -> TestResultView {
        match self {
            TestResult::ExecutionSucceeded { stdout } => TestResultView::ExecutionSucceeded {
                stdout: stdout@,
            },
            TestResult::ExecutionFailed { stdout, status } => TestResultView::ExecutionFailed {
                stdout: stdout@,
                status: status@,
            },
            TestResult::TimeLimitExceeded { stdout } => TestResultView::TimeLimitExceeded {
                stdout: stdout@,
            },
            TestResult::AssertionSucceeded => TestResultView::AssertionSucceeded,
            TestResult::AssertionFailed { expected, actual } => TestResultView::AssertionFailed {
                expected: expected@,
                actual: actual@,
            },
        }
    }
}

/// The verdict on a run that wrote `stdout`, shown as `text`. There is none on a run that was not
/// started. A run that is late, or that failed, is not compared with what was expected. One that is
/// compared passes where it wrote exactly the bytes of the expected text.
pub open spec fn verdict(
    end: RunEndView,
    stdout: Seq<u8>,
    text: Seq<char>,
    expected: Option<Seq<char>>,
) -> Option<TestResultView> {
    match end {
        RunEndView::NotStarted => None,
        RunEndView::TimedOut => Some(TestResultView::TimeLimitExceeded { stdout: text }),
        RunEndView::Exited { success, status } => if !success {
            Some(TestResultView::ExecutionFailed { stdout: text, status })
        } else {
            match expected {
                None => Some(TestResultView::ExecutionSucceeded { stdout: text }),
                Some(wanted) => if stdout == encode_utf8(wanted) {
                    Some(TestResultView::AssertionSucceeded)
                } else {
                    Some(TestResultView::AssertionFailed { expected: wanted, actual: text })
                },
            }
        },
    }
}

/// What an optional result holds.
pub open spec fn result_of(result: Option<TestResult>) -> Option<TestResultView> {
    match result {
        Some(r) => Some(r@),
        None => None,
    }
}

/// A program that ends in time and with success passes a test case exactly where the bytes that it
/// wrote, with `\n` in place of each `\r\n`, are those of the expected output.
pub proof fn law_passes(stream: Seq<u8>, status: Seq<char>, wanted: Seq<char>)
    ensures
        ({
            let stdout = collected(stream_lines(stream));
            let end = RunEndView::Exited { success: true, status };
            verdict(end, stdout, lossy_text(stdout), Some(wanted)) == Some(
                TestResultView::AssertionSucceeded,
            ) <==> collapsed(stream) == encode_utf8(wanted)
        }),
{
    law_collected_stream(stream);
}

/// A program whose output holds no `\r\n` passes exactly where the bytes that it wrote are those of the
/// expected output.
pub proof fn law_passes_exactly(stream: Seq<u8>, status: Seq<char>, wanted: Seq<char>)
    requires
        forall|i: int|
            0 <= i < stream.len() - 1 && stream[i] == 0x0d ==> #[trigger] stream[i + 1] != 0x0a,
    ensures
        ({
            let stdout = collected(stream_lines(stream));
            let end = RunEndView::Exited { success: true, status };
            verdict(end, stdout, lossy_text(stdout), Some(wanted)) == Some(
                TestResultView::AssertionSucceeded,
            ) <==> stream == encode_utf8(wanted)
        }),
{
    law_stream_kept(stream);
}

/// A run is reported as succeeded only where it ended with success. One that ended without success
/// is reported as failed, with its status and what it wrote, whether or not some output was
/// expected.
pub proof fn law_success_is_real(
    end: RunEndView,
    stdout: Seq<u8>,
    text: Seq<char>,
    expected: Option<Seq<char>>,
)
    ensures
        ({
            let result = verdict(end, stdout, text, expected);
            &&& result matches Some(TestResultView::ExecutionSucceeded { .. }) ==> end
                matches RunEndView::Exited { success, .. } && success
            &&& result matches Some(TestResultView::AssertionSucceeded) ==> end
                matches RunEndView::Exited { success, .. } && success
            &&& result matches Some(TestResultView::AssertionFailed { .. }) ==> end
                matches RunEndView::Exited { success, .. } && success
        }),
        forall|status: Seq<char>|
            (#[trigger] verdict(
                RunEndView::Exited { success: false, status },
                stdout,
                text,
                expected,
            )) == Some(TestResultView::ExecutionFailed { stdout: text, status }),
{
}

/// A run that is late is reported as late, with what it wrote until then, whatever was expected.
/// Only a run that was not started is not reported.
pub proof fn law_late_or_not_started(
    end: RunEndView,
    stdout: Seq<u8>,
    text: Seq<char>,
    expected: Option<Seq<char>>,
)
    ensures
        verdict(RunEndView::TimedOut, stdout, text, expected) == Some(
            TestResultView::TimeLimitExceeded { stdout: text },
        ),
        verdict(end, stdout, text, expected) is None <==> end is NotStarted,
{
}

/// A successful run is compared exactly where some output is expected; it passes exactly where it
/// wrote those bytes, and where it fails, both outputs are reported. Its status does not matter.
pub proof fn law_compared(
    status: Seq<char>,
    stdout: Seq<u8>,
    text: Seq<char>,
    wanted: Seq<char>,
)
    ensures
        ({
            let end = RunEndView::Exited { success: true, status };
            &&& verdict(end, stdout, text, None) == Some(
                TestResultView::ExecutionSucceeded { stdout: text },
            )
            &&& verdict(end, encode_utf8(wanted), text, Some(wanted)) == Some(
                TestResultView::AssertionSucceeded,
            )
            &&& stdout != encode_utf8(wanted) ==> verdict(end, stdout, text, Some(wanted)) == Some(
                TestResultView::AssertionFailed { expected: wanted, actual: text },
            )
        }),
{
}

/// A program has three seconds for one test case.
pub proof fn law_time_limit()
    ensures
        TIME_LIMIT_SECONDS == 3,
{
}

/// Whether two sequences of bytes are the same.
fn same_bytes(a: &[u8], b: &[u8]) -> (r: bool)
    ensures
        r == (a@ == b@),
{
    if a.len() != b.len() {
        return false;
    }
    let mut i: usize = 0;
    while i < a.len()
        invariant
            i <= a@.len(),
            a@.len() == b@.len(),
            forall|j: int| 0 <= j < i ==> a@[j] == b@[j],
        decreases a@.len() - i,
    {
        if a[i] != b[i] {
            return false;
        }
        i += 1;
    }
    assert(a@ == b@);
    true
}

/// The verdict on a run that wrote `stdout`, shown as `text`.
pub fn judge(end: RunEnd, stdout: &Vec<u8>, text: String, expected: Option<String>) -> (r: Option<
    TestResult,
>)
    ensures
        result_of(r) == verdict(end@, stdout@, text@, text_of(expected)),
        r is None <==> end is NotStarted,
        end is TimedOut ==> (r matches Some(TestResult::TimeLimitExceeded { stdout: shown }) && shown@
            == text@),
        end matches RunEnd::Exited { success, status } ==> !success ==> (r matches Some(
            TestResult::ExecutionFailed { stdout: shown, status: code },
        ) && shown@ == text@ && code@ == status@),
        end matches RunEnd::Exited { success, .. } ==> success && expected is None ==> (r matches Some(
            TestResult::ExecutionSucceeded { stdout: shown },
        ) && shown@ == text@),
        end matches RunEnd::Exited { success, .. } ==> success && expected is Some ==> if stdout@
            == encode_utf8(expected->0@) {
            r matches Some(TestResult::AssertionSucceeded)
        } else {
            r matches Some(TestResult::AssertionFailed { expected: wanted, actual }) && wanted@
                == expected->0@ && actual@ == text@
        },
{
    match end {
        RunEnd::NotStarted => None,
        RunEnd::TimedOut => Some(TestResult::TimeLimitExceeded { stdout: text }),
        RunEnd::Exited { success, status } => {
            if !success {
                return Some(TestResult::ExecutionFailed { stdout: text, status });
            }
            match expected {
                None => Some(TestResult::ExecutionSucceeded { stdout: text }),
                Some(wanted) => {
                    if same_bytes(stdout.as_slice(), wanted.as_str().as_bytes()) {
                        Some(TestResult::AssertionSucceeded)
                    } else {
                        Some(TestResult::AssertionFailed { expected: wanted, actual: text })
                    }
                },
            }
        },
    }
}

/// The verdict on a run that wrote `stdout`, with what it wrote shown as text: as it is, where it is
/// UTF-8.
pub fn run_result(end: RunEnd, stdout: &Vec<u8>, expected: Option<String>) -> (r: Option<
    TestResult,
>)
    ensures
        result_of(r) == verdict(end@, stdout@, lossy_text(stdout@), text_of(expected)),
        utf8_text(stdout@) matches Some(text) ==> lossy_text(stdout@) == text,
        r is None <==> end is NotStarted,
        end is TimedOut ==> (r matches Some(TestResult::TimeLimitExceeded { stdout: shown }) && shown@
            == lossy_text(stdout@)),
        end matches RunEnd::Exited { success, status } ==> !success ==> (r matches Some(
            TestResult::ExecutionFailed { stdout: shown, status: code },
        ) && shown@ == lossy_text(stdout@) && code@ == status@),
        end matches RunEnd::Exited { success, .. } ==> success && expected is None ==> (r matches Some(
            TestResult::ExecutionSucceeded { stdout: shown },
        ) && shown@ == lossy_text(stdout@)),
        end matches RunEnd::Exited { success, .. } ==> success && expected is Some ==> if stdout@
            == encode_utf8(expected->0@) {
            r matches Some(TestResult::AssertionSucceeded)
        } else {
            r matches Some(TestResult::AssertionFailed { expected: wanted, actual }) && wanted@
                == expected->0@ && actual@ == lossy_text(stdout@)
        },
{
    let text = from_utf8_lossy(stdout);
    judge(end, stdout, text, expected)
}

} // verus!
