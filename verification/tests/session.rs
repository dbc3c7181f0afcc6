use io_watch::kind::FileKind;
use io_watch::session::{relevant, Job, Metadata, Outcome, Step};
use io_watch::throttle::Throttle;

fn steps(kind: FileKind, source: bool, executable: bool, compiles: bool, cases: usize) -> Vec<Step> {
    let mut job = Job::new(kind);
    let mut steps = Vec::new();
    while job.step != Step::Stop {
        steps.push(job.step);
        let outcome = match job.step {
            Step::FindSource => Outcome::Answer(source),
            Step::FindExecutable => Outcome::Answer(executable),
            Step::Compile => Outcome::Answer(compiles),
            Step::ListCases => Outcome::Count(cases),
            _ => Outcome::Done,
        };
        job.advance(outcome);
    }
    steps
}

#[test]
fn a_source_is_compiled_and_tested_on_all_cases() {
    assert_eq!(
        vec![
            Step::Compile,
            Step::Announce,
            Step::ListCases,
            Step::Test { index: 0 },
            Step::Test { index: 1 },
            Step::Test { index: 2 },
        ],
        steps(FileKind::Source, false, true, true, 3),
    );
    assert_eq!(
        vec![Step::Compile, Step::Announce, Step::ListCases],
        steps(FileKind::Source, false, false, true, 0),
    );
}

#[test]
fn a_source_that_does_not_compile_is_not_tested() {
    assert_eq!(vec![Step::Compile], steps(FileKind::Source, true, true, false, 3));
}

#[test]
fn a_case_without_a_source_is_reported() {
    assert_eq!(
        vec![Step::FindSource, Step::ReportMissingSource],
        steps(FileKind::TestCase, false, true, true, 3),
    );
}

#[test]
fn a_case_is_run_on_the_executable_of_its_source() {
    assert_eq!(
        vec![
            Step::FindSource,
            Step::ReadCase,
            Step::FindExecutable,
            Step::Announce,
            Step::Test { index: 0 },
        ],
        steps(FileKind::TestCase, true, true, false, 3),
    );
    assert_eq!(
        vec![
            Step::FindSource,
            Step::ReadCase,
            Step::FindExecutable,
            Step::Compile,
            Step::Announce,
            Step::Test { index: 0 },
        ],
        steps(FileKind::TestCase, true, false, true, 3),
    );
    assert_eq!(
        vec![Step::FindSource, Step::ReadCase, Step::FindExecutable, Step::Compile],
        steps(FileKind::TestCase, true, false, false, 3),
    );
}

#[test]
fn only_files_with_content_are_looked_at() {
    let file = |len: u64| Some(Metadata { is_file: true, len });
    assert!(relevant(true, file(1)));
    assert!(!relevant(false, file(1)));
    assert!(!relevant(true, file(0)));
    assert!(!relevant(true, None));
    assert!(!relevant(true, Some(Metadata { is_file: false, len: 1 })));
}

#[test]
fn notices_of_one_path_are_spaced() {
    let mut throttle = Throttle::new(500);
    assert!(throttle.lets_pass(1, 1000));
    assert!(!throttle.lets_pass(1, 1000));
    assert!(throttle.lets_pass(2, 1000));
    assert!(!throttle.lets_pass(1, 1499));
    assert!(throttle.lets_pass(1, 1500));
    assert!(!throttle.lets_pass(1, 1999));
    assert!(throttle.lets_pass(2, 1999));
    assert!(throttle.lets_pass(1, 2000));
}

#[test]
fn a_clock_that_goes_back_stands_still() {
    let mut throttle = Throttle::new(1);
    assert!(throttle.lets_pass(1, 1000));
    assert!(!throttle.lets_pass(1, 10));
    let mut open = Throttle::new(0);
    assert!(open.lets_pass(1, 1000));
    assert!(open.lets_pass(1, 10));
}
