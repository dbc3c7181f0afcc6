//! What is done when a watched file was modified.
use crate::kind::FileKind;
use vstd::prelude::*;

verus! {

/// What is known of the file behind a path, where its metadata can be read.
#[derive(Debug, PartialEq, Eq, Clone, Copy)]
pub struct Metadata {
    pub is_file: bool,
    pub len: u64,
}

/// Whether a modified path is looked at: there must be a file behind it, and the file must not be
/// empty.
pub open spec fn is_relevant(exists_now: bool, metadata: Option<Metadata>) -> bool {
    exists_now && (metadata matches Some(m) && m.is_file && m.len > 0)
}

/// Whether a modified path is looked at.
pub fn relevant(exists_now: bool, metadata: Option<Metadata>) -> (r: bool)
    ensures
        r == is_relevant(exists_now, metadata),
        r <==> exists_now && metadata is Some && metadata->0.is_file && metadata->0.len != 0,
{
    match metadata {
        Some(m) => exists_now && m.is_file && m.len > 0,
        None => false,
    }
}

/// How long a file is does not matter, as long as it is not empty: any file that is there and holds
/// something is looked at, and nothing else is.
pub proof fn law_relevant(is_file: bool, len: u64)
    ensures
        is_relevant(true, Some(Metadata { is_file, len })) <==> is_file && len != 0,
        !is_relevant(false, Some(Metadata { is_file, len })),
        forall|exists_now: bool| !is_relevant(exists_now, None),
{
}

/// What is to be done next.
#[derive(Debug, PartialEq, Eq, Clone, Copy, Structural)]
pub enum Step {
    /// Look for the source file of the test case.
    FindSource,
    /// Report that there is no source file.
    ReportMissingSource,
    /// Read the test case.
    ReadCase,
    /// See whether the source file has an executable already.
    FindExecutable,
    /// Compile the source file.
    Compile,
    /// Report that tests are being run.
    Announce,
    /// List and read the test cases of the source file.
    ListCases,
    /// Run the test case with this number.
    Test { index: usize },
    /// Nothing more.
    Stop,
}

/// How a step turned out.
#[derive(Debug, PartialEq, Eq, Clone, Copy, Structural)]
pub enum Outcome {
    /// It is done.
    Done,
    /// What was looked for was found, or the compilation succeeded; or not.
    Answer(bool),
    /// There are this many test cases.
    Count(usize),
}

/// What is being done about one modified file.
#[derive(Debug, PartialEq, Eq, Clone, Copy, Structural)]
pub struct Job {
    /// The kind of the modified file.
    pub kind: FileKind,
    /// What is to be done next.
    pub step: Step,
    /// How many test cases are to be run.
    pub cases: usize,
}

/// Whether a step can turn out in a given way.
pub open spec fn fits(step: Step, outcome: Outcome) -> bool {
    match step {
        Step::FindSource | Step::FindExecutable | Step::Compile => outcome is Answer,
        Step::ListCases => outcome is Count,
        _ => outcome is Done,
    }
}

/// What is looked for may be found or not, a compilation may succeed or not, there may be any number of
/// test cases, and everything else gets done.
pub proof fn law_outcomes(answer: bool, cases: usize, index: usize)
    ensures
        fits(Step::FindSource, Outcome::Answer(answer)),
        fits(Step::FindExecutable, Outcome::Answer(answer)),
        fits(Step::Compile, Outcome::Answer(answer)),
        fits(Step::ListCases, Outcome::Count(cases)),
        fits(Step::ReportMissingSource, Outcome::Done),
        fits(Step::ReadCase, Outcome::Done),
        fits(Step::Announce, Outcome::Done),
        fits(Step::Test { index }, Outcome::Done),
        fits(Step::Stop, Outcome::Done),
{
}

/// The job that a modified file gives.
pub open spec fn first_job(kind: FileKind) -> Job {
    match kind {
        FileKind::Source => Job { kind, step: Step::Compile, cases: 0 },
        FileKind::TestCase => Job { kind, step: Step::FindSource, cases: 1 },
    }
}

/// The test case with a given number, if there is one.
pub open spec fn test_or_stop(index: int, cases: usize) -> Step {
    if index < cases {
        Step::Test { index: index as usize }
    } else {
        Step::Stop
    }
}

/// The job after a step that turned out in a given way.
pub open spec fn next_job(job: Job, outcome: Outcome) -> Job {
    match (job.step, outcome) {
        (Step::FindSource, Outcome::Answer(true)) => Job { step: Step::ReadCase, ..job },
        (Step::FindSource, _) => Job { step: Step::ReportMissingSource, ..job },
        (Step::ReadCase, _) => Job { step: Step::FindExecutable, ..job },
        (Step::FindExecutable, Outcome::Answer(true)) => Job { step: Step::Announce, ..job },
        (Step::FindExecutable, _) => Job { step: Step::Compile, ..job },
        (Step::Compile, Outcome::Answer(true)) => Job { step: Step::Announce, ..job },
        (Step::Announce, _) => match job.kind {
            FileKind::Source => Job { step: Step::ListCases, ..job },
            FileKind::TestCase => Job { step: test_or_stop(0, job.cases), ..job },
        },
        (Step::ListCases, Outcome::Count(cases)) => Job {
            kind: job.kind,
            step: test_or_stop(0, cases),
            cases,
        },
        (Step::Test { index }, _) => Job { step: test_or_stop(index + 1, job.cases), ..job },
        _ => Job { step: Step::Stop, ..job },
    }
}

impl Job {
    /// The job that a modified file gives.
    pub fn new(kind: FileKind) -> (r: Job)
        ensures
            r == first_job(kind),
    {
        match kind {
            FileKind::Source => Job { kind, step: Step::Compile, cases: 0 },
            FileKind::TestCase => Job { kind, step: Step::FindSource, cases: 1 },
        }
    }

    /// Goes on after the step that was to be done.
    pub fn advance(&mut self, outcome: Outcome)
        requires
            fits(old(self).step, outcome),
        ensures
            *final(self) == next_job(*old(self), outcome),
            final(self).kind == old(self).kind,
            !(old(self).step is ListCases) ==> final(self).cases == old(self).cases,
            final(self).step is Test ==> final(self).step->index < final(self).cases,
            old(self).step is Compile && outcome == Outcome::Answer(false) ==> final(self).step is Stop,
            old(self).step is Stop ==> final(self).step is Stop,
    {
        match self.step {
            Step::FindSource => {
                self.step = match outcome {
                    Outcome::Answer(true) => Step::ReadCase,
                    _ => Step::ReportMissingSource,
                };
            },
            Step::ReadCase => {
                self.step = Step::FindExecutable;
            },
            Step::FindExecutable => {
                self.step = match outcome {
                    Outcome::Answer(true) => Step::Announce,
                    _ => Step::Compile,
                };
            },
            Step::Compile => {
                self.step = match outcome {
                    Outcome::Answer(true) => Step::Announce,
                    _ => Step::Stop,
                };
            },
            Step::Announce => match self.kind {
                FileKind::Source => {
                    self.step = Step::ListCases;
                },
                FileKind::TestCase => {
                    self.step = if 0 < self.cases {
                        Step::Test { index: 0 }
                    } else {
                        Step::Stop
                    };
                },
            },
            Step::ListCases => {
                if let Outcome::Count(cases) = outcome {
                    self.cases = cases;
                    self.step = if 0 < cases {
                        Step::Test { index: 0 }
                    } else {
                        Step::Stop
                    };
                }
            },
            Step::Test { index } => {
                self.step = if self.cases > 0 && index < self.cases - 1 {
                    Step::Test { index: index + 1 }
                } else {
                    Step::Stop
                };
            },
            Step::ReportMissingSource | Step::Stop => {
                self.step = Step::Stop;
            },
        }
    }
}

/// A modified source file is compiled. If it does not compile, nothing more is done; if it does,
/// tests are announced, its test cases are listed, and each of them is run, in order, and after the
/// last one nothing more is done.
pub proof fn law_source_job(cases: usize, index: usize)
    requires
        index < cases,
    ensures
        ({
            let compile = first_job(FileKind::Source);
            let announce = next_job(compile, Outcome::Answer(true));
            let list = next_job(announce, Outcome::Done);
            let none = next_job(list, Outcome::Count(0));
            let first = next_job(list, Outcome::Count(cases));
            let here = Job { step: Step::Test { index }, ..first };
            let next = next_job(here, Outcome::Done);
            &&& compile.step == Step::Compile
            &&& next_job(compile, Outcome::Answer(false)).step == Step::Stop
            &&& announce.step == Step::Announce
            &&& list.step == Step::ListCases
            &&& none.step == Step::Stop
            &&& first.step == Step::Test { index: 0 }
            &&& next == (Job { step: next.step, ..first })
            &&& index + 1 < cases ==> next.step == Step::Test { index: (index + 1) as usize }
            &&& index + 1 == cases ==> next.step == Step::Stop
        }),
{
}

/// For a modified test case its source file is looked for. Where there is none, that is reported,
/// and nothing more is done. Otherwise the test case is read, and where the source has no executable
/// yet, it is compiled; if that fails, nothing more is done. Then the test is announced, this one
/// test case is run, and nothing more is done.
pub proof fn law_case_job()
    ensures
        ({
            let find = first_job(FileKind::TestCase);
            let missing = next_job(find, Outcome::Answer(false));
            let read = next_job(find, Outcome::Answer(true));
            let look = next_job(read, Outcome::Done);
            let announce = next_job(look, Outcome::Answer(true));
            let compile = next_job(look, Outcome::Answer(false));
            let test = next_job(announce, Outcome::Done);
            &&& find.step == Step::FindSource
            &&& missing.step == Step::ReportMissingSource
            &&& next_job(missing, Outcome::Done).step == Step::Stop
            &&& read.step == Step::ReadCase
            &&& look.step == Step::FindExecutable
            &&& announce.step == Step::Announce
            &&& compile.step == Step::Compile
            &&& next_job(compile, Outcome::Answer(false)).step == Step::Stop
            &&& next_job(compile, Outcome::Answer(true)) == announce
            &&& test.step == Step::Test { index: 0 }
            &&& next_job(test, Outcome::Done).step == Step::Stop
        }),
{
}

/// A job that has stopped does not go on, whatever it is told.
pub proof fn law_stopped(job: Job, outcome: Outcome)
    requires
        job.step is Stop,
    ensures
        next_job(job, outcome) == job,
{
}

/// How everything that a job asks for turns out.
pub ghost struct World {
    /// Whether the test case has a source file.
    pub source_found: bool,
    /// Whether the source file has an executable already.
    pub executable_found: bool,
    /// Whether the source file compiles.
    pub compiles: bool,
    /// How many test cases the source file has.
    pub cases: usize,
}

/// How a step turns out.
pub open spec fn outcome_in(world: World, step: Step) -> Outcome {
    match step {
        Step::FindSource => Outcome::Answer(world.source_found),
        Step::FindExecutable => Outcome::Answer(world.executable_found),
        Step::Compile => Outcome::Answer(world.compiles),
        Step::ListCases => Outcome::Count(world.cases),
        _ => Outcome::Done,
    }
}

/// The job after a number of steps.
pub open spec fn job_after(kind: FileKind, world: World, steps: nat) -> Job
    decreases steps,
{
    if steps == 0 {
        first_job(kind)
    } else {
        let job = job_after(kind, world, (steps - 1) as nat);
        next_job(job, outcome_in(world, job.step))
    }
}

/// Running a number of test cases, from the first to the last.
pub open spec fn all_tests(cases: usize) -> Seq<Step> {
    Seq::new(cases as nat, |i: int| Step::Test { index: i as usize })
}

/// All that is done about a modified file. A source file is compiled, and if it compiles, all its
/// test cases are run. For a test case its source file is looked for; if there is one, it is
/// compiled unless it was before, and if there is an executable then, this test case is run.
pub open spec fn plan(kind: FileKind, world: World) -> Seq<Step> {
    match kind {
        FileKind::Source => if world.compiles {
            seq![Step::Compile, Step::Announce, Step::ListCases] + all_tests(world.cases)
        } else {
            seq![Step::Compile]
        },
        FileKind::TestCase => if !world.source_found {
            seq![Step::FindSource, Step::ReportMissingSource]
        } else if world.executable_found {
            seq![
                Step::FindSource,
                Step::ReadCase,
                Step::FindExecutable,
                Step::Announce,
                Step::Test { index: 0 },
            ]
        } else if world.compiles {
            seq![
                Step::FindSource,
                Step::ReadCase,
                Step::FindExecutable,
                Step::Compile,
                Step::Announce,
                Step::Test { index: 0 },
            ]
        } else {
            seq![Step::FindSource, Step::ReadCase, Step::FindExecutable, Step::Compile]
        },
    }
}

/// A job keeps the kind of the file, and one about a test case has that one to run.
proof fn lemma_kept(kind: FileKind, world: World, steps: nat)
    ensures
        job_after(kind, world, steps).kind == kind,
        kind is TestCase ==> job_after(kind, world, steps).cases == 1,
        kind is TestCase ==> !(job_after(kind, world, steps).step is ListCases),
    decreases steps,
{
    if steps > 0 {
        lemma_kept(kind, world, (steps - 1) as nat);
    }
}

/// The test cases of a source file that compiles are run one after the other.
proof fn lemma_tests(world: World, index: nat)
    requires
        world.compiles,
        index <= world.cases,
    ensures
        job_after(FileKind::Source, world, 3 + index) == (Job {
            kind: FileKind::Source,
            step: test_or_stop(index as int, world.cases),
            cases: world.cases,
        }),
    decreases index,
{
    if index == 0 {
        reveal_with_fuel(job_after, 5);
    } else {
        lemma_tests(world, (index - 1) as nat);
    }
}

/// However things turn out, a job goes through the steps of its plan, in order, and then stops.
pub proof fn law_job_follows_plan(kind: FileKind, world: World, steps: nat)
    ensures
        job_after(kind, world, steps).step == if steps < plan(kind, world).len() {
            plan(kind, world)[steps as int]
        } else {
            Step::Stop
        },
    decreases steps,
{
    if kind is Source && world.compiles && 3 <= steps <= plan(kind, world).len() {
        lemma_tests(world, (steps - 3) as nat);
    } else if steps > 0 {
        law_job_follows_plan(kind, world, (steps - 1) as nat);
        lemma_kept(kind, world, (steps - 1) as nat);
    }
}

/// Whatever the source file, if it compiles, each of its test cases is run once, in order: the one
/// with number `index` comes that many steps behind the first, and behind the last nothing comes.
pub proof fn law_every_case_is_run(world: World, index: nat)
    requires
        world.compiles,
    ensures
        index < world.cases ==> job_after(FileKind::Source, world, 3 + index).step == (Step::Test {
            index: index as usize,
        }),
        index >= world.cases ==> job_after(FileKind::Source, world, 3 + index).step == Step::Stop,
    decreases index,
{
    if index <= world.cases {
        lemma_tests(world, index);
    } else {
        law_every_case_is_run(world, (index - 1) as nat);
    }
}

/// No test is run but on an executable that was found or has just been compiled.
pub proof fn law_tests_need_executable(kind: FileKind, world: World, steps: nat)
    requires
        job_after(kind, world, steps).step is Test,
    ensures
        world.compiles || kind is TestCase && world.source_found && world.executable_found,
{
    law_job_follows_plan(kind, world, steps);
}

} // verus!
