//! The logic of a watcher that compiles C++ sources and runs them on test cases: how test cases are
//! read, which files belong together, what is done about a modified file, how a run is judged and
//! how all this is reported. Reading files, running programs and printing are left to the caller.

pub mod compile;
pub mod diff;
pub mod directory;
pub mod kind;
pub mod log;
pub mod matching;
pub mod output;
pub mod paths;
pub mod runner;
pub mod seqs;
pub mod session;
pub mod style;
pub mod test_case;
pub mod text;
pub mod throttle;
pub mod verdict;
