//! The compiler call, and what it reports.
use crate::output::{from_utf8_lossy, lossy_text};
use crate::text::{trim, trimmed, utf8_text};
use vstd::prelude::*;

verus! {

/// What stands before the paths of the executable and the source in a compiler call.
pub open spec fn compiler_flags() -> Seq<Seq<char>> {
    seq![
        "-Wall"@,
        "-Wextra"@,
        "-fdiagnostics-color=always"@,
        "-x"@,
        "c++"@,
        "-g"@,
        "-O2"@,
        "-std=gnu++20"@,
        "-static"@,
        "-o"@,
    ]
}

/// The name of the compiler.
pub fn compiler() -> (r: &'static str)
    ensures
        r@ == "g++"@,
{
    "g++"
}

/// What stands before the paths of the executable and the source in a compiler call.
pub fn flags() -> (r: Vec<&'static str>)
    ensures
        r@.map_values(|s: &str| s@) == compiler_flags(),
{
    let r = vec![
        "-Wall",
        "-Wextra",
        "-fdiagnostics-color=always",
        "-x",
        "c++",
        "-g",
        "-O2",
        "-std=gnu++20",
        "-static",
        "-o",
    ];
    assert(r@.map_values(|s: &str| s@) =~= compiler_flags());
    r
}

/// What a report of a compilation holds. `None` is a compilation without anything to report.
pub open spec fn report_of(report: Option<Result<Option<String>, String>>) -> Option<
    Result<Option<Seq<char>>, Seq<char>>,
> {
    match report {
        None => None,
        Some(Err(message)) => Some(Err(message@)),
        Some(Ok(Some(warning))) => Some(Ok(Some(warning@))),
        Some(Ok(None)) => Some(Ok(None)),
    }
}

/// The report of a compilation: the message of one that failed, and the warnings of one that
/// succeeded, if it gave any.
pub open spec fn compile_report(success: bool, message: Seq<char>) -> Option<
    Result<Option<Seq<char>>, Seq<char>>,
> {
    if !success {
        Some(Err(message))
    } else if message.len() > 0 {
        Some(Ok(Some(message)))
    } else {
        None
    }
}

/// A compilation that failed is always reported, with all of its message; one that succeeded is
/// reported exactly where it has a message, and then as a warning that holds all of it.
pub proof fn law_compile_report(message: Seq<char>)
    ensures
        compile_report(false, message) == Some(Err::<Option<Seq<char>>, Seq<char>>(message)),
        message.len() > 0 ==> compile_report(true, message) == Some(
            Ok::<Option<Seq<char>>, Seq<char>>(Some(message)),
        ),
        compile_report(true, seq![]) is None,
{
}

/// The report of a compilation that ended with `message`.
pub fn report(success: bool, message: String) -> (r: Option<Result<Option<String>, String>>)
    ensures
        report_of(r) == compile_report(success, message@),
        !success ==> (r matches Some(Err(shown)) && shown@ == message@),
        success && message@.len() > 0 ==> (r matches Some(Ok(Some(shown))) && shown@ == message@),
        success && message@.len() == 0 ==> r is None,
{
    if !success {
        Some(Err(message))
    } else if !message.as_str().is_empty() {
        Some(Ok(Some(message)))
    } else {
        None
    }
}

/// The report of a compilation that wrote `stderr`, which is shown as it is, where it is UTF-8.
pub fn compile_result(success: bool, stderr: &Vec<u8>) -> (r: Option<
    Result<Option<String>, String>,
>)
    ensures
        report_of(r) == compile_report(success, trimmed(lossy_text(stderr@))),
        utf8_text(stderr@) matches Some(text) ==> lossy_text(stderr@) == text,
        !success ==> (r matches Some(Err(shown)) && shown@ == trimmed(lossy_text(stderr@))),
        success && trimmed(lossy_text(stderr@)).len() > 0 ==> (r matches Some(Ok(Some(shown)))
            && shown@ == trimmed(lossy_text(stderr@))),
        success && trimmed(lossy_text(stderr@)).len() == 0 ==> r is None,
{
    let text = from_utf8_lossy(stderr);
    report(success, trim(text.as_str()))
}

} // verus!
