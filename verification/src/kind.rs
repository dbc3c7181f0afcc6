//! Which files the watcher reacts to.
use crate::paths::{
    extension_of, extension_text, extension_text_of, file_name_of, law_no_extension, law_path_texts,
    law_stem_and_extension,
};
use crate::text::same_text;
use std::path::Path;
use vstd::prelude::*;
use vstd::utf8::encode_utf8;

verus! {

/// The kinds of files that belong to the watched directory.
#[derive(Debug, PartialEq, Eq, Clone, Copy, Structural)]
pub enum FileKind {
    /// A C++ source file.
    Source,
    /// A file that holds one test case.
    TestCase,
}

/// The kind of the files with a given extension.
pub open spec fn kind_of_extension(extension: Seq<char>) -> Option<FileKind> {
    if extension == "c++"@ || extension == "cpp"@ || extension == "cxx"@ {
        Some(FileKind::Source)
    } else if extension == "io"@ {
        Some(FileKind::TestCase)
    } else {
        None
    }
}

/// The kind of the file at a path: that of its extension. A file without an extension has none,
/// and one whose extension is not text has none either.
pub open spec fn kind_of_path(path: &Path) -> Option<FileKind> {
    match extension_text_of(path) {
        Some(extension) => kind_of_extension(extension),
        None => None,
    }
}

/// The extensions of sources are `c++`, `cpp` and `cxx`, that of test cases is `io`, and files with
/// any other are of no kind.
pub proof fn law_kinds(extension: Seq<char>)
    ensures
        kind_of_extension(extension) == Some(FileKind::Source) <==> extension == seq!['c', '+', '+']
            || extension == seq!['c', 'p', 'p'] || extension == seq!['c', 'x', 'x'],
        kind_of_extension(extension) == Some(FileKind::TestCase) <==> extension == seq!['i', 'o'],
{
    reveal_strlit("c++");
    reveal_strlit("cpp");
    reveal_strlit("cxx");
    reveal_strlit("io");
    assert("c++"@ == seq!['c', '+', '+']);
    assert("cpp"@ == seq!['c', 'p', 'p']);
    assert("cxx"@ == seq!['c', 'x', 'x']);
    assert("io"@ == seq!['i', 'o']);
    assert(seq!['c', '+', '+'][1] != seq!['c', 'p', 'p'][1]);
    assert(seq!['i', 'o'].len() == 2);
}

/// A file is of the kind that stands behind the last dot of its name, whatever stands before the
/// dot, as long as something does.
pub proof fn law_kind_of_name(path: &Path, stem: Seq<u8>, extension: Seq<char>)
    requires
        stem.len() > 0,
        !encode_utf8(extension).contains(0x2e),
        file_name_of(path) == Some(stem + seq![0x2eu8] + encode_utf8(extension)),
    ensures
        kind_of_path(path) == Some(FileKind::Source) <==> extension == seq!['c', '+', '+']
            || extension == seq!['c', 'p', 'p'] || extension == seq!['c', 'x', 'x'],
        kind_of_path(path) == Some(FileKind::TestCase) <==> extension == seq!['i', 'o'],
{
    let name = stem + seq![0x2eu8] + encode_utf8(extension);
    law_stem_and_extension(stem, encode_utf8(extension));
    law_path_texts(path, name, seq![], extension);
    law_kinds(extension);
}

/// A file is a source or a test case exactly where its name has one of the extensions of these.
pub proof fn law_kind_of_path(path: &Path, name: Seq<u8>)
    requires
        file_name_of(path) == Some(name),
    ensures
        kind_of_path(path) == Some(FileKind::Source) <==> {
            ||| extension_of(name) == Some(encode_utf8(seq!['c', '+', '+']))
            ||| extension_of(name) == Some(encode_utf8(seq!['c', 'p', 'p']))
            ||| extension_of(name) == Some(encode_utf8(seq!['c', 'x', 'x']))
        },
        kind_of_path(path) == Some(FileKind::TestCase) <==> extension_of(name) == Some(
            encode_utf8(seq!['i', 'o']),
        ),
{
    law_path_texts(path, name, seq![], seq!['c', '+', '+']);
    law_path_texts(path, name, seq![], seq!['c', 'p', 'p']);
    law_path_texts(path, name, seq![], seq!['c', 'x', 'x']);
    law_path_texts(path, name, seq![], seq!['i', 'o']);
    law_kinds(seq!['c', '+', '+']);
    law_kinds(seq!['c', 'p', 'p']);
    law_kinds(seq!['c', 'x', 'x']);
    law_kinds(seq!['i', 'o']);
    if let Some(extension) = extension_text_of(path) {
        law_kinds(extension);
    }
}

/// A file without a name, or whose name holds no dot or none but one in front, is of no kind.
pub proof fn law_no_kind(path: &Path, name: Seq<u8>)
    requires
        !name.contains(0x2e),
    ensures
        file_name_of(path) is None ==> kind_of_path(path) is None,
        file_name_of(path) == Some(name) ==> kind_of_path(path) is None,
        file_name_of(path) == Some(seq![0x2eu8] + name) ==> kind_of_path(path) is None,
{
    law_no_extension(name);
}

impl FileKind {
    /// The kind of the files with a given extension.
    pub fn from_extension(ext: &str) -> (r: Option<Self>)
        ensures
            r == kind_of_extension(ext@),
    {
        if same_text(ext, "c++") || same_text(ext, "cpp") || same_text(ext, "cxx") {
            Some(FileKind::Source)
        } else if same_text(ext, "io") {
            Some(FileKind::TestCase)
        } else {
            None
        }
    }

    /// The kind of the file at a path.
    pub fn of_path(path: &Path) -> (r: Option<Self>)
        ensures
            r == kind_of_path(path),
    {
        match extension_text(path) {
            Some(ext) => FileKind::from_extension(ext.as_str()),
            None => None,
        }
    }
}

} // verus!
