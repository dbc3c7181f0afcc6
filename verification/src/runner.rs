//! Where the watcher works, and where it puts the executables.
use crate::paths::{
    components_of, dotted, file_name_of, file_stem, is_plain, join, joined, lemma_last_dot,
    may_open_prefix, path_bytes, path_of, set_extension, stem_in, stem_of, with_extension,
};
use std::path::{Path, PathBuf};
use vstd::prelude::*;
use vstd::utf8::{encode_utf8, is_ascii_chars, is_ascii_chars_encode_utf8};

verus! {

/// The directories that the watcher works with.
#[derive(Debug)]
pub struct TestRunner {
    /// The watched directory.
    pub root_directory: PathBuf,
    /// The directory that holds the executables.
    pub bin_directory: PathBuf,
}

/// The path of the executable of a source file: in a directory, under the stem of the source, with
/// the extension that executables have. There is none where the source has no file name.
pub open spec fn exe_path_of(directory: &Path, source: &Path, exe_extension: Seq<char>) -> Option<
    PathBuf,
> {
    match stem_in(file_name_of(source)) {
        Some(stem) => Some(with_extension(joined(directory, stem), exe_extension)),
        None => None,
    }
}

/// Of a source, nothing but the stem of its file name says where its executable is: neither the
/// directory that it is in nor its extension does. Every source with a file name has one.
pub proof fn law_exe_path(
    directory: &Path,
    first: &Path,
    second: &Path,
    exe_extension: Seq<char>,
    name: Seq<u8>,
)
    requires
        file_name_of(first) == Some(name),
    ensures
        exe_path_of(directory, first, exe_extension) == Some(
            with_extension(joined(directory, stem_of(name)), exe_extension),
        ),
        file_name_of(second) matches Some(other) ==> stem_of(other) == stem_of(name) ==> exe_path_of(
            directory,
            second,
            exe_extension,
        ) == exe_path_of(directory, first, exe_extension),
        file_name_of(second) is None ==> exe_path_of(directory, second, exe_extension) is None,
{
}

/// Whether a path is named as the executable of a source file: where the stem of the source is
/// plain, and the directory does not begin with two separators, the file name is that stem with the
/// extension that executables have, and the path lies in the directory.
pub open spec fn is_named_exe(
    path: PathBuf,
    directory: &Path,
    source: &Path,
    exe_extension: Seq<char>,
) -> bool {
    stem_in(file_name_of(source)) matches Some(stem) ==> is_plain(stem) && !may_open_prefix(
        path_bytes(directory),
    ) ==> {
        &&& stem.len() > 0
        &&& file_name_of(path_of(path)) == Some(stem + dotted(exe_extension))
        &&& components_of(path_of(path)) == components_of(directory).push(
            stem + dotted(exe_extension),
        )
    }
}

/// The stem of an executable's file name is the stem of its source.
proof fn lemma_exe_stem(stem: Seq<u8>, exe_extension: Seq<char>)
    requires
        !stem.contains(0x2e),
        stem.len() > 0,
        is_ascii_chars(exe_extension),
        !exe_extension.contains('.'),
    ensures
        stem_of(stem + dotted(exe_extension)) == stem,
{
    let bytes = encode_utf8(exe_extension);
    is_ascii_chars_encode_utf8(exe_extension);
    assert forall|i: int| 0 <= i < bytes.len() implies bytes[i] != 0x2e by {
        assert(exe_extension.contains(exe_extension[i]));
    }
    lemma_last_dot(stem, bytes);
    if exe_extension.len() == 0 {
        assert(stem + dotted(exe_extension) == stem);
    } else {
        assert(stem + dotted(exe_extension) == stem + seq![0x2eu8] + bytes);
    }
}

/// Source files with plain stems have the same executable exactly where their stems are the same.
/// The executable lies in the directory, and its stem is that of the source. The directory is any
/// that does not begin with two separators.
pub proof fn law_executables(
    directory: &Path,
    first: &Path,
    second: &Path,
    exe_extension: Seq<char>,
    first_exe: PathBuf,
    second_exe: PathBuf,
)
    requires
        exe_path_of(directory, first, exe_extension) == Some(first_exe),
        exe_path_of(directory, second, exe_extension) == Some(second_exe),
        is_named_exe(first_exe, directory, first, exe_extension),
        is_named_exe(second_exe, directory, second, exe_extension),
        is_plain(stem_in(file_name_of(first))->0),
        is_plain(stem_in(file_name_of(second))->0),
        !may_open_prefix(path_bytes(directory)),
    ensures
        first_exe == second_exe <==> stem_in(file_name_of(first)) == stem_in(file_name_of(second)),
        components_of(path_of(first_exe)).drop_last() == components_of(directory),
        is_ascii_chars(exe_extension) && !exe_extension.contains('.') ==> stem_in(
            file_name_of(path_of(first_exe)),
        ) == stem_in(file_name_of(first)),
{
    let a = stem_in(file_name_of(first))->0;
    let b = stem_in(file_name_of(second))->0;
    let end = dotted(exe_extension);
    if first_exe == second_exe {
        assert(a + end == b + end);
        assert(a.len() == b.len());
        assert(a == (a + end).take(a.len() as int));
        assert(b == (b + end).take(b.len() as int));
    }
    assert(components_of(directory).push(a + end).drop_last() == components_of(directory));
    if is_ascii_chars(exe_extension) && !exe_extension.contains('.') {
        lemma_exe_stem(a, exe_extension);
    }
}

impl TestRunner {
    /// The path of the executable of a source file. The extension that executables have on this
    /// platform holds no separator.
    pub fn get_exe_path(&self, source: &Path, exe_extension: &str) -> (r: Option<PathBuf>)
        requires
            !exe_extension@.contains('/'),
            !exe_extension@.contains('\\'),
        ensures
            r == exe_path_of(path_of(self.bin_directory), source, exe_extension@),
            r is Some <==> file_name_of(source) is Some,
            file_name_of(source) matches Some(name) ==> r == Some(
                with_extension(
                    joined(path_of(self.bin_directory), stem_of(name)),
                    exe_extension@,
                ),
            ),
            file_name_of(source) matches Some(name) ==> is_plain(stem_of(name)) && !may_open_prefix(
                path_bytes(path_of(self.bin_directory)),
            ) ==> components_of(path_of(r->0)) == components_of(path_of(self.bin_directory)).push(
                stem_of(name) + dotted(exe_extension@),
            ),
            r matches Some(path) ==> is_named_exe(
                path,
                path_of(self.bin_directory),
                source,
                exe_extension@,
            ),
    {
        match file_stem(source) {
            Some(stem) => {
                let mut path = join(self.bin_directory.as_path(), stem);
                proof {
                    let directory = components_of(path_of(self.bin_directory));
                    assert(directory.push(path_bytes(stem)).drop_last() == directory);
                }
                set_extension(&mut path, exe_extension);
                Some(path)
            },
            None => None,
        }
    }
}

} // verus!
