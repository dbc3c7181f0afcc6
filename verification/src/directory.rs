//! What is taken from the listing of a directory.
use crate::kind::{kind_of_path, FileKind};
use crate::matching::{
    filter_source_file, filter_test_cases, is_case_of, is_named_after, is_source_of,
};
use crate::paths::path_of;
use crate::seqs::lemma_filter_next;
use std::path::{Path, PathBuf};
use vstd::prelude::*;

verus! {

/// An entry of a directory.
pub struct Entry {
    pub path: PathBuf,
    pub is_file: bool,
}

/// Whether an entry is a file of a given kind.
pub open spec fn is_of_kind(entry: Entry, kind: FileKind) -> bool {
    entry.is_file && kind_of_path(path_of(entry.path)) == Some(kind)
}

/// The paths of the files of a given kind, in the order of the listing.
pub open spec fn listed(entries: Seq<Entry>, kind: FileKind) -> Seq<PathBuf> {
    entries.filter(|e: Entry| is_of_kind(e, kind)).map_values(|e: Entry| e.path)
}

/// Of a listing, the files of a kind are listed, each where it stands, and nothing else is: no
/// directory, and no file of another kind or of none.
pub proof fn law_listed(entries: Seq<Entry>, entry: Entry, kind: FileKind)
    ensures
        listed(seq![], kind) == Seq::<PathBuf>::empty(),
        entry.is_file && kind_of_path(path_of(entry.path)) == Some(kind) ==> listed(
            entries.push(entry),
            kind,
        ) == listed(entries, kind).push(entry.path),
        !entry.is_file || kind_of_path(path_of(entry.path)) != Some(kind) ==> listed(
            entries.push(entry),
            kind,
        ) == listed(entries, kind),
{
    reveal(Seq::filter);
    let keep = |e: Entry| is_of_kind(e, kind);
    let path = |e: Entry| e.path;
    assert(entries.push(entry).drop_last() == entries);
    assert(entries.filter(keep).push(entry).map_values(path) == entries.filter(keep).map_values(
        path,
    ).push(entry.path));
}

/// The paths of the files of a given kind, in the order of the listing.
pub fn files_of_kind(entries: Vec<Entry>, kind: FileKind) -> (r: Vec<PathBuf>)
    ensures
        r@ == listed(entries@, kind),
{
    let ghost keep = |e: Entry| is_of_kind(e, kind);
    let ghost path = |e: Entry| e.path;
    let mut paths: Vec<PathBuf> = Vec::new();
    reveal(Seq::filter);
    for entry in it: entries
        invariant
            it.seq() == entries@,
            keep == (|e: Entry| is_of_kind(e, kind)),
            path == (|e: Entry| e.path),
            paths@ == entries@.take(it.index() as int).filter(keep).map_values(path),
    {
        proof {
            let before = entries@.take(it.index() as int).filter(keep);
            lemma_filter_next(entries@, keep, it.index() as int);
            assert(before.push(entry).map_values(path) == before.map_values(path).push(entry.path));
        }
        if entry.is_file {
            if let Some(found) = FileKind::of_path(entry.path.as_path()) {
                if found == kind {
                    paths.push(entry.path);
                }
            }
        }
    }
    assert(entries@.take(entries@.len() as int) == entries@);
    paths
}

/// The source file in a listed directory that a test case belongs to, if it belongs to one.
pub fn get_source_file(entries: Vec<Entry>, test_case: &Path) -> (r: Option<PathBuf>)
    ensures
        match r {
            Some(source) => exists|j: int| #[trigger]
                is_source_of(listed(entries@, FileKind::Source), j, test_case) && source == listed(
                    entries@,
                    FileKind::Source,
                )[j],
            None => forall|j: int|
                !is_source_of(listed(entries@, FileKind::Source), j, test_case),
        },
        forall|j: int| #[trigger]
            is_named_after(listed(entries@, FileKind::Source), j, test_case) ==> r == Some(
                listed(entries@, FileKind::Source)[j],
            ),
{
    filter_source_file(files_of_kind(entries, FileKind::Source), test_case)
}

/// The test cases in a listed directory that belong to a source file, in the order of the listing.
pub fn get_test_cases(entries: Vec<Entry>, source: &Path) -> (r: Vec<PathBuf>)
    ensures
        r@ == listed(entries@, FileKind::TestCase).filter(
            |p: PathBuf| is_case_of(path_of(p), source),
        ),
{
    filter_test_cases(files_of_kind(entries, FileKind::TestCase), source)
}

} // verus!
