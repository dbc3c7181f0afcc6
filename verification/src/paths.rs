//! Paths of the platform, and what the library reads from them: the stem and the extension of the
//! file name.
//!
//! A path is a string of the platform and need not be text. `path_bytes` stands for its bytes in
//! the encoding that the standard library documents as a superset of UTF-8, so that a path is text
//! exactly where these bytes are UTF-8.
use crate::text::{law_utf8_text, text_of, utf8_text};
use std::path::{Path, PathBuf};
use vstd::prelude::*;
use vstd::utf8::encode_utf8;

verus! {

/// A borrowed path of the platform.
#[verifier::external_type_specification]
#[verifier::external_body]
pub struct ExPath(Path);

/// An owned path of the platform.
#[verifier::external_type_specification]
#[verifier::external_body]
pub struct ExPathBuf(PathBuf);

/// The bytes that a path holds.
pub uninterp spec fn path_bytes(path: &Path) -> Seq<u8>;

/// The file name of a path, as `Path::file_name` finds it: its last component, where that is a
/// name. There is none where the path ends in a root or in `..`.
pub uninterp spec fn file_name_of(path: &Path) -> Option<Seq<u8>>;

/// The components of a path, as `Path::components` lists them: names, and before them the root and
/// the prefix of the platform, as far as the path has these.
pub uninterp spec fn components_of(path: &Path) -> Seq<Seq<u8>>;

/// The path that an owned path holds, as `PathBuf::as_path` gives it.
pub uninterp spec fn path_of(path: PathBuf) -> &'static Path;

/// The text of a path as it is shown, as `Path::to_string_lossy` gives it.
pub uninterp spec fn shown_path(path: &Path) -> Seq<char>;

/// The path that `Path::join` makes of a directory and the bytes of a path in it.
pub uninterp spec fn joined(directory: &Path, name: Seq<u8>) -> PathBuf;

/// The path that `PathBuf::set_extension` leaves behind.
pub uninterp spec fn with_extension(path: PathBuf, extension: Seq<char>) -> PathBuf;

/// The place of the last dot of a file name, and -1 where there is none.
pub open spec fn last_dot(name: Seq<u8>) -> int
    decreases name.len(),
{
    if name.len() == 0 {
        -1
    } else if name.last() == 0x2e {
        name.len() - 1
    } else {
        last_dot(name.drop_last())
    }
}

/// The stem of a file name: what stands before its last dot. A name without a dot, or whose only
/// dot is its first character, is its own stem.
pub open spec fn stem_of(name: Seq<u8>) -> Seq<u8> {
    if last_dot(name) <= 0 {
        name
    } else {
        name.take(last_dot(name))
    }
}

/// The extension of a file name: what stands behind its last dot. A name without a dot, or whose
/// only dot is its first character, has none.
pub open spec fn extension_of(name: Seq<u8>) -> Option<Seq<u8>> {
    if last_dot(name) <= 0 {
        None
    } else {
        Some(name.skip(last_dot(name) + 1))
    }
}

/// The last dot of a name that is made of a part without a dot, a dot, and another such part.
pub proof fn lemma_last_dot(stem: Seq<u8>, extension: Seq<u8>)
    requires
        !stem.contains(0x2e),
        !extension.contains(0x2e),
    ensures
        last_dot(stem) == -1,
        last_dot(stem + seq![0x2eu8] + extension) == stem.len(),
    decreases stem.len() + extension.len(),
{
    let name = stem + seq![0x2eu8] + extension;
    if extension.len() > 0 {
        let shorter = extension.drop_last();
        assert(extension.contains(extension.last()));
        assert forall|i: int| 0 <= i < shorter.len() implies shorter[i] != 0x2e by {
            assert(extension.contains(extension[i]));
        }
        lemma_last_dot(stem, shorter);
        assert(name.drop_last() == stem + seq![0x2eu8] + shorter);
    } else if stem.len() > 0 {
        let shorter = stem.drop_last();
        assert(stem.contains(stem.last()));
        assert forall|i: int| 0 <= i < shorter.len() implies shorter[i] != 0x2e by {
            assert(stem.contains(stem[i]));
        }
        lemma_last_dot(shorter, extension);
    }
}

/// A file name is its stem, a dot and its extension, which holds no dot.
pub proof fn law_stem_and_extension(stem: Seq<u8>, extension: Seq<u8>)
    requires
        stem.len() > 0,
        !extension.contains(0x2e),
    ensures
        stem_of(stem + seq![0x2eu8] + extension) == stem,
        extension_of(stem + seq![0x2eu8] + extension) == Some(extension),
{
    let name = stem + seq![0x2eu8] + extension;
    lemma_dot_before(stem, extension);
    assert(name.take(stem.len() as int) == stem);
    assert(name.skip(stem.len() as int + 1) == extension);
}

/// The last dot of a name is the one with no dot behind it.
proof fn lemma_dot_before(stem: Seq<u8>, extension: Seq<u8>)
    requires
        !extension.contains(0x2e),
    ensures
        last_dot(stem + seq![0x2eu8] + extension) == stem.len(),
    decreases extension.len(),
{
    let name = stem + seq![0x2eu8] + extension;
    if extension.len() > 0 {
        let shorter = extension.drop_last();
        assert(extension.contains(extension.last()));
        assert forall|i: int| 0 <= i < shorter.len() implies shorter[i] != 0x2e by {
            assert(extension.contains(extension[i]));
        }
        lemma_dot_before(stem, shorter);
        assert(name.drop_last() == stem + seq![0x2eu8] + shorter);
    }
}

/// A file name without a dot, or with none but one in front, is its own stem and has no extension.
pub proof fn law_no_extension(name: Seq<u8>)
    requires
        !name.contains(0x2e),
    ensures
        stem_of(name) == name,
        extension_of(name) is None,
        stem_of(seq![0x2eu8] + name) == seq![0x2eu8] + name,
        extension_of(seq![0x2eu8] + name) is None,
{
    lemma_last_dot(name, seq![]);
    lemma_dot_before(seq![], name);
    assert(Seq::<u8>::empty() + seq![0x2eu8] + name == seq![0x2eu8] + name);
}

/// The stem of a file name, where there is a file name.
pub open spec fn stem_in(file_name: Option<Seq<u8>>) -> Option<Seq<u8>> {
    match file_name {
        Some(name) => Some(stem_of(name)),
        None => None,
    }
}

/// The extension of a file name, where there is a file name and it has one.
pub open spec fn extension_in(file_name: Option<Seq<u8>>) -> Option<Seq<u8>> {
    match file_name {
        Some(name) => extension_of(name),
        None => None,
    }
}

/// The stem of a path's file name, where there is a file name and its stem is text.
pub open spec fn stem_text_of(path: &Path) -> Option<Seq<char>> {
    match stem_in(file_name_of(path)) {
        Some(stem) => utf8_text(stem),
        None => None,
    }
}

/// The extension of a path's file name, where there is one and it is text.
pub open spec fn extension_text_of(path: &Path) -> Option<Seq<char>> {
    match extension_in(file_name_of(path)) {
        Some(extension) => utf8_text(extension),
        None => None,
    }
}

/// The stem and the extension of a path are those of its file name, as text where they are UTF-8. A
/// path without a file name has neither.
pub proof fn law_path_texts(path: &Path, name: Seq<u8>, stem: Seq<char>, extension: Seq<char>)
    requires
        file_name_of(path) == Some(name),
    ensures
        stem_text_of(path) == Some(stem) <==> stem_of(name) == encode_utf8(stem),
        extension_text_of(path) == Some(extension) <==> extension_of(name) == Some(
            encode_utf8(extension),
        ),
        forall|other: &Path| #[trigger]
            file_name_of(other) is None ==> stem_text_of(other) is None && extension_text_of(
                other,
            ) is None,
{
    law_utf8_text(stem_of(name), stem);
    if let Some(bytes) = extension_of(name) {
        law_utf8_text(bytes, extension);
    }
}

/// The bytes of an optional path.
pub open spec fn bytes_of(path: Option<&Path>) -> Option<Seq<u8>> {
    match path {
        Some(p) => Some(path_bytes(p)),
        None => None,
    }
}

/// Whether a stem stands for itself as a path on every platform: it holds no dot and no slash, and
/// does not begin as a drive does, with a colon at the second place.
pub open spec fn is_plain(stem: Seq<u8>) -> bool {
    &&& !stem.contains(0x2e)
    &&& !stem.contains(0x2f)
    &&& !(stem.len() >= 2 && stem[1] == 0x3a)
}

/// Whether a path begins with two separators, as the name of a server does on some platforms: what
/// is put behind such a path may become a part of its prefix.
pub open spec fn may_open_prefix(path: Seq<u8>) -> bool {
    &&& path.len() >= 2
    &&& path[0] == 0x2f || path[0] == 0x5c
    &&& path[1] == 0x2f || path[1] == 0x5c
}

/// An extension with the dot in front of it, and nothing for an empty one.
pub open spec fn dotted(extension: Seq<char>) -> Seq<u8> {
    if extension.len() == 0 {
        seq![]
    } else {
        seq![0x2eu8] + encode_utf8(extension)
    }
}

/// `PathBuf::as_path` lends the path that the owned path holds.
pub assume_specification[ PathBuf::as_path ](path: &PathBuf) -> (r: &Path)
    ensures
        r == path_of(*path),
;

/// `Path::file_stem` gives nothing where the path has no file name, and otherwise the stem of the
/// file name, which is handed on as a path. A file name is never empty, and so its stem is not
/// either. As a path, a plain stem is a file name and nothing else.
#[verifier::external_body]
pub(crate) fn file_stem(path: &Path) -> (r: Option<&Path>)
    ensures
        bytes_of(r) == stem_in(file_name_of(path)),
        r matches Some(stem) ==> path_bytes(stem).len() > 0,
        r matches Some(stem) ==> is_plain(path_bytes(stem)) ==> file_name_of(stem) == Some(
            path_bytes(stem),
        ),
{
    path.file_stem().map(Path::new)
}

/// `Path::extension` gives nothing where the path has no file name or the file name has no
/// extension, and otherwise the extension, which is handed on as a path.
#[verifier::external_body]
fn extension(path: &Path) -> (r: Option<&Path>)
    ensures
        bytes_of(r) == extension_in(file_name_of(path)),
{
    path.extension().map(Path::new)
}

/// `Path::to_str` gives the path as text where its bytes are UTF-8, and nothing elsewhere.
#[verifier::external_body]
fn to_str(path: &Path) -> (r: Option<&str>)
    ensures
        r is Some <==> utf8_text(path_bytes(path)) is Some,
        r matches Some(text) ==> Some(text@) == utf8_text(path_bytes(path)),
{
    path.to_str()
}

/// `Path::to_string_lossy` gives the path as text, with replacement characters for what is not
/// text; a path that is text is given as it is.
#[verifier::external_body]
fn to_string_lossy(path: &Path) -> (r: String)
    ensures
        r@ == shown_path(path),
        utf8_text(path_bytes(path)) matches Some(text) ==> r@ == text,
{
    path.to_string_lossy().into_owned()
}

/// `Path::join` puts a path behind a directory. Where that path is a file name and nothing else, and
/// the directory does not begin with two separators, it is the file name of the result, and the
/// result has the components of the directory and that one behind them.
#[verifier::external_body]
pub(crate) fn join(directory: &Path, name: &Path) -> (r: PathBuf)
    ensures
        r == joined(directory, path_bytes(name)),
        file_name_of(name) == Some(path_bytes(name)) && !may_open_prefix(path_bytes(directory)) ==> {
            &&& file_name_of(path_of(r)) == Some(path_bytes(name))
            &&& components_of(path_of(r)) == components_of(directory).push(path_bytes(name))
        },
{
    directory.join(name)
}

/// `PathBuf::set_extension` replaces the extension of a path, or takes it away where the new one is
/// empty. A file name without a dot gets the new extension behind it, and the components before it
/// stay. It panics where the extension holds a separator of the platform.
#[verifier::external_body]
pub(crate) fn set_extension(path: &mut PathBuf, extension: &str)
    requires
        !extension@.contains('/'),
        !extension@.contains('\\'),
    ensures
        *final(path) == with_extension(*old(path), extension@),
        file_name_of(path_of(*old(path))) matches Some(name) ==> !name.contains(0x2e) ==> {
            &&& file_name_of(path_of(*final(path))) == Some(name + dotted(extension@))
            &&& components_of(path_of(*final(path))) == components_of(
                path_of(*old(path)),
            ).drop_last().push(name + dotted(extension@))
        },
{
    path.set_extension(extension);
}

/// The text of a path as it is shown: as it is, where it is text.
pub fn shown(path: &Path) -> (r: String)
    ensures
        r@ == shown_path(path),
        utf8_text(path_bytes(path)) matches Some(text) ==> r@ == text,
{
    to_string_lossy(path)
}

/// The stem of a path's file name, where there is a file name and its stem is text. It is never
/// empty.
pub fn stem_text(path: &Path) -> (r: Option<String>)
    ensures
        text_of(r) == stem_text_of(path),
        r matches Some(stem) ==> stem@.len() > 0,
{
    match file_stem(path) {
        Some(stem) => match to_str(stem) {
            Some(text) => Some(text.to_owned()),
            None => None,
        },
        None => None,
    }
}

/// The extension of a path's file name, where there is one and it is text.
pub fn extension_text(path: &Path) -> (r: Option<String>)
    ensures
        text_of(r) == extension_text_of(path),
{
    match extension(path) {
        Some(extension) => match to_str(extension) {
            Some(text) => Some(text.to_owned()),
            None => None,
        },
        None => None,
    }
}

} // verus!
