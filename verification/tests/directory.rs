use io_watch::directory::{files_of_kind, get_source_file, get_test_cases, Entry};
use io_watch::kind::FileKind;
use io_watch::paths::{extension_text, shown, stem_text};
use io_watch::runner::TestRunner;
use std::path::{Path, PathBuf};

fn entries() -> Vec<Entry> {
    let mut out = Vec::new();
    for (path, is_file) in [
        ("d/a.cpp", true),
        ("d/a1.io", true),
        ("d/b.cxx", true),
        ("d/a.io", false),
        ("d/b.io", true),
        ("d/a2.io", true),
        ("d/c.txt", true),
        ("d/io", true),
    ] {
        out.push(Entry { path: path.into(), is_file });
    }
    out
}

#[test]
fn extensions_have_kinds() {
    assert_eq!(Some(FileKind::Source), FileKind::from_extension("c++"));
    assert_eq!(Some(FileKind::Source), FileKind::from_extension("cpp"));
    assert_eq!(Some(FileKind::Source), FileKind::from_extension("cxx"));
    assert_eq!(Some(FileKind::TestCase), FileKind::from_extension("io"));
    assert_eq!(None, FileKind::from_extension("CPP"));
    assert_eq!(None, FileKind::from_extension("c"));
    assert_eq!(None, FileKind::from_extension(""));
}

#[test]
fn paths_have_kinds() {
    assert_eq!(Some(FileKind::Source), FileKind::of_path(Path::new("x/a.b.cpp")));
    assert_eq!(Some(FileKind::TestCase), FileKind::of_path(Path::new("x/a.io")));
    assert_eq!(None, FileKind::of_path(Path::new("x.io/a")));
    assert_eq!(None, FileKind::of_path(Path::new(".io")));
    assert_eq!(None, FileKind::of_path(Path::new("..")));
}

#[test]
fn stems_and_extensions() {
    assert_eq!(Some("a.b".to_string()), stem_text(Path::new("x/a.b.cpp")));
    assert_eq!(Some(".io".to_string()), stem_text(Path::new(".io")));
    assert_eq!(Some("a".to_string()), stem_text(Path::new("a.")));
    assert_eq!(None, stem_text(Path::new("a/..")));
    assert_eq!(Some("cpp".to_string()), extension_text(Path::new("x/a.b.cpp")));
    assert_eq!(Some("".to_string()), extension_text(Path::new("a.")));
    assert_eq!(None, extension_text(Path::new(".io")));
    assert_eq!("x/a.b", shown(Path::new("x/a.b")));
}

#[test]
fn listings_are_sorted_out_by_kind() {
    assert_eq!(
        vec![PathBuf::from("d/a.cpp"), "d/b.cxx".into()],
        files_of_kind(entries(), FileKind::Source),
    );
    assert_eq!(
        vec![PathBuf::from("d/a1.io"), "d/b.io".into(), "d/a2.io".into()],
        files_of_kind(entries(), FileKind::TestCase),
    );
}

#[test]
fn sources_and_cases_are_found_in_a_listing() {
    assert_eq!(
        Some(PathBuf::from("d/a.cpp")),
        get_source_file(entries(), Path::new("d/a2.io")),
    );
    assert_eq!(None, get_source_file(entries(), Path::new("d/x.io")));
    assert_eq!(
        vec![PathBuf::from("d/a1.io"), "d/a2.io".into()],
        get_test_cases(entries(), Path::new("d/a.cpp")),
    );
}

#[test]
fn executables_are_named_after_their_sources() {
    let runner = TestRunner {
        root_directory: "d".into(),
        bin_directory: "/tmp/bin".into(),
    };
    assert_eq!(
        Some(PathBuf::from("/tmp/bin/a")),
        runner.get_exe_path(Path::new("d/a.cpp"), ""),
    );
    assert_eq!(
        Some(PathBuf::from("/tmp/bin/a.exe")),
        runner.get_exe_path(Path::new("d/a.cpp"), "exe"),
    );
    assert_eq!(
        Some(PathBuf::from("/tmp/bin/a")),
        runner.get_exe_path(Path::new("d/a.b.cpp"), ""),
    );
    assert_eq!(None, runner.get_exe_path(Path::new("d/.."), ""));
}

#[test]
fn sources_with_other_stems_have_other_executables() {
    let runner = TestRunner {
        root_directory: "d".into(),
        bin_directory: "/tmp/bin".into(),
    };
    for extension in ["", "exe"] {
        let a = runner.get_exe_path(Path::new("d/ab.cpp"), extension).unwrap();
        let b = runner.get_exe_path(Path::new("d/ac.cpp"), extension).unwrap();
        assert_ne!(a, b);
        assert_eq!(Some(a.clone()), runner.get_exe_path(Path::new("e/ab.cc"), extension));
        assert_eq!(Some(Path::new("/tmp/bin")), a.parent());
        assert_eq!(Some("ab"), a.file_stem().and_then(|s| s.to_str()));
    }
}

#[test]
fn executables_lie_in_any_directory() {
    for directory in ["", "/", ".", "..", "bin", "/tmp/bin", "/tmp/bin/"] {
        let runner = TestRunner {
            root_directory: "d".into(),
            bin_directory: directory.into(),
        };
        for stem in ["a", "ab:c", "a b", "\u{e9}"] {
            let source = PathBuf::from(format!("d/{stem}.cpp"));
            for extension in ["", "exe"] {
                let path = runner.get_exe_path(&source, extension).unwrap();
                assert_eq!(Some(Path::new(directory)), path.parent());
                assert_eq!(Some(stem), path.file_stem().and_then(|s| s.to_str()));
                assert_eq!(extension, path.extension().and_then(|e| e.to_str()).unwrap_or(""));
            }
        }
    }
}
