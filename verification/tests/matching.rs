use io_watch::matching::{filter_source_file, filter_test_cases};

#[test]
fn test_filter_source_file() {
    assert_eq!(
        Some("foo/cd.cpp".into()),
        filter_source_file(
            vec![
                "foo/ab.cpp".into(),
                "foo/bc.cpp".into(),
                "foo/cd.cpp".into(),
                "foo/de.cpp".into(),
            ],
            std::path::Path::new("foo/cd2.io"),
        )
    );
    assert_eq!(
        None,
        filter_source_file(
            vec!["foo/abc.cpp".into(), "foo/abd.cpp".into()],
            std::path::Path::new("foo/ab.io"),
        )
    );
}

#[test]
fn test_filter_test_cases() {
    assert_eq!(
        vec![
            std::path::PathBuf::from("foo/bar.io"),
            "foo/bar0.io".into(),
            "foo/bar1.io".into(),
        ],
        filter_test_cases(
            vec![
                "foo/bar.io".into(),
                "foo/bar0.io".into(),
                "foo/bar1.io".into(),
                "foo/baz.io".into(),
            ],
            std::path::Path::new("foo/bar.cpp"),
        ),
    );
}

use io_watch::matching::{begins_with, pick_source};
use std::path::{Path, PathBuf};

fn stems(names: &[&str]) -> Vec<Option<String>> {
    names.iter().map(|n| Some(n.to_string())).collect()
}

#[test]
fn a_name_belongs_to_the_only_stem_that_begins_so() {
    assert_eq!(Some(2), pick_source(&stems(&["ab", "bc", "cd", "de"]), "cd2"));
    assert_eq!(Some(0), pick_source(&stems(&["cat", "dog"]), "cow"));
    assert_eq!(Some(1), pick_source(&stems(&["ab", "ac"]), "ac"));
    assert_eq!(None, pick_source(&stems(&["abc", "abd"]), "ab"));
    assert_eq!(None, pick_source(&stems(&["abc", "abd"]), "x"));
    assert_eq!(None, pick_source(&stems(&["abc", "abd"]), ""));
    assert_eq!(None, pick_source(&stems(&[]), "a"));
}

#[test]
fn a_stem_that_is_no_text_is_passed_over() {
    assert_eq!(Some(1), pick_source(&vec![None, Some("a".to_string())], "a"));
    assert_eq!(None, pick_source(&vec![None, None], "a"));
}

#[test]
fn names_are_compared_up_to_the_first_character_beyond_ascii() {
    assert_eq!(Some(0), pick_source(&stems(&["aé1", "b"]), "aé1"));
    assert_eq!(None, pick_source(&stems(&["aé1", "aé2"]), "aé1"));
    assert_eq!(None, pick_source(&stems(&["é"]), "é"));
}

#[test]
fn a_case_named_after_a_source_belongs_to_it() {
    assert_eq!(
        Some(PathBuf::from("a/sum.cpp")),
        filter_source_file(
            vec!["a/max.cxx".into(), "a/sum.cpp".into(), "a/sub.c++".into()],
            Path::new("a/sum-3.io"),
        ),
    );
}

#[test]
fn paths_without_a_file_name_belong_nowhere() {
    assert_eq!(None, filter_source_file(vec!["a.cpp".into()], Path::new("a/..")));
    assert_eq!(None, filter_source_file(vec!["..".into()], Path::new("a.io")));
    let none: Vec<PathBuf> = Vec::new();
    assert_eq!(none, filter_test_cases(vec!["a.io".into()], Path::new("/")));
    assert_eq!(none, filter_test_cases(vec!["..".into()], Path::new("a.cpp")));
}

#[test]
fn a_dot_in_front_is_part_of_the_stem() {
    assert_eq!(
        vec![PathBuf::from(".a.io")],
        filter_test_cases(vec![".a.io".into(), "a.io".into(), ".b.io".into()], Path::new(".a")),
    );
    assert_eq!(
        vec![PathBuf::from("a.b.io")],
        filter_test_cases(vec!["a.b.io".into(), "a.io".into()], Path::new("a.b.cpp")),
    );
}

#[test]
fn stems_begin_with_prefixes() {
    assert!(begins_with(&Some("bar0".to_string()), "bar"));
    assert!(begins_with(&Some("bar".to_string()), "bar"));
    assert!(begins_with(&Some("bar".to_string()), ""));
    assert!(!begins_with(&Some("ba".to_string()), "bar"));
    assert!(!begins_with(&Some("baz".to_string()), "bar"));
    assert!(!begins_with(&None, ""));
}

#[test]
fn the_cases_of_a_source_are_traced_back_to_it() {
    let sources: Vec<PathBuf> = vec!["d/a.cpp".into(), "d/b.cpp".into(), "d/cd.cpp".into()];
    let cases: Vec<PathBuf> =
        vec!["d/a1.io".into(), "d/b.io".into(), "d/cde.io".into(), "d/ab.io".into()];
    for source in &sources {
        for case in filter_test_cases(cases.clone(), source) {
            assert_eq!(Some(source.clone()), filter_source_file(sources.clone(), &case));
        }
    }
    assert_eq!(
        vec![PathBuf::from("d/a1.io"), "d/ab.io".into()],
        filter_test_cases(cases, &sources[0]),
    );
    assert_eq!(
        None,
        filter_source_file(vec!["d/a.cpp".into(), "d/ab.cpp".into()], Path::new("d/a.io")),
    );
}
