use std::path::Path;
use wts::paths::{path_file_name, path_is_absolute, path_join, path_parent, strip_prefix, strip_suffix};
use wts::steps::decimal_string;

const SAMPLES: [&str; 16] = [
    "/", "", ".", "..", "a", "/a", "/a/", "a/b", "/a/b/c", "/a//b", "a/./b", "/a/b/.",
    "/a/b/..", "./a", "//", "a/b//",
];

fn std_parent(p: &str) -> Option<String> {
    Path::new(p).parent().map(|q| q.to_str().unwrap().to_string())
}

fn std_file_name(p: &str) -> Option<String> {
    Path::new(p).file_name().map(|q| q.to_str().unwrap().to_string())
}

#[test]
fn parent_agrees_with_std_path() {
    for p in SAMPLES {
        assert_eq!(path_parent(p), std_parent(p), "parent of {p:?}");
    }
}

#[test]
fn file_name_agrees_with_std_path() {
    for p in SAMPLES {
        assert_eq!(path_file_name(p), std_file_name(p), "file name of {p:?}");
    }
}

#[test]
fn join_agrees_with_std_path() {
    for b in SAMPLES {
        for r in ["x", "x/y", "/abs", "", "..", "a-wts"] {
            let ours = path_join(b, r);
            let theirs = Path::new(b).join(r);
            assert_eq!(ours, theirs.to_str().unwrap(), "join {b:?} {r:?}");
        }
    }
}

#[test]
fn is_absolute_agrees_with_std_path() {
    for p in SAMPLES {
        assert_eq!(path_is_absolute(p), Path::new(p).is_absolute(), "{p:?}");
    }
}

#[test]
fn join_then_split_gives_back_the_parts() {
    let j = path_join("/home/me/dev", "sail-wts");
    assert_eq!(j, "/home/me/dev/sail-wts");
    assert_eq!(path_parent(&j), Some("/home/me/dev".to_string()));
    assert_eq!(path_file_name(&j), Some("sail-wts".to_string()));
}

#[test]
fn affixes_and_concat() {
    assert_eq!(strip_suffix("repo-wts", "-wts"), Some("repo".to_string()));
    assert_eq!(strip_suffix("repo", "-wts"), None);
    assert_eq!(strip_prefix("~/bin/x", "~/"), Some("bin/x".to_string()));
    assert_eq!(strip_prefix("/bin/x", "~/"), None);
}

#[test]
fn decimal_string_writes_digits() {
    assert_eq!(decimal_string(0), "0");
    assert_eq!(decimal_string(7), "7");
    assert_eq!(decimal_string(1203), "1203");
    assert_eq!(decimal_string(usize::MAX), usize::MAX.to_string());
}
