use libra_core::error::RepoError;
use libra_core::path::{
    absolute, file_name, is_cur_dir, is_sub_of_paths, is_sub_path, join, nested, parent,
    path_is_absolute, path_to_string, to_relative,
};
use std::path::PathBuf;

const CWD: &str = "/work/project";

fn strings(items: &[&str]) -> Vec<String> {
    items.iter().map(|s| s.to_string()).collect()
}

#[test]
fn test_is_sub_path() {
    assert!(is_sub_path(CWD, "src/main.rs", "src").unwrap());
    assert!(is_sub_path(CWD, "src/main.rs", "src/").unwrap());
    assert!(is_sub_path(CWD, "src/main.rs", "src/main.rs").unwrap());
}

#[test]
fn sub_path_goes_by_whole_components() {
    assert_eq!(is_sub_path(CWD, "src_old/main.rs", "src"), Ok(false));
    assert_eq!(is_sub_path(CWD, "src", "src/main.rs"), Ok(false));
    assert_eq!(is_sub_path(CWD, "/work/project/a/b", "a"), Ok(true));
    assert_eq!(is_sub_path(CWD, "a/../b/c", "b"), Ok(true));
    assert_eq!(is_sub_path(CWD, "./a/./b", "/work/project/a/"), Ok(true));
    assert_eq!(is_sub_path(CWD, "/other/a", "a"), Ok(false));
    assert_eq!(is_sub_path(CWD, "anything", "/"), Ok(true));
}

#[test]
fn sub_path_fails_where_a_path_has_no_absolute_form() {
    assert_eq!(is_sub_path(CWD, "/../x", "src"), Err(RepoError::PathConversion));
    assert_eq!(is_sub_path(CWD, "src", "../../../x"), Err(RepoError::PathConversion));
    assert_eq!(is_sub_path("relative/cwd", "src", "src"), Err(RepoError::PathConversion));
}

#[test]
fn absolute_normalises() {
    assert_eq!(absolute(CWD, "src/main.rs"), Ok("/work/project/src/main.rs".to_string()));
    assert_eq!(absolute(CWD, "b/../c/./d/"), Ok("/work/project/c/d".to_string()));
    assert_eq!(absolute(CWD, "/x//y/../z"), Ok("/x/z".to_string()));
    assert_eq!(absolute(CWD, ""), Ok("/work/project".to_string()));
    assert_eq!(absolute(CWD, "../.."), Ok("/".to_string()));
    assert_eq!(absolute(CWD, "../../.."), Err(RepoError::PathConversion));
    assert_eq!(absolute("", "x"), Err(RepoError::PathConversion));
    assert_eq!(absolute("", "/x"), Ok("/x".to_string()));
}

#[test]
fn relative_paths_between_directories() {
    assert_eq!(to_relative(CWD, "/foo/bar/baz", "/foo/bar"), Ok("baz".to_string()));
    assert_eq!(to_relative(CWD, "/foo/bar/quux", "/foo/bar/baz"), Ok("../quux".to_string()));
    assert_eq!(to_relative(CWD, "/foo/bar", "/foo/bar/baz"), Ok("..".to_string()));
    assert_eq!(to_relative(CWD, "/foo/bar", "/foo/bar"), Ok("".to_string()));
    assert_eq!(to_relative(CWD, "src/main.rs", "/work"), Ok("project/src/main.rs".to_string()));
    assert_eq!(to_relative(CWD, "src/main.rs", "."), Ok("src/main.rs".to_string()));
    assert_eq!(to_relative(CWD, "/a", "docs"), Ok("../../../a".to_string()));
}

#[test]
fn relative_path_fails_loudly() {
    assert_eq!(to_relative(CWD, "/../a", "/b"), Err(RepoError::PathConversion));
    assert_eq!(to_relative(CWD, "/a", "/../b"), Err(RepoError::PathConversion));
    assert_eq!(to_relative("not/absolute", "a", "/b"), Err(RepoError::PathConversion));
}

#[test]
fn sub_of_paths_asks_each_in_turn() {
    let dirs = strings(&["docs", "src/", "/other"]);
    assert_eq!(is_sub_of_paths(CWD, "src/main.rs", &dirs), Ok(true));
    assert_eq!(is_sub_of_paths(CWD, "/other", &dirs), Ok(true));
    assert_eq!(is_sub_of_paths(CWD, "tests/a.rs", &dirs), Ok(false));
    assert_eq!(is_sub_of_paths(CWD, "tests/a.rs", &Vec::new()), Ok(false));
    assert_eq!(is_sub_of_paths(CWD, "/../a", &Vec::new()), Ok(false));
    assert_eq!(is_sub_of_paths(CWD, "/../a", &dirs), Err(RepoError::PathConversion));
    let broken_late = strings(&["src", "/../x"]);
    assert_eq!(is_sub_of_paths(CWD, "src/main.rs", &broken_late), Ok(true));
    assert_eq!(is_sub_of_paths(CWD, "docs/a", &broken_late), Err(RepoError::PathConversion));
}

#[test]
fn current_directory_is_recognised() {
    assert_eq!(is_cur_dir(CWD, "."), Ok(true));
    assert_eq!(is_cur_dir(CWD, "/work/project/"), Ok(true));
    assert_eq!(is_cur_dir(CWD, "src/.."), Ok(true));
    assert_eq!(is_cur_dir(CWD, "src"), Ok(false));
    assert_eq!(is_cur_dir(CWD, "/../x"), Err(RepoError::PathConversion));
}

#[test]
fn join_puts_one_separator() {
    assert_eq!(join("/a", "b"), "/a/b");
    assert_eq!(join("/a/", "b"), "/a/b");
    assert_eq!(join("/a", "/b"), "/b");
    assert_eq!(join("", "b"), "b");
    assert_eq!(join("/", ".libra"), "/.libra");
    assert_eq!(join("/a", ""), "/a/");
    assert_eq!(join("a", "b/c"), "a/b/c");
}

#[test]
fn parent_drops_the_last_component() {
    assert_eq!(parent("/a/b"), Some("/a".to_string()));
    assert_eq!(parent("/a/b/"), Some("/a".to_string()));
    assert_eq!(parent("/a//b"), Some("/a".to_string()));
    assert_eq!(parent("/a"), Some("/".to_string()));
    assert_eq!(parent("a/b"), Some("a".to_string()));
    assert_eq!(parent("a"), Some("".to_string()));
    assert_eq!(parent("/"), None);
    assert_eq!(parent("//"), None);
    assert_eq!(parent(""), None);
    assert_eq!(parent("/répertoire/fichier"), Some("/répertoire".to_string()));
}

#[test]
fn file_name_is_the_last_component() {
    assert_eq!(file_name("/a/b.txt"), "b.txt");
    assert_eq!(file_name("/a/.libra/"), ".libra");
    assert_eq!(file_name("plain"), "plain");
    assert_eq!(file_name("/"), "");
    assert_eq!(file_name(""), "");
    assert_eq!(file_name("/données/é"), "é");
}

#[test]
fn nested_is_inclusive_and_by_components() {
    assert!(nested("/a/b", "/a/b"));
    assert!(nested("/a/b/c", "/a/b"));
    assert!(nested("/a/b/c", "/a/b/"));
    assert!(nested("/a", "/"));
    assert!(nested("/", "/"));
    assert!(!nested("/a/bc", "/a/b"));
    assert!(!nested("/a", "/a/b"));
    assert!(!nested("/x/b", "/a/b"));
    assert!(nested("a", ""));
}

#[test]
fn absolute_paths_start_at_the_root() {
    assert!(path_is_absolute("/"));
    assert!(path_is_absolute("/a"));
    assert!(!path_is_absolute("a/b"));
    assert!(!path_is_absolute(""));
}

#[test]
fn host_paths_become_text() {
    assert_eq!(path_to_string(&PathBuf::from("/a/b c/d.txt")), "/a/b c/d.txt");
    assert_eq!(path_to_string(&PathBuf::from("")), "");
}
