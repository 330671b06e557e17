use libra_core::error::RepoError;
use libra_core::pathspec::{
    expand_pathspec, filter_to_fit_paths, integrate_pathspec, list_dir_files, list_files,
    list_workdir_files, DirEntry, FsNode, PathSpec,
};
use libra_core::repo::RepoContext;

fn strings(items: &[&str]) -> Vec<String> {
    items.iter().map(|s| s.to_string()).collect()
}

fn file(name: &str) -> DirEntry {
    DirEntry { name: name.to_string(), node: FsNode::File }
}

fn dir(name: &str, entries: Vec<DirEntry>) -> DirEntry {
    DirEntry { name: name.to_string(), node: FsNode::Dir(entries) }
}

fn context() -> RepoContext {
    RepoContext { cwd: "/root".to_string(), storage: "/root/.libra".to_string() }
}

fn dir_a() -> Vec<DirEntry> {
    vec![
        file("x.txt"),
        dir("sub", vec![file("y.txt")]),
        dir(".libra", vec![file("libra.db"), dir("objects", vec![file("ab")])]),
    ]
}

#[test]
fn integrate_expands_a_directory() {
    let ctx = context();
    let inputs = vec![PathSpec::Directory { path: "dirA".to_string(), entries: dir_a() }];
    assert_eq!(integrate_pathspec(&ctx, &inputs), Ok(strings(&["dirA/x.txt", "dirA/sub/y.txt"])));
}

#[test]
fn integrate_deduplicates() {
    let ctx = context();
    let inputs = vec![
        PathSpec::LiteralPath { path: "dirA/sub/y.txt".to_string() },
        PathSpec::Directory { path: "/root/dirA".to_string(), entries: dir_a() },
        PathSpec::LiteralPath { path: "./dirA/x.txt".to_string() },
        PathSpec::LiteralPath { path: "missing.txt".to_string() },
        PathSpec::LiteralPath { path: "missing.txt".to_string() },
    ];
    assert_eq!(
        integrate_pathspec(&ctx, &inputs),
        Ok(strings(&["dirA/sub/y.txt", "dirA/x.txt", "missing.txt"]))
    );
    assert_eq!(integrate_pathspec(&ctx, &Vec::new()), Ok(Vec::new()));
}

#[test]
fn integrate_fails_on_a_path_that_cannot_be_converted() {
    let ctx = context();
    let inputs = vec![
        PathSpec::LiteralPath { path: "ok.txt".to_string() },
        PathSpec::LiteralPath { path: "/../bad".to_string() },
    ];
    assert_eq!(integrate_pathspec(&ctx, &inputs), Err(RepoError::PathConversion));
}

#[test]
fn expansion_of_one_argument() {
    let ctx = context();
    assert_eq!(
        expand_pathspec(&ctx, &PathSpec::LiteralPath { path: "/root/a/../b".to_string() }),
        Ok(strings(&["b"]))
    );
    assert_eq!(
        expand_pathspec(&ctx, &PathSpec::Directory { path: "d".to_string(), entries: Vec::new() }),
        Ok(Vec::new())
    );
}

#[test]
fn control_directory_lists_nothing() {
    let ctx = context();
    let inside = vec![file("libra.db"), dir("objects", vec![file("ab")])];
    assert_eq!(list_dir_files(&ctx, "/root/.libra", &inside), Ok(Vec::new()));
    assert_eq!(list_dir_files(&ctx, ".libra/", &inside), Ok(Vec::new()));
    assert_eq!(list_files(&ctx, "/root/.libra", &FsNode::Dir(inside)), Ok(Vec::new()));
}

#[test]
fn listing_walks_depth_first() {
    let ctx = context();
    let tree = vec![
        dir("a", vec![file("1"), dir("b", vec![file("2"), file("3")]), file("4")]),
        file("5"),
        dir("empty", Vec::new()),
    ];
    assert_eq!(
        list_workdir_files(&ctx, &tree),
        Ok(strings(&["a/1", "a/b/2", "a/b/3", "a/4", "5"]))
    );
    assert_eq!(
        list_files(&ctx, "/root/top", &FsNode::Dir(vec![file("f")])),
        Ok(strings(&["top/f"]))
    );
}

#[test]
fn listing_what_is_no_directory_gives_nothing() {
    let ctx = context();
    assert_eq!(list_files(&ctx, "/root/file.txt", &FsNode::File), Ok(Vec::new()));
}

#[test]
fn listing_fails_on_a_path_that_cannot_be_converted() {
    let ctx = context();
    assert_eq!(list_dir_files(&ctx, "/..", &vec![file("f")]), Err(RepoError::PathConversion));
    let nested = vec![file("ok"), dir("d", vec![file("..")]), file("later")];
    assert_eq!(list_dir_files(&ctx, "/", &nested), Ok(strings(&["../ok", "..", "../later"])));
    let broken = vec![file("ok"), dir("..", vec![dir("..", vec![file("f")])])];
    assert_eq!(list_dir_files(&ctx, "/x", &broken), Err(RepoError::PathConversion));
}

#[test]
fn filter_keeps_paths_in_the_subtrees() {
    let ctx = context();
    let paths = strings(&["src/main.rs", "src/lib/a.rs", "docs/readme.md", "srcx/b.rs", "src"]);
    let fit = strings(&["src", "/root/docs/readme.md"]);
    assert_eq!(
        filter_to_fit_paths(&ctx, &paths, &fit),
        Ok(strings(&["src/main.rs", "src/lib/a.rs", "docs/readme.md", "src"]))
    );
    assert_eq!(filter_to_fit_paths(&ctx, &paths, &Vec::new()), Ok(Vec::new()));
    assert_eq!(filter_to_fit_paths(&ctx, &Vec::new(), &fit), Ok(Vec::new()));
}

#[test]
fn filter_takes_subtrees_relative_to_the_current_directory() {
    let ctx = RepoContext { cwd: "/root/src".to_string(), storage: "/root/.libra".to_string() };
    let paths = strings(&["src/main.rs", "src/lib/a.rs", "docs/readme.md"]);
    assert_eq!(
        filter_to_fit_paths(&ctx, &paths, &strings(&["lib"])),
        Ok(strings(&["src/lib/a.rs"]))
    );
    assert_eq!(filter_to_fit_paths(&ctx, &paths, &strings(&["."])), Ok(strings(&["src/main.rs", "src/lib/a.rs"])));
    assert_eq!(filter_to_fit_paths(&ctx, &paths, &strings(&[".."])), Ok(paths.clone()));
}

#[test]
fn filter_fails_on_a_path_that_cannot_be_converted() {
    let ctx = context();
    let paths = strings(&["a", "../../b"]);
    assert_eq!(filter_to_fit_paths(&ctx, &paths, &strings(&["a"])), Err(RepoError::PathConversion));
    assert_eq!(
        filter_to_fit_paths(&ctx, &strings(&["a"]), &strings(&["/../x"])),
        Err(RepoError::PathConversion)
    );
}
