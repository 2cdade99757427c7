use git_init::precheck::{git_markers, is_inside_git_repo};
use std::cell::RefCell;

#[test]
fn markers_of_an_absolute_directory() {
    assert_eq!(git_markers("/home/u/app"), vec!["/home/u/app/.git", "/home/u/.git", "/home/.git", "/.git"]);
}

#[test]
fn markers_of_the_root() {
    assert_eq!(git_markers("/"), vec!["/.git"]);
}

#[test]
fn markers_of_a_relative_directory() {
    assert_eq!(git_markers("a/b"), vec!["a/b/.git", "a/.git", ".git"]);
    assert_eq!(git_markers(""), vec![".git"]);
}

#[test]
fn markers_ignore_repeated_and_trailing_separators() {
    assert_eq!(git_markers("/a//b/"), vec!["/a/b/.git", "/a/.git", "/.git"]);
}

#[test]
fn inside_when_the_directory_itself_is_versioned() {
    assert!(is_inside_git_repo(Some("/w/app"), |p: &str| p == "/w/app/.git"));
}

#[test]
fn inside_when_an_ancestor_is_versioned() {
    assert!(is_inside_git_repo(Some("/w/repo/sub/dir"), |p: &str| p == "/w/repo/.git"));
    assert!(is_inside_git_repo(Some("/w/repo/sub/dir"), |p: &str| p == "/.git"));
}

#[test]
fn outside_when_nothing_is_versioned() {
    assert!(!is_inside_git_repo(Some("/w/app"), |_p: &str| false));
    assert!(!is_inside_git_repo(Some("/"), |_p: &str| false));
}

#[test]
fn outside_when_only_other_trees_are_versioned() {
    let versioned = ["/w/other/.git", "/w/app/sub/.git", "/w/app.git", "/w/app/.github"];
    assert!(!is_inside_git_repo(Some("/w/app"), |p: &str| versioned.contains(&p)));
}

#[test]
fn outside_when_the_working_directory_is_unknown() {
    assert!(!is_inside_git_repo(None, |_p: &str| true));
}

#[test]
fn probes_go_upward_and_stop_at_the_first_hit() {
    let asked: RefCell<Vec<String>> = RefCell::new(Vec::new());
    let inside = is_inside_git_repo(Some("/a/b/c"), |p: &str| {
        asked.borrow_mut().push(p.to_string());
        p == "/a/.git"
    });
    assert!(inside);
    assert_eq!(*asked.borrow(), vec!["/a/b/c/.git", "/a/b/.git", "/a/.git"]);
}

#[test]
fn probes_reach_the_root_when_nothing_is_found() {
    let asked: RefCell<Vec<String>> = RefCell::new(Vec::new());
    let inside = is_inside_git_repo(Some("/a/b"), |p: &str| {
        asked.borrow_mut().push(p.to_string());
        false
    });
    assert!(!inside);
    assert_eq!(*asked.borrow(), vec!["/a/b/.git", "/a/.git", "/.git"]);
}
