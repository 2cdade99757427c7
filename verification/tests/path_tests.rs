use git_init::error::InitError;
use git_init::naming::{get_repo_name, is_current_dir, year_text};
use git_init::path::{final_component, join_path};
use git_init::text::{chars_of, text_of};
use std::path::Path;

#[test]
fn final_component_of_plain_paths() {
    assert_eq!(final_component("/home/u/my-cool-app"), Some("my-cool-app".to_string()));
    assert_eq!(final_component("my-cool-app"), Some("my-cool-app".to_string()));
    assert_eq!(final_component("a/b"), Some("b".to_string()));
}

#[test]
fn final_component_skips_trailing_separators_and_dots() {
    assert_eq!(final_component("a/b/"), Some("b".to_string()));
    assert_eq!(final_component("a/b//"), Some("b".to_string()));
    assert_eq!(final_component("a/b/."), Some("b".to_string()));
    assert_eq!(final_component("a/./"), Some("a".to_string()));
    assert_eq!(final_component("./a"), Some("a".to_string()));
}

#[test]
fn final_component_is_missing() {
    assert_eq!(final_component("/"), None);
    assert_eq!(final_component(""), None);
    assert_eq!(final_component("."), None);
    assert_eq!(final_component("./"), None);
    assert_eq!(final_component(".."), None);
    assert_eq!(final_component("a/.."), None);
    assert_eq!(final_component("a/../."), None);
    assert_eq!(final_component("//"), None);
}

#[test]
fn final_component_keeps_dotted_names() {
    assert_eq!(final_component("..."), Some("...".to_string()));
    assert_eq!(final_component("a/.git"), Some(".git".to_string()));
    assert_eq!(final_component("a/b.c"), Some("b.c".to_string()));
}

#[test]
fn final_component_agrees_with_std() {
    let paths = [
        "", ".", "..", "/", "//", "a", "a/", "a//", "/a", "/a/b", "a/b/c", "a/.", "a/..", "./a",
        "../a", "a/./b", "a/../b", "a/b/./.", "/.", "/..", "...", "a b/c d", "\u{e9}/\u{5c71}",
        ".hidden", "a/.hidden/", "./.", "././a/./",
    ];
    for p in paths {
        let want = Path::new(p).file_name().and_then(|s| s.to_str()).map(|s| s.to_string());
        assert_eq!(final_component(p), want, "for {:?}", p);
    }
}

#[test]
fn join_path_agrees_with_std() {
    let bases = ["", "/", "/tmp", "/tmp/", "a", "a/b", "a/b/", "."];
    let names = ["x", ".git", "x/y", "/abs", "README.md", ""];
    for b in bases {
        for n in names {
            let want = Path::new(b).join(n);
            assert_eq!(join_path(b, n), want.to_str().unwrap(), "{:?} {:?}", b, n);
        }
    }
}

#[test]
fn join_path_examples() {
    assert_eq!(join_path("/tmp", "x_template_clone"), "/tmp/x_template_clone");
    assert_eq!(join_path("/tmp/", "x"), "/tmp/x");
    assert_eq!(join_path("", ".git"), ".git");
    assert_eq!(join_path("/", ".git"), "/.git");
    assert_eq!(join_path("a", "/b"), "/b");
}

#[test]
fn repo_name_of_a_given_directory() {
    assert_eq!(get_repo_name("my-cool-app", None), Ok("my-cool-app".to_string()));
    assert_eq!(get_repo_name("/srv/x/repo-template/", Some("/elsewhere")), Ok("repo-template".to_string()));
}

#[test]
fn repo_name_of_the_current_directory() {
    assert_eq!(get_repo_name(".", Some("/home/u/my-cool-app")), Ok("my-cool-app".to_string()));
}

#[test]
fn repo_name_fails_without_a_final_component() {
    assert_eq!(get_repo_name("/", Some("/home/u")), Err(InitError::InvalidDir));
    assert_eq!(get_repo_name("..", Some("/home/u")), Err(InitError::InvalidDir));
    assert_eq!(get_repo_name("", Some("/home/u")), Err(InitError::InvalidDir));
    assert_eq!(get_repo_name(".", Some("/")), Err(InitError::InvalidDir));
    assert_eq!(get_repo_name(".", None), Err(InitError::InvalidDir));
}

#[test]
fn every_spelling_of_the_current_directory_is_resolved() {
    for dir in [".", "./", "./.", ".//", "././", ".//.//."] {
        assert_eq!(get_repo_name(dir, Some("/home/u/my-cool-app")), Ok("my-cool-app".to_string()), "{:?}", dir);
        assert_eq!(get_repo_name(dir, Some("/")), Err(InitError::InvalidDir), "{:?}", dir);
        assert_eq!(get_repo_name(dir, None), Err(InitError::InvalidDir), "{:?}", dir);
    }
}

#[test]
fn other_arguments_do_not_read_the_current_directory() {
    assert_eq!(get_repo_name("./x", Some("/home/u/app")), Ok("x".to_string()));
    assert_eq!(get_repo_name("x/.", Some("/home/u/app")), Ok("x".to_string()));
    assert_eq!(get_repo_name("/.", Some("/home/u/app")), Err(InitError::InvalidDir));
    assert_eq!(get_repo_name("", Some("/home/u/app")), Err(InitError::InvalidDir));
    assert_eq!(get_repo_name("./..", Some("/home/u/app")), Err(InitError::InvalidDir));
    assert_eq!(get_repo_name("...", Some("/home/u/app")), Ok("...".to_string()));
}

#[test]
fn spellings_of_the_current_directory() {
    for dir in [".", "./", "./.", ".//", "././"] {
        assert!(is_current_dir(dir), "{:?}", dir);
    }
    for dir in ["", "/", "/.", "..", "./..", "./x", "x/.", "...", ". ", "x"] {
        assert!(!is_current_dir(dir), "{:?}", dir);
    }
}

#[test]
fn repo_name_is_the_same_on_every_call() {
    for (dir, cwd) in [(".", Some("/w/my-cool-app")), ("a/b", None), ("/", None), ("x/..", Some("/w"))] {
        let first = get_repo_name(dir, cwd);
        let second = get_repo_name(dir, cwd);
        assert_eq!(first, second);
    }
}

#[test]
fn repo_name_names_itself() {
    for (dir, cwd) in [(".", Some("/w/my-cool-app")), ("a/b/", None), ("/srv/x.y", Some("/"))] {
        let name = get_repo_name(dir, cwd).unwrap();
        assert_eq!(get_repo_name(&name, None), Ok(name.clone()));
        assert_eq!(get_repo_name(&name, Some("/other/place")), Ok(name));
    }
}

#[test]
fn year_text_examples() {
    assert_eq!(year_text(2024), "2024");
    assert_eq!(year_text(1999), "1999");
    assert_eq!(year_text(0), "0");
    assert_eq!(year_text(7), "7");
    assert_eq!(year_text(10), "10");
    assert_eq!(year_text(-5), "-5");
    assert_eq!(year_text(i32::MAX), "2147483647");
    assert_eq!(year_text(i32::MIN), "-2147483648");
}

#[test]
fn year_text_agrees_with_std() {
    for y in [-262144, -1000, -10, -9, -1, 0, 1, 9, 10, 99, 100, 101, 1970, 2038, 9999, 10000, 262143] {
        assert_eq!(year_text(y), y.to_string());
    }
}

#[test]
fn characters_round_trip() {
    assert_eq!(chars_of("h\u{e9}!"), vec!['h', '\u{e9}', '!']);
    assert_eq!(chars_of(""), Vec::<char>::new());
    assert_eq!(text_of(&vec!['a', '\u{5c71}', 'b']), "a\u{5c71}b");
    assert_eq!(text_of(&chars_of("round trip")), "round trip");
}
