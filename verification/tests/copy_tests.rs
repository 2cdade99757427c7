use git_init::copy::{copy_action, copy_template_into, CopyAction, Entry};

fn entry(name: &str, is_dir: bool) -> Entry {
    Entry { name: name.to_string(), is_dir }
}

fn tree(from: &str, to: &str) -> CopyAction {
    CopyAction::Tree { from: from.to_string(), to: to.to_string() }
}

fn file(from: &str, to: &str) -> CopyAction {
    CopyAction::File { from: from.to_string(), to: to.to_string() }
}

#[test]
fn metadata_directory_is_left_out() {
    let entries = vec![entry(".git", true), entry("README.md", false), entry("src", true)];
    let plan = copy_template_into("target", "/tmp/x_template_clone", &entries);
    assert_eq!(
        plan,
        vec![
            file("/tmp/x_template_clone/README.md", "target/README.md"),
            tree("/tmp/x_template_clone/src", "target/src"),
        ]
    );
}

#[test]
fn metadata_entry_is_left_out_even_as_a_file() {
    let entries = vec![entry("a", false), entry(".git", false), entry("b", false)];
    let plan = copy_template_into(".", "/s", &entries);
    assert_eq!(plan, vec![file("/s/a", "./a"), file("/s/b", "./b")]);
}

#[test]
fn only_the_exact_name_is_metadata() {
    let entries = vec![
        entry(".gitignore", false),
        entry(".github", true),
        entry("git", true),
        entry(".GIT", true),
        entry(".git ", false),
    ];
    let plan = copy_template_into("t", "s", &entries);
    assert_eq!(
        plan,
        vec![
            file("s/.gitignore", "t/.gitignore"),
            tree("s/.github", "t/.github"),
            tree("s/git", "t/git"),
            tree("s/.GIT", "t/.GIT"),
            file("s/.git ", "t/.git "),
        ]
    );
}

#[test]
fn empty_directory_gives_an_empty_plan() {
    assert_eq!(copy_template_into("t", "s", &Vec::new()), Vec::new());
    assert_eq!(copy_template_into("t", "s", &vec![entry(".git", true)]), Vec::new());
}

#[test]
fn no_copy_ever_starts_at_the_metadata() {
    let names = [".git", "a", ".git", "b", ".gitmodules", ".git"];
    let entries: Vec<Entry> = names.iter().enumerate().map(|(i, n)| entry(n, i % 2 == 0)).collect();
    let plan = copy_template_into("/target", "/scratch", &entries);
    assert_eq!(plan.len(), 3);
    for action in &plan {
        let (from, to) = match action {
            CopyAction::Tree { from, to } => (from, to),
            CopyAction::File { from, to } => (from, to),
        };
        assert_ne!(from, "/scratch/.git");
        assert_ne!(to, "/target/.git");
    }
}

#[test]
fn one_entry_at_a_time() {
    assert_eq!(copy_action("t", "s", &entry(".git", true)), None);
    assert_eq!(copy_action("t", "s", &entry("docs", true)), Some(tree("s/docs", "t/docs")));
    assert_eq!(copy_action("t/", "s/", &entry("LICENSE", false)), Some(file("s/LICENSE", "t/LICENSE")));
}

#[test]
fn plain_names_never_reach_the_metadata_of_either_side() {
    let names = ["a", ".gi", ".git.", "git", "", ".git", "x.git"];
    for target in ["", "/", "/t", "/t/", "t"] {
        for source in ["/s", "/s/", "s"] {
            let entries: Vec<Entry> = names.iter().map(|n| entry(n, false)).collect();
            let plan = copy_template_into(target, source, &entries);
            assert_eq!(plan.len(), names.len() - 1);
            let from_git = std::path::Path::new(source).join(".git");
            let to_git = std::path::Path::new(target).join(".git");
            for action in &plan {
                let (from, to) = match action {
                    CopyAction::Tree { from, to } => (from, to),
                    CopyAction::File { from, to } => (from, to),
                };
                assert_ne!(std::path::Path::new(from), from_git);
                assert_ne!(std::path::Path::new(to), to_git);
            }
        }
    }
}

#[test]
fn a_name_with_a_separator_is_joined_as_a_path() {
    let entries = vec![entry("sub/file", false), entry("/abs", true)];
    let plan = copy_template_into("/t", "/s", &entries);
    assert_eq!(plan, vec![file("/s/sub/file", "/t/sub/file"), tree("/abs", "/abs")]);
}
