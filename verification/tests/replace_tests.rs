use git_init::replace::{replace_all, apply_replacements, replace_placeholders, Replacement, Substitution};

fn rep(token: &str, value: &str) -> Replacement {
    Replacement { token: token.to_string(), value: value.to_string() }
}

#[test]
fn replaces_all_three_tokens() {
    let reps = vec![
        rep("{{PROJECT_NAME}}", "Repo Template"),
        rep("{{REPO_NAME}}", "repo-template"),
        rep("{{YEAR}}", "2024"),
    ];
    let out = apply_replacements("{{PROJECT_NAME}} ({{REPO_NAME}}), {{YEAR}}", &reps);
    assert_eq!(out, "Repo Template (repo-template), 2024");
}

#[test]
fn replaces_every_occurrence() {
    let reps = vec![rep("{{YEAR}}", "2024")];
    let out = apply_replacements("{{YEAR}}-{{YEAR}} and {{YEAR}}", &reps);
    assert_eq!(out, "2024-2024 and 2024");
}

#[test]
fn text_without_tokens_is_unchanged() {
    let reps = vec![rep("{{REPO_NAME}}", "x"), rep("{{PROJECT_NAME}}", "X"), rep("{{YEAR}}", "1")];
    let text = "# Title\n\nNo placeholders here, only {{ braces }} and {REPO_NAME}.\n";
    assert_eq!(apply_replacements(text, &reps), text);
    assert_eq!(apply_replacements("", &reps), "");
}

#[test]
fn no_replacements_leave_the_text() {
    assert_eq!(apply_replacements("{{YEAR}}", &Vec::new()), "{{YEAR}}");
}

#[test]
fn later_replacements_see_earlier_results() {
    let reps = vec![rep("a", "b"), rep("b", "c")];
    assert_eq!(apply_replacements("ab", &reps), "cc");
    let reps = vec![rep("{{A}}", "{{B}}"), rep("{{B}}", "done")];
    assert_eq!(apply_replacements("{{A}} {{B}}", &reps), "done done");
}

#[test]
fn what_was_put_in_is_not_searched_again() {
    assert_eq!(replace_all("aa", "a", "aa"), "aaaa");
    assert_eq!(replace_all("{{{{YEAR}}YEAR}}", "{{YEAR}}", ""), "{{YEAR}}");
}

#[test]
fn matches_do_not_overlap() {
    assert_eq!(replace_all("aaa", "aa", "b"), "ba");
    assert_eq!(replace_all("aaaa", "aa", "b"), "bb");
    assert_eq!(replace_all("abab", "aba", "x"), "xb");
}

#[test]
fn empty_token_goes_between_all_characters() {
    assert_eq!(replace_all("abc", "", "-"), "-a-b-c-");
    assert_eq!(replace_all("", "", "-"), "-");
}

#[test]
fn replace_all_agrees_with_std() {
    let texts = ["", "a", "hello world", "{{X}}{{X}}", "aaaaa", "abcabcabc", "\u{e9}t\u{e9} \u{5c71}", "xx{{YEAR}"];
    let froms = ["", "a", "aa", "abc", "{{X}}", "{{YEAR}}", "\u{e9}", "o w", "zzz"];
    let tos = ["", "a", "Z", "{{X}}", "long replacement"];
    for text in texts {
        for from in froms {
            for to in tos {
                assert_eq!(replace_all(text, from, to), text.replace(from, to), "{:?} {:?} {:?}", text, from, to);
            }
        }
    }
}

#[test]
fn missing_file_is_only_warned_of() {
    let reps = vec![rep("{{YEAR}}", "2024")];
    let out = replace_placeholders("LICENSE", None, &reps);
    assert_eq!(out, Substitution::Skipped { warning: "file not found: LICENSE".to_string() });
}

#[test]
fn present_file_is_rewritten() {
    let reps = vec![rep("{{YEAR}}", "2024")];
    let out = replace_placeholders("LICENSE", Some("Copyright {{YEAR}}"), &reps);
    assert_eq!(out, Substitution::Rewritten { contents: "Copyright 2024".to_string() });
    let out = replace_placeholders("LICENSE", Some(""), &reps);
    assert_eq!(out, Substitution::Rewritten { contents: String::new() });
}

#[test]
fn no_listed_token_is_left_in_a_template() {
    let reps = vec![
        rep("{{REPO_NAME}}", "my-cool-app"),
        rep("{{PROJECT_NAME}}", "My Cool App"),
        rep("{{YEAR}}", "2024}"),
        rep("{{}}", "empty name"),
    ];
    let text = "# {{PROJECT_NAME}}\n{{REPO_NAME}}{{REPO_NAME}} }} {{OTHER}} {{}} (c) {{YEAR}}}";
    let out = apply_replacements(text, &reps);
    assert_eq!(out, "# My Cool App\nmy-cool-appmy-cool-app }} {{OTHER}} empty name (c) 2024}}");
    for r in &reps {
        assert!(!out.contains(&r.token));
    }
}

#[test]
fn the_first_listing_of_a_token_wins() {
    let reps = vec![rep("{{A}}", "one"), rep("{{B}}", "two"), rep("{{A}}", "three")];
    assert_eq!(apply_replacements("{{A}}{{B}}{{A}}", &reps), "onetwoone");
}
