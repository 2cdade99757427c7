use git_init::title::{classify, hyphen_to_title, title_from, Classified};

#[test]
fn title_of_two_words() {
    assert_eq!(hyphen_to_title("repo-template"), "Repo Template");
}

#[test]
fn title_drops_empty_words() {
    assert_eq!(hyphen_to_title("a--b"), "A B");
    assert_eq!(hyphen_to_title("-a-"), "A");
    assert_eq!(hyphen_to_title("--"), "");
    assert_eq!(hyphen_to_title(""), "");
}

#[test]
fn title_of_three_words() {
    assert_eq!(hyphen_to_title("my-cool-app"), "My Cool App");
}

#[test]
fn title_of_single_word() {
    assert_eq!(hyphen_to_title("app"), "App");
    assert_eq!(hyphen_to_title("a"), "A");
}

#[test]
fn title_splits_on_whitespace_too() {
    assert_eq!(hyphen_to_title("a b\tc\nd"), "A B C D");
    assert_eq!(hyphen_to_title("  lead-and trail  "), "Lead And Trail");
    assert_eq!(hyphen_to_title("x\u{a0}y\u{3000}z"), "X Y Z");
}

#[test]
fn title_keeps_the_rest_of_each_word() {
    assert_eq!(hyphen_to_title("hELLO-wORLD"), "HELLO WORLD");
    assert_eq!(hyphen_to_title("v2-api_server"), "V2 Api_server");
    assert_eq!(hyphen_to_title("Already-Upper"), "Already Upper");
}

#[test]
fn title_uses_the_full_uppercase_mapping() {
    assert_eq!(hyphen_to_title("\u{df}-x"), "SS X");
    assert_eq!(hyphen_to_title("\u{e9}t\u{e9}"), "\u{c9}t\u{e9}");
    assert_eq!(hyphen_to_title("\u{5c71}-\u{5c71}"), "\u{5c71} \u{5c71}");
}

#[test]
fn title_agrees_with_the_std_pipeline() {
    let names = [
        "repo-template",
        "a--b",
        "---",
        "x",
        " a - b ",
        "one two-three\tfour",
        "\u{df}eta-\u{1c6}",
        "tab\there",
        "vertical\u{b}tab",
        "zero\u{200b}width",
    ];
    for name in names {
        let want = name
            .replace('-', " ")
            .split_whitespace()
            .map(|w| {
                let mut c = w.chars();
                let first: String = c.next().map(|f| f.to_uppercase().collect()).unwrap_or_default();
                first + c.as_str()
            })
            .collect::<Vec<_>>()
            .join(" ");
        assert_eq!(hyphen_to_title(name), want, "for {:?}", name);
    }
}

#[test]
fn title_of_every_lowercase_letter() {
    for c in 'a'..='z' {
        let name = format!("{c}x-{c}");
        let up = c.to_ascii_uppercase();
        assert_eq!(hyphen_to_title(&name), format!("{up}x {up}"));
    }
}

fn letter(ch: char, whitespace: bool, upper: &str) -> Classified {
    Classified { ch, whitespace, upper: upper.chars().collect() }
}

#[test]
fn classify_asks_the_standard_library() {
    assert_eq!(classify('a'), letter('a', false, "A"));
    assert_eq!(classify('Z'), letter('Z', false, "Z"));
    assert_eq!(classify('2'), letter('2', false, "2"));
    assert_eq!(classify('-'), letter('-', false, "-"));
    assert_eq!(classify(' '), letter(' ', true, " "));
    assert_eq!(classify('\t'), letter('\t', true, "\t"));
    assert_eq!(classify('\u{a0}'), letter('\u{a0}', true, "\u{a0}"));
    assert_eq!(classify('\u{df}'), letter('\u{df}', false, "SS"));
}

#[test]
fn title_from_given_records() {
    let letters = vec![
        letter('m', false, "M"),
        letter('y', false, "Y"),
        letter('-', false, "-"),
        letter('a', false, "A"),
        letter('p', false, "P"),
        letter('p', false, "P"),
        letter('2', false, "2"),
    ];
    assert_eq!(title_from(&letters), "My App2");
    assert_eq!(title_from(&Vec::new()), "");
}

#[test]
fn title_from_goes_by_the_records() {
    let letters = vec![
        letter('a', false, "<a>"),
        letter('x', true, "X"),
        letter('b', false, ""),
        letter('c', false, "C"),
    ];
    assert_eq!(title_from(&letters), "<a> c");
}

#[test]
fn title_from_classified_names_is_the_title() {
    for name in ["my-app2", "Repo-Template", "a--b", " x y ", "\u{df}-\u{e9}", ""] {
        let letters: Vec<Classified> = name.chars().map(classify).collect();
        assert_eq!(title_from(&letters), hyphen_to_title(name));
    }
    let letters: Vec<Classified> = "my-app2".chars().map(classify).collect();
    assert_eq!(title_from(&letters), "My App2");
}

#[test]
fn every_ascii_character_is_classified_as_stated() {
    for code in 0u8..128 {
        let c = code as char;
        let space = c == ' ' || ('\t'..='\r').contains(&c);
        let upper = if c.is_ascii_lowercase() { (code - 32) as char } else { c };
        assert_eq!(classify(c), Classified { ch: c, whitespace: space, upper: vec![upper] }, "{:?}", c);
    }
}

#[test]
fn title_of_ascii_names() {
    assert_eq!(hyphen_to_title("my-app2"), "My App2");
    assert_eq!(hyphen_to_title("API-server_v2"), "API Server_v2");
    assert_eq!(hyphen_to_title("a\u{b}b\u{c}c\rd"), "A B C D");
    assert_eq!(hyphen_to_title("a\u{1c}b-\u{7f}c"), "A\u{1c}b \u{7f}c");
    assert_eq!(hyphen_to_title("9lives-(x)"), "9lives (x)");
}
