use kv_service::text::{
    chars_of, eq_ignore_ascii_case, same_text, split_whitespace, starts_with, trim,
};

#[test]
fn starts_with_compares_the_prefix() {
    assert!(starts_with("SET a b", "SET"));
    assert!(starts_with("SET", "SET"));
    assert!(starts_with("anything", ""));
    assert!(!starts_with("SE", "SET"));
    assert!(!starts_with("set a", "SET"));
    assert!(!starts_with(" SET", "SET"));
    assert!(starts_with("éa", "é"));
}

#[test]
fn eq_ignore_ascii_case_folds_ascii_letters_only() {
    assert!(eq_ignore_ascii_case("quit", "QUIT"));
    assert!(eq_ignore_ascii_case("QuIt", "qUiT"));
    assert!(eq_ignore_ascii_case("", ""));
    assert!(!eq_ignore_ascii_case("quit", "quits"));
    assert!(!eq_ignore_ascii_case("quit", "quiz"));
    assert!(!eq_ignore_ascii_case("@", "`"));
    assert!(!eq_ignore_ascii_case("[", "{"));
    assert!(!eq_ignore_ascii_case("é", "É"));
    assert!(eq_ignore_ascii_case("aé", "Aé"));
}

#[test]
fn chars_of_gives_every_character() {
    assert_eq!(chars_of(""), Vec::<char>::new());
    assert_eq!(chars_of("aé\n"), vec!['a', 'é', '\n']);
}

#[test]
fn same_text_is_exact() {
    assert!(same_text("1", "1"));
    assert!(!same_text("1", "1 "));
    assert!(!same_text("a", "A"));
}

const SAMPLES: [&str; 20] = [
    "",
    " ",
    "   \t\r\n",
    "a",
    " a",
    "a ",
    "  a  ",
    "a b",
    " a  b   c ",
    "SET k v",
    "SET\tk\nv\r\n",
    "\u{a0}x\u{a0}",
    "\u{3000}wide\u{2003}gap\u{85}",
    "\u{200b}zero\u{200b}",
    "é ü",
    "a\u{b}b\u{c}c",
    "  two  words  ",
    "x\u{1680}y\u{2028}z\u{2029}",
    "\u{feff}bom",
    "tail\n",
];

#[test]
fn trim_removes_whitespace_at_both_ends() {
    assert_eq!(trim("  bob \r\n"), "bob");
    assert_eq!(trim("a b"), "a b");
    assert_eq!(trim(" \t "), "");
    assert_eq!(trim(""), "");
    for sample in SAMPLES {
        assert_eq!(trim(sample), sample.trim());
    }
}

#[test]
fn split_whitespace_gives_the_runs_between_whitespace() {
    assert_eq!(split_whitespace("SET  k\tv "), vec!["SET", "k", "v"]);
    assert_eq!(split_whitespace("one"), vec!["one"]);
    assert_eq!(split_whitespace("  "), Vec::<String>::new());
    assert_eq!(split_whitespace(""), Vec::<String>::new());
    for sample in SAMPLES {
        let expected: Vec<String> = sample.split_whitespace().map(|t| t.to_string()).collect();
        assert_eq!(split_whitespace(sample), expected);
    }
}
