use kv_service::registry::{contains, read_username, write_usernames};

fn names(items: &[&str]) -> Vec<String> {
    items.iter().map(|t| t.to_string()).collect()
}

#[test]
fn read_username_gives_one_name_for_each_line() {
    assert_eq!(read_username(""), names(&[]));
    assert_eq!(read_username("alice\n"), names(&["alice"]));
    assert_eq!(read_username("alice\nbob\n"), names(&["alice", "bob"]));
    assert_eq!(read_username("alice\nbob"), names(&["alice", "bob"]));
}

#[test]
fn read_username_handles_line_ends_as_lines_does() {
    for contents in ["", "\n", "a", "a\n", "a\r\n", "a\r", "a\r\nb\r", "\r\n", "a\n\nb\n", "a\r\r\n", "x y\n z \n", "é\nü\r\n"] {
        let expected: Vec<String> = contents.lines().map(|l| l.to_string()).collect();
        assert_eq!(read_username(contents), expected);
    }
    assert_eq!(read_username("a\r\nb\r"), names(&["a", "b\r"]));
    assert_eq!(read_username("\n"), names(&[""]));
}

#[test]
fn contains_compares_exactly() {
    let list = read_username("Alice\nbob\n");
    assert!(contains(&list, "Alice"));
    assert!(contains(&list, "bob"));
    assert!(!contains(&list, "alice"));
    assert!(!contains(&list, "bo"));
    assert!(!contains(&list, ""));
    assert!(!contains(&names(&[]), "bob"));
}

#[test]
fn write_usernames_gives_the_line_to_append() {
    assert_eq!(write_usernames("bob"), "bob\n");
    assert_eq!(write_usernames(""), "\n");
}

#[test]
fn appended_name_is_read_back() {
    let mut contents = String::from("alice\n");
    assert!(!contains(&read_username(&contents), "bob"));
    contents.push_str(&write_usernames("bob"));
    let list = read_username(&contents);
    assert!(contains(&list, "bob"));
    assert!(contains(&list, "alice"));
    assert!(!contains(&list, "carol"));
}
