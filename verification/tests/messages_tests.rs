use kv_service::messages::{command_from_tokens, parse_command, process_message, Command};
use kv_service::store::Store;

fn run(store: &mut Store, line: &str) -> String {
    process_message(line, store)
}

fn tokens(items: &[&str]) -> Vec<String> {
    items.iter().map(|t| t.to_string()).collect()
}

#[test]
fn set_then_get_gives_the_upper_cased_value() {
    let mut store = Store::new();
    assert_eq!(run(&mut store, "SET x hello"), "[+] Key x set successfully\n");
    assert_eq!(run(&mut store, "GET x"), "Value: HELLO\n");
    assert_eq!(run(&mut store, "SET y other"), "[+] Key y set successfully\n");
    assert_eq!(run(&mut store, "SHOW"), "[*] Database contents:\nx HELLO\ny OTHER\n");
    assert_eq!(run(&mut store, "GET x"), "Value: HELLO\n");
    assert_eq!(run(&mut store, "SET x again"), "[+] Key x set successfully\n");
    assert_eq!(run(&mut store, "GET x"), "Value: AGAIN\n");
}

#[test]
fn set_with_other_token_counts_is_invalid_and_changes_nothing() {
    let mut store = Store::new();
    store.set("k", "v");
    for line in ["SET", "SET k", "SET k v w", "SET a b c d e", "SETX", "SET  "] {
        assert_eq!(run(&mut store, line), "[-] Invalid SET command\n");
        assert_eq!(store.snapshot(), vec![("k".to_string(), "V".to_string())]);
    }
}

#[test]
fn set_keyword_is_matched_as_a_prefix() {
    let mut store = Store::new();
    assert_eq!(run(&mut store, "SETX a b"), "[+] Key a set successfully\n");
    assert_eq!(store.get("a"), Some("B".to_string()));
    assert_eq!(run(&mut store, "set a b"), "[!] Unknown command\n");
}

#[test]
fn set_splits_on_any_whitespace() {
    let mut store = Store::new();
    assert_eq!(run(&mut store, "SET \t key \u{a0}  value"), "[+] Key key set successfully\n");
    assert_eq!(store.get("key"), Some("VALUE".to_string()));
}

#[test]
fn get_of_a_missing_key_is_not_found() {
    let mut store = Store::new();
    assert_eq!(run(&mut store, "GET nothing"), "[!] Key not found\n");
    store.set("other", "v");
    assert_eq!(run(&mut store, "GET nothing"), "[!] Key not found\n");
}

#[test]
fn get_with_other_token_counts_is_invalid() {
    let mut store = Store::new();
    store.set("k", "v");
    assert_eq!(run(&mut store, "GET"), "[-] Invalid GET command\n");
    assert_eq!(run(&mut store, "GET k extra"), "[-] Invalid GET command\n");
    assert_eq!(run(&mut store, "GETk"), "[-] Invalid GET command\n");
    assert_eq!(run(&mut store, "GETTER k"), "Value: V\n");
}

#[test]
fn show_on_an_empty_store() {
    let mut store = Store::new();
    assert_eq!(run(&mut store, "SHOW"), "[!] Database is empty!\n");
    assert_eq!(run(&mut store, "show"), "[!] Database is empty!\n");
    assert_eq!(run(&mut store, "ShOw"), "[!] Database is empty!\n");
}

#[test]
fn show_lists_one_line_for_each_key() {
    let mut store = Store::new();
    run(&mut store, "SET a 1");
    run(&mut store, "SET b two");
    run(&mut store, "SET c three");
    run(&mut store, "SET b four");
    let reply = run(&mut store, "show");
    let lines: Vec<&str> = reply.lines().collect();
    assert_eq!(lines, vec!["[*] Database contents:", "a 1", "b FOUR", "c THREE"]);
}

#[test]
fn show_with_arguments_is_unknown() {
    let mut store = Store::new();
    assert_eq!(run(&mut store, "SHOW all"), "[!] Unknown command\n");
    assert_eq!(run(&mut store, "SHOWS"), "[!] Unknown command\n");
}

#[test]
fn other_input_is_unknown() {
    let mut store = Store::new();
    for line in ["", "HELLO", "QUIT", "get x", "DEL x", " SET a b"] {
        assert_eq!(run(&mut store, line), "[!] Unknown command\n");
    }
    assert!(store.is_empty());
}

#[test]
fn parse_command_gives_each_variant() {
    assert!(matches!(parse_command("SET a b"), Command::SetKey { key, value } if key == "a" && value == "b"));
    assert!(matches!(parse_command("SET a"), Command::InvalidSet));
    assert!(matches!(parse_command("GET a"), Command::GetKey { key } if key == "a"));
    assert!(matches!(parse_command("GET"), Command::InvalidGet));
    assert!(matches!(parse_command("sHoW"), Command::Show));
    assert!(matches!(parse_command("what"), Command::Unknown));
}

#[test]
fn command_from_tokens_goes_by_the_tokens_given() {
    let three = tokens(&["SET", "k", "v"]);
    assert!(matches!(command_from_tokens("SET k v", &three), Command::SetKey { key, value } if key == "k" && value == "v"));
    assert!(matches!(command_from_tokens("GET k v", &three), Command::InvalidGet));
    assert!(matches!(command_from_tokens("other", &three), Command::Unknown));
    let two = tokens(&["GET", "k"]);
    assert!(matches!(command_from_tokens("GET k", &two), Command::GetKey { key } if key == "k"));
    assert!(matches!(command_from_tokens("SET k", &two), Command::InvalidSet));
    assert!(matches!(command_from_tokens("SHOW", &tokens(&["SHOW"])), Command::Show));
}

#[test]
fn only_set_writes() {
    assert!(parse_command("SET a b").writes());
    for line in ["SET a", "GET a", "GET", "SHOW", "nothing"] {
        assert!(!parse_command(line).writes());
    }
}

#[test]
fn answer_reads_and_leaves_set_to_run() {
    let mut store = Store::new();
    store.set("a", "b");
    assert_eq!(parse_command("SET a c").answer(&store), None);
    assert_eq!(parse_command("GET a").answer(&store), Some("Value: B\n".to_string()));
    assert_eq!(parse_command("GET z").answer(&store), Some("[!] Key not found\n".to_string()));
    assert_eq!(parse_command("SHOW").answer(&store), Some("[*] Database contents:\na B\n".to_string()));
    assert_eq!(parse_command("SET").answer(&store), Some("[-] Invalid SET command\n".to_string()));
    assert_eq!(parse_command("GET").answer(&store), Some("[-] Invalid GET command\n".to_string()));
    assert_eq!(parse_command("x").answer(&store), Some("[!] Unknown command\n".to_string()));
    assert_eq!(parse_command("SET a c").run(&mut store), "[+] Key a set successfully\n");
    assert_eq!(store.get("a"), Some("C".to_string()));
}
