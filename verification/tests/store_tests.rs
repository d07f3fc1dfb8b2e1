use kv_service::store::Store;

fn pair(k: &str, v: &str) -> (String, String) {
    (k.to_string(), v.to_string())
}

#[test]
fn new_store_is_empty() {
    let store = Store::new();
    assert!(store.is_empty());
    assert_eq!(store.len(), 0);
    assert_eq!(store.get("a"), None);
    assert_eq!(store.snapshot(), Vec::<(String, String)>::new());
    assert_eq!(store.listing(), "");
}

#[test]
fn set_stores_the_upper_cased_value() {
    let mut store = Store::new();
    store.set("x", "hello");
    assert_eq!(store.get("x"), Some("HELLO".to_string()));
    assert_eq!(store.len(), 1);
    assert!(!store.is_empty());
}

#[test]
fn set_upper_cases_beyond_ascii() {
    let mut store = Store::new();
    store.set("k", "straße é");
    assert_eq!(store.get("k"), Some("STRASSE É".to_string()));
}

#[test]
fn insert_stores_an_upper_cased_value_as_it_is() {
    let mut store = Store::new();
    store.insert("x", "HELLO".to_string());
    store.insert("y", "STRASSE".to_string());
    store.insert("x", "BYE".to_string());
    assert_eq!(store.get("x"), Some("BYE".to_string()));
    assert_eq!(store.get("y"), Some("STRASSE".to_string()));
    assert_eq!(store.len(), 2);
}

#[test]
fn set_overwrites_in_place() {
    let mut store = Store::new();
    store.set("a", "one");
    store.set("b", "two");
    store.set("a", "three");
    assert_eq!(store.len(), 2);
    assert_eq!(store.get("a"), Some("THREE".to_string()));
    assert_eq!(store.get("b"), Some("TWO".to_string()));
    assert_eq!(store.snapshot(), vec![pair("a", "THREE"), pair("b", "TWO")]);
}

#[test]
fn keys_are_case_sensitive() {
    let mut store = Store::new();
    store.set("a", "1");
    store.set("A", "2");
    assert_eq!(store.len(), 2);
    assert_eq!(store.get("a"), Some("1".to_string()));
    assert_eq!(store.get("A"), Some("2".to_string()));
}

#[test]
fn listing_has_one_line_for_each_entry() {
    let mut store = Store::new();
    store.set("a", "x");
    store.set("b", "y");
    store.set("c", "z");
    assert_eq!(store.listing(), "a X\nb Y\nc Z\n");
    assert_eq!(store.listing().lines().count(), 3);
}

#[test]
fn last_of_two_sets_wins_in_either_order() {
    let mut first = Store::new();
    first.set("a", "1");
    first.set("a", "2");
    assert_eq!(first.get("a"), Some("2".to_string()));
    let mut second = Store::new();
    second.set("a", "2");
    second.set("a", "1");
    assert_eq!(second.get("a"), Some("1".to_string()));
}
