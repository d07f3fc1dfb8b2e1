use kv_service::menu::display_menu;
use kv_service::session::{AccessLevel, Session};

#[test]
fn registered_session() {
    let session = Session::new_registered("bob".to_string());
    assert_eq!(session.username, "bob");
    assert_eq!(session.access_level, AccessLevel::RegisteredUser);
    assert!(session.is_registered());
    assert!(!session.is_guest());
}

#[test]
fn guest_session() {
    let session = Session::new_guest("visitor".to_string());
    assert_eq!(session.username, "visitor");
    assert_eq!(session.access_level, AccessLevel::Guest);
    assert!(session.is_guest());
    assert!(!session.is_registered());
}

#[test]
fn cloned_session_keeps_its_access_level() {
    let session = Session::new_guest("visitor".to_string());
    let copy = session.clone();
    assert_eq!(copy.username, "visitor");
    assert!(copy.is_guest());
}

#[test]
fn menu_text_is_sent_verbatim() {
    let expected = "Please select a following option:\r\n\
        1. Enter existing username.\r\n\
        2. Enter new username to register.\r\n\
        3. Select this option to be assigned a read-only guest account and be assigned a random username.\r\n\
        4. Disconnect from the server.\r\n\r\n\
        Please enter 1, 2, 3 or 4:\r\n";
    assert_eq!(display_menu(), expected);
}
