//! The texts the service sends outside the command processor: the menu, the
//! prompts and the notices.

use vstd::prelude::*;
use vstd::string::StringExecFns;

verus! {

/// The menu, sent once when a connection opens.
pub open spec fn menu_text() -> Seq<char> {
    "Please select a following option:\r\n1. Enter existing username.\r\n2. Enter new username to register.\r\n3. Select this option to be assigned a read-only guest account and be assigned a random username.\r\n4. Disconnect from the server.\r\n\r\nPlease enter 1, 2, 3 or 4:\r\n"@
}

/// The prompt for the username of an existing user.
pub open spec fn login_prompt() -> Seq<char> {
    "[!] Please enter your username:\n"@
}

/// The prompt for a username to register.
pub open spec fn register_prompt() -> Seq<char> {
    "[!] Please enter a new username:\n"@
}

/// The notice for a login with a username that the registry does not hold.
pub open spec fn not_found_notice() -> Seq<char> {
    "[!] Username not found, try again...\n"@
}

/// The notice for a registration with an empty username.
pub open spec fn empty_name_notice() -> Seq<char> {
    "[!] Username cannot be empty...\n"@
}

/// The notice for a registration with a username that the registry holds.
pub open spec fn name_taken_notice() -> Seq<char> {
    "[!] Username already exist, please select another...\n"@
}

/// The notice for the guest option.
pub open spec fn guest_notice() -> Seq<char> {
    "[!] Guest account logic is not implemented yet.\n"@
}

/// The notice for a menu selection that is none of the four options.
pub open spec fn invalid_selection_notice() -> Seq<char> {
    "[!] Invalid selection. Please enter 1, 2, 3, or 4.\n"@
}

/// The farewell, sent before the service closes a connection on request.
pub open spec fn goodbye() -> Seq<char> {
    "Good-bye...\n"@
}

/// The greeting for a user who logged in.
pub open spec fn welcome_back(username: Seq<char>) -> Seq<char> {
    "[*] Welcome back, "@ + username + "!\n"@
}

/// The greeting for a user who registered.
pub open spec fn welcome_new(username: Seq<char>) -> Seq<char> {
    "[*] Welcome, "@ + username + "! You are now registered...\n"@
}

/// The menu text, for the caller to send.
pub fn display_menu() -> (menu: String)
    ensures
        menu@ == menu_text(),
{
    String::from_str(
        "Please select a following option:\r\n1. Enter existing username.\r\n2. Enter new username to register.\r\n3. Select this option to be assigned a read-only guest account and be assigned a random username.\r\n4. Disconnect from the server.\r\n\r\nPlease enter 1, 2, 3 or 4:\r\n",
    )
}

} // verus!
