//! The identity attached to a connection once it has been resolved.

use vstd::prelude::*;

verus! {

/// What a session is allowed to do.
#[derive(Debug, Clone, Copy, PartialEq, Eq, Structural)]
pub enum AccessLevel {
    RegisteredUser,
    Guest,
}

/// A resolved identity: a username and the access level it was given.
/// The access level is fixed when the session is made.
#[derive(Debug, Clone)]
pub struct Session {
    pub username: String,
    pub access_level: AccessLevel,
}

/// The mathematical value of a [`Session`].
pub ghost struct SessionView {
    pub username: Seq<char>,
    pub access_level: AccessLevel,
}

impl View for Session {
    type V = SessionView;

    open spec fn view(&self) -> SessionView {
        SessionView { username: self.username@, access_level: self.access_level }
    }
}

impl Session {
    /// A session for a user who logged in or registered.
    pub fn new_registered(username: String) -> (session: Self)
        ensures
            session@ == (SessionView {
                username: username@,
                access_level: AccessLevel::RegisteredUser,
            }),
    {
        Session { username, access_level: AccessLevel::RegisteredUser }
    }

    /// A session for a guest.
    pub fn new_guest(username: String) -> (session: Self)
        ensures
            session@ == (SessionView { username: username@, access_level: AccessLevel::Guest }),
    {
        Session { username, access_level: AccessLevel::Guest }
    }

    /// Whether the session belongs to a guest.
    pub fn is_guest(&self) -> (guest: bool)
        ensures
            guest == (self@.access_level == AccessLevel::Guest),
    {
        match self.access_level {
            AccessLevel::Guest => true,
            AccessLevel::RegisteredUser => false,
        }
    }

    /// Whether the session belongs to a registered user.
    pub fn is_registered(&self) -> (registered: bool)
        ensures
            registered == (self@.access_level == AccessLevel::RegisteredUser),
    {
        match self.access_level {
            AccessLevel::RegisteredUser => true,
            AccessLevel::Guest => false,
        }
    }
}

} // verus!
