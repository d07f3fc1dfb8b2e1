//! Identity resolution: logging in with a registered username and
//! registering a new one, as the steps of the connection's state machine.
//!
//! A username is registered as it was typed, without its surrounding
//! whitespace, but looked up at login in lower case: a name registered with
//! a capital letter cannot log in.

use vstd::prelude::*;
use vstd::string::StringExecFns;
use crate::connection::{
    closing, Action, ActionView, Event, EventView, State, StateView, Step, StepView,
};
use crate::menu::{
    empty_name_notice, login_prompt, name_taken_notice, not_found_notice, register_prompt,
    welcome_back, welcome_new,
};
use crate::registry::{
    contains, ends_lines, fits_a_line, has_line, lemma_append_keeps_other_names,
    lemma_appended_name_is_found, read_username, write_usernames,
};
use crate::session::{AccessLevel, Session, SessionView};
use crate::text::{lowercase, to_lowercase, trim, trimmed};

verus! {

/// Where a login stands.
#[derive(Debug)]
pub enum LoginState {
    /// The prompt was sent; a username is awaited.
    AwaitingName,
    /// The registry's contents are awaited, to look `username` up.
    AwaitingRegistry { username: String },
}

/// Where a registration stands.
#[derive(Debug)]
pub enum RegisterState {
    /// The prompt was sent; a username is awaited.
    AwaitingName,
    /// The registry's contents are awaited, to see that `username` is new.
    AwaitingRegistry { username: String },
    /// `username` is being appended to the registry.
    AwaitingAppend { username: String },
}

/// The mathematical value of a [`LoginState`].
pub ghost enum LoginStateView {
    AwaitingName,
    AwaitingRegistry { username: Seq<char> },
}

/// The mathematical value of a [`RegisterState`].
pub ghost enum RegisterStateView {
    AwaitingName,
    AwaitingRegistry { username: Seq<char> },
    AwaitingAppend { username: Seq<char> },
}

impl View for LoginState {
    type V = LoginStateView;

    open spec fn view(&self) -> LoginStateView {
        match self {
            LoginState::AwaitingName => LoginStateView::AwaitingName,
            LoginState::AwaitingRegistry { username } => LoginStateView::AwaitingRegistry {
                username: username@,
            },
        }
    }
}

impl View for RegisterState {
    type V = RegisterStateView;

    open spec fn view(&self) -> RegisterStateView {
        match self {
            RegisterState::AwaitingName => RegisterStateView::AwaitingName,
            RegisterState::AwaitingRegistry { username } => RegisterStateView::AwaitingRegistry {
                username: username@,
            },
            RegisterState::AwaitingAppend { username } => RegisterStateView::AwaitingAppend {
                username: username@,
            },
        }
    }
}

/// The session of a registered user named `username`.
pub open spec fn registered(username: Seq<char>) -> SessionView {
    SessionView { username, access_level: AccessLevel::RegisteredUser }
}

/// The step after the registry was searched for `username` at login: found,
/// the user is greeted and the command loop begins; not found, the notice
/// and the prompt are sent again.
pub open spec fn login_outcome(username: Seq<char>, found: bool) -> StepView {
    if found {
        StepView {
            state: StateView::Commands(registered(username)),
            action: ActionView::Send(welcome_back(username)),
        }
    } else {
        StepView {
            state: StateView::Login(LoginStateView::AwaitingName),
            action: ActionView::Send(not_found_notice() + login_prompt()),
        }
    }
}

/// The step that follows `event` during a login. The line that arrives is
/// trimmed and lower-cased, and that name is looked up in the registry.
pub open spec fn login_step(phase: LoginStateView, event: EventView) -> StepView {
    match (phase, event) {
        (LoginStateView::AwaitingName, EventView::Line(raw)) => StepView {
            state: StateView::Login(
                LoginStateView::AwaitingRegistry { username: lowercase(trimmed(raw)) },
            ),
            action: ActionView::ReadRegistry,
        },
        (LoginStateView::AwaitingRegistry { username }, EventView::Registry(contents)) => {
            login_outcome(username, has_line(contents, username))
        },
        _ => closing(),
    }
}

/// The step after `username`, a line without its surrounding whitespace,
/// arrived during a registration: an empty name is refused at once, any
/// other is checked against the registry.
pub open spec fn register_name_step(username: Seq<char>) -> StepView {
    if username.len() == 0 {
        StepView {
            state: StateView::Register(RegisterStateView::AwaitingName),
            action: ActionView::Send(empty_name_notice() + register_prompt()),
        }
    } else {
        StepView {
            state: StateView::Register(RegisterStateView::AwaitingRegistry { username }),
            action: ActionView::ReadRegistry,
        }
    }
}

/// The step after the registry was searched for `username` at registration:
/// found, the name is refused and asked for again; not found, it is to be
/// appended to the registry.
pub open spec fn register_outcome(username: Seq<char>, found: bool) -> StepView {
    if found {
        StepView {
            state: StateView::Register(RegisterStateView::AwaitingName),
            action: ActionView::Send(name_taken_notice() + register_prompt()),
        }
    } else {
        StepView {
            state: StateView::Register(RegisterStateView::AwaitingAppend { username }),
            action: ActionView::Append(username + "\n"@),
        }
    }
}

/// The step that follows `event` during a registration.
pub open spec fn register_step(phase: RegisterStateView, event: EventView) -> StepView {
    match (phase, event) {
        (RegisterStateView::AwaitingName, EventView::Line(raw)) => register_name_step(
            trimmed(raw),
        ),
        (RegisterStateView::AwaitingRegistry { username }, EventView::Registry(contents)) => {
            register_outcome(username, has_line(contents, username))
        },
        (RegisterStateView::AwaitingAppend { username }, EventView::Appended) => StepView {
            state: StateView::Commands(registered(username)),
            action: ActionView::Send(welcome_new(username)),
        },
        _ => closing(),
    }
}

/// The step after the registry was searched for `username` at login.
pub fn finish_login(username: String, found: bool) -> (step: Step)
    ensures
        step@ == login_outcome(username@, found),
{
    if found {
        let mut text = String::from_str("[*] Welcome back, ");
        text.append(username.as_str());
        text.append("!\n");
        Step { state: State::Commands(Session::new_registered(username)), action: Action::Send(text) }
    } else {
        let mut text = String::from_str("[!] Username not found, try again...\n");
        text.append("[!] Please enter your username:\n");
        Step { state: State::Login(LoginState::AwaitingName), action: Action::Send(text) }
    }
}

/// One step of a login: the state and action that follow `event`.
pub fn login_existing_username(phase: LoginState, event: Event) -> (step: Step)
    ensures
        step@ == login_step(phase@, event@),
{
    match phase {
        LoginState::AwaitingName => match event {
            Event::Line(raw) => {
                let typed = trim(raw.as_str());
                let username = to_lowercase(typed.as_str());
                Step {
                    state: State::Login(LoginState::AwaitingRegistry { username }),
                    action: Action::ReadRegistry,
                }
            },
            _ => Step::close(),
        },
        LoginState::AwaitingRegistry { username } => match event {
            Event::Registry(contents) => {
                let names = read_username(contents.as_str());
                let found = contains(&names, username.as_str());
                finish_login(username, found)
            },
            _ => Step::close(),
        },
    }
}

/// The step after `username`, a line without its surrounding whitespace,
/// arrived during a registration.
pub fn check_new_username(username: String) -> (step: Step)
    ensures
        step@ == register_name_step(username@),
{
    if username.as_str().is_empty() {
        let mut text = String::from_str("[!] Username cannot be empty...\n");
        text.append("[!] Please enter a new username:\n");
        Step { state: State::Register(RegisterState::AwaitingName), action: Action::Send(text) }
    } else {
        Step {
            state: State::Register(RegisterState::AwaitingRegistry { username }),
            action: Action::ReadRegistry,
        }
    }
}

/// The step after the registry was searched for `username` at registration.
pub fn finish_lookup(username: String, found: bool) -> (step: Step)
    ensures
        step@ == register_outcome(username@, found),
{
    if found {
        let mut text = String::from_str("[!] Username already exist, please select another...\n");
        text.append("[!] Please enter a new username:\n");
        Step { state: State::Register(RegisterState::AwaitingName), action: Action::Send(text) }
    } else {
        let line = write_usernames(username.as_str());
        Step {
            state: State::Register(RegisterState::AwaitingAppend { username }),
            action: Action::Append(line),
        }
    }
}

/// One step of a registration: the state and action that follow `event`.
pub fn register_new_username(phase: RegisterState, event: Event) -> (step: Step)
    ensures
        step@ == register_step(phase@, event@),
{
    match phase {
        RegisterState::AwaitingName => match event {
            Event::Line(raw) => check_new_username(trim(raw.as_str())),
            _ => Step::close(),
        },
        RegisterState::AwaitingRegistry { username } => match event {
            Event::Registry(contents) => {
                let names = read_username(contents.as_str());
                let found = contains(&names, username.as_str());
                finish_lookup(username, found)
            },
            _ => Step::close(),
        },
        RegisterState::AwaitingAppend { username } => match event {
            Event::Appended => {
                let mut text = String::from_str("[*] Welcome, ");
                text.append(username.as_str());
                text.append("! You are now registered...\n");
                Step {
                    state: State::Commands(Session::new_registered(username)),
                    action: Action::Send(text),
                }
            },
            _ => Step::close(),
        },
    }
}

/// A username that is not in the registry is appended to it, and once it is
/// there a second registration of the same name is refused with the
/// name-taken notice, while every other name fares as it did before.
pub proof fn lemma_second_registration_is_refused(
    contents: Seq<char>,
    username: Seq<char>,
    other: Seq<char>,
)
    requires
        ends_lines(contents),
        fits_a_line(username),
        !has_line(contents, username),
        other != username,
    ensures
        register_step(
            RegisterStateView::AwaitingRegistry { username },
            EventView::Registry(contents),
        ) == (StepView {
            state: StateView::Register(RegisterStateView::AwaitingAppend { username }),
            action: ActionView::Append(username + "\n"@),
        }),
        register_step(
            RegisterStateView::AwaitingRegistry { username },
            EventView::Registry(contents + (username + "\n"@)),
        ) == (StepView {
            state: StateView::Register(RegisterStateView::AwaitingName),
            action: ActionView::Send(name_taken_notice() + register_prompt()),
        }),
        register_step(
            RegisterStateView::AwaitingRegistry { username: other },
            EventView::Registry(contents + (username + "\n"@)),
        ) == register_step(
            RegisterStateView::AwaitingRegistry { username: other },
            EventView::Registry(contents),
        ),
{
    lemma_appended_name_is_found(contents, username);
    lemma_append_keeps_other_names(contents, username, other);
}

/// After a registration, a login finds the new name exactly if what was
/// typed at login, trimmed and lower-cased, is the name as it was
/// registered; for every other typed line the login fares as before.
pub proof fn lemma_login_after_registration(
    contents: Seq<char>,
    username: Seq<char>,
    typed: Seq<char>,
)
    requires
        ends_lines(contents),
        fits_a_line(username),
    ensures
        lowercase(trimmed(typed)) == username ==> login_step(
            LoginStateView::AwaitingRegistry { username: lowercase(trimmed(typed)) },
            EventView::Registry(contents + (username + "\n"@)),
        ) == (StepView {
            state: StateView::Commands(registered(username)),
            action: ActionView::Send(welcome_back(username)),
        }),
        lowercase(trimmed(typed)) != username ==> login_step(
            LoginStateView::AwaitingRegistry { username: lowercase(trimmed(typed)) },
            EventView::Registry(contents + (username + "\n"@)),
        ) == login_step(
            LoginStateView::AwaitingRegistry { username: lowercase(trimmed(typed)) },
            EventView::Registry(contents),
        ),
{
    lemma_appended_name_is_found(contents, username);
    if lowercase(trimmed(typed)) != username {
        lemma_append_keeps_other_names(contents, username, lowercase(trimmed(typed)));
    }
}

} // verus!
