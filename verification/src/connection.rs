//! The per-connection protocol as a state machine. The machine never touches
//! a socket, the registry file or the shared store: each step takes the
//! event that the caller observed and answers with the next state and the
//! one thing the caller has to do before it reports the next event.
//!
//! A menu selection that is none of the four options is answered with a
//! notice and the connection is closed; the menu is not shown again.

use vstd::prelude::*;
use vstd::string::StringExecFns;
use crate::menu::{
    display_menu, goodbye, guest_notice, invalid_selection_notice, login_prompt, menu_text,
    register_prompt,
};
use crate::registration::{
    login_existing_username, login_step, register_new_username, register_step, LoginState,
    LoginStateView, RegisterState, RegisterStateView,
};
use crate::session::{Session, SessionView};
use crate::text::{eq_ignore_ascii_case, equal_ignoring_ascii_case, same_text, trim, trimmed};

verus! {

/// Where a connection stands.
#[derive(Debug)]
pub enum State {
    /// The menu was sent; a selection is awaited.
    Menu,
    /// An existing user is logging in.
    Login(LoginState),
    /// A new user is registering.
    Register(RegisterState),
    /// The identity is resolved; commands are awaited.
    Commands(Session),
    /// Nothing more is read or written.
    Closed,
}

/// What the caller observed after it performed an action.
#[derive(Debug)]
pub enum Event {
    /// A line arrived from the client.
    Line(String),
    /// The client closed the stream.
    EndOfStream,
    /// Reading, writing or the registry file failed.
    Failed,
    /// The registry file was read: its contents.
    Registry(String),
    /// The text was appended to the registry file.
    Appended,
}

/// What the caller has to do next.
#[derive(Debug)]
pub enum Action {
    /// Send the text, then read a line and report it.
    Send(String),
    /// Send the text, then close the connection.
    SendAndClose(String),
    /// Close the connection without a word.
    Close,
    /// Read the registry file and report its contents.
    ReadRegistry,
    /// Append the text to the registry file and report how it went.
    Append(String),
    /// Run the line against the store, send the reply, then read a line and
    /// report it.
    Execute(String),
}

/// One step of the machine: the state it is in now and what is to be done.
#[derive(Debug)]
pub struct Step {
    pub state: State,
    pub action: Action,
}

/// The mathematical value of a [`State`].
pub ghost enum StateView {
    Menu,
    Login(LoginStateView),
    Register(RegisterStateView),
    Commands(SessionView),
    Closed,
}

/// The mathematical value of an [`Event`].
pub ghost enum EventView {
    Line(Seq<char>),
    EndOfStream,
    Failed,
    Registry(Seq<char>),
    Appended,
}

/// The mathematical value of an [`Action`].
pub ghost enum ActionView {
    Send(Seq<char>),
    SendAndClose(Seq<char>),
    Close,
    ReadRegistry,
    Append(Seq<char>),
    Execute(Seq<char>),
}

/// The mathematical value of a [`Step`].
pub ghost struct StepView {
    pub state: StateView,
    pub action: ActionView,
}

impl View for State {
    type V = StateView;

    open spec fn view(&self) -> StateView {
        match self {
            State::Menu => StateView::Menu,
            State::Login(phase) => StateView::Login(phase@),
            State::Register(phase) => StateView::Register(phase@),
            State::Commands(session) => StateView::Commands(session@),
            State::Closed => StateView::Closed,
        }
    }
}

impl View for Event {
    type V = EventView;

    open spec fn view(&self) -> EventView {
        match self {
            Event::Line(text) => EventView::Line(text@),
            Event::EndOfStream => EventView::EndOfStream,
            Event::Failed => EventView::Failed,
            Event::Registry(contents) => EventView::Registry(contents@),
            Event::Appended => EventView::Appended,
        }
    }
}

impl View for Action {
    type V = ActionView;

    open spec fn view(&self) -> ActionView {
        match self {
            Action::Send(text) => ActionView::Send(text@),
            Action::SendAndClose(text) => ActionView::SendAndClose(text@),
            Action::Close => ActionView::Close,
            Action::ReadRegistry => ActionView::ReadRegistry,
            Action::Append(text) => ActionView::Append(text@),
            Action::Execute(line) => ActionView::Execute(line@),
        }
    }
}

impl View for Step {
    type V = StepView;

    open spec fn view(&self) -> StepView {
        StepView { state: self.state@, action: self.action@ }
    }
}

/// The step that ends a connection without a word.
pub open spec fn closing() -> StepView {
    StepView { state: StateView::Closed, action: ActionView::Close }
}

/// The step that sends `text` and ends the connection.
pub open spec fn closing_with(text: Seq<char>) -> StepView {
    StepView { state: StateView::Closed, action: ActionView::SendAndClose(text) }
}

/// The first step of every connection: send the menu.
pub open spec fn opening() -> StepView {
    StepView { state: StateView::Menu, action: ActionView::Send(menu_text()) }
}

/// The step after the menu selection `selection`, a line without its
/// surrounding whitespace.
pub open spec fn selection_step(selection: Seq<char>) -> StepView {
    if selection == "1"@ {
        StepView {
            state: StateView::Login(LoginStateView::AwaitingName),
            action: ActionView::Send(login_prompt()),
        }
    } else if selection == "2"@ {
        StepView {
            state: StateView::Register(RegisterStateView::AwaitingName),
            action: ActionView::Send(register_prompt()),
        }
    } else if selection == "3"@ {
        closing_with(guest_notice())
    } else if selection == "4"@ {
        closing_with(goodbye())
    } else {
        closing_with(invalid_selection_notice())
    }
}

/// The step after `line`, a line without its surrounding whitespace, arrived
/// in the command loop: `QUIT`, in any case, ends the connection with the
/// farewell; every other line is to be run against the store.
pub open spec fn command_step(session: SessionView, line: Seq<char>) -> StepView {
    if equal_ignoring_ascii_case(line, "QUIT"@) {
        closing_with(goodbye())
    } else {
        StepView { state: StateView::Commands(session), action: ActionView::Execute(line) }
    }
}

/// The step that follows `event` in `state`. The end of the stream, a
/// failure, and an event that the state does not wait for end the connection
/// without a word.
pub open spec fn next(state: StateView, event: EventView) -> StepView {
    match state {
        StateView::Menu => match event {
            EventView::Line(raw) => selection_step(trimmed(raw)),
            _ => closing(),
        },
        StateView::Login(phase) => login_step(phase, event),
        StateView::Register(phase) => register_step(phase, event),
        StateView::Commands(session) => match event {
            EventView::Line(raw) => command_step(session, trimmed(raw)),
            _ => closing(),
        },
        StateView::Closed => closing(),
    }
}

impl Step {
    /// The step that ends a connection without a word.
    pub fn close() -> (step: Step)
        ensures
            step@ == closing(),
    {
        Step { state: State::Closed, action: Action::Close }
    }

    /// The step that sends `text` and ends the connection.
    pub fn close_with(text: &str) -> (step: Step)
        ensures
            step@ == closing_with(text@),
    {
        Step { state: State::Closed, action: Action::SendAndClose(String::from_str(text)) }
    }

    /// The first step of every connection: send the menu.
    pub fn open() -> (step: Step)
        ensures
            step@ == opening(),
    {
        Step { state: State::Menu, action: Action::Send(display_menu()) }
    }
}

/// The step after the menu selection `selection`, a line without its
/// surrounding whitespace.
pub fn select_option(selection: &str) -> (step: Step)
    ensures
        step@ == selection_step(selection@),
{
    if same_text(selection, "1") {
        Step {
            state: State::Login(LoginState::AwaitingName),
            action: Action::Send(String::from_str("[!] Please enter your username:\n")),
        }
    } else if same_text(selection, "2") {
        Step {
            state: State::Register(RegisterState::AwaitingName),
            action: Action::Send(String::from_str("[!] Please enter a new username:\n")),
        }
    } else if same_text(selection, "3") {
        Step::close_with("[!] Guest account logic is not implemented yet.\n")
    } else if same_text(selection, "4") {
        Step::close_with("Good-bye...\n")
    } else {
        Step::close_with("[!] Invalid selection. Please enter 1, 2, 3, or 4.\n")
    }
}

/// The step after `line`, a line without its surrounding whitespace, arrived
/// in the command loop.
pub fn command_line(session: Session, line: String) -> (step: Step)
    ensures
        step@ == command_step(session@, line@),
{
    if eq_ignore_ascii_case(line.as_str(), "QUIT") {
        Step::close_with("Good-bye...\n")
    } else {
        Step { state: State::Commands(session), action: Action::Execute(line) }
    }
}

/// One step of a connection: the state and action that follow `event` in
/// `state`.
pub fn handle_connection(state: State, event: Event) -> (step: Step)
    ensures
        step@ == next(state@, event@),
{
    match state {
        State::Menu => match event {
            Event::Line(raw) => {
                let selection = trim(raw.as_str());
                select_option(selection.as_str())
            },
            _ => Step::close(),
        },
        State::Login(phase) => login_existing_username(phase, event),
        State::Register(phase) => register_new_username(phase, event),
        State::Commands(session) => match event {
            Event::Line(raw) => {
                let line = trim(raw.as_str());
                command_line(session, line)
            },
            _ => Step::close(),
        },
        State::Closed => Step::close(),
    }
}

/// `QUIT`, in any case, ends the command loop: the farewell is sent once and
/// the connection is closed.
pub proof fn lemma_quit_closes(session: SessionView, raw: Seq<char>)
    requires
        equal_ignoring_ascii_case(trimmed(raw), "QUIT"@),
    ensures
        next(StateView::Commands(session), EventView::Line(raw)) == closing_with(goodbye()),
{
}

/// A closed connection stays closed: whatever is reported afterwards, no
/// text is sent and no command is run.
pub proof fn lemma_closed_is_final(event: EventView)
    ensures
        next(StateView::Closed, event) == closing(),
{
}

/// The state that a connection is in after a run of events.
pub open spec fn state_after(state: StateView, events: Seq<EventView>) -> StateView
    decreases events.len(),
{
    if events.len() == 0 {
        state
    } else {
        next(state_after(state, events.drop_last()), events.last()).state
    }
}

/// Once `QUIT` has arrived in the command loop, nothing that is reported
/// afterwards is answered: the connection is closed for good, and the only
/// thing left to do is to close it.
pub proof fn lemma_nothing_follows_quit(
    session: SessionView,
    raw: Seq<char>,
    later: Seq<EventView>,
    event: EventView,
)
    requires
        equal_ignoring_ascii_case(trimmed(raw), "QUIT"@),
    ensures
        ({
            let quit = next(StateView::Commands(session), EventView::Line(raw));
            &&& quit.action == ActionView::SendAndClose(goodbye())
            &&& state_after(quit.state, later) == StateView::Closed
            &&& next(state_after(quit.state, later), event) == closing()
        }),
    decreases later.len(),
{
    if later.len() > 0 {
        lemma_nothing_follows_quit(session, raw, later.drop_last(), later.last());
    }
}

/// The end of the stream and a failure end a connection in every state,
/// without a word.
pub proof fn lemma_broken_stream_closes(state: StateView, event: EventView)
    requires
        event is EndOfStream || event is Failed,
    ensures
        next(state, event) == closing(),
{
}

/// A command is handed on for the store only in the command loop, and the
/// loop goes on with the session it had.
pub proof fn lemma_commands_need_a_session(state: StateView, event: EventView)
    requires
        next(state, event).action is Execute,
    ensures
        state is Commands,
        next(state, event).state == state,
{
}

} // verus!
