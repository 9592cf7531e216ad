//! Session state and settings.
//!
//! The session owns all mutable state of the interactive loop: the current
//! interaction context and the persisted settings. Handlers receive it by
//! reference for the duration of one command.

use vstd::prelude::*;
use vstd::string::StringExecFns;

verus! {

/// The interaction context the user is currently "inside".
///
/// `Repo(name)` is only entered through a transition that checked `name`
/// against the inventory at transition time; it is not re-validated later,
/// so an inventory change while inside `Repo` is a recognized inconsistency
/// window.
#[derive(Debug)]
pub enum State {
    Home,
    Repo(String),
    Config,
}

/// The mathematical value of a [`State`].
pub enum StateView {
    Home,
    Repo(Seq<char>),
    Config,
}

impl View for State {
    type V = StateView;

    open spec fn view(&self) -> StateView {
        match self {
            State::Home => StateView::Home,
            State::Repo(n) => StateView::Repo(n@),
            State::Config => StateView::Config,
        }
    }
}

/// The user's persisted settings: loaded once at startup, mutated in place
/// by `set` commands, persisted in full after each mutation.
#[derive(Debug)]
pub struct Settings {
    pub api_key: String,
    pub username: String,
    pub project_path: String,
}

/// The mathematical value of a [`Settings`].
pub struct SettingsView {
    pub api_key: Seq<char>,
    pub username: Seq<char>,
    pub project_path: Seq<char>,
}

impl View for Settings {
    type V = SettingsView;

    open spec fn view(&self) -> SettingsView {
        SettingsView {
            api_key: self.api_key@,
            username: self.username@,
            project_path: self.project_path@,
        }
    }
}

/// All mutable state owned by the session loop.
#[derive(Debug)]
pub struct Session {
    pub state: State,
    pub settings: Settings,
}

/// The mathematical value of a [`Session`].
pub struct SessionView {
    pub state: StateView,
    pub settings: SettingsView,
}

impl View for Session {
    type V = SessionView;

    open spec fn view(&self) -> SessionView {
        SessionView { state: self.state@, settings: self.settings@ }
    }
}

/// The prompt text that reflects a context.
pub open spec fn spec_prompt(s: StateView) -> Seq<char> {
    match s {
        StateView::Home => "<Git> "@,
        StateView::Repo(n) => "<"@ + n + "> "@,
        StateView::Config => "<config> "@,
    }
}

impl State {
    /// The prompt text for this context.
    pub fn prompt(&self) -> (r: String)
        ensures
            r@ == spec_prompt(self@),
    {
        match self {
            State::Home => String::from_str("<Git> "),
            State::Repo(n) => {
                let mut p = String::from_str("<");
                p.append(n.as_str());
                p.append("> ");
                p
            },
            State::Config => String::from_str("<config> "),
        }
    }
}

} // verus!
