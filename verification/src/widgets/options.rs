//! The options bar: a choice between sending the prompt and quitting.

use crate::input::{Action, InputHandler, KeyCode, KeyEvent};
use vstd::prelude::*;

verus! {

/// One of the two options of the bar.
#[derive(Clone, Copy, Debug, PartialEq, Eq, Structural)]
pub enum AppOption {
    Send,
    Quit,
}

/// The action that committing an option yields.
pub open spec fn action_of(option: AppOption) -> Action {
    match option {
        AppOption::Send => Action::Send,
        AppOption::Quit => Action::Quit,
    }
}

/// The option selected after a key press: `h` moves to Send, `l` moves to
/// Quit, every other key leaves the selection where it is.
pub open spec fn option_after(option: AppOption, code: KeyCode) -> AppOption {
    match code {
        KeyCode::Char(c) => if c == 'h' {
            AppOption::Send
        } else if c == 'l' {
            AppOption::Quit
        } else {
            option
        },
        _ => option,
    }
}

/// What a key press yields: Enter commits the selected option, every other
/// key yields nothing.
pub open spec fn action_on(option: AppOption, code: KeyCode) -> Option<Action> {
    match code {
        KeyCode::Enter => Some(action_of(option)),
        _ => None,
    }
}

/// State of the options bar.
pub struct State {
    selected_option: AppOption,
}

impl View for State {
    type V = AppOption;

    closed spec fn view(&self) -> AppOption {
        self.selected_option
    }
}

impl State {
    /// A bar with Send selected.
    pub fn new() -> (state: State)
        ensures
            state@ == AppOption::Send,
    {
        State { selected_option: AppOption::Send }
    }

    /// The option that is selected now.
    pub fn selected_option(&self) -> (option: AppOption)
        ensures
            option == self@,
    {
        self.selected_option
    }
}

impl Default for State {
    fn default() -> (state: State)
        ensures
            state@ == AppOption::Send,
    {
        State::new()
    }
}

impl InputHandler for State {
    fn process_key(&mut self, input: KeyEvent) -> (action: Option<Action>)
        ensures
            final(self)@ == option_after(old(self)@, input.code),
            action == action_on(old(self)@, input.code),
    {
        match input.code {
            KeyCode::Char('h') => {
                self.selected_option = AppOption::Send;
                None
            },
            KeyCode::Char('l') => {
                self.selected_option = AppOption::Quit;
                None
            },
            KeyCode::Enter => {
                match self.selected_option {
                    AppOption::Send => Some(Action::Send),
                    AppOption::Quit => Some(Action::Quit),
                }
            },
            _ => None,
        }
    }

    fn process_tick(&mut self)
        ensures
            *final(self) == *old(self),
    {
    }
}

/// Navigation never commits: only Enter yields an action, and Enter leaves
/// the selection as it is.
pub proof fn lemma_navigation_yields_nothing(option: AppOption, code: KeyCode)
    ensures
        code != KeyCode::Enter ==> action_on(option, code) is None,
        code == KeyCode::Enter ==> option_after(option, code) == option,
{
}

} // verus!
