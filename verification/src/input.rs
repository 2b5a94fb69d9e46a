//! Key presses as the widgets see them, and the commands they give back.

use vstd::prelude::*;

verus! {

/// A command that ends the interactive loop.
#[derive(Clone, Copy, Debug, PartialEq, Eq, Structural)]
pub enum Action {
    Send,
    Quit,
}

/// The code of a decoded key press: a character, one of the named keys that
/// the widgets react to, or any other key.
#[derive(Clone, Copy, Debug, PartialEq, Eq, Structural)]
pub enum KeyCode {
    Char(char),
    Enter,
    Backspace,
    Other,
}

/// A decoded key press: its code, and whether the control modifier was held.
#[derive(Clone, Copy, Debug, PartialEq, Eq, Structural)]
pub struct KeyEvent {
    pub code: KeyCode,
    pub control: bool,
}

impl KeyEvent {
    /// A key press without a modifier.
    pub fn plain(code: KeyCode) -> (key: KeyEvent)
        ensures
            key == (KeyEvent { code, control: false }),
    {
        KeyEvent { code, control: false }
    }

    /// A key press with the control modifier held.
    pub fn with_control(code: KeyCode) -> (key: KeyEvent)
        ensures
            key == (KeyEvent { code, control: true }),
    {
        KeyEvent { code, control: true }
    }
}

/// What every widget, and the router above them, answers to: a key press,
/// which may yield an [`Action`], and the scheduler's periodic tick.
pub trait InputHandler {
    fn process_key(&mut self, input: KeyEvent) -> Option<Action>;

    fn process_tick(&mut self);
}

} // verus!
