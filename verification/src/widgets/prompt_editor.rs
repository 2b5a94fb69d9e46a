//! The prompt editor: a text buffer that grows and shrinks at its end.

use crate::input::{Action, InputHandler, KeyCode, KeyEvent};
use vstd::prelude::*;

verus! {

/// `String::push` appends the given character to the end of the string.
pub assume_specification[ String::push ](text: &mut String, ch: char)
    ensures
        final(text)@ == old(text)@.push(ch),
;

/// `String::pop` removes the last character and returns it, or returns `None`
/// and leaves the string as it is when it is empty.
pub assume_specification[ String::pop ](text: &mut String) -> (last: Option<char>)
    ensures
        old(text)@.len() == 0 ==> last is None && final(text)@ == old(text)@,
        old(text)@.len() > 0 ==> last == Some(old(text)@.last()) && final(text)@ == old(
            text,
        )@.drop_last(),
;

/// The buffer after a key press: a character is appended, Enter appends a
/// line feed, Backspace removes the last character if there is one. Every
/// other key changes nothing.
pub open spec fn text_after(text: Seq<char>, code: KeyCode) -> Seq<char> {
    match code {
        KeyCode::Char(c) => text.push(c),
        KeyCode::Backspace => if text.len() > 0 {
            text.drop_last()
        } else {
            text
        },
        KeyCode::Enter => text.push('\n'),
        KeyCode::Other => text,
    }
}

/// State of the prompt editor.
pub struct State {
    prompt_text: String,
}

impl View for State {
    type V = Seq<char>;

    closed spec fn view(&self) -> Seq<char> {
        self.prompt_text@
    }
}

impl State {
    /// An editor with an empty buffer.
    pub fn new() -> (state: State)
        ensures
            state@ == Seq::<char>::empty(),
    {
        State { prompt_text: String::new() }
    }

    /// The whole buffer.
    pub fn get_display_text(&self) -> (text: &str)
        ensures
            text@ == self@,
    {
        self.prompt_text.as_str()
    }
}

impl Default for State {
    fn default() -> (state: State)
        ensures
            state@ == Seq::<char>::empty(),
    {
        State::new()
    }
}

impl InputHandler for State {
    fn process_key(&mut self, input: KeyEvent) -> (action: Option<Action>)
        ensures
            action is None,
            final(self)@ == text_after(old(self)@, input.code),
    {
        match input.code {
            KeyCode::Char(c) => {
                self.prompt_text.push(c);
                None
            },
            KeyCode::Backspace => {
                self.prompt_text.pop();
                None
            },
            KeyCode::Enter => {
                self.prompt_text.push('\n');
                None
            },
            _ => None,
        }
    }

    fn process_tick(&mut self)
        ensures
            *final(self) == *old(self),
    {
    }
}

/// Backspace undoes the key press before it: a character or Enter followed
/// by Backspace leaves the buffer as it was.
pub proof fn lemma_backspace_undoes_insert(text: Seq<char>, code: KeyCode)
    requires
        code is Char || code is Enter,
    ensures
        text_after(text_after(text, code), KeyCode::Backspace) == text,
{
    let ch = match code {
        KeyCode::Char(c) => c,
        _ => '\n',
    };
    assert(text.push(ch).drop_last() =~= text);
}

} // verus!
