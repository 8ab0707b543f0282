//! A yes-or-no prompt: `y` confirms, `n` closes, any other key is ignored.

use crate::input::{Key, KeyEvent};
use vstd::prelude::*;

verus! {

/// The answer to a prompt. A prompt that was never answered counts as closed.
#[derive(Clone, Copy, Debug, PartialEq, Eq, Structural)]
pub enum ConfirmState {
    Confirmed,
    Closed,
}

/// A prompt and the answer given to it so far.
#[derive(Debug)]
pub struct ConfirmViewer {
    pub prompt: String,
    pub state: ConfirmState,
    pub should_quit: bool,
}

/// The answer and whether the prompt is done, after a key event.
pub open spec fn confirm_after(state: ConfirmState, done: bool, event: KeyEvent) -> (
    ConfirmState,
    bool,
) {
    if !event.pressed {
        (state, done)
    } else if event.key == Key::Char('n') {
        (ConfirmState::Closed, true)
    } else if event.key == Key::Char('y') {
        (ConfirmState::Confirmed, true)
    } else {
        (state, done)
    }
}

impl ConfirmViewer {
    /// A prompt that has not been answered.
    pub fn new(prompt: String) -> (out: Self)
        ensures
            out.prompt == prompt,
            out.state == ConfirmState::Closed,
            !out.should_quit,
    {
        ConfirmViewer { prompt, should_quit: false, state: ConfirmState::Closed }
    }

    /// The answer so far.
    pub fn state(&self) -> (out: &ConfirmState)
        ensures
            *out == self.state,
    {
        &self.state
    }

    /// Takes a key event: `y` confirms and `n` closes, and either ends the
    /// prompt.
    pub fn handle_event(&mut self, event: &KeyEvent)
        ensures
            final(self).prompt == old(self).prompt,
            (final(self).state, final(self).should_quit) == confirm_after(
                old(self).state,
                old(self).should_quit,
                *event,
            ),
    {
        if !event.pressed {
            return ;
        }
        match event.key {
            Key::Char('n') => {
                self.state = ConfirmState::Closed;
                self.should_quit = true;
            },
            Key::Char('y') => {
                self.state = ConfirmState::Confirmed;
                self.should_quit = true;
            },
            _ => {},
        }
    }

    /// Whether the prompt has been answered.
    pub fn should_quit(&self) -> (b: bool)
        ensures
            b == self.should_quit,
    {
        self.should_quit
    }
}

} // verus!
