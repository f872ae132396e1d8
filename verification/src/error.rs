//! Modal error dialog: holds an optional message, set by the shell and
//! rendered centred over the other widgets. It consumes no input; the
//! shell owns dismissal.

use vstd::prelude::*;

use crate::events::{CommandInfo, EventState, Key};

verus! {

pub struct ErrorComponent {
    pub error: Option<String>,
}

impl Default for ErrorComponent {
    /// A fresh dialog shows no message.
    fn default() -> (c: Self)
        ensures
            c.error is None,
    {
        Self { error: None }
    }
}

impl ErrorComponent {
    /// Replace the displayed message.
    pub fn set(&mut self, error: String)
        ensures
            final(self).error == Some(error),
    {
        self.error = Some(error);
    }

    /// The dialog is advisory-only: it consumes no key, and dismissal
    /// is driven by the shell.
    pub fn event(&mut self, _key: Key) -> (r: EventState)
        ensures
            *final(self) == *old(self),
            r == EventState::NotConsumed,
    {
        EventState::NotConsumed
    }

    /// Widgets register the commands they answer to; the dialog
    /// registers none.
    pub fn commands(&self, out: &mut Vec<CommandInfo>)
        ensures
            *final(out) == *old(out),
    {
    }
}

} // verus!
