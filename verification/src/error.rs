//! The errors of the core.

use vstd::prelude::*;

use crate::text::push_text;

verus! {

/// Errors surfaced by the core engine, device discovery, and safety gate.
#[derive(Debug)]
pub enum CoreError {
    /// An underlying I/O error, by its message.
    Io(String),
    /// A locked disk was passed to the engine (name, reason).
    DiskLocked(String, String),
    /// The safety gate was built with no disks selected.
    NothingSelected,
    /// The typed confirmation phrase did not match.
    PhraseMismatch,
    /// A state-machine method was called from an invalid state.
    InvalidState,
}

impl CoreError {
    /// The message of an error.
    pub open spec fn message_spec(&self) -> Seq<char> {
        match self {
            CoreError::Io(e) => "I/O error: "@ + e@,
            CoreError::DiskLocked(name, reason) => "disk "@ + name@ + " is locked ("@ + reason@
                + ") and can never be wiped in this session"@,
            CoreError::NothingSelected => "no disks selected"@,
            CoreError::PhraseMismatch => "confirmation phrase does not match"@,
            CoreError::InvalidState => "operation not valid in the current state"@,
        }
    }

    /// The message shown to the operator.
    pub fn message(&self) -> (s: String)
        ensures
            s@ == self.message_spec(),
    {
        match self {
            CoreError::Io(e) => {
                let mut s = "I/O error: ".to_owned();
                push_text(&mut s, e.as_str());
                s
            },
            CoreError::DiskLocked(name, reason) => {
                let mut s = "disk ".to_owned();
                push_text(&mut s, name.as_str());
                push_text(&mut s, " is locked (");
                push_text(&mut s, reason.as_str());
                push_text(&mut s, ") and can never be wiped in this session");
                s
            },
            CoreError::NothingSelected => "no disks selected".to_owned(),
            CoreError::PhraseMismatch => "confirmation phrase does not match".to_owned(),
            CoreError::InvalidState => "operation not valid in the current state".to_owned(),
        }
    }
}

} // verus!
