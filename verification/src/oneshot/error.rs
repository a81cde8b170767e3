//! Oneshot error types.

use vstd::prelude::*;

verus! {

/// Error returned when awaiting a value on a channel that can no longer
/// deliver one.
#[derive(Debug, Eq, PartialEq, Structural)]
pub struct RecvError;

/// Error returned by the `try_recv` function on `Receiver`.
#[derive(Debug, Eq, PartialEq, Structural)]
pub enum TryRecvError {
    /// The send half of the channel has not yet sent a value.
    Empty,
    /// The send half of the channel was dropped without sending a value.
    Closed,
}

impl RecvError {
    /// A short description of the error.
    pub fn message(&self) -> (s: &'static str)
        ensures
            s@ == "channel closed"@,
    {
        "channel closed"
    }
}

impl TryRecvError {
    /// A short description of the error.
    pub fn message(&self) -> (s: &'static str)
        ensures
            self is Empty ==> s@ == "channel empty"@,
            self is Closed ==> s@ == "channel closed"@,
    {
        match self {
            TryRecvError::Empty => "channel empty",
            TryRecvError::Closed => "channel closed",
        }
    }
}

} // verus!
