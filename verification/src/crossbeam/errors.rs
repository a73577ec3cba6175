//! The errors that the channels of this crate report.

use vstd::prelude::*;

verus! {

/// A message could not be received: the channel is empty and every sender
/// is gone.
#[derive(Clone, Copy, Debug, PartialEq, Eq, Structural)]
pub struct RecvError;

/// A message could not be received without waiting.
#[derive(Clone, Copy, Debug, PartialEq, Eq, Structural)]
pub enum TryRecvError {
    /// Nothing is pending now.
    Empty,
    /// Nothing is pending and every sender is gone.
    Disconnected,
}

/// A message could not be sent without waiting; the message is handed back.
#[derive(Clone, Copy, Debug, PartialEq, Eq)]
pub enum TrySendError<T> {
    /// The channel is full.
    Full(T),
    /// The receiving side is gone.
    Disconnected(T),
}

} // verus!
