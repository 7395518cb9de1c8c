//! What the channel operations report when they cannot do their work.

use vstd::prelude::*;
use vstd::string::*;

verus! {

/// Error returned by [`BoundedSender::try_send`].
///
/// A bounded broadcast channel is lossless, so a publication that would exceed the requested
/// capacity is rejected rather than displacing a retained message. The message that could not be
/// sent can be retrieved again with [`TrySendError::into_inner`]. It is never shown: the text for
/// programmers is [`TrySendError::debug_text`], and there is no other.
///
/// [`BoundedSender::try_send`]: crate::broadcast::spmc::BoundedSender::try_send
#[derive(Clone, PartialEq, Eq)]
pub enum TrySendError<T> {
    /// The shared backlog is at capacity, so the message cannot be sent without waiting for the
    /// slowest active receiver to release a retained message.
    Full(T),
}

/// Error returned by `recv`.
#[derive(Clone, Debug, PartialEq, Eq)]
pub enum RecvError {
    /// The sender has been dropped, and this receiver has no remaining messages.
    Disconnected,
}

/// Error returned by `try_recv`.
#[derive(Clone, Debug, PartialEq, Eq)]
pub enum TryRecvError {
    /// No message is currently available, but the sender remains.
    Empty,
    /// The sender has been dropped, and this receiver has no remaining messages.
    Disconnected,
}

impl<T> TrySendError<T> {
    /// Gets a reference to the message that failed to be sent.
    pub fn as_inner(&self) -> (msg: &T)
        ensures
            *self == TrySendError::Full(*msg),
    {
        match self {
            TrySendError::Full(msg) => msg,
        }
    }

    /// Consumes the error and returns the message that failed to be sent.
    pub fn into_inner(self) -> (msg: T)
        ensures
            self == TrySendError::Full(msg),
    {
        match self {
            TrySendError::Full(msg) => msg,
        }
    }

    /// The text shown to users.
    pub fn to_string(&self) -> (text: String)
        ensures
            text@ == "sending on a full channel"@,
    {
        "sending on a full channel".to_owned()
    }

    /// The text shown to programmers, which names the message type and hides the message.
    pub fn debug_text(&self, payload_type: &str) -> (text: String)
        ensures
            text@ == "TrySendError<"@ + payload_type@ + ">::Full(..)"@,
    {
        let mut text = "TrySendError<".to_owned();
        text.append(payload_type);
        text.append(">::Full(..)");
        text
    }
}

impl RecvError {
    /// The text shown to users.
    pub fn to_string(&self) -> (text: String)
        ensures
            text@ == "receiving on a disconnected channel"@,
    {
        "receiving on a disconnected channel".to_owned()
    }
}

impl TryRecvError {
    /// The text shown to users.
    pub fn to_string(&self) -> (text: String)
        ensures
            text@ == match self {
                TryRecvError::Empty => "receiving on an empty channel"@,
                TryRecvError::Disconnected => "receiving on a disconnected channel"@,
            },
    {
        match self {
            TryRecvError::Empty => "receiving on an empty channel".to_owned(),
            TryRecvError::Disconnected => "receiving on a disconnected channel".to_owned(),
        }
    }
}

} // verus!
