//! Single-producer broadcast channels.
//!
//! A channel is a value: [`BoundedChannel`] retains at most a fixed number of messages and turns
//! the producer away, or parks it, at that limit; [`UnboundedChannel`] never makes the producer
//! wait. The handles that [`bounded`] and [`unbounded`] return act on the channel they are given.

pub mod backlog;
pub mod bounded;
pub mod common;
pub mod effects;
pub mod error;
pub mod laws;
pub mod log;
pub mod unbounded;

pub use self::bounded::bounded;
pub use self::bounded::BoundedChannel;
pub use self::bounded::BoundedReceiver;
pub use self::bounded::BoundedSender;
pub use self::error::RecvError;
pub use self::error::TryRecvError;
pub use self::error::TrySendError;
pub use self::unbounded::unbounded;
pub use self::unbounded::UnboundedChannel;
pub use self::unbounded::UnboundedReceiver;
pub use self::unbounded::UnboundedSender;
