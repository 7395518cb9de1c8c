//! What the benchmarks repeat.
//!
//! A benchmark runs one step over and over on the same channel, so a step has to leave the channel
//! as it found it: the backlog where it was, and nothing parked that was not parked before. A step
//! that left a message behind would grow the backlog without end, or wedge the producer at its
//! capacity.

pub mod adapters;
pub mod bounded;
pub mod ecosystem;
pub mod shapes;
pub mod steady;
pub mod unbounded;

pub use self::adapters::Asyncband;
pub use self::adapters::BoundedBroadcastSpmc;
pub use self::adapters::BroadcastSpmc;
pub use self::shapes::BoundedShape;
