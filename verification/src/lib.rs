//! Lossless single-producer broadcast channels, and the release tooling that ships with them.
//!
//! The channels live in [`broadcast::spmc`], or [`channels`] for short. The state of a channel is
//! an ordinary value, and the sender and the receivers are handles that act on it. Sharing that
//! value between threads and parking tasks is left to the program around the library.
//!
//! [`tasks`] decides what the maintenance commands of the workspace run, and whether a planned
//! release is compatible with the last one. [`workloads`] holds what the benchmarks repeat.

pub mod broadcast;
pub mod internal;
pub mod tasks;
pub mod workloads;

pub use self::broadcast::spmc as channels;
