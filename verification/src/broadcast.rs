//! Broadcast channels grouped by producer topology.
//!
//! [`spmc`] has one producer: its sender cannot be cloned and its publish methods require
//! exclusive access. Every accepted value is delivered to every active subscription.

pub mod spmc;
