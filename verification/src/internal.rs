//! Building blocks that are not tied to one kind of channel or task.

pub mod arena;
pub mod text;
