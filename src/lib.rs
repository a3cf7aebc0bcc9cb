//! Resolution of cleanup profiles into the exact paths to delete, and the
//! accounting of recursive removal.

pub mod order;
pub mod ranking;
pub mod profile;
pub mod removal;
pub mod prompt;
