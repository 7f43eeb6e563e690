//! The rows of the mirror.

pub mod github;
