//! Incremental mirror of a remote issue tracker into a relational store.
//!
//! The library holds the decisions of one synchronisation pass: how a
//! collection is paged through, how wire records become rows, in which
//! order rows are written and what is reported when a step fails.  Network
//! and storage traffic is performed by the caller, which feeds each answer
//! back into the state machines defined here.

pub mod config;
pub mod domain;
pub mod error;
pub mod github;
pub mod text;
pub mod time;
