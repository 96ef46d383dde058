//! An in-process key-value cache with a single writer.
//!
//! Producers submit mutation messages over a channel; one listener drains the
//! channel and applies each message to the store under a lock, while readers
//! take independent snapshots of the store.

pub mod datastore;
pub mod laws;
pub mod models;
pub mod op;
pub mod request;
pub mod store;
