//! Incremental mailbox watcher: OAuth2 credential lifecycle, a retry-once
//! authorization policy, cursor-based history pagination, and the
//! normalization of message details into labeled arrival events.

pub mod views;
pub mod auth;
pub mod transport;
pub mod history;
pub mod address;
pub mod message;
pub mod cycle;
