//! A poll-dedupe-forward pipeline for a notification feed.
//!
//! The library holds the verified core of a daemon that polls a remote
//! notification feed, filters previously unseen unread items, forwards each as
//! a formatted message, and durably records which items were forwarded so that
//! restarts never re-deliver them. I/O itself (HTTP, SQL, signals) lives
//! outside; this crate states and proves the decisions: cursor advancement,
//! ordering, filtering, dedup bookkeeping, and the cycle state machines.

pub mod config;
pub mod cycle;
pub mod dispatch;
pub mod errors;
pub mod fetch;
pub mod machine;
pub mod notification;
pub mod scheduler;
pub mod store;
pub mod strutil;
