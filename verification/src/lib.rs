//! Engine registry, command templating and a message exchange for driving
//! external search programs asynchronously.
//!
//! The crate models named engines (external executables invoked with
//! templated command-line arguments), validates and renders argument
//! templates, resolves the exact process invocation for a command, and
//! provides a mailbox plus a dispatcher step that decouple request
//! producers from asynchronous execution and response delivery.

pub mod config;
pub mod dispatch;
pub mod engine;
pub mod mailbox;
pub mod manager;
pub mod template;
