//! The node that keeps identities and messages for members who are away.
pub mod config;
pub mod laws;
pub mod mailbox;
pub mod protocol;
pub mod server;
pub mod store;
