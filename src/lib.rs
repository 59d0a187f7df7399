//! Core of a group chat broker: wire messages, per-client mailboxes with
//! non-blocking backpressure, chat groups that fan messages out to their
//! members, the registry of groups by name, the per-connection request
//! handling and the client's command grammar.

pub mod protocol;
pub mod mailbox;
pub mod group;
pub mod groups;
pub mod session;
pub mod command;
