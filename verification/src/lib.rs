//! Decision logic of a local IPC transport that runs over Unix domain sockets
//! or Windows named pipes.
//!
//! The operating-system work (binding, accepting, opening, sleeping, reading
//! and writing) belongs to the caller. This crate holds what the transport
//! decides: how a pipe instance is configured, which instance reserves the
//! name, what a listener hands out after an accept, when a dial is retried
//! and when it gives up, and which permission bits a socket file gets.

pub mod connection;
pub mod dial;
pub mod endpoint;
pub mod incoming;
pub mod permissions;

pub use connection::Connection;
pub use endpoint::IpcEndpoint;
pub use incoming::Incoming;
pub use permissions::socket_mode;
pub use endpoint::PipeOptions;
