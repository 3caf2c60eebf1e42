//! Terminal session persistence: the message framing spoken between client
//! and daemon, the replay buffer the daemon keeps, and the decisions the
//! daemon and client make on each event.

pub mod protocol;
pub mod scrollback;
pub mod keys;
pub mod client;
pub mod session;
pub mod text;
pub mod shell;
pub mod control;
