//! A verified client core for a game server's status protocol: the
//! variable-length integer codec, the framed response reader with its
//! failure taxonomy, and the metrics text the decoded status is rendered as.
//! Network and HTTP plumbing live outside the library and drive the
//! session state machine in `scan`.

pub mod error;
pub mod frame;
pub mod metrics;
pub mod scan;
pub mod status;
pub mod varint;
