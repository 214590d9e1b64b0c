//! Remote control of one long-running server process: the wire protocol, the
//! one-time tokens, the lifecycle state machine and the backup retention rule.
pub mod backups;
pub mod client;
pub mod common;
pub mod net;
pub mod server_state;
pub mod tokens;
