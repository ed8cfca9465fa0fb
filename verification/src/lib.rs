//! Protocol logic of a small FTP server: command parsing, reply texts,
//! virtual path resolution and the per-connection command state machine.
pub mod text;
pub mod ftp_responses;
pub mod commands;
pub mod paths;
pub mod user_session;
pub mod errors;
pub mod client;
pub mod listing;
pub mod laws;
pub mod listener;
