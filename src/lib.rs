//! A SOCKS5 proxy core: wire codec, connection filtering rules, the
//! per-connection session state machine and the supervisor's session table.
//! Socket I/O, threads and configuration loading live outside this library.

pub mod codec;
pub mod config;
pub mod error;
pub mod lifecycle;
pub mod model;
pub mod pattern;
pub mod raw_message;
pub mod registry;
pub mod rule;
pub mod session;
pub mod stream;
