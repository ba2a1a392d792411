//! An interactive terminal over WebSocket.
//!
//! A browser WebSocket is bridged to the PTY of a shell inside a running
//! sandbox. The daemon there, envd, speaks Connect-RPC and is reached through
//! the sandbox proxy by the name of its host.
//!
//! This crate takes the decisions; it does no I/O. A service around it
//! accepts connections, sends requests and runs timers, hands in what came of
//! them and does what it is told:
//!
//! - [`headers`], [`handshake`] and [`rate_limit`] read a request: its
//!   credential, its origin, its subprotocols and its rate-limit bucket.
//! - [`auth`], [`sessions`] and [`admission`] decide whether a handshake is
//!   upgraded, and how it is answered where it is not.
//! - [`connect`], [`json`] and [`envd`] speak with the daemon.
//! - [`session`] runs a terminal from the Start request to its teardown.
//! - [`config`], [`error`], [`messages`], [`outbound`], [`audit`] and
//!   [`strings`] hold what these share.

pub mod admission;
pub mod audit;
pub mod auth;
pub mod config;
pub mod connect;
pub mod envd;
pub mod error;
pub mod handshake;
pub mod headers;
pub mod json;
pub mod messages;
pub mod outbound;
pub mod rate_limit;
pub mod session;
pub mod sessions;
pub mod strings;
