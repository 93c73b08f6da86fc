//! The protocol core of a proxy that speaks HTTP to its clients and SOCKS5 to
//! the server behind it.
//!
//! Nothing in this crate touches a socket. A connection is a state machine
//! that is told of events and answers with what is to be done; whoever owns
//! the sockets reads, writes and closes as it says.
//!
//! - `config`: credentials and the configuration they come from.
//! - `http`: finding, parsing and authorizing the client's request, and the
//!   responses that the proxy writes itself.
//! - `socks5`: the messages of the SOCKS5 client.
//! - `session`: the SOCKS5 handshake as a state machine.
//! - `relay`: the pump that carries bytes once the tunnel stands.
//! - `connection`: one proxied connection, from request to relay.
//! - `laws`: what holds of every connection.
//! - `shutdown`: the shutdown signal and the decisions of the accept loop.
//! - `event`, `error`: what the state machines take, give and end with.
//! - `addr`, `base64`, `bytes`: addresses in text form, Base64, byte strings.

pub mod addr;
pub mod base64;
pub mod bytes;
pub mod config;
pub mod connection;
pub mod error;
pub mod event;
pub mod http;
pub mod laws;
pub mod relay;
pub mod session;
pub mod shutdown;
pub mod socks5;
