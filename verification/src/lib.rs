//! The core of a reverse tunnel proxy, without its sockets.
//!
//! A client behind a firewall keeps one control connection to a server
//! that faces the public. The server takes connections from local
//! applications through a SOCKS5 front end and asks the client, over the
//! control connection, to reach the destinations; bytes then pass between
//! the application and the destination through a pair of sockets.
//!
//! This crate holds what is decided along the way, as functions on bytes
//! and on plain state, each with a contract that is checked by Verus:
//!
//! - [`wire`]: integers and strings on the wire;
//! - [`frame`]: frames, a reader that gives them whole, a queue that
//!   writes them whole;
//! - [`message`]: the messages that frames carry;
//! - [`conn`]: the tables of a multiplexed connection, which tie each
//!   response to its request and each request to its handler;
//! - [`registry`]: which connection speaks for which client;
//! - [`tunnel`]: the life of tunnels and of their data channels;
//! - [`relay`]: what to do with what the two sockets of a data channel
//!   give;
//! - [`socks5`]: the handshake of the front end;
//! - [`channel`]: the channel notices and their layout;
//! - [`address`]: where a tunnel leads.
//!
//! Reading and writing sockets, waiting and timing are left to the
//! program around the crate.

pub mod address;
pub mod channel;
pub mod conn;
pub mod frame;
pub mod message;
pub mod registry;
pub mod relay;
pub mod socks5;
pub mod tunnel;
pub mod wire;
