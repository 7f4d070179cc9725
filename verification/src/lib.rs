//! An HTTP reverse tunnel: a server gives a client a public subdomain and sends the requests
//! for it, over one connection that the client opened, to a service next to the client.
//!
//! This crate decides; it does no input or output. The server's tables, the rules for
//! headers and hosts, the prelude of the data plane, the WebSocket handshake and the pacing of
//! bodies stand here. What awaits a socket is written as a step from a state and an event to
//! the next state and an action, for a caller to perform.

pub mod auth;
pub mod client;
pub mod data_conn;
pub mod headers;
pub mod host;
pub mod install;
pub mod lifecycle;
pub mod names;
pub mod outside;
pub mod proto;
pub mod proxy;
pub mod pump;
pub mod reply;
pub mod state;
pub mod text;
pub mod websocket;
