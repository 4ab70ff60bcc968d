//! Verified core of a SOCKS5 proxy that tunnels TCP sessions over Reticulum
//! links: the multiplexing frame protocol, stream reassembly, the session
//! table, the connect payload, the server address format and the decisions
//! of the client and server event loops.

pub mod frame;
pub mod stream;
pub mod payload;
pub mod address;
pub mod event;
pub mod mux;
pub mod reconnect;
pub mod client;
pub mod socks;
pub mod server;
pub mod identity;
pub mod cli;
pub mod relay;
