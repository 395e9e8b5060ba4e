//! Market data of the XMR/BTC atomic-swap network.
//!
//! Makers advertise one quote each. This library turns the quotes that a
//! collector has gathered into the responses of a small REST API, and holds the
//! rules by which the collector reaches the network: which rendezvous addresses
//! it may use, and how it asks a SOCKS5 proxy for a connection.
pub mod address;
pub mod api;
pub mod base58;
pub mod handshake;
pub mod laws;
pub mod onion;
pub mod quote;
pub mod ranking;
pub mod rendezvous;
pub mod socks;
pub mod status;
pub mod time;
pub mod version;
