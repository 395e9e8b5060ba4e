//! What holds of the library's functions, told by what they take and what they return.
//!
//! A law speaks of calls: `call_ensures(f, arguments, result)` says that `f` may return
//! `result` when it is called with `arguments`.
pub mod orderbook;
pub mod rendezvous;
pub mod snapshot;
pub mod socks;
pub mod status;
pub mod text;
