//! Sends a Bitcoin transaction to a node over the peer-to-peer protocol.
//!
//! After the version handshake an `inv` message announces the transaction, by
//! its txid or by its wtxid, and a `getdata` message is awaited. Once the
//! transaction has gone out in a `tx` message there is nothing left to do. A
//! node that already has the transaction does not ask for it.
//!
//! This crate holds what is decided and computed on the way: [`MessageLoop`]
//! is told of what came in and says what to write and when to read. The sockets
//! are left to its users.
//!
//! [`MessageLoop`]: message_loop::MessageLoop

pub mod answers;
pub mod clock;
pub mod config;
pub mod decode;
pub mod decode_laws;
pub mod error;
pub mod exchange_laws;
pub mod laws;
pub mod message;
pub mod message_handler;
pub mod message_loop;
pub mod outside;
pub mod reader;
pub mod round_trip;
pub mod stream_laws;
pub mod transaction;
pub mod version;
pub mod wire;

pub use config::Config;
pub use error::Error;
