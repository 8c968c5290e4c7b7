//! Wire types of a reactive-query sync protocol: a self-describing value
//! model with a canonical JSON encoding, and the client and server messages
//! built on it.

pub mod encoding;
pub mod error;
pub mod json;
pub mod value;
pub mod types;
pub mod identity;
pub mod client;
pub mod server;
