//! A line-delimited JSON-RPC core for driving worker processes ("peers")
//! over their standard streams: a message model that classifies decoded
//! wire lines and validates outgoing messages, a framer that turns
//! messages into complete newline-terminated frames and back, a registry
//! of live peers with stable ids, and the initialize handshake.

pub mod client;
pub mod framer;
pub mod json;
pub mod jsonrpc;
pub mod messages;
pub mod methods;
pub mod registry;
pub mod trusted;
