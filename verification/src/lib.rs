//! Request framing and the per-connection forwarding state machine of a
//! small HTTP/1.x proxy with one fixed upstream.

pub mod client_buffer;
pub mod connection;
pub mod http_parser;
pub mod lifecycle;
pub mod lifecycle_proofs;
pub mod wire;
