//! BGP: paths and their wire messages, peers, prefix sets, and the daemon that speaks the
//! protocol.

pub mod engine;
pub mod grpc;
pub mod laws;
pub mod path;
pub mod policy;
pub mod server;
