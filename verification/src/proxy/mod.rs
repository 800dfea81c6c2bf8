//! The service proxy.

pub mod model;
