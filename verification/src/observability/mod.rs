//! Health, the HTTP endpoints that show it, the published series, and the verbosity of logs.

pub mod health;
pub mod http;
pub mod laws;
pub mod logging;
pub mod metrics;
