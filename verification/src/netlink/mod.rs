//! Kernel routes, addresses and links: what is kept of them, the commands that set them, and when
//! a failed operation is tried again.

pub mod laws;
pub mod retry;
pub mod routes;
pub mod system;
