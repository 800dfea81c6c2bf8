//! Load-balancer addresses: pools, the services that ask for an address, what is assigned to
//! whom, and the election of the one instance that assigns.

pub mod allocate;
pub mod controller;
pub mod election;
pub mod laws;
pub mod model;
pub mod pools;
