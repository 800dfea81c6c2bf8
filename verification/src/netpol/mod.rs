//! Network policies: their model, how they become address sets and filter rules, and the
//! order in which a sync applies them.

pub mod controller;
pub mod ipset;
pub mod iptables;
pub mod laws;
pub mod model;
pub mod naming;
pub mod packet_laws;
pub mod peer_laws;
pub mod plan_laws;
pub mod sync_laws;
pub mod synth;
pub mod translate;
