//! What the routing controller asks of a BGP speaker.

use vstd::prelude::*;

use crate::ip::IpAddr;
use crate::text::cat2;

verus! {

/// The speaker's own configuration.
#[derive(Debug, Clone)]
pub struct GlobalConfig {
    /// Own AS number.
    pub asn: u32,
    /// Router id.
    pub router_id: Option<String>,
    /// Port to listen on.
    pub listen_port: u32,
    /// Addresses to listen on.
    pub listen_addresses: Vec<IpAddr>,
}

/// How a restart of the speaker is bridged.
#[derive(Debug, Clone, Copy, PartialEq, Eq, Structural)]
pub struct GracefulRestart {
    /// Announced restart time in seconds.
    pub restart_time_secs: u32,
    /// Time before best paths are chosen after a restart, in seconds.
    pub deferral_time_secs: u32,
}

/// A neighbour.
#[derive(Debug, Clone)]
pub struct PeerConfig {
    /// Its address.
    pub neighbor: IpAddr,
    /// Its AS number.
    pub peer_asn: u32,
    /// It is of another AS.
    pub is_external: bool,
    /// It is a client of this route reflector.
    pub rr_client: bool,
    /// Cluster id of the route reflector.
    pub rr_cluster_id: Option<String>,
    /// Own address of the session.
    pub local_address: Option<IpAddr>,
    /// Password.
    pub password: Option<String>,
    /// Its port.
    pub port: Option<u16>,
    /// Hops it may be away.
    pub multihop_ttl: Option<u8>,
    /// Graceful restart.
    pub graceful_restart: Option<GracefulRestart>,
}

/// A failure of the speaker.
#[derive(Debug)]
pub enum BgpError {
    /// An operation failed.
    Engine(String),
}

impl BgpError {
    /// The text shown to a user.
    pub fn message(&self) -> (r: String)
        ensures
            self matches BgpError::Engine(m) && r@ == "bgp engine error: "@ + m@,
    {
        match self {
            BgpError::Engine(m) => cat2("bgp engine error: ", m.as_str()),
        }
    }
}

/// A speaker that does nothing and succeeds.
#[derive(Debug)]
pub struct LoggingEngine;

impl LoggingEngine {
    /// A new speaker.
    pub fn new() -> (r: LoggingEngine)
        ensures
            r == LoggingEngine,
    {
        LoggingEngine
    }
}

} // verus!
