//! The metrics that are published: their families, and the labels of a series. The values are
//! held where they are measured.

use vstd::prelude::*;

use crate::text::dec_text;

verus! {

/// What the name of every metric starts with.
pub const NAMESPACE: &'static str = "kube_router";

/// The labels of a series of a service, in order.
pub fn service_labels() -> (r: Vec<&'static str>)
    ensures
        r@ == seq!["svc_namespace", "service_name", "service_vip", "protocol", "port"],
{
    let r: Vec<&'static str> = vec![
        "svc_namespace",
        "service_name",
        "service_vip",
        "protocol",
        "port",
    ];
    assert(r@ =~= seq!["svc_namespace", "service_name", "service_vip", "protocol", "port"]);
    r
}

/// The families of metrics of services, each with what it measures.
pub open spec fn families() -> Seq<(&'static str, &'static str)> {
    seq![
        ("service_total_connections", "Total incoming connections made"),
        ("service_packets_in", "Total incoming packets"),
        ("service_packets_out", "Total outgoing packets"),
        ("service_bytes_in", "Total incoming bytes"),
        ("service_bytes_out", "Total outgoing bytes"),
        ("service_cps", "Service connections per second"),
        ("service_pps_in", "Incoming packets per second"),
        ("service_pps_out", "Outgoing packets per second"),
        ("service_bps_in", "Incoming bytes per second"),
        ("service_bps_out", "Outgoing bytes per second"),
    ]
}

/// The families of metrics of services, each with what it measures.
pub fn service_families() -> (r: Vec<(&'static str, &'static str)>)
    ensures
        r@ == families(),
{
    let r: Vec<(&'static str, &'static str)> = vec![
        ("service_total_connections", "Total incoming connections made"),
        ("service_packets_in", "Total incoming packets"),
        ("service_packets_out", "Total outgoing packets"),
        ("service_bytes_in", "Total incoming bytes"),
        ("service_bytes_out", "Total outgoing bytes"),
        ("service_cps", "Service connections per second"),
        ("service_pps_in", "Incoming packets per second"),
        ("service_pps_out", "Outgoing packets per second"),
        ("service_bps_in", "Incoming bytes per second"),
        ("service_bps_out", "Outgoing bytes per second"),
    ];
    assert(r@ =~= families());
    r
}

/// A virtual service whose statistics are published.
#[derive(Debug, Clone)]
pub struct ServiceSeries {
    /// Namespace of the service.
    pub namespace: String,
    /// Name of the service.
    pub service: String,
    /// Virtual address.
    pub vip: String,
    /// Protocol.
    pub protocol: String,
    /// Virtual port.
    pub port: u16,
}

impl ServiceSeries {
    /// The values of the labels, in the order of the labels.
    pub open spec fn values(self) -> Seq<Seq<char>> {
        seq![
            self.namespace@,
            self.service@,
            self.vip@,
            self.protocol@,
            crate::text::dec(self.port as nat),
        ]
    }

    /// The values of the labels, in the order of the labels.
    pub fn label_values(&self) -> (r: Vec<String>)
        ensures
            crate::text::texts(r@) == self.values(),
    {
        let r: Vec<String> = vec![
            self.namespace.clone(),
            self.service.clone(),
            self.vip.clone(),
            self.protocol.clone(),
            dec_text(self.port as u64),
        ];
        assert(crate::text::texts(r@) =~= self.values());
        r
    }
}

} // verus!
