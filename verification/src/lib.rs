//! Verified core of a Kubernetes node router: network-policy firewall synthesis, load-balancer
//! address allocation, BGP path construction, node and service mapping, health tracking and
//! command-line validation.

pub mod bgp;
pub mod cleanup;
pub mod cleanup_laws;
pub mod cni;
pub mod common;
pub mod config;
pub mod cri;
pub mod ip;
pub mod ip_laws;
pub mod kube_client;
pub mod labels;
pub mod lballoc;
pub mod lballoc_wire;
pub mod lifecycle;
pub mod net;
pub mod netlink;
pub mod netpol;
pub mod netpol_wire;
pub mod netpol_wire_laws;
pub mod observability;
pub mod object_laws;
pub mod objects;
pub mod orchestrate;
pub mod order;
pub mod plugin_laws;
pub mod proxy;
pub mod proxy_laws;
pub mod proxy_wire;
pub mod routing_laws;
pub mod routing_wire;
pub mod seqs;
pub mod setup_laws;
pub mod startup;
pub mod svc_vip_laws;
pub mod svc_vip_wire;
pub mod text;
pub mod text_laws;
pub mod time;
