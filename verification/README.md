# kube-router-rs

A Verus crate for the decisions of a Kubernetes node router: which firewall rules and address sets
a set of network policies asks for, which addresses load balancers get, how BGP paths are written
and read, what services and nodes of a cluster mean for a node, when the node is healthy, and which
configurations are valid.

- `src/` is the library. Every function in it is verified; calls into other crates stand behind
  small declarations whose doc comments say what is claimed of them.
- `tests/` runs the library with the real crates linked.
- `app/` is the agent around it: arguments, the cluster's API, kernel tools and HTTP servers.

## Where things are

| Module | What it holds |
| --- | --- |
| `netpol`, `netpol_wire` | network policies: selectors, rule synthesis, set scripts, and the laws of a plan (`netpol/laws.rs`) |
| `lballoc`, `lballoc_wire` | address pools, allocation, the election of the one allocator |
| `bgp`, `routing_wire` | paths, messages to the speaker, nodes as peers and routes |
| `proxy`, `proxy_wire`, `svc_vip_wire` | services with their endpoints, addresses that are advertised |
| `observability` | health windows, HTTP replies, published series, verbosity |
| `config`, `startup`, `lifecycle`, `orchestrate`, `cleanup` | switches and their validation, what each controller is set up with, what each task does at an event, removal |
| `netlink`, `cni`, `cri`, `kube_client`, `common` | kernel routes, plugin configuration, the container runtime, node addresses, names and errors |
| `objects`, `labels`, `ip`, `ip_laws`, `net`, `text`, `order`, `seqs`, `time` | the values all of these are made of |
