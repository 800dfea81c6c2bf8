use kube_router_rs::common::ipfamily::IpFamily;
use kube_router_rs::ip::IpAddr;
use kube_router_rs::labels::Labels;
use kube_router_rs::net::{parse_net, IpNet};
use kube_router_rs::netpol::controller::{
    sync_step, FirewallController, PolicyWorld, SyncAction, SyncError, SyncStep,
};
use kube_router_rs::netpol::ipset::{
    build_restore_payload, destroy_outcome, restore_outcome, SetType, SystemIpset,
};
use kube_router_rs::netpol::iptables::{
    ensure_jump_step, filter_restore_doc, run_outcome, SystemIptables,
};
use kube_router_rs::netpol::model::{
    selector_matches, LabelSelector, Namespace, NetworkPolicy, Peer, Pod, PolicyTypes, PortSpec,
    Rule, SelectorOp, SelectorRequirement,
};
use kube_router_rs::netpol::naming::{
    dst_set, indexed_dst_ipblock_set, indexed_dst_pod_set, indexed_dst_set,
    indexed_egress_named_port_set, indexed_ingress_named_port_set, indexed_src_ipblock_set,
    indexed_src_pod_set, indexed_src_set, local_pods_set, src_set, validate_node_port_range,
    ROUTER_FORWARD, ROUTER_INPUT,
};
use kube_router_rs::netpol::synth::{build_plan, FirewallPlan};
use kube_router_rs::netpol::translate::resolve_peers;
use kube_router_rs::time::Duration;

fn lbl(pairs: &[(&str, &str)]) -> Labels {
    let mut l = Labels::new();
    for (k, v) in pairs {
        l.insert(k.to_string(), v.to_string());
    }
    l
}

fn sel(pairs: &[(&str, &str)]) -> LabelSelector {
    LabelSelector::from_labels(lbl(pairs))
}

fn ip(s: &str) -> IpAddr {
    IpAddr::parse(s).unwrap()
}

fn net(s: &str) -> IpNet {
    parse_net(s).unwrap()
}

fn pod_on(ns: &str, name: &str, node: &str, labels: &[(&str, &str)], addr: &str) -> Pod {
    Pod {
        namespace: ns.to_string(),
        name: name.to_string(),
        labels: lbl(labels),
        ips: vec![ip(addr)],
        node_name: node.to_string(),
        host_network: false,
    }
}

fn pod(ns: &str, name: &str, labels: &[(&str, &str)], addr: &str) -> Pod {
    pod_on(ns, name, "node-a", labels, addr)
}

fn allow_from(app: &str, from: &str) -> NetworkPolicy {
    NetworkPolicy {
        namespace: "default".to_string(),
        name: "p".to_string(),
        pod_selector: sel(&[("app", app)]),
        policy_types: PolicyTypes {
            ingress: true,
            egress: false,
        },
        ingress: vec![Rule {
            peers: vec![Peer::Selector {
                namespace_selector: None,
                pod_selector: Some(sel(&[("app", from)])),
            }],
            ports: vec![],
        }],
        egress: vec![],
    }
}

fn plan(
    policies: &[NetworkPolicy],
    pods: &[Pod],
    default_deny: bool,
    cidrs: &[IpNet],
) -> FirewallPlan {
    build_plan(
        policies,
        pods,
        &[],
        "node-a",
        IpFamily::V4,
        "1",
        default_deny,
        cidrs,
    )
}

#[test]
fn unselected_pod_gets_no_chain_default_allow() {
    let pods = vec![pod("default", "db", &[("app", "db")], "10.244.0.9")];
    let plan = plan(&[allow_from("web", "client")], &pods, false, &[]);
    assert!(!plan.rules.iter().any(|r| r.contains("10.244.0.9")));
}

fn web_and_client() -> Vec<Pod> {
    vec![
        pod("default", "web", &[("app", "web")], "10.244.0.5"),
        pod("default", "client", &[("app", "client")], "10.244.0.6"),
    ]
}

#[test]
fn selected_pod_gets_fw_chain_reject_and_dispatch() {
    let plan = plan(&[allow_from("web", "client")], &web_and_client(), false, &[]);
    let has = |pat: &str| plan.rules.iter().any(|r| r.contains(pat));

    assert!(has("-A KUBE-ROUTER-FORWARD -d 10.244.0.5 -j KUBE-POD-FW-"));
    assert!(has(
        "-A KUBE-NWPLCY-COMMON -m conntrack --ctstate RELATED,ESTABLISHED -j ACCEPT"
    ));
    assert!(has(
        "-A KUBE-NWPLCY-COMMON -m conntrack --ctstate INVALID -j DROP"
    ));
    assert!(has("-j MARK --set-xmark 0x10000/0x10000"));
    assert!(has("-m mark --mark 0x10000/0x10000 -j RETURN"));
    assert!(
        !plan.rules.iter().any(|r| r.starts_with("-A KUBE-NWPLCY-")
            && r.ends_with("-j ACCEPT")
            && !r.contains("KUBE-NWPLCY-COMMON")
            && !r.contains("KUBE-NWPLCY-TAIL")),
        "policy chains must not ACCEPT directly"
    );
    assert!(plan
        .rules
        .iter()
        .any(|r| r.contains("-m set --match-set KUBE-SRC-")
            && r.contains("src")
            && r.contains("-m set --match-set KUBE-DST-")
            && r.contains("dst")));
    let rules: Vec<&String> = plan
        .rules
        .iter()
        .filter(|r| r.contains("KUBE-POD-FW-"))
        .collect();
    let common_at = rules
        .iter()
        .position(|r| r.contains("-j KUBE-NWPLCY-COMMON"))
        .expect("pod chain jumps to COMMON");
    let reject_at = rules
        .iter()
        .position(|r| r.contains("! --mark 0x10000/0x10000 -j REJECT"))
        .expect("pod chain rejects unmarked");
    assert!(
        common_at < reject_at,
        "COMMON must precede REJECT: {rules:?}"
    );
    assert!(has("-m addrtype --src-type LOCAL -d 10.244.0.5 -j ACCEPT"));
    assert!(has(
        "-m mark ! --mark 0x10000/0x10000 -j NFLOG --nflog-group 100 \
         -m limit --limit 10/minute --limit-burst 10"
    ));
    assert!(has("-m mark ! --mark 0x10000/0x10000 -j REJECT"));
    assert!(has("-j MARK --set-mark 0/0x10000"));
    assert!(has("-j MARK --set-mark 0x20000/0x20000"));
    assert!(has("-s 10.244.0.5 -j KUBE-NWPLCY-DEFAULT"));
    assert!(has(
        "-A KUBE-NWPLCY-DEFAULT -j MARK --set-xmark 0x10000/0x10000"
    ));
    let set = plan
        .ipsets
        .iter()
        .find(|s| s.name.starts_with("KUBE-SRC-"))
        .unwrap();
    assert!(set.entries.contains(&"10.244.0.6".to_string()));
    assert_eq!(set.set_type, SetType::HashIp);
}

#[test]
fn pod_chain_is_reachable_from_all_three_inbound_paths() {
    let plan = plan(&[allow_from("web", "client")], &web_and_client(), false, &[]);
    let has = |pat: &str| plan.rules.iter().any(|r| r.contains(pat));
    assert!(
        has("-A KUBE-ROUTER-FORWARD -d 10.244.0.5 -j KUBE-POD-FW-"),
        "routed-from-another-node path"
    );
    assert!(
        has("-A KUBE-ROUTER-OUTPUT -d 10.244.0.5 -j KUBE-POD-FW-"),
        "service-proxy loopback to a same-node pod leaves via LOCAL_OUT"
    );
    assert!(
        has("-A KUBE-ROUTER-FORWARD -m physdev --physdev-is-bridged -d 10.244.0.5 -j KUBE-POD-FW-"),
        "bridged same-node pod->pod path"
    );
}

#[test]
fn default_deny_rejects_live_in_the_tail_chain() {
    let pods = vec![pod("default", "web", &[("app", "web")], "10.244.0.5")];
    let plan = plan(
        &[allow_from("web", "client")],
        &pods,
        true,
        &[net("10.244.0.0/24")],
    );
    let has = |pat: &str| plan.rules.iter().any(|r| r.contains(pat));
    assert!(has(
        "-A KUBE-NWPLCY-TAIL -s 10.244.0.0/24 -m set ! --match-set kube-router-local-pods src -j REJECT"
    ));
    assert!(has(
        "-A KUBE-NWPLCY-TAIL -d 10.244.0.0/24 -m set ! --match-set kube-router-local-pods dst -j REJECT"
    ));
    assert!(has(
        "-A KUBE-NWPLCY-TAIL -m mark --mark 0x20000/0x20000 -j ACCEPT"
    ));
    assert!(has("-A KUBE-NWPLCY-TAIL -s 10.244.0.0/24 -j REJECT"));
    assert!(has("-A KUBE-NWPLCY-TAIL -d 10.244.0.0/24 -j REJECT"));
    for c in [
        "KUBE-ROUTER-INPUT",
        "KUBE-ROUTER-FORWARD",
        "KUBE-ROUTER-OUTPUT",
    ] {
        assert!(has(&format!("-A {c} -j KUBE-NWPLCY-TAIL")), "{c}");
    }
}

#[test]
fn default_deny_adds_local_pods_set_and_tail_reject() {
    let pods = vec![pod("default", "x", &[("app", "x")], "10.244.0.9")];
    let plan = plan(&[], &pods, true, &[net("10.244.0.0/24")]);
    assert!(plan
        .ipsets
        .iter()
        .any(|s| s.name == "kube-router-local-pods"));
    assert!(plan.rules.iter().any(|r| r.contains("-d 10.244.0.0/24")
        && r.contains("! --match-set kube-router-local-pods dst")
        && r.contains("-j REJECT")));
}

#[test]
fn no_default_deny_means_no_tail_reject() {
    let pods = vec![pod("default", "x", &[("app", "x")], "10.244.0.9")];
    let plan = plan(&[], &pods, false, &[net("10.244.0.0/24")]);
    assert!(!plan
        .rules
        .iter()
        .any(|r| r.contains("kube-router-local-pods")));
}

#[test]
fn deny_all_ingress_when_no_rules() {
    let mut pol = allow_from("web", "client");
    pol.ingress.clear();
    let pods = vec![pod("default", "web", &[("app", "web")], "10.244.0.5")];
    let plan = plan(&[pol], &pods, false, &[]);
    assert!(plan.rules.iter().any(|r| r.contains("-j REJECT")));
    assert!(!plan.rules.iter().any(|r| r.contains("-m set --match-set")));
}

#[test]
fn jumps_only_go_to_declared_chains() {
    let mut pol = allow_from("web", "client");
    pol.ingress[0].ports = vec![PortSpec {
        protocol: "tcp".to_string(),
        port: Some(80),
    }];
    pol.policy_types.egress = true;
    pol.egress = vec![Rule::default()];
    let plan = plan(&[pol], &web_and_client(), true, &[net("10.244.0.0/24")]);
    assert!(plan.rules.iter().any(|r| r.contains("-p tcp") && r.contains("--dport 80")));
    for r in &plan.rules {
        let words: Vec<&str> = r.split(' ').collect();
        let at = words.iter().position(|w| *w == "-j").unwrap();
        let target = words[at + 1];
        if target.starts_with("KUBE-") {
            assert!(
                plan.chain_decls
                    .iter()
                    .any(|d| d.starts_with(&format!(":{target} "))),
                "{target}"
            );
        }
        assert!(plan
            .chain_decls
            .iter()
            .any(|d| d.starts_with(&format!(":{} ", words[1]))));
    }
}

#[test]
fn an_expression_only_selector_does_not_catch_the_namespace() {
    let mut pol = allow_from("web", "client");
    pol.pod_selector = LabelSelector {
        match_labels: Labels::new(),
        match_expressions: vec![req("app", SelectorOp::In, &["web"])],
    };
    let plan = plan(&[pol], &web_and_client(), false, &[]);
    assert!(plan.rules.iter().any(|r| r.contains("-d 10.244.0.5")));
    assert!(!plan.rules.iter().any(|r| r.contains("-d 10.244.0.6")));
}

#[test]
fn empty_peers_is_match_all() {
    let r = resolve_peers(&[], &[], &[], "default", IpFamily::V4);
    assert!(r.match_all);
}

#[test]
fn selector_resolves_same_namespace_pod_ips() {
    let peers = vec![Peer::Selector {
        namespace_selector: None,
        pod_selector: Some(sel(&[("app", "client")])),
    }];
    let pods = vec![
        pod("default", "p", &[("app", "client")], "10.244.0.5"),
        pod("default", "p", &[("app", "other")], "10.244.0.6"),
        pod("kube-system", "p", &[("app", "client")], "10.244.1.5"),
    ];
    let r = resolve_peers(&peers, &pods, &[], "default", IpFamily::V4);
    assert_eq!(r.ip_entries, vec!["10.244.0.5".to_string()]);
}

#[test]
fn namespace_selector_widens_to_matched_namespaces() {
    let peers = vec![Peer::Selector {
        namespace_selector: Some(sel(&[("team", "a")])),
        pod_selector: None,
    }];
    let namespaces = vec![
        Namespace {
            name: "ns-a".to_string(),
            labels: lbl(&[("team", "a")]),
        },
        Namespace {
            name: "ns-b".to_string(),
            labels: lbl(&[("team", "b")]),
        },
    ];
    let pods = vec![
        pod("ns-a", "p", &[("x", "y")], "10.0.0.1"),
        pod("ns-b", "p", &[], "10.0.0.2"),
    ];
    let r = resolve_peers(&peers, &pods, &namespaces, "default", IpFamily::V4);
    assert_eq!(r.ip_entries, vec!["10.0.0.1".to_string()]);
}

#[test]
fn ipblock_yields_net_entries_with_nomatch_except() {
    let peers = vec![Peer::IpBlock {
        cidr: net("10.0.0.0/8"),
        except: vec![net("10.1.0.0/16")],
    }];
    let r = resolve_peers(&peers, &[], &[], "default", IpFamily::V4);
    assert_eq!(
        r.net_entries,
        vec!["10.0.0.0/8".to_string(), "10.1.0.0/16 nomatch".to_string()]
    );
    assert!(r.ip_entries.is_empty());
}

#[test]
fn exceptions_of_the_other_family_are_left_out() {
    let peers = vec![
        Peer::IpBlock {
            cidr: net("10.0.0.0/8"),
            except: vec![net("fd00::/16"), net("10.1.0.0/16")],
        },
        Peer::IpBlock {
            cidr: net("fd00::/8"),
            except: vec![net("10.2.0.0/16"), net("fd01::/16")],
        },
    ];
    let r = resolve_peers(&peers, &[], &[], "default", IpFamily::V4);
    assert_eq!(
        r.net_entries,
        vec!["10.0.0.0/8".to_string(), "10.1.0.0/16 nomatch".to_string()]
    );
    let r = resolve_peers(&peers, &[], &[], "default", IpFamily::V6);
    assert_eq!(
        r.net_entries,
        vec!["fd00::/8".to_string(), "fd01::/16 nomatch".to_string()]
    );
}

#[test]
fn a_sync_ends_at_the_first_failure() {
    let actions = [
        SyncAction::RestoreSet("a".to_string()),
        SyncAction::RestoreFilter(IpFamily::V4, "b".to_string()),
    ];
    assert!(matches!(
        sync_step(&actions, 0, Ok(())),
        SyncStep::Perform(0)
    ));
    assert!(matches!(
        sync_step(&actions, 1, Ok(())),
        SyncStep::Perform(1)
    ));
    assert!(matches!(
        sync_step(&actions, 2, Ok(())),
        SyncStep::End(Ok(()))
    ));
    match sync_step(&actions, 1, restore_outcome(false, "busy").map_err(SyncError::Ipset)) {
        SyncStep::End(Err(e)) => assert_eq!(e.message(), "ipset error: busy"),
        _ => panic!("expected the end"),
    }
}

#[test]
fn family_filtering_excludes_other_family() {
    let peers = vec![Peer::Selector {
        namespace_selector: None,
        pod_selector: None,
    }];
    let mut both = pod("default", "p", &[], "10.0.0.1");
    both.ips.push(ip("fd00::1"));
    let pods = vec![both];
    let v4 = resolve_peers(&peers, &pods, &[], "default", IpFamily::V4);
    let v6 = resolve_peers(&peers, &pods, &[], "default", IpFamily::V6);
    assert_eq!(v4.ip_entries, vec!["10.0.0.1".to_string()]);
    assert_eq!(v6.ip_entries, vec!["fd00::1".to_string()]);
}

#[test]
fn empty_selector_matches_all() {
    assert!(selector_matches(
        &LabelSelector::default(),
        &lbl(&[("a", "b")])
    ));
}

fn req(key: &str, op: SelectorOp, values: &[&str]) -> SelectorRequirement {
    SelectorRequirement {
        key: key.to_string(),
        operator: Some(op),
        values: values.iter().map(|v| v.to_string()).collect(),
    }
}

fn by_expression(r: SelectorRequirement) -> LabelSelector {
    LabelSelector {
        match_labels: Labels::new(),
        match_expressions: vec![r],
    }
}

#[test]
fn match_expressions_implement_all_four_operators() {
    let web = lbl(&[("app", "web"), ("tier", "fe")]);
    let db = lbl(&[("app", "db")]);

    let in_ = by_expression(req("app", SelectorOp::In, &["web", "api"]));
    assert!(selector_matches(&in_, &web));
    assert!(!selector_matches(&in_, &db));

    let not_in = by_expression(req("app", SelectorOp::NotIn, &["web"]));
    assert!(!selector_matches(&not_in, &web));
    assert!(selector_matches(&not_in, &db));
    assert!(selector_matches(&not_in, &lbl(&[("other", "x")])));

    let exists = by_expression(req("tier", SelectorOp::Exists, &[]));
    assert!(selector_matches(&exists, &web));
    assert!(!selector_matches(&exists, &db));

    let absent = by_expression(req("tier", SelectorOp::DoesNotExist, &[]));
    assert!(!selector_matches(&absent, &web));
    assert!(selector_matches(&absent, &db));
}

#[test]
fn match_labels_and_expressions_are_anded() {
    let sel = LabelSelector {
        match_labels: lbl(&[("app", "web")]),
        match_expressions: vec![req("tier", SelectorOp::In, &["fe"])],
    };
    assert!(selector_matches(
        &sel,
        &lbl(&[("app", "web"), ("tier", "fe")])
    ));
    assert!(!selector_matches(
        &sel,
        &lbl(&[("app", "web"), ("tier", "be")])
    ));
    assert!(!selector_matches(
        &sel,
        &lbl(&[("app", "db"), ("tier", "fe")])
    ));
}

#[test]
fn unparseable_operator_matches_nothing() {
    let sel = by_expression(SelectorRequirement {
        key: "app".to_string(),
        operator: None,
        values: vec![],
    });
    assert!(!selector_matches(&sel, &lbl(&[("app", "web")])));
    assert!(!selector_matches(&sel, &Labels::new()));
}

#[test]
fn selector_requires_all_entries() {
    let sel = sel(&[("app", "web")]);
    assert!(selector_matches(&sel, &lbl(&[("app", "web"), ("x", "y")])));
    assert!(!selector_matches(&sel, &lbl(&[("app", "db")])));
    assert!(!selector_matches(&sel, &lbl(&[("x", "y")])));
}

#[test]
fn selects_local_actionable_pods_only() {
    let mut policy = allow_from("web", "x");
    policy.ingress.clear();
    let pods = vec![
        pod_on("default", "web-1", "node-a", &[("app", "web")], "10.244.0.5"),
        pod_on("default", "web-2", "node-b", &[("app", "web")], "10.244.1.5"),
        pod_on("default", "db-1", "node-a", &[("app", "db")], "10.244.0.6"),
    ];
    let sel = policy.selected_local_pods(&pods, "node-a");
    assert_eq!(sel.len(), 1);
    assert_eq!(sel[0].name, "web-1");
}

#[test]
fn set_names_have_prefix_and_are_family_distinct() {
    let v4 = src_set("default", "web", IpFamily::V4);
    let v6 = src_set("default", "web", IpFamily::V6);
    assert!(v4.starts_with("KUBE-SRC-"));
    assert_ne!(v4, v6);
    assert!(dst_set("default", "web", IpFamily::V4).starts_with("KUBE-DST-"));
}

#[test]
fn set_names_are_deterministic() {
    assert_eq!(
        src_set("ns", "p", IpFamily::V4),
        src_set("ns", "p", IpFamily::V4)
    );
}

#[test]
fn indexed_sets_differ_by_rule_index() {
    let r0 = indexed_src_set("ns", "p", 0, IpFamily::V4);
    let r1 = indexed_src_set("ns", "p", 1, IpFamily::V4);
    assert_ne!(r0, r1);
}

#[test]
fn set_names_fit_with_their_prefix() {
    for name in [
        indexed_src_pod_set("a-long-namespace", "a-long-policy-name", 7, IpFamily::V6),
        indexed_dst_ipblock_set("a-long-namespace", "a-long-policy-name", 7, IpFamily::V6),
        src_set("ns", "p", IpFamily::V4),
        local_pods_set(IpFamily::V4),
        local_pods_set(IpFamily::V6),
    ] {
        assert!(name.len() <= 31, "{name}");
    }
    assert_ne!(local_pods_set(IpFamily::V4), local_pods_set(IpFamily::V6));
}

#[test]
fn sets_of_one_rule_have_names_of_their_own() {
    let v4 = IpFamily::V4;
    let names = vec![
        indexed_src_set("ns", "p", 3, v4),
        indexed_dst_set("ns", "p", 3, v4),
        indexed_src_pod_set("ns", "p", 3, v4),
        indexed_dst_pod_set("ns", "p", 3, v4),
        indexed_src_ipblock_set("ns", "p", 3, v4),
        indexed_dst_ipblock_set("ns", "p", 3, v4),
        indexed_ingress_named_port_set("ns", "p", 3, 0, v4),
        indexed_ingress_named_port_set("ns", "p", 3, 1, v4),
        indexed_egress_named_port_set("ns", "p", 3, 0, v4),
    ];
    for (i, a) in names.iter().enumerate() {
        for b in &names[i + 1..] {
            assert_ne!(a, b);
        }
    }
}

#[test]
fn node_port_ranges_are_checked() {
    assert_eq!(
        validate_node_port_range("30000-32767"),
        Some("30000:32767".to_string())
    );
    assert_eq!(validate_node_port_range("32767-30000"), None);
    assert_eq!(validate_node_port_range("x"), None);
}

#[test]
fn restore_payload_uses_tmp_swap() {
    let p = build_restore_payload(
        "KUBE-SRC-ABC",
        SetType::HashIp,
        IpFamily::V4,
        &["10.244.0.5".to_string(), "10.244.1.6".to_string()],
    );
    assert!(p.contains("create KUBE-SRC-ABC hash:ip family inet -exist"));
    assert!(p.contains("create TMP-KUBE-SRC-ABC hash:ip family inet -exist"));
    assert!(p.contains("add TMP-KUBE-SRC-ABC 10.244.0.5 -exist"));
    assert!(p.contains("swap TMP-KUBE-SRC-ABC KUBE-SRC-ABC"));
    assert!(p.contains("destroy TMP-KUBE-SRC-ABC"));
    assert!(p.find("swap ").unwrap() < p.find("destroy ").unwrap());
}

#[test]
fn v6_uses_inet6_and_hash_net() {
    let p = build_restore_payload("KUBE-DST-X", SetType::HashNet, IpFamily::V6, &[]);
    assert!(p.contains("hash:net family inet6"));
}

#[test]
fn tmp_name_within_ipset_limit() {
    let tmp = format!("TMP-KUBE-SRC-{}", "A".repeat(16));
    assert!(tmp.len() <= 31, "len {}", tmp.len());
    assert_eq!(
        src_set("ns", "p", IpFamily::V4).len(),
        tmp.len() - "TMP-".len()
    );
}

#[test]
fn set_failures_carry_the_tools_words() {
    assert!(restore_outcome(true, "").is_ok());
    let e = restore_outcome(false, " syntax error \n").unwrap_err();
    assert!(e.message().contains("syntax error"));
    assert!(destroy_outcome(true, "").is_ok());
    assert!(destroy_outcome(false, "in use").is_err());
    assert!(SyncError::Ipset(e).message().contains("syntax error"));
}

#[test]
fn restore_doc_wraps_filter_and_commit() {
    let doc = filter_restore_doc(
        &[":KUBE-ROUTER-INPUT - [0:0]".to_string()],
        &["-A KUBE-ROUTER-INPUT -j ACCEPT".to_string()],
    );
    assert!(doc.starts_with("*filter\n"));
    assert!(doc.contains(":KUBE-ROUTER-INPUT - [0:0]"));
    assert!(doc.contains("-A KUBE-ROUTER-INPUT -j ACCEPT"));
    assert!(doc.trim_end().ends_with("COMMIT"));
}

#[test]
fn for_family_selects_binary() {
    assert_eq!(SystemIptables::for_family(IpFamily::V4).base, "iptables");
    assert_eq!(SystemIptables::for_family(IpFamily::V6).base, "ip6tables");
    let v6 = SystemIptables::for_family(IpFamily::V6);
    assert_eq!(v6.save_program(), "ip6tables-save");
    assert_eq!(v6.restore_program(), "ip6tables-restore");
    assert_eq!(v6.save_args(), vec!["-t", "filter"]);
    assert_eq!(
        v6.restore_args(),
        vec!["--wait", "-T", "filter", "--noflush"]
    );
    assert_eq!(SystemIpset::new().restore_args(), vec!["restore", "-exist"]);
    assert_eq!(SystemIpset::new().destroy_args("s"), vec!["destroy", "s"]);
}

#[test]
fn jumps_are_inserted_once() {
    let check = ensure_jump_step(None, "INPUT", "KUBE-ROUTER-INPUT").unwrap();
    assert!(check.contains(&"-C".to_string()));
    assert_eq!(ensure_jump_step(Some(true), "INPUT", "X"), None);
    let insert = ensure_jump_step(Some(false), "INPUT", "X").unwrap();
    assert!(insert.contains(&"-I".to_string()));
    assert!(run_outcome(true, "").is_ok());
    assert_eq!(run_outcome(false, " bad rule \n").unwrap_err().0, "bad rule");
}

#[test]
fn reconcile_applies_ipsets_chains_and_jumps() {
    let mut web = allow_from("web", "client");
    web.name = "web".to_string();
    let world = PolicyWorld {
        policies: vec![web],
        pods: vec![
            pod_on("default", "web", "node-a", &[("app", "web")], "10.244.0.5"),
            pod_on(
                "default",
                "client",
                "node-b",
                &[("app", "client")],
                "10.244.0.6",
            ),
        ],
        namespaces: vec![],
    };
    let ctrl = FirewallController::new(
        vec![IpFamily::V4],
        "node-a".to_string(),
        Duration::from_secs(300),
        false,
        vec![],
    );
    let actions = ctrl.reconcile(&world);
    assert!(actions
        .iter()
        .any(|a| matches!(a, SyncAction::RestoreSet(p) if p.contains("10.244.0.6"))));
    assert!(actions.iter().any(|a| matches!(
        a,
        SyncAction::RestoreFilter(IpFamily::V4, d)
            if d.contains("KUBE-POD-FW-") && d.contains("-j REJECT")
    )));
    assert!(actions.iter().any(|a| matches!(
        a,
        SyncAction::RestoreFilter(IpFamily::V4, d)
            if d.contains("-A KUBE-ROUTER-FORWARD -d 10.244.0.5")
    )));
    let jumps: Vec<(&str, &str)> = actions
        .iter()
        .filter_map(|a| match a {
            SyncAction::EnsureJump(IpFamily::V4, b, t) => Some((*b, *t)),
            _ => None,
        })
        .collect();
    assert!(jumps.contains(&("FORWARD", ROUTER_FORWARD)));
    assert!(jumps.contains(&("INPUT", ROUTER_INPUT)));
}

#[test]
fn the_sets_of_a_plan_are_of_its_family() {
    let mut both = pod("default", "web", &[("app", "web")], "10.244.0.5");
    both.ips.push(ip("fd00::5"));
    for family in [IpFamily::V4, IpFamily::V6] {
        let plan = build_plan(
            &[allow_from("web", "web")],
            &[both.clone()],
            &[],
            "node-a",
            family,
            "1",
            true,
            &[],
        );
        assert_eq!(plan.ipsets.len(), 3);
        for set in &plan.ipsets {
            assert_eq!(set.family, family);
            assert_eq!(set.entries.len(), 1);
        }
    }
}
