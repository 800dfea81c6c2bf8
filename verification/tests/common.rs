use kube_router_rs::common::error::Error;
use kube_router_rs::common::ipfamily::{parse_cidr, parse_ip, EnabledFamilies, IpFamily};
use kube_router_rs::common::naming::{
    hash16, network_policy_chain, pod_firewall_chain, HASH_LEN, NWPLCY_PREFIX, POD_FW_PREFIX,
};
use kube_router_rs::common::sysctl::key_to_path;
use kube_router_rs::ip::IpAddr;
use kube_router_rs::labels::Labels;
use kube_router_rs::net::parse_net;
use kube_router_rs::time::{Duration, Instant};

#[test]
fn detects_address_family() {
    assert_eq!(
        IpFamily::of_addr(&parse_ip("10.0.0.1").unwrap()),
        IpFamily::V4
    );
    assert_eq!(
        IpFamily::of_addr(&parse_ip("fd00::1").unwrap()),
        IpFamily::V6
    );
}

#[test]
fn detects_net_family() {
    assert_eq!(
        IpFamily::of_net(&parse_cidr("10.96.0.0/12").unwrap()),
        IpFamily::V4
    );
    assert_eq!(
        IpFamily::of_net(&parse_cidr("fd00::/8").unwrap()),
        IpFamily::V6
    );
}

#[test]
fn enabled_families_classification() {
    assert!(EnabledFamilies::new(true, true).is_dual_stack());
    assert!(EnabledFamilies::new(false, true).is_v6_only());
    assert!(!EnabledFamilies::new(true, false).is_v6_only());
    assert!(!EnabledFamilies::new(false, false).any());
    assert!(EnabledFamilies::new(true, false).contains(IpFamily::V4));
    assert!(!EnabledFamilies::new(true, false).contains(IpFamily::V6));
}

#[test]
fn rejects_bad_cidr() {
    let err = parse_cidr("not-a-cidr").unwrap_err();
    assert!(matches!(err, Error::InvalidIp { .. }));
}

#[test]
fn is_v6_flag() {
    assert!(IpFamily::V6.is_v6());
    assert!(!IpFamily::V4.is_v6());
}

#[test]
fn hash_is_16_chars_and_deterministic() {
    let a = hash16("default".to_string().as_str());
    assert_eq!(a.len(), HASH_LEN);
    assert_eq!(a, hash16("default"));
}

#[test]
fn hash_is_base32_alphabet() {
    let h = hash16("some-input-value");
    assert!(h
        .chars()
        .all(|c| c.is_ascii_uppercase() || c.is_ascii_digit()));
}

#[test]
fn different_inputs_differ() {
    assert_ne!(hash16("a"), hash16("b"));
}

#[test]
fn hash_is_the_start_of_the_encoded_digest() {
    assert_eq!(hash16(""), "4OYMIQUY7QOBJGX3");
}

#[test]
fn pod_chain_has_prefix_and_length() {
    let c = pod_firewall_chain("default", "nginx-abc", "1700000000000000000");
    assert!(c.starts_with(POD_FW_PREFIX));
    assert_eq!(c.len(), POD_FW_PREFIX.len() + HASH_LEN);
}

#[test]
fn policy_chain_family_changes_name() {
    let v4 = network_policy_chain("default", "deny", "1", IpFamily::V4);
    let v6 = network_policy_chain("default", "deny", "1", IpFamily::V6);
    assert_ne!(v4, v6);
    assert!(v4.starts_with(NWPLCY_PREFIX));
}

#[test]
fn maps_key_to_proc_path() {
    assert_eq!(
        key_to_path("net.ipv4.ip_forward"),
        "/proc/sys/net/ipv4/ip_forward"
    );
    assert_eq!(
        key_to_path("net.ipv4.conf.all.rp_filter"),
        "/proc/sys/net/ipv4/conf/all/rp_filter"
    );
}

#[test]
fn addresses_read_and_show_like_the_standard_ones() {
    for text in [
        "0.0.0.0",
        "255.255.255.255",
        "10.0.0.1",
        "::",
        "::1",
        "1::",
        "fd00:244::",
        "1:2:3:4:5:6:7:8",
        "1:0:0:4:0:0:0:8",
        "1:0:3:4:5:6:7:8",
        "::ffff:10.0.0.1",
        "::10.0.0.1",
        "fe80::1234:5678:9abc:def0",
        "2001:db8::1:0:0:1",
        "00::01",
        "1:2:3:4:5:6:1.2.3.4",
        "01.2.3.4",
        "1.2.3",
        "1.2.3.4.5",
        "256.1.1.1",
        "1:2:3:4:5:6:7",
        "1::2::3",
        "12345::",
        ":1",
        "1:",
        "",
        " 10.0.0.1",
        "10.0.0.1 ",
        "fe80::1%eth0",
        "::1.2.3",
        "1:2:3:4:5:6:7::",
        "::2:3:4:5:6:7:8",
        "1:2:3:4::5:6:7:8",
    ] {
        let ours = IpAddr::parse(text);
        let theirs = text
            .parse()
            .ok()
            .map(|a| ipnet::IpNet::new(a, 0).unwrap());
        assert_eq!(ours.is_some(), theirs.is_some(), "{text}");
        if let (Some(a), Some(b)) = (ours, theirs) {
            assert_eq!(a.to_text(), b.addr().to_string(), "{text}");
            assert_eq!(IpAddr::parse(&a.to_text()), Some(a));
            match (a, b) {
                (IpAddr::V4(x), ipnet::IpNet::V4(y)) => assert_eq!(x, u32::from(y.addr())),
                (IpAddr::V6(x), ipnet::IpNet::V6(y)) => assert_eq!(x, u128::from(y.addr())),
                _ => panic!("{text}"),
            }
        }
    }
}

#[test]
fn networks_read_show_and_contain_like_the_outside_ones() {
    for text in [
        "10.96.0.0/12",
        "10.96.1.2/12",
        "0.0.0.0/0",
        "1.2.3.4/32",
        "fd00::/8",
        "::/0",
        "fd00::1/128",
    ] {
        let ours = parse_net(text).unwrap();
        let theirs: ipnet::IpNet = text.parse().unwrap();
        assert_eq!(ours.to_text(), theirs.to_string());
        assert_eq!(ours.network().to_text(), theirs.network().to_string());
        assert_eq!(ours.prefix_len, theirs.prefix_len());
        for a in ["10.97.0.1", "10.112.0.0", "1.2.3.4", "fd00::1", "fe00::"] {
            let x = IpAddr::parse(a).unwrap();
            let y = ipnet::IpNet::new(a.parse().unwrap(), 0).unwrap().addr();
            assert_eq!(ours.contains(x), theirs.contains(&y), "{text} {a}");
        }
    }
    for text in ["10.0.0.0", "10.0.0.0/33", "fd00::/129", "x/8", "10.0.0.0/+8"] {
        assert_eq!(
            parse_net(text).is_some(),
            text.parse::<ipnet::IpNet>().is_ok(),
            "{text}"
        );
    }
}

#[test]
fn blanks_around_addresses_do_not_count_in_options() {
    assert_eq!(parse_ip(" 10.0.0.1 ").unwrap().to_text(), "10.0.0.1");
    assert_eq!(parse_cidr(" 10.0.0.0/8\n").unwrap().to_text(), "10.0.0.0/8");
}

#[test]
fn errors_have_text() {
    assert_eq!(
        parse_ip("\"x\n").unwrap_err().message(),
        format!("invalid IP/CIDR {:?}: invalid IP address syntax", "\"x\n")
    );
    assert_eq!(
        Error::Config("bad".to_string()).message(),
        "invalid configuration: bad"
    );
    assert_eq!(
        Error::Sysctl {
            key: "net.x".to_string(),
            source: "missing".to_string()
        }
        .message(),
        "sysctl error for \"net.x\": missing"
    );
}

#[test]
fn labels_keep_the_last_value_of_a_key() {
    let mut l = Labels::new();
    l.insert("app".to_string(), "a".to_string());
    l.insert("tier".to_string(), "x".to_string());
    let small = l.copy();
    l.insert("app".to_string(), "b".to_string());
    assert_eq!(l.get("app"), Some(&"b".to_string()));
    assert_eq!(l.get("none"), None);
    assert!(!small.is_subset_of(&l));
    assert!(small.is_subset_of(&small));
    assert!(Labels::new().is_subset_of(&small));
}

#[test]
fn time_is_counted_in_nanoseconds() {
    let d = Duration::from_millis(1500);
    assert_eq!((d.secs, d.nanos), (1, 500_000_000));
    assert_eq!(d.as_nanos(), 1_500_000_000);
    assert_eq!(Duration::from_nanos(2_000_000_001).nanos, 1);
    let a = Instant {
        since: Duration::from_secs(1),
    };
    let b = a.plus(Duration::from_millis(250));
    assert_eq!(b.nanos_after(a), 250_000_000);
    assert_eq!(a.nanos_after(b), 0);
}

#[test]
fn distinct_addresses_have_distinct_texts() {
    let all = ["10.0.0.1", "::ffff:10.0.0.1", "::10.0.0.1", "::a00:2", "::1", "0.0.0.1"];
    for (i, a) in all.iter().enumerate() {
        for b in &all[i + 1..] {
            let (x, y) = (IpAddr::parse(a).unwrap(), IpAddr::parse(b).unwrap());
            assert_eq!(x == y, x.to_text() == y.to_text());
        }
    }
}
