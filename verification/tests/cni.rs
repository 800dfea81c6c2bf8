use kube_router_rs::cni::{
    kuberouter_conflist, required_plugins, should_install, CniError, ConfList, Ipam, Plugin, Range,
    DEFAULT_BIN_DIR, DEFAULT_CONF_PATH,
};
use kube_router_rs::net::{parse_net, IpNet};
use serde_json::Value;

const SAMPLE: &str = r#"{
        "cniVersion": "0.3.0",
        "name": "mynet",
        "plugins": [
            {
                "type": "bridge",
                "bridge": "kube-bridge",
                "isDefaultGateway": true,
                "ipam": { "type": "host-local" }
            },
            { "type": "portmap", "capabilities": { "portMappings": true } }
        ]
    }"#;

fn cidr(s: &str) -> IpNet {
    parse_net(s).unwrap()
}

fn object(v: Value) -> serde_json::Map<String, Value> {
    match v {
        Value::Object(m) => m,
        _ => panic!("no object"),
    }
}

fn text(v: Value) -> String {
    v.as_str().unwrap().to_string()
}

fn rest(m: serde_json::Map<String, Value>) -> String {
    serde_json::to_string(&Value::Object(m)).unwrap()
}

fn read_range(v: Value) -> Range {
    let mut m = object(v);
    let subnet = text(m.remove("subnet").unwrap());
    Range {
        subnet,
        extra: rest(m),
    }
}

fn read_ipam(v: Value) -> Ipam {
    let mut m = object(v);
    let ipam_type = m.remove("type").map(text);
    let ranges = m.remove("ranges").map(|r| {
        let sets = r.as_array().unwrap().clone();
        sets.into_iter()
            .map(|set| {
                let list = set.as_array().unwrap().clone();
                list.into_iter().map(read_range).collect()
            })
            .collect()
    });
    Ipam {
        ipam_type,
        ranges,
        extra: rest(m),
    }
}

fn read_plugin(v: Value) -> Plugin {
    let mut m = object(v);
    let plugin_type = text(m.remove("type").unwrap());
    let ipam = m.remove("ipam").map(read_ipam);
    Plugin {
        plugin_type,
        ipam,
        extra: rest(m),
    }
}

fn read(json: &str) -> ConfList {
    let mut m = object(serde_json::from_str(json).unwrap());
    let plugins = m.remove("plugins").unwrap();
    let list = plugins.as_array().unwrap().clone();
    ConfList {
        plugins: list.into_iter().map(read_plugin).collect(),
        extra: rest(m),
    }
}

fn fields(extra: &str) -> serde_json::Map<String, Value> {
    object(serde_json::from_str(extra).unwrap())
}

fn show_range(r: &Range) -> Value {
    let mut m = fields(&r.extra);
    m.insert("subnet".to_string(), Value::String(r.subnet.clone()));
    Value::Object(m)
}

fn show_ipam(i: &Ipam) -> Value {
    let mut m = fields(&i.extra);
    if let Some(t) = &i.ipam_type {
        m.insert("type".to_string(), Value::String(t.clone()));
    }
    if let Some(sets) = &i.ranges {
        let list = sets
            .iter()
            .map(|set| Value::Array(set.iter().map(show_range).collect()))
            .collect();
        m.insert("ranges".to_string(), Value::Array(list));
    }
    Value::Object(m)
}

fn show_plugin(p: &Plugin) -> Value {
    let mut m = fields(&p.extra);
    m.insert("type".to_string(), Value::String(p.plugin_type.clone()));
    if let Some(i) = &p.ipam {
        m.insert("ipam".to_string(), show_ipam(i));
    }
    Value::Object(m)
}

fn show(c: &ConfList) -> Value {
    let mut m = fields(&c.extra);
    m.insert(
        "plugins".to_string(),
        Value::Array(c.plugins.iter().map(show_plugin).collect()),
    );
    Value::Object(m)
}

fn seed(json: &str, cidrs: &[IpNet]) -> Result<Value, CniError> {
    let mut c = read(json);
    c.seed_pod_cidrs(cidrs)?;
    Ok(show(&c))
}

#[test]
fn seeds_bridge_ipam_with_pod_cidr() {
    let v = seed(SAMPLE, &[cidr("10.244.0.0/24")]).unwrap();
    let ranges = &v["plugins"][0]["ipam"]["ranges"];
    assert_eq!(ranges[0][0]["subnet"], "10.244.0.0/24");
}

#[test]
fn dual_stack_produces_two_range_sets() {
    let v = seed(SAMPLE, &[cidr("10.244.0.0/24"), cidr("fd00:244::/64")]).unwrap();
    let ranges = v["plugins"][0]["ipam"]["ranges"].as_array().unwrap();
    assert_eq!(ranges.len(), 2);
}

#[test]
fn preserves_unknown_fields() {
    let v = seed(SAMPLE, &[cidr("10.244.0.0/24")]).unwrap();
    assert_eq!(v["cniVersion"], "0.3.0");
    assert_eq!(v["name"], "mynet");
    assert_eq!(v["plugins"][0]["bridge"], "kube-bridge");
    assert_eq!(v["plugins"][0]["isDefaultGateway"], true);
    assert_eq!(v["plugins"][1]["type"], "portmap");
    assert_eq!(v["plugins"][1]["capabilities"]["portMappings"], true);
}

#[test]
fn preserves_existing_ipam_type() {
    let v = seed(SAMPLE, &[cidr("10.244.0.0/24")]).unwrap();
    assert_eq!(v["plugins"][0]["ipam"]["type"], "host-local");
    let other = SAMPLE.replace("host-local", "dhcp");
    let v = seed(&other, &[cidr("10.244.0.0/24")]).unwrap();
    assert_eq!(v["plugins"][0]["ipam"]["type"], "dhcp");
    let none = SAMPLE.replace("\"type\": \"host-local\"", "\"x\": 1");
    let v = seed(&none, &[cidr("10.244.0.0/24")]).unwrap();
    assert_eq!(v["plugins"][0]["ipam"]["type"], "host-local");
    assert_eq!(v["plugins"][0]["ipam"]["x"], 1);
}

#[test]
fn missing_bridge_is_an_error() {
    let json = r#"{"cniVersion":"0.3.0","name":"x","plugins":[{"type":"loopback"}]}"#;
    assert!(matches!(
        seed(json, &[cidr("10.244.0.0/24")]),
        Err(CniError::NoBridgePlugin)
    ));
    assert_eq!(
        CniError::NoBridgePlugin.message(),
        "no bridge plugin found in CNI conflist"
    );
    assert_eq!(
        CniError::Parse("eof".to_string()).message(),
        "invalid CNI config: eof"
    );
}

#[test]
fn kuberouter_conflist_has_bridge_and_seeded_ipam() {
    let out = kuberouter_conflist(&[cidr("10.244.1.0/24")]);
    let v: Value = serde_json::from_str(&out).unwrap();
    assert_eq!(v["plugins"][0]["bridge"], "kube-bridge");
    assert_eq!(v["plugins"][0]["isDefaultGateway"], true);
    assert_eq!(
        v["plugins"][0]["ipam"]["ranges"][0][0]["subnet"],
        "10.244.1.0/24"
    );
    assert_eq!(v["plugins"][1]["type"], "loopback");
    assert_eq!(v["plugins"][0]["hairpinMode"], true);
    assert_eq!(v["plugins"][0]["ipam"]["type"], "host-local");
    assert_eq!(v["cniVersion"], "1.0.0");
    assert_eq!(v["name"], "kube-router-rs");
}

#[test]
fn dual_stack_conflist_has_two_ranges() {
    let out = kuberouter_conflist(&[cidr("10.244.1.0/24"), cidr("fd00:244:1::/64")]);
    let v: Value = serde_json::from_str(&out).unwrap();
    assert_eq!(
        v["plugins"][0]["ipam"]["ranges"].as_array().unwrap().len(),
        2
    );
    assert!(v["plugins"][0]["ipam"]["routes"].is_null());
}

#[test]
fn plugins_are_installed_once() {
    assert!(should_install(false, true));
    assert!(!should_install(true, true));
    assert!(!should_install(false, false));
    assert_eq!(required_plugins(), vec!["bridge", "host-local", "loopback"]);
    assert_eq!(DEFAULT_BIN_DIR, "/opt/cni/bin");
    assert_eq!(DEFAULT_CONF_PATH, "/etc/cni/net.d/10-kuberouter.conflist");
}
