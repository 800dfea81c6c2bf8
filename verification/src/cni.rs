//! The configuration of the container network plugins: a file the agent writes, or one it finds
//! and completes with the node's pod networks, leaving all else as it is.

use vstd::prelude::*;

use crate::net::IpNet;
use crate::text::{cat2, same};

verus! {

/// Where the configuration is written.
pub const DEFAULT_CONF_PATH: &'static str = "/etc/cni/net.d/10-kuberouter.conflist";

/// Where the plugins are installed.
pub const DEFAULT_BIN_DIR: &'static str = "/opt/cni/bin";

/// The plugins that the configuration relies on.
pub fn required_plugins() -> (r: Vec<&'static str>)
    ensures
        r@ == seq!["bridge", "host-local", "loopback"],
{
    let r: Vec<&'static str> = vec!["bridge", "host-local", "loopback"];
    assert(r@ =~= seq!["bridge", "host-local", "loopback"]);
    r
}

/// A failure with a configuration.
#[derive(Debug)]
pub enum CniError {
    /// It could not be read.
    Parse(String),
    /// It has no plugin of type `bridge`.
    NoBridgePlugin,
}

impl CniError {
    /// The text shown to a user.
    pub open spec fn text(self) -> Seq<char> {
        match self {
            CniError::Parse(m) => "invalid CNI config: "@ + m@,
            CniError::NoBridgePlugin => "no bridge plugin found in CNI conflist"@,
        }
    }

    /// The text shown to a user.
    pub fn message(&self) -> (r: String)
        ensures
            r@ == self.text(),
    {
        match self {
            CniError::Parse(m) => cat2("invalid CNI config: ", m.as_str()),
            CniError::NoBridgePlugin => String::from_str("no bridge plugin found in CNI conflist"),
        }
    }
}

// ---------------------------------------------------------------------------------------------
// A configuration that is completed
// ---------------------------------------------------------------------------------------------

/// A range of addresses. In every part of a configuration `extra` holds the fields that are not
/// read, as the text of a JSON object.
#[derive(Debug, Clone)]
pub struct Range {
    /// The network.
    pub subnet: String,
    /// Other fields.
    pub extra: String,
}

/// How addresses are given out.
#[derive(Debug, Clone)]
pub struct Ipam {
    /// The plugin that does it.
    pub ipam_type: Option<String>,
    /// Sets of ranges.
    pub ranges: Option<Vec<Vec<Range>>>,
    /// Other fields.
    pub extra: String,
}

/// A plugin.
#[derive(Debug, Clone)]
pub struct Plugin {
    /// Its type.
    pub plugin_type: String,
    /// How it gives out addresses.
    pub ipam: Option<Ipam>,
    /// Other fields.
    pub extra: String,
}

/// A configuration: plugins in order.
#[derive(Debug, Clone)]
pub struct ConfList {
    /// The plugins.
    pub plugins: Vec<Plugin>,
    /// Other fields.
    pub extra: String,
}

/// The first plugin of type `bridge`, from index `i` on.
pub open spec fn bridge_at(plugins: Seq<Plugin>, i: int) -> Option<int>
    decreases plugins.len() - i,
{
    if i < 0 || i >= plugins.len() {
        None
    } else if plugins[i].plugin_type@ == "bridge"@ {
        Some(i)
    } else {
        bridge_at(plugins, i + 1)
    }
}

/// Whether the ranges are one set with one range for each network, and nothing else.
pub open spec fn are_ranges_of(ranges: Seq<Vec<Range>>, nets: Seq<IpNet>) -> bool {
    &&& ranges.len() == nets.len()
    &&& forall|i: int| #![trigger ranges[i]]
        0 <= i < nets.len() ==> ranges[i]@.len() == 1 && ranges[i]@[0].subnet@ == nets[i].text()
            && ranges[i]@[0].extra@ == "{}"@
}

/// Whether `new` is `old` with its ranges set to the networks: its type and its other fields are
/// kept, and where it had none it gets `host-local` and no other fields.
pub open spec fn is_seeded(new: Option<Ipam>, old: Option<Ipam>, nets: Seq<IpNet>) -> bool {
    new matches Some(n) && {
        &&& n.ranges matches Some(rs) && are_ranges_of(rs@, nets)
        &&& match old {
            Some(o) => {
                &&& n.extra@ == o.extra@
                &&& match o.ipam_type {
                    Some(t) => n.ipam_type matches Some(u) && u@ == t@,
                    None => n.ipam_type matches Some(u) && u@ == "host-local"@,
                }
            },
            None => n.extra@ == "{}"@ && (n.ipam_type matches Some(u) && u@ == "host-local"@),
        }
    }
}

fn ranges_of(nets: &[IpNet]) -> (r: Vec<Vec<Range>>)
    ensures
        are_ranges_of(r@, nets@),
{
    let mut out: Vec<Vec<Range>> = Vec::new();
    let mut i: usize = 0;
    while i < nets.len()
        invariant
            i <= nets@.len(),
            are_ranges_of(out@, nets@.take(i as int)),
        decreases nets@.len() - i,
    {
        let one: Vec<Range> = vec![
            Range { subnet: nets[i].to_text(), extra: String::from_str("{}") },
        ];
        out.push(one);
        i = i + 1;
    }
    assert(nets@.take(i as int) =~= nets@);
    out
}

impl ConfList {
    /// Gives the first `bridge` plugin one set of ranges for each pod network. Nothing else is
    /// changed; without such a plugin nothing at all is.
    pub fn seed_pod_cidrs(&mut self, pod_cidrs: &[IpNet]) -> (r: Result<(), CniError>)
        ensures
            match bridge_at(old(self).plugins@, 0) {
                None => r == Err::<(), CniError>(CniError::NoBridgePlugin) && *final(self) == *old(
                    self,
                ),
                Some(b) => {
                    &&& r is Ok
                    &&& final(self).extra == old(self).extra
                    &&& final(self).plugins@.len() == old(self).plugins@.len()
                    &&& forall|i: int|
                        0 <= i < old(self).plugins@.len() && i != b ==> (
                        #[trigger] final(self).plugins@[i]) == old(self).plugins@[i]
                    &&& final(self).plugins@[b].plugin_type == old(self).plugins@[b].plugin_type
                    &&& final(self).plugins@[b].extra == old(self).plugins@[b].extra
                    &&& is_seeded(
                        final(self).plugins@[b].ipam,
                        old(self).plugins@[b].ipam,
                        pod_cidrs@,
                    )
                },
            },
    {
        let ghost before = self.plugins@;
        let mut i: usize = 0;
        while i < self.plugins.len()
            invariant_except_break
                bridge_at(before, i as int) == bridge_at(before, 0),
            invariant
                i <= self.plugins@.len(),
                self.plugins@ == before,
                *self == *old(self),
            ensures
                if i < self.plugins@.len() {
                    bridge_at(before, 0) == Some(i as int)
                } else {
                    bridge_at(before, 0) is None
                },
            decreases self.plugins@.len() - i,
        {
            if same(self.plugins[i].plugin_type.as_str(), "bridge") {
                break;
            }
            i = i + 1;
        }
        if i == self.plugins.len() {
            return Err(CniError::NoBridgePlugin);
        }
        let (ipam_type, extra) = match &self.plugins[i].ipam {
            Some(o) => (
                match &o.ipam_type {
                    Some(t) => t.clone(),
                    None => String::from_str("host-local"),
                },
                o.extra.clone(),
            ),
            None => (String::from_str("host-local"), String::from_str("{}")),
        };
        let seeded = Plugin {
            plugin_type: self.plugins[i].plugin_type.clone(),
            ipam: Some(
                Ipam { ipam_type: Some(ipam_type), ranges: Some(ranges_of(pod_cidrs)), extra },
            ),
            extra: self.plugins[i].extra.clone(),
        };
        self.plugins.set(i, seeded);
        Ok(())
    }
}

// ---------------------------------------------------------------------------------------------
// A configuration that is written
// ---------------------------------------------------------------------------------------------

/// A JSON value.
pub enum Json {
    Flag(bool),
    Text(Seq<char>),
    List(Seq<Json>),
    Object(Map<Seq<char>, Json>),
}

/// `serde_json::Value`: carried as it is. What a value holds is named by `json_of`; of the type
/// itself nothing is claimed.
#[verifier::external_type_specification]
#[verifier::external_body]
pub struct ExJsonValue(serde_json::Value);

/// What a `serde_json::Value` holds.
pub uninterp spec fn json_of(v: serde_json::Value) -> Json;

/// The text of a JSON value, indented.
pub uninterp spec fn pretty_of(v: Json) -> Seq<char>;

/// What a list of values holds.
pub open spec fn jsons(v: Seq<serde_json::Value>) -> Seq<Json> {
    v.map_values(|x: serde_json::Value| json_of(x))
}

/// The object of fields, later ones replacing earlier ones.
pub open spec fn object_of(v: Seq<(String, serde_json::Value)>) -> Map<Seq<char>, Json>
    decreases v.len(),
{
    if v.len() == 0 {
        Map::empty()
    } else {
        object_of(v.drop_last()).insert(v.last().0@, json_of(v.last().1))
    }
}

/// `serde_json::Value::String`: the value holds the text.
#[verifier::external_body]
fn json_text(s: &str) -> (r: serde_json::Value)
    ensures
        json_of(r) == Json::Text(s@),
{
    serde_json::Value::String(s.to_string())
}

/// `serde_json::Value::Bool`: the value holds the flag.
#[verifier::external_body]
fn json_flag(b: bool) -> (r: serde_json::Value)
    ensures
        json_of(r) == Json::Flag(b),
{
    serde_json::Value::Bool(b)
}

/// `serde_json::Value::Array`: the value holds the list.
#[verifier::external_body]
fn json_list(v: Vec<serde_json::Value>) -> (r: serde_json::Value)
    ensures
        json_of(r) == Json::List(jsons(v@)),
{
    serde_json::Value::Array(v)
}

/// `serde_json::Map::from_iter` in a `serde_json::Value::Object`: the value holds the object of
/// the fields, of which the last with a name counts.
#[verifier::external_body]
fn json_object(v: Vec<(String, serde_json::Value)>) -> (r: serde_json::Value)
    ensures
        json_of(r) == Json::Object(object_of(v@)),
{
    serde_json::Value::Object(v.into_iter().collect())
}

/// `serde_json::to_string_pretty` on a value, which cannot fail as every key is a string: the
/// indented text, named by `pretty_of`. An object keeps its fields by name, so that the text
/// depends on nothing but what the value holds.
#[verifier::external_body]
fn json_pretty(v: &serde_json::Value) -> (r: String)
    ensures
        r@ == pretty_of(json_of(*v)),
{
    serde_json::to_string_pretty(v).unwrap()
}

/// The ranges of a network: a list of one range.
pub open spec fn range_json(net: IpNet) -> Json {
    Json::List(seq![Json::Object(Map::empty().insert("subnet"@, Json::Text(net.text())))])
}

/// How the bridge gives out addresses.
pub open spec fn ipam_json(nets: Seq<IpNet>) -> Json {
    Json::Object(
        Map::empty().insert("type"@, Json::Text("host-local"@)).insert(
            "ranges"@,
            Json::List(nets.map_values(|n: IpNet| range_json(n))),
        ),
    )
}

/// The bridge: it is the pods' default gateway, and lets a pod reach itself through a service.
pub open spec fn bridge_json(nets: Seq<IpNet>) -> Json {
    Json::Object(
        Map::empty().insert("type"@, Json::Text("bridge"@)).insert(
            "bridge"@,
            Json::Text("kube-bridge"@),
        ).insert("isDefaultGateway"@, Json::Flag(true)).insert(
            "hairpinMode"@,
            Json::Flag(true),
        ).insert("ipam"@, ipam_json(nets)),
    )
}

/// The configuration for the pod networks of a node: a bridge, and a loopback.
pub open spec fn conflist_json(nets: Seq<IpNet>) -> Json {
    Json::Object(
        Map::empty().insert("cniVersion"@, Json::Text("1.0.0"@)).insert(
            "name"@,
            Json::Text("kube-router-rs"@),
        ).insert(
            "plugins"@,
            Json::List(
                seq![
                    bridge_json(nets),
                    Json::Object(Map::empty().insert("type"@, Json::Text("loopback"@))),
                ],
            ),
        ),
    )
}

/// Adds a field.
fn field(v: &mut Vec<(String, serde_json::Value)>, name: &str, value: serde_json::Value)
    ensures
        object_of(final(v)@) == object_of(old(v)@).insert(name@, json_of(value)),
{
    let ghost before = v@;
    v.push((name.to_owned(), value));
    assert(v@.drop_last() =~= before);
}

fn range_value(net: &IpNet) -> (r: serde_json::Value)
    ensures
        json_of(r) == range_json(*net),
{
    let mut fields: Vec<(String, serde_json::Value)> = Vec::new();
    field(&mut fields, "subnet", json_text(net.to_text().as_str()));
    let one: Vec<serde_json::Value> = vec![json_object(fields)];
    assert(jsons(one@) =~= seq![
        Json::Object(Map::empty().insert("subnet"@, Json::Text(net.text()))),
    ]);
    json_list(one)
}

fn ranges_value(nets: &[IpNet]) -> (r: serde_json::Value)
    ensures
        json_of(r) == Json::List(nets@.map_values(|n: IpNet| range_json(n))),
{
    let ghost all = nets@.map_values(|n: IpNet| range_json(n));
    let mut list: Vec<serde_json::Value> = Vec::new();
    let mut i: usize = 0;
    assert(jsons(list@) =~= all.take(0));
    while i < nets.len()
        invariant
            i <= nets@.len(),
            all == nets@.map_values(|n: IpNet| range_json(n)),
            jsons(list@) == all.take(i as int),
        decreases nets@.len() - i,
    {
        let ghost before = list@;
        list.push(range_value(&nets[i]));
        assert(jsons(list@) =~= jsons(before).push(all[i as int]));
        assert(all.take(i + 1) =~= all.take(i as int).push(all[i as int]));
        i = i + 1;
    }
    assert(all.take(i as int) =~= all);
    json_list(list)
}

/// The text of the configuration for the pod networks of a node.
pub fn kuberouter_conflist(pod_cidrs: &[IpNet]) -> (r: String)
    ensures
        r@ == pretty_of(conflist_json(pod_cidrs@)),
{
    let mut ipam: Vec<(String, serde_json::Value)> = Vec::new();
    field(&mut ipam, "type", json_text("host-local"));
    field(&mut ipam, "ranges", ranges_value(pod_cidrs));
    let mut bridge: Vec<(String, serde_json::Value)> = Vec::new();
    field(&mut bridge, "type", json_text("bridge"));
    field(&mut bridge, "bridge", json_text("kube-bridge"));
    field(&mut bridge, "isDefaultGateway", json_flag(true));
    field(&mut bridge, "hairpinMode", json_flag(true));
    field(&mut bridge, "ipam", json_object(ipam));
    let mut loopback: Vec<(String, serde_json::Value)> = Vec::new();
    field(&mut loopback, "type", json_text("loopback"));
    let plugins: Vec<serde_json::Value> = vec![json_object(bridge), json_object(loopback)];
    assert(jsons(plugins@) =~= seq![
        bridge_json(pod_cidrs@),
        Json::Object(Map::empty().insert("type"@, Json::Text("loopback"@))),
    ]);
    let mut doc: Vec<(String, serde_json::Value)> = Vec::new();
    field(&mut doc, "cniVersion", json_text("1.0.0"));
    field(&mut doc, "name", json_text("kube-router-rs"));
    field(&mut doc, "plugins", json_list(plugins));
    json_pretty(&json_object(doc))
}

/// Whether a plugin is copied: it is not installed yet, and there is one to copy.
pub fn should_install(installed: bool, available: bool) -> (r: bool)
    ensures
        r == (!installed && available),
{
    !installed && available
}

} // verus!
