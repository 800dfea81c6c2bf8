//! Laws of the network plugins' configuration and of the container runtime's endpoint.

use vstd::prelude::*;

use crate::cni::{bridge_at, conflist_json, is_seeded, CniError, Ipam, Json, Plugin};
use crate::cri::{endpoint_of, first_separator, separator_at, CriError};
use crate::net::IpNet;

verus! {

/// The plugin that is completed is the first of type `bridge`; there is none exactly where no
/// plugin is of that type.
pub proof fn lemma_first_bridge(plugins: Seq<Plugin>)
    ensures
        match bridge_at(plugins, 0) {
            Some(b) => 0 <= b < plugins.len() && plugins[b].plugin_type@ == "bridge"@ && forall|
                j: int,
            |
                0 <= j < b ==> (#[trigger] plugins[j]).plugin_type@ != "bridge"@,
            None => forall|j: int|
                0 <= j < plugins.len() ==> (#[trigger] plugins[j]).plugin_type@ != "bridge"@,
        },
{
    lemma_bridge_from(plugins, 0);
}

proof fn lemma_bridge_from(plugins: Seq<Plugin>, i: int)
    requires
        0 <= i <= plugins.len(),
    ensures
        match bridge_at(plugins, i) {
            Some(b) => i <= b < plugins.len() && plugins[b].plugin_type@ == "bridge"@ && forall|
                j: int,
            |
                i <= j < b ==> (#[trigger] plugins[j]).plugin_type@ != "bridge"@,
            None => forall|j: int|
                i <= j < plugins.len() ==> (#[trigger] plugins[j]).plugin_type@ != "bridge"@,
        },
    decreases plugins.len() - i,
{
    if i < plugins.len() && plugins[i].plugin_type@ != "bridge"@ {
        lemma_bridge_from(plugins, i + 1);
    }
}

/// What is completed has one set of one range for each network, in order, and nothing else in
/// them; the type and the other fields are kept, and are `host-local` and none where there were
/// none.
pub proof fn lemma_seeded_by_fields(new: Option<Ipam>, old: Option<Ipam>, nets: Seq<IpNet>)
    requires
        is_seeded(new, old, nets),
    ensures
        new is Some,
        new->0.ranges is Some,
        new->0.ranges->0@.len() == nets.len(),
        forall|i: int| #![trigger new->0.ranges->0@[i]]
            0 <= i < nets.len() ==> new->0.ranges->0@[i]@.len() == 1
                && new->0.ranges->0@[i]@[0].subnet@ == nets[i].text()
                && new->0.ranges->0@[i]@[0].extra@ == "{}"@,
        new->0.ipam_type is Some,
        old is Some && old->0.ipam_type is Some ==> new->0.ipam_type->0@ == old->0.ipam_type->0@,
        old is None || old->0.ipam_type is None ==> new->0.ipam_type->0@ == "host-local"@,
        old is Some ==> new->0.extra@ == old->0.extra@,
        old is None ==> new->0.extra@ == "{}"@,
{
}

/// Whether a value is an object whose field of that name is that value.
pub open spec fn has_field(v: Json, name: Seq<char>, value: Json) -> bool {
    v matches Json::Object(m) && m.contains_key(name) && m[name] == value
}

/// The configuration that is written: its version and name, a bridge and a loopback in this
/// order; the bridge is the default gateway, hairpins, and has its addresses from `host-local`
/// with one range for each network, in order.
pub proof fn lemma_configuration_written_out(nets: Seq<IpNet>, i: int)
    ensures
        ({
            let doc = conflist_json(nets);
            let plugins = doc->Object_0["plugins"@]->List_0;
            let bridge = plugins[0];
            let ipam = bridge->Object_0["ipam"@];
            let ranges = ipam->Object_0["ranges"@]->List_0;
            &&& has_field(doc, "cniVersion"@, Json::Text("1.0.0"@))
            &&& has_field(doc, "name"@, Json::Text("kube-router-rs"@))
            &&& has_field(doc, "plugins"@, Json::List(plugins))
            &&& plugins.len() == 2
            &&& has_field(bridge, "type"@, Json::Text("bridge"@))
            &&& has_field(bridge, "bridge"@, Json::Text("kube-bridge"@))
            &&& has_field(bridge, "isDefaultGateway"@, Json::Flag(true))
            &&& has_field(bridge, "hairpinMode"@, Json::Flag(true))
            &&& has_field(bridge, "ipam"@, ipam)
            &&& has_field(plugins[1], "type"@, Json::Text("loopback"@))
            &&& has_field(ipam, "type"@, Json::Text("host-local"@))
            &&& has_field(ipam, "ranges"@, Json::List(ranges))
            &&& ranges.len() == nets.len()
            &&& 0 <= i < nets.len() ==> ranges[i] is List && ranges[i]->List_0.len() == 1
                && has_field(ranges[i]->List_0[0], "subnet"@, Json::Text(nets[i].text()))
        }),
{
    lemma_field_names();
}

proof fn lemma_field_names()
    ensures
        "cniVersion"@ != "name"@,
        "cniVersion"@ != "plugins"@,
        "name"@ != "plugins"@,
        "type"@ != "bridge"@,
        "type"@ != "isDefaultGateway"@,
        "type"@ != "hairpinMode"@,
        "type"@ != "ipam"@,
        "bridge"@ != "isDefaultGateway"@,
        "bridge"@ != "hairpinMode"@,
        "bridge"@ != "ipam"@,
        "isDefaultGateway"@ != "hairpinMode"@,
        "isDefaultGateway"@ != "ipam"@,
        "hairpinMode"@ != "ipam"@,
        "type"@ != "ranges"@,
{
    reveal_strlit("cniVersion");
    reveal_strlit("name");
    reveal_strlit("plugins");
    reveal_strlit("type");
    reveal_strlit("bridge");
    reveal_strlit("isDefaultGateway");
    reveal_strlit("hairpinMode");
    reveal_strlit("ipam");
    reveal_strlit("ranges");
    assert("cniVersion"@.len() == 10);
    assert("name"@.len() == 4);
    assert("plugins"@.len() == 7);
    assert("type"@[0] == 't');
    assert("bridge"@[0] == 'b');
    assert("isDefaultGateway"@[1] == 's');
    assert("hairpinMode"@[0] == 'h');
    assert("ipam"@[0] == 'i');
    assert("ipam"@[1] == 'p');
    assert("isDefaultGateway"@[0] == 'i');
    assert("ranges"@[0] == 'r');
}

/// An endpoint is what stands before and behind `://`: a protocol without a colon and a path,
/// neither of them empty. Without `://` there is none.
pub proof fn lemma_endpoints(protocol: Seq<char>, path: Seq<char>, s: Seq<char>)
    requires
        !protocol.contains(':'),
    ensures
        protocol.len() > 0 && path.len() > 0 ==> endpoint_of(
            protocol + seq![':', '/', '/'] + path,
        ) == Some((protocol, path)),
        protocol.len() == 0 || path.len() == 0 ==> endpoint_of(
            protocol + seq![':', '/', '/'] + path,
        ) is None,
        (forall|i: int| !#[trigger] separator_at(s, i)) ==> endpoint_of(s) is None,
{
    let w = protocol + seq![':', '/', '/'] + path;
    let n = protocol.len() as int;
    assert(w[n] == ':' && w[n + 1] == '/' && w[n + 2] == '/');
    assert forall|k: int| 0 <= k < n implies w[k] != ':' by {
        assert(w[k] == protocol[k]);
        assert(protocol.contains(protocol[k]));
    }
    lemma_separator(w, 0, n);
    assert(w.take(n) =~= protocol);
    assert(w.skip(n + 3) =~= path);
    if forall|i: int| !#[trigger] separator_at(s, i) {
        lemma_no_separator(s, 0);
    }
}

proof fn lemma_separator(s: Seq<char>, i: int, n: int)
    requires
        0 <= i <= n,
        separator_at(s, n),
        forall|k: int| i <= k < n ==> s[k] != ':',
    ensures
        first_separator(s, i) == Some(n),
    decreases n - i,
{
    if i < n {
        lemma_separator(s, i + 1, n);
    }
}

proof fn lemma_no_separator(s: Seq<char>, i: int)
    requires
        0 <= i,
        forall|k: int| !#[trigger] separator_at(s, k),
    ensures
        first_separator(s, i) is None,
    decreases s.len() - i,
{
    if i < s.len() {
        lemma_no_separator(s, i + 1);
    }
}

/// The texts of failures.
pub proof fn lemma_failure_texts(c: CniError, r: CriError)
    ensures
        c matches CniError::Parse(m) ==> c.text() == "invalid CNI config: "@ + m@,
        c is NoBridgePlugin ==> c.text() == "no bridge plugin found in CNI conflist"@,
        r matches CriError::Endpoint(m) ==> r.text() == "bad endpoint: "@ + m@,
        r matches CriError::Transport(m) ==> r.text() == "transport error: "@ + m@,
        r matches CriError::Rpc(m) ==> r.text() == "rpc error: "@ + m@,
        r matches CriError::Info(m) ==> r.text() == "container info error: "@ + m@,
        r matches CriError::Timeout(d) ==> r.text() == "timed out after "@
            + crate::cri::span_text_of(d.secs, d.nanos),
{
}

} // verus!
