//! Names of the chains and address sets that the firewall manages, and the marks it puts on
//! packets.

use vstd::prelude::*;

use crate::common::ipfamily::IpFamily;
use crate::common::naming::{family_tag, hash16, DST_PREFIX, SRC_PREFIX};
use crate::text::{
    cat2, cat3, cat5, cat6, cat7, chars_of, dec_text, find_either, parse_unsigned, string_of, trim,
};

verus! {

/// Chain that `INPUT` jumps to.
pub const ROUTER_INPUT: &'static str = "KUBE-ROUTER-INPUT";

/// Chain that `FORWARD` jumps to.
pub const ROUTER_FORWARD: &'static str = "KUBE-ROUTER-FORWARD";

/// Chain that `OUTPUT` jumps to.
pub const ROUTER_OUTPUT: &'static str = "KUBE-ROUTER-OUTPUT";

/// Chain of the rules for all traffic: drop what is invalid, accept what belongs to a
/// connection, accept control messages.
pub const NWPLCY_COMMON: &'static str = "KUBE-NWPLCY-COMMON";

/// Chain that marks traffic which no policy restricts.
pub const NWPLCY_DEFAULT: &'static str = "KUBE-NWPLCY-DEFAULT";

/// Chain that every top-level chain ends with; it holds the decision.
pub const NWPLCY_TAIL: &'static str = "KUBE-NWPLCY-TAIL";

/// Mark of a packet that matched a policy rule.
pub const MARK_MATCHED: &'static str = "0x10000/0x10000";

/// Mark of a packet that a policy accepts.
pub const MARK_ACCEPTED: &'static str = "0x20000/0x20000";

/// Set of the addresses of local pods, which gates the default rejects.
pub const LOCAL_PODS_SET: &'static str = "kube-router-local-pods";

/// The name of the set of local pod addresses in one family.
pub open spec fn local_pods_name(family: IpFamily) -> Seq<char> {
    match family {
        IpFamily::V4 => LOCAL_PODS_SET@,
        IpFamily::V6 => LOCAL_PODS_SET@ + "-inet6"@,
    }
}

/// The name of the set of local pod addresses in one family.
pub fn local_pods_set(family: IpFamily) -> (r: String)
    ensures
        r@ == local_pods_name(family),
{
    match family {
        IpFamily::V4 => LOCAL_PODS_SET.to_owned(),
        IpFamily::V6 => cat2(LOCAL_PODS_SET, "-inet6"),
    }
}

/// The name of a set: a prefix and the hash of its key.
pub open spec fn set_name(prefix: Seq<char>, key: Seq<char>) -> Seq<char> {
    prefix + crate::common::naming::hash_of(key)
}

fn named_set(prefix: &str, key: &str) -> (r: String)
    ensures
        r@ == set_name(prefix@, key@),
        r@.len() == prefix@.len() + 16,
{
    cat2(prefix, hash16(key).as_str())
}

/// The set of sources of a policy.
pub open spec fn src_set_name(
    namespace: Seq<char>,
    policy: Seq<char>,
    family: IpFamily,
) -> Seq<char> {
    set_name(SRC_PREFIX@, namespace + policy + crate::common::naming::tag_of(family))
}

/// The set of sources of a policy.
pub fn src_set(namespace: &str, policy: &str, family: IpFamily) -> (r: String)
    ensures
        r@ == src_set_name(namespace@, policy@, family),
        r@.len() == SRC_PREFIX@.len() + 16,
{
    named_set(SRC_PREFIX, cat3(namespace, policy, family_tag(family)).as_str())
}

/// The set of the pods that a policy protects.
pub open spec fn dst_set_name(
    namespace: Seq<char>,
    policy: Seq<char>,
    family: IpFamily,
) -> Seq<char> {
    set_name(DST_PREFIX@, namespace + policy + crate::common::naming::tag_of(family))
}

/// The set of the pods that a policy protects.
pub fn dst_set(namespace: &str, policy: &str, family: IpFamily) -> (r: String)
    ensures
        r@ == dst_set_name(namespace@, policy@, family),
        r@.len() == DST_PREFIX@.len() + 16,
{
    named_set(DST_PREFIX, cat3(namespace, policy, family_tag(family)).as_str())
}

/// The set of the peers of one rule for traffic to the pods.
pub open spec fn indexed_src_set_name(
    namespace: Seq<char>,
    policy: Seq<char>,
    rule: int,
    family: IpFamily,
) -> Seq<char> {
    set_name(
        SRC_PREFIX@,
        namespace + policy + "ingress"@ + crate::text::dec(rule as nat)
            + crate::common::naming::tag_of(family),
    )
}

/// The set of the peers of one rule for traffic to the pods.
pub fn indexed_src_set(namespace: &str, policy: &str, rule: usize, family: IpFamily) -> (r: String)
    ensures
        r@ == indexed_src_set_name(namespace@, policy@, rule as int, family),
        r@.len() == SRC_PREFIX@.len() + 16,
{
    named_set(
        SRC_PREFIX,
        cat5(
            namespace,
            policy,
            "ingress",
            dec_text(rule as u64).as_str(),
            family_tag(family),
        ).as_str(),
    )
}

/// The set of the peers of one rule for traffic from the pods.
pub open spec fn indexed_dst_set_name(
    namespace: Seq<char>,
    policy: Seq<char>,
    rule: int,
    family: IpFamily,
) -> Seq<char> {
    set_name(
        DST_PREFIX@,
        namespace + policy + "egress"@ + crate::text::dec(rule as nat)
            + crate::common::naming::tag_of(family),
    )
}

/// The set of the peers of one rule for traffic from the pods.
pub fn indexed_dst_set(namespace: &str, policy: &str, rule: usize, family: IpFamily) -> (r: String)
    ensures
        r@ == indexed_dst_set_name(namespace@, policy@, rule as int, family),
        r@.len() == DST_PREFIX@.len() + 16,
{
    named_set(
        DST_PREFIX,
        cat5(
            namespace,
            policy,
            "egress",
            dec_text(rule as u64).as_str(),
            family_tag(family),
        ).as_str(),
    )
}

/// The set of the peer pods of one rule for traffic to the pods.
pub open spec fn indexed_src_pod_set_name(
    namespace: Seq<char>,
    policy: Seq<char>,
    rule: int,
    family: IpFamily,
) -> Seq<char> {
    set_name(
        SRC_PREFIX@,
        namespace + policy + "ingressrule"@ + crate::text::dec(rule as nat)
            + crate::common::naming::tag_of(family) + "pod"@,
    )
}

/// The set of the peer pods of one rule for traffic to the pods.
pub fn indexed_src_pod_set(
    namespace: &str,
    policy: &str,
    rule: usize,
    family: IpFamily,
) -> (r: String)
    ensures
        r@ == indexed_src_pod_set_name(namespace@, policy@, rule as int, family),
        r@.len() == SRC_PREFIX@.len() + 16,
{
    named_set(
        SRC_PREFIX,
        cat6(
            namespace,
            policy,
            "ingressrule",
            dec_text(rule as u64).as_str(),
            family_tag(family),
            "pod",
        ).as_str(),
    )
}

/// The set of the peer networks of one rule for traffic to the pods.
pub open spec fn indexed_src_ipblock_set_name(
    namespace: Seq<char>,
    policy: Seq<char>,
    rule: int,
    family: IpFamily,
) -> Seq<char> {
    set_name(
        SRC_PREFIX@,
        namespace + policy + "ingressrule"@ + crate::text::dec(rule as nat)
            + crate::common::naming::tag_of(family) + "ipblock"@,
    )
}

/// The set of the peer networks of one rule for traffic to the pods.
pub fn indexed_src_ipblock_set(
    namespace: &str,
    policy: &str,
    rule: usize,
    family: IpFamily,
) -> (r: String)
    ensures
        r@ == indexed_src_ipblock_set_name(namespace@, policy@, rule as int, family),
        r@.len() == SRC_PREFIX@.len() + 16,
{
    named_set(
        SRC_PREFIX,
        cat6(
            namespace,
            policy,
            "ingressrule",
            dec_text(rule as u64).as_str(),
            family_tag(family),
            "ipblock",
        ).as_str(),
    )
}

/// The set of the peer pods of one rule for traffic from the pods.
pub open spec fn indexed_dst_pod_set_name(
    namespace: Seq<char>,
    policy: Seq<char>,
    rule: int,
    family: IpFamily,
) -> Seq<char> {
    set_name(
        DST_PREFIX@,
        namespace + policy + "egressrule"@ + crate::text::dec(rule as nat)
            + crate::common::naming::tag_of(family) + "pod"@,
    )
}

/// The set of the peer pods of one rule for traffic from the pods.
pub fn indexed_dst_pod_set(
    namespace: &str,
    policy: &str,
    rule: usize,
    family: IpFamily,
) -> (r: String)
    ensures
        r@ == indexed_dst_pod_set_name(namespace@, policy@, rule as int, family),
        r@.len() == DST_PREFIX@.len() + 16,
{
    named_set(
        DST_PREFIX,
        cat6(
            namespace,
            policy,
            "egressrule",
            dec_text(rule as u64).as_str(),
            family_tag(family),
            "pod",
        ).as_str(),
    )
}

/// The set of the peer networks of one rule for traffic from the pods.
pub open spec fn indexed_dst_ipblock_set_name(
    namespace: Seq<char>,
    policy: Seq<char>,
    rule: int,
    family: IpFamily,
) -> Seq<char> {
    set_name(
        DST_PREFIX@,
        namespace + policy + "egressrule"@ + crate::text::dec(rule as nat)
            + crate::common::naming::tag_of(family) + "ipblock"@,
    )
}

/// The set of the peer networks of one rule for traffic from the pods.
pub fn indexed_dst_ipblock_set(
    namespace: &str,
    policy: &str,
    rule: usize,
    family: IpFamily,
) -> (r: String)
    ensures
        r@ == indexed_dst_ipblock_set_name(namespace@, policy@, rule as int, family),
        r@.len() == DST_PREFIX@.len() + 16,
{
    named_set(
        DST_PREFIX,
        cat6(
            namespace,
            policy,
            "egressrule",
            dec_text(rule as u64).as_str(),
            family_tag(family),
            "ipblock",
        ).as_str(),
    )
}

/// The set of the pods that expose a named port of one rule for traffic to the pods.
pub open spec fn indexed_ingress_named_port_set_name(
    namespace: Seq<char>,
    policy: Seq<char>,
    rule: int,
    ep: int,
    family: IpFamily,
) -> Seq<char> {
    set_name(
        DST_PREFIX@,
        namespace + policy + "ingressrule"@ + crate::text::dec(rule as nat)
            + crate::text::dec(ep as nat)
            + crate::common::naming::tag_of(family) + "namedport"@,
    )
}

/// The set of the pods that expose a named port of one rule for traffic to the pods.
pub fn indexed_ingress_named_port_set(
    namespace: &str,
    policy: &str,
    rule: usize,
    ep: usize,
    family: IpFamily,
) -> (r: String)
    ensures
        r@ == indexed_ingress_named_port_set_name(
            namespace@,
            policy@,
            rule as int,
            ep as int,
            family,
        ),
        r@.len() == DST_PREFIX@.len() + 16,
{
    named_set(
        DST_PREFIX,
        cat7(
            namespace,
            policy,
            "ingressrule",
            dec_text(rule as u64).as_str(),
            dec_text(ep as u64).as_str(),
            family_tag(family),
            "namedport",
        ).as_str(),
    )
}

/// The set of the pods that expose a named port of one rule for traffic from the pods.
pub open spec fn indexed_egress_named_port_set_name(
    namespace: Seq<char>,
    policy: Seq<char>,
    rule: int,
    ep: int,
    family: IpFamily,
) -> Seq<char> {
    set_name(
        DST_PREFIX@,
        namespace + policy + "egressrule"@ + crate::text::dec(rule as nat)
            + crate::text::dec(ep as nat)
            + crate::common::naming::tag_of(family) + "namedport"@,
    )
}

/// The set of the pods that expose a named port of one rule for traffic from the pods.
pub fn indexed_egress_named_port_set(
    namespace: &str,
    policy: &str,
    rule: usize,
    ep: usize,
    family: IpFamily,
) -> (r: String)
    ensures
        r@ == indexed_egress_named_port_set_name(
            namespace@,
            policy@,
            rule as int,
            ep as int,
            family,
        ),
        r@.len() == DST_PREFIX@.len() + 16,
{
    named_set(
        DST_PREFIX,
        cat7(
            namespace,
            policy,
            "egressrule",
            dec_text(rule as u64).as_str(),
            dec_text(ep as u64).as_str(),
            family_tag(family),
            "namedport",
        ).as_str(),
    )
}

/// The length of every derived set name, with and without the prefix of a temporary set: both
/// fit the 31 characters that a set name may have, and so does the set of local pods of IPv4. The
/// set of local pods of IPv6 fits, but its temporary set is one character too long.
pub proof fn lemma_set_names_fit()
    ensures
        "TMP-"@.len() + local_pods_name(IpFamily::V4).len() <= 31,
        local_pods_name(IpFamily::V6).len() <= 31,
        "TMP-"@.len() + local_pods_name(IpFamily::V6).len() == 32,
        SRC_PREFIX@.len() + 16 == 25,
        DST_PREFIX@.len() + 16 == 25,
        "TMP-"@.len() + SRC_PREFIX@.len() + 16 <= 31,
        "TMP-"@.len() + DST_PREFIX@.len() + 16 <= 31,
{
    reveal_strlit("KUBE-SRC-");
    reveal_strlit("KUBE-DST-");
    reveal_strlit("TMP-");
    reveal_strlit("kube-router-local-pods");
    reveal_strlit("-inet6");
}

/// A port range in the form `lo:hi`: two numbers of 16 bits around the first `-` or `:`, white
/// space around them ignored, the first below the second.
pub open spec fn port_range_of(range: Seq<char>) -> Option<Seq<char>> {
    let i = crate::text::find_any(range, set!['-', ':']) as int;
    if i == range.len() {
        None
    } else {
        match (
            crate::text::unsigned_of(crate::text::trimmed(range.take(i)), 65535),
            crate::text::unsigned_of(crate::text::trimmed(range.skip(i + 1)), 65535),
        ) {
            (Some(lo), Some(hi)) => if lo < hi {
                Some(crate::text::dec(lo) + ":"@ + crate::text::dec(hi))
            } else {
                None
            },
            _ => None,
        }
    }
}

/// A port range in the form `lo:hi`, or nothing where it cannot be used.
pub fn validate_node_port_range(range: &str) -> (r: Option<String>)
    ensures
        match r {
            Some(t) => port_range_of(range@) == Some(t@),
            None => port_range_of(range@) is None,
        },
{
    let cs = chars_of(range);
    let i: usize = find_either(&cs, '-', ':');
    if i == cs.len() {
        return None;
    }
    let a = string_of(&cs, 0, i);
    let b = string_of(&cs, i + 1, cs.len());
    assert(a@ =~= range@.take(i as int));
    assert(b@ =~= range@.skip(i + 1));
    let lo = parse_unsigned(trim(a.as_str()).as_str(), 65535);
    let hi = parse_unsigned(trim(b.as_str()).as_str(), 65535);
    match (lo, hi) {
        (Some(l), Some(h)) => {
            if l < h {
                Some(cat3(dec_text(l).as_str(), ":", dec_text(h).as_str()))
            } else {
                None
            }
        },
        _ => None,
    }
}

} // verus!
