//! Laws of the removal of what the agent has set up, written out.

use vstd::prelude::*;

use crate::cleanup::{
    chain_commands, firewall_commands, is_firewall_set, plan_of, proxy_commands, router_commands,
    swept, swept_chains, swept_set, swept_sets, sweep_runs, CleanupCmd,
};
use crate::config::KubeRouterConfig;
use crate::observability::laws::is_word;
use crate::text::{has_prefix, is_whitespace};

verus! {

/// The built-in chains that jump to chains of the router.
pub open spec fn builtin(k: int) -> Seq<char> {
    if k == 0 {
        "INPUT"@
    } else if k == 1 {
        "FORWARD"@
    } else {
        "OUTPUT"@
    }
}

/// The chains of the router that they jump to.
pub open spec fn router_chain(k: int) -> Seq<char> {
    if k == 0 {
        "KUBE-ROUTER-INPUT"@
    } else if k == 1 {
        "KUBE-ROUTER-FORWARD"@
    } else {
        "KUBE-ROUTER-OUTPUT"@
    }
}

/// The firewall is removed in each family with the family's tool: for each of the three chains
/// the jump to it is taken away, then it is emptied and deleted; after all chains the three names
/// of the sets of local pods are destroyed. There is no other command.
pub proof fn lemma_firewall_removal_written_out(v6: bool, k: int)
    requires
        0 <= k < 3,
    ensures
        ({
            let all = firewall_commands();
            let from: int = if v6 {
                9
            } else {
                0
            };
            let tool = if v6 {
                "ip6tables"@
            } else {
                "iptables"@
            };
            &&& all.len() == 21
            &&& all[from + k].prog == tool
            &&& all[from + k].args == seq![
                "-w"@,
                "-t"@,
                "filter"@,
                "-D"@,
                builtin(k),
                "-j"@,
                router_chain(k),
            ]
            &&& all[from + 3 + 2 * k].prog == tool
            &&& all[from + 3 + 2 * k].args == seq![
                "-w"@,
                "-t"@,
                "filter"@,
                "-F"@,
                router_chain(k),
            ]
            &&& all[from + 4 + 2 * k].prog == tool
            &&& all[from + 4 + 2 * k].args == seq![
                "-w"@,
                "-t"@,
                "filter"@,
                "-X"@,
                router_chain(k),
            ]
            &&& all[18 + k].prog == "ipset"@
            &&& all[18 + k].args == seq![
                "destroy"@,
                if k == 0 {
                    "kube-router-local-pods"@
                } else if k == 1 {
                    "inet6:kube-router-local-pods"@
                } else {
                    "kube-router-local-pods-inet6"@
                },
            ]
        }),
{
    let all = firewall_commands();
    let from: int = if v6 {
        9
    } else {
        0
    };
    let part = chain_commands(if v6 { "ip6tables"@ } else { "iptables"@ });
    assert(all[from + k] == part[k]);
    assert(all[from + 3 + 2 * k] == part[3 + 2 * k]);
    assert(all[from + 4 + 2 * k] == part[4 + 2 * k]);
    assert(k == 0 || k == 1 || k == 2);
}

/// The service proxy is removed: all virtual services first, then the link, then the jump to its
/// chain, its chains, and its sets in both families.
pub proof fn lemma_proxy_removal_written_out()
    ensures
        ({
            let all = proxy_commands();
            &&& all.len() == 13
            &&& all[0].prog == "ipvsadm"@ && all[0].args == seq!["-C"@]
            &&& all[1].prog == "ip"@ && all[1].args == seq!["link"@, "del"@, "kube-dummy-if"@]
            &&& forall|i: int| 2 <= i < 7 ==> (#[trigger] all[i]).prog == "iptables"@
            &&& all[2].args == seq![
                "-w"@,
                "-t"@,
                "filter"@,
                "-D"@,
                "INPUT"@,
                "-j"@,
                "KUBE-ROUTER-SERVICES"@,
            ]
            &&& all[3].args == seq!["-w"@, "-t"@, "filter"@, "-F"@, "KUBE-ROUTER-SERVICES"@]
            &&& all[4].args == seq!["-w"@, "-t"@, "filter"@, "-X"@, "KUBE-ROUTER-SERVICES"@]
            &&& all[5].args == seq!["-w"@, "-t"@, "nat"@, "-F"@, "KUBE-ROUTER-HAIRPIN"@]
            &&& all[6].args == seq!["-w"@, "-t"@, "nat"@, "-X"@, "KUBE-ROUTER-HAIRPIN"@]
            &&& forall|i: int| 7 <= i < 13 ==> (#[trigger] all[i]).prog == "ipset"@
            &&& all[7].args == seq!["destroy"@, "kube-router-local-ips"@]
            &&& all[8].args == seq!["destroy"@, "kube-router-svip"@]
            &&& all[9].args == seq!["destroy"@, "kube-router-svip-prt"@]
            &&& all[10].args == seq!["destroy"@, "inet6:kube-router-local-ips"@]
            &&& all[11].args == seq!["destroy"@, "inet6:kube-router-svip"@]
            &&& all[12].args == seq!["destroy"@, "inet6:kube-router-svip-prt"@]
        }),
{
}

/// The router is removed: both of its tables are emptied, the rules that lead to them are taken
/// away, and its tunnels are deleted.
pub proof fn lemma_router_removal_written_out()
    ensures
        ({
            let all = router_commands();
            &&& all.len() == 6
            &&& forall|i: int| 0 <= i < 6 ==> (#[trigger] all[i]).prog == "ip"@
            &&& all[0].args == seq!["route"@, "flush"@, "table"@, "78"@]
            &&& all[1].args == seq!["route"@, "flush"@, "table"@, "79"@]
            &&& all[2].args == seq!["rule"@, "del"@, "table"@, "78"@]
            &&& all[3].args == seq!["rule"@, "del"@, "table"@, "79"@]
            &&& all[4].args == seq!["link"@, "del"@, "kube-tunnel-if"@]
            &&& all[5].args == seq!["link"@, "del"@, "kube-tunnel-v6"@]
        }),
{
}

/// What runs is removed, and nothing else: the commands of the service proxy, then those of the
/// firewall, then those of the router, each exactly where its part runs.
pub proof fn lemma_removal_of_what_runs(c: KubeRouterConfig)
    ensures
        ({
            let p = if c.run_service_proxy {
                proxy_commands().len() as int
            } else {
                0
            };
            let f = if c.run_firewall {
                firewall_commands().len() as int
            } else {
                0
            };
            let r = if c.run_router {
                router_commands().len() as int
            } else {
                0
            };
            &&& plan_of(c).len() == p + f + r
            &&& c.run_service_proxy ==> plan_of(c).subrange(0, p) == proxy_commands()
            &&& c.run_firewall ==> plan_of(c).subrange(p, p + f) == firewall_commands()
            &&& c.run_router ==> plan_of(c).subrange(p + f, p + f + r) == router_commands()
        }),
{
    let p = if c.run_service_proxy {
        proxy_commands().len() as int
    } else {
        0
    };
    let f = if c.run_firewall {
        firewall_commands().len() as int
    } else {
        0
    };
    let r = if c.run_router {
        router_commands().len() as int
    } else {
        0
    };
    if c.run_service_proxy {
        assert(plan_of(c).subrange(0, p) =~= proxy_commands());
    }
    if c.run_firewall {
        assert(plan_of(c).subrange(p, p + f) =~= firewall_commands());
    }
    if c.run_router {
        assert(plan_of(c).subrange(p + f, p + f + r) =~= router_commands());
    }
}

/// Commands and runs are shown one by one, with their words, program and arguments.
pub proof fn lemma_commands_are_shown(
    c: CleanupCmd,
    v: Seq<CleanupCmd>,
    r: Seq<Vec<String>>,
    i: int,
)
    ensures
        crate::cleanup::cmd_views(v).len() == v.len(),
        0 <= i < v.len() ==> crate::cleanup::cmd_views(v)[i] == v[i]@,
        crate::cleanup::run_views(r).len() == r.len(),
        0 <= i < r.len() ==> crate::cleanup::run_views(r)[i] == crate::text::texts(r[i]@),
        c@.desc == c.desc@,
        c@.prog == c.prog@,
        c@.args == crate::text::texts(c.args@),
{
}

/// A line that declares a chain of a pod or of a policy yields that chain; one that declares
/// another chain, or declares none, yields nothing.
pub proof fn lemma_swept_line(chain: Seq<char>, rest: Seq<char>, line: Seq<char>)
    requires
        is_word(chain),
        rest.len() > 0 ==> is_whitespace(rest[0]),
        line.len() > 0 ==> line[0] != ':',
    ensures
        has_prefix(chain, "KUBE-POD-FW-"@) || has_prefix(chain, "KUBE-NWPLCY-"@) ==> swept(
            seq![':'] + chain + rest,
        ) == seq![chain],
        !has_prefix(chain, "KUBE-POD-FW-"@) && !has_prefix(chain, "KUBE-NWPLCY-"@) ==> swept(
            seq![':'] + chain + rest,
        ).len() == 0,
        swept(line).len() == 0,
{
    let whole = seq![':'] + chain + rest;
    let s = chain + rest;
    assert(whole.skip(1) =~= s);
    assert(s[0] == chain[0]);
    assert(crate::text::trim_start(s) == s);
    assert forall|k: int| 0 <= k < chain.len() implies !is_whitespace(#[trigger] s[k]) by {
        assert(s[k] == chain[k]);
    }
    lemma_ends(s, 0, chain.len() as int);
    assert(s.take(chain.len() as int) =~= chain);
}

proof fn lemma_ends(s: Seq<char>, i: int, end: int)
    requires
        0 <= i <= end <= s.len(),
        forall|k: int| i <= k < end ==> !is_whitespace(#[trigger] s[k]),
        end < s.len() ==> is_whitespace(s[end]),
    ensures
        crate::observability::http::word_end(s, i) == end,
    decreases end - i,
{
    if i < end {
        lemma_ends(s, i + 1, end);
    }
}

/// Every line of a saved table and of a list of set names is looked at, in order: of lines joined
/// by line ends comes out what comes out of each.
pub proof fn lemma_lines_are_swept_in_order(lines: Seq<Seq<char>>, line: Seq<char>)
    requires
        lines.len() > 0,
        forall|i: int| 0 <= i < lines.len() ==> !(#[trigger] lines[i]).contains('\n'),
        !line.contains('\n'),
    ensures
        swept_chains(line) == swept(line),
        swept_chains(crate::text::join(lines.push(line), seq!['\n'])) == swept_chains(
            crate::text::join(lines, seq!['\n']),
        ) + swept(line),
        swept_sets(line) == swept_set(line),
        swept_sets(crate::text::join(lines.push(line), seq!['\n'])) == swept_sets(
            crate::text::join(lines, seq!['\n']),
        ) + swept_set(line),
{
    let f = |l: Seq<char>| swept(l);
    let g = |l: Seq<char>| swept_set(l);
    let all = lines.push(line);
    assert forall|i: int| 0 <= i < all.len() implies !(#[trigger] all[i]).contains('\n') by {
        if i < lines.len() {
            assert(all[i] == lines[i]);
        }
    }
    crate::text::lemma_split_join(lines, '\n');
    crate::text::lemma_split_join(all, '\n');
    crate::text::lemma_split_single(line, '\n');
    assert(all =~= lines + seq![line]);
    crate::seqs::lemma_flat_parts(lines, seq![line], line, f);
    crate::seqs::lemma_flat_parts(lines, seq![line], line, g);
}

/// A name is that of a set of the firewall exactly where it starts with one of three words; it is
/// swept, and so is its temporary; no other name is.
pub proof fn lemma_swept_names(name: Seq<char>, rest: Seq<char>)
    ensures
        is_firewall_set(name) <==> has_prefix(name, "KUBE-SRC-"@) || has_prefix(
            name,
            "KUBE-DST-"@,
        ) || has_prefix(name, "kube-router-local-pods"@),
        is_firewall_set(name) ==> swept_set(name) == seq![name] && swept_set("TMP-"@ + name)
            == seq!["TMP-"@ + name],
        !is_firewall_set(name) && !has_prefix(name, "TMP-"@) ==> swept_set(name).len() == 0,
        is_firewall_set("KUBE-SRC-"@ + rest),
        is_firewall_set("KUBE-DST-"@ + rest),
        is_firewall_set("kube-router-local-pods"@ + rest),
{
    let tmp = "TMP-"@ + name;
    assert(tmp.take("TMP-"@.len() as int) =~= "TMP-"@);
    assert(tmp.skip("TMP-"@.len() as int) =~= name);
    crate::text_laws::lemma_prefix(name, "KUBE-SRC-"@, rest);
    crate::text_laws::lemma_prefix(name, "KUBE-DST-"@, rest);
    crate::text_laws::lemma_prefix(name, "kube-router-local-pods"@, rest);
}

/// One run for each chain, in order.
pub proof fn lemma_runs_written_out(op: Seq<char>, chains: Seq<Seq<char>>, i: int)
    requires
        0 <= i < chains.len(),
    ensures
        sweep_runs(op, chains).len() == chains.len(),
        sweep_runs(op, chains)[i] == seq!["-w"@, "-t"@, "filter"@, op, chains[i]],
{
}

} // verus!
