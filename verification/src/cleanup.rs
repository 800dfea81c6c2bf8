//! Removal of what the agent has set up on a node.

use vstd::prelude::*;

use crate::common::ipfamily::IpFamily;
use crate::common::naming::{DST_PREFIX, SRC_PREFIX};
use crate::config::KubeRouterConfig;
use crate::netpol::naming::LOCAL_PODS_SET;
use crate::observability::http::next_word;
use crate::text::{split_on, starts_with, strip_prefix};

verus! {

/// One command; that it fails does not matter.
#[derive(Debug, Clone, PartialEq, Eq)]
pub struct CleanupCmd {
    /// What it does, in words.
    pub desc: &'static str,
    /// Program.
    pub prog: &'static str,
    /// Arguments.
    pub args: Vec<String>,
}

/// A command as a value.
#[verifier::ext_equal]
pub struct CmdView {
    pub desc: Seq<char>,
    pub prog: Seq<char>,
    pub args: Seq<Seq<char>>,
}

impl View for CleanupCmd {
    type V = CmdView;

    open spec fn view(&self) -> CmdView {
        CmdView { desc: self.desc@, prog: self.prog@, args: crate::text::texts(self.args@) }
    }
}

/// The values of commands.
pub open spec fn cmd_views(v: Seq<CleanupCmd>) -> Seq<CmdView> {
    v.map_values(|c: CleanupCmd| c@)
}

/// A command from its parts.
pub fn cmd(desc: &'static str, prog: &'static str, args: Vec<&'static str>) -> (r: CleanupCmd)
    ensures
        r@ == (CmdView { desc: desc@, prog: prog@, args: crate::orchestrate::words(args@) }),
{
    let ghost all = crate::orchestrate::words(args@);
    let mut out: Vec<String> = Vec::new();
    let mut i: usize = 0;
    assert(crate::text::texts(out@) =~= all.take(0));
    while i < args.len()
        invariant
            i <= args@.len(),
            all == crate::orchestrate::words(args@),
            crate::text::texts(out@) == all.take(i as int),
        decreases args@.len() - i,
    {
        let ghost before = out@;
        out.push(args[i].to_owned());
        proof {
            assert(out@ =~= before.push(out@.last()));
            crate::text::lemma_texts_push(before, out@.last());
            assert(all.take(i + 1) =~= all.take(i as int).push(all[i as int]));
        }
        i = i + 1;
    }
    assert(all.take(i as int) =~= all);
    CleanupCmd { desc, prog, args: out }
}

fn add_cmd(
    v: &mut Vec<CleanupCmd>,
    desc: &'static str,
    prog: &'static str,
    args: Vec<&'static str>,
)
    ensures
        cmd_views(final(v)@) == cmd_views(old(v)@).push(
            (CmdView { desc: desc@, prog: prog@, args: crate::orchestrate::words(args@) }),
        ),
{
    let ghost before = v@;
    v.push(cmd(desc, prog, args));
    assert(cmd_views(v@) =~= cmd_views(before).push(v@.last()@));
}

/// The commands that remove the jumps and chains of the firewall with one family's tool.
pub open spec fn chain_commands(prog: Seq<char>) -> Seq<CmdView> {
    seq![
        CmdView {
            desc: "unhook KUBE-ROUTER filter jump"@,
            prog,
            args: seq!["-w"@, "-t"@, "filter"@, "-D"@, "INPUT"@, "-j"@, "KUBE-ROUTER-INPUT"@],
        },
        CmdView {
            desc: "unhook KUBE-ROUTER filter jump"@,
            prog,
            args: seq!["-w"@, "-t"@, "filter"@, "-D"@, "FORWARD"@, "-j"@, "KUBE-ROUTER-FORWARD"@],
        },
        CmdView {
            desc: "unhook KUBE-ROUTER filter jump"@,
            prog,
            args: seq!["-w"@, "-t"@, "filter"@, "-D"@, "OUTPUT"@, "-j"@, "KUBE-ROUTER-OUTPUT"@],
        },
        CmdView {
            desc: "flush filter chain"@,
            prog,
            args: seq!["-w"@, "-t"@, "filter"@, "-F"@, "KUBE-ROUTER-INPUT"@],
        },
        CmdView {
            desc: "delete filter chain"@,
            prog,
            args: seq!["-w"@, "-t"@, "filter"@, "-X"@, "KUBE-ROUTER-INPUT"@],
        },
        CmdView {
            desc: "flush filter chain"@,
            prog,
            args: seq!["-w"@, "-t"@, "filter"@, "-F"@, "KUBE-ROUTER-FORWARD"@],
        },
        CmdView {
            desc: "delete filter chain"@,
            prog,
            args: seq!["-w"@, "-t"@, "filter"@, "-X"@, "KUBE-ROUTER-FORWARD"@],
        },
        CmdView {
            desc: "flush filter chain"@,
            prog,
            args: seq!["-w"@, "-t"@, "filter"@, "-F"@, "KUBE-ROUTER-OUTPUT"@],
        },
        CmdView {
            desc: "delete filter chain"@,
            prog,
            args: seq!["-w"@, "-t"@, "filter"@, "-X"@, "KUBE-ROUTER-OUTPUT"@],
        },
    ]
}

/// The command that destroys a set.
pub open spec fn destroy_command(set: Seq<char>) -> CmdView {
    CmdView { desc: "destroy ipset"@, prog: "ipset"@, args: seq!["destroy"@, set] }
}

/// The commands that remove the firewall: its jumps and its chains in both families, then its
/// sets, to which the chains refer.
pub open spec fn firewall_commands() -> Seq<CmdView> {
    chain_commands("iptables"@) + chain_commands("ip6tables"@) + seq![
        destroy_command("kube-router-local-pods"@),
        destroy_command("inet6:kube-router-local-pods"@),
        destroy_command("kube-router-local-pods-inet6"@),
    ]
}

fn add_chain_cmds(v: &mut Vec<CleanupCmd>, prog: &'static str)
    ensures
        cmd_views(final(v)@) == cmd_views(old(v)@) + chain_commands(prog@),
{
    let ghost start = cmd_views(v@);
    add_cmd(
        v,
        "unhook KUBE-ROUTER filter jump",
        prog,
        vec!["-w", "-t", "filter", "-D", "INPUT", "-j", "KUBE-ROUTER-INPUT"],
    );
    add_cmd(
        v,
        "unhook KUBE-ROUTER filter jump",
        prog,
        vec!["-w", "-t", "filter", "-D", "FORWARD", "-j", "KUBE-ROUTER-FORWARD"],
    );
    add_cmd(
        v,
        "unhook KUBE-ROUTER filter jump",
        prog,
        vec!["-w", "-t", "filter", "-D", "OUTPUT", "-j", "KUBE-ROUTER-OUTPUT"],
    );
    add_cmd(
        v,
        "flush filter chain",
        prog,
        vec!["-w", "-t", "filter", "-F", "KUBE-ROUTER-INPUT"],
    );
    add_cmd(
        v,
        "delete filter chain",
        prog,
        vec!["-w", "-t", "filter", "-X", "KUBE-ROUTER-INPUT"],
    );
    add_cmd(
        v,
        "flush filter chain",
        prog,
        vec!["-w", "-t", "filter", "-F", "KUBE-ROUTER-FORWARD"],
    );
    add_cmd(
        v,
        "delete filter chain",
        prog,
        vec!["-w", "-t", "filter", "-X", "KUBE-ROUTER-FORWARD"],
    );
    add_cmd(
        v,
        "flush filter chain",
        prog,
        vec!["-w", "-t", "filter", "-F", "KUBE-ROUTER-OUTPUT"],
    );
    add_cmd(
        v,
        "delete filter chain",
        prog,
        vec!["-w", "-t", "filter", "-X", "KUBE-ROUTER-OUTPUT"],
    );
    assert(cmd_views(v@) =~~= start + chain_commands(prog@));
}

/// The commands that remove the firewall.
pub fn firewall_cmds() -> (r: Vec<CleanupCmd>)
    ensures
        cmd_views(r@) == firewall_commands(),
{
    let mut v: Vec<CleanupCmd> = Vec::new();
    add_chain_cmds(&mut v, "iptables");
    add_chain_cmds(&mut v, "ip6tables");
    add_cmd(&mut v, "destroy ipset", "ipset", vec!["destroy", "kube-router-local-pods"]);
    add_cmd(&mut v, "destroy ipset", "ipset", vec!["destroy", "inet6:kube-router-local-pods"]);
    add_cmd(&mut v, "destroy ipset", "ipset", vec!["destroy", "kube-router-local-pods-inet6"]);
    assert(cmd_views(v@) =~~= firewall_commands());
    v
}

/// The commands that remove the service proxy: virtual services, link, chains, sets.
pub open spec fn proxy_commands() -> Seq<CmdView> {
    seq![
        CmdView {
            desc: "clear all IPVS services"@,
            prog: "ipvsadm"@,
            args: seq!["-C"@],
        },
        CmdView {
            desc: "delete kube-dummy-if"@,
            prog: "ip"@,
            args: seq!["link"@, "del"@, "kube-dummy-if"@],
        },
        CmdView {
            desc: "unhook KUBE-ROUTER-SERVICES INPUT jump"@,
            prog: "iptables"@,
            args: seq!["-w"@, "-t"@, "filter"@, "-D"@, "INPUT"@, "-j"@, "KUBE-ROUTER-SERVICES"@],
        },
        CmdView {
            desc: "flush KUBE-ROUTER-SERVICES"@,
            prog: "iptables"@,
            args: seq!["-w"@, "-t"@, "filter"@, "-F"@, "KUBE-ROUTER-SERVICES"@],
        },
        CmdView {
            desc: "delete KUBE-ROUTER-SERVICES"@,
            prog: "iptables"@,
            args: seq!["-w"@, "-t"@, "filter"@, "-X"@, "KUBE-ROUTER-SERVICES"@],
        },
        CmdView {
            desc: "flush KUBE-ROUTER-HAIRPIN"@,
            prog: "iptables"@,
            args: seq!["-w"@, "-t"@, "nat"@, "-F"@, "KUBE-ROUTER-HAIRPIN"@],
        },
        CmdView {
            desc: "delete KUBE-ROUTER-HAIRPIN"@,
            prog: "iptables"@,
            args: seq!["-w"@, "-t"@, "nat"@, "-X"@, "KUBE-ROUTER-HAIRPIN"@],
        },
        CmdView {
            desc: "destroy ipset"@,
            prog: "ipset"@,
            args: seq!["destroy"@, "kube-router-local-ips"@],
        },
        CmdView {
            desc: "destroy ipset"@,
            prog: "ipset"@,
            args: seq!["destroy"@, "kube-router-svip"@],
        },
        CmdView {
            desc: "destroy ipset"@,
            prog: "ipset"@,
            args: seq!["destroy"@, "kube-router-svip-prt"@],
        },
        CmdView {
            desc: "destroy ipset"@,
            prog: "ipset"@,
            args: seq!["destroy"@, "inet6:kube-router-local-ips"@],
        },
        CmdView {
            desc: "destroy ipset"@,
            prog: "ipset"@,
            args: seq!["destroy"@, "inet6:kube-router-svip"@],
        },
        CmdView {
            desc: "destroy ipset"@,
            prog: "ipset"@,
            args: seq!["destroy"@, "inet6:kube-router-svip-prt"@],
        },
    ]
}

/// The commands that remove the service proxy.
pub fn service_proxy_cmds() -> (r: Vec<CleanupCmd>)
    ensures
        cmd_views(r@) == proxy_commands(),
{
    let mut v: Vec<CleanupCmd> = Vec::new();
    add_cmd(
        &mut v,
        "clear all IPVS services",
        "ipvsadm",
        vec!["-C"],
    );
    add_cmd(
        &mut v,
        "delete kube-dummy-if",
        "ip",
        vec!["link", "del", "kube-dummy-if"],
    );
    add_cmd(
        &mut v,
        "unhook KUBE-ROUTER-SERVICES INPUT jump",
        "iptables",
        vec!["-w", "-t", "filter", "-D", "INPUT", "-j", "KUBE-ROUTER-SERVICES"],
    );
    add_cmd(
        &mut v,
        "flush KUBE-ROUTER-SERVICES",
        "iptables",
        vec!["-w", "-t", "filter", "-F", "KUBE-ROUTER-SERVICES"],
    );
    add_cmd(
        &mut v,
        "delete KUBE-ROUTER-SERVICES",
        "iptables",
        vec!["-w", "-t", "filter", "-X", "KUBE-ROUTER-SERVICES"],
    );
    add_cmd(
        &mut v,
        "flush KUBE-ROUTER-HAIRPIN",
        "iptables",
        vec!["-w", "-t", "nat", "-F", "KUBE-ROUTER-HAIRPIN"],
    );
    add_cmd(
        &mut v,
        "delete KUBE-ROUTER-HAIRPIN",
        "iptables",
        vec!["-w", "-t", "nat", "-X", "KUBE-ROUTER-HAIRPIN"],
    );
    add_cmd(
        &mut v,
        "destroy ipset",
        "ipset",
        vec!["destroy", "kube-router-local-ips"],
    );
    add_cmd(
        &mut v,
        "destroy ipset",
        "ipset",
        vec!["destroy", "kube-router-svip"],
    );
    add_cmd(
        &mut v,
        "destroy ipset",
        "ipset",
        vec!["destroy", "kube-router-svip-prt"],
    );
    add_cmd(
        &mut v,
        "destroy ipset",
        "ipset",
        vec!["destroy", "inet6:kube-router-local-ips"],
    );
    add_cmd(
        &mut v,
        "destroy ipset",
        "ipset",
        vec!["destroy", "inet6:kube-router-svip"],
    );
    add_cmd(
        &mut v,
        "destroy ipset",
        "ipset",
        vec!["destroy", "inet6:kube-router-svip-prt"],
    );
    assert(cmd_views(v@) =~~= proxy_commands());
    v
}

/// The commands that remove the router: tables, rules, tunnels.
pub open spec fn router_commands() -> Seq<CmdView> {
    seq![
        CmdView {
            desc: "flush DSR route table"@,
            prog: "ip"@,
            args: seq!["route"@, "flush"@, "table"@, "78"@],
        },
        CmdView {
            desc: "flush external-IP route table"@,
            prog: "ip"@,
            args: seq!["route"@, "flush"@, "table"@, "79"@],
        },
        CmdView {
            desc: "delete DSR ip rule"@,
            prog: "ip"@,
            args: seq!["rule"@, "del"@, "table"@, "78"@],
        },
        CmdView {
            desc: "delete external-IP ip rule"@,
            prog: "ip"@,
            args: seq!["rule"@, "del"@, "table"@, "79"@],
        },
        CmdView {
            desc: "delete kube-tunnel-if"@,
            prog: "ip"@,
            args: seq!["link"@, "del"@, "kube-tunnel-if"@],
        },
        CmdView {
            desc: "delete kube-tunnel-v6"@,
            prog: "ip"@,
            args: seq!["link"@, "del"@, "kube-tunnel-v6"@],
        },
    ]
}

/// The commands that remove the router.
pub fn router_cmds() -> (r: Vec<CleanupCmd>)
    ensures
        cmd_views(r@) == router_commands(),
{
    let mut v: Vec<CleanupCmd> = Vec::new();
    add_cmd(
        &mut v,
        "flush DSR route table",
        "ip",
        vec!["route", "flush", "table", "78"],
    );
    add_cmd(
        &mut v,
        "flush external-IP route table",
        "ip",
        vec!["route", "flush", "table", "79"],
    );
    add_cmd(
        &mut v,
        "delete DSR ip rule",
        "ip",
        vec!["rule", "del", "table", "78"],
    );
    add_cmd(
        &mut v,
        "delete external-IP ip rule",
        "ip",
        vec!["rule", "del", "table", "79"],
    );
    add_cmd(
        &mut v,
        "delete kube-tunnel-if",
        "ip",
        vec!["link", "del", "kube-tunnel-if"],
    );
    add_cmd(
        &mut v,
        "delete kube-tunnel-v6",
        "ip",
        vec!["link", "del", "kube-tunnel-v6"],
    );
    assert(cmd_views(v@) =~~= router_commands());
    v
}

/// The commands, where the condition holds.
pub open spec fn if_on(cond: bool, v: Seq<CmdView>) -> Seq<CmdView> {
    if cond {
        v
    } else {
        Seq::empty()
    }
}

/// All commands for a configuration: first the service proxy, then the firewall, then the router,
/// so that services stop before what carries them is removed.
pub open spec fn plan_of(c: KubeRouterConfig) -> Seq<CmdView> {
    if_on(c.run_service_proxy, proxy_commands()) + if_on(c.run_firewall, firewall_commands())
        + if_on(c.run_router, router_commands())
}

/// All commands for a configuration.
pub fn cleanup_plan(config: &KubeRouterConfig) -> (r: Vec<CleanupCmd>)
    ensures
        cmd_views(r@) == plan_of(*config),
{
    let mut v: Vec<CleanupCmd> = Vec::new();
    if config.run_service_proxy {
        let mut more = service_proxy_cmds();
        extend(&mut v, &mut more);
    }
    assert(cmd_views(v@) =~= if_on(config.run_service_proxy, proxy_commands()));
    if config.run_firewall {
        let mut more = firewall_cmds();
        extend(&mut v, &mut more);
    }
    if config.run_router {
        let mut more = router_cmds();
        extend(&mut v, &mut more);
    }
    assert(cmd_views(v@) =~= plan_of(*config));
    v
}

fn extend(v: &mut Vec<CleanupCmd>, more: &mut Vec<CleanupCmd>)
    ensures
        cmd_views(final(v)@) == cmd_views(old(v)@) + cmd_views(old(more)@),
{
    let ghost a = v@;
    let ghost b = more@;
    v.append(more);
    assert(cmd_views(v@) =~= cmd_views(a) + cmd_views(b));
}

/// What belongs to a controller that does not run is left alone, and everything that belongs to
/// the others is removed, the service proxy's before the router's.
pub proof fn lemma_only_what_runs(c: KubeRouterConfig)
    ensures
        !c.run_service_proxy && !c.run_router && c.run_firewall ==> plan_of(c)
            == firewall_commands(),
        c.run_service_proxy && !c.run_router && !c.run_firewall ==> plan_of(c)
            == proxy_commands(),
        !c.run_service_proxy && c.run_router && !c.run_firewall ==> plan_of(c)
            == router_commands(),
        c.run_service_proxy && c.run_router ==> plan_of(c).take(proxy_commands().len() as int)
            == proxy_commands() && plan_of(c).skip(plan_of(c).len() - router_commands().len())
            == router_commands(),
{
    let p = plan_of(c);
    if !c.run_service_proxy && !c.run_router && c.run_firewall {
        assert(p =~= firewall_commands());
    }
    if c.run_service_proxy && !c.run_router && !c.run_firewall {
        assert(p =~= proxy_commands());
    }
    if !c.run_service_proxy && c.run_router && !c.run_firewall {
        assert(p =~= router_commands());
    }
    if c.run_service_proxy && c.run_router {
        assert(p.take(proxy_commands().len() as int) =~= proxy_commands());
        assert(p.skip(p.len() - router_commands().len()) =~= router_commands());
    }
}

/// The chain that a line of a saved table declares, where it is one of a pod or a policy.
pub open spec fn swept(line: Seq<char>) -> Seq<Seq<char>> {
    if line.len() > 0 && line[0] == ':' {
        let chain = crate::observability::http::first_word(line.skip(1));
        if chain.len() > 0 && (crate::text::has_prefix(chain, "KUBE-POD-FW-"@)
            || crate::text::has_prefix(chain, "KUBE-NWPLCY-"@)) {
            seq![chain]
        } else {
            Seq::empty()
        }
    } else {
        Seq::empty()
    }
}

/// The chains of pods and policies that a saved table declares, in order.
pub open spec fn swept_chains(doc: Seq<char>) -> Seq<Seq<char>> {
    crate::seqs::flat(crate::text::split(doc, '\n'), |l: Seq<char>| swept(l))
}

fn add_swept(out: &mut Vec<String>, line: &str)
    ensures
        crate::text::texts(final(out)@) == crate::text::texts(old(out)@) + swept(line@),
{
    let ghost before = out@;
    proof {
        reveal_strlit(":");
        assert(":"@ =~= seq![':']);
        if line@.len() > 0 {
            assert(line@.take(1) =~= seq![line@[0]]);
        }
    }
    match strip_prefix(line, ":") {
        Some(rest) => {
            assert(line@.take(1)[0] == ':');
            let (chain, _rest) = next_word(rest.as_str());
            if !chain.is_empty() && (starts_with(chain, "KUBE-POD-FW-") || starts_with(
                chain,
                "KUBE-NWPLCY-",
            )) {
                out.push(chain.to_owned());
                proof {
                    crate::text::lemma_texts_push(before, out@.last());
                    assert(out@ =~= before.push(out@.last()));
                }
            }
        },
        None => {
            assert(line@.len() > 0 ==> line@[0] != ':');
        },
    }
    assert(crate::text::texts(out@) =~= crate::text::texts(before) + swept(line@));
}

/// The chains of pods and policies that a saved table declares, in order.
pub fn chains_to_sweep(doc: &str) -> (r: Vec<String>)
    ensures
        crate::text::texts(r@) == swept_chains(doc@),
{
    let lines = split_on(doc, '\n');
    let ghost all = crate::text::texts(lines@);
    let ghost f = |l: Seq<char>| swept(l);
    let mut out: Vec<String> = Vec::new();
    let mut i: usize = 0;
    assert(crate::text::texts(out@) =~= crate::seqs::flat(all.take(0), f));
    while i < lines.len()
        invariant
            i <= lines@.len(),
            all == crate::text::texts(lines@),
            f == (|l: Seq<char>| swept(l)),
            crate::text::texts(out@) == crate::seqs::flat(all.take(i as int), f),
        decreases lines@.len() - i,
    {
        proof {
            crate::seqs::lemma_flat_step(all, f, i as int);
            assert(all[i as int] == lines@[i as int]@);
        }
        add_swept(&mut out, lines[i].as_str());
        i = i + 1;
    }
    assert(all.take(i as int) =~= all);
    out
}

/// A word that ends at white space ends there.
proof fn lemma_word_ends(s: Seq<char>, i: int, n: int)
    requires
        0 <= i <= n < s.len(),
        forall|k: int| i <= k < n ==> !crate::text::is_whitespace(#[trigger] s[k]),
        crate::text::is_whitespace(s[n]),
    ensures
        crate::observability::http::word_end(s, i) == n,
    decreases n - i,
{
    if i < n {
        assert(!crate::text::is_whitespace(s[i]));
        lemma_word_ends(s, i + 1, n);
    }
}

/// A chain of a pod or a policy that a firewall plan declares is found again in the saved table,
/// by the same name.
pub proof fn lemma_declared_chains_are_swept(chain: Seq<char>)
    requires
        crate::text::has_prefix(chain, "KUBE-POD-FW-"@) || crate::text::has_prefix(
            chain,
            "KUBE-NWPLCY-"@,
        ),
        forall|k: int| 0 <= k < chain.len() ==> !crate::text::is_whitespace(#[trigger] chain[k]),
    ensures
        swept(crate::netpol::synth::decl(chain)) == seq![chain],
{
    let line = crate::netpol::synth::decl(chain);
    reveal_strlit(":");
    reveal_strlit(" - [0:0]");
    reveal_strlit("KUBE-POD-FW-");
    reveal_strlit("KUBE-NWPLCY-");
    assert(line[0] == ':');
    let rest = line.skip(1);
    assert(rest =~= chain + " - [0:0]"@);
    assert(chain.len() > 0);
    assert(rest[0] == chain[0]);
    assert(crate::text::trim_start(rest) == rest);
    assert(rest[chain.len() as int] == ' ');
    assert forall|k: int| 0 <= k < chain.len() implies !crate::text::is_whitespace(
        #[trigger] rest[k],
    ) by {
        assert(rest[k] == chain[k]);
    }
    lemma_word_ends(rest, 0, chain.len() as int);
    assert(rest.take(chain.len() as int) =~= chain);
}

/// The chains that every firewall plan declares under a fixed name of the router are deleted, in
/// each family with the family's tool.
pub proof fn lemma_router_chains_are_deleted(chain: Seq<char>, family: IpFamily)
    requires
        chain == crate::netpol::naming::ROUTER_INPUT@ || chain
            == crate::netpol::naming::ROUTER_FORWARD@ || chain
            == crate::netpol::naming::ROUTER_OUTPUT@,
    ensures
        exists|i: int|
            0 <= i < firewall_commands().len() && (#[trigger] firewall_commands()[i]).prog == (
            match family {
                IpFamily::V4 => "iptables"@,
                IpFamily::V6 => "ip6tables"@,
            }) && firewall_commands()[i].args == seq!["-w"@, "-t"@, "filter"@, "-X"@, chain],
{
    let cs = firewall_commands();
    let from: int = if family == IpFamily::V4 {
        0
    } else {
        9
    };
    let i: int = if chain == crate::netpol::naming::ROUTER_INPUT@ {
        4
    } else if chain == crate::netpol::naming::ROUTER_FORWARD@ {
        6
    } else {
        8
    };
    assert(cs[from + i].args =~= seq!["-w"@, "-t"@, "filter"@, "-X"@, chain]);
}

/// The set of the local pods that a firewall plan makes in a family is destroyed.
pub proof fn lemma_local_pods_set_is_destroyed(family: IpFamily)
    ensures
        firewall_commands().contains(
            destroy_command(crate::netpol::naming::local_pods_name(family)),
        ),
{
    let name = crate::netpol::naming::local_pods_name(family);
    if family == IpFamily::V4 {
        assert(firewall_commands()[18] == destroy_command(name));
    } else {
        reveal_strlit("kube-router-local-pods");
        reveal_strlit("-inet6");
        reveal_strlit("kube-router-local-pods-inet6");
        assert(name =~= "kube-router-local-pods-inet6"@);
        assert(firewall_commands()[20] == destroy_command(name));
    }
}

/// Whether a name is that of a set of a policy or of the local pods.
pub open spec fn is_firewall_set(name: Seq<char>) -> bool {
    crate::text::has_prefix(name, SRC_PREFIX@) || crate::text::has_prefix(name, DST_PREFIX@)
        || crate::text::has_prefix(name, LOCAL_PODS_SET@)
}

fn names_firewall_set(name: &str) -> (r: bool)
    ensures
        r == is_firewall_set(name@),
{
    starts_with(name, SRC_PREFIX) || starts_with(name, DST_PREFIX) || starts_with(
        name,
        LOCAL_PODS_SET,
    )
}

/// The set that a line of a list of set names stands for, where it is one of a policy or of the
/// local pods, or a temporary set of one of these.
pub open spec fn swept_set(line: Seq<char>) -> Seq<Seq<char>> {
    if is_firewall_set(line) || (crate::text::has_prefix(line, "TMP-"@) && is_firewall_set(
        line.skip("TMP-"@.len() as int),
    )) {
        seq![line]
    } else {
        Seq::empty()
    }
}

/// The sets of policies and of local pods in a list of set names, one to a line, in order.
pub open spec fn swept_sets(list: Seq<char>) -> Seq<Seq<char>> {
    crate::seqs::flat(crate::text::split(list, '\n'), |l: Seq<char>| swept_set(l))
}

/// The sets of policies and of local pods in a list of set names, one to a line, in order. They
/// are destroyed once the chains that refer to them are gone.
pub fn sets_to_sweep(list: &str) -> (r: Vec<String>)
    ensures
        crate::text::texts(r@) == swept_sets(list@),
{
    let lines = split_on(list, '\n');
    let ghost all = crate::text::texts(lines@);
    let ghost f = |l: Seq<char>| swept_set(l);
    let mut out: Vec<String> = Vec::new();
    let mut i: usize = 0;
    assert(crate::text::texts(out@) =~= crate::seqs::flat(all.take(0), f));
    while i < lines.len()
        invariant
            i <= lines@.len(),
            all == crate::text::texts(lines@),
            f == (|l: Seq<char>| swept_set(l)),
            crate::text::texts(out@) == crate::seqs::flat(all.take(i as int), f),
        decreases lines@.len() - i,
    {
        let ghost before = out@;
        proof {
            crate::seqs::lemma_flat_step(all, f, i as int);
            assert(all[i as int] == lines@[i as int]@);
        }
        let line = lines[i].as_str();
        let temporary = match strip_prefix(line, "TMP-") {
            Some(set) => names_firewall_set(set.as_str()),
            None => false,
        };
        if names_firewall_set(line) || temporary {
            out.push(lines[i].clone());
            proof {
                crate::text::lemma_texts_push(before, out@.last());
                assert(out@ =~= before.push(out@.last()));
            }
        }
        assert(crate::text::texts(out@) =~= crate::seqs::flat(all.take(i + 1), f));
        i = i + 1;
    }
    assert(all.take(i as int) =~= all);
    out
}

/// A set of a policy that a firewall plan makes is found again in the list of set names, by the
/// same name.
pub proof fn lemma_policy_sets_are_swept(key: Seq<char>)
    ensures
        swept_set(crate::netpol::naming::set_name(SRC_PREFIX@, key)) == seq![
            crate::netpol::naming::set_name(SRC_PREFIX@, key),
        ],
        swept_set(crate::netpol::naming::set_name(DST_PREFIX@, key)) == seq![
            crate::netpol::naming::set_name(DST_PREFIX@, key),
        ],
{
    let src = crate::netpol::naming::set_name(SRC_PREFIX@, key);
    let dst = crate::netpol::naming::set_name(DST_PREFIX@, key);
    assert(src.take(SRC_PREFIX@.len() as int) =~= SRC_PREFIX@);
    assert(dst.take(DST_PREFIX@.len() as int) =~= DST_PREFIX@);
}

/// A temporary set that was left behind is found again like the set that it stood for.
pub proof fn lemma_temporary_sets_are_swept(set: Seq<char>)
    requires
        is_firewall_set(set),
    ensures
        swept_set(crate::netpol::ipset::tmp_name(set)) == seq![
            crate::netpol::ipset::tmp_name(set),
        ],
{
    let tmp = crate::netpol::ipset::tmp_name(set);
    assert(tmp.take("TMP-"@.len() as int) =~= "TMP-"@);
    assert(tmp.skip("TMP-"@.len() as int) =~= set);
}

/// The set of the local pods that a firewall plan makes in a family is found again in the list of
/// set names, by the same name.
pub proof fn lemma_local_pods_set_is_swept(family: IpFamily)
    ensures
        swept_set(crate::netpol::naming::local_pods_name(family)) == seq![
            crate::netpol::naming::local_pods_name(family),
        ],
{
    let name = crate::netpol::naming::local_pods_name(family);
    assert(name.take(LOCAL_PODS_SET@.len() as int) =~= LOCAL_PODS_SET@);
}

/// The arguments that destroy a set.
pub fn destroy_args(set: &str) -> (r: Vec<String>)
    ensures
        crate::text::texts(r@) == seq!["destroy"@, set@],
{
    let r: Vec<String> = vec![String::from_str("destroy"), set.to_owned()];
    assert(crate::text::texts(r@) =~= seq!["destroy"@, set@]);
    r
}

/// The arguments that empty (`-F`) or delete (`-X`) a chain of the filter table.
pub fn sweep_args(op: &str, chain: &str) -> (r: Vec<String>)
    ensures
        crate::text::texts(r@) == seq!["-w"@, "-t"@, "filter"@, op@, chain@],
{
    let r: Vec<String> = vec![
        String::from_str("-w"),
        String::from_str("-t"),
        String::from_str("filter"),
        op.to_owned(),
        chain.to_owned(),
    ];
    assert(crate::text::texts(r@) =~= seq!["-w"@, "-t"@, "filter"@, op@, chain@]);
    r
}

/// The arguments of runs as values.
pub open spec fn run_views(v: Seq<Vec<String>>) -> Seq<Seq<Seq<char>>> {
    v.map_values(|a: Vec<String>| crate::text::texts(a@))
}

/// The runs that apply one operation to each of the chains, in order.
pub open spec fn sweep_runs(op: Seq<char>, chains: Seq<Seq<char>>) -> Seq<Seq<Seq<char>>> {
    chains.map_values(|c: Seq<char>| seq!["-w"@, "-t"@, "filter"@, op, c])
}

fn add_sweep_runs(out: &mut Vec<Vec<String>>, op: &str, chains: &[String])
    ensures
        run_views(final(out)@) == run_views(old(out)@) + sweep_runs(
            op@,
            crate::text::texts(chains@),
        ),
{
    let ghost start = run_views(out@);
    let ghost all = sweep_runs(op@, crate::text::texts(chains@));
    let mut i: usize = 0;
    assert(run_views(out@) =~= start + all.take(0));
    while i < chains.len()
        invariant
            i <= chains@.len(),
            all == sweep_runs(op@, crate::text::texts(chains@)),
            run_views(out@) == start + all.take(i as int),
        decreases chains@.len() - i,
    {
        let ghost before = out@;
        let args = sweep_args(op, chains[i].as_str());
        out.push(args);
        assert(run_views(out@) =~= run_views(before).push(crate::text::texts(args@)));
        assert(all[i as int] == crate::text::texts(args@));
        assert(all.take(i + 1) =~= all.take(i as int).push(all[i as int]));
        assert(run_views(out@) =~= start + all.take(i + 1));
        i = i + 1;
    }
    assert(all.take(i as int) =~= all);
}

/// The runs that remove chains: all are emptied before any is deleted, so that none refers to
/// another when it is.
pub fn sweep_plan(chains: &[String]) -> (r: Vec<Vec<String>>)
    ensures
        run_views(r@) == sweep_runs("-F"@, crate::text::texts(chains@)) + sweep_runs(
            "-X"@,
            crate::text::texts(chains@),
        ),
{
    let mut out: Vec<Vec<String>> = Vec::new();
    assert(run_views(out@) =~= Seq::<Seq<Seq<char>>>::empty());
    add_sweep_runs(&mut out, "-F", chains);
    add_sweep_runs(&mut out, "-X", chains);
    assert(run_views(out@) =~= sweep_runs("-F"@, crate::text::texts(chains@)) + sweep_runs(
        "-X"@,
        crate::text::texts(chains@),
    ));
    out
}

} // verus!
