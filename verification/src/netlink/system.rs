//! The `ip` tool: its arguments, and which of its failures do not matter.

use vstd::prelude::*;

use crate::common::error::quoted;
use crate::netlink::routes::{NetlinkError, Route};
use crate::text::{cat3, contains, dec_text, join_with, trim};

verus! {

/// The main routing table.
pub const MAIN_TABLE: u32 = 254;

/// The words that name a table; none for the main table.
pub open spec fn table_words(table: u32) -> Seq<Seq<char>> {
    if table != MAIN_TABLE {
        seq!["table"@, crate::text::dec(table as nat)]
    } else {
        Seq::empty()
    }
}

/// The words that name a gateway.
pub open spec fn via_words(gateway: Option<crate::ip::IpAddr>) -> Seq<Seq<char>> {
    match gateway {
        Some(g) => seq!["via"@, g.text()],
        None => Seq::empty(),
    }
}

fn word(v: &mut Vec<String>, s: String)
    ensures
        crate::text::texts(final(v)@) == crate::text::texts(old(v)@).push(s@),
{
    let ghost before = v@;
    v.push(s);
    proof {
        crate::text::lemma_texts_push(before, s);
    }
}

fn add_table(v: &mut Vec<String>, table: u32)
    ensures
        crate::text::texts(final(v)@) == crate::text::texts(old(v)@) + table_words(table),
{
    let ghost before = crate::text::texts(v@);
    if table != MAIN_TABLE {
        word(v, String::from_str("table"));
        word(v, dec_text(table as u64));
    }
    assert(crate::text::texts(v@) =~= before + table_words(table));
}

/// The arguments that install a route.
pub fn route_replace_args(route: &Route) -> (r: Vec<String>)
    ensures
        crate::text::texts(r@) == seq!["route"@, "replace"@, route.dst.text()] + via_words(
            route.gateway,
        ) + table_words(route.table),
{
    let mut a: Vec<String> = Vec::new();
    word(&mut a, String::from_str("route"));
    word(&mut a, String::from_str("replace"));
    word(&mut a, route.dst.to_text());
    if let Some(gw) = route.gateway {
        word(&mut a, String::from_str("via"));
        word(&mut a, gw.to_text());
    }
    assert(crate::text::texts(a@) =~= seq!["route"@, "replace"@, route.dst.text()] + via_words(
        route.gateway,
    ));
    add_table(&mut a, route.table);
    a
}

/// The arguments that remove a route.
pub fn route_del_args(route: &Route) -> (r: Vec<String>)
    ensures
        crate::text::texts(r@) == seq!["route"@, "del"@, route.dst.text()] + table_words(
            route.table,
        ),
{
    let mut a: Vec<String> = Vec::new();
    word(&mut a, String::from_str("route"));
    word(&mut a, String::from_str("del"));
    word(&mut a, route.dst.to_text());
    assert(crate::text::texts(a@) =~= seq!["route"@, "del"@, route.dst.text()]);
    add_table(&mut a, route.table);
    a
}

/// The arguments that add or remove an address.
pub fn addr_args(op: &str, link: &str, addr: &str, prefix_len: u8) -> (r: Vec<String>)
    ensures
        crate::text::texts(r@) == seq![
            "addr"@,
            op@,
            addr@ + "/"@ + crate::text::dec(prefix_len as nat),
            "dev"@,
            link@,
        ],
{
    let r: Vec<String> = vec![
        String::from_str("addr"),
        op.to_owned(),
        cat3(addr, "/", dec_text(prefix_len as u64).as_str()),
        String::from_str("dev"),
        link.to_owned(),
    ];
    assert(crate::text::texts(r@) =~= seq![
        "addr"@,
        op@,
        addr@ + "/"@ + crate::text::dec(prefix_len as nat),
        "dev"@,
        link@,
    ]);
    r
}

/// The arguments that make a dummy link.
pub fn dummy_add_args(name: &str) -> (r: Vec<String>)
    ensures
        crate::text::texts(r@) == seq!["link"@, "add"@, name@, "type"@, "dummy"@],
{
    let r: Vec<String> = vec![
        String::from_str("link"),
        String::from_str("add"),
        name.to_owned(),
        String::from_str("type"),
        String::from_str("dummy"),
    ];
    assert(crate::text::texts(r@) =~= seq!["link"@, "add"@, name@, "type"@, "dummy"@]);
    r
}

/// The arguments that bring a link up.
pub fn link_up_args(name: &str) -> (r: Vec<String>)
    ensures
        crate::text::texts(r@) == seq!["link"@, "set"@, name@, "up"@],
{
    let r: Vec<String> = vec![
        String::from_str("link"),
        String::from_str("set"),
        name.to_owned(),
        String::from_str("up"),
    ];
    assert(crate::text::texts(r@) =~= seq!["link"@, "set"@, name@, "up"@]);
    r
}

/// The agent's hold on the `ip` tool.
#[derive(Debug, Clone)]
pub struct SystemNetlink;

impl SystemNetlink {
    /// A new hold.
    pub fn new() -> (r: SystemNetlink)
        ensures
            r == SystemNetlink,
    {
        SystemNetlink
    }
}

/// An operation of which one failure does not matter.
#[derive(Debug, Clone, Copy, PartialEq, Eq, Structural)]
pub enum Tolerance {
    /// What is made may be there already.
    Present,
    /// The address that is removed may be gone already.
    AddressGone,
    /// The route that is removed may be gone already.
    RouteGone,
}

/// The words by which the failure that does not matter is known.
pub open spec fn tolerated(t: Tolerance) -> Seq<char> {
    match t {
        Tolerance::Present => "File exists"@,
        Tolerance::AddressGone => "Cannot assign"@,
        Tolerance::RouteGone => "No such process"@,
    }
}

/// What an operation comes to: a failure that does not matter counts as success.
pub fn tolerate(result: Result<(), NetlinkError>, t: Tolerance) -> (r: Result<(), NetlinkError>)
    ensures
        match result {
            Ok(_) => r is Ok,
            Err(e) => if crate::text::has_infix(e.text(), tolerated(t)) {
                r is Ok
            } else {
                r == Err::<(), NetlinkError>(e)
            },
        },
{
    match result {
        Ok(_) => Ok(()),
        Err(e) => {
            let pattern = match t {
                Tolerance::Present => "File exists",
                Tolerance::AddressGone => "Cannot assign",
                Tolerance::RouteGone => "No such process",
            };
            if contains(e.message().as_str(), pattern) {
                Ok(())
            } else {
                Err(e)
            }
        },
    }
}

/// The quoted forms of texts.
pub open spec fn quoted_all(words: Seq<Seq<char>>) -> Seq<Seq<char>> {
    words.map_values(|w: Seq<char>| crate::common::error::quoted_of(w))
}

/// A list of words as it is shown for debugging.
pub open spec fn list_text(words: Seq<Seq<char>>) -> Seq<char> {
    "["@ + crate::text::join(quoted_all(words), ", "@) + "]"@
}

/// A list of words as it is shown for debugging.
pub fn show_list(words: &[String]) -> (r: String)
    ensures
        r@ == list_text(crate::text::texts(words@)),
{
    let ghost all = quoted_all(crate::text::texts(words@));
    let mut parts: Vec<String> = Vec::new();
    let mut i: usize = 0;
    assert(crate::text::texts(parts@) =~= all.take(0));
    while i < words.len()
        invariant
            i <= words@.len(),
            all == quoted_all(crate::text::texts(words@)),
            crate::text::texts(parts@) == all.take(i as int),
        decreases words@.len() - i,
    {
        word(&mut parts, quoted(words[i].as_str()));
        assert(all.take(i + 1) =~= all.take(i as int).push(all[i as int]));
        i = i + 1;
    }
    assert(all.take(i as int) =~= all);
    cat3("[", join_with(&parts, ", ").as_str(), "]")
}

/// What a run of the tool comes to: its output, or a failure with the arguments and its trimmed
/// error output.
pub fn run_outcome(args: &[String], success: bool, stdout: String, stderr: &str) -> (r: Result<
    String,
    NetlinkError,
>)
    ensures
        match r {
            Ok(out) => success && out@ == stdout@,
            Err(e) => !success && (e matches NetlinkError::Op(m) && m@ == "ip "@ + list_text(
                crate::text::texts(args@),
            ) + " failed: "@ + crate::text::trimmed(stderr@)),
        },
{
    if success {
        Ok(stdout)
    } else {
        let text = trim(stderr);
        Err(
            NetlinkError::Op(
                crate::text::cat4("ip ", show_list(args).as_str(), " failed: ", text.as_str()),
            ),
        )
    }
}

/// The failure of a tool that could not be started.
pub fn spawn_failure(args: &[String], why: &str) -> (r: NetlinkError)
    ensures
        r matches NetlinkError::Op(m) && m@ == "spawn ip "@ + list_text(crate::text::texts(args@))
            + ": "@ + why@,
{
    NetlinkError::Op(crate::text::cat4("spawn ip ", show_list(args).as_str(), ": ", why))
}

} // verus!
