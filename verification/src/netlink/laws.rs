//! Laws of routes, retries and the words of the `ip` tool.

use vstd::prelude::*;

use crate::ip::IpAddr;
use crate::netlink::retry::{allowed, delay_after, RetryConfig};
use crate::netlink::routes::{in_table, without, NetlinkError, Route};
use crate::netlink::system::{list_text, table_words, tolerated, via_words, Tolerance};

verus! {

/// Removing a route takes away exactly what has its destination in its table, whatever the
/// gateway, and keeps the rest in order; the routes of a table are exactly those with its number,
/// in order.
pub proof fn lemma_routes_by_fields(
    a: Seq<Route>,
    b: Seq<Route>,
    e: Route,
    r: Route,
    table: u32,
)
    ensures
        without(Seq::empty(), r).len() == 0,
        e.dst == r.dst && e.table == r.table ==> without(seq![e], r).len() == 0,
        !(e.dst == r.dst && e.table == r.table) ==> without(seq![e], r) == seq![e],
        without(a + b, r) == without(a, r) + without(b, r),
        in_table(Seq::empty(), table).len() == 0,
        e.table == table ==> in_table(seq![e], table) == seq![e],
        e.table != table ==> in_table(seq![e], table).len() == 0,
        in_table(a + b, table) == in_table(a, table) + in_table(b, table),
{
    let f = |e: Route|
        if crate::netlink::routes::same_slot(e, r) {
            Seq::empty()
        } else {
            seq![e]
        };
    crate::seqs::lemma_flat_parts(a, b, e, f);
    let g = |e: Route|
        if e.table == table {
            seq![e]
        } else {
            Seq::empty()
        };
    crate::seqs::lemma_flat_parts(a, b, e, g);
}

/// An operation is tried as often as the policy says, once where it says never; the first delay
/// is the policy's, and each later one twice the one before it, but not beyond the limit.
pub proof fn lemma_delays_double(cfg: RetryConfig, k: nat)
    ensures
        cfg.attempts == 0 ==> allowed(cfg) == 1,
        cfg.attempts > 0 ==> allowed(cfg) == cfg.attempts,
        delay_after(cfg, 0) == cfg.base.secs * 1_000_000_000 + cfg.base.nanos,
        2 * delay_after(cfg, k) < cfg.max.secs * 1_000_000_000 + cfg.max.nanos ==> delay_after(
            cfg,
            k + 1,
        ) == 2 * delay_after(cfg, k),
        2 * delay_after(cfg, k) >= cfg.max.secs * 1_000_000_000 + cfg.max.nanos ==> delay_after(
            cfg,
            k + 1,
        ) == cfg.max.secs * 1_000_000_000 + cfg.max.nanos,
{
}

/// The words that name a table, none for the main one, and those that name a gateway; the words
/// of the failures that do not matter; and the text of a failure.
pub proof fn lemma_words_written_out(table: u32, gateway: Option<IpAddr>, e: NetlinkError)
    ensures
        table == 254 ==> table_words(table).len() == 0,
        table != 254 ==> table_words(table) == seq!["table"@, crate::text::dec(table as nat)],
        gateway is None ==> via_words(gateway).len() == 0,
        gateway matches Some(g) ==> via_words(gateway) == seq!["via"@, g.text()],
        tolerated(Tolerance::Present) == "File exists"@,
        tolerated(Tolerance::AddressGone) == "Cannot assign"@,
        tolerated(Tolerance::RouteGone) == "No such process"@,
        e matches NetlinkError::Op(m) ==> e.text() == "netlink operation failed: "@ + m@,
{
}

/// A list of words as it is shown: each quoted, a comma and a blank between each two, in
/// brackets.
pub proof fn lemma_lists_are_shown(w: Seq<char>, x: Seq<char>)
    ensures
        list_text(Seq::empty()) == "["@ + Seq::<char>::empty() + "]"@,
        list_text(seq![w]) == "["@ + crate::common::error::quoted_of(w) + "]"@,
        list_text(seq![w, x]) == "["@ + (crate::common::error::quoted_of(w) + ", "@
            + crate::common::error::quoted_of(x)) + "]"@,
{
    let one = crate::netlink::system::quoted_all(seq![w]);
    assert(one =~= seq![crate::common::error::quoted_of(w)]);
    let two = crate::netlink::system::quoted_all(seq![w, x]);
    assert(two =~= seq![crate::common::error::quoted_of(w), crate::common::error::quoted_of(x)]);
    assert(two.drop_last() =~= seq![crate::common::error::quoted_of(w)]);
    assert(crate::text::join(two.drop_last(), ", "@) == crate::common::error::quoted_of(w));
    assert(crate::netlink::system::quoted_all(Seq::<Seq<char>>::empty()).len() == 0);
}

} // verus!
