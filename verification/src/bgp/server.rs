//! The BGP daemon: how it is started and how long it is waited for.

use vstd::prelude::*;

use crate::text::{cat3, dec_text};
use crate::time::Instant;

verus! {

/// The arguments of the daemon for an admin endpoint.
pub fn gobgpd_args(admin_addr: &str, admin_port: u16) -> (r: Vec<String>)
    ensures
        crate::text::texts(r@) == seq![
            "--api-hosts"@,
            admin_addr@ + ":"@ + crate::text::dec(admin_port as nat),
        ],
{
    let r: Vec<String> = vec![
        String::from_str("--api-hosts"),
        cat3(admin_addr, ":", dec_text(admin_port as u64).as_str()),
    ];
    assert(crate::text::texts(r@) =~= seq![
        "--api-hosts"@,
        admin_addr@ + ":"@ + crate::text::dec(admin_port as nat),
    ]);
    r
}

/// The URI of the admin endpoint.
pub fn admin_uri(admin_addr: &str, admin_port: u16) -> (r: String)
    ensures
        r@ == "http://"@ + (admin_addr@ + ":"@ + crate::text::dec(admin_port as nat)),
{
    crate::text::cat2(
        "http://",
        cat3(admin_addr, ":", dec_text(admin_port as u64).as_str()).as_str(),
    )
}

/// What comes after an attempt to reach an endpoint.
#[derive(Debug, Clone, Copy, PartialEq, Eq, Structural)]
pub enum WaitStep {
    /// It answered.
    Ready,
    /// It did not, and the time is up.
    GiveUp,
    /// It did not; try again after so many milliseconds.
    RetryAfterMillis(u64),
}

/// What comes after an attempt: an answer is accepted even where the time is up.
pub fn wait_step(ready: bool, now: Instant, deadline: Instant) -> (r: WaitStep)
    ensures
        r == if ready {
            WaitStep::Ready
        } else if now.since.total() >= deadline.since.total() {
            WaitStep::GiveUp
        } else {
            WaitStep::RetryAfterMillis(20)
        },
{
    if ready {
        WaitStep::Ready
    } else if now.since.as_nanos() >= deadline.since.as_nanos() {
        WaitStep::GiveUp
    } else {
        WaitStep::RetryAfterMillis(20)
    }
}

} // verus!
