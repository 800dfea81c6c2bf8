//! The election of the one instance that assigns addresses, by a lease.

use vstd::prelude::*;

use crate::text::{cat2, same};

verus! {

/// The name of the lease.
pub const LEASE_NAME: &'static str = "kube-router-lballoc";

/// How long a lease is valid without renewal, in seconds.
pub const LEASE_DURATION: u64 = 15;

/// How soon a leader must renew, in seconds.
pub const RENEW_DEADLINE: u64 = 10;

/// How often the lease is tried for, in seconds.
pub const RETRY_PERIOD: u64 = 2;

/// A failure of a lease operation.
#[derive(Debug)]
pub struct LeaseError(pub String);

impl LeaseError {
    /// The text shown to a user.
    pub fn message(&self) -> (r: String)
        ensures
            r@ == "lease error: "@ + self.0@,
    {
        cat2("lease error: ", self.0.as_str())
    }
}

/// Whether an instance may take the lease: it is free, its own, or expired.
pub open spec fn may_acquire(holder: Option<Seq<char>>, expired: bool, me: Seq<char>) -> bool {
    match holder {
        None => true,
        Some(h) => h == me || expired,
    }
}

/// The holder as characters.
pub open spec fn holder_text(holder: Option<&str>) -> Option<Seq<char>> {
    match holder {
        Some(h) => Some(h@),
        None => None,
    }
}

/// Whether an instance may take the lease.
pub fn can_acquire(current_holder: Option<&str>, expired: bool, me: &str) -> (r: bool)
    ensures
        r == may_acquire(holder_text(current_holder), expired, me@),
{
    match current_holder {
        None => true,
        Some(h) => same(h, me) || expired,
    }
}

/// Keeps track of whether this instance leads.
pub struct LeaderElector {
    is_leader: bool,
}

impl LeaderElector {
    /// Whether this instance leads.
    pub closed spec fn leads(self) -> bool {
        self.is_leader
    }

    /// A new elector, which does not lead.
    pub fn new() -> (r: LeaderElector)
        ensures
            !r.leads(),
    {
        LeaderElector { is_leader: false }
    }

    /// Whether this instance leads.
    pub fn is_leader(&self) -> (r: bool)
        ensures
            r == self.leads(),
    {
        self.is_leader
    }

    /// Takes in the outcome of one attempt on the lease; a failure counts as not held. The new
    /// state is returned where it changed.
    pub fn tick(&mut self, attempt: Result<bool, LeaseError>) -> (r: Option<bool>)
        ensures
            final(self).leads() == (attempt matches Ok(held) && held),
            match r {
                Some(now) => now == final(self).leads() && now != old(self).leads(),
                None => final(self).leads() == old(self).leads(),
            },
    {
        let held = match attempt {
            Ok(h) => h,
            Err(_) => false,
        };
        if held != self.is_leader {
            self.is_leader = held;
            Some(held)
        } else {
            None
        }
    }
}

} // verus!
