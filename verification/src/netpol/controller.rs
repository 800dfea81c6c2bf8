//! One sync of the firewall: what is done to the node, in which order.

use vstd::prelude::*;

use crate::common::ipfamily::IpFamily;
use crate::net::IpNet;
use crate::netpol::ipset::{build_restore_payload, IpsetError};
use crate::netpol::iptables::{filter_restore_doc, IptablesError};
use crate::netpol::model::{Namespace, NetworkPolicy, Pod};
use crate::netpol::naming::{ROUTER_FORWARD, ROUTER_INPUT, ROUTER_OUTPUT};
use crate::netpol::synth::{build_plan, IpsetPlan};
use crate::time::Duration;

verus! {

/// The objects that a firewall is made from.
#[derive(Debug)]
pub struct PolicyWorld {
    /// Policies.
    pub policies: Vec<NetworkPolicy>,
    /// Pods.
    pub pods: Vec<Pod>,
    /// Namespaces.
    pub namespaces: Vec<Namespace>,
}

impl Default for PolicyWorld {
    fn default() -> (r: PolicyWorld)
        ensures
            r.policies@.len() == 0,
            r.pods@.len() == 0,
            r.namespaces@.len() == 0,
    {
        PolicyWorld { policies: Vec::new(), pods: Vec::new(), namespaces: Vec::new() }
    }
}

/// A failure of a sync.
#[derive(Debug)]
pub enum SyncError {
    /// Of a set operation.
    Ipset(IpsetError),
    /// Of a filter-table operation.
    Iptables(IptablesError),
}

impl SyncError {
    /// The text shown to a user: that of the failure itself.
    pub fn message(&self) -> (r: String)
        ensures
            match self {
                SyncError::Ipset(e) => r@ == "ipset error: "@ + e.0@,
                SyncError::Iptables(e) => r@ == "iptables error: "@ + e.0@,
            },
    {
        match self {
            SyncError::Ipset(e) => e.message(),
            SyncError::Iptables(e) => e.message(),
        }
    }
}

/// One thing done to the node.
#[derive(Debug)]
pub enum SyncAction {
    /// Feed a script to the set tool.
    RestoreSet(String),
    /// Load a filter-table document with the family's tool.
    RestoreFilter(IpFamily, String),
    /// Make a built-in chain jump to one of ours.
    EnsureJump(IpFamily, &'static str, &'static str),
}

/// One thing done to the node, as a value.
pub enum ActionView {
    RestoreSet(Seq<char>),
    RestoreFilter(IpFamily, Seq<char>),
    EnsureJump(IpFamily, Seq<char>, Seq<char>),
}

impl View for SyncAction {
    type V = ActionView;

    open spec fn view(&self) -> ActionView {
        match self {
            SyncAction::RestoreSet(s) => ActionView::RestoreSet(s@),
            SyncAction::RestoreFilter(f, s) => ActionView::RestoreFilter(*f, s@),
            SyncAction::EnsureJump(f, a, b) => ActionView::EnsureJump(*f, a@, b@),
        }
    }
}

/// What a sync does next.
#[derive(Debug)]
pub enum SyncStep {
    /// Perform the action of this index.
    Perform(usize),
    /// End, with this outcome.
    End(Result<(), SyncError>),
}

/// What a sync of `total` actions does next, after `done` of them, of which the last came to
/// `last`: a failure ends it, and so does the end of the actions.
pub open spec fn next_step(total: usize, done: usize, last: Result<(), SyncError>) -> SyncStep {
    if last is Err {
        SyncStep::End(last)
    } else if done < total {
        SyncStep::Perform(done)
    } else {
        SyncStep::End(Ok(()))
    }
}

/// What a sync does next, after `done` of its actions, of which the last came to `last`. A sync
/// begins with no action done and nothing failed.
pub fn sync_step(actions: &[SyncAction], done: usize, last: Result<(), SyncError>) -> (r: SyncStep)
    ensures
        r == next_step(actions@.len() as usize, done, last),
{
    match last {
        Err(e) => SyncStep::End(Err(e)),
        Ok(_) => if done < actions.len() {
            SyncStep::Perform(done)
        } else {
            SyncStep::End(Ok(()))
        },
    }
}

/// How many actions a sync has performed in the end, and its outcome, where the action of index
/// `i` comes to `outcomes(i)`.
pub open spec fn sync_run(
    total: usize,
    done: usize,
    last: Result<(), SyncError>,
    outcomes: spec_fn(usize) -> Result<(), SyncError>,
) -> (usize, Result<(), SyncError>)
    decreases total - done,
{
    match next_step(total, done, last) {
        SyncStep::Perform(i) => sync_run(total, (done + 1) as usize, outcomes(i), outcomes),
        SyncStep::End(r) => (done, r),
    }
}

proof fn lemma_sync_run(
    total: usize,
    done: usize,
    last: Result<(), SyncError>,
    outcomes: spec_fn(usize) -> Result<(), SyncError>,
)
    requires
        done <= total,
    ensures
        ({
            let (n, r) = sync_run(total, done, last, outcomes);
            &&& done <= n <= total
            &&& last is Err ==> n == done && r == last
            &&& last is Ok ==> (r is Ok <==> forall|i: usize|
                done <= i < total ==> #[trigger] outcomes(i) is Ok)
            &&& r is Ok ==> n == total
            &&& r is Err && last is Ok ==> n > done && r == outcomes((n - 1) as usize)
            &&& forall|i: usize| done <= i && i + 1 < n ==> #[trigger] outcomes(i) is Ok
        }),
    decreases total - done,
{
    if last is Ok && done < total {
        lemma_sync_run(total, (done + 1) as usize, outcomes(done), outcomes);
    }
}

/// A sync performs its actions in order up to the first that fails, and none after it: all that
/// it performs but the last have succeeded. It succeeds exactly when every action does, and fails
/// with the error of the one that failed.
pub proof fn lemma_sync_ends_at_first_failure(
    total: usize,
    outcomes: spec_fn(usize) -> Result<(), SyncError>,
)
    ensures
        ({
            let (n, r) = sync_run(total, 0, Ok(()), outcomes);
            &&& n <= total
            &&& forall|i: usize| i + 1 < n ==> #[trigger] outcomes(i) is Ok
            &&& r is Ok <==> forall|i: usize| i < total ==> #[trigger] outcomes(i) is Ok
            &&& r is Ok ==> n == total
            &&& r is Err ==> n > 0 && r == outcomes((n - 1) as usize)
        }),
{
    lemma_sync_run(total, 0, Ok(()), outcomes);
}

/// The values of actions.
pub open spec fn action_views(v: Seq<SyncAction>) -> Seq<ActionView> {
    v.map_values(|a: SyncAction| a@)
}

/// The script of a set.
pub open spec fn set_action(s: crate::netpol::synth::SetView) -> ActionView {
    ActionView::RestoreSet(
        crate::netpol::ipset::script(
            crate::netpol::ipset::restore_lines(s.name, s.set_type, s.family, s.entries),
        ),
    )
}

/// What is done for one family: first every set is filled, then the chains that refer to the
/// sets are loaded, then the built-in chains are made to jump to them.
pub open spec fn family_actions(scene: crate::netpol::synth::Scene) -> Seq<ActionView> {
    scene.sets().map_values(|s: crate::netpol::synth::SetView| set_action(s)) + seq![
        ActionView::RestoreFilter(
            scene.family,
            crate::netpol::ipset::script(
                crate::netpol::iptables::filter_lines(scene.decls(), scene.rules()),
            ),
        ),
        ActionView::EnsureJump(scene.family, "INPUT"@, ROUTER_INPUT@),
        ActionView::EnsureJump(scene.family, "FORWARD"@, ROUTER_FORWARD@),
        ActionView::EnsureJump(scene.family, "OUTPUT"@, ROUTER_OUTPUT@),
    ]
}

/// The controller of the firewall.
#[derive(Debug)]
pub struct FirewallController {
    /// The families that it serves, in order.
    pub families: Vec<IpFamily>,
    /// The node.
    pub node: String,
    /// What makes chain names of this controller its own; it does not change.
    pub sync_version: String,
    /// Time between syncs.
    pub sync_period: Duration,
    /// Reject traffic of pods whose chains are not in place.
    pub default_deny: bool,
    /// The networks of the node's pods.
    pub pod_cidrs: Vec<IpNet>,
}

/// Adds an action.
fn act(v: &mut Vec<SyncAction>, a: SyncAction)
    ensures
        action_views(final(v)@) == action_views(old(v)@).push(a@),
{
    let ghost before = v@;
    v.push(a);
    assert(action_views(v@) =~= action_views(before).push(a@));
}

/// Adds the scripts of the sets.
fn add_sets(out: &mut Vec<SyncAction>, sets: &[IpsetPlan])
    ensures
        action_views(final(out)@) == action_views(old(out)@) + crate::netpol::synth::set_views(
            sets@,
        ).map_values(|s: crate::netpol::synth::SetView| set_action(s)),
{
    let ghost start = action_views(out@);
    let ghost all = crate::netpol::synth::set_views(sets@).map_values(
        |s: crate::netpol::synth::SetView| set_action(s),
    );
    let mut i: usize = 0;
    assert(action_views(out@) =~= start + all.take(0));
    while i < sets.len()
        invariant
            i <= sets@.len(),
            all == crate::netpol::synth::set_views(sets@).map_values(
                |s: crate::netpol::synth::SetView| set_action(s),
            ),
            action_views(out@) == start + all.take(i as int),
        decreases sets@.len() - i,
    {
        let set = &sets[i];
        act(
            out,
            SyncAction::RestoreSet(
                build_restore_payload(
                    set.name.as_str(),
                    set.set_type,
                    set.family,
                    &set.entries,
                ),
            ),
        );
        assert(all[i as int] == set_action(set@));
        assert(all.take(i + 1) =~= all.take(i as int).push(all[i as int]));
        assert(action_views(out@) =~= start + all.take(i + 1));
        i = i + 1;
    }
    assert(all.take(i as int) =~= all);
}

impl FirewallController {
    /// A controller.
    pub fn new(
        families: Vec<IpFamily>,
        node: String,
        sync_period: Duration,
        default_deny: bool,
        pod_cidrs: Vec<IpNet>,
    ) -> (r: FirewallController)
        ensures
            r.families@ == families@,
            r.node@ == node@,
            r.sync_version@ == "kr"@,
            r.sync_period == sync_period,
            r.default_deny == default_deny,
            r.pod_cidrs@ == pod_cidrs@,
    {
        FirewallController {
            families,
            node,
            sync_version: String::from_str("kr"),
            sync_period,
            default_deny,
            pod_cidrs,
        }
    }

    /// What the controller sees of the world in one family.
    pub open spec fn scene(
        self,
        world: PolicyWorld,
        family: IpFamily,
    ) -> crate::netpol::synth::Scene {
        crate::netpol::synth::scene_of(
            world.policies@,
            world.pods@,
            world.namespaces@,
            self.node@,
            family,
            self.sync_version@,
            self.default_deny,
            self.pod_cidrs@,
        )
    }

    /// What one sync does, in order; it ends at the first action that fails.
    pub fn reconcile(&self, world: &PolicyWorld) -> (r: Vec<SyncAction>)
        ensures
            action_views(r@) == crate::seqs::flat(
                self.families@,
                |f: IpFamily| family_actions(self.scene(*world, f)),
            ),
    {
        let ghost g = |f: IpFamily| family_actions(self.scene(*world, f));
        let mut out: Vec<SyncAction> = Vec::new();
        let mut i: usize = 0;
        assert(action_views(out@) =~= crate::seqs::flat(self.families@.take(0), g));
        while i < self.families.len()
            invariant
                i <= self.families@.len(),
                g == (|f: IpFamily| family_actions(self.scene(*world, f))),
                action_views(out@) == crate::seqs::flat(self.families@.take(i as int), g),
            decreases self.families@.len() - i,
        {
            let ghost before = action_views(out@);
            let family = self.families[i];
            let plan = build_plan(
                &world.policies,
                &world.pods,
                &world.namespaces,
                self.node.as_str(),
                family,
                self.sync_version.as_str(),
                self.default_deny,
                &self.pod_cidrs,
            );
            add_sets(&mut out, &plan.ipsets);
            act(
                &mut out,
                SyncAction::RestoreFilter(
                    family,
                    filter_restore_doc(&plan.chain_decls, &plan.rules),
                ),
            );
            act(&mut out, SyncAction::EnsureJump(family, "INPUT", ROUTER_INPUT));
            act(&mut out, SyncAction::EnsureJump(family, "FORWARD", ROUTER_FORWARD));
            act(&mut out, SyncAction::EnsureJump(family, "OUTPUT", ROUTER_OUTPUT));
            proof {
                crate::seqs::lemma_flat_step(self.families@, g, i as int);
                assert(action_views(out@) =~= before + g(self.families@[i as int]));
            }
            i = i + 1;
        }
        assert(self.families@.take(i as int) =~= self.families@);
        out
    }
}

} // verus!
