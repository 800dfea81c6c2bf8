//! Heartbeats of the controllers, and whether all of them are on time.
//!
//! A component is on time as long as its last heartbeat is not older than its window: its sync
//! period, plus the time from its registration to its first heartbeat, plus a grace.

use vstd::prelude::*;

use crate::time::{Duration, Instant};

verus! {

/// The grace on top of a component's window, in milliseconds.
pub const GRACE: u64 = 1500;

/// A controller that reports heartbeats.
#[derive(Debug, Clone, Copy, PartialEq, Eq, Structural, Hash)]
pub enum Component {
    /// Routes.
    NetworkRoutes,
    /// Load-balancer addresses.
    LoadBalancer,
    /// Policies.
    NetworkPolicy,
    /// Services.
    NetworkServices,
    /// Hairpin mode.
    Hairpin,
    /// Metrics.
    Metrics,
    /// Route sync.
    RouteSync,
}

impl Component {
    /// The number of the component.
    pub open spec fn number(self) -> u8 {
        match self {
            Component::NetworkRoutes => 0,
            Component::LoadBalancer => 1,
            Component::NetworkPolicy => 2,
            Component::NetworkServices => 3,
            Component::Hairpin => 4,
            Component::Metrics => 5,
            Component::RouteSync => 6,
        }
    }

    /// The number of the component.
    pub fn id(self) -> (r: u8)
        ensures
            r == self.number(),
    {
        match self {
            Component::NetworkRoutes => 0,
            Component::LoadBalancer => 1,
            Component::NetworkPolicy => 2,
            Component::NetworkServices => 3,
            Component::Hairpin => 4,
            Component::Metrics => 5,
            Component::RouteSync => 6,
        }
    }
}

/// What is known of a component.
#[derive(Debug, Clone, Copy, PartialEq, Eq, Structural)]
pub struct ComponentHealth {
    /// Last heartbeat; at first, the registration.
    pub last: Instant,
    /// Registration.
    pub registered: Instant,
    /// Sync period.
    pub sync_period: Duration,
    /// First heartbeat.
    pub first: Option<Instant>,
}

impl ComponentHealth {
    /// The time from registration to the first heartbeat, nothing before there was one.
    pub open spec fn ttl(self) -> nat {
        match self.first {
            Some(t) => t.after(self.registered),
            None => 0,
        }
    }

    /// The window in nanoseconds.
    pub open spec fn window_len(self) -> nat {
        self.sync_period.total() + self.ttl() + GRACE as nat * 1_000_000
    }

    /// Whether the last heartbeat is older than the window.
    pub open spec fn late(self, now: Instant) -> bool {
        now.after(self.last) > self.window_len()
    }

    /// The window in nanoseconds.
    pub fn window(&self) -> (r: u128)
        ensures
            r == self.window_len(),
    {
        let ttl: u128 = match self.first {
            Some(t) => t.nanos_after(self.registered),
            None => 0,
        };
        self.sync_period.as_nanos() + ttl + GRACE as u128 * 1_000_000
    }
}

/// The components and what is known of them.
pub struct HealthState {
    entries: Vec<(Component, ComponentHealth)>,
}

/// No component has two entries.
pub open spec fn keys_distinct(entries: Seq<(Component, ComponentHealth)>) -> bool {
    forall|i: int, j: int| 0 <= i < j < entries.len() ==> entries[i].0 != entries[j].0
}

/// The map that entries make.
pub open spec fn health_map(
    entries: Seq<(Component, ComponentHealth)>,
) -> Map<Component, ComponentHealth>
    decreases entries.len(),
{
    if entries.len() == 0 {
        Map::empty()
    } else {
        health_map(entries.drop_last()).insert(entries.last().0, entries.last().1)
    }
}

/// With distinct keys the map holds exactly the entries.
proof fn lemma_health_map(entries: Seq<(Component, ComponentHealth)>)
    requires
        keys_distinct(entries),
    ensures
        forall|i: int| #![trigger entries[i]]
            0 <= i < entries.len() ==> health_map(entries).contains_key(entries[i].0)
                && health_map(entries)[entries[i].0] == entries[i].1,
        forall|c: Component| #[trigger]
            health_map(entries).contains_key(c) ==> exists|i: int|
                0 <= i < entries.len() && (#[trigger] entries[i]).0 == c,
    decreases entries.len(),
{
    if entries.len() > 0 {
        let front = entries.drop_last();
        assert(keys_distinct(front));
        lemma_health_map(front);
        assert forall|i: int| #![trigger entries[i]] 0 <= i < entries.len() implies health_map(
            entries,
        ).contains_key(entries[i].0) && health_map(entries)[entries[i].0] == entries[i].1 by {
            if i < front.len() {
                assert(front[i] == entries[i]);
                assert(entries[i].0 != entries[entries.len() - 1].0);
            }
        }
        assert forall|c: Component| #[trigger] health_map(entries).contains_key(c) implies exists|
            i: int,
        | 0 <= i < entries.len() && (#[trigger] entries[i]).0 == c by {
            if c == entries.last().0 {
                assert(entries[entries.len() - 1].0 == c);
            } else {
                assert(health_map(front).contains_key(c));
                let i = choose|i: int| 0 <= i < front.len() && (#[trigger] front[i]).0 == c;
                assert(entries[i].0 == c);
            }
        }
    }
}

/// Whether every component is on time.
pub open spec fn all_on_time(m: Map<Component, ComponentHealth>, now: Instant) -> bool {
    forall|c: Component| #[trigger] m.contains_key(c) ==> !m[c].late(now)
}

/// The state after a heartbeat.
pub open spec fn beaten(
    m: Map<Component, ComponentHealth>,
    c: Component,
    now: Instant,
) -> Map<Component, ComponentHealth> {
    if m.contains_key(c) {
        m.insert(
            c,
            ComponentHealth {
                last: now,
                first: if m[c].first is None {
                    Some(now)
                } else {
                    m[c].first
                },
                ..m[c]
            },
        )
    } else {
        m
    }
}

impl View for HealthState {
    type V = Map<Component, ComponentHealth>;

    closed spec fn view(&self) -> Map<Component, ComponentHealth> {
        health_map(self.entries@)
    }
}

impl Default for HealthState {
    fn default() -> (r: HealthState)
        ensures
            r.wf(),
            r@ == Map::<Component, ComponentHealth>::empty(),
    {
        HealthState { entries: Vec::new() }
    }
}

impl HealthState {
    /// No component has two entries.
    pub closed spec fn wf(self) -> bool {
        keys_distinct(self.entries@)
    }

    /// A state without components.
    pub fn new() -> (r: HealthState)
        ensures
            r.wf(),
            r@ == Map::<Component, ComponentHealth>::empty(),
    {
        HealthState { entries: Vec::new() }
    }

    /// The index of the component's entry.
    fn find(&self, component: Component) -> (r: Option<usize>)
        requires
            self.wf(),
        ensures
            match r {
                Some(i) => i < self.entries@.len() && self.entries@[i as int].0 == component
                    && self@.contains_key(component) && self@[component]
                    == self.entries@[i as int].1,
                None => !self@.contains_key(component) && forall|j: int|
                    0 <= j < self.entries@.len() ==> (#[trigger] self.entries@[j]).0 != component,
            },
    {
        proof {
            lemma_health_map(self.entries@);
        }
        let mut i: usize = 0;
        while i < self.entries.len()
            invariant
                i <= self.entries@.len(),
                forall|j: int| 0 <= j < i ==> (#[trigger] self.entries@[j]).0 != component,
                forall|j: int| #![trigger self.entries@[j]]
                    0 <= j < self.entries@.len() ==> self@.contains_key(self.entries@[j].0)
                        && self@[self.entries@[j].0] == self.entries@[j].1,
            decreases self.entries@.len() - i,
        {
            if self.entries[i].0 == component {
                return Some(i);
            }
            i = i + 1;
        }
        None
    }

    /// Puts a record in the place of a component's record.
    fn set_record(&mut self, i: usize, record: ComponentHealth)
        requires
            old(self).wf(),
            i < old(self).entries@.len(),
        ensures
            final(self).wf(),
            final(self)@ == old(self)@.insert(old(self).entries@[i as int].0, record),
    {
        let ghost before = self.entries@;
        let c = self.entries[i].0;
        self.entries.set(i, (c, record));
        proof {
            assert(self.entries@ =~= before.update(i as int, (c, record)));
            assert(keys_distinct(self.entries@));
            lemma_health_map(before);
            lemma_health_map(self.entries@);
            let m = health_map(self.entries@);
            let w = health_map(before).insert(c, record);
            assert forall|k: Component|
                #![trigger m.contains_key(k)]
                #![trigger w.contains_key(k)]
                m.contains_key(k) == w.contains_key(k) && (m.contains_key(k) ==> m[k]
                    == w[k]) by {
                if m.contains_key(k) {
                    let j = choose|j: int|
                        0 <= j < self.entries@.len() && (#[trigger] self.entries@[j]).0 == k;
                    assert(before[j].0 == k);
                }
                if w.contains_key(k) {
                    if k == c {
                        assert(self.entries@[i as int].0 == k);
                    } else {
                        let j = choose|j: int|
                            0 <= j < before.len() && (#[trigger] before[j]).0 == k;
                        assert(self.entries@[j].0 == k);
                    }
                }
            }
            assert(m.dom() =~= w.dom());
            assert(m =~= w);
        }
    }

    /// Registers a component with its sync period; the registration counts as a heartbeat.
    pub fn register(&mut self, component: Component, sync_period: Duration, now: Instant)
        requires
            old(self).wf(),
        ensures
            final(self).wf(),
            final(self)@ == old(self)@.insert(
                component,
                (ComponentHealth { last: now, registered: now, sync_period, first: None }),
            ),
    {
        let record = ComponentHealth { last: now, registered: now, sync_period, first: None };
        match self.find(component) {
            Some(i) => {
                self.set_record(i, record);
            },
            None => {
                let ghost before = self.entries@;
                self.entries.push((component, record));
                assert(self.entries@.drop_last() =~= before);
            },
        }
    }

    /// Records a heartbeat; one of a component that is not registered is ignored. The first one
    /// fixes how much the window is widened.
    pub fn heartbeat(&mut self, component: Component, now: Instant)
        requires
            old(self).wf(),
        ensures
            final(self).wf(),
            final(self)@ == beaten(old(self)@, component, now),
    {
        match self.find(component) {
            Some(i) => {
                let mut record = self.entries[i].1;
                if record.first.is_none() {
                    record.first = Some(now);
                }
                record.last = now;
                self.set_record(i, record);
            },
            None => {},
        }
    }

    /// Whether every component is on time.
    pub fn is_healthy(&self, now: Instant) -> (r: bool)
        requires
            self.wf(),
        ensures
            r == all_on_time(self@, now),
    {
        self.stale_components(now).len() == 0
    }

    /// The components that are late, each with the age of its last heartbeat in nanoseconds.
    pub fn stale_components(&self, now: Instant) -> (r: Vec<(Component, u128)>)
        requires
            self.wf(),
        ensures
            forall|i: int| #![trigger r@[i]]
                0 <= i < r@.len() ==> self@.contains_key(r@[i].0) && self@[r@[i].0].late(now)
                    && r@[i].1 == now.after(self@[r@[i].0].last),
            forall|c: Component| #[trigger]
                self@.contains_key(c) && self@[c].late(now) ==> exists|i: int|
                    0 <= i < r@.len() && (#[trigger] r@[i]).0 == c,
            forall|i: int, j: int|
                0 <= i < j < r@.len() ==> (#[trigger] r@[i]).0 != (#[trigger] r@[j]).0,
            r@.len() == 0 <==> all_on_time(self@, now),
    {
        proof {
            lemma_health_map(self.entries@);
        }
        let mut out: Vec<(Component, u128)> = Vec::new();
        let mut i: usize = 0;
        while i < self.entries.len()
            invariant
                i <= self.entries@.len(),
                keys_distinct(self.entries@),
                forall|k: int| #![trigger out@[k]]
                    0 <= k < out@.len() ==> exists|j: int|
                        0 <= j < i && (#[trigger] self.entries@[j]).0 == out@[k].0,
                forall|k: int, l: int|
                    0 <= k < l < out@.len() ==> (#[trigger] out@[k]).0 != (#[trigger] out@[l]).0,
                forall|j: int| #![trigger self.entries@[j]]
                    0 <= j < self.entries@.len() ==> self@.contains_key(self.entries@[j].0)
                        && self@[self.entries@[j].0] == self.entries@[j].1,
                forall|k: int| #![trigger out@[k]]
                    0 <= k < out@.len() ==> self@.contains_key(out@[k].0)
                        && self@[out@[k].0].late(now) && out@[k].1 == now.after(
                        self@[out@[k].0].last,
                    ),
                forall|j: int| #![trigger self.entries@[j]]
                    0 <= j < i && self.entries@[j].1.late(now) ==> exists|k: int|
                        0 <= k < out@.len() && (#[trigger] out@[k]).0 == self.entries@[j].0,
            decreases self.entries@.len() - i,
        {
            let (component, record) = self.entries[i];
            let since: u128 = now.nanos_after(record.last);
            if since > record.window() {
                let ghost before = out@;
                out.push((component, since));
                proof {
                    assert(out@[before.len() as int].0 == component);
                    assert(self.entries@[i as int].0 == component);
                    assert forall|k: int| #![trigger out@[k]] 0 <= k < out@.len() implies exists|
                        j: int,
                    |
                        0 <= j < i + 1 && (#[trigger] self.entries@[j]).0 == out@[k].0 by {
                        if k < before.len() {
                            assert(before[k] == out@[k]);
                        }
                    }
                    assert forall|k: int, l: int| 0 <= k < l < out@.len() implies (
                    #[trigger] out@[k]).0 != (#[trigger] out@[l]).0 by {
                        assert(before[k] == out@[k]);
                        if l < before.len() {
                            assert(before[l] == out@[l]);
                        }
                    }
                    assert forall|j: int| #![trigger self.entries@[j]]
                        0 <= j < i + 1 && self.entries@[j].1.late(now) implies exists|k: int|
                        0 <= k < out@.len() && (#[trigger] out@[k]).0 == self.entries@[j].0 by {
                        if j < i {
                            let k = choose|k: int|
                                0 <= k < before.len() && (#[trigger] before[k]).0
                                    == self.entries@[j].0;
                            assert(out@[k].0 == self.entries@[j].0);
                        }
                    }
                }
            }
            i = i + 1;
        }
        proof {
            assert forall|c: Component| #[trigger]
                self@.contains_key(c) && self@[c].late(now) implies exists|k: int|
                0 <= k < out@.len() && (#[trigger] out@[k]).0 == c by {
                let j = choose|j: int|
                    0 <= j < self.entries@.len() && (#[trigger] self.entries@[j]).0 == c;
                assert(self.entries@[j].1.late(now));
            }
            if out@.len() > 0 {
                assert(self@.contains_key(out@[0].0));
            }
        }
        out
    }

    /// Status and body of the health endpoint.
    pub fn healthz_response(&self, now: Instant) -> (r: (u16, &'static str))
        requires
            self.wf(),
        ensures
            r.0 == health_status(self@, now),
            r.1@ == health_body(self@, now),
    {
        if self.is_healthy(now) {
            (200, "OK")
        } else {
            (500, "Unhealthy")
        }
    }
}

/// The status of the health endpoint: 200 exactly where every component is on time.
pub open spec fn health_status(m: Map<Component, ComponentHealth>, now: Instant) -> u16 {
    if all_on_time(m, now) {
        200
    } else {
        500
    }
}

/// The body of the health endpoint.
pub open spec fn health_body(m: Map<Component, ComponentHealth>, now: Instant) -> Seq<char> {
    if all_on_time(m, now) {
        "OK"@
    } else {
        "Unhealthy"@
    }
}

/// A state without components is healthy at any time.
pub proof fn lemma_empty_is_healthy(now: Instant)
    ensures
        all_on_time(Map::empty(), now),
{
}

/// A component that has just reported is on time, and stays so for as long as its sync period
/// and the grace last.
pub proof fn lemma_heartbeat_refreshes(
    m: Map<Component, ComponentHealth>,
    c: Component,
    now: Instant,
    later: Instant,
)
    requires
        m.contains_key(c),
        later.after(now) <= m[c].sync_period.total() + GRACE as nat * 1_000_000,
    ensures
        !beaten(m, c, now)[c].late(later),
        beaten(m, c, now).dom() =~= m.dom(),
{
}

/// The time that the first heartbeat took widens every later window by as much; later heartbeats
/// do not change it.
pub proof fn lemma_first_heartbeat_widens(
    m: Map<Component, ComponentHealth>,
    c: Component,
    now: Instant,
)
    requires
        m.contains_key(c),
    ensures
        m[c].first is None ==> beaten(m, c, now)[c].window_len() == m[c].window_len() + now.after(
            m[c].registered,
        ),
        m[c].first is Some ==> beaten(m, c, now)[c].window_len() == m[c].window_len(),
{
}

/// One late component makes the whole unhealthy, whatever the others report.
pub proof fn lemma_one_late_spoils_all(
    m: Map<Component, ComponentHealth>,
    late: Component,
    other: Component,
    at: Instant,
    now: Instant,
)
    requires
        m.contains_key(late),
        m[late].late(now),
        other != late,
    ensures
        !all_on_time(m, now),
        !all_on_time(beaten(m, other, at), now),
        health_status(m, now) == 500,
{
    assert(beaten(m, other, at).contains_key(late));
}

/// A heartbeat touches no other component, and none at all where its component is unknown.
pub proof fn lemma_heartbeat_frame(
    m: Map<Component, ComponentHealth>,
    c: Component,
    other: Component,
    now: Instant,
)
    requires
        other != c,
    ensures
        beaten(m, c, now).contains_key(other) == m.contains_key(other),
        m.contains_key(other) ==> beaten(m, c, now)[other] == m[other],
        !m.contains_key(c) ==> beaten(m, c, now) == m,
{
}

} // verus!
