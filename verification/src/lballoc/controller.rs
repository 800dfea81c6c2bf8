//! One pass of the allocator over the services: what is handed out already, and what each
//! service is given next.

use vstd::prelude::*;

use crate::ip::IpAddr;
use crate::lballoc::allocate::{plan_allocation, should_allocate, AllocError};
use crate::lballoc::model::LbService;
use crate::lballoc::pools::IpRanges;
use crate::text::cat2;

verus! {

/// A failure to record an address with its service.
#[derive(Debug)]
pub struct StatusError(pub String);

impl StatusError {
    /// The text shown to a user.
    pub fn message(&self) -> (r: String)
        ensures
            r@ == "status update error: "@ + self.0@,
    {
        cat2("status update error: ", self.0.as_str())
    }
}

/// The addresses of one family.
pub open spec fn of_family(ips: Seq<IpAddr>, v4: bool) -> Seq<IpAddr> {
    crate::seqs::flat(
        ips,
        |ip: IpAddr|
            if (ip is V4) == v4 {
                seq![ip]
            } else {
                Seq::empty()
            },
    )
}

/// The addresses of one family that a pool covers.
pub open spec fn pooled(
    ips: Seq<IpAddr>,
    ranges: Seq<crate::net::IpNet>,
    v4: bool,
) -> Seq<IpAddr> {
    crate::seqs::flat(
        ips,
        |ip: IpAddr|
            if (ip is V4) == v4 && crate::lballoc::pools::covered(ranges, ip) {
                seq![ip]
            } else {
                Seq::empty()
            },
    )
}

/// The external and assigned addresses of a service, in order.
pub open spec fn service_ips(svc: LbService) -> Seq<IpAddr> {
    svc.external_ips@ + svc.ingress_ips@
}

/// The addresses of one family that services hold out of a pool.
pub open spec fn held(
    services: Seq<LbService>,
    ranges: Seq<crate::net::IpNet>,
    v4: bool,
) -> Seq<IpAddr> {
    crate::seqs::flat(services, |s: LbService| pooled(service_ips(s), ranges, v4))
}

fn add_pooled(out: &mut Vec<IpAddr>, ips: &[IpAddr], ranges: &IpRanges, v4: bool)
    requires
        ranges.wf(),
    ensures
        final(out)@ == old(out)@ + pooled(ips@, ranges@.ranges, v4),
{
    let ghost start = out@;
    let ghost f = |ip: IpAddr|
        if (ip is V4) == v4 && crate::lballoc::pools::covered(ranges@.ranges, ip) {
            seq![ip]
        } else {
            Seq::empty()
        };
    let mut i: usize = 0;
    assert(out@ =~= start + crate::seqs::flat(ips@.take(0), f));
    while i < ips.len()
        invariant
            i <= ips@.len(),
            ranges.wf(),
            f == (|ip: IpAddr|
                if (ip is V4) == v4 && crate::lballoc::pools::covered(ranges@.ranges, ip) {
                    seq![ip]
                } else {
                    Seq::empty()
                }),
            out@ == start + crate::seqs::flat(ips@.take(i as int), f),
        decreases ips@.len() - i,
    {
        proof {
            crate::seqs::lemma_flat_step(ips@, f, i as int);
        }
        let ghost before = out@;
        let is_v4 = match ips[i] {
            IpAddr::V4(_) => true,
            IpAddr::V6(_) => false,
        };
        if is_v4 == v4 && ranges.contains(ips[i]) {
            out.push(ips[i]);
        }
        assert(out@ =~= before + f(ips@[i as int]));
        assert(out@ =~= start + crate::seqs::flat(ips@.take(i + 1), f));
        i = i + 1;
    }
    assert(ips@.take(i as int) =~= ips@);
}

/// What two lists hold of a pool is what their concatenation holds.
proof fn lemma_pooled_sum(
    a: Seq<IpAddr>,
    b: Seq<IpAddr>,
    ranges: Seq<crate::net::IpNet>,
    v4: bool,
)
    ensures
        pooled(a + b, ranges, v4) == pooled(a, ranges, v4) + pooled(b, ranges, v4),
    decreases b.len(),
{
    if b.len() == 0 {
        assert(a + b =~= a);
        assert(pooled(a, ranges, v4) + pooled(b, ranges, v4) =~= pooled(a, ranges, v4));
    } else {
        assert((a + b).drop_last() =~= a + b.drop_last());
        lemma_pooled_sum(a, b.drop_last(), ranges, v4);
        assert(pooled(a + b, ranges, v4) =~= pooled(a, ranges, v4) + pooled(b, ranges, v4));
    }
}

/// The addresses of each family that services hold out of the pools.
pub fn allocated_ips(
    services: &[LbService],
    v4_ranges: &IpRanges,
    v6_ranges: &IpRanges,
) -> (r: (Vec<IpAddr>, Vec<IpAddr>))
    requires
        v4_ranges.wf(),
        v6_ranges.wf(),
    ensures
        r.0@ == held(services@, v4_ranges@.ranges, true),
        r.1@ == held(services@, v6_ranges@.ranges, false),
{
    let ghost r4 = v4_ranges@.ranges;
    let ghost r6 = v6_ranges@.ranges;
    let ghost f4 = |s: LbService| pooled(service_ips(s), r4, true);
    let ghost f6 = |s: LbService| pooled(service_ips(s), r6, false);
    let mut v4: Vec<IpAddr> = Vec::new();
    let mut v6: Vec<IpAddr> = Vec::new();
    let mut i: usize = 0;
    assert(v4@ =~= crate::seqs::flat(services@.take(0), f4));
    assert(v6@ =~= crate::seqs::flat(services@.take(0), f6));
    while i < services.len()
        invariant
            i <= services@.len(),
            v4_ranges.wf(),
            v6_ranges.wf(),
            r4 == v4_ranges@.ranges,
            r6 == v6_ranges@.ranges,
            f4 == (|s: LbService| pooled(service_ips(s), r4, true)),
            f6 == (|s: LbService| pooled(service_ips(s), r6, false)),
            v4@ == crate::seqs::flat(services@.take(i as int), f4),
            v6@ == crate::seqs::flat(services@.take(i as int), f6),
        decreases services@.len() - i,
    {
        let svc = &services[i];
        let ghost b4 = v4@;
        let ghost b6 = v6@;
        proof {
            crate::seqs::lemma_flat_step(services@, f4, i as int);
            crate::seqs::lemma_flat_step(services@, f6, i as int);
            lemma_pooled_sum(svc.external_ips@, svc.ingress_ips@, r4, true);
            lemma_pooled_sum(svc.external_ips@, svc.ingress_ips@, r6, false);
        }
        add_pooled(&mut v4, &svc.external_ips, v4_ranges, true);
        add_pooled(&mut v4, &svc.ingress_ips, v4_ranges, true);
        add_pooled(&mut v6, &svc.external_ips, v6_ranges, false);
        add_pooled(&mut v6, &svc.ingress_ips, v6_ranges, false);
        assert(v4@ =~= b4 + f4(services@[i as int]));
        assert(v6@ =~= b6 + f6(services@[i as int]));
        i = i + 1;
    }
    assert(services@.take(i as int) =~= services@);
    (v4, v6)
}

/// The allocator: its pools, and whether it serves services that name no class.
pub struct LbAllocator {
    v4_ranges: IpRanges,
    v6_ranges: IpRanges,
    is_default: bool,
}

/// What is handed out during a pass.
pub struct Pass {
    /// IPv4 addresses that are taken.
    pub a4: Vec<IpAddr>,
    /// IPv6 addresses that are taken.
    pub a6: Vec<IpAddr>,
}

/// Addresses given to a service.
#[derive(Debug, Clone)]
pub struct Assignment {
    /// Index of the service.
    pub service: usize,
    /// The addresses.
    pub ips: Vec<IpAddr>,
}

/// How far a pass has come whose assignments are recorded one by one.
pub struct Round {
    /// What is handed out.
    pub pass: Pass,
    /// Index of the next service.
    pub at: usize,
    /// How many assignments were to be recorded so far.
    pub recorded: usize,
}

/// What a pass does next.
#[derive(Debug)]
pub enum PassStep {
    /// Record the assignment with its service.
    Record(Assignment),
    /// Go on; the service got nothing, for this reason where it was refused.
    Skip(Option<AllocError>),
    /// End, with the number of services that got something, or the failure to record.
    End(Result<usize, StatusError>),
}

/// The state of a pass.
pub struct PassState {
    pub p4: crate::lballoc::pools::Pool,
    pub p6: crate::lballoc::pools::Pool,
    pub a4: Seq<IpAddr>,
    pub a6: Seq<IpAddr>,
}

impl PassState {
    /// Both pools are well formed.
    pub open spec fn wf(self) -> bool {
        self.p4.wf() && self.p6.wf()
    }

    /// The networks of each pool are of its family.
    pub open spec fn sorted_by_family(self) -> bool {
        &&& forall|i: int|
            0 <= i < self.p4.ranges.len() ==> (#[trigger] self.p4.ranges[i]).addr is V4
        &&& forall|i: int|
            0 <= i < self.p6.ranges.len() ==> (#[trigger] self.p6.ranges[i]).addr is V6
    }

    /// Whether the networks can serve the service at all.
    pub open spec fn open_to(self, svc: LbService) -> bool {
        crate::lballoc::allocate::refusal(
            svc,
            self.p4.ranges.len() > 0,
            self.p6.ranges.len() > 0,
        ) is None
    }

    /// Whether an IPv4 address is looked for.
    pub open spec fn moves4(self, svc: LbService, is_default: bool) -> bool {
        crate::lballoc::allocate::acts_on(svc, is_default) && self.open_to(svc)
            && crate::lballoc::allocate::seeks_v4(svc, self.p4.ranges.len() > 0)
    }

    /// Whether an IPv6 address is looked for.
    pub open spec fn moves6(self, svc: LbService, is_default: bool) -> bool {
        crate::lballoc::allocate::acts_on(svc, is_default) && self.open_to(svc)
            && crate::lballoc::allocate::seeks_v6(svc, self.p6.ranges.len() > 0)
    }

    /// The IPv4 address that is found for the service.
    pub open spec fn found4(self, svc: LbService, is_default: bool) -> Option<IpAddr> {
        if self.moves4(svc, is_default) {
            self.p4.next(self.a4)
        } else {
            None
        }
    }

    /// The IPv6 address that is found for the service.
    pub open spec fn found6(self, svc: LbService, is_default: bool) -> Option<IpAddr> {
        if self.moves6(svc, is_default) {
            self.p6.next(self.a6)
        } else {
            None
        }
    }

    /// The addresses that the service is given: what is found, unless the service must have both
    /// families and one was not found.
    pub open spec fn granted(self, svc: LbService, is_default: bool) -> Seq<IpAddr> {
        let got4 = self.found4(svc, is_default);
        let got6 = self.found6(svc, is_default);
        if svc.require_dual && (got4 is None || got6 is None) {
            Seq::empty()
        } else {
            crate::lballoc::allocate::of_option(got4) + crate::lballoc::allocate::of_option(got6)
        }
    }

    /// Whether the allocator acts on the service and fails to find addresses for it, for this
    /// reason.
    pub open spec fn refuses(self, svc: LbService, is_default: bool, why: AllocError) -> bool {
        crate::lballoc::allocate::acts_on(svc, is_default) && crate::lballoc::allocate::outcome(
            svc,
            self.p4.ranges.len() > 0,
            self.p6.ranges.len() > 0,
            self.p4.next(self.a4),
            self.p6.next(self.a6),
            Err(why),
        )
    }

    /// The state after the service.
    pub open spec fn after(self, svc: LbService, is_default: bool) -> PassState {
        let g = self.granted(svc, is_default);
        PassState {
            p4: if self.moves4(svc, is_default) {
                self.p4.after(self.a4)
            } else {
                self.p4
            },
            p6: if self.moves6(svc, is_default) {
                self.p6.after(self.a6)
            } else {
                self.p6
            },
            a4: self.a4 + of_family(g, true),
            a6: self.a6 + of_family(g, false),
        }
    }

    /// The state after all the services, in order.
    pub open spec fn after_all(self, services: Seq<LbService>, is_default: bool) -> PassState
        decreases services.len(),
    {
        if services.len() == 0 {
            self
        } else {
            self.after_all(services.drop_last(), is_default).after(services.last(), is_default)
        }
    }

    /// The addresses that the service at index `i` is given.
    pub open spec fn share(self, services: Seq<LbService>, is_default: bool, i: int) -> Seq<
        IpAddr,
    > {
        self.after_all(services.take(i), is_default).granted(services[i], is_default)
    }

    /// All addresses that the services are given, in order.
    pub open spec fn shares(self, services: Seq<LbService>, is_default: bool) -> Seq<IpAddr>
        decreases services.len(),
    {
        if services.len() == 0 {
            Seq::empty()
        } else {
            self.shares(services.drop_last(), is_default) + self.after_all(
                services.drop_last(),
                is_default,
            ).granted(services.last(), is_default)
        }
    }
}

/// What a pass does next.
pub enum PassMove {
    /// It ends.
    Stop,
    /// The next service is given addresses, which are to be recorded.
    Give(Seq<IpAddr>),
    /// The next service is given nothing.
    Nothing,
}

/// What a pass does next that has reached service `at`, where the last recording came to `last`:
/// a failure ends it, and so does the end of the services.
pub open spec fn next_move(
    st: PassState,
    services: Seq<LbService>,
    is_default: bool,
    at: nat,
    last: Result<(), StatusError>,
) -> PassMove {
    if last is Err || at >= services.len() {
        PassMove::Stop
    } else {
        let g = st.granted(services[at as int], is_default);
        if g.len() > 0 {
            PassMove::Give(g)
        } else {
            PassMove::Nothing
        }
    }
}

/// No address occurs twice.
pub open spec fn distinct(ips: Seq<IpAddr>) -> bool {
    forall|i: int, j: int| 0 <= i < j < ips.len() ==> ips[i] != ips[j]
}

impl LbAllocator {
    /// Both pools are well formed.
    pub closed spec fn wf(self) -> bool {
        self.v4_ranges.wf() && self.v6_ranges.wf()
    }

    /// The IPv4 pool.
    pub closed spec fn pool4(self) -> crate::lballoc::pools::Pool {
        self.v4_ranges@
    }

    /// The IPv6 pool.
    pub closed spec fn pool6(self) -> crate::lballoc::pools::Pool {
        self.v6_ranges@
    }

    /// Whether services that name no class are served.
    pub closed spec fn serves_default(self) -> bool {
        self.is_default
    }

    /// The state of a pass that has reached `pass`.
    pub open spec fn state(self, pass: Pass) -> PassState {
        PassState { p4: self.pool4(), p6: self.pool6(), a4: pass.a4@, a6: pass.a6@ }
    }

    /// An allocator over two pools.
    pub fn new(v4_ranges: IpRanges, v6_ranges: IpRanges, is_default: bool) -> (r: LbAllocator)
        requires
            v4_ranges.wf(),
            v6_ranges.wf(),
        ensures
            r.wf(),
            r.pool4() == v4_ranges@,
            r.pool6() == v6_ranges@,
            r.serves_default() == is_default,
    {
        LbAllocator { v4_ranges, v6_ranges, is_default }
    }

    /// Starts a pass: what the services hold out of the pools is taken.
    pub fn begin(&self, services: &[LbService]) -> (r: Pass)
        requires
            self.wf(),
        ensures
            r.a4@ == held(services@, self.pool4().ranges, true),
            r.a6@ == held(services@, self.pool6().ranges, false),
    {
        let (a4, a6) = allocated_ips(services, &self.v4_ranges, &self.v6_ranges);
        Pass { a4, a6 }
    }

    /// The addresses that the next service of the pass is given, and why it got none where it
    /// was refused. They are taken from then on.
    pub fn step(&mut self, pass: &mut Pass, svc: &LbService) -> (r: (
        Vec<IpAddr>,
        Option<AllocError>,
    ))
        requires
            old(self).wf(),
        ensures
            final(self).wf(),
            final(self).serves_default() == old(self).serves_default(),
            r.0@ == old(self).state(*old(pass)).granted(*svc, old(self).serves_default()),
            final(self).state(*final(pass)) == old(self).state(*old(pass)).after(
                *svc,
                old(self).serves_default(),
            ),
            match r.1 {
                Some(e) => old(self).state(*old(pass)).refuses(
                    *svc,
                    old(self).serves_default(),
                    e,
                ) && r.0@.len() == 0,
                None => forall|e: AllocError|
                    !(#[trigger] old(self).state(*old(pass)).refuses(
                        *svc,
                        old(self).serves_default(),
                        e,
                    )),
            },
    {
        let ghost st = self.state(*pass);
        let ghost d = self.is_default;
        let mut err: Option<AllocError> = None;
        let mut ips: Vec<IpAddr> = Vec::new();
        if should_allocate(svc, self.is_default) {
            match plan_allocation(
                svc,
                &mut self.v4_ranges,
                &mut self.v6_ranges,
                &pass.a4,
                &pass.a6,
            ) {
                Ok(p) => {
                    ips = p.ips();
                },
                Err(e) => {
                    err = Some(e);
                },
            }
        }
        assert(ips@ =~= st.granted(*svc, d));
        let ghost f4 = |ip: IpAddr|
            if (ip is V4) == true {
                seq![ip]
            } else {
                Seq::empty()
            };
        let ghost f6 = |ip: IpAddr|
            if (ip is V4) == false {
                seq![ip]
            } else {
                Seq::empty()
            };
        let ghost all = ips@;
        let mut i: usize = 0;
        assert(pass.a4@ =~= st.a4 + crate::seqs::flat(all.take(0), f4));
        assert(pass.a6@ =~= st.a6 + crate::seqs::flat(all.take(0), f6));
        while i < ips.len()
            invariant
                i <= ips@.len(),
                all == ips@,
                f4 == (|ip: IpAddr|
                    if (ip is V4) == true {
                        seq![ip]
                    } else {
                        Seq::empty()
                    }),
                f6 == (|ip: IpAddr|
                    if (ip is V4) == false {
                        seq![ip]
                    } else {
                        Seq::empty()
                    }),
                pass.a4@ == st.a4 + crate::seqs::flat(all.take(i as int), f4),
                pass.a6@ == st.a6 + crate::seqs::flat(all.take(i as int), f6),
            decreases ips@.len() - i,
        {
            proof {
                crate::seqs::lemma_flat_step(all, f4, i as int);
                crate::seqs::lemma_flat_step(all, f6, i as int);
            }
            match ips[i] {
                IpAddr::V4(_) => {
                    pass.a4.push(ips[i]);
                },
                IpAddr::V6(_) => {
                    pass.a6.push(ips[i]);
                },
            }
            assert(pass.a4@ =~= st.a4 + crate::seqs::flat(all.take(i + 1), f4));
            assert(pass.a6@ =~= st.a6 + crate::seqs::flat(all.take(i + 1), f6));
            i = i + 1;
        }
        assert(all.take(i as int) =~= all);
        (ips, err)
    }

    /// Starts a pass whose assignments are recorded one by one.
    pub fn begin_round(&self, services: &[LbService]) -> (r: Round)
        requires
            self.wf(),
        ensures
            r.pass.a4@ == held(services@, self.pool4().ranges, true),
            r.pass.a6@ == held(services@, self.pool6().ranges, false),
            r.at == 0,
            r.recorded == 0,
    {
        Round { pass: self.begin(services), at: 0, recorded: 0 }
    }

    /// What a pass does next, given what the last recording came to; before the first one
    /// nothing has failed. A failure to record ends the pass, and leaves all as it is.
    pub fn advance(
        &mut self,
        round: &mut Round,
        services: &[LbService],
        last: Result<(), StatusError>,
    ) -> (r: PassStep)
        requires
            old(self).wf(),
            old(round).recorded <= old(round).at <= services@.len(),
        ensures
            final(self).wf(),
            final(self).serves_default() == old(self).serves_default(),
            final(round).recorded <= final(round).at <= services@.len(),
            ({
                let d = old(self).serves_default();
                let st = old(self).state(old(round).pass);
                let at = old(round).at;
                let svc = services@[at as int];
                match next_move(st, services@, d, at as nat, last) {
                    PassMove::Stop => {
                        &&& r == PassStep::End(
                            match last {
                                Ok(_) => Ok(old(round).recorded),
                                Err(e) => Err(e),
                            },
                        )
                        &&& *final(self) == *old(self)
                        &&& *final(round) == *old(round)
                    },
                    PassMove::Give(g) => {
                        &&& r matches PassStep::Record(a) && a.service == at && a.ips@ == g
                        &&& final(self).state(final(round).pass) == st.after(svc, d)
                        &&& final(round).at == at + 1
                        &&& final(round).recorded == old(round).recorded + 1
                    },
                    PassMove::Nothing => {
                        &&& match r {
                            PassStep::Skip(Some(e)) => st.refuses(svc, d, e),
                            PassStep::Skip(None) => forall|e: AllocError|
                                !(#[trigger] st.refuses(svc, d, e)),
                            _ => false,
                        }
                        &&& final(self).state(final(round).pass) == st.after(svc, d)
                        &&& final(round).at == at + 1
                        &&& final(round).recorded == old(round).recorded
                    },
                }
            }),
    {
        match last {
            Err(e) => {
                return PassStep::End(Err(e));
            },
            Ok(_) => {},
        }
        if round.at == services.len() {
            return PassStep::End(Ok(round.recorded));
        }
        let service: usize = round.at;
        let (ips, why) = self.step(&mut round.pass, &services[service]);
        round.at = service + 1;
        if ips.len() > 0 {
            round.recorded = round.recorded + 1;
            PassStep::Record(Assignment { service, ips })
        } else {
            PassStep::Skip(why)
        }
    }

    /// A whole pass over the services, as it goes where every assignment can be recorded: the
    /// services that are given addresses, in order.
    pub fn reconcile(&mut self, services: &[LbService]) -> (r: Vec<Assignment>)
        requires
            old(self).wf(),
        ensures
            final(self).wf(),
            final(self).serves_default() == old(self).serves_default(),
            ({
                let st = PassState {
                    p4: old(self).pool4(),
                    p6: old(self).pool6(),
                    a4: held(services@, old(self).pool4().ranges, true),
                    a6: held(services@, old(self).pool6().ranges, false),
                };
                let d = old(self).serves_default();
                &&& final(self).pool4() == st.after_all(services@, d).p4
                &&& final(self).pool6() == st.after_all(services@, d).p6
                &&& assigned(r@) == grants(st, services@, d, services@.len())
            }),
    {
        let mut pass = self.begin(services);
        let ghost st = self.state(pass);
        let ghost d = self.is_default;
        let mut out: Vec<Assignment> = Vec::new();
        let mut i: usize = 0;
        assert(services@.take(0) =~= Seq::<LbService>::empty());
        assert(assigned(out@) =~= grants(st, services@, d, 0));
        while i < services.len()
            invariant
                i <= services@.len(),
                self.wf(),
                d == self.serves_default(),
                self.state(pass) == st.after_all(services@.take(i as int), d),
                assigned(out@) == grants(st, services@, d, i as nat),
            decreases services@.len() - i,
        {
            let (ips, _err) = self.step(&mut pass, &services[i]);
            proof {
                assert(services@.take(i + 1).drop_last() =~= services@.take(i as int));
                assert(services@.take(i + 1).last() == services@[i as int]);
            }
            if ips.len() > 0 {
                let ghost before = out@;
                out.push(Assignment { service: i, ips });
                assert(assigned(out@) =~= assigned(before).push((i as int, ips@)));
            }
            i = i + 1;
        }
        assert(services@.take(i as int) =~= services@);
        out
    }
}

/// Assignments as values.
pub open spec fn assigned(v: Seq<Assignment>) -> Seq<(int, Seq<IpAddr>)> {
    v.map_values(|a: Assignment| (a.service as int, a.ips@))
}

/// The assignments to the first `n` services: those that are given anything.
pub open spec fn grants(st: PassState, services: Seq<LbService>, is_default: bool, n: nat) -> Seq<
    (int, Seq<IpAddr>),
>
    decreases n,
{
    if n == 0 {
        Seq::empty()
    } else {
        let i = n - 1;
        let g = st.share(services, is_default, i);
        let before = grants(st, services, is_default, i as nat);
        if g.len() > 0 {
            before.push((i, g))
        } else {
            before
        }
    }
}

// ---------------------------------------------------------------------------------------------
// A pass with failures to record
// ---------------------------------------------------------------------------------------------

/// What a pass has recorded in the end, and its outcome, where the recording of index `i` comes
/// to `outcomes(i)`: the pass has reached service `at` with `calls` recorded, of which the last
/// came to `last`.
pub open spec fn pass_run(
    st: PassState,
    services: Seq<LbService>,
    is_default: bool,
    at: nat,
    calls: Seq<(int, Seq<IpAddr>)>,
    last: Result<(), StatusError>,
    outcomes: spec_fn(nat) -> Result<(), StatusError>,
) -> (Seq<(int, Seq<IpAddr>)>, Result<nat, StatusError>)
    decreases services.len() - at,
{
    let next = st.after(services[at as int], is_default);
    match next_move(st, services, is_default, at, last) {
        PassMove::Stop => (
            calls,
            match last {
                Ok(_) => Ok(calls.len()),
                Err(e) => Err(e),
            },
        ),
        PassMove::Give(g) => pass_run(
            next,
            services,
            is_default,
            at + 1,
            calls.push((at as int, g)),
            outcomes(calls.len()),
            outcomes,
        ),
        PassMove::Nothing => pass_run(next, services, is_default, at + 1, calls, last, outcomes),
    }
}

/// More services only add assignments.
proof fn lemma_grants_grow(
    st: PassState,
    services: Seq<LbService>,
    is_default: bool,
    m: nat,
    n: nat,
)
    requires
        m <= n,
    ensures
        grants(st, services, is_default, m).len() <= grants(st, services, is_default, n).len(),
        grants(st, services, is_default, n).take(
            grants(st, services, is_default, m).len() as int,
        ) == grants(st, services, is_default, m),
    decreases n,
{
    let a = grants(st, services, is_default, m);
    let b = grants(st, services, is_default, n);
    if m == n {
        assert(b.take(a.len() as int) =~= a);
    } else {
        lemma_grants_grow(st, services, is_default, m, (n - 1) as nat);
        assert(b.take(a.len() as int) =~= grants(st, services, is_default, (n - 1) as nat).take(
            a.len() as int,
        ));
    }
}

/// What a run has recorded, and its outcome, are right, given all there is to record: nothing
/// follows a failure.
spec fn stops_right(
    all: Seq<(int, Seq<IpAddr>)>,
    calls: Seq<(int, Seq<IpAddr>)>,
    r: Result<nat, StatusError>,
    outcomes: spec_fn(nat) -> Result<(), StatusError>,
) -> bool {
    &&& calls.len() <= all.len()
    &&& calls == all.take(calls.len() as int)
    &&& forall|i: nat| i + 1 < calls.len() ==> #[trigger] outcomes(i) is Ok
    &&& r is Ok <==> forall|i: nat| i < all.len() ==> #[trigger] outcomes(i) is Ok
    &&& r matches Ok(n) ==> calls == all && n == all.len()
    &&& r matches Err(e) ==> calls.len() > 0 && outcomes((calls.len() - 1) as nat) == Err::<
        (),
        StatusError,
    >(e)
}

proof fn lemma_pass_run(
    st: PassState,
    services: Seq<LbService>,
    is_default: bool,
    at: nat,
    last: Result<(), StatusError>,
    outcomes: spec_fn(nat) -> Result<(), StatusError>,
)
    requires
        at <= services.len(),
        ({
            let calls = grants(st, services, is_default, at);
            &&& forall|i: nat| i + 1 < calls.len() ==> #[trigger] outcomes(i) is Ok
            &&& last == if calls.len() == 0 {
                Ok(())
            } else {
                outcomes((calls.len() - 1) as nat)
            }
        }),
    ensures
        ({
            let all = grants(st, services, is_default, services.len());
            let (calls, r) = pass_run(
                st.after_all(services.take(at as int), is_default),
                services,
                is_default,
                at,
                grants(st, services, is_default, at),
                last,
                outcomes,
            );
            stops_right(all, calls, r, outcomes)
        }),
    decreases services.len() - at,
{
    let all = grants(st, services, is_default, services.len());
    let calls = grants(st, services, is_default, at);
    let now = st.after_all(services.take(at as int), is_default);
    let run = pass_run(now, services, is_default, at, calls, last, outcomes);
    lemma_grants_grow(st, services, is_default, at, services.len());
    if last is Err {
        assert(run.0 == calls);
        assert(!(outcomes((calls.len() - 1) as nat) is Ok));
        assert(stops_right(all, run.0, run.1, outcomes));
    } else if at == services.len() {
        assert(run.0 == calls);
        assert(all.take(calls.len() as int) =~= all);
        assert forall|i: nat| i < all.len() implies #[trigger] outcomes(i) is Ok by {
            if i + 1 == calls.len() {
                assert(outcomes(i) == last);
            }
        }
        assert(stops_right(all, run.0, run.1, outcomes));
    } else {
        let svc = services[at as int];
        let g = now.granted(svc, is_default);
        let next = now.after(svc, is_default);
        let more = grants(st, services, is_default, at + 1);
        assert(services.take(at as int + 1).drop_last() =~= services.take(at as int));
        assert(services.take(at as int + 1).last() == svc);
        assert(st.after_all(services.take(at as int + 1), is_default) == next);
        assert(st.share(services, is_default, at as int) == g);
        if g.len() > 0 {
            let then = outcomes(calls.len());
            assert(more == calls.push((at as int, g)));
            assert forall|i: nat| i + 1 < more.len() implies #[trigger] outcomes(i) is Ok by {
                if i + 1 == calls.len() {
                    assert(outcomes(i) == last);
                }
            }
            assert(run == pass_run(next, services, is_default, at + 1, more, then, outcomes));
            lemma_pass_run(st, services, is_default, at + 1, then, outcomes);
        } else {
            assert(more == calls);
            assert(run == pass_run(next, services, is_default, at + 1, more, last, outcomes));
            lemma_pass_run(st, services, is_default, at + 1, last, outcomes);
        }
    }
}

/// A pass records assignments in the order of the services up to the first that cannot be
/// recorded, and none after it: what it records is the beginning of the assignments of a whole
/// pass, and all recordings but the last have succeeded. It succeeds exactly when every
/// recording does, with their number, and fails with the error of the one that failed.
pub proof fn lemma_pass_ends_at_first_failure(
    st: PassState,
    services: Seq<LbService>,
    is_default: bool,
    outcomes: spec_fn(nat) -> Result<(), StatusError>,
)
    ensures
        ({
            let all = grants(st, services, is_default, services.len());
            let (calls, r) = pass_run(
                st,
                services,
                is_default,
                0,
                Seq::empty(),
                Ok(()),
                outcomes,
            );
            &&& calls.len() <= all.len()
            &&& calls == all.take(calls.len() as int)
            &&& forall|i: nat| i + 1 < calls.len() ==> #[trigger] outcomes(i) is Ok
            &&& r is Ok <==> forall|i: nat| i < all.len() ==> #[trigger] outcomes(i) is Ok
            &&& r matches Ok(n) ==> calls == all && n == all.len()
            &&& r matches Err(e) ==> calls.len() > 0 && outcomes((calls.len() - 1) as nat) == Err::<
                (),
                StatusError,
            >(e)
        }),
{
    assert(services.take(0) =~= Seq::<LbService>::empty());
    lemma_pass_run(st, services, is_default, 0, Ok(()), outcomes);
}

// ---------------------------------------------------------------------------------------------
// No address goes to two services
// ---------------------------------------------------------------------------------------------

/// What a service is given is of the pools' families, free before, and not the same twice.
proof fn lemma_granted(st: PassState, svc: LbService, is_default: bool)
    requires
        st.wf(),
        st.sorted_by_family(),
    ensures
        ({
            let g = st.granted(svc, is_default);
            &&& distinct(g)
            &&& forall|i: int| #![trigger g[i]]
                0 <= i < g.len() ==> (g[i] is V4 ==> !st.a4.contains(g[i])
                    && crate::lballoc::pools::covered(st.p4.ranges, g[i])) && (g[i] is V6
                    ==> !st.a6.contains(g[i]) && crate::lballoc::pools::covered(
                    st.p6.ranges,
                    g[i],
                ))
        }),
        st.after(svc, is_default).p4.ranges == st.p4.ranges,
        st.after(svc, is_default).p6.ranges == st.p6.ranges,
        st.after(svc, is_default).wf(),
        st.after(svc, is_default).sorted_by_family(),
{
    crate::lballoc::pools::lemma_next_is_free(st.p4, st.a4);
    crate::lballoc::pools::lemma_next_is_free(st.p6, st.a6);
}

/// An address of a list is in the list of its family.
proof fn lemma_of_family(ips: Seq<IpAddr>, a: IpAddr)
    requires
        ips.contains(a),
    ensures
        of_family(ips, a is V4).contains(a),
{
    let k = choose|k: int| 0 <= k < ips.len() && ips[k] == a;
    let v4 = a is V4;
    let f = |ip: IpAddr|
        if (ip is V4) == v4 {
            seq![ip]
        } else {
            Seq::empty()
        };
    assert(f(a)[0] == a);
    crate::seqs::lemma_flat_has(ips, f, k, a);
}

/// In one pass no two services are given the same address, and none is given one that is taken:
/// the addresses given are pairwise distinct and none of them was taken at the start.
pub proof fn lemma_no_address_twice(st: PassState, services: Seq<LbService>, is_default: bool)
    requires
        st.wf(),
        st.sorted_by_family(),
    ensures
        distinct(st.shares(services, is_default)),
        forall|a: IpAddr| #[trigger]
            st.shares(services, is_default).contains(a) ==> (a is V4 ==> !st.a4.contains(a)) && (
            a is V6 ==> !st.a6.contains(a)),
{
    lemma_pass(st, services, is_default);
}

proof fn lemma_pass(st: PassState, services: Seq<LbService>, is_default: bool)
    requires
        st.wf(),
        st.sorted_by_family(),
    ensures
        st.after_all(services, is_default).wf(),
        st.after_all(services, is_default).sorted_by_family(),
        st.after_all(services, is_default).p4.ranges == st.p4.ranges,
        st.after_all(services, is_default).p6.ranges == st.p6.ranges,
        distinct(st.shares(services, is_default)),
        forall|a: IpAddr| #[trigger]
            st.shares(services, is_default).contains(a) ==> (a is V4 ==> !st.a4.contains(a)
                && st.after_all(services, is_default).a4.contains(a)) && (a is V6
                ==> !st.a6.contains(a) && st.after_all(services, is_default).a6.contains(a)),
        forall|a: IpAddr| #[trigger]
            st.a4.contains(a) ==> st.after_all(services, is_default).a4.contains(a),
        forall|a: IpAddr| #[trigger]
            st.a6.contains(a) ==> st.after_all(services, is_default).a6.contains(a),
    decreases services.len(),
{
    if services.len() > 0 {
        let front = services.drop_last();
        let svc = services.last();
        lemma_pass(st, front, is_default);
        let mid = st.after_all(front, is_default);
        let end = st.after_all(services, is_default);
        lemma_granted(mid, svc, is_default);
        let g = mid.granted(svc, is_default);
        let before = st.shares(front, is_default);
        let all = st.shares(services, is_default);
        assert(all == before + g);
        assert forall|a: IpAddr| mid.a4.contains(a) implies #[trigger] end.a4.contains(a) by {
            crate::seqs::lemma_in_sum(mid.a4, of_family(g, true), a);
        }
        assert forall|a: IpAddr| mid.a6.contains(a) implies #[trigger] end.a6.contains(a) by {
            crate::seqs::lemma_in_sum(mid.a6, of_family(g, false), a);
        }
        assert forall|a: IpAddr| #[trigger] g.contains(a) implies (a is V4 ==> !mid.a4.contains(a)
            && end.a4.contains(a)) && (a is V6 ==> !mid.a6.contains(a) && end.a6.contains(a)) by {
            lemma_of_family(g, a);
            crate::seqs::lemma_in_sum(mid.a4, of_family(g, true), a);
            crate::seqs::lemma_in_sum(mid.a6, of_family(g, false), a);
        }
        assert forall|a: IpAddr| #[trigger] all.contains(a) implies (a is V4 ==> !st.a4.contains(a)
            && end.a4.contains(a)) && (a is V6 ==> !st.a6.contains(a) && end.a6.contains(a)) by {
            crate::seqs::lemma_in_sum(before, g, a);
            if before.contains(a) {
                assert(mid.a4.contains(a) ==> end.a4.contains(a));
                assert(mid.a6.contains(a) ==> end.a6.contains(a));
            } else {
                assert(g.contains(a));
                assert(st.a4.contains(a) ==> mid.a4.contains(a));
                assert(st.a6.contains(a) ==> mid.a6.contains(a));
            }
        }
        assert forall|i: int, j: int| 0 <= i < j < all.len() implies all[i] != all[j] by {
            if i < before.len() && j >= before.len() {
                assert(before.contains(all[i]));
                assert(g[j - before.len()] == all[j]);
                assert(g.contains(all[j]));
            } else if i >= before.len() {
                assert(g[i - before.len()] == all[i]);
                assert(g[j - before.len()] == all[j]);
            }
        }
        assert forall|a: IpAddr| #[trigger] st.a4.contains(a) implies end.a4.contains(a) by {
            assert(mid.a4.contains(a));
        }
        assert forall|a: IpAddr| #[trigger] st.a6.contains(a) implies end.a6.contains(a) by {
            assert(mid.a6.contains(a));
        }
    }
}

/// What a service was given is among what the services up to it were given.
proof fn lemma_share_in_shares(
    st: PassState,
    services: Seq<LbService>,
    is_default: bool,
    i: int,
    n: int,
    a: IpAddr,
)
    requires
        0 <= i < n <= services.len(),
        st.share(services, is_default, i).contains(a),
    ensures
        st.shares(services.take(n), is_default).contains(a),
    decreases n,
{
    let front = services.take(n).drop_last();
    assert(front =~= services.take(n - 1));
    assert(services.take(n).last() == services[n - 1]);
    let before = st.shares(front, is_default);
    let g = st.after_all(front, is_default).granted(services[n - 1], is_default);
    if i < n - 1 {
        lemma_share_in_shares(st, services, is_default, i, n - 1, a);
    }
    crate::seqs::lemma_in_sum(before, g, a);
}

/// The assignments to the first `n` services name services below `n`, in order, each with what it
/// is given.
proof fn lemma_grants(st: PassState, services: Seq<LbService>, is_default: bool, n: nat)
    requires
        n <= services.len(),
    ensures
        ({
            let all = grants(st, services, is_default, n);
            &&& forall|i: int| #![trigger all[i]]
                0 <= i < all.len() ==> 0 <= all[i].0 < n && all[i].1.len() > 0 && all[i].1
                    == st.share(services, is_default, all[i].0)
            &&& forall|i: int, j: int|
                0 <= i < j < all.len() ==> (#[trigger] all[i]).0 < (#[trigger] all[j]).0
        }),
    decreases n,
{
    if n > 0 {
        let front = grants(st, services, is_default, (n - 1) as nat);
        let all = grants(st, services, is_default, n);
        lemma_grants(st, services, is_default, (n - 1) as nat);
        assert forall|i: int| #![trigger all[i]] 0 <= i < all.len() implies 0 <= all[i].0 < n
            && all[i].1.len() > 0 && all[i].1 == st.share(services, is_default, all[i].0) by {
            if i < front.len() {
                assert(all[i] == front[i]);
            }
        }
        assert forall|i: int, j: int| 0 <= i < j < all.len() implies (#[trigger] all[i]).0 < (
        #[trigger] all[j]).0 by {
            assert(all[i] == front[i]);
            if j < front.len() {
                assert(all[j] == front[j]);
            }
        }
    }
}

/// No service has the address out of a pool that covers it, where the address is not among what
/// the services hold.
proof fn lemma_not_held(
    services: Seq<LbService>,
    ranges: Seq<crate::net::IpNet>,
    s: int,
    a: IpAddr,
)
    requires
        0 <= s < services.len(),
        crate::lballoc::pools::covered(ranges, a),
        !held(services, ranges, a is V4).contains(a),
    ensures
        !service_ips(services[s]).contains(a),
{
    let own = service_ips(services[s]);
    let v4 = a is V4;
    if own.contains(a) {
        let k = choose|k: int| 0 <= k < own.len() && own[k] == a;
        let f = |ip: IpAddr|
            if (ip is V4) == v4 && crate::lballoc::pools::covered(ranges, ip) {
                seq![ip]
            } else {
                Seq::empty()
            };
        assert(f(a)[0] == a);
        crate::seqs::lemma_flat_has(own, f, k, a);
        crate::seqs::lemma_flat_has(
            services,
            |x: LbService| pooled(service_ips(x), ranges, v4),
            s,
            a,
        );
    }
}

/// The assignments of a pass: they go to services on which the allocator acts, in the order of
/// the services; no address is assigned twice, to one service or to two; and none is an external
/// or assigned address of any service.
pub proof fn lemma_assignments_are_sound(st: PassState, services: Seq<LbService>, is_default: bool)
    requires
        st.wf(),
        st.sorted_by_family(),
        st.a4 == held(services, st.p4.ranges, true),
        st.a6 == held(services, st.p6.ranges, false),
    ensures
        ({
            let all = grants(st, services, is_default, services.len());
            &&& forall|i: int| #![trigger all[i]]
                0 <= i < all.len() ==> 0 <= all[i].0 < services.len()
                    && crate::lballoc::allocate::acts_on(services[all[i].0], is_default)
            &&& forall|i: int, j: int|
                0 <= i < j < all.len() ==> (#[trigger] all[i]).0 < (#[trigger] all[j]).0
            &&& forall|i: int, k: int, j: int, l: int|
                0 <= i < all.len() && 0 <= k < all[i].1.len() && 0 <= j < all.len() && 0 <= l
                    < all[j].1.len() && (i != j || k != l) ==> #[trigger] all[i].1[k]
                    != #[trigger] all[j].1[l]
            &&& forall|i: int, k: int, s: int|
                0 <= i < all.len() && 0 <= k < all[i].1.len() && 0 <= s < services.len()
                    ==> !service_ips(#[trigger] services[s]).contains(#[trigger] all[i].1[k])
        }),
{
    let all = grants(st, services, is_default, services.len());
    lemma_grants(st, services, is_default, services.len());
    assert forall|i: int| #![trigger all[i]] 0 <= i < all.len() implies 0 <= all[i].0
        < services.len() && crate::lballoc::allocate::acts_on(
        services[all[i].0],
        is_default,
    ) by {
        let before = st.after_all(services.take(all[i].0), is_default);
        if !crate::lballoc::allocate::acts_on(services[all[i].0], is_default) {
            lemma_others_untouched(before, services[all[i].0], is_default);
        }
    }
    assert forall|i: int, k: int, j: int, l: int|
        0 <= i < all.len() && 0 <= k < all[i].1.len() && 0 <= j < all.len() && 0 <= l
            < all[j].1.len() && (i != j || k != l) implies #[trigger] all[i].1[k]
        != #[trigger] all[j].1[l] by {
        if i == j {
            let n = all[i].0;
            lemma_pass(st, services.take(n), is_default);
            lemma_granted(st.after_all(services.take(n), is_default), services[n], is_default);
        } else if i < j {
            lemma_apart(st, services, is_default, all[i].0, k, all[j].0, l);
        } else {
            lemma_apart(st, services, is_default, all[j].0, l, all[i].0, k);
        }
    }
    assert forall|i: int, k: int, s: int|
        0 <= i < all.len() && 0 <= k < all[i].1.len() && 0 <= s < services.len() implies !service_ips(
        #[trigger] services[s],
    ).contains(#[trigger] all[i].1[k]) by {
        let n = all[i].0;
        let a = all[i].1[k];
        let now = st.after_all(services.take(n), is_default);
        lemma_pass(st, services.take(n), is_default);
        lemma_granted(now, services[n], is_default);
        assert(now.granted(services[n], is_default)[k] == a);
        if a is V4 {
            assert(st.a4.contains(a) ==> now.a4.contains(a));
            lemma_not_held(services, st.p4.ranges, s, a);
        } else {
            assert(st.a6.contains(a) ==> now.a6.contains(a));
            lemma_not_held(services, st.p6.ranges, s, a);
        }
    }
}

/// What an earlier service is given is not given to a later one.
proof fn lemma_apart(
    st: PassState,
    services: Seq<LbService>,
    is_default: bool,
    m: int,
    k: int,
    n: int,
    l: int,
)
    requires
        st.wf(),
        st.sorted_by_family(),
        0 <= m < n < services.len(),
        0 <= k < st.share(services, is_default, m).len(),
        0 <= l < st.share(services, is_default, n).len(),
    ensures
        st.share(services, is_default, m)[k] != st.share(services, is_default, n)[l],
{
    let a = st.share(services, is_default, m)[k];
    let b = st.share(services, is_default, n)[l];
    let now = st.after_all(services.take(n), is_default);
    assert(st.share(services, is_default, m).contains(a));
    lemma_share_in_shares(st, services, is_default, m, n, a);
    lemma_pass(st, services.take(n), is_default);
    lemma_granted(now, services[n], is_default);
    assert(now.granted(services[n], is_default)[l] == b);
    assert(st.shares(services.take(n), is_default).contains(a));
}

/// A service that the allocator does not serve, or that has what it asks for, is given nothing
/// and changes nothing.
pub proof fn lemma_others_untouched(st: PassState, svc: LbService, is_default: bool)
    requires
        !crate::lballoc::allocate::acts_on(svc, is_default),
    ensures
        st.granted(svc, is_default).len() == 0,
        st.after(svc, is_default) == st,
{
    assert(st.after(svc, is_default).a4 =~= st.a4);
    assert(st.after(svc, is_default).a6 =~= st.a6);
}

} // verus!
