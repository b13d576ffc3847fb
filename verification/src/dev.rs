//! The device: a controller together with the namespaces it reports.

use vstd::prelude::*;
use crate::bringup::{init_went_on, Init};
use crate::bus::{Fetch, Next, Reply, Step, Store};
use crate::ctrl::{Ctrl, CtrlModel};
use crate::err::NVMeError;
use crate::logs::{buffered, id_nss_cmd, reg_nss_went_on, Load, ID_LEN};
use crate::ns::{ns_begun, ns_went_on, Ns, NsLoad, NsModel};
use crate::ram::Dma;
use crate::reg::CAP;

verus! {

broadcast use vstd::slice::group_slice_axioms;

/// A device as a value.
pub struct DevModel {
    pub ctrl: CtrlModel,
    pub nss: Seq<NsModel>,
}

/// A controller and its namespaces.
pub struct NVMeDev<A: Dma> {
    ctrl: Ctrl<A>,
    nss: Vec<Ns>,
}

impl<A: Dma> View for NVMeDev<A> {
    type V = DevModel;

    closed spec fn view(&self) -> DevModel {
        DevModel { ctrl: self.ctrl@, nss: self.nss@.map_values(|n: Ns| n@) }
    }
}

/// How far the discovery of a device has got.
pub enum ProbeStage<A: Dma> {
    /// The controller is being brought up.
    Init(Init<A>),
    /// The list of namespaces is to be asked for.
    List,
    /// The list of namespaces is being read.
    Listing(Load),
    /// The next namespace of the list is to be identified.
    Pick,
    /// A namespace of the list is being identified.
    Identifying(NsLoad),
}

/// A device on its way to being known.
pub struct Probe<A: Dma> {
    /// The device as far as it is known.
    pub dev: NVMeDev<A>,
    /// The namespaces that the controller listed.
    pub ids: Vec<u32>,
    /// How many of them have been dealt with.
    pub at: usize,
    pub stage: ProbeStage<A>,
}

/// A `Probe` as a value.
pub struct ProbeModel<A: Dma> {
    pub dev: DevModel,
    pub ids: Seq<u32>,
    pub at: usize,
    pub stage: ProbeStage<A>,
}

impl<A: Dma> View for Probe<A> {
    type V = ProbeModel<A>;

    open spec fn view(&self) -> ProbeModel<A> {
        ProbeModel { dev: self.dev@, ids: self.ids@, at: self.at, stage: self.stage }
    }
}

impl<A: Dma> Probe<A> {
    /// The controller is well formed, and so is what the stage holds.
    pub open spec fn wf(self) -> bool {
        &&& self.dev@.ctrl.wf()
        &&& match self.stage {
            ProbeStage::Init(st) => st.wf(),
            ProbeStage::Listing(load) => load.size >= ID_LEN,
            ProbeStage::Identifying(st) => st.load.size >= ID_LEN && self.at < self.ids@.len(),
            _ => true,
        }
    }
}

/// Where a step of the discovery leads.
pub enum Landing<A: Dma> {
    /// On to the given state, after the host has read the fetch.
    On(Fetch, ProbeModel<A>),
    /// To the end, with a failure.
    Fail(NVMeError),
    /// To the end, with the device.
    Finish(DevModel),
}

/// Whether the step `s` performs `stores` and leads to `to`, with the
/// controller still on the provider `provider`.
pub open spec fn landed<A: Dma>(
    s: Step<Probe<A>, NVMeDev<A>>,
    stores: Seq<Store>,
    provider: A,
    to: Landing<A>,
) -> bool {
    &&& s.stores@ == stores
    &&& match to {
        Landing::On(f, m) => s.next matches Next::Fetch(f2, p) && f2 == f && p@ == m
            && p.dev.provider() == provider,
        Landing::Fail(e) => s.next == Next::<Probe<A>, NVMeDev<A>>::Done(Err(e)),
        Landing::Finish(d) => s.next matches Next::Done(Ok(dev)) && dev@ == d && dev.provider()
            == provider,
    }
}

/// Where a step of bring-up leads the discovery: on with bring-up, to the
/// end where bring-up fails, and on to the namespace list once the
/// controller is up.
pub open spec fn init_landing<A: Dma>(
    b: ProbeModel<A>,
    after: CtrlModel,
    sub: Next<Init<A>, ()>,
) -> Landing<A> {
    let dev = DevModel { ctrl: after, ..b.dev };
    match sub {
        Next::Fetch(f, st) => Landing::On(f, ProbeModel { dev, stage: ProbeStage::Init(st), ..b }),
        Next::Done(Err(e)) => Landing::Fail(e),
        Next::Done(Ok(_)) => Landing::On(
            Fetch::Pause,
            ProbeModel { dev, stage: ProbeStage::List, ..b },
        ),
    }
}

/// Where a step of reading the namespace list leads the discovery: on
/// with the reading, to the end where it fails, and on to the first
/// namespace once the list is there.
pub open spec fn list_landing<A: Dma>(
    b: ProbeModel<A>,
    after: CtrlModel,
    sub: Next<Load, Vec<u32>>,
) -> Landing<A> {
    let dev = DevModel { ctrl: after, ..b.dev };
    match sub {
        Next::Fetch(f, load) => Landing::On(
            f,
            ProbeModel { dev, stage: ProbeStage::Listing(load), ..b },
        ),
        Next::Done(Err(e)) => Landing::Fail(e),
        Next::Done(Ok(ids)) => Landing::On(
            Fetch::Pause,
            ProbeModel { dev, ids: ids@, at: 0, stage: ProbeStage::Pick },
        ),
    }
}

/// Where a step of identifying a namespace leads the discovery: on with
/// the identification, and on to the next namespace once it has ended; the
/// namespace joins the device where it could be identified and is passed
/// over where it could not.
pub open spec fn ns_landing<A: Dma>(
    b: ProbeModel<A>,
    after: CtrlModel,
    sub: Next<NsLoad, Ns>,
) -> Landing<A> {
    match sub {
        Next::Fetch(f, st) => Landing::On(
            f,
            ProbeModel {
                dev: DevModel { ctrl: after, ..b.dev },
                stage: ProbeStage::Identifying(st),
                ..b
            },
        ),
        Next::Done(Err(_)) => Landing::On(
            Fetch::Pause,
            ProbeModel {
                dev: DevModel { ctrl: after, ..b.dev },
                at: (b.at + 1) as usize,
                stage: ProbeStage::Pick,
                ..b
            },
        ),
        Next::Done(Ok(ns)) => Landing::On(
            Fetch::Pause,
            ProbeModel {
                dev: DevModel { ctrl: after, nss: b.dev.nss.push(ns@) },
                at: (b.at + 1) as usize,
                stage: ProbeStage::Pick,
                ..b
            },
        ),
    }
}

/// What `new_next` owes when the discovery `b` is handed `reply`: the
/// step of the operation that the stage is in, taken on the controller, and
/// the landing that this step leads to. When the list of namespaces is
/// exhausted the discovery ends with the device.
pub open spec fn probed<A: Dma>(
    b: ProbeModel<A>,
    provider: A,
    reply: Reply,
    s: Step<Probe<A>, NVMeDev<A>>,
) -> bool {
    match b.stage {
        ProbeStage::Init(st) => exists|sub: Step<Init<A>, ()>, after: CtrlModel| #[trigger]
            init_went_on(b.dev.ctrl, provider, st, reply, sub, after) && landed(
                s,
                sub.stores@,
                provider,
                init_landing(b, after, sub.next),
            ),
        ProbeStage::List => exists|sub: Step<Load, Vec<u32>>, after: CtrlModel| #[trigger]
            buffered(b.dev.ctrl, provider, id_nss_cmd(0), ID_LEN, sub, after) && landed(
                s,
                sub.stores@,
                provider,
                list_landing(b, after, sub.next),
            ),
        ProbeStage::Listing(load) => exists|sub: Step<Load, Vec<u32>>, after: CtrlModel| #[trigger]
            reg_nss_went_on(b.dev.ctrl, load, reply, sub, after) && landed(
                s,
                sub.stores@,
                provider,
                list_landing(b, after, sub.next),
            ),
        ProbeStage::Pick => if b.at >= b.ids.len() {
            landed(s, Seq::empty(), provider, Landing::Finish(b.dev))
        } else {
            exists|sub: Step<NsLoad, Ns>, after: CtrlModel| #[trigger]
                ns_begun(b.dev.ctrl, provider, b.ids[b.at as int], sub, after) && landed(
                    s,
                    sub.stores@,
                    provider,
                    ns_landing(b, after, sub.next),
                )
        },
        ProbeStage::Identifying(st) => exists|sub: Step<NsLoad, Ns>, after: CtrlModel| #[trigger]
            ns_went_on(b.dev.ctrl, st, reply, sub, after) && landed(
                s,
                sub.stores@,
                provider,
                ns_landing(b, after, sub.next),
            ),
    }
}

/// Where the first namespace with the identifier `nsid` stands among
/// `nss`, and the length of `nss` where there is none.
pub open spec fn first_with(nss: Seq<NsModel>, nsid: u32) -> int
    decreases nss.len(),
{
    if nss.len() == 0 {
        0
    } else if nss[0].nsid == nsid {
        0
    } else {
        1 + first_with(nss.drop_first(), nsid)
    }
}

/// The first namespace with an identifier comes after those without it
/// only, and carries it.
pub proof fn lemma_first_with(nss: Seq<NsModel>, nsid: u32)
    ensures
        0 <= first_with(nss, nsid) <= nss.len(),
        forall|k: int| 0 <= k < first_with(nss, nsid) ==> (#[trigger] nss[k]).nsid != nsid,
        first_with(nss, nsid) < nss.len() ==> nss[first_with(nss, nsid)].nsid == nsid,
    decreases nss.len(),
{
    if nss.len() > 0 && nss[0].nsid != nsid {
        let rest = nss.drop_first();
        lemma_first_with(rest, nsid);
        assert forall|k: int| 0 <= k < first_with(nss, nsid) implies (#[trigger] nss[k]).nsid
            != nsid by {
            if k > 0 {
                assert(nss[k] == rest[k - 1]);
            }
        }
        if first_with(nss, nsid) < nss.len() {
            assert(nss[first_with(nss, nsid)] == rest[first_with(rest, nsid)]);
        }
    }
}

/// An index that comes after namespaces without the identifier only and
/// carries it is that of the first namespace with it; and where no
/// namespace carries it there is no first.
pub proof fn lemma_first_with_is(nss: Seq<NsModel>, nsid: u32, i: int)
    requires
        0 <= i <= nss.len(),
        forall|k: int| 0 <= k < i ==> (#[trigger] nss[k]).nsid != nsid,
        i < nss.len() ==> nss[i].nsid == nsid,
    ensures
        first_with(nss, nsid) == i,
    decreases nss.len(),
{
    if nss.len() > 0 && i > 0 {
        let rest = nss.drop_first();
        assert(nss[0].nsid != nsid);
        assert forall|k: int| 0 <= k < i - 1 implies (#[trigger] rest[k]).nsid != nsid by {
            assert(rest[k] == nss[k + 1]);
        }
        if i < nss.len() {
            assert(rest[i - 1] == nss[i]);
        }
        lemma_first_with_is(rest, nsid, i - 1);
    }
}

/// Where the first namespace with the identifier `nsid` stands among
/// `nss`, if there is one.
pub fn position(nss: &[Ns], nsid: u32) -> (r: Option<usize>)
    ensures
        match r {
            Some(i) => i == first_with(nss@.map_values(|n: Ns| n@), nsid) && i < nss@.len(),
            None => first_with(nss@.map_values(|n: Ns| n@), nsid) == nss@.len(),
        },
{
    let ghost all = nss@.map_values(|n: Ns| n@);
    let mut i: usize = 0;
    while i < nss.len()
        invariant
            i <= nss@.len(),
            all == nss@.map_values(|n: Ns| n@),
            forall|k: int| 0 <= k < i ==> (#[trigger] all[k]).nsid != nsid,
        decreases nss@.len() - i,
    {
        assert(all[i as int] == nss@[i as int]@);
        if nss[i].id() == nsid {
            proof {
                lemma_first_with_is(all, nsid, i as int);
            }
            return Some(i);
        }
        i += 1;
    }
    proof {
        lemma_first_with_is(all, nsid, i as int);
    }
    None
}

impl<A: Dma> NVMeDev<A> {
    /// The DMA provider of the controller.
    pub closed spec fn provider(&self) -> A {
        self.ctrl.provider()
    }

    /// Begins the discovery of the device behind the register window at
    /// `mmio`: a controller before bring-up, no namespaces, and the host
    /// reads CAP. Goes on with `new_next`.
    pub fn new(mmio: usize, alloc: A) -> (s: Step<Probe<A>, NVMeDev<A>>)
        ensures
            landed(
                s,
                Seq::empty(),
                alloc,
                Landing::On(
                    (Fetch::Reg64 { off: CAP }),
                    (ProbeModel {
                        dev: (DevModel { ctrl: CtrlModel::fresh(mmio), nss: Seq::empty() }),
                        ids: Seq::empty(),
                        at: 0,
                        stage: ProbeStage::Init(Init::Cap),
                    }),
                ),
            ),
            s.next matches Next::Fetch(_, p) ==> p.wf(),
    {
        let mut ctrl = Ctrl::new(mmio, alloc);
        let sub = ctrl.init();
        let dev = NVMeDev { ctrl, nss: Vec::new() };
        assert(dev@.nss =~= Seq::empty());
        Step::wait(
            sub.stores,
            Fetch::Reg64 { off: CAP },
            Probe { dev, ids: Vec::new(), at: 0, stage: ProbeStage::Init(Init::Cap) },
        )
    }

    /// Goes on with the discovery of a device.
    pub fn new_next(probe: Probe<A>, reply: Reply) -> (s: Step<Probe<A>, NVMeDev<A>>)
        requires
            probe.wf(),
        ensures
            probed(probe@, probe.dev.provider(), reply, s),
            s.next matches Next::Fetch(_, p) ==> p.wf(),
    {
        let Probe { dev, ids, at, stage } = probe;
        let NVMeDev { ctrl, nss } = dev;
        let mut ctrl = ctrl;
        let mut nss = nss;
        let ghost b = probe@;
        let ghost provider = probe.dev.provider();
        match stage {
            ProbeStage::Init(st) => {
                let sub = ctrl.init_next(st, reply);
                let ghost taken = sub;
                let Step { stores, next } = sub;
                let s = match next {
                    Next::Fetch(f, st2) => Step::wait(
                        stores,
                        f,
                        Probe { dev: NVMeDev { ctrl, nss }, ids, at, stage: ProbeStage::Init(st2) },
                    ),
                    Next::Done(Err(e)) => Step::done(stores, Err(e)),
                    Next::Done(Ok(_)) => Step::wait(
                        stores,
                        Fetch::Pause,
                        Probe { dev: NVMeDev { ctrl, nss }, ids, at, stage: ProbeStage::List },
                    ),
                };
                assert(init_went_on(b.dev.ctrl, provider, st, reply, taken, ctrl@) && landed(
                    s,
                    taken.stores@,
                    provider,
                    init_landing(b, ctrl@, taken.next),
                ));
                s
            },
            ProbeStage::List => {
                let sub = ctrl.reg_nss();
                let ghost taken = sub;
                let s = Self::list_lift(ctrl, nss, ids, at, sub, Ghost(b));
                assert(buffered(b.dev.ctrl, provider, id_nss_cmd(0), ID_LEN, taken, ctrl@)
                    && landed(
                    s,
                    taken.stores@,
                    provider,
                    list_landing(b, ctrl@, taken.next),
                ));
                s
            },
            ProbeStage::Listing(load) => {
                let sub = ctrl.reg_nss_next(load, reply);
                let ghost taken = sub;
                let s = Self::list_lift(ctrl, nss, ids, at, sub, Ghost(b));
                assert(reg_nss_went_on(b.dev.ctrl, load, reply, taken, ctrl@) && landed(
                    s,
                    taken.stores@,
                    provider,
                    list_landing(b, ctrl@, taken.next),
                ));
                s
            },
            ProbeStage::Pick => {
                if at >= ids.len() {
                    return Step::done(Vec::new(), Ok(NVMeDev { ctrl, nss }));
                }
                let nsid = ids[at];
                let sub = Ns::new(&mut ctrl, nsid);
                let ghost taken = sub;
                let s = Self::ns_lift(ctrl, nss, ids, at, sub, Ghost(b));
                assert(ns_begun(b.dev.ctrl, provider, b.ids[b.at as int], taken, ctrl@) && landed(
                    s,
                    taken.stores@,
                    provider,
                    ns_landing(b, ctrl@, taken.next),
                ));
                s
            },
            ProbeStage::Identifying(st) => {
                let sub = Ns::new_next(&mut ctrl, st, reply);
                let ghost taken = sub;
                let s = Self::ns_lift(ctrl, nss, ids, at, sub, Ghost(b));
                assert(ns_went_on(b.dev.ctrl, st, reply, taken, ctrl@) && landed(
                    s,
                    taken.stores@,
                    provider,
                    ns_landing(b, ctrl@, taken.next),
                ));
                s
            },
        }
    }

    /// Turns a step of reading the namespace list into a step of the
    /// discovery.
    fn list_lift(
        ctrl: Ctrl<A>,
        nss: Vec<Ns>,
        ids: Vec<u32>,
        at: usize,
        sub: Step<Load, Vec<u32>>,
        Ghost(b): Ghost<ProbeModel<A>>,
    ) -> (s: Step<Probe<A>, NVMeDev<A>>)
        requires
            ctrl@.wf(),
            b.dev.nss == nss@.map_values(|n: Ns| n@),
            b.ids == ids@,
            b.at == at,
            sub.next matches Next::Fetch(_, load) ==> load.size >= ID_LEN,
        ensures
            landed(s, sub.stores@, ctrl.provider(), list_landing(b, ctrl@, sub.next)),
            s.next matches Next::Fetch(_, p) ==> p.wf(),
    {
        let Step { stores, next } = sub;
        match next {
            Next::Fetch(f, load) => Step::wait(
                stores,
                f,
                Probe { dev: NVMeDev { ctrl, nss }, ids, at, stage: ProbeStage::Listing(load) },
            ),
            Next::Done(Err(e)) => Step::done(stores, Err(e)),
            Next::Done(Ok(found)) => Step::wait(
                stores,
                Fetch::Pause,
                Probe { dev: NVMeDev { ctrl, nss }, ids: found, at: 0, stage: ProbeStage::Pick },
            ),
        }
    }

    /// Turns a step of identifying a namespace into a step of the
    /// discovery.
    fn ns_lift(
        ctrl: Ctrl<A>,
        nss: Vec<Ns>,
        ids: Vec<u32>,
        at: usize,
        sub: Step<NsLoad, Ns>,
        Ghost(b): Ghost<ProbeModel<A>>,
    ) -> (s: Step<Probe<A>, NVMeDev<A>>)
        requires
            ctrl@.wf(),
            b.dev.nss == nss@.map_values(|n: Ns| n@),
            b.ids == ids@,
            b.at == at,
            at < ids@.len(),
            sub.next matches Next::Fetch(_, st) ==> st.load.size >= ID_LEN,
        ensures
            landed(s, sub.stores@, ctrl.provider(), ns_landing(b, ctrl@, sub.next)),
            s.next matches Next::Fetch(_, p) ==> p.wf(),
    {
        let Step { stores, next } = sub;
        let mut nss = nss;
        let listed = ids.len();
        match next {
            Next::Fetch(f, st) => Step::wait(
                stores,
                f,
                Probe { dev: NVMeDev { ctrl, nss }, ids, at, stage: ProbeStage::Identifying(st) },
            ),
            Next::Done(Err(_)) => Step::wait(
                stores,
                Fetch::Pause,
                Probe { dev: NVMeDev { ctrl, nss }, ids, at: at + 1, stage: ProbeStage::Pick },
            ),
            Next::Done(Ok(ns)) => {
                nss.push(ns);
                assert(nss@.map_values(|n: Ns| n@) =~= b.dev.nss.push(ns@));
                Step::wait(
                    stores,
                    Fetch::Pause,
                    Probe { dev: NVMeDev { ctrl, nss }, ids, at: at + 1, stage: ProbeStage::Pick },
                )
            },
        }
    }

    /// Takes the device apart into its controller and its namespaces.
    pub fn into_parts(self) -> (r: (Ctrl<A>, Vec<Ns>))
        ensures
            r.0@ == self@.ctrl,
            r.0.provider() == self.provider(),
            r.1@.map_values(|n: Ns| n@) == self@.nss,
    {
        (self.ctrl, self.nss)
    }

    /// The controller.
    pub fn ctrl(&self) -> (r: &Ctrl<A>)
        ensures
            r@ == self@.ctrl,
            r.provider() == self.provider(),
    {
        return &self.ctrl;
    }

    /// The controller, to run operations on.
    pub fn ctrl_mut(&mut self) -> (r: &mut Ctrl<A>)
        ensures
            r@ == old(self)@.ctrl,
            r.provider() == old(self).provider(),
            final(self)@ == (DevModel { ctrl: final(r)@, nss: old(self)@.nss }),
            final(self).provider() == final(r).provider(),
    {
        return &mut self.ctrl;
    }

    /// The first namespace with the identifier `nsid`, if there is one.
    pub fn ns(&self, nsid: u32) -> (r: Option<Ns>)
        ensures
            first_with(self@.nss, nsid) < self@.nss.len() ==> (r matches Some(ns) && ns@
                == self@.nss[first_with(self@.nss, nsid)]),
            first_with(self@.nss, nsid) >= self@.nss.len() ==> r is None,
    {
        match position(self.nss.as_slice(), nsid) {
            Some(i) => Some(self.nss[i]),
            None => None,
        }
    }

    /// The namespaces, in the order in which the controller listed them.
    pub fn ns_list(&self) -> (r: &[Ns])
        ensures
            r@.map_values(|n: Ns| n@) == self@.nss,
    {
        return self.nss.as_slice();
    }
}

} // verus!
