//! Taking the controller out of service and putting it back.

use vstd::prelude::*;
use crate::bits::{field32, with_field32};
use crate::bus::{Fetch, Next, Plan, Reply, Step, Store};
use crate::ctrl::{Ctrl, CtrlModel};
use crate::err::NVMeError;
use crate::ram::Dma;
use crate::reg::{CstsReg, CC, CC_EN, CC_SHN_NORMAL, CSTS, CSTS_RDY};

verus! {

/// The shutdown status that reports a completed shutdown.
pub const SHST_COMPLETE: u8 = 2;

/// How far a shutdown has got.
#[derive(Clone, Copy, Debug, PartialEq, Eq)]
pub enum Shutdown {
    /// Waiting for the I/O queues to drain.
    DrainIo,
    /// Waiting for the admin queue to drain.
    DrainAdmin,
    /// Waiting for the value of CC.
    Config,
    /// The shutdown has been notified with `cc` in CC; waiting for the
    /// controller to report it complete.
    Halting { cc: u32 },
    /// The controller has been disabled; waiting for it to report not ready.
    Disabling,
}

/// How far a resume has got.
#[derive(Clone, Copy, Debug, PartialEq, Eq)]
pub enum Resume {
    /// Waiting for the value of CC.
    Config,
    /// The controller has been enabled; waiting for it to report ready.
    Enabling,
}

/// CC with a normal shutdown notified: SHN = 01, all else as it was.
pub open spec fn halt_cc(cc: u32) -> u32 {
    (cc & !(0x3u32 << 14)) | CC_SHN_NORMAL
}

/// CC with the controller disabled: EN = 0, all else as it was.
pub open spec fn off_cc(cc: u32) -> u32 {
    cc & !CC_EN
}

/// CC with the controller enabled: EN = 1, all else as it was.
pub open spec fn on_cc(cc: u32) -> u32 {
    cc | CC_EN
}

/// What a shutdown leaves in CC when it found `cc` there.
pub open spec fn shutdown_cc(cc: u32) -> u32 {
    off_cc(halt_cc(cc))
}

/// The step of a shutdown that has got as far as `st` and is handed
/// `reply`, in a controller `c`.
///
/// - While queues have commands in flight, the host pauses and comes back.
/// - Then CC is read, and written back with a normal shutdown notified.
/// - CSTS is read until it reports the shutdown complete; then CC is written
///   with the controller disabled.
/// - CSTS is read until it reports not ready, which ends the shutdown.
/// - A reply of the wrong kind is a fault of the host.
pub open spec fn shutdown_step(c: CtrlModel, st: Shutdown, reply: Reply) -> Plan<Shutdown, ()> {
    match st {
        Shutdown::DrainIo => if !c.io_idle() {
            Plan::wait(Seq::empty(), Fetch::Pause, Shutdown::DrainIo)
        } else if !c.admin_idle() {
            Plan::wait(Seq::empty(), Fetch::Pause, Shutdown::DrainAdmin)
        } else {
            Plan::wait(Seq::empty(), Fetch::Reg32 { off: CC }, Shutdown::Config)
        },
        Shutdown::DrainAdmin => if !c.admin_idle() {
            Plan::wait(Seq::empty(), Fetch::Pause, Shutdown::DrainAdmin)
        } else {
            Plan::wait(Seq::empty(), Fetch::Reg32 { off: CC }, Shutdown::Config)
        },
        Shutdown::Config => match reply {
            Reply::Reg32(cc) => Plan::wait(
                seq![Store::Reg32 { off: CC, val: halt_cc(cc) }],
                Fetch::Reg32 { off: CSTS },
                Shutdown::Halting { cc: halt_cc(cc) },
            ),
            _ => Plan::done(Seq::empty(), Err(NVMeError::IoError)),
        },
        Shutdown::Halting { cc } => match reply {
            Reply::Reg32(csts) => if field32(csts, 2, 0x3) == SHST_COMPLETE {
                Plan::wait(
                    seq![Store::Reg32 { off: CC, val: off_cc(cc) }],
                    Fetch::Reg32 { off: CSTS },
                    Shutdown::Disabling,
                )
            } else {
                Plan::wait(Seq::empty(), Fetch::Reg32 { off: CSTS }, Shutdown::Halting { cc })
            },
            _ => Plan::done(Seq::empty(), Err(NVMeError::IoError)),
        },
        Shutdown::Disabling => match reply {
            Reply::Reg32(csts) => if csts & CSTS_RDY == 0 {
                Plan::done(Seq::empty(), Ok(()))
            } else {
                Plan::wait(Seq::empty(), Fetch::Reg32 { off: CSTS }, Shutdown::Disabling)
            },
            _ => Plan::done(Seq::empty(), Err(NVMeError::IoError)),
        },
    }
}

/// The step of a resume that has got as far as `st` and is handed `reply`:
/// CC is read and written back with the controller enabled, then CSTS is read
/// until it reports ready.
pub open spec fn resume_step(st: Resume, reply: Reply) -> Plan<Resume, ()> {
    match (st, reply) {
        (Resume::Config, Reply::Reg32(cc)) => Plan::wait(
            seq![Store::Reg32 { off: CC, val: on_cc(cc) }],
            Fetch::Reg32 { off: CSTS },
            Resume::Enabling,
        ),
        (Resume::Enabling, Reply::Reg32(csts)) => if csts & CSTS_RDY != 0 {
            Plan::done(Seq::empty(), Ok(()))
        } else {
            Plan::wait(Seq::empty(), Fetch::Reg32 { off: CSTS }, Resume::Enabling)
        },
        _ => Plan::done(Seq::empty(), Err(NVMeError::IoError)),
    }
}

/// Whether a resume that has got as far as `st` ends with success on
/// `reply`.
pub open spec fn resume_ends(st: Resume, reply: Reply) -> bool {
    st == Resume::Enabling && (reply matches Reply::Reg32(csts) && csts & CSTS_RDY != 0)
}

/// A shutdown leaves the controller disabled with a normal shutdown
/// notified, whatever CC held before; and a second shutdown, which finds in
/// CC what the first left there, writes that same value at both of its
/// stores and so leaves the register as the first did.
pub proof fn lemma_shutdown_idempotent(cc: u32)
    ensures
        shutdown_cc(cc) & CC_EN == 0,
        field32(shutdown_cc(cc), 14, 0x3) == 1,
        halt_cc(shutdown_cc(cc)) == shutdown_cc(cc),
        shutdown_cc(shutdown_cc(cc)) == shutdown_cc(cc),
        halt_cc(cc) == with_field32(cc, 14, 0x3, 1),
{
    assert(((cc & !(0x3u32 << 14)) | 0x4000u32) & !0x1u32 & 0x1u32 == 0) by (bit_vector);
    assert(((((cc & !(0x3u32 << 14)) | 0x4000u32) & !0x1u32) >> 14) & 0x3u32 == 1) by (bit_vector);
    assert((((cc & !(0x3u32 << 14)) | 0x4000u32) & !0x1u32) & !(0x3u32 << 14) | 0x4000u32 == ((cc
        & !(0x3u32 << 14)) | 0x4000u32) & !0x1u32) by (bit_vector);
    assert(((cc & !(0x3u32 << 14)) | 0x4000u32) & !0x1u32 & !0x1u32 == ((cc & !(0x3u32 << 14))
        | 0x4000u32) & !0x1u32) by (bit_vector);
    assert((cc & !(0x3u32 << 14)) | 0x4000u32 == (cc & !(0x3u32 << 14)) | ((1u32 & 0x3u32) << 14))
        by (bit_vector);
}

/// A shutdown from start to end: it writes CC twice, first with the
/// shutdown notified and then with the controller disabled as well, so that
/// CC holds `shutdown_cc` of what it held; and it ends with success when, and
/// only when, CSTS is read with RDY clear after that.
pub proof fn lemma_shutdown_run(c: CtrlModel, cc: u32, complete: u32, csts: u32)
    requires
        field32(complete, 2, 0x3) == SHST_COMPLETE,
    ensures
        shutdown_step(c, Shutdown::Config, Reply::Reg32(cc)) == Plan::<Shutdown, ()>::wait(
            seq![(Store::Reg32 { off: CC, val: halt_cc(cc) })],
            (Fetch::Reg32 { off: CSTS }),
            (Shutdown::Halting { cc: halt_cc(cc) }),
        ),
        shutdown_step(c, (Shutdown::Halting { cc: halt_cc(cc) }), Reply::Reg32(complete))
            == Plan::<Shutdown, ()>::wait(
            seq![(Store::Reg32 { off: CC, val: shutdown_cc(cc) })],
            (Fetch::Reg32 { off: CSTS }),
            Shutdown::Disabling,
        ),
        shutdown_step(c, Shutdown::Disabling, Reply::Reg32(csts)).next == Next::<
            Shutdown,
            (),
        >::Done(Ok(())) <==> csts & CSTS_RDY == 0,
        forall|st: Shutdown, reply: Reply|
            st != Shutdown::Disabling ==> #[trigger] shutdown_step(c, st, reply).next != Next::<
                Shutdown,
                (),
            >::Done(Ok(())),
{
    assert forall|st: Shutdown, reply: Reply| st != Shutdown::Disabling implies #[trigger]
        shutdown_step(c, st, reply).next != Next::<Shutdown, ()>::Done(Ok(())) by {
        match st {
            Shutdown::DrainIo => {},
            Shutdown::DrainAdmin => {},
            Shutdown::Config => {},
            Shutdown::Halting { cc } => {},
            Shutdown::Disabling => {},
        }
    }
}

impl<A: Dma> Ctrl<A> {
    /// Begins a shutdown: the controller is out of service from now on.
    /// Goes on with `shutdown_next`.
    pub fn shutdown(&mut self) -> (s: Step<Shutdown, ()>)
        requires
            old(self)@.wf(),
        ensures
            final(self)@ == (CtrlModel { active: false, ..old(self)@ }),
            final(self)@.wf(),
            final(self).provider() == old(self).provider(),
            s@ == shutdown_step(old(self)@, Shutdown::DrainIo, Reply::Go),
    {
        self.set_active(false);
        proof {
            assert(self@.io == old(self)@.io);
            assert(self@.admin == old(self)@.admin);
            assert(self@.wf());
            assert(shutdown_step(self@, Shutdown::DrainIo, Reply::Go) == shutdown_step(
                old(self)@,
                Shutdown::DrainIo,
                Reply::Go,
            ));
        }
        return self.shutdown_next(Shutdown::DrainIo, Reply::Go);
    }

    /// Goes on with a shutdown.
    pub fn shutdown_next(&mut self, st: Shutdown, reply: Reply) -> (s: Step<Shutdown, ()>)
        requires
            old(self)@.wf(),
        ensures
            final(self)@ == old(self)@,
            final(self).provider() == old(self).provider(),
            s@ == shutdown_step(old(self)@, st, reply),
    {
        match st {
            Shutdown::DrainIo => {
                if !self.io_idle() {
                    Step::wait(Vec::new(), Fetch::Pause, Shutdown::DrainIo)
                } else if !self.admin_idle() {
                    Step::wait(Vec::new(), Fetch::Pause, Shutdown::DrainAdmin)
                } else {
                    Step::wait(Vec::new(), Fetch::Reg32 { off: CC }, Shutdown::Config)
                }
            },
            Shutdown::DrainAdmin => {
                if !self.admin_idle() {
                    Step::wait(Vec::new(), Fetch::Pause, Shutdown::DrainAdmin)
                } else {
                    Step::wait(Vec::new(), Fetch::Reg32 { off: CC }, Shutdown::Config)
                }
            },
            Shutdown::Config => match reply {
                Reply::Reg32(cc) => {
                    let next = (cc & !(0x3u32 << 14u32)) | CC_SHN_NORMAL;
                    let mut stores: Vec<Store> = Vec::new();
                    stores.push(Store::Reg32 { off: CC, val: next });
                    assert(stores@ =~= seq![Store::Reg32 { off: CC, val: halt_cc(cc) }]);
                    Step::wait(stores, Fetch::Reg32 { off: CSTS }, Shutdown::Halting { cc: next })
                },
                _ => Step::done(Vec::new(), Err(NVMeError::IoError)),
            },
            Shutdown::Halting { cc } => match reply {
                Reply::Reg32(csts) => {
                    if CstsReg::from_raw(csts).shdn_status() == SHST_COMPLETE {
                        let mut stores: Vec<Store> = Vec::new();
                        stores.push(Store::Reg32 { off: CC, val: cc & !CC_EN });
                        assert(stores@ =~= seq![Store::Reg32 { off: CC, val: off_cc(cc) }]);
                        Step::wait(stores, Fetch::Reg32 { off: CSTS }, Shutdown::Disabling)
                    } else {
                        Step::wait(Vec::new(), Fetch::Reg32 { off: CSTS }, Shutdown::Halting { cc })
                    }
                },
                _ => Step::done(Vec::new(), Err(NVMeError::IoError)),
            },
            Shutdown::Disabling => match reply {
                Reply::Reg32(csts) => {
                    if !CstsReg::from_raw(csts).is_ready() {
                        Step::done(Vec::new(), Ok(()))
                    } else {
                        Step::wait(Vec::new(), Fetch::Reg32 { off: CSTS }, Shutdown::Disabling)
                    }
                },
                _ => Step::done(Vec::new(), Err(NVMeError::IoError)),
            },
        }
    }

    /// Begins a resume: the host reads CC. Goes on with `resume_next`.
    pub fn resume(&mut self) -> (s: Step<Resume, ()>)
        ensures
            final(self)@ == old(self)@,
            final(self).provider() == old(self).provider(),
            s@ == Plan::<Resume, ()>::wait(
                Seq::empty(),
                (Fetch::Reg32 { off: CC }),
                Resume::Config,
            ),
    {
        return Step::wait(Vec::new(), Fetch::Reg32 { off: CC }, Resume::Config);
    }

    /// Goes on with a resume. The controller is in service again once it
    /// has reported ready.
    pub fn resume_next(&mut self, st: Resume, reply: Reply) -> (s: Step<Resume, ()>)
        ensures
            final(self)@ == (CtrlModel {
                active: old(self)@.active || resume_ends(st, reply),
                ..old(self)@
            }),
            final(self).provider() == old(self).provider(),
            s@ == resume_step(st, reply),
    {
        match (st, reply) {
            (Resume::Config, Reply::Reg32(cc)) => {
                let mut stores: Vec<Store> = Vec::new();
                stores.push(Store::Reg32 { off: CC, val: cc | CC_EN });
                assert(stores@ =~= seq![Store::Reg32 { off: CC, val: on_cc(cc) }]);
                Step::wait(stores, Fetch::Reg32 { off: CSTS }, Resume::Enabling)
            },
            (Resume::Enabling, Reply::Reg32(csts)) => {
                if CstsReg::from_raw(csts).is_ready() {
                    self.set_active(true);
                    Step::done(Vec::new(), Ok(()))
                } else {
                    Step::wait(Vec::new(), Fetch::Reg32 { off: CSTS }, Resume::Enabling)
                }
            },
            _ => Step::done(Vec::new(), Err(NVMeError::IoError)),
        }
    }
}

} // verus!
