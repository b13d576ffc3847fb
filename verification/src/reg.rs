//! The controller's register map: offsets into the register window, the bit
//! fields of CAP, CC and CSTS, and the place of each doorbell.

use vstd::prelude::*;
use crate::bits::{field32, field64, with_field32};

verus! {

pub const CAP: usize = 0x00;
pub const VS: usize = 0x08;
pub const INTMS: usize = 0x0C;
pub const INTMC: usize = 0x10;
pub const CC: usize = 0x14;
pub const CSTS: usize = 0x1C;
pub const NSSR: usize = 0x20;
pub const AQA: usize = 0x24;
pub const ASQ: usize = 0x28;
pub const ACQ: usize = 0x30;
pub const CMBLOC: usize = 0x38;
pub const CMBSZ: usize = 0x3C;
pub const BPINFO: usize = 0x40;
pub const BPRSEL: usize = 0x44;
pub const BPMBL: usize = 0x48;
pub const CMBMSC: usize = 0x50;
pub const CMBSTS: usize = 0x58;
pub const PMRCAP: usize = 0xE00;
pub const PMRCTL: usize = 0xE04;
pub const PMRSTS: usize = 0xE08;
pub const PMREBS: usize = 0xE0C;
pub const PMRSWTP: usize = 0xE10;
pub const PMRMSCL: usize = 0xE14;
pub const PMRMSCU: usize = 0xE18;

/// CC.EN, bit 0.
pub const CC_EN: u32 = 0x1;
/// CC.CSS = NVM command set, bits 6..4.
pub const CC_CSS_NVM: u32 = 0x0;
pub const CC_MPS_SHIFT: u32 = 7;
/// CC.AMS = round robin, bits 13..11.
pub const CC_AMS_RR: u32 = 0x0;
/// CC.SHN, bits 15..14: no notification.
pub const CC_SHN_NONE: u32 = 0x0;
/// CC.SHN, bits 15..14: normal shutdown.
pub const CC_SHN_NORMAL: u32 = 0x4000;
/// CC.SHN, bits 15..14: abrupt shutdown.
pub const CC_SHN_ABRUPT: u32 = 0x8000;
pub const CC_IOSQES_SHIFT: u32 = 16;
pub const CC_IOCQES_SHIFT: u32 = 20;

/// CSTS.RDY, bit 0.
pub const CSTS_RDY: u32 = 0x1;
/// CSTS.CFS, bit 1.
pub const CSTS_CFS: u32 = 0x2;
/// CSTS.SHST, bits 3..2: normal operation.
pub const CSTS_SHST_NORMAL: u32 = 0x0;
/// CSTS.SHST, bits 3..2: shutdown in progress.
pub const CSTS_SHST_OCCURRING: u32 = 0x4;
/// CSTS.SHST, bits 3..2: shutdown complete.
pub const CSTS_SHST_COMPLETE: u32 = 0x8;
/// CSTS.NSSRO, bit 4.
pub const CSTS_NSSRO: u32 = 0x10;
/// CSTS.PP, bit 5.
pub const CSTS_PP: u32 = 0x20;

/// The value that resets the NVM subsystem when written to NSSR.
pub const NSSR_RESET: u32 = 0x4E564D65;

pub const CAP_MQES_MASK: u64 = 0xFFFF;
/// CAP.CQR, bit 16.
pub const CAP_CQR: u64 = 0x1_0000;
/// CAP.AMS weighted round robin, bit 17.
pub const CAP_AMS_WRR: u64 = 0x2_0000;
pub const CAP_TO_SHIFT: u64 = 24;
pub const CAP_TO_MASK: u64 = 0xFF;
pub const CAP_DSTRD_SHIFT: u64 = 32;
pub const CAP_DSTRD_MASK: u64 = 0xF;
/// CAP.NSSRS, bit 36.
pub const CAP_NSSRS: u64 = 0x10_0000_0000;
/// CAP.CSS NVM command set, bit 37.
pub const CAP_CSS_NVM: u64 = 0x20_0000_0000;
/// CAP.BPS, bit 45.
pub const CAP_BPS: u64 = 0x2000_0000_0000;
pub const CAP_MPSMIN_SHIFT: u64 = 48;
pub const CAP_MPSMIN_MASK: u64 = 0xF;
pub const CAP_MPSMAX_SHIFT: u64 = 52;
pub const CAP_MPSMAX_MASK: u64 = 0xF;
/// CAP.PMRS, bit 56.
pub const CAP_PMRS: u64 = 0x100_0000_0000_0000;
/// CAP.CMBS, bit 57.
pub const CAP_CMBS: u64 = 0x200_0000_0000_0000;

/// The largest doorbell stride exponent that CAP can report.
pub const DSTRD_MAX: u8 = 15;

/// Bytes between two doorbells: `4 << dstrd`.
pub open spec fn stride(dstrd: u8) -> int {
    (4u64 << (dstrd as u64)) as int
}

/// Offset of the submission doorbell of queue `qid`.
pub open spec fn sq_doorbell(qid: u16, dstrd: u8) -> int {
    0x1000 + (2 * qid) * stride(dstrd)
}

/// Offset of the completion doorbell of queue `qid`: one stride further.
pub open spec fn cq_doorbell(qid: u16, dstrd: u8) -> int {
    0x1000 + (2 * qid + 1) * stride(dstrd)
}

/// The stride is a multiple of four between 4 and 128 KiB, and the doorbells of
/// a queue lie one stride apart, the submission doorbell first.
pub proof fn lemma_stride(dstrd: u8)
    requires
        dstrd <= DSTRD_MAX,
    ensures
        4 <= stride(dstrd) <= 0x2_0000,
        stride(dstrd) % 4 == 0,
        dstrd == 0 ==> stride(dstrd) == 4,
{
    let d = dstrd as u64;
    assert(4 <= (4u64 << d) <= 0x2_0000 && (4u64 << d) % 4 == 0 && (d == 0 ==> (4u64 << d) == 4))
        by (bit_vector)
        requires
            d <= 15,
    ;
}

/// Every doorbell lies above the fixed registers and below 16 GiB + 4 KiB.
pub proof fn lemma_doorbell_range(qid: u16, dstrd: u8)
    requires
        dstrd <= DSTRD_MAX,
    ensures
        0x1000 <= sq_doorbell(qid, dstrd) < cq_doorbell(qid, dstrd) <= 0x4_0000_1000,
        cq_doorbell(qid, dstrd) == sq_doorbell(qid, dstrd) + stride(dstrd),
{
    lemma_stride(dstrd);
    let s = stride(dstrd);
    assert((2 * qid + 1) * s <= 0x2_0000 * 0x2_0000) by (nonlinear_arith)
        requires
            0 <= qid <= 0xFFFF,
            0 < s <= 0x2_0000,
    ;
    assert((2 * qid) * s >= 0 && (2 * qid + 1) * s == (2 * qid) * s + s) by (nonlinear_arith)
        requires
            0 <= qid,
            0 < s,
    ;
}

/// Doorbells of different queues never coincide, nor does a submission
/// doorbell coincide with a completion doorbell.
pub proof fn lemma_doorbells_distinct(q1: u16, q2: u16, dstrd: u8)
    requires
        dstrd <= DSTRD_MAX,
    ensures
        sq_doorbell(q1, dstrd) != cq_doorbell(q2, dstrd),
        q1 != q2 ==> sq_doorbell(q1, dstrd) != sq_doorbell(q2, dstrd),
        q1 != q2 ==> cq_doorbell(q1, dstrd) != cq_doorbell(q2, dstrd),
{
    lemma_stride(dstrd);
    let s = stride(dstrd);
    assert(forall|a: int, b: int| a != b ==> #[trigger] (a * s) != #[trigger] (b * s))
        by (nonlinear_arith)
        requires
            s > 0,
    ;
    let a1 = 2 * q1;
    let a2 = 2 * q2;
    assert(a1 * s != (a2 + 1) * s);
    if q1 != q2 {
        assert(a1 * s != a2 * s);
        assert((a1 + 1) * s != (a2 + 1) * s);
    }
}

/// Offset of the submission doorbell of queue `qid` in the register window.
pub fn doorbell_sq(qid: u16, dstrd: u8) -> (off: usize)
    requires
        dstrd <= DSTRD_MAX,
        sq_doorbell(qid, dstrd) <= usize::MAX,
    ensures
        off == sq_doorbell(qid, dstrd),
{
    proof {
        lemma_stride(dstrd);
        lemma_doorbell_range(qid, dstrd);
    }
    let step: u64 = 4u64 << (dstrd as u64);
    let off: u64 = 0x1000 + (2 * (qid as u64)) * step;
    off as usize
}

/// Offset of the completion doorbell of queue `qid` in the register window.
pub fn doorbell_cq(qid: u16, dstrd: u8) -> (off: usize)
    requires
        dstrd <= DSTRD_MAX,
        cq_doorbell(qid, dstrd) <= usize::MAX,
    ensures
        off == cq_doorbell(qid, dstrd),
{
    proof {
        lemma_stride(dstrd);
        lemma_doorbell_range(qid, dstrd);
    }
    let step: u64 = 4u64 << (dstrd as u64);
    let off: u64 = 0x1000 + (2 * (qid as u64) + 1) * step;
    off as usize
}

/// Whether every doorbell that a controller with this stride can have lies
/// within reach of a `usize` offset.
pub open spec fn doorbells_fit(dstrd: u8) -> bool {
    dstrd <= DSTRD_MAX && cq_doorbell(0xFFFF, dstrd) <= usize::MAX
}

/// Where the doorbells fit, those of every queue do.
pub proof fn lemma_doorbells_fit(qid: u16, dstrd: u8)
    requires
        doorbells_fit(dstrd),
    ensures
        sq_doorbell(qid, dstrd) <= usize::MAX,
        cq_doorbell(qid, dstrd) <= usize::MAX,
{
    lemma_stride(dstrd);
    lemma_doorbell_range(qid, dstrd);
    let s = stride(dstrd);
    assert((2 * qid + 1) * s <= (2 * 0xFFFF + 1) * s) by (nonlinear_arith)
        requires
            0 <= qid <= 0xFFFF,
            0 < s,
    ;
}

/// Decides `doorbells_fit` for a stride exponent read from the device.
pub fn can_address_doorbells(dstrd: u8) -> (fit: bool)
    ensures
        fit == doorbells_fit(dstrd),
{
    if dstrd > DSTRD_MAX {
        return false;
    }
    proof {
        lemma_stride(dstrd);
        lemma_doorbell_range(0xFFFF, dstrd);
    }
    let step: u64 = 4u64 << (dstrd as u64);
    let last: u64 = 0x1000 + (2 * 0xFFFFu64 + 1) * step;
    last <= usize::MAX as u64
}

/// The Controller Capabilities register.
#[derive(Debug, Clone, Copy)]
pub struct CapReg {
    value: u64,
}

impl View for CapReg {
    type V = u64;

    closed spec fn view(&self) -> u64 {
        self.value
    }
}

impl CapReg {
    pub fn from_raw(value: u64) -> (r: Self)
        ensures
            r@ == value,
    {
        return Self { value };
    }

    /// Maximum queue entries supported, zero based: bits 15..0.
    pub fn mqes(&self) -> (r: u16)
        ensures
            r == field64(self@, 0, CAP_MQES_MASK),
            r == self@ & 0xFFFF,
    {
        proof {
            crate::bits::lemma_and_bound64(self.value, 0xFFFF);
        }
        let v = self.value;
        assert(v >> 0 == v) by (bit_vector);
        return (v & CAP_MQES_MASK) as u16;
    }

    /// Contiguous queues required: bit 16.
    pub fn cqr(&self) -> (r: bool)
        ensures
            r == (self@ & CAP_CQR != 0),
    {
        return (self.value & CAP_CQR) != 0;
    }

    /// Weighted round robin arbitration supported: bit 17.
    pub fn ams_wrr(&self) -> (r: bool)
        ensures
            r == (self@ & CAP_AMS_WRR != 0),
    {
        return (self.value & CAP_AMS_WRR) != 0;
    }

    /// Worst-case ready timeout in 500 ms units: bits 31..24.
    pub fn timeout(&self) -> (r: u8)
        ensures
            r == field64(self@, CAP_TO_SHIFT, CAP_TO_MASK),
    {
        proof {
            crate::bits::lemma_and_bound64(self.value >> 24, 0xFF);
        }
        return ((self.value >> CAP_TO_SHIFT) & CAP_TO_MASK) as u8;
    }

    /// Doorbell stride exponent: bits 35..32.
    pub fn dstrd(&self) -> (r: u8)
        ensures
            r == field64(self@, CAP_DSTRD_SHIFT, CAP_DSTRD_MASK),
            r <= DSTRD_MAX,
    {
        proof {
            crate::bits::lemma_and_bound64(self.value >> 32, 0xF);
        }
        return ((self.value >> CAP_DSTRD_SHIFT) & CAP_DSTRD_MASK) as u8;
    }

    /// NVM subsystem reset supported: bit 36.
    pub fn nssrs(&self) -> (r: bool)
        ensures
            r == (self@ & CAP_NSSRS != 0),
    {
        return (self.value & CAP_NSSRS) != 0;
    }

    /// NVM command set supported: bit 37.
    pub fn css_nvm(&self) -> (r: bool)
        ensures
            r == (self@ & CAP_CSS_NVM != 0),
    {
        return (self.value & CAP_CSS_NVM) != 0;
    }

    /// Boot partitions supported: bit 45.
    pub fn bps(&self) -> (r: bool)
        ensures
            r == (self@ & CAP_BPS != 0),
    {
        return (self.value & CAP_BPS) != 0;
    }

    /// Minimum memory page size exponent above 4 KiB: bits 51..48.
    pub fn mpsmin(&self) -> (r: u8)
        ensures
            r == field64(self@, CAP_MPSMIN_SHIFT, CAP_MPSMIN_MASK),
            r <= 15,
    {
        proof {
            crate::bits::lemma_and_bound64(self.value >> 48, 0xF);
        }
        return ((self.value >> CAP_MPSMIN_SHIFT) & CAP_MPSMIN_MASK) as u8;
    }

    /// Maximum memory page size exponent above 4 KiB: bits 55..52.
    pub fn mpsmax(&self) -> (r: u8)
        ensures
            r == field64(self@, CAP_MPSMAX_SHIFT, CAP_MPSMAX_MASK),
            r <= 15,
    {
        proof {
            crate::bits::lemma_and_bound64(self.value >> 52, 0xF);
        }
        return ((self.value >> CAP_MPSMAX_SHIFT) & CAP_MPSMAX_MASK) as u8;
    }

    /// Persistent memory region supported: bit 56.
    pub fn pmrs(&self) -> (r: bool)
        ensures
            r == (self@ & CAP_PMRS != 0),
    {
        return (self.value & CAP_PMRS) != 0;
    }

    /// Controller memory buffer supported: bit 57.
    pub fn cmbs(&self) -> (r: bool)
        ensures
            r == (self@ & CAP_CMBS != 0),
    {
        return (self.value & CAP_CMBS) != 0;
    }
}

/// The Controller Configuration register.
#[derive(Debug, Clone, Copy)]
pub struct CcReg {
    value: u32,
}

impl View for CcReg {
    type V = u32;

    closed spec fn view(&self) -> u32 {
        self.value
    }
}

impl CcReg {
    pub fn new() -> (r: Self)
        ensures
            r@ == 0,
    {
        return Self { value: 0 };
    }

    pub fn from_raw(value: u32) -> (r: Self)
        ensures
            r@ == value,
    {
        return Self { value };
    }

    pub fn raw(&self) -> (r: u32)
        ensures
            r == self@,
    {
        return self.value;
    }

    /// Sets CC.EN and leaves every other bit as it was.
    pub fn enable(&mut self) -> (r: &mut Self)
        ensures
            r@ == old(self)@ | CC_EN,
            *final(self) == *final(r),
    {
        self.value = self.value | CC_EN;
        return self;
    }

    /// Clears CC.EN and leaves every other bit as it was.
    pub fn disable(&mut self) -> (r: &mut Self)
        ensures
            r@ == old(self)@ & !CC_EN,
            *final(self) == *final(r),
    {
        self.value = self.value & !CC_EN;
        return self;
    }

    pub fn is_enabled(&self) -> (r: bool)
        ensures
            r == (self@ & CC_EN != 0),
    {
        return (self.value & CC_EN) != 0;
    }

    /// Stores the low three bits of `css` in CC.CSS, bits 6..4.
    pub fn set_css(&mut self, css: u32) -> (r: &mut Self)
        ensures
            r@ == with_field32(old(self)@, 4, 0x7, css),
            *final(self) == *final(r),
    {
        self.value = (self.value & !(0x7u32 << 4u32)) | ((css & 0x7u32) << 4u32);
        return self;
    }

    /// Stores the low four bits of `mps` in CC.MPS, bits 10..7.
    pub fn set_mps(&mut self, mps: u8) -> (r: &mut Self)
        ensures
            r@ == with_field32(old(self)@, CC_MPS_SHIFT, 0xF, mps as u32),
            *final(self) == *final(r),
    {
        self.value = (self.value & !(0xFu32 << CC_MPS_SHIFT)) | (((mps as u32) & 0xFu32)
            << CC_MPS_SHIFT);
        return self;
    }

    /// Stores the low four bits of `val` in CC.IOSQES, bits 19..16.
    pub fn set_iosqes(&mut self, val: u8) -> (r: &mut Self)
        ensures
            r@ == with_field32(old(self)@, CC_IOSQES_SHIFT, 0xF, val as u32),
            *final(self) == *final(r),
    {
        self.value = (self.value & !(0xFu32 << CC_IOSQES_SHIFT)) | (((val as u32) & 0xFu32)
            << CC_IOSQES_SHIFT);
        return self;
    }

    /// Stores the low four bits of `val` in CC.IOCQES, bits 23..20.
    pub fn set_iocqes(&mut self, val: u8) -> (r: &mut Self)
        ensures
            r@ == with_field32(old(self)@, CC_IOCQES_SHIFT, 0xF, val as u32),
            *final(self) == *final(r),
    {
        self.value = (self.value & !(0xFu32 << CC_IOCQES_SHIFT)) | (((val as u32) & 0xFu32)
            << CC_IOCQES_SHIFT);
        return self;
    }

    /// Stores the low two bits of `shn` in CC.SHN, bits 15..14.
    pub fn set_shdn(&mut self, shn: u32) -> (r: &mut Self)
        ensures
            r@ == with_field32(old(self)@, 14, 0x3, shn),
            *final(self) == *final(r),
    {
        self.value = (self.value & !(0x3u32 << 14u32)) | ((shn & 0x3u32) << 14u32);
        return self;
    }
}

/// The Controller Status register.
#[derive(Debug, Clone, Copy)]
pub struct CstsReg {
    value: u32,
}

impl View for CstsReg {
    type V = u32;

    closed spec fn view(&self) -> u32 {
        self.value
    }
}

impl CstsReg {
    pub fn from_raw(value: u32) -> (r: Self)
        ensures
            r@ == value,
    {
        return Self { value };
    }

    pub fn is_ready(&self) -> (r: bool)
        ensures
            r == (self@ & CSTS_RDY != 0),
    {
        return (self.value & CSTS_RDY) != 0;
    }

    pub fn is_fatal(&self) -> (r: bool)
        ensures
            r == (self@ & CSTS_CFS != 0),
    {
        return (self.value & CSTS_CFS) != 0;
    }

    /// Shutdown status: bits 3..2.
    pub fn shdn_status(&self) -> (r: u8)
        ensures
            r == field32(self@, 2, 0x3),
            r <= 3,
    {
        proof {
            crate::bits::lemma_and_bound32(self.value >> 2, 0x3);
        }
        return ((self.value >> 2u32) & 0x3u32) as u8;
    }

    pub fn nssro(&self) -> (r: bool)
        ensures
            r == (self@ & CSTS_NSSRO != 0),
    {
        return (self.value & CSTS_NSSRO) != 0;
    }

    pub fn proc_paused(&self) -> (r: bool)
        ensures
            r == (self@ & CSTS_PP != 0),
    {
        return (self.value & CSTS_PP) != 0;
    }
}

} // verus!
