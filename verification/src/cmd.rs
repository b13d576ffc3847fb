//! Command encoding: one constructor per opcode, and the 64-byte submission
//! queue entry that carries a command to the device.

use vstd::prelude::*;
use crate::bits::{field32, high32, hi32, join16, lo32, low32, pair16};
use crate::wire::{le32, le64, wr32, wr64};

verus! {

/// A submission queue entry, field by field in the order of its layout.
#[derive(Clone, Copy, Debug, PartialEq, Eq)]
pub struct Sqe {
    pub cdw0: u32,
    pub nsid: u32,
    pub cdw2: u32,
    pub cdw3: u32,
    pub mptr: u64,
    pub prp1: u64,
    pub prp2: u64,
    pub cdw10: u32,
    pub cdw11: u32,
    pub cdw12: u32,
    pub cdw13: u32,
    pub cdw14: u32,
    pub cdw15: u32,
}

/// Bytes of a submission queue entry.
pub const SQE_BYTES: usize = 64;

impl Sqe {
    /// Whether `b` holds the entry as the device expects it: every field
    /// little-endian at its offset, in the order CDW0, NSID, CDW2, CDW3,
    /// MPTR, PRP1, PRP2, CDW10 to CDW15.
    pub open spec fn laid_out(self, b: Seq<u8>) -> bool {
        &&& b.len() == SQE_BYTES
        &&& le32(b, 0) == self.cdw0
        &&& le32(b, 4) == self.nsid
        &&& le32(b, 8) == self.cdw2
        &&& le32(b, 12) == self.cdw3
        &&& le64(b, 16) == self.mptr
        &&& le64(b, 24) == self.prp1
        &&& le64(b, 32) == self.prp2
        &&& le32(b, 40) == self.cdw10
        &&& le32(b, 44) == self.cdw11
        &&& le32(b, 48) == self.cdw12
        &&& le32(b, 52) == self.cdw13
        &&& le32(b, 56) == self.cdw14
        &&& le32(b, 60) == self.cdw15
    }

    /// The 64 bytes that the host stores for this entry.
    pub fn to_bytes(&self) -> (b: [u8; 64])
        ensures
            self.laid_out(b@),
    {
        let mut b: [u8; 64] = [0u8; 64];
        wr32(&mut b, 0, self.cdw0);
        wr32(&mut b, 4, self.nsid);
        wr32(&mut b, 8, self.cdw2);
        wr32(&mut b, 12, self.cdw3);
        wr64(&mut b, 16, self.mptr);
        wr64(&mut b, 24, self.prp1);
        wr64(&mut b, 32, self.prp2);
        wr32(&mut b, 40, self.cdw10);
        wr32(&mut b, 44, self.cdw11);
        wr32(&mut b, 48, self.cdw12);
        wr32(&mut b, 52, self.cdw13);
        wr32(&mut b, 56, self.cdw14);
        wr32(&mut b, 60, self.cdw15);
        b
    }
}

/// A command before it has been given an identifier.
#[derive(Clone, Copy, Debug, PartialEq, Eq)]
pub struct Cmd {
    pub opc: u8,
    pub nsid: u32,
    pub prp1: u64,
    pub prp2: u64,
    pub cdw10: u32,
    pub cdw11: u32,
    pub cdw12: u32,
}

/// CDW10 of Sanitize: `action[2:0] | ause << 3 | owpass[3:0] << 4 | oipbp << 8 | nodas << 9`.
pub open spec fn sanitize_dword(
    action: u8,
    ause: bool,
    owpass: u8,
    oipbp: bool,
    nodas: bool,
) -> u32 {
    ((action & 0x7) as u32) | ((if ause { 1u32 } else { 0u32 }) << 3) | (((owpass & 0xF) as u32)
        << 4) | ((if oipbp { 1u32 } else { 0u32 }) << 8) | ((if nodas { 1u32 } else { 0u32 })
        << 9)
}

/// Each field of the Sanitize dword reads back as it was put in, and nothing
/// above bit 9 is set.
pub proof fn lemma_sanitize_dword(action: u8, ause: bool, owpass: u8, oipbp: bool, nodas: bool)
    ensures
        field32(sanitize_dword(action, ause, owpass, oipbp, nodas), 0, 0x7) == action & 0x7,
        field32(sanitize_dword(action, ause, owpass, oipbp, nodas), 3, 0x1) == (if ause {
            1u32
        } else {
            0u32
        }),
        field32(sanitize_dword(action, ause, owpass, oipbp, nodas), 4, 0xF) == owpass & 0xF,
        field32(sanitize_dword(action, ause, owpass, oipbp, nodas), 8, 0x1) == (if oipbp {
            1u32
        } else {
            0u32
        }),
        field32(sanitize_dword(action, ause, owpass, oipbp, nodas), 9, 0x1) == (if nodas {
            1u32
        } else {
            0u32
        }),
        sanitize_dword(action, ause, owpass, oipbp, nodas) < 0x400,
{
    let a: u32 = (action & 0x7) as u32;
    let o: u32 = (owpass & 0xF) as u32;
    let b: u32 = if ause { 1 } else { 0 };
    let p: u32 = if oipbp { 1 } else { 0 };
    let n: u32 = if nodas { 1 } else { 0 };
    crate::bits::lemma_and_bound8(action, 0x7);
    crate::bits::lemma_and_bound8(owpass, 0xF);
    let d: u32 = a | (b << 3) | (o << 4) | (p << 8) | (n << 9);
    assert(d == sanitize_dword(action, ause, owpass, oipbp, nodas));
    assert(((d >> 0) & 0x7) == a && ((d >> 3) & 0x1) == b && ((d >> 4) & 0xF) == o && ((d >> 8)
        & 0x1) == p && ((d >> 9) & 0x1) == n && d < 0x400) by (bit_vector)
        requires
            d == a | (b << 3) | (o << 4) | (p << 8) | (n << 9),
            a <= 7,
            b <= 1,
            o <= 15,
            p <= 1,
            n <= 1,
    ;
}

impl Cmd {
    /// A command with the given opcode and every other field zero.
    pub fn new(opc: u8) -> (c: Self)
        ensures
            c == (Cmd { opc, nsid: 0, prp1: 0, prp2: 0, cdw10: 0, cdw11: 0, cdw12: 0 }),
    {
        return Self { opc, nsid: 0, prp1: 0, prp2: 0, cdw10: 0, cdw11: 0, cdw12: 0 };
    }

    /// The entry that submits this command under the identifier `cid`: the
    /// identifier in CDW0[31:16], the opcode in CDW0[7:0], the command's own
    /// fields in their places and everything else zero.
    pub open spec fn entry(self, cid: u16) -> Sqe {
        Sqe {
            cdw0: pair16(cid, self.opc as u16),
            nsid: self.nsid,
            cdw2: 0,
            cdw3: 0,
            mptr: 0,
            prp1: self.prp1,
            prp2: self.prp2,
            cdw10: self.cdw10,
            cdw11: self.cdw11,
            cdw12: self.cdw12,
            cdw13: 0,
            cdw14: 0,
            cdw15: 0,
        }
    }

    /// Builds the entry that submits this command under the identifier `cid`.
    pub fn to_sqe(&self, cid: u16) -> (sqe: Sqe)
        ensures
            sqe == self.entry(cid),
    {
        return Sqe {
            cdw0: join16(cid, self.opc as u16),
            nsid: self.nsid,
            cdw2: 0,
            cdw3: 0,
            mptr: 0,
            prp1: self.prp1,
            prp2: self.prp2,
            cdw10: self.cdw10,
            cdw11: self.cdw11,
            cdw12: self.cdw12,
            cdw13: 0,
            cdw14: 0,
            cdw15: 0,
        };
    }

    /// Identify Controller (CNS 0x01) into the page at `prp1`.
    pub fn id_ctrl(prp1: u64) -> (c: Self)
        ensures
            c == (Cmd { opc: 0x06, nsid: 0, prp1, prp2: 0, cdw10: 1, cdw11: 0, cdw12: 0 }),
    {
        let mut cmd = Self::new(0x06);
        cmd.prp1 = prp1;
        cmd.cdw10 = 1;
        return cmd;
    }

    /// Identify Namespace (CNS 0x00) of `nsid` into the page at `prp1`.
    pub fn id_ns(nsid: u32, prp1: u64) -> (c: Self)
        ensures
            c == (Cmd { opc: 0x06, nsid, prp1, prp2: 0, cdw10: 0, cdw11: 0, cdw12: 0 }),
    {
        let mut cmd = Self::new(0x06);
        cmd.nsid = nsid;
        cmd.prp1 = prp1;
        cmd.cdw10 = 0;
        return cmd;
    }

    /// Set Features for feature `fid` with the value `cdw11`.
    pub fn set_feat(fid: u8, cdw11: u32) -> (c: Self)
        ensures
            c == (Cmd { opc: 0x09, nsid: 0, prp1: 0, prp2: 0, cdw10: fid as u32, cdw11, cdw12: 0 }),
    {
        let mut cmd = Self::new(0x09);
        cmd.cdw10 = fid as u32;
        cmd.cdw11 = cdw11;
        return cmd;
    }

    /// Create I/O Completion Queue `qid` of `qsize` entries at `prp1`:
    /// physically contiguous, interrupts disabled.
    pub fn cq_create(qid: u16, qsize: u16, prp1: u64) -> (c: Self)
        requires
            qsize >= 1,
        ensures
            c == (Cmd {
                opc: 0x05,
                nsid: 0,
                prp1,
                prp2: 0,
                cdw10: pair16((qsize - 1) as u16, qid),
                cdw11: 0x1,
                cdw12: 0,
            }),
    {
        let mut cmd = Self::new(0x05);
        cmd.prp1 = prp1;
        cmd.cdw10 = join16(qsize - 1, qid);
        cmd.cdw11 = 0x1;
        return cmd;
    }

    /// Create I/O Submission Queue `qid` of `qsize` entries at `prp1`, bound
    /// to completion queue `cqid`: physically contiguous.
    pub fn sq_create(qid: u16, qsize: u16, cqid: u16, prp1: u64) -> (c: Self)
        requires
            qsize >= 1,
        ensures
            c == (Cmd {
                opc: 0x01,
                nsid: 0,
                prp1,
                prp2: 0,
                cdw10: pair16((qsize - 1) as u16, qid),
                cdw11: pair16(cqid, 0x1),
                cdw12: 0,
            }),
    {
        let mut cmd = Self::new(0x01);
        cmd.prp1 = prp1;
        cmd.cdw10 = join16(qsize - 1, qid);
        cmd.cdw11 = join16(cqid, 0x1);
        return cmd;
    }

    /// Read `nlb` blocks starting at `lba`.
    pub fn read(nsid: u32, lba: u64, nlb: u16, prp1: u64, prp2: u64) -> (c: Self)
        requires
            nlb >= 1,
        ensures
            c == (Cmd {
                opc: 0x02,
                nsid,
                prp1,
                prp2,
                cdw10: low32(lba),
                cdw11: high32(lba),
                cdw12: (nlb - 1) as u32,
            }),
    {
        let mut cmd = Self::new(0x02);
        cmd.nsid = nsid;
        cmd.prp1 = prp1;
        cmd.prp2 = prp2;
        cmd.cdw10 = lo32(lba);
        cmd.cdw11 = hi32(lba);
        cmd.cdw12 = (nlb - 1) as u32;
        return cmd;
    }

    /// Write `nlb` blocks starting at `lba`.
    pub fn write(nsid: u32, lba: u64, nlb: u16, prp1: u64, prp2: u64) -> (c: Self)
        requires
            nlb >= 1,
        ensures
            c == (Cmd {
                opc: 0x01,
                nsid,
                prp1,
                prp2,
                cdw10: low32(lba),
                cdw11: high32(lba),
                cdw12: (nlb - 1) as u32,
            }),
    {
        let mut cmd = Self::new(0x01);
        cmd.nsid = nsid;
        cmd.prp1 = prp1;
        cmd.prp2 = prp2;
        cmd.cdw10 = lo32(lba);
        cmd.cdw11 = hi32(lba);
        cmd.cdw12 = (nlb - 1) as u32;
        return cmd;
    }

    /// Flush the namespace `nsid`.
    pub fn flush(nsid: u32) -> (c: Self)
        ensures
            c == (Cmd { opc: 0x00, nsid, prp1: 0, prp2: 0, cdw10: 0, cdw11: 0, cdw12: 0 }),
    {
        let mut cmd = Self::new(0x00);
        cmd.nsid = nsid;
        return cmd;
    }

    /// Get Features for feature `fid`.
    pub fn get_feat(fid: u8) -> (c: Self)
        ensures
            c == (Cmd {
                opc: 0x0A,
                nsid: 0,
                prp1: 0,
                prp2: 0,
                cdw10: fid as u32,
                cdw11: 0,
                cdw12: 0,
            }),
    {
        let mut cmd = Self::new(0x0A);
        cmd.cdw10 = fid as u32;
        return cmd;
    }

    /// Get Log Page `lid`, `numdl + 1` dwords long.
    pub fn get_log(lid: u8, numdl: u16, prp1: u64, prp2: u64) -> (c: Self)
        ensures
            c == (Cmd {
                opc: 0x02,
                nsid: 0,
                prp1,
                prp2,
                cdw10: pair16(numdl, lid as u16),
                cdw11: 0,
                cdw12: 0,
            }),
    {
        let mut cmd = Self::new(0x02);
        cmd.prp1 = prp1;
        cmd.prp2 = prp2;
        cmd.cdw10 = join16(numdl, lid as u16);
        return cmd;
    }

    /// Asynchronous Event Request.
    pub fn async_req() -> (c: Self)
        ensures
            c == (Cmd { opc: 0x0C, nsid: 0, prp1: 0, prp2: 0, cdw10: 0, cdw11: 0, cdw12: 0 }),
    {
        Self::new(0x0C)
    }

    /// Delete I/O Completion Queue `qid`.
    pub fn cq_del(qid: u16) -> (c: Self)
        ensures
            c == (Cmd {
                opc: 0x04,
                nsid: 0,
                prp1: 0,
                prp2: 0,
                cdw10: qid as u32,
                cdw11: 0,
                cdw12: 0,
            }),
    {
        let mut cmd = Self::new(0x04);
        cmd.cdw10 = qid as u32;
        return cmd;
    }

    /// Delete I/O Submission Queue `qid`.
    pub fn sq_del(qid: u16) -> (c: Self)
        ensures
            c == (Cmd {
                opc: 0x00,
                nsid: 0,
                prp1: 0,
                prp2: 0,
                cdw10: qid as u32,
                cdw11: 0,
                cdw12: 0,
            }),
    {
        let mut cmd = Self::new(0x00);
        cmd.cdw10 = qid as u32;
        return cmd;
    }

    /// Abort command `cid` of submission queue `sqid`.
    pub fn abort(sqid: u16, cid: u16) -> (c: Self)
        ensures
            c == (Cmd {
                opc: 0x08,
                nsid: 0,
                prp1: 0,
                prp2: 0,
                cdw10: pair16(cid, sqid),
                cdw11: 0,
                cdw12: 0,
            }),
    {
        let mut cmd = Self::new(0x08);
        cmd.cdw10 = join16(cid, sqid);
        return cmd;
    }

    /// Identify: active namespace list (CNS 0x02).
    pub fn id_nss(prp1: u64) -> (c: Self)
        ensures
            c == (Cmd { opc: 0x06, nsid: 0, prp1, prp2: 0, cdw10: 0x02, cdw11: 0, cdw12: 0 }),
    {
        let mut cmd = Self::new(0x06);
        cmd.prp1 = prp1;
        cmd.cdw10 = 0x02;
        return cmd;
    }

    /// Identify: allocated namespace list (CNS 0x10).
    pub fn id_nss_alc(nsid: u32, prp1: u64) -> (c: Self)
        ensures
            c == (Cmd { opc: 0x06, nsid, prp1, prp2: 0, cdw10: 0x10, cdw11: 0, cdw12: 0 }),
    {
        let mut cmd = Self::new(0x06);
        cmd.nsid = nsid;
        cmd.prp1 = prp1;
        cmd.cdw10 = 0x10;
        return cmd;
    }

    /// Identify: controllers attached to a namespace (CNS 0x13), starting at
    /// controller `cntid`.
    pub fn id_nss_ctrl(nsid: u32, cntid: u16, prp1: u64) -> (c: Self)
        ensures
            c == (Cmd {
                opc: 0x06,
                nsid,
                prp1,
                prp2: 0,
                cdw10: pair16(cntid, 0x13),
                cdw11: 0,
                cdw12: 0,
            }),
    {
        let mut cmd = Self::new(0x06);
        cmd.nsid = nsid;
        cmd.prp1 = prp1;
        cmd.cdw10 = join16(cntid, 0x13);
        return cmd;
    }

    /// Identify: namespace identification descriptors (CNS 0x03).
    pub fn id_ns_desc(nsid: u32, prp1: u64) -> (c: Self)
        ensures
            c == (Cmd { opc: 0x06, nsid, prp1, prp2: 0, cdw10: 0x03, cdw11: 0, cdw12: 0 }),
    {
        let mut cmd = Self::new(0x06);
        cmd.nsid = nsid;
        cmd.prp1 = prp1;
        cmd.cdw10 = 0x03;
        return cmd;
    }

    /// Dataset Management over `nr + 1` ranges described at `prp1`.
    pub fn dset_mgmt(nsid: u32, nr: u8, prp1: u64, attr: u32) -> (c: Self)
        ensures
            c == (Cmd {
                opc: 0x09,
                nsid,
                prp1,
                prp2: 0,
                cdw10: nr as u32,
                cdw11: attr,
                cdw12: 0,
            }),
    {
        let mut cmd = Self::new(0x09);
        cmd.nsid = nsid;
        cmd.prp1 = prp1;
        cmd.cdw10 = nr as u32;
        cmd.cdw11 = attr;
        return cmd;
    }

    /// Write Zeroes to `nlb` blocks starting at `slba`.
    pub fn wr_zero(nsid: u32, slba: u64, nlb: u16) -> (c: Self)
        requires
            nlb >= 1,
        ensures
            c == (Cmd {
                opc: 0x08,
                nsid,
                prp1: 0,
                prp2: 0,
                cdw10: low32(slba),
                cdw11: high32(slba),
                cdw12: (nlb - 1) as u32,
            }),
    {
        let mut cmd = Self::new(0x08);
        cmd.nsid = nsid;
        cmd.cdw10 = lo32(slba);
        cmd.cdw11 = hi32(slba);
        cmd.cdw12 = (nlb - 1) as u32;
        return cmd;
    }

    /// Compare `nlb` blocks starting at `slba` with the buffer.
    pub fn cmp(nsid: u32, slba: u64, nlb: u16, prp1: u64, prp2: u64) -> (c: Self)
        requires
            nlb >= 1,
        ensures
            c.opc == 0x05,
            c.nsid == nsid,
            c.prp1 == prp1,
            c.prp2 == prp2,
            c.cdw10 == low32(slba),
            c.cdw11 == high32(slba),
            c.cdw12 == nlb - 1,
    {
        let mut cmd = Self::new(0x05);
        cmd.nsid = nsid;
        cmd.prp1 = prp1;
        cmd.prp2 = prp2;
        cmd.cdw10 = lo32(slba);
        cmd.cdw11 = hi32(slba);
        cmd.cdw12 = u32::from(nlb - 1);
        return cmd;
    }

    /// Sanitize with the given action and options.
    pub fn sanitise(action: u8, ause: bool, owpass: u8, oipbp: bool, nodas: bool) -> (c: Self)
        ensures
            c == (Cmd {
                opc: 0x84,
                nsid: 0,
                prp1: 0,
                prp2: 0,
                cdw10: sanitize_dword(action, ause, owpass, oipbp, nodas),
                cdw11: 0,
                cdw12: 0,
            }),
    {
        let mut cmd = Self::new(0x84);
        let mut cdw10: u32 = (action & 0x7) as u32;
        let ghost d0 = cdw10;
        if ause {
            cdw10 |= 1u32 << 3;
        }
        let ghost d1 = cdw10;
        cdw10 |= ((owpass & 0xF) as u32) << 4;
        let ghost d2 = cdw10;
        if oipbp {
            cdw10 |= 1u32 << 8;
        }
        let ghost d3 = cdw10;
        if nodas {
            cdw10 |= 1u32 << 9;
        }
        proof {
            assert(d0 | (0u32 << 3) == d0) by (bit_vector);
            assert(d2 | (0u32 << 8) == d2) by (bit_vector);
            assert(d3 | (0u32 << 9) == d3) by (bit_vector);
        }
        cmd.cdw10 = cdw10;
        return cmd;
    }

    /// Verify `nlb` blocks starting at `slba`.
    pub fn verify(nsid: u32, slba: u64, nlb: u16) -> (c: Self)
        requires
            nlb >= 1,
        ensures
            c == (Cmd {
                opc: 0x0C,
                nsid,
                prp1: 0,
                prp2: 0,
                cdw10: low32(slba),
                cdw11: high32(slba),
                cdw12: (nlb - 1) as u32,
            }),
    {
        let mut cmd = Self::new(0x0C);
        cmd.nsid = nsid;
        cmd.cdw10 = lo32(slba);
        cmd.cdw11 = hi32(slba);
        cmd.cdw12 = (nlb - 1) as u32;
        return cmd;
    }

    /// Firmware Image Download of `numd + 1` dwords at dword offset `offset`.
    pub fn fw_dl(prp1: u64, prp2: u64, numd: u32, offset: u32) -> (c: Self)
        ensures
            c == (Cmd { opc: 0x11, nsid: 0, prp1, prp2, cdw10: numd, cdw11: offset, cdw12: 0 }),
    {
        let mut cmd = Self::new(0x11);
        cmd.prp1 = prp1;
        cmd.prp2 = prp2;
        cmd.cdw10 = numd;
        cmd.cdw11 = offset;
        return cmd;
    }

    /// Firmware Commit: `action << 3 | slot`.
    pub fn fw_commit(slot: u8, action: u8) -> (c: Self)
        ensures
            c == (Cmd {
                opc: 0x10,
                nsid: 0,
                prp1: 0,
                prp2: 0,
                cdw10: ((action as u32) << 3) | (slot as u32),
                cdw11: 0,
                cdw12: 0,
            }),
    {
        let mut cmd = Self::new(0x10);
        cmd.cdw10 = ((action as u32) << 3) | (slot as u32);
        return cmd;
    }
}

} // verus!
