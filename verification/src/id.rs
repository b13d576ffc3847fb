//! The data structures that Identify and Get Log Page return, decoded from
//! the bytes the device wrote, and the identifiers of log pages, features and
//! asynchronous events.

use vstd::prelude::*;
use vstd::arithmetic::power2::{lemma_pow2_strictly_increases, lemma_pow2_unfold, pow2};
use vstd::utf8::{decode_utf8, valid_utf8};
use crate::bits::field32;
use crate::wire::{le16, le32, le64, rd16, rd32, rd64, take, take16};

verus! {

broadcast use vstd::slice::group_slice_axioms;

/// Length in bytes of the layout of [`PwrStDesc`].
pub const PWR_ST_DESC_LEN: usize = 32;

/// One power state descriptor of the Identify Controller data.
#[derive(Debug, Clone, Copy)]
pub struct PwrStDesc {
    pub mp: u16,
    pub flags: u8,
    pub enlat: u32,
    pub exlat: u32,
    pub rrt: u8,
    pub rrl: u8,
    pub rwt: u8,
    pub rwl: u8,
    pub idlp: u16,
    pub ips: u8,
    pub actp: u16,
    pub apw_aps: u8,
}

impl PwrStDesc {
    /// Whether every field holds what the layout puts at its offset from `at`.
    pub open spec fn laid_out(self, b: Seq<u8>, at: int) -> bool {
        &&& self.mp == le16(b, at)
        &&& self.flags == b[at + 3]
        &&& self.enlat == le32(b, at + 4)
        &&& self.exlat == le32(b, at + 8)
        &&& self.rrt == b[at + 12]
        &&& self.rrl == b[at + 13]
        &&& self.rwt == b[at + 14]
        &&& self.rwl == b[at + 15]
        &&& self.idlp == le16(b, at + 16)
        &&& self.ips == b[at + 18]
        &&& self.actp == le16(b, at + 20)
        &&& self.apw_aps == b[at + 22]
    }

    /// Reads the structure that starts at `at`.
    pub fn decode(b: &[u8], at: usize) -> (r: Self)
        requires
            at + PWR_ST_DESC_LEN <= b.len(),
        ensures
            r.laid_out(b@, at as int),
    {
        Self {
            mp: rd16(b, at),
            flags: b[at + 3],
            enlat: rd32(b, at + 4),
            exlat: rd32(b, at + 8),
            rrt: b[at + 12],
            rrl: b[at + 13],
            rwt: b[at + 14],
            rwl: b[at + 15],
            idlp: rd16(b, at + 16),
            ips: b[at + 18],
            actp: rd16(b, at + 20),
            apw_aps: b[at + 22],
        }
    }
}

/// Length in bytes of the layout of [`LbaFormat`].
pub const LBA_FORMAT_LEN: usize = 4;

/// One LBA format of the Identify Namespace data.
#[derive(Debug, Clone, Copy)]
pub struct LbaFormat {
    pub ms: u16,
    pub lbads: u8,
    pub rp: u8,
}

impl LbaFormat {
    /// Whether every field holds what the layout puts at its offset from `at`.
    pub open spec fn laid_out(self, b: Seq<u8>, at: int) -> bool {
        &&& self.ms == le16(b, at)
        &&& self.lbads == b[at + 2]
        &&& self.rp == b[at + 3]
    }

    /// Reads the structure that starts at `at`.
    pub fn decode(b: &[u8], at: usize) -> (r: Self)
        requires
            at + LBA_FORMAT_LEN <= b.len(),
        ensures
            r.laid_out(b@, at as int),
    {
        Self {
            ms: rd16(b, at),
            lbads: b[at + 2],
            rp: b[at + 3],
        }
    }
}

/// Length in bytes of the layout of [`CtrlId`].
pub const CTRL_ID_LEN: usize = 4096;

/// The Identify Controller data structure.
#[derive(Debug, Clone, Copy)]
pub struct CtrlId {
    pub vid: u16,
    pub ssvid: u16,
    pub sn: [u8; 20],
    pub mn: [u8; 40],
    pub fr: [u8; 8],
    pub rab: u8,
    pub ieee: [u8; 3],
    pub cmic: u8,
    pub mdts: u8,
    pub cntlid: u16,
    pub ver: u32,
    pub rtd3r: u32,
    pub rtd3e: u32,
    pub oaes: u32,
    pub ctratt: u32,
    pub rrls: u16,
    pub cntrltype: u8,
    pub fguid: [u8; 16],
    pub crdt1: u16,
    pub crdt2: u16,
    pub crdt3: u16,
    pub oacs: u16,
    pub acl: u8,
    pub aerl: u8,
    pub frmw: u8,
    pub lpa: u8,
    pub elpe: u8,
    pub npss: u8,
    pub avscc: u8,
    pub apsta: u8,
    pub wctemp: u16,
    pub cctemp: u16,
    pub mtfa: u16,
    pub hmpre: u32,
    pub hmmin: u32,
    pub tnvmcap: [u8; 16],
    pub unvmcap: [u8; 16],
    pub rpmbs: u32,
    pub edstt: u16,
    pub dsto: u8,
    pub fwug: u8,
    pub kas: u16,
    pub hctma: u16,
    pub mntmt: u16,
    pub mxtmt: u16,
    pub sanicap: u32,
    pub hmminds: u32,
    pub hmmaxd: u16,
    pub nsetidmax: u16,
    pub endgidmax: u16,
    pub anatt: u8,
    pub anacap: u8,
    pub anagrpmax: u32,
    pub nanagrpid: u32,
    pub pels: u32,
    pub domainid: u16,
    pub megcap: [u8; 16],
    pub sqes: u8,
    pub cqes: u8,
    pub maxcmd: u16,
    pub nn: u32,
    pub oncs: u16,
    pub fuses: u16,
    pub fna: u8,
    pub vwc: u8,
    pub awun: u16,
    pub awupf: u16,
    pub nvscc: u8,
    pub nwpc: u8,
    pub acwu: u16,
    pub sgls: u32,
    pub mnan: u32,
    pub maxdna: [u8; 16],
    pub maxcna: u32,
    pub psd: [PwrStDesc; 32],
}

impl CtrlId {
    /// Whether every field holds what the layout puts at its offset from `at`.
    pub open spec fn laid_out(self, b: Seq<u8>, at: int) -> bool {
        &&& self.vid == le16(b, at)
        &&& self.ssvid == le16(b, at + 2)
        &&& self.sn@ == b.subrange(at + 4, at + 24)
        &&& self.mn@ == b.subrange(at + 24, at + 64)
        &&& self.fr@ == b.subrange(at + 64, at + 72)
        &&& self.rab == b[at + 72]
        &&& self.ieee@ == b.subrange(at + 73, at + 76)
        &&& self.cmic == b[at + 76]
        &&& self.mdts == b[at + 77]
        &&& self.cntlid == le16(b, at + 78)
        &&& self.ver == le32(b, at + 80)
        &&& self.rtd3r == le32(b, at + 84)
        &&& self.rtd3e == le32(b, at + 88)
        &&& self.oaes == le32(b, at + 92)
        &&& self.ctratt == le32(b, at + 96)
        &&& self.rrls == le16(b, at + 100)
        &&& self.cntrltype == b[at + 111]
        &&& self.fguid@ == b.subrange(at + 112, at + 128)
        &&& self.crdt1 == le16(b, at + 128)
        &&& self.crdt2 == le16(b, at + 130)
        &&& self.crdt3 == le16(b, at + 132)
        &&& self.oacs == le16(b, at + 240)
        &&& self.acl == b[at + 242]
        &&& self.aerl == b[at + 243]
        &&& self.frmw == b[at + 244]
        &&& self.lpa == b[at + 245]
        &&& self.elpe == b[at + 246]
        &&& self.npss == b[at + 247]
        &&& self.avscc == b[at + 248]
        &&& self.apsta == b[at + 249]
        &&& self.wctemp == le16(b, at + 250)
        &&& self.cctemp == le16(b, at + 252)
        &&& self.mtfa == le16(b, at + 254)
        &&& self.hmpre == le32(b, at + 256)
        &&& self.hmmin == le32(b, at + 260)
        &&& self.tnvmcap@ == b.subrange(at + 264, at + 280)
        &&& self.unvmcap@ == b.subrange(at + 280, at + 296)
        &&& self.rpmbs == le32(b, at + 296)
        &&& self.edstt == le16(b, at + 300)
        &&& self.dsto == b[at + 302]
        &&& self.fwug == b[at + 303]
        &&& self.kas == le16(b, at + 304)
        &&& self.hctma == le16(b, at + 306)
        &&& self.mntmt == le16(b, at + 308)
        &&& self.mxtmt == le16(b, at + 310)
        &&& self.sanicap == le32(b, at + 312)
        &&& self.hmminds == le32(b, at + 316)
        &&& self.hmmaxd == le16(b, at + 320)
        &&& self.nsetidmax == le16(b, at + 322)
        &&& self.endgidmax == le16(b, at + 324)
        &&& self.anatt == b[at + 326]
        &&& self.anacap == b[at + 327]
        &&& self.anagrpmax == le32(b, at + 328)
        &&& self.nanagrpid == le32(b, at + 332)
        &&& self.pels == le32(b, at + 336)
        &&& self.domainid == le16(b, at + 340)
        &&& self.megcap@ == b.subrange(at + 352, at + 368)
        &&& self.sqes == b[at + 496]
        &&& self.cqes == b[at + 497]
        &&& self.maxcmd == le16(b, at + 498)
        &&& self.nn == le32(b, at + 500)
        &&& self.oncs == le16(b, at + 504)
        &&& self.fuses == le16(b, at + 506)
        &&& self.fna == b[at + 508]
        &&& self.vwc == b[at + 509]
        &&& self.awun == le16(b, at + 510)
        &&& self.awupf == le16(b, at + 512)
        &&& self.nvscc == b[at + 514]
        &&& self.nwpc == b[at + 515]
        &&& self.acwu == le16(b, at + 516)
        &&& self.sgls == le32(b, at + 520)
        &&& self.mnan == le32(b, at + 524)
        &&& self.maxdna@ == b.subrange(at + 528, at + 544)
        &&& self.maxcna == le32(b, at + 544)
        &&& forall|k: int| 0 <= k < 32 ==> (#[trigger] self.psd@[k]).laid_out(b, at + 2048 + 32 * k)
    }

    /// Reads the structure that starts at `at`.
    pub fn decode(b: &[u8], at: usize) -> (r: Self)
        requires
            at + CTRL_ID_LEN <= b.len(),
        ensures
            r.laid_out(b@, at as int),
    {
        let mut psd: [PwrStDesc; 32] = [PwrStDesc::decode(b, at + 2048); 32];
        let mut i: usize = 1;
        while i < 32
            invariant
                1 <= i <= 32,
                at + CTRL_ID_LEN <= b.len(),
                forall|k: int| 0 <= k < i ==> (#[trigger] psd@[k]).laid_out(b@, at + 2048 + 32 * k),
            decreases 32 - i,
        {
            psd[i] = PwrStDesc::decode(b, at + 2048 + 32 * i);
            i += 1;
        }
        Self {
            vid: rd16(b, at),
            ssvid: rd16(b, at + 2),
            sn: take::<20>(b, at + 4),
            mn: take::<40>(b, at + 24),
            fr: take::<8>(b, at + 64),
            rab: b[at + 72],
            ieee: take::<3>(b, at + 73),
            cmic: b[at + 76],
            mdts: b[at + 77],
            cntlid: rd16(b, at + 78),
            ver: rd32(b, at + 80),
            rtd3r: rd32(b, at + 84),
            rtd3e: rd32(b, at + 88),
            oaes: rd32(b, at + 92),
            ctratt: rd32(b, at + 96),
            rrls: rd16(b, at + 100),
            cntrltype: b[at + 111],
            fguid: take::<16>(b, at + 112),
            crdt1: rd16(b, at + 128),
            crdt2: rd16(b, at + 130),
            crdt3: rd16(b, at + 132),
            oacs: rd16(b, at + 240),
            acl: b[at + 242],
            aerl: b[at + 243],
            frmw: b[at + 244],
            lpa: b[at + 245],
            elpe: b[at + 246],
            npss: b[at + 247],
            avscc: b[at + 248],
            apsta: b[at + 249],
            wctemp: rd16(b, at + 250),
            cctemp: rd16(b, at + 252),
            mtfa: rd16(b, at + 254),
            hmpre: rd32(b, at + 256),
            hmmin: rd32(b, at + 260),
            tnvmcap: take::<16>(b, at + 264),
            unvmcap: take::<16>(b, at + 280),
            rpmbs: rd32(b, at + 296),
            edstt: rd16(b, at + 300),
            dsto: b[at + 302],
            fwug: b[at + 303],
            kas: rd16(b, at + 304),
            hctma: rd16(b, at + 306),
            mntmt: rd16(b, at + 308),
            mxtmt: rd16(b, at + 310),
            sanicap: rd32(b, at + 312),
            hmminds: rd32(b, at + 316),
            hmmaxd: rd16(b, at + 320),
            nsetidmax: rd16(b, at + 322),
            endgidmax: rd16(b, at + 324),
            anatt: b[at + 326],
            anacap: b[at + 327],
            anagrpmax: rd32(b, at + 328),
            nanagrpid: rd32(b, at + 332),
            pels: rd32(b, at + 336),
            domainid: rd16(b, at + 340),
            megcap: take::<16>(b, at + 352),
            sqes: b[at + 496],
            cqes: b[at + 497],
            maxcmd: rd16(b, at + 498),
            nn: rd32(b, at + 500),
            oncs: rd16(b, at + 504),
            fuses: rd16(b, at + 506),
            fna: b[at + 508],
            vwc: b[at + 509],
            awun: rd16(b, at + 510),
            awupf: rd16(b, at + 512),
            nvscc: b[at + 514],
            nwpc: b[at + 515],
            acwu: rd16(b, at + 516),
            sgls: rd32(b, at + 520),
            mnan: rd32(b, at + 524),
            maxdna: take::<16>(b, at + 528),
            maxcna: rd32(b, at + 544),
            psd,
        }
    }

    /// Reads the structure from the start of `b`, where `b` is long enough
    /// to hold one.
    pub fn from_bytes(b: &[u8]) -> (r: Option<Self>)
        ensures
            b.len() < CTRL_ID_LEN ==> r is None,
            b.len() >= CTRL_ID_LEN ==> (r matches Some(d) && d.laid_out(b@, 0)),
    {
        if b.len() < CTRL_ID_LEN {
            return None;
        }
        Some(Self::decode(b, 0))
    }
}

/// Length in bytes of the layout of [`NsId`].
pub const NS_ID_LEN: usize = 4096;

/// The Identify Namespace data structure.
#[derive(Debug, Clone, Copy)]
pub struct NsId {
    pub nsze: u64,
    pub ncap: u64,
    pub nuse: u64,
    pub nsfeat: u8,
    pub nlbaf: u8,
    pub flbas: u8,
    pub mc: u8,
    pub dpc: u8,
    pub dps: u8,
    pub nmic: u8,
    pub rescap: u8,
    pub fpi: u8,
    pub dlfeat: u8,
    pub nawun: u16,
    pub nawupf: u16,
    pub nacwu: u16,
    pub nabsn: u16,
    pub nabo: u16,
    pub nabspf: u16,
    pub noiob: u16,
    pub nvmcap: [u8; 16],
    pub npwg: u16,
    pub npwa: u16,
    pub npdg: u16,
    pub npda: u16,
    pub nows: u16,
    pub mssrl: u16,
    pub mcl: u32,
    pub msrc: u8,
    pub anagrpid: u32,
    pub nsattr: u8,
    pub nvmsetid: u16,
    pub endgid: u16,
    pub nguid: [u8; 16],
    pub eui64: [u8; 8],
    pub lbaf: [LbaFormat; 16],
}

impl NsId {
    /// Whether every field holds what the layout puts at its offset from `at`.
    pub open spec fn laid_out(self, b: Seq<u8>, at: int) -> bool {
        &&& self.nsze == le64(b, at)
        &&& self.ncap == le64(b, at + 8)
        &&& self.nuse == le64(b, at + 16)
        &&& self.nsfeat == b[at + 24]
        &&& self.nlbaf == b[at + 25]
        &&& self.flbas == b[at + 26]
        &&& self.mc == b[at + 27]
        &&& self.dpc == b[at + 28]
        &&& self.dps == b[at + 29]
        &&& self.nmic == b[at + 30]
        &&& self.rescap == b[at + 31]
        &&& self.fpi == b[at + 32]
        &&& self.dlfeat == b[at + 33]
        &&& self.nawun == le16(b, at + 34)
        &&& self.nawupf == le16(b, at + 36)
        &&& self.nacwu == le16(b, at + 38)
        &&& self.nabsn == le16(b, at + 40)
        &&& self.nabo == le16(b, at + 42)
        &&& self.nabspf == le16(b, at + 44)
        &&& self.noiob == le16(b, at + 46)
        &&& self.nvmcap@ == b.subrange(at + 48, at + 64)
        &&& self.npwg == le16(b, at + 64)
        &&& self.npwa == le16(b, at + 66)
        &&& self.npdg == le16(b, at + 68)
        &&& self.npda == le16(b, at + 70)
        &&& self.nows == le16(b, at + 72)
        &&& self.mssrl == le16(b, at + 74)
        &&& self.mcl == le32(b, at + 76)
        &&& self.msrc == b[at + 80]
        &&& self.anagrpid == le32(b, at + 92)
        &&& self.nsattr == b[at + 99]
        &&& self.nvmsetid == le16(b, at + 100)
        &&& self.endgid == le16(b, at + 102)
        &&& self.nguid@ == b.subrange(at + 104, at + 120)
        &&& self.eui64@ == b.subrange(at + 120, at + 128)
        &&& forall|k: int| 0 <= k < 16 ==> (#[trigger] self.lbaf@[k]).laid_out(b, at + 128 + 4 * k)
    }

    /// Reads the structure that starts at `at`.
    pub fn decode(b: &[u8], at: usize) -> (r: Self)
        requires
            at + NS_ID_LEN <= b.len(),
        ensures
            r.laid_out(b@, at as int),
    {
        let mut lbaf: [LbaFormat; 16] = [LbaFormat::decode(b, at + 128); 16];
        let mut i: usize = 1;
        while i < 16
            invariant
                1 <= i <= 16,
                at + NS_ID_LEN <= b.len(),
                forall|k: int| 0 <= k < i ==> (#[trigger] lbaf@[k]).laid_out(b@, at + 128 + 4 * k),
            decreases 16 - i,
        {
            lbaf[i] = LbaFormat::decode(b, at + 128 + 4 * i);
            i += 1;
        }
        Self {
            nsze: rd64(b, at),
            ncap: rd64(b, at + 8),
            nuse: rd64(b, at + 16),
            nsfeat: b[at + 24],
            nlbaf: b[at + 25],
            flbas: b[at + 26],
            mc: b[at + 27],
            dpc: b[at + 28],
            dps: b[at + 29],
            nmic: b[at + 30],
            rescap: b[at + 31],
            fpi: b[at + 32],
            dlfeat: b[at + 33],
            nawun: rd16(b, at + 34),
            nawupf: rd16(b, at + 36),
            nacwu: rd16(b, at + 38),
            nabsn: rd16(b, at + 40),
            nabo: rd16(b, at + 42),
            nabspf: rd16(b, at + 44),
            noiob: rd16(b, at + 46),
            nvmcap: take::<16>(b, at + 48),
            npwg: rd16(b, at + 64),
            npwa: rd16(b, at + 66),
            npdg: rd16(b, at + 68),
            npda: rd16(b, at + 70),
            nows: rd16(b, at + 72),
            mssrl: rd16(b, at + 74),
            mcl: rd32(b, at + 76),
            msrc: b[at + 80],
            anagrpid: rd32(b, at + 92),
            nsattr: b[at + 99],
            nvmsetid: rd16(b, at + 100),
            endgid: rd16(b, at + 102),
            nguid: take::<16>(b, at + 104),
            eui64: take::<8>(b, at + 120),
            lbaf,
        }
    }

    /// Reads the structure from the start of `b`, where `b` is long enough
    /// to hold one.
    pub fn from_bytes(b: &[u8]) -> (r: Option<Self>)
        ensures
            b.len() < NS_ID_LEN ==> r is None,
            b.len() >= NS_ID_LEN ==> (r matches Some(d) && d.laid_out(b@, 0)),
    {
        if b.len() < NS_ID_LEN {
            return None;
        }
        Some(Self::decode(b, 0))
    }
}

/// Length in bytes of the layout of [`LogErr`].
pub const LOG_ERR_LEN: usize = 64;

/// One entry of the Error Information log page.
#[derive(Debug, Clone, Copy)]
pub struct LogErr {
    pub err_cnt: u64,
    pub sqid: u16,
    pub cmdid: u16,
    pub status: u16,
    pub prm_loc: u16,
    pub lba: u64,
    pub nsid: u32,
    pub vnd_spec: u8,
    pub trtype: u8,
    pub cs: u64,
    pub trtype_spec: u16,
}

impl LogErr {
    /// Whether every field holds what the layout puts at its offset from `at`.
    pub open spec fn laid_out(self, b: Seq<u8>, at: int) -> bool {
        &&& self.err_cnt == le64(b, at)
        &&& self.sqid == le16(b, at + 8)
        &&& self.cmdid == le16(b, at + 10)
        &&& self.status == le16(b, at + 12)
        &&& self.prm_loc == le16(b, at + 14)
        &&& self.lba == le64(b, at + 16)
        &&& self.nsid == le32(b, at + 24)
        &&& self.vnd_spec == b[at + 28]
        &&& self.trtype == b[at + 29]
        &&& self.cs == le64(b, at + 32)
        &&& self.trtype_spec == le16(b, at + 40)
    }

    /// Reads the structure that starts at `at`.
    pub fn decode(b: &[u8], at: usize) -> (r: Self)
        requires
            at + LOG_ERR_LEN <= b.len(),
        ensures
            r.laid_out(b@, at as int),
    {
        Self {
            err_cnt: rd64(b, at),
            sqid: rd16(b, at + 8),
            cmdid: rd16(b, at + 10),
            status: rd16(b, at + 12),
            prm_loc: rd16(b, at + 14),
            lba: rd64(b, at + 16),
            nsid: rd32(b, at + 24),
            vnd_spec: b[at + 28],
            trtype: b[at + 29],
            cs: rd64(b, at + 32),
            trtype_spec: rd16(b, at + 40),
        }
    }

    /// Reads the structure from the start of `b`, where `b` is long enough
    /// to hold one.
    pub fn from_bytes(b: &[u8]) -> (r: Option<Self>)
        ensures
            b.len() < LOG_ERR_LEN ==> r is None,
            b.len() >= LOG_ERR_LEN ==> (r matches Some(d) && d.laid_out(b@, 0)),
    {
        if b.len() < LOG_ERR_LEN {
            return None;
        }
        Some(Self::decode(b, 0))
    }
}

/// Length in bytes of the layout of [`LogSmart`].
pub const LOG_SMART_LEN: usize = 512;

/// The SMART / Health Information log page.
#[derive(Debug, Clone, Copy)]
pub struct LogSmart {
    pub crit_warn: u8,
    pub temp: [u8; 2],
    pub avl_spr: u8,
    pub spr_thrs: u8,
    pub pct_used: u8,
    pub endur_cw: u8,
    pub data_rd: [u8; 16],
    pub data_wr: [u8; 16],
    pub host_rd: [u8; 16],
    pub host_wr: [u8; 16],
    pub busy_tm: [u8; 16],
    pub pwr_cyc: [u8; 16],
    pub pwr_hrs: [u8; 16],
    pub unsafe_sd: [u8; 16],
    pub med_err: [u8; 16],
    pub n_err_log: [u8; 16],
    pub warn_tmp: u32,
    pub crit_tmp: u32,
    pub tmp_sens: [u16; 8],
    pub tmp1_cnt: u32,
    pub tmp2_cnt: u32,
    pub tmp1_tm: u32,
    pub tmp2_tm: u32,
}

impl LogSmart {
    /// Whether every field holds what the layout puts at its offset from `at`.
    pub open spec fn laid_out(self, b: Seq<u8>, at: int) -> bool {
        &&& self.crit_warn == b[at]
        &&& self.temp@ == b.subrange(at + 1, at + 3)
        &&& self.avl_spr == b[at + 3]
        &&& self.spr_thrs == b[at + 4]
        &&& self.pct_used == b[at + 5]
        &&& self.endur_cw == b[at + 6]
        &&& self.data_rd@ == b.subrange(at + 32, at + 48)
        &&& self.data_wr@ == b.subrange(at + 48, at + 64)
        &&& self.host_rd@ == b.subrange(at + 64, at + 80)
        &&& self.host_wr@ == b.subrange(at + 80, at + 96)
        &&& self.busy_tm@ == b.subrange(at + 96, at + 112)
        &&& self.pwr_cyc@ == b.subrange(at + 112, at + 128)
        &&& self.pwr_hrs@ == b.subrange(at + 128, at + 144)
        &&& self.unsafe_sd@ == b.subrange(at + 144, at + 160)
        &&& self.med_err@ == b.subrange(at + 160, at + 176)
        &&& self.n_err_log@ == b.subrange(at + 176, at + 192)
        &&& self.warn_tmp == le32(b, at + 192)
        &&& self.crit_tmp == le32(b, at + 196)
        &&& forall|k: int| 0 <= k < 8 ==> #[trigger] self.tmp_sens@[k] == le16(b, at + 200 + 2 * k)
        &&& self.tmp1_cnt == le32(b, at + 216)
        &&& self.tmp2_cnt == le32(b, at + 220)
        &&& self.tmp1_tm == le32(b, at + 224)
        &&& self.tmp2_tm == le32(b, at + 228)
    }

    /// Reads the structure that starts at `at`.
    pub fn decode(b: &[u8], at: usize) -> (r: Self)
        requires
            at + LOG_SMART_LEN <= b.len(),
        ensures
            r.laid_out(b@, at as int),
    {
        Self {
            crit_warn: b[at],
            temp: take::<2>(b, at + 1),
            avl_spr: b[at + 3],
            spr_thrs: b[at + 4],
            pct_used: b[at + 5],
            endur_cw: b[at + 6],
            data_rd: take::<16>(b, at + 32),
            data_wr: take::<16>(b, at + 48),
            host_rd: take::<16>(b, at + 64),
            host_wr: take::<16>(b, at + 80),
            busy_tm: take::<16>(b, at + 96),
            pwr_cyc: take::<16>(b, at + 112),
            pwr_hrs: take::<16>(b, at + 128),
            unsafe_sd: take::<16>(b, at + 144),
            med_err: take::<16>(b, at + 160),
            n_err_log: take::<16>(b, at + 176),
            warn_tmp: rd32(b, at + 192),
            crit_tmp: rd32(b, at + 196),
            tmp_sens: take16::<8>(b, at + 200),
            tmp1_cnt: rd32(b, at + 216),
            tmp2_cnt: rd32(b, at + 220),
            tmp1_tm: rd32(b, at + 224),
            tmp2_tm: rd32(b, at + 228),
        }
    }

    /// Reads the structure from the start of `b`, where `b` is long enough
    /// to hold one.
    pub fn from_bytes(b: &[u8]) -> (r: Option<Self>)
        ensures
            b.len() < LOG_SMART_LEN ==> r is None,
            b.len() >= LOG_SMART_LEN ==> (r matches Some(d) && d.laid_out(b@, 0)),
    {
        if b.len() < LOG_SMART_LEN {
            return None;
        }
        Some(Self::decode(b, 0))
    }
}

/// Length in bytes of the layout of [`LogPageFwSlot`].
pub const LOG_FW_SLOT_LEN: usize = 512;

/// The Firmware Slot Information log page.
#[derive(Debug, Clone, Copy)]
pub struct LogPageFwSlot {
    pub afi: u8,
    pub frs: [[u8; 8]; 7],
}

impl LogPageFwSlot {
    /// Whether every field holds what the layout puts at its offset from `at`.
    pub open spec fn laid_out(self, b: Seq<u8>, at: int) -> bool {
        &&& self.afi == b[at]
        &&& forall|k: int|
            0 <= k < 7 ==> (#[trigger] self.frs@[k])@ == b.subrange(
                at + 8 + 8 * k,
                at + 16 + 8 * k,
            )
    }

    /// Reads the structure that starts at `at`.
    pub fn decode(b: &[u8], at: usize) -> (r: Self)
        requires
            at + LOG_FW_SLOT_LEN <= b.len(),
        ensures
            r.laid_out(b@, at as int),
    {
        let mut frs: [[u8; 8]; 7] = [take::<8>(b, at + 8); 7];
        let mut i: usize = 1;
        while i < 7
            invariant
                1 <= i <= 7,
                at + LOG_FW_SLOT_LEN <= b.len(),
                forall|k: int|
                    0 <= k < i ==> (#[trigger] frs@[k])@ == b@.subrange(
                        at + 8 + 8 * k,
                        at + 16 + 8 * k,
                    ),
            decreases 7 - i,
        {
            frs[i] = take::<8>(b, at + 8 + 8 * i);
            i += 1;
        }
        Self {
            afi: b[at],
            frs,
        }
    }

    /// Reads the structure from the start of `b`, where `b` is long enough
    /// to hold one.
    pub fn from_bytes(b: &[u8]) -> (r: Option<Self>)
        ensures
            b.len() < LOG_FW_SLOT_LEN ==> r is None,
            b.len() >= LOG_FW_SLOT_LEN ==> (r matches Some(d) && d.laid_out(b@, 0)),
    {
        if b.len() < LOG_FW_SLOT_LEN {
            return None;
        }
        Some(Self::decode(b, 0))
    }
}
/// Whether a character is white space: one of the characters with the
/// Unicode property White_Space.
pub open spec fn is_white(c: char) -> bool {
    ||| '\u{9}' <= c <= '\u{D}'
    ||| c == ' '
    ||| c == '\u{85}'
    ||| c == '\u{A0}'
    ||| c == '\u{1680}'
    ||| '\u{2000}' <= c <= '\u{200A}'
    ||| c == '\u{2028}'
    ||| c == '\u{2029}'
    ||| c == '\u{202F}'
    ||| c == '\u{205F}'
    ||| c == '\u{3000}'
}

/// A text without its trailing white space.
pub open spec fn trimmed(s: Seq<char>) -> Seq<char>
    decreases s.len(),
{
    if s.len() > 0 && is_white(s.last()) {
        trimmed(s.drop_last())
    } else {
        s
    }
}

/// The text of an identify field: its bytes read as UTF-8 with trailing
/// white space removed, and the empty text where they are not UTF-8.
pub open spec fn text(bytes: Seq<u8>) -> Seq<char> {
    if valid_utf8(bytes) {
        trimmed(decode_utf8(bytes))
    } else {
        Seq::empty()
    }
}

/// The characters that bytes below 0x80 stand for, one for each.
pub open spec fn ascii(bytes: Seq<u8>) -> Seq<char> {
    Seq::new(bytes.len(), |i: int| bytes[i] as char)
}

/// A text without its trailing white space is the front part of the text;
/// all that follows it is white space, and its last character is not.
pub proof fn lemma_trimmed(s: Seq<char>)
    ensures
        trimmed(s).is_prefix_of(s),
        forall|i: int| trimmed(s).len() <= i < s.len() ==> is_white(#[trigger] s[i]),
        trimmed(s).len() > 0 ==> !is_white(trimmed(s).last()),
    decreases s.len(),
{
    if s.len() > 0 && is_white(s.last()) {
        lemma_trimmed(s.drop_last());
        let t = trimmed(s.drop_last());
        assert(t =~= s.subrange(0, t.len() as int)) by {
            assert(t =~= s.drop_last().subrange(0, t.len() as int));
        }
        assert forall|i: int| t.len() <= i < s.len() implies is_white(#[trigger] s[i]) by {
            if i < s.len() - 1 {
                assert(s[i] == s.drop_last()[i]);
            } else {
                assert(s[i] == s.last());
            }
        }
    } else {
        assert(s =~= s.subrange(0, s.len() as int));
    }
}

/// A front part of a text whose last character is no white space, followed
/// by white space only, is the text without its trailing white space.
pub proof fn lemma_trimmed_is(s: Seq<char>, k: int)
    requires
        0 <= k <= s.len(),
        k > 0 ==> !is_white(s[k - 1]),
        forall|i: int| k <= i < s.len() ==> is_white(#[trigger] s[i]),
    ensures
        trimmed(s) == s.subrange(0, k),
    decreases s.len(),
{
    if k == s.len() {
        assert(s =~= s.subrange(0, k));
    } else {
        assert(is_white(s.last()));
        let d = s.drop_last();
        lemma_trimmed_is(d, k);
        assert(d.subrange(0, k) =~= s.subrange(0, k));
    }
}

/// A field of bytes below 0x80 is text, and its text is its characters
/// without the trailing white space.
pub proof fn lemma_ascii_text(bytes: Seq<u8>)
    requires
        forall|i: int| 0 <= i < bytes.len() ==> #[trigger] bytes[i] < 0x80,
    ensures
        valid_utf8(bytes),
        text(bytes) == trimmed(ascii(bytes)),
{
    let chars = ascii(bytes);
    assert(vstd::utf8::is_ascii_chars(chars));
    vstd::utf8::is_ascii_chars_encode_utf8(chars);
    assert(vstd::utf8::encode_utf8(chars) =~= bytes) by {
        assert forall|i: int| 0 <= i < bytes.len() implies vstd::utf8::encode_utf8(chars)[i]
            == bytes[i] by {
            assert(chars[i] as u8 == vstd::utf8::encode_utf8(chars)[i]);
        }
    }
    vstd::utf8::encode_utf8_valid_utf8(chars);
    vstd::utf8::encode_utf8_decode_utf8(chars);
}

/// `pg_size * 2^shift`, capped at `usize::MAX`.
pub open spec fn scaled(pg_size: usize, shift: nat) -> usize {
    if pg_size * pow2(shift) <= usize::MAX {
        (pg_size * pow2(shift)) as usize
    } else {
        usize::MAX
    }
}

/// The block size that a data size exponent stands for: `2^lbads`, and 0
/// where the exponent is 0 or the size cannot be held in a `usize`.
pub open spec fn block_size(lbads: u8) -> usize {
    if lbads == 0 || pow2(lbads as nat) > usize::MAX {
        0
    } else {
        pow2(lbads as nat) as usize
    }
}

/// `a * b`, capped at `u64::MAX`.
pub open spec fn capped_product(a: u64, b: u64) -> u64 {
    if a * b <= u64::MAX {
        (a * b) as u64
    } else {
        u64::MAX
    }
}

/// Calls `core::str::from_utf8`. The contract states what its documentation
/// does: the bytes are handed back as text exactly when they are valid UTF-8,
/// and the text then encodes to those bytes.
#[verifier::external_body]
fn utf8<'a>(bytes: &'a [u8]) -> (r: Option<&'a str>)
    ensures
        r is Some <==> valid_utf8(bytes@),
        r matches Some(s) ==> s@ == decode_utf8(bytes@),
{
    match core::str::from_utf8(bytes) {
        Ok(s) => Some(s),
        Err(_) => None,
    }
}

/// Calls `str::trim_end`. The contract states what its documentation does:
/// the text with trailing white space removed, where white space is what
/// Unicode gives the property White_Space.
#[verifier::external_body]
fn trim_end<'a>(s: &'a str) -> (r: &'a str)
    ensures
        r@ == trimmed(s@),
{
    s.trim_end()
}

/// The text of the field held in `bytes`.
fn field_text<'a>(bytes: &'a [u8]) -> (r: &'a str)
    ensures
        r@ == text(bytes@),
{
    let s = match utf8(bytes) {
        Some(s) => s,
        None => {
            proof {
                reveal_strlit("");
            }
            ""
        },
    };
    trim_end(s)
}

/// `2^lbads` as a block size; see [`block_size`].
fn size_of_exponent(lbads: u8) -> (r: usize)
    ensures
        r == block_size(lbads),
{
    if lbads == 0 {
        return 0;
    }
    let mut v: usize = 1;
    let mut i: u8 = 0;
    proof {
        vstd::arithmetic::power2::lemma2_to64();
    }
    while i < lbads
        invariant
            i <= lbads,
            v == pow2(i as nat),
        decreases lbads - i,
    {
        proof {
            lemma_pow2_unfold((i + 1) as nat);
        }
        match v.checked_mul(2) {
            Some(w) => {
                v = w;
            },
            None => {
                proof {
                    if i + 1 < lbads {
                        lemma_pow2_strictly_increases((i + 1) as nat, lbads as nat);
                    }
                }
                return 0;
            },
        }
        i += 1;
    }
    v
}

impl CtrlId {
    /// The serial number as text.
    pub fn serial(&self) -> (r: &str)
        ensures
            r@ == text(self.sn@),
    {
        return field_text(self.sn.as_slice());
    }

    /// The model number as text.
    pub fn model(&self) -> (r: &str)
        ensures
            r@ == text(self.mn@),
    {
        return field_text(self.mn.as_slice());
    }

    /// The firmware revision as text.
    pub fn firm(&self) -> (r: &str)
        ensures
            r@ == text(self.fr@),
    {
        return field_text(self.fr.as_slice());
    }

    /// The largest transfer in bytes for pages of `pg_size` bytes: the page
    /// size times `2^mdts`, and nothing where the device sets no limit.
    pub fn max_xfer(&self, pg_size: usize) -> (r: Option<usize>)
        ensures
            self.mdts == 0 ==> r is None,
            self.mdts != 0 ==> r == Some(scaled(pg_size, self.mdts as nat)),
    {
        if self.mdts == 0 {
            return None;
        }
        let mdts = self.mdts;
        let mut v: usize = pg_size;
        let mut i: u8 = 0;
        proof {
            vstd::arithmetic::power2::lemma2_to64();
        }
        while i < mdts
            invariant
                i <= mdts,
                mdts == self.mdts,
                mdts != 0,
                v == pg_size * pow2(i as nat),
            decreases mdts - i,
        {
            proof {
                lemma_pow2_unfold((i + 1) as nat);
                assert(pg_size * pow2((i + 1) as nat) == 2 * (pg_size * pow2(i as nat)))
                    by (nonlinear_arith)
                    requires
                        pow2((i + 1) as nat) == 2 * pow2(i as nat),
                ;
            }
            match v.checked_mul(2) {
                Some(w) => {
                    v = w;
                },
                None => {
                    proof {
                        if i + 1 < mdts {
                            lemma_pow2_strictly_increases((i + 1) as nat, mdts as nat);
                        }
                        assert(pg_size * pow2((i + 1) as nat) <= pg_size * pow2(mdts as nat))
                            by (nonlinear_arith)
                            requires
                                pow2((i + 1) as nat) <= pow2(mdts as nat),
                        ;
                    }
                    return Some(usize::MAX);
                },
            }
            i += 1;
        }
        return Some(v);
    }

    /// The version as (major, minor, tertiary): bits 23..16, 15..8 and 7..0
    /// of VER.
    pub fn version(&self) -> (r: (u8, u8, u8))
        ensures
            r.0 == field32(self.ver, 16, 0xFF),
            r.1 == field32(self.ver, 8, 0xFF),
            r.2 == self.ver & 0xFF,
    {
        let ver = self.ver;
        proof {
            crate::bits::lemma_and_bound32(ver >> 16, 0xFF);
            crate::bits::lemma_and_bound32(ver >> 8, 0xFF);
            crate::bits::lemma_and_bound32(ver, 0xFF);
        }
        let major = ((ver >> 16u32) & 0xFFu32) as u8;
        let minor = ((ver >> 8u32) & 0xFFu32) as u8;
        let ter = (ver & 0xFFu32) as u8;
        return (major, minor, ter);
    }
}

impl NsId {
    /// The index of the LBA format in use: the low four bits of FLBAS.
    pub open spec fn format_index(self) -> int {
        (self.flbas & 0x0F) as int
    }

    /// The size of a logical block in bytes, 0 where the format in use
    /// gives none.
    pub fn lba_size(&self) -> (r: usize)
        ensures
            r == block_size(self.lbaf@[self.format_index()].lbads),
    {
        let fmt_idx = self.fmt_idx() as usize;
        return size_of_exponent(self.lbaf[fmt_idx].lbads);
    }

    /// The metadata bytes per block of the format in use.
    pub fn meta_size(&self) -> (r: usize)
        ensures
            r == self.lbaf@[self.format_index()].ms,
    {
        let fmt_idx = self.fmt_idx() as usize;
        return self.lbaf[fmt_idx].ms as usize;
    }

    /// The capacity in bytes: NCAP blocks, capped at `u64::MAX`.
    pub fn cap_bytes(&self) -> (r: u64)
        ensures
            r == capped_product(
                self.ncap,
                block_size(self.lbaf@[self.format_index()].lbads) as u64,
            ),
    {
        let sz = self.lba_size() as u64;
        return match self.ncap.checked_mul(sz) {
            Some(v) => v,
            None => u64::MAX,
        };
    }

    /// The size in bytes: NSZE blocks, capped at `u64::MAX`.
    pub fn size_bytes(&self) -> (r: u64)
        ensures
            r == capped_product(
                self.nsze,
                block_size(self.lbaf@[self.format_index()].lbads) as u64,
            ),
    {
        let sz = self.lba_size() as u64;
        return match self.nsze.checked_mul(sz) {
            Some(v) => v,
            None => u64::MAX,
        };
    }

    /// Whether the namespace is thinly provisioned: bit 0 of NSFEAT.
    pub fn is_thin(&self) -> (r: bool)
        ensures
            r == (self.nsfeat & 0x01 != 0),
    {
        return (self.nsfeat & 0x01) != 0;
    }

    /// The index of the LBA format in use: the low four bits of FLBAS.
    pub fn fmt_idx(&self) -> (r: u8)
        ensures
            r == self.format_index(),
            r < 16,
    {
        proof {
            crate::bits::lemma_and_bound8(self.flbas, 0x0F);
        }
        return self.flbas & 0x0F;
    }
}

impl LbaFormat {
    /// The size of a logical block in bytes, 0 where the format is unused.
    pub fn lba_size(&self) -> (r: usize)
        ensures
            r == block_size(self.lbads),
    {
        return size_of_exponent(self.lbads);
    }

    pub fn meta_size(&self) -> (r: usize)
        ensures
            r == self.ms,
    {
        return self.ms as usize;
    }

    /// Whether the format is in use.
    pub fn valid(&self) -> (r: bool)
        ensures
            r == (self.lbads != 0),
    {
        return self.lbads != 0;
    }
}

pub const LOG_ERR: u8 = 0x01;
pub const LOG_SMART: u8 = 0x02;
pub const LOG_FW: u8 = 0x03;
pub const LOG_NS_CHG: u8 = 0x04;
pub const LOG_CMD_EFF: u8 = 0x05;

pub const FT_ARBITR: u8 = 0x01;
pub const FT_POWER: u8 = 0x02;
pub const FT_LBA_RNG: u8 = 0x03;
pub const FT_TEMP_TH: u8 = 0x04;
pub const FT_ERR_REC: u8 = 0x05;
pub const FT_VOL_WC: u8 = 0x06;
pub const FT_NQ: u8 = 0x07;
pub const FT_IRQ_COAL: u8 = 0x08;
pub const FT_IRQ_CFG: u8 = 0x09;
pub const FT_WR_ATOM: u8 = 0x0A;
pub const FT_ASYNC: u8 = 0x0B;
pub const FT_AUTO_PST: u8 = 0x0C;
pub const FT_HOST_MEM: u8 = 0x0D;
pub const FT_TSTAMP: u8 = 0x0E;
pub const FT_KEEPALV: u8 = 0x0F;
pub const FT_THERM: u8 = 0x10;
pub const FT_NOP_PS: u8 = 0x11;

/// The value of the Asynchronous Event Configuration feature.
#[derive(Debug, Clone, Copy)]
pub struct AsyncEventConfig {
    pub value: u32,
}

impl AsyncEventConfig {
    pub fn new() -> (r: Self)
        ensures
            r.value == 0,
    {
        return Self { value: 0 };
    }

    /// Asks for SMART / health critical warnings: bit 0.
    pub fn en_smart_hlt(&mut self) -> (r: &mut Self)
        ensures
            r.value == old(self).value | 0x1,
            *final(self) == *final(r),
    {
        self.value |= 0x1u32;
        return self;
    }

    /// Asks for namespace attribute notices: bit 8.
    pub fn en_ns_attr(&mut self) -> (r: &mut Self)
        ensures
            r.value == old(self).value | 0x100,
            *final(self) == *final(r),
    {
        self.value |= 0x100u32;
        return self;
    }

    /// Asks for firmware activation notices: bit 9.
    pub fn en_fw_actv(&mut self) -> (r: &mut Self)
        ensures
            r.value == old(self).value | 0x200,
            *final(self) == *final(r),
    {
        self.value |= 0x200u32;
        return self;
    }
}

/// Dword 0 of the completion of an Asynchronous Event Request.
#[derive(Debug, Clone, Copy)]
pub struct AsyncEventInfo {
    pub dw0: u32,
}

impl AsyncEventInfo {
    /// The event type: bits 2..0.
    pub fn evt_type(&self) -> (r: u8)
        ensures
            r == self.dw0 & 0x7,
    {
        let d = self.dw0;
        proof {
            crate::bits::lemma_and_bound32(d, 0x7);
        }
        return (d & 0x7u32) as u8;
    }

    /// The event information: bits 15..8.
    pub fn evt_info(&self) -> (r: u8)
        ensures
            r == field32(self.dw0, 8, 0xFF),
    {
        let d = self.dw0;
        proof {
            crate::bits::lemma_and_bound32(d >> 8, 0xFF);
        }
        return ((d >> 8u32) & 0xFFu32) as u8;
    }

    /// The log page to read for the event: bits 23..16.
    pub fn log_page(&self) -> (r: u8)
        ensures
            r == field32(self.dw0, 16, 0xFF),
    {
        let d = self.dw0;
        proof {
            crate::bits::lemma_and_bound32(d >> 16, 0xFF);
        }
        return ((d >> 16u32) & 0xFFu32) as u8;
    }
}

pub const AER_TYPE_ERROR: u8 = 0;
pub const AER_TYPE_SMART: u8 = 1;
pub const AER_TYPE_NOTICE: u8 = 2;
pub const AER_TYPE_VENDOR: u8 = 7;

} // verus!
