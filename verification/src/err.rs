//! Error kinds reported by the driver.

use vstd::prelude::*;

verus! {

/// Why a driver operation did not succeed.
#[derive(Debug, Clone, Copy, PartialEq, Eq)]
pub enum NVMeError {
    /// Reserved for deadline handling above the driver; never produced here.
    Timeout,
    /// The DMA provider could not hand out memory.
    OoRam,
    /// No matching queue pair, or an operation that needs one found none.
    InvQp,
    /// No free queue identifier, or a queue of zero entries was asked for.
    FullQp,
    /// The device completed the command with this non-zero status code.
    CmdFail(u16),
    /// The host surfaced a fault on the register window.
    IoError,
    /// A buffer breaks the alignment or length rules of the transfer.
    InvBuf,
}

pub type Result<T> = core::result::Result<T, NVMeError>;

} // verus!
