//! What the driver asks of its host. The driver never touches the device:
//! each step of an operation hands the host the stores to perform, in order,
//! and names the one thing to read back before the next step.

use vstd::prelude::*;
use crate::cmd::Sqe;
use crate::err::Result;
use crate::queue::Cqe;

verus! {

/// One store that the host performs on behalf of the driver.
#[derive(Clone, Copy, Debug, PartialEq, Eq)]
pub enum Store {
    /// A volatile 32-bit store to the register at offset `off` of the
    /// register window.
    Reg32 { off: usize, val: u32 },
    /// A volatile 64-bit store to the register at offset `off` of the
    /// register window.
    Reg64 { off: usize, quad: u64 },
    /// `len` zero bytes to the DMA memory at `addr`.
    Zero { addr: usize, len: usize },
    /// The 64 bytes of a submission queue entry to the DMA memory at `addr`.
    Entry { addr: usize, sqe: Sqe },
    /// One 8-byte little-endian PRP entry to the DMA memory at `addr`.
    Quad { addr: usize, quad: u64 },
    /// One 16-byte dataset management range to the DMA memory at `addr`:
    /// context attributes, length in blocks, starting block.
    Range { addr: usize, attr: u32, blocks: u32, slba: u64 },
    /// No store to memory: the `len` bytes at `addr`, which the provider
    /// handed out, go back to it.
    Free { addr: usize, len: usize },
}

/// The one thing that the host reads back after the stores of a step.
#[derive(Clone, Copy, Debug, PartialEq, Eq)]
pub enum Fetch {
    /// Nothing: the host lets other work proceed and comes back with
    /// `Reply::Go`.
    Pause,
    /// A volatile 32-bit load of the register at offset `off`.
    Reg32 { off: usize },
    /// A volatile 64-bit load of the register at offset `off`.
    Reg64 { off: usize },
    /// A volatile load of the 16-byte completion queue entry at `addr`.
    Cqe { addr: usize },
    /// `len` bytes of DMA memory from `addr` on.
    Bytes { addr: usize, len: usize },
}

/// What the host read back.
#[derive(Debug)]
pub enum Reply {
    /// The answer to `Fetch::Pause`, and what starts an operation.
    Go,
    Reg32(u32),
    Reg64(u64),
    Cqe(Cqe),
    Bytes(Vec<u8>),
}

/// How an operation goes on after the stores of a step.
pub enum Next<S, T> {
    /// The host reads the first back and hands it to the next step together
    /// with the second, which is the operation's state.
    Fetch(Fetch, S),
    /// The operation has ended.
    Done(Result<T>),
}

/// One step of an operation: stores for the host to perform in order, and
/// what follows them.
pub struct Step<S, T> {
    pub stores: Vec<Store>,
    pub next: Next<S, T>,
}

/// A step as a value: the stores as a sequence.
pub struct Plan<S, T> {
    pub stores: Seq<Store>,
    pub next: Next<S, T>,
}

impl<S, T> View for Step<S, T> {
    type V = Plan<S, T>;

    open spec fn view(&self) -> Plan<S, T> {
        Plan { stores: self.stores@, next: self.next }
    }
}

impl<S, T> Plan<S, T> {
    /// The step that reads `fetch` back after `stores` and goes on from
    /// `state`.
    pub open spec fn wait(stores: Seq<Store>, fetch: Fetch, state: S) -> Plan<S, T> {
        Plan { stores, next: Next::Fetch(fetch, state) }
    }

    /// The step that ends the operation with `result` after `stores`.
    pub open spec fn done(stores: Seq<Store>, result: Result<T>) -> Plan<S, T> {
        Plan { stores, next: Next::Done(result) }
    }
}

impl<S, T> Step<S, T> {
    /// A step that ends the operation with `result` after `stores`.
    pub fn done(stores: Vec<Store>, result: Result<T>) -> (s: Self)
        ensures
            s.stores == stores,
            s.next == Next::<S, T>::Done(result),
            s@ == Plan::<S, T>::done(stores@, result),
    {
        Step { stores, next: Next::Done(result) }
    }

    /// A step that has the host read `fetch` back after `stores` and go on
    /// from `state`.
    pub fn wait(stores: Vec<Store>, fetch: Fetch, state: S) -> (s: Self)
        ensures
            s.stores == stores,
            s.next == Next::<S, T>::Fetch(fetch, state),
            s@ == Plan::<S, T>::wait(stores@, fetch, state),
    {
        Step { stores, next: Next::Fetch(fetch, state) }
    }
}

} // verus!
