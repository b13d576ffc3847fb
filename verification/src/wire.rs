//! Little-endian numbers in byte buffers, as the device lays them out.

use vstd::prelude::*;

verus! {

broadcast use vstd::slice::group_slice_axioms;

/// The 16-bit number whose low byte is `b[at]`.
pub open spec fn le16(b: Seq<u8>, at: int) -> u16 {
    (b[at] as int + 0x100 * (b[at + 1] as int)) as u16
}

/// The 32-bit number whose low byte is `b[at]`.
pub open spec fn le32(b: Seq<u8>, at: int) -> u32 {
    (le16(b, at) as int + 0x1_0000 * (le16(b, at + 2) as int)) as u32
}

/// The 64-bit number whose low byte is `b[at]`.
pub open spec fn le64(b: Seq<u8>, at: int) -> u64 {
    (le32(b, at) as int + 0x1_0000_0000 * (le32(b, at + 4) as int)) as u64
}

/// Reads the 16-bit number at `at`.
pub fn rd16(b: &[u8], at: usize) -> (r: u16)
    requires
        at + 2 <= b.len(),
    ensures
        r == le16(b@, at as int),
{
    (b[at] as u16) + 0x100 * (b[at + 1] as u16)
}

/// Reads the 32-bit number at `at`.
pub fn rd32(b: &[u8], at: usize) -> (r: u32)
    requires
        at + 4 <= b.len(),
    ensures
        r == le32(b@, at as int),
{
    (rd16(b, at) as u32) + 0x1_0000 * (rd16(b, at + 2) as u32)
}

/// Reads the 64-bit number at `at`.
pub fn rd64(b: &[u8], at: usize) -> (r: u64)
    requires
        at + 8 <= b.len(),
    ensures
        r == le64(b@, at as int),
{
    (rd32(b, at) as u64) + 0x1_0000_0000 * (rd32(b, at + 4) as u64)
}

/// Copies the `N` bytes at `at`.
pub fn take<const N: usize>(b: &[u8], at: usize) -> (r: [u8; N])
    requires
        at + N <= b.len(),
    ensures
        r@ == b@.subrange(at as int, at + N),
{
    let mut r: [u8; N] = [0u8; N];
    let mut i: usize = 0;
    while i < N
        invariant
            i <= N,
            at + N <= b.len(),
            forall|k: int| 0 <= k < i ==> r@[k] == b@[at + k],
        decreases N - i,
    {
        r[i] = b[at + i];
        i += 1;
    }
    assert(r@ =~= b@.subrange(at as int, at + N));
    r
}

/// Reads the `N` 16-bit numbers that start at `at`.
pub fn take16<const N: usize>(b: &[u8], at: usize) -> (r: [u16; N])
    requires
        at + 2 * N <= b.len(),
    ensures
        forall|k: int| 0 <= k < N ==> r@[k] == le16(b@, at + 2 * k),
{
    let mut r: [u16; N] = [0u16; N];
    let mut i: usize = 0;
    while i < N
        invariant
            i <= N,
            at + 2 * N <= b.len(),
            forall|k: int| 0 <= k < i ==> r@[k] == le16(b@, at + 2 * k),
        decreases N - i,
    {
        r[i] = rd16(b, at + 2 * i);
        i += 1;
    }
    r
}

/// The bytes of a 32-bit number, low byte first.
pub open spec fn bytes32(v: u32) -> Seq<u8> {
    seq![
        (v % 0x100) as u8,
        (v / 0x100 % 0x100) as u8,
        (v / 0x1_0000 % 0x100) as u8,
        (v / 0x100_0000) as u8,
    ]
}

/// The bytes of a 64-bit number, low byte first.
pub open spec fn bytes64(v: u64) -> Seq<u8> {
    bytes32((v % 0x1_0000_0000) as u32) + bytes32((v / 0x1_0000_0000) as u32)
}

/// Reading back what `bytes32` laid out gives the number again.
pub proof fn lemma_bytes32(b: Seq<u8>, at: int, v: u32)
    requires
        0 <= at,
        at + 4 <= b.len(),
        b.subrange(at, at + 4) == bytes32(v),
    ensures
        le32(b, at) == v,
{
    let s = b.subrange(at, at + 4);
    assert(b[at] == s[0] && b[at + 1] == s[1] && b[at + 2] == s[2] && b[at + 3] == s[3]);
}

/// Reading back what `bytes64` laid out gives the number again.
pub proof fn lemma_bytes64(b: Seq<u8>, at: int, v: u64)
    requires
        0 <= at,
        at + 8 <= b.len(),
        b.subrange(at, at + 8) == bytes64(v),
    ensures
        le64(b, at) == v,
{
    let s = b.subrange(at, at + 8);
    let lo = (v % 0x1_0000_0000) as u32;
    let hi = (v / 0x1_0000_0000) as u32;
    assert(b.subrange(at, at + 4) =~= s.subrange(0, 4));
    assert(b.subrange(at + 4, at + 8) =~= s.subrange(4, 8));
    assert(s.subrange(0, 4) =~= bytes32(lo));
    assert(s.subrange(4, 8) =~= bytes32(hi));
    lemma_bytes32(b, at, lo);
    lemma_bytes32(b, at + 4, hi);
}

/// Stores `v` at `at`, low byte first, and leaves the other bytes alone.
pub fn wr32<const N: usize>(b: &mut [u8; N], at: usize, v: u32)
    requires
        at + 4 <= N,
    ensures
        final(b)@.subrange(at as int, at + 4) == bytes32(v),
        le32(final(b)@, at as int) == v,
        forall|k: int| 0 <= k < N && !(at <= k < at + 4) ==> final(b)@[k] == old(b)@[k],
{
    b[at] = (v % 0x100) as u8;
    b[at + 1] = (v / 0x100 % 0x100) as u8;
    b[at + 2] = (v / 0x1_0000 % 0x100) as u8;
    b[at + 3] = (v / 0x100_0000) as u8;
    proof {
        assert(b@.subrange(at as int, at + 4) =~= bytes32(v));
        lemma_bytes32(b@, at as int, v);
    }
}

/// Stores `v` at `at`, low byte first, and leaves the other bytes alone.
pub fn wr64<const N: usize>(b: &mut [u8; N], at: usize, v: u64)
    requires
        at + 8 <= N,
    ensures
        final(b)@.subrange(at as int, at + 8) == bytes64(v),
        le64(final(b)@, at as int) == v,
        forall|k: int| 0 <= k < N && !(at <= k < at + 8) ==> final(b)@[k] == old(b)@[k],
{
    let lo = (v % 0x1_0000_0000) as u32;
    let hi = (v / 0x1_0000_0000) as u32;
    wr32(b, at, lo);
    let ghost mid = b@;
    wr32(b, at + 4, hi);
    proof {
        assert(b@.subrange(at as int, at + 4) =~= mid.subrange(at as int, at + 4));
        assert(b@.subrange(at as int, at + 8) =~= bytes64(v));
        lemma_bytes64(b@, at as int, v);
    }
}

} // verus!
