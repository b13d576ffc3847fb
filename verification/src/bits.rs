//! Bit fields of device words, and the facts about them that the register map,
//! the command encoder and the queue code rely on.

use vstd::prelude::*;

verus! {

/// The field of `word` that starts at bit `lo` and is as wide as `mask`.
pub open spec fn field32(word: u32, lo: u32, mask: u32) -> u32 {
    (word >> lo) & mask
}

/// The field of `word` that starts at bit `lo` and is as wide as `mask`.
pub open spec fn field64(word: u64, lo: u64, mask: u64) -> u64 {
    (word >> lo) & mask
}

/// `word` with the field at bit `lo` replaced by the low bits of `v`.
pub open spec fn with_field32(word: u32, lo: u32, mask: u32, v: u32) -> u32 {
    (word & !(mask << lo)) | ((v & mask) << lo)
}

/// Two 16-bit halves laid side by side: `hi` in bits 31..16, `lo` in bits 15..0.
pub open spec fn pair16(hi: u16, lo: u16) -> u32 {
    (hi as u32 * 0x1_0000 + lo as u32) as u32
}

/// The low 32 bits of a 64-bit quantity.
pub open spec fn low32(x: u64) -> u32 {
    (x % 0x1_0000_0000) as u32
}

/// The high 32 bits of a 64-bit quantity.
pub open spec fn high32(x: u64) -> u32 {
    (x / 0x1_0000_0000) as u32
}

/// A masked value never exceeds its mask.
pub proof fn lemma_and_bound64(x: u64, mask: u64)
    by (bit_vector)
    ensures
        x & mask <= mask,
{
}

/// A masked value never exceeds its mask.
pub proof fn lemma_and_bound32(x: u32, mask: u32)
    by (bit_vector)
    ensures
        x & mask <= mask,
{
}

/// A masked value never exceeds its mask.
pub proof fn lemma_and_bound16(x: u16, mask: u16)
    by (bit_vector)
    ensures
        x & mask <= mask,
{
}

/// A masked value never exceeds its mask.
pub proof fn lemma_and_bound8(x: u8, mask: u8)
    by (bit_vector)
    ensures
        x & mask <= mask,
{
}

/// Shifting and or-ing two halves is the same as laying them side by side.
pub proof fn lemma_pair16(hi: u16, lo: u16)
    by (bit_vector)
    ensures
        ((hi as u32) << 16) | (lo as u32) == (hi as u32) * 0x1_0000 + (lo as u32),
        (hi as u32) * 0x1_0000 + (lo as u32) <= 0xFFFF_FFFF,
        ((((hi as u32) << 16) | (lo as u32)) >> 16) == hi as u32,
        ((((hi as u32) << 16) | (lo as u32)) & 0xFFFF) == lo as u32,
{
}

/// Truncation and a 32-bit shift split a quad word at its middle.
pub proof fn lemma_split64(x: u64)
    by (bit_vector)
    ensures
        (x & 0xFFFF_FFFF) == x % 0x1_0000_0000,
        (x >> 32) == x / 0x1_0000_0000,
        (x >> 32) <= 0xFFFF_FFFF,
        (x & 0xFFFF_FFFF) <= 0xFFFF_FFFF,
{
}

} // verus!

verus! {

/// The low 32 bits of `x`.
pub fn lo32(x: u64) -> (r: u32)
    ensures
        r == low32(x),
{
    proof {
        lemma_split64(x);
    }
    (x & 0xFFFF_FFFF) as u32
}

/// The high 32 bits of `x`.
pub fn hi32(x: u64) -> (r: u32)
    ensures
        r == high32(x),
{
    proof {
        lemma_split64(x);
    }
    (x >> 32) as u32
}

/// `hi` in bits 31..16 and `lo` in bits 15..0.
pub fn join16(hi: u16, lo: u16) -> (r: u32)
    ensures
        r == pair16(hi, lo),
{
    proof {
        lemma_pair16(hi, lo);
    }
    ((hi as u32) << 16) | (lo as u32)
}

} // verus!
