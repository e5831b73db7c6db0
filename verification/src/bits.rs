//! Facts about machine words that several modules share.
use vstd::prelude::*;

verus! {

/// What the low bits and the high bits of a 64-bit word are as numbers.
pub proof fn lemma_split_u64(x: u64)
    by (bit_vector)
    ensures
        x as u8 == x % 0x100,
        x as u16 == x % 0x1_0000,
        x as u32 == x % 0x1_0000_0000,
        x & 0xff == x % 0x100,
        x & 0xfff == x % 0x1000,
        x & 0xffff_ffff == x % 0x1_0000_0000,
        x & 511 == x % 512,
        x >> 32 == x / 0x1_0000_0000,
        x >> 16 == x / 0x1_0000,
        x >> 8 == x / 0x100,
        x >> 4 == x / 0x10,
{
}

/// Bit `index` of a 32-bit word.
pub open spec fn bit(word: u32, index: u32) -> bool {
    (word >> index) & 1 == 1
}

/// What setting, clearing and merging does to each bit.
pub proof fn lemma_bit_ops(a: u32, b: u32, i: u32, j: u32)
    by (bit_vector)
    requires
        i < 32,
        j < 32,
    ensures
        (((a | b) >> j) & 1 == 1) == ((a >> j) & 1 == 1 || (b >> j) & 1 == 1),
        (((a | (1u32 << i)) >> j) & 1 == 1) == ((a >> j) & 1 == 1 || i == j),
        (((a & !(1u32 << i)) >> j) & 1 == 1) == ((a >> j) & 1 == 1 && i != j),
        (0u32 >> j) & 1 == 0,
        (a >> j) & 1 == 0 || (a >> j) & 1 == 1,
{
}

/// The bits of a 64-bit word made of two halves.
pub proof fn lemma_joined_bits(low: u32, high: u32, j: u64)
    by (bit_vector)
    requires
        j < 64,
    ensures
        (((low as u64) | ((high as u64) << 32)) >> j) & 1 == (if j < 32 {
            ((low >> (j as u32)) & 1) as u64
        } else {
            ((high >> ((j - 32) as u32)) & 1) as u64
        }),
{
}

} // verus!
