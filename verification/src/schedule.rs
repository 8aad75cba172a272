//! The SHA-256 message schedule over 32-bit words: the sigma mixing
//! functions, the 64-word expansion of a 16-word block, and the spread-
//! domain witness values the scheduler writes alongside each derived word.

use vstd::prelude::*;
use crate::spread::{even_bits_of, odd_bits_of};

verus! {

/// The number of input words in one 512-bit block.
pub const BLOCK_SIZE: usize = 16;

/// The number of schedule words one block expands to.
pub const ROUNDS: usize = 64;

/// The sigma_0 mixing function: rotations by 7 and 18, and a shift by 3,
/// combined by XOR.
pub open spec fn sigma_0_spec(w: u32) -> u32 {
    (((w >> 7) | (w << 25)) ^ ((w >> 18) | (w << 14))) ^ (w >> 3)
}

/// The sigma_1 mixing function: rotations by 17 and 19, and a shift by
/// 10, combined by XOR.
pub open spec fn sigma_1_spec(w: u32) -> u32 {
    (((w >> 17) | (w << 15)) ^ ((w >> 19) | (w << 13))) ^ (w >> 10)
}

/// The i-th word of the message schedule of a 16-word block.
pub open spec fn schedule_word(input: Seq<u32>, i: int) -> u32
    decreases i,
{
    if i < 16 {
        input[i]
    } else {
        (((sigma_1_spec(schedule_word(input, i - 2)) as int + schedule_word(input, i - 7) as int
            + sigma_0_spec(schedule_word(input, i - 15)) as int + schedule_word(
            input,
            i - 16,
        ) as int) % 0x100000000) as u32)
    }
}

/// Computes sigma_0 of a schedule word.
pub fn sigma_0(w: u32) -> (r: u32)
    ensures
        r == sigma_0_spec(w),
{
    (((w >> 7) | (w << 25)) ^ ((w >> 18) | (w << 14))) ^ (w >> 3)
}

/// Computes sigma_1 of a schedule word.
pub fn sigma_1(w: u32) -> (r: u32)
    ensures
        r == sigma_1_spec(w),
{
    (((w >> 17) | (w << 15)) ^ ((w >> 19) | (w << 13))) ^ (w >> 10)
}

/// Expands the 16 input words of one block into the full 64-word message
/// schedule.
pub fn expand_message(input: &Vec<u32>) -> (r: Vec<u32>)
    requires
        input@.len() == 16,
    ensures
        r@.len() == 64,
        forall|i: int| 0 <= i < 64 ==> r@[i] == schedule_word(input@, i),
{
    let mut w: Vec<u32> = Vec::new();
    let mut i: usize = 0;
    while i < 16
        invariant
            i <= 16,
            input@.len() == 16,
            w@.len() == i,
            forall|j: int| 0 <= j < i ==> w@[j] == schedule_word(input@, j),
        decreases 16 - i,
    {
        w.push(input[i]);
        i = i + 1;
    }
    while i < 64
        invariant
            16 <= i <= 64,
            input@.len() == 16,
            w@.len() == i,
            forall|j: int| 0 <= j < i ==> w@[j] == schedule_word(input@, j),
        decreases 64 - i,
    {
        let s1 = sigma_1(w[i - 2]);
        let s0 = sigma_0(w[i - 15]);
        let sum: u64 = s1 as u64 + w[i - 7] as u64 + s0 as u64 + w[i - 16] as u64;
        let word: u32 = (sum % 0x100000000) as u32;
        w.push(word);
        i = i + 1;
    }
    w
}

/// The spread-domain reduction witness of one sigma computation: the
/// even-bit planes carry the XOR result, the odd-bit planes the carry
/// residue to be discarded after validation.
pub struct SigmaWitness {
    pub r0_even: u16,
    pub r0_odd: u16,
    pub r1_even: u16,
    pub r1_odd: u16,
}

/// Splits the spread-space sum of the rotated operands into its even and
/// odd bit planes, for the low and high 32 spread bits.
pub fn reduce_spread_sum(total: u128) -> (r: SigmaWitness)
    ensures
        r.r0_even as int == even_bits_of(total as int % 0x100000000, 16),
        r.r0_odd as int == odd_bits_of(total as int % 0x100000000, 16),
        r.r1_even as int == even_bits_of((total as int / 0x100000000) % 0x100000000, 16),
        r.r1_odd as int == odd_bits_of((total as int / 0x100000000) % 0x100000000, 16),
{
    let low: u64 = (total % 0x100000000) as u64;
    let high: u64 = ((total / 0x100000000) % 0x100000000) as u64;
    let r0_even = crate::spread::compress_even_bits(low, 16);
    let r0_odd = crate::spread::compress_odd_bits(low, 16);
    let r1_even = crate::spread::compress_even_bits(high, 16);
    let r1_odd = crate::spread::compress_odd_bits(high, 16);
    proof {
        crate::spread::lemma_even_bits_bound(low as int, 16);
        crate::spread::lemma_even_bits_bound(low as int / 2, 16);
        crate::spread::lemma_even_bits_bound(high as int, 16);
        crate::spread::lemma_even_bits_bound(high as int / 2, 16);
        vstd::arithmetic::power2::lemma2_to64();
    }
    SigmaWitness {
        r0_even: r0_even as u16,
        r0_odd: r0_odd as u16,
        r1_even: r1_even as u16,
        r1_odd: r1_odd as u16,
    }
}

} // verus!
