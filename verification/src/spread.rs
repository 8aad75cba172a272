//! The spread encoding: a value's bits interleaved with zero bits, so that
//! adding spread values never carries across original bit positions, and
//! the tag buckets that partition the 16-bit dense domain for the lookup
//! table.

use vstd::prelude::*;
use vstd::arithmetic::power2::pow2;
use vstd::arithmetic::div_mod::lemma_breakdown;

verus! {

/// The low `n` bits of `x`, each moved from position `i` to position
/// `2 * i`, with zero bits in between.
pub open spec fn spread_bits(x: int, n: nat) -> int
    decreases n,
{
    if n == 0 {
        0
    } else {
        (x % 2) + 4 * spread_bits(x / 2, (n - 1) as nat)
    }
}

/// The bits of `x` at even positions `0, 2, ..., 2 * (n - 1)`, compressed
/// back to consecutive positions.
pub open spec fn even_bits_of(x: int, n: nat) -> int
    decreases n,
{
    if n == 0 {
        0
    } else {
        (x % 2) + 2 * even_bits_of(x / 4, (n - 1) as nat)
    }
}

/// The bits of `x` at odd positions, compressed to consecutive positions.
pub open spec fn odd_bits_of(x: int, n: nat) -> int {
    even_bits_of(x / 2, n)
}

/// The tag bucket of a 16-bit dense value: buckets end at the chunk widths
/// 7, 10, 11, 13 and 14 that the decompositions use.
pub open spec fn tag_of(v: int) -> int {
    if v < 0x80 {
        0
    } else if v < 0x400 {
        1
    } else if v < 0x800 {
        2
    } else if v < 0x2000 {
        3
    } else if v < 0x4000 {
        4
    } else {
        5
    }
}

/// The spread of `n` bits is nonnegative and below `2^(2n)`.
pub proof fn lemma_spread_bits_bound(x: int, n: nat)
    requires
        x >= 0,
    ensures
        0 <= spread_bits(x, n) < pow2(2 * n),
    decreases n,
{
    vstd::arithmetic::power2::lemma_pow2_pos(2 * n);
    if n == 0 {
    } else {
        lemma_spread_bits_bound(x / 2, (n - 1) as nat);
        vstd::arithmetic::power2::lemma_pow2_adds(2, 2 * (n - 1) as nat);
        assert(pow2(2) == 4) by {
            vstd::arithmetic::power2::lemma2_to64();
        }
        assert(x % 2 <= 1);
        assert(4 * spread_bits(x / 2, (n - 1) as nat) <= 4 * (pow2(2 * (n - 1) as nat) - 1))
            by (nonlinear_arith)
            requires
                spread_bits(x / 2, (n - 1) as nat) <= pow2(2 * (n - 1) as nat) - 1,
        ;
        assert(4 * spread_bits(x / 2, (n - 1) as nat) >= 0) by (nonlinear_arith)
            requires
                spread_bits(x / 2, (n - 1) as nat) >= 0,
        ;
    }
}

/// Compressing the even bits of a spread value recovers the original
/// low `n` bits: spreading is injective, and the tag derived through the
/// spread path is the tag of the dense value itself.
pub proof fn lemma_even_bits_of_spread(x: int, n: nat)
    requires
        x >= 0,
    ensures
        even_bits_of(spread_bits(x, n), n) == x % (pow2(n) as int),
    decreases n,
{
    vstd::arithmetic::power2::lemma_pow2_pos(n);
    if n == 0 {
        assert(pow2(0) == 1) by {
            vstd::arithmetic::power2::lemma2_to64();
        }
    } else {
        let s = spread_bits(x / 2, (n - 1) as nat);
        lemma_spread_bits_bound(x / 2, (n - 1) as nat);
        lemma_even_bits_of_spread(x / 2, (n - 1) as nat);
        // The low bit of the spread value is the low bit of x.
        assert((x % 2 + 4 * s) % 2 == x % 2) by (nonlinear_arith)
            requires
                s >= 0,
                0 <= x % 2 < 2,
        ;
        // Dividing by four drops that bit pair and leaves the tail spread.
        assert((x % 2 + 4 * s) / 4 == s) by (nonlinear_arith)
            requires
                s >= 0,
                0 <= x % 2 < 2,
        ;
        assert(even_bits_of(spread_bits(x, n), n) == x % 2 + 2 * ((x / 2) % (pow2(
            (n - 1) as nat,
        ) as int)));
        // Recomposing the low bit with the reduced tail gives x mod 2^n.
        vstd::arithmetic::power2::lemma_pow2_adds(1, (n - 1) as nat);
        assert(pow2(1) == 2) by {
            vstd::arithmetic::power2::lemma2_to64();
        }
        lemma_breakdown(x, 2, pow2((n - 1) as nat) as int);
    }
}

/// A spread word: a 16-bit dense value together with its tag bucket and
/// its 32-bit spread encoding, as the lookup table binds them.
#[derive(Clone, Copy, PartialEq, Eq, Structural, Debug)]
pub struct SpreadWord {
    pub tag: u8,
    pub dense: u16,
    pub spread: u32,
}

impl SpreadWord {
    /// The invariant the lookup table enforces on every row.
    pub open spec fn inv(self) -> bool {
        &&& self.spread == spread_bits(self.dense as int, 16)
        &&& self.tag == tag_of(self.dense as int)
    }
}

/// The tag bucket of a 16-bit dense value.
pub fn get_tag(input: u16) -> (r: u8)
    ensures
        r == tag_of(input as int),
{
    if input < 0x80 {
        0
    } else if input < 0x400 {
        1
    } else if input < 0x800 {
        2
    } else if input < 0x2000 {
        3
    } else if input < 0x4000 {
        4
    } else {
        5
    }
}

/// Interleaves the bits of a 16-bit word with zero bits, giving its
/// 32-bit spread encoding.
pub fn interleave_u16_with_zeros(word: u16) -> (r: u32)
    ensures
        r == spread_bits(word as int, 16),
{
    let mut acc: u64 = 0;
    let mut mult: u64 = 1;
    let mut rem: u64 = word as u64;
    let mut k: usize = 0;
    proof {
        vstd::arithmetic::power2::lemma2_to64();
        vstd::arithmetic::power2::lemma2_to64_rest();
    }
    while k < 16
        invariant
            k <= 16,
            mult == pow2(2 * k as nat),
            acc < mult,
            rem == word as int / (pow2(k as nat) as int),
            acc + mult * spread_bits(rem as int, (16 - k) as nat) == spread_bits(word as int, 16),
        decreases 16 - k,
    {
        proof {
            vstd::arithmetic::power2::lemma_pow2_adds(2 * k as nat, 2);
            vstd::arithmetic::power2::lemma_pow2_adds(k as nat, 1);
            vstd::arithmetic::power2::lemma2_to64();
            assert(pow2(2 * k as nat) <= pow2(32)) by {
                if (2 * k as nat) < 32 {
                    vstd::arithmetic::power2::lemma_pow2_strictly_increases(2 * k as nat, 32);
                }
            }
            vstd::arithmetic::power2::lemma2_to64_rest();
            let s = spread_bits(rem as int / 2, (15 - k) as nat);
            lemma_spread_bits_bound(rem as int / 2, (15 - k) as nat);
            assert(spread_bits(rem as int, (16 - k) as nat) == rem as int % 2 + 4 * s);
            assert(acc + mult * (rem as int % 2) + (4 * mult) * s == acc + mult * (rem as int % 2
                + 4 * s)) by (nonlinear_arith);
            vstd::arithmetic::div_mod::lemma_div_denominator(word as int, pow2(k as nat) as int, 2);
            assert(mult * (rem as int % 2) <= mult && (rem as int % 2) * mult <= mult)
                by (nonlinear_arith)
                requires
                    mult >= 0,
                    0 <= rem as int % 2 < 2,
            ;
        }
        acc = acc + (rem % 2) * mult;
        mult = mult * 4;
        rem = rem / 2;
        k = k + 1;
    }
    proof {
        assert(spread_bits(rem as int, 0) == 0);
        assert(acc + mult * 0 == acc) by (nonlinear_arith);
        lemma_spread_bits_bound(word as int, 16);
        vstd::arithmetic::power2::lemma2_to64_rest();
        assert(pow2(32) == 0x100000000);
    }
    acc as u32
}

/// Compresses the bits at even positions of the low `2 * n` bits of `x`
/// back to consecutive positions.
pub fn compress_even_bits(x: u64, n: usize) -> (r: u64)
    requires
        n <= 32,
    ensures
        r == even_bits_of(x as int, n as nat),
{
    let mut acc: u64 = 0;
    let mut mult: u64 = 1;
    let mut rem: u64 = x;
    let mut k: usize = 0;
    proof {
        vstd::arithmetic::power2::lemma2_to64();
    }
    while k < n
        invariant
            k <= n <= 32,
            mult == pow2(k as nat),
            acc < mult,
            acc + mult * even_bits_of(rem as int, (n - k) as nat) == even_bits_of(
                x as int,
                n as nat,
            ),
        decreases n - k,
    {
        proof {
            vstd::arithmetic::power2::lemma_pow2_adds(k as nat, 1);
            vstd::arithmetic::power2::lemma2_to64();
            assert(pow2(k as nat) <= pow2(32)) by {
                if (k as nat) < 32 {
                    vstd::arithmetic::power2::lemma_pow2_strictly_increases(k as nat, 32);
                }
            }
            vstd::arithmetic::power2::lemma2_to64_rest();
            let e = even_bits_of(rem as int / 4, (n - k - 1) as nat);
            lemma_even_bits_nonneg(rem as int / 4, (n - k - 1) as nat);
            assert(even_bits_of(rem as int, (n - k) as nat) == rem as int % 2 + 2 * e);
            assert(acc + mult * (rem as int % 2) + (2 * mult) * e == acc + mult * (rem as int % 2
                + 2 * e)) by (nonlinear_arith);
            assert(mult * (rem as int % 2) <= mult && (rem as int % 2) * mult <= mult)
                by (nonlinear_arith)
                requires
                    mult >= 0,
                    0 <= rem as int % 2 < 2,
            ;
        }
        acc = acc + (rem % 2) * mult;
        mult = mult * 2;
        rem = rem / 4;
        k = k + 1;
    }
    proof {
        assert(even_bits_of(rem as int, 0) == 0);
        assert(acc + mult * 0 == acc) by (nonlinear_arith);
    }
    acc
}

/// Compresses the bits at odd positions, the carry residue of a spread
/// sum.
pub fn compress_odd_bits(x: u64, n: usize) -> (r: u64)
    requires
        n <= 32,
    ensures
        r == odd_bits_of(x as int, n as nat),
{
    compress_even_bits(x / 2, n)
}

/// The even-bit compression of `n` bit pairs is below `2^n`.
pub proof fn lemma_even_bits_bound(x: int, n: nat)
    requires
        x >= 0,
    ensures
        0 <= even_bits_of(x, n) < pow2(n),
    decreases n,
{
    vstd::arithmetic::power2::lemma_pow2_pos(n);
    if n == 0 {
    } else {
        lemma_even_bits_bound(x / 4, (n - 1) as nat);
        vstd::arithmetic::power2::lemma_pow2_adds(1, (n - 1) as nat);
        assert(pow2(1) == 2) by {
            vstd::arithmetic::power2::lemma2_to64();
        }
        assert(2 * even_bits_of(x / 4, (n - 1) as nat) <= 2 * (pow2((n - 1) as nat) - 1))
            by (nonlinear_arith)
            requires
                even_bits_of(x / 4, (n - 1) as nat) <= pow2((n - 1) as nat) - 1,
        ;
        assert(2 * even_bits_of(x / 4, (n - 1) as nat) >= 0) by (nonlinear_arith)
            requires
                even_bits_of(x / 4, (n - 1) as nat) >= 0,
        ;
    }
}

/// The even-bit compression is nonnegative.
pub proof fn lemma_even_bits_nonneg(x: int, n: nat)
    requires
        x >= 0,
    ensures
        0 <= even_bits_of(x, n),
    decreases n,
{
    if n == 0 {
    } else {
        lemma_even_bits_nonneg(x / 4, (n - 1) as nat);
        assert(2 * even_bits_of(x / 4, (n - 1) as nat) >= 0) by (nonlinear_arith)
            requires
                even_bits_of(x / 4, (n - 1) as nat) >= 0,
        ;
    }
}

/// Builds the validated spread word of a 16-bit dense value.
pub fn spread_word(dense: u16) -> (r: SpreadWord)
    ensures
        r.inv(),
        r.dense == dense,
{
    SpreadWord { tag: get_tag(dense), dense, spread: interleave_u16_with_zeros(dense) }
}

/// Tag assignment is a pure function of the dense value, independent of
/// the path taken: recovering the dense value from its spread encoding
/// and bucketing it gives the bucket of the dense value itself.
pub proof fn lemma_tag_path_independent(d: u16)
    ensures
        tag_of(even_bits_of(spread_bits(d as int, 16), 16)) == tag_of(d as int),
{
    lemma_even_bits_of_spread(d as int, 16);
    vstd::arithmetic::power2::lemma2_to64();
    assert(pow2(16) == 0x10000);
    assert(d as int % 0x10000 == d as int) by {
        vstd::arithmetic::div_mod::lemma_small_mod(d as nat, 0x10000);
    }
}

} // verus!
