//! Prime-field element the polynomial identities are built over.
//!
//! The modulus is the 64-bit proving-system prime 2^64 - 2^32 + 1.  Every
//! constant the identities embed (powers of two up to 2^62, factorials up
//! to 8!, spread-table entries below 2^32) is below the modulus, so those
//! small integers embed injectively.

use vstd::prelude::*;
use vstd::arithmetic::div_mod::lemma_small_mod;

verus! {

/// The field modulus: 2^64 - 2^32 + 1.
pub const MODULUS: u64 = 0xFFFF_FFFF_0000_0001;

/// The field modulus as a spec-level integer.
pub open spec fn modulus() -> int {
    0xFFFF_FFFF_0000_0001
}

/// Field addition on canonical representatives.
pub open spec fn fadd(a: int, b: int) -> int {
    (a + b) % modulus()
}

/// Field multiplication on canonical representatives.
pub open spec fn fmul(a: int, b: int) -> int {
    (a * b) % modulus()
}

/// Field negation on canonical representatives.
pub open spec fn fneg(a: int) -> int {
    (-a) % modulus()
}

/// Field subtraction on canonical representatives.
pub open spec fn fsub(a: int, b: int) -> int {
    (a - b) % modulus()
}

/// Addition of small values needs no reduction.
pub proof fn lemma_fadd_small(a: int, b: int)
    requires
        0 <= a,
        0 <= b,
        a + b < modulus(),
    ensures
        fadd(a, b) == a + b,
{
    lemma_small_mod((a + b) as nat, modulus() as nat);
}

/// Multiplication of small values needs no reduction.
pub proof fn lemma_fmul_small(a: int, b: int)
    requires
        0 <= a * b < modulus(),
    ensures
        fmul(a, b) == a * b,
{
    lemma_small_mod((a * b) as nat, modulus() as nat);
}

/// Adding a negation subtracts.
pub proof fn lemma_fadd_fneg(a: int, b: int)
    ensures
        fadd(a, fneg(b)) == (a - b) % modulus(),
{
    vstd::arithmetic::div_mod::lemma_add_mod_noop_right(a, -b, modulus());
}

/// The difference of two canonical representatives vanishes in the field
/// exactly when they are equal.
pub proof fn lemma_small_diff_zero(x: int, y: int)
    requires
        0 <= x < modulus(),
        0 <= y < modulus(),
    ensures
        ((x - y) % modulus() == 0) <==> x == y,
{
    if x >= y {
        lemma_small_mod((x - y) as nat, modulus() as nat);
    } else {
        vstd::arithmetic::div_mod::lemma_mod_add_multiples_vanish(x - y, modulus());
        lemma_small_mod((x - y + modulus()) as nat, modulus() as nat);
    }
}

/// A prime-field element, stored as its canonical representative.
#[derive(Clone, Copy, PartialEq, Eq, Structural, Debug)]
pub struct Fp {
    pub rep: u64,
}

impl Fp {
    /// The canonical representative is reduced.
    pub open spec fn inv(self) -> bool {
        self.rep < modulus()
    }

    /// The integer this element stands for.
    pub open spec fn as_int(self) -> int {
        self.rep as int
    }

    /// The additive identity.
    pub fn zero() -> (r: Fp)
        ensures
            r.inv(),
            r.as_int() == 0,
    {
        Fp { rep: 0 }
    }

    /// The multiplicative identity.
    pub fn one() -> (r: Fp)
        ensures
            r.inv(),
            r.as_int() == 1,
    {
        Fp { rep: 1 }
    }

    /// Embeds a machine integer, reducing it modulo the field characteristic.
    pub fn from_small(x: u64) -> (r: Fp)
        ensures
            r.inv(),
            r.as_int() == x as int % modulus(),
            x < MODULUS ==> r.as_int() == x as int,
    {
        proof {
            if x < MODULUS {
                lemma_small_mod(x as nat, MODULUS as nat);
            }
        }
        Fp { rep: x % MODULUS }
    }

    /// Field addition.
    pub fn plus(self, other: Fp) -> (r: Fp)
        ensures
            r.inv(),
            r.as_int() == fadd(self.as_int(), other.as_int()),
    {
        let s: u128 = self.rep as u128 + other.rep as u128;
        let m: u128 = s % (MODULUS as u128);
        Fp { rep: m as u64 }
    }

    /// Field multiplication.
    pub fn times(self, other: Fp) -> (r: Fp)
        ensures
            r.inv(),
            r.as_int() == fmul(self.as_int(), other.as_int()),
    {
        proof {
            vstd::arithmetic::mul::lemma_mul_upper_bound(
                self.rep as int,
                u64::MAX as int,
                other.rep as int,
                u64::MAX as int,
            );
        }
        let p: u128 = self.rep as u128 * other.rep as u128;
        let m: u128 = p % (MODULUS as u128);
        Fp { rep: m as u64 }
    }

    /// Field negation.
    pub fn negate(self) -> (r: Fp)
        requires
            self.inv(),
        ensures
            r.inv(),
            r.as_int() == fneg(self.as_int()),
    {
        if self.rep == 0 {
            Fp { rep: 0 }
        } else {
            proof {
                assert((-(self.rep as int)) % modulus() == modulus() - self.rep as int) by {
                    vstd::arithmetic::div_mod::lemma_mod_add_multiples_vanish(
                        -(self.rep as int),
                        modulus(),
                    );
                    lemma_small_mod((modulus() - self.rep as int) as nat, modulus() as nat);
                }
            }
            Fp { rep: MODULUS - self.rep }
        }
    }
}

} // verus!
