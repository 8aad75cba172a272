//! The laws the polynomial identities obey: each public proof function
//! states one property of an identity, over the same spec functions that
//! appear in the contracts of its constructor.

use vstd::prelude::*;
use vstd::arithmetic::div_mod::{
    lemma_mul_mod_noop_general, lemma_small_mod, lemma_mod_add_multiples_vanish, lemma_mod_bound,
};
use vstd::arithmetic::mul::{lemma_mul_by_zero_is_zero, lemma_mul_nonzero};
use crate::field::{
    fadd, fmul, fneg, modulus, lemma_fadd_small, lemma_fadd_fneg, lemma_small_diff_zero,
};
use crate::gates::{
    range_poly, decompose_0_poly, decompose_1_poly, decompose_2_poly, decompose_3_poly,
    s_word_poly,
};

verus! {

/// The range-check product over the integers, before reduction.
pub open spec fn range_prod_int(v: int, lo: int, hi: int) -> int
    decreases hi + 1 - lo,
{
    if hi < lo {
        1
    } else {
        range_prod_int(v, lo, hi - 1) * (v - hi)
    }
}

/// The field range-check polynomial is the integer product, reduced.
pub proof fn lemma_range_poly_as_int(v: int, lo: int, hi: int)
    ensures
        range_poly(v, lo, hi) == range_prod_int(v, lo, hi) % modulus(),
    decreases hi + 1 - lo,
{
    if hi < lo {
        lemma_small_mod(1nat, modulus() as nat);
    } else {
        lemma_range_poly_as_int(v, lo, hi - 1);
        lemma_mul_mod_noop_general(range_prod_int(v, lo, hi - 1), v - hi, modulus());
    }
}

/// Congruent arguments give congruent range products.
pub proof fn lemma_range_prod_congruent(a: int, b: int, lo: int, hi: int)
    requires
        a % modulus() == b % modulus(),
    ensures
        range_prod_int(a, lo, hi) % modulus() == range_prod_int(b, lo, hi) % modulus(),
    decreases hi + 1 - lo,
{
    if hi < lo {
    } else {
        lemma_range_prod_congruent(a, b, lo, hi - 1);
        vstd::arithmetic::div_mod::lemma_sub_mod_noop(a, hi, modulus());
        vstd::arithmetic::div_mod::lemma_sub_mod_noop(b, hi, modulus());
        assert((a - hi) % modulus() == (b - hi) % modulus());
        lemma_mul_mod_noop_general(range_prod_int(a, lo, hi - 1), a - hi, modulus());
        lemma_mul_mod_noop_general(range_prod_int(b, lo, hi - 1), b - hi, modulus());
    }
}

/// If `v` lies in `[lo, hi]`, one factor vanishes and so does the product.
pub proof fn lemma_range_prod_zero(v: int, lo: int, hi: int)
    requires
        lo <= v <= hi,
    ensures
        range_prod_int(v, lo, hi) == 0,
    decreases hi + 1 - lo,
{
    if v == hi {
        lemma_mul_by_zero_is_zero(range_prod_int(v, lo, hi - 1));
    } else {
        lemma_range_prod_zero(v, lo, hi - 1);
        lemma_mul_by_zero_is_zero(v - hi);
    }
}

/// If `v` lies outside `[lo, hi]` with every factor bounded, the product
/// is a nonzero integer of magnitude at most `bound^(hi - lo + 1)`.
pub proof fn lemma_range_prod_nonzero(v: int, lo: int, hi: int, bound: int)
    requires
        bound >= 1,
        v < lo || v > hi,
        -bound <= v - hi,
        v - lo <= bound,
    ensures
        range_prod_int(v, lo, hi) != 0,
        -pow_int(bound, (hi + 1 - lo) as nat) <= range_prod_int(v, lo, hi) <= pow_int(
            bound,
            (hi + 1 - lo) as nat,
        ),
    decreases hi + 1 - lo,
{
    if hi < lo {
        lemma_pow_int_pos(bound, (hi + 1 - lo) as nat);
    } else {
        lemma_range_prod_nonzero(v, lo, hi - 1, bound);
        let p = range_prod_int(v, lo, hi - 1);
        let b = pow_int(bound, (hi - lo) as nat);
        lemma_pow_int_pos(bound, (hi - lo) as nat);
        lemma_mul_nonzero(p, v - hi);
        assert(pow_int(bound, (hi + 1 - lo) as nat) == bound * b);
        assert(-(bound * b) <= p * (v - hi) <= bound * b) by (nonlinear_arith)
            requires
                -b <= p <= b,
                -bound <= v - hi <= bound,
                b >= 0,
                bound >= 1,
        ;
    }
}

/// Integer powers of a positive base are positive.
pub proof fn lemma_pow_int_pos(b: int, n: nat)
    requires
        b >= 1,
    ensures
        pow_int(b, n) >= 1,
    decreases n,
{
    if n > 0 {
        lemma_pow_int_pos(b, (n - 1) as nat);
        assert(b * pow_int(b, (n - 1) as nat) >= 1) by (nonlinear_arith)
            requires
                b >= 1,
                pow_int(b, (n - 1) as nat) >= 1,
        ;
    }
}

/// Integer powers, for bounding the range products.
pub open spec fn pow_int(b: int, n: nat) -> int
    decreases n,
{
    if n == 0 {
        1
    } else {
        b * pow_int(b, (n - 1) as nat)
    }
}

/// A nonzero integer of magnitude below the modulus does not vanish when
/// reduced.
pub proof fn lemma_small_nonzero_mod(x: int)
    requires
        x != 0,
        -modulus() < x < modulus(),
    ensures
        x % modulus() != 0,
{
    if x > 0 {
        lemma_small_mod(x as nat, modulus() as nat);
    } else {
        lemma_mod_add_multiples_vanish(x, modulus());
        lemma_small_mod((x + modulus()) as nat, modulus() as nat);
    }
}

/// The range check is exact: for any integer `j` within three of the
/// window `[lo, hi]`, the polynomial evaluated at the field embedding of
/// `j` vanishes exactly when `j` lies inside the window.
pub proof fn lemma_range_check_window(j: int, lo: int, hi: int)
    requires
        0 <= lo <= hi,
        hi - lo <= 12,
        lo - 3 <= j <= hi + 3,
        hi + 3 < 65536,
    ensures
        (range_poly(j % modulus(), lo, hi) == 0) <==> (lo <= j <= hi),
{
    lemma_range_poly_as_int(j % modulus(), lo, hi);
    lemma_mod_bound(j, modulus());
    vstd::arithmetic::div_mod::lemma_mod_twice(j, modulus());
    lemma_range_prod_congruent(j % modulus(), j, lo, hi);
    if lo <= j <= hi {
        lemma_range_prod_zero(j, lo, hi);
    } else {
        lemma_range_prod_nonzero(j, lo, hi, 15);
        lemma_pow15_bound((hi + 1 - lo) as nat);
        lemma_small_nonzero_mod(range_prod_int(j, lo, hi));
    }
}

/// A selector value of one passes the gated polynomial through.
pub proof fn lemma_selector_one(p: int)
    requires
        0 <= p < modulus(),
    ensures
        fmul(1, p) == p,
{
    lemma_small_mod(p as nat, modulus() as nat);
}

/// The (16, 16) decomposition identity is exact: it vanishes precisely
/// when the weighted chunk sum reconstructs the word.
pub proof fn lemma_decompose_0_exact(lo: int, hi: int, word: int)
    requires
        0 <= lo,
        0 <= hi,
        lo + hi * 0x10000 < modulus(),
        0 <= word < modulus(),
    ensures
        (decompose_0_poly(lo, hi, word) == 0) <==> (word == lo + hi * 0x10000),
{
    let s = lo + hi * 0x10000;
    crate::field::lemma_fmul_small(hi, 0x10000);
    lemma_fadd_small(lo, hi * 0x10000);
    lemma_fadd_fneg(s, word);
    lemma_small_diff_zero(s, word);
}

/// The (3, 4, 11, 14) decomposition identity is exact.
pub proof fn lemma_decompose_1_exact(a: int, b: int, c: int, d: int, word: int)
    requires
        0 <= a,
        0 <= b,
        0 <= c,
        0 <= d,
        a + b * 0x8 + c * 0x80 + d * 0x40000 < modulus(),
        0 <= word < modulus(),
    ensures
        (decompose_1_poly(a, b, c, d, word) == 0) <==> (word == a + b * 0x8 + c * 0x80 + d
            * 0x40000),
{
    let s = a + b * 0x8 + c * 0x80 + d * 0x40000;
    crate::field::lemma_fmul_small(b, 0x8);
    crate::field::lemma_fmul_small(c, 0x80);
    crate::field::lemma_fmul_small(d, 0x40000);
    lemma_fadd_small(a, b * 0x8);
    lemma_fadd_small(a + b * 0x8, c * 0x80);
    lemma_fadd_small(a + b * 0x8 + c * 0x80, d * 0x40000);
    lemma_fadd_fneg(s, word);
    lemma_small_diff_zero(s, word);
}

/// The (3, 4, 3, 7, 1, 1, 13) decomposition identity is exact.
pub proof fn lemma_decompose_2_exact(
    a: int,
    b: int,
    c: int,
    d: int,
    e: int,
    f: int,
    g: int,
    word: int,
)
    requires
        0 <= a,
        0 <= b,
        0 <= c,
        0 <= d,
        0 <= e,
        0 <= f,
        0 <= g,
        a + b * 0x8 + c * 0x80 + d * 0x400 + e * 0x20000 + f * 0x40000 + g * 0x80000 < modulus(),
        0 <= word < modulus(),
    ensures
        (decompose_2_poly(a, b, c, d, e, f, g, word) == 0) <==> (word == a + b * 0x8 + c * 0x80 + d
            * 0x400 + e * 0x20000 + f * 0x40000 + g * 0x80000),
{
    let s = a + b * 0x8 + c * 0x80 + d * 0x400 + e * 0x20000 + f * 0x40000 + g * 0x80000;
    crate::field::lemma_fmul_small(b, 0x8);
    crate::field::lemma_fmul_small(c, 0x80);
    crate::field::lemma_fmul_small(d, 0x400);
    crate::field::lemma_fmul_small(e, 0x20000);
    crate::field::lemma_fmul_small(f, 0x40000);
    crate::field::lemma_fmul_small(g, 0x80000);
    lemma_fadd_small(a, b * 0x8);
    lemma_fadd_small(a + b * 0x8, c * 0x80);
    lemma_fadd_small(a + b * 0x8 + c * 0x80, d * 0x400);
    lemma_fadd_small(a + b * 0x8 + c * 0x80 + d * 0x400, e * 0x20000);
    lemma_fadd_small(a + b * 0x8 + c * 0x80 + d * 0x400 + e * 0x20000, f * 0x40000);
    lemma_fadd_small(a + b * 0x8 + c * 0x80 + d * 0x400 + e * 0x20000 + f * 0x40000, g * 0x80000);
    lemma_fadd_fneg(s, word);
    lemma_small_diff_zero(s, word);
}

/// The (10, 7, 2, 13) decomposition identity is exact.
pub proof fn lemma_decompose_3_exact(a: int, b: int, c: int, d: int, word: int)
    requires
        0 <= a,
        0 <= b,
        0 <= c,
        0 <= d,
        a + b * 0x400 + c * 0x20000 + d * 0x80000 < modulus(),
        0 <= word < modulus(),
    ensures
        (decompose_3_poly(a, b, c, d, word) == 0) <==> (word == a + b * 0x400 + c * 0x20000 + d
            * 0x80000),
{
    let s = a + b * 0x400 + c * 0x20000 + d * 0x80000;
    crate::field::lemma_fmul_small(b, 0x400);
    crate::field::lemma_fmul_small(c, 0x20000);
    crate::field::lemma_fmul_small(d, 0x80000);
    lemma_fadd_small(a, b * 0x400);
    lemma_fadd_small(a + b * 0x400, c * 0x20000);
    lemma_fadd_small(a + b * 0x400 + c * 0x20000, d * 0x80000);
    lemma_fadd_fneg(s, word);
    lemma_small_diff_zero(s, word);
}

/// Reduces the word-assembly polynomial to its two summands: the reduced
/// linear word check and the carry range check.
proof fn lemma_s_word_poly_form(
    s0l: int,
    s1l: int,
    w7l: int,
    w16l: int,
    s0h: int,
    s1h: int,
    w7h: int,
    w16h: int,
    word: int,
    carry: int,
)
    requires
        0 <= s0l < 0x10000,
        0 <= s1l < 0x10000,
        0 <= w7l < 0x10000,
        0 <= w16l < 0x10000,
        0 <= s0h < 0x10000,
        0 <= s1h < 0x10000,
        0 <= w7h < 0x10000,
        0 <= w16h < 0x10000,
        0 <= word < modulus(),
        0 <= carry < modulus(),
    ensures
        s_word_poly(s0l, s1l, w7l, w16l, s0h, s1h, w7h, w16h, word, carry) == fadd(
            ((s0l + s1l + w7l + w16l) + (s0h + s1h + w7h + w16h) * 0x10000 - word - carry
                * 0x100000000) % modulus(),
            range_poly(carry, 0, 3),
        ),
{
    let lo = s0l + s1l + w7l + w16l;
    let hi = s0h + s1h + w7h + w16h;
    lemma_fadd_small(s0l, s1l);
    lemma_fadd_small(s0l + s1l, w7l);
    lemma_fadd_small(s0l + s1l + w7l, w16l);
    lemma_fadd_small(s0h, s1h);
    lemma_fadd_small(s0h + s1h, w7h);
    lemma_fadd_small(s0h + s1h + w7h, w16h);
    crate::field::lemma_fmul_small(hi, 0x10000);
    lemma_fadd_small(lo, hi * 0x10000);
    let s = lo + hi * 0x10000;
    lemma_fadd_fneg(s, word);
    // The negated scaled carry reduces to the congruent integer term.
    vstd::arithmetic::div_mod::lemma_mul_mod_noop_left(-carry, 0x100000000, modulus());
    assert(fmul(fneg(carry), 0x100000000) == (-carry * 0x100000000) % modulus());
    vstd::arithmetic::div_mod::lemma_add_mod_noop((s - word), -carry * 0x100000000, modulus());
    assert(fadd((s - word) % modulus(), (-carry * 0x100000000) % modulus()) == (s - word - carry
        * 0x100000000) % modulus());
}

/// The word-assembly identity is exact: with an in-range carry, it
/// vanishes precisely when the word plus the carried multiple of 2^32
/// equals the two 16-bit partial sums recombined.
pub proof fn lemma_s_word_exact(
    s0l: int,
    s1l: int,
    w7l: int,
    w16l: int,
    s0h: int,
    s1h: int,
    w7h: int,
    w16h: int,
    word: int,
    carry: int,
)
    requires
        0 <= s0l < 0x10000,
        0 <= s1l < 0x10000,
        0 <= w7l < 0x10000,
        0 <= w16l < 0x10000,
        0 <= s0h < 0x10000,
        0 <= s1h < 0x10000,
        0 <= w7h < 0x10000,
        0 <= w16h < 0x10000,
        0 <= word < 0x100000000,
        0 <= carry <= 3,
    ensures
        (s_word_poly(s0l, s1l, w7l, w16l, s0h, s1h, w7h, w16h, word, carry) == 0) <==> (word
            + carry * 0x100000000 == (s0l + s1l + w7l + w16l) + (s0h + s1h + w7h + w16h)
            * 0x10000),
{
    let lo = s0l + s1l + w7l + w16l;
    let hi = s0h + s1h + w7h + w16h;
    let s = lo + hi * 0x10000;
    lemma_s_word_poly_form(s0l, s1l, w7l, w16l, s0h, s1h, w7h, w16h, word, carry);
    lemma_small_mod(carry as nat, modulus() as nat);
    lemma_range_check_window(carry, 0, 3);
    let d = s - word - carry * 0x100000000;
    lemma_mod_bound(d, modulus());
    vstd::arithmetic::div_mod::lemma_mod_twice(d, modulus());
    lemma_small_mod((d % modulus()) as nat, modulus() as nat);
    assert(fadd(d % modulus(), 0) == d % modulus());
    if d == 0 {
    } else {
        lemma_small_nonzero_mod(d);
    }
}

/// With the honest word value, an out-of-range carry of four, or the
/// field embedding of minus one, leaves the identity nonzero.
pub proof fn lemma_s_word_bad_carry(
    s0l: int,
    s1l: int,
    w7l: int,
    w16l: int,
    s0h: int,
    s1h: int,
    w7h: int,
    w16h: int,
    word: int,
)
    requires
        0 <= s0l < 0x10000,
        0 <= s1l < 0x10000,
        0 <= w7l < 0x10000,
        0 <= w16l < 0x10000,
        0 <= s0h < 0x10000,
        0 <= s1h < 0x10000,
        0 <= w7h < 0x10000,
        0 <= w16h < 0x10000,
        word == ((s0l + s1l + w7l + w16l) + (s0h + s1h + w7h + w16h) * 0x10000) % 0x100000000,
    ensures
        s_word_poly(s0l, s1l, w7l, w16l, s0h, s1h, w7h, w16h, word, 4) != 0,
        s_word_poly(s0l, s1l, w7l, w16l, s0h, s1h, w7h, w16h, word, modulus() - 1) != 0,
{
    let lo = s0l + s1l + w7l + w16l;
    let hi = s0h + s1h + w7h + w16h;
    let s = lo + hi * 0x10000;
    vstd::arithmetic::div_mod::lemma_fundamental_div_mod(s, 0x100000000);
    let k = s / 0x100000000;
    assert(0 <= k <= 3) by {
        vstd::arithmetic::div_mod::lemma_div_pos_is_pos(s, 0x100000000);
        assert(s < 4 * 0x100000000);
        if k >= 4 {
            vstd::arithmetic::div_mod::lemma_fundamental_div_mod_converse(
                s,
                0x100000000,
                k,
                s - k * 0x100000000,
            );
            assert(k * 0x100000000 >= 4 * 0x100000000) by (nonlinear_arith)
                requires
                    k >= 4,
            ;
        }
    }
    assert(s - word == k * 0x100000000);
    // The range product at four, and at minus one, is twenty-four.
    reveal_with_fuel(range_prod_int, 6);
    assert(range_prod_int(4, 0, 3) == 24);
    lemma_range_poly_as_int(4, 0, 3);
    lemma_small_mod(24nat, modulus() as nat);
    assert(range_poly(4, 0, 3) == 24);
    assert(range_prod_int(-1, 0, 3) == 24);
    lemma_range_poly_as_int(modulus() - 1, 0, 3);
    lemma_range_prod_congruent(modulus() - 1, -1, 0, 3);
    assert((modulus() - 1) % modulus() == (-1) % modulus()) by {
        lemma_small_mod((modulus() - 1) as nat, modulus() as nat);
        lemma_mod_add_multiples_vanish(-1, modulus());
    }
    assert(range_poly(modulus() - 1, 0, 3) == 24);
    // Carry four: the word check is short of the sum by at least one
    // multiple of 2^32, which twenty-four cannot make up.
    lemma_s_word_poly_form(s0l, s1l, w7l, w16l, s0h, s1h, w7h, w16h, word, 4);
    let d4 = s - word - 4 * 0x100000000;
    assert(d4 == (k - 4) * 0x100000000) by (nonlinear_arith)
        requires
            s - word == k * 0x100000000,
            d4 == s - word - 4 * 0x100000000,
    ;
    assert(-modulus() < d4 + 24 < 0) by (nonlinear_arith)
        requires
            d4 == (k - 4) * 0x100000000,
            0 <= k <= 3,
    ;
    lemma_mod_add_multiples_vanish(d4, modulus());
    lemma_small_mod((d4 + modulus()) as nat, modulus() as nat);
    assert(s_word_poly(s0l, s1l, w7l, w16l, s0h, s1h, w7h, w16h, word, 4) == fadd(
        d4 + modulus(),
        24,
    ));
    lemma_fadd_small(d4 + modulus(), 24);
    // Carry minus one: the word check overshoots by at least one multiple
    // of 2^32.
    lemma_s_word_poly_form(s0l, s1l, w7l, w16l, s0h, s1h, w7h, w16h, word, modulus() - 1);
    let dm = s - word - (modulus() - 1) * 0x100000000;
    assert(dm % modulus() == ((k + 1) * 0x100000000) % modulus()) by {
        assert(dm == (k + 1) * 0x100000000 - modulus() * 0x100000000) by (nonlinear_arith)
            requires
                s - word == k * 0x100000000,
                dm == s - word - (modulus() - 1) * 0x100000000,
        ;
        vstd::arithmetic::div_mod::lemma_mod_multiples_vanish(
            -0x100000000,
            (k + 1) * 0x100000000,
            modulus(),
        );
    }
    assert(0 < (k + 1) * 0x100000000 < modulus() - 24) by (nonlinear_arith)
        requires
            0 <= k <= 3,
    ;
    lemma_small_mod(((k + 1) * 0x100000000) as nat, modulus() as nat);
    lemma_fadd_small((k + 1) * 0x100000000, 24);
    assert(s_word_poly(s0l, s1l, w7l, w16l, s0h, s1h, w7h, w16h, word, modulus() - 1) == (k + 1)
        * 0x100000000 + 24);
}

/// At a sample point other than the skipped one, the skip product
/// contains a vanishing factor.
proof fn lemma_prod_skip_zero(v: int, skip: int, upto: nat)
    requires
        0 <= v < upto,
        v != skip,
    ensures
        crate::gates::prod_skip(v, skip, upto) == 0,
    decreases upto,
{
    if upto - 1 == v {
        lemma_mul_by_zero_is_zero(crate::gates::prod_skip(v, skip, (upto - 1) as nat));
    } else {
        lemma_prod_skip_zero(v, skip, (upto - 1) as nat);
        if upto - 1 != skip {
            lemma_mul_by_zero_is_zero(v - (upto - 1));
        }
    }
}

/// Every interpolation term lies in the field.
proof fn lemma_lagrange_term_bound(v: int, evals: Seq<u32>, i: int)
    ensures
        0 <= crate::gates::lagrange_term(v, evals, i) < modulus(),
{
    lemma_mod_bound(
        ((crate::gates::prod_skip(v, i, evals.len()) % modulus()) * (evals[i] as int)) % modulus()
            * (crate::gates::lagrange_coef(i, evals.len()) % modulus()),
        modulus(),
    );
}

/// Evaluated at the sample point `k`, the interpolation sum collapses to
/// its `k`-th term: every other term contains a vanishing factor.
proof fn lemma_lagrange_sum_collapse(k: int, evals: Seq<u32>, upto: nat)
    requires
        0 <= k < evals.len(),
    ensures
        crate::gates::lagrange_sum(k, evals, upto) == if k < upto {
            crate::gates::lagrange_term(k, evals, k)
        } else {
            0
        },
    decreases upto,
{
    if upto == 0 {
    } else {
        lemma_lagrange_sum_collapse(k, evals, (upto - 1) as nat);
        let t = crate::gates::lagrange_term(k, evals, k);
        lemma_lagrange_term_bound(k, evals, k);
        if upto - 1 == k {
            lemma_small_mod(t as nat, modulus() as nat);
        } else {
            lemma_prod_skip_zero(k, upto - 1, evals.len() as nat);
            assert(crate::gates::lagrange_term(k, evals, upto - 1) == 0) by {
                lemma_small_mod(0nat, modulus() as nat);
                lemma_mul_by_zero_is_zero(evals[upto - 1] as int);
                assert(fmul(0, evals[upto - 1] as int) == 0);
                lemma_mul_by_zero_is_zero(
                    crate::gates::lagrange_coef(upto - 1, evals.len()) % modulus(),
                );
                assert(fmul(0, crate::gates::lagrange_coef(upto - 1, evals.len()) % modulus())
                    == 0);
            }
            if k < upto - 1 {
                lemma_small_mod(t as nat, modulus() as nat);
            } else {
                lemma_small_mod(0nat, modulus() as nat);
            }
        }
    }
}

/// The interpolation property at a sample point: given the exactness of
/// the coefficient division, the sum evaluates to the factor times the
/// sample value.
proof fn lemma_lagrange_interp_at(k: int, evals: Seq<u32>)
    requires
        0 <= k < evals.len(),
        crate::gates::lagrange_coef(k, evals.len()) * crate::gates::prod_skip(
            k,
            k,
            evals.len(),
        ) == crate::gates::fact(evals.len()),
    ensures
        crate::gates::lagrange_sum(k, evals, evals.len()) == fmul(
            crate::gates::fact(evals.len()) as int,
            evals[k] as int,
        ),
{
    let n = evals.len();
    let pk = crate::gates::prod_skip(k, k, n);
    let c = crate::gates::lagrange_coef(k, n);
    let e = evals[k] as int;
    lemma_lagrange_sum_collapse(k, evals, n);
    vstd::arithmetic::div_mod::lemma_mul_mod_noop_left(pk, e, modulus());
    lemma_mul_mod_noop_general(pk * e, c, modulus());
    assert((pk * e) * c == crate::gates::fact(n) as int * e) by (nonlinear_arith)
        requires
            c * pk == crate::gates::fact(n) as int,
    ;
}

/// The denominators and coefficients of the 4-point interpolation.
proof fn lemma_coef4()
    ensures
        crate::gates::prod_skip(0, 0, 4) == -6,
        crate::gates::lagrange_coef(0, 4) == -4,
        crate::gates::prod_skip(1, 1, 4) == 2,
        crate::gates::lagrange_coef(1, 4) == 12,
        crate::gates::prod_skip(2, 2, 4) == -2,
        crate::gates::lagrange_coef(2, 4) == -12,
        crate::gates::prod_skip(3, 3, 4) == 6,
        crate::gates::lagrange_coef(3, 4) == 4,
        crate::gates::fact(4) == 24,
{
    reveal_with_fuel(crate::gates::prod_skip, 6);
    reveal_with_fuel(crate::gates::fact, 6);
    assert(crate::gates::fact(0) == 1);
    assert(crate::gates::fact(1) == 1);
    assert(crate::gates::fact(2) == 2);
    assert(crate::gates::fact(3) == 6);
    assert(crate::gates::fact(4) == 24);
    assert(crate::gates::prod_skip(0, 0, 1) == 1);
    assert(crate::gates::prod_skip(0, 0, 2) == -1);
    assert(crate::gates::prod_skip(0, 0, 3) == 2);
    assert(crate::gates::prod_skip(0, 0, 4) == -6);
    assert(crate::gates::fact(4) as int / 6 == 4);
    assert(crate::gates::lagrange_coef(0, 4) == -4);
    assert(crate::gates::prod_skip(1, 1, 1) == 1);
    assert(crate::gates::prod_skip(1, 1, 2) == 1);
    assert(crate::gates::prod_skip(1, 1, 3) == -1);
    assert(crate::gates::prod_skip(1, 1, 4) == 2);
    assert(crate::gates::fact(4) as int / 2 == 12);
    assert(crate::gates::lagrange_coef(1, 4) == 12);
    assert(crate::gates::prod_skip(2, 2, 1) == 2);
    assert(crate::gates::prod_skip(2, 2, 2) == 2);
    assert(crate::gates::prod_skip(2, 2, 3) == 2);
    assert(crate::gates::prod_skip(2, 2, 4) == -2);
    assert(crate::gates::fact(4) as int / 2 == 12);
    assert(crate::gates::lagrange_coef(2, 4) == -12);
    assert(crate::gates::prod_skip(3, 3, 1) == 3);
    assert(crate::gates::prod_skip(3, 3, 2) == 6);
    assert(crate::gates::prod_skip(3, 3, 3) == 6);
    assert(crate::gates::prod_skip(3, 3, 4) == 6);
    assert(crate::gates::fact(4) as int / 6 == 4);
    assert(crate::gates::lagrange_coef(3, 4) == 4);
}

/// The denominators and coefficients of the 8-point interpolation.
proof fn lemma_coef8()
    ensures
        crate::gates::prod_skip(0, 0, 8) == -5040,
        crate::gates::lagrange_coef(0, 8) == -8,
        crate::gates::prod_skip(1, 1, 8) == 720,
        crate::gates::lagrange_coef(1, 8) == 56,
        crate::gates::prod_skip(2, 2, 8) == -240,
        crate::gates::lagrange_coef(2, 8) == -168,
        crate::gates::prod_skip(3, 3, 8) == 144,
        crate::gates::lagrange_coef(3, 8) == 280,
        crate::gates::prod_skip(4, 4, 8) == -144,
        crate::gates::lagrange_coef(4, 8) == -280,
        crate::gates::prod_skip(5, 5, 8) == 240,
        crate::gates::lagrange_coef(5, 8) == 168,
        crate::gates::prod_skip(6, 6, 8) == -720,
        crate::gates::lagrange_coef(6, 8) == -56,
        crate::gates::prod_skip(7, 7, 8) == 5040,
        crate::gates::lagrange_coef(7, 8) == 8,
        crate::gates::fact(8) == 40320,
{
    reveal_with_fuel(crate::gates::prod_skip, 10);
    reveal_with_fuel(crate::gates::fact, 10);
    assert(crate::gates::fact(0) == 1);
    assert(crate::gates::fact(1) == 1);
    assert(crate::gates::fact(2) == 2);
    assert(crate::gates::fact(3) == 6);
    assert(crate::gates::fact(4) == 24);
    assert(crate::gates::fact(5) == 120);
    assert(crate::gates::fact(6) == 720);
    assert(crate::gates::fact(7) == 5040);
    assert(crate::gates::fact(8) == 40320);
    assert(crate::gates::prod_skip(0, 0, 1) == 1);
    assert(crate::gates::prod_skip(0, 0, 2) == -1);
    assert(crate::gates::prod_skip(0, 0, 3) == 2);
    assert(crate::gates::prod_skip(0, 0, 4) == -6);
    assert(crate::gates::prod_skip(0, 0, 5) == 24);
    assert(crate::gates::prod_skip(0, 0, 6) == -120);
    assert(crate::gates::prod_skip(0, 0, 7) == 720);
    assert(crate::gates::prod_skip(0, 0, 8) == -5040);
    assert(crate::gates::fact(8) as int / 5040 == 8);
    assert(crate::gates::lagrange_coef(0, 8) == -8);
    assert(crate::gates::prod_skip(1, 1, 1) == 1);
    assert(crate::gates::prod_skip(1, 1, 2) == 1);
    assert(crate::gates::prod_skip(1, 1, 3) == -1);
    assert(crate::gates::prod_skip(1, 1, 4) == 2);
    assert(crate::gates::prod_skip(1, 1, 5) == -6);
    assert(crate::gates::prod_skip(1, 1, 6) == 24);
    assert(crate::gates::prod_skip(1, 1, 7) == -120);
    assert(crate::gates::prod_skip(1, 1, 8) == 720);
    assert(crate::gates::fact(8) as int / 720 == 56);
    assert(crate::gates::lagrange_coef(1, 8) == 56);
    assert(crate::gates::prod_skip(2, 2, 1) == 2);
    assert(crate::gates::prod_skip(2, 2, 2) == 2);
    assert(crate::gates::prod_skip(2, 2, 3) == 2);
    assert(crate::gates::prod_skip(2, 2, 4) == -2);
    assert(crate::gates::prod_skip(2, 2, 5) == 4);
    assert(crate::gates::prod_skip(2, 2, 6) == -12);
    assert(crate::gates::prod_skip(2, 2, 7) == 48);
    assert(crate::gates::prod_skip(2, 2, 8) == -240);
    assert(crate::gates::fact(8) as int / 240 == 168);
    assert(crate::gates::lagrange_coef(2, 8) == -168);
    assert(crate::gates::prod_skip(3, 3, 1) == 3);
    assert(crate::gates::prod_skip(3, 3, 2) == 6);
    assert(crate::gates::prod_skip(3, 3, 3) == 6);
    assert(crate::gates::prod_skip(3, 3, 4) == 6);
    assert(crate::gates::prod_skip(3, 3, 5) == -6);
    assert(crate::gates::prod_skip(3, 3, 6) == 12);
    assert(crate::gates::prod_skip(3, 3, 7) == -36);
    assert(crate::gates::prod_skip(3, 3, 8) == 144);
    assert(crate::gates::fact(8) as int / 144 == 280);
    assert(crate::gates::lagrange_coef(3, 8) == 280);
    assert(crate::gates::prod_skip(4, 4, 1) == 4);
    assert(crate::gates::prod_skip(4, 4, 2) == 12);
    assert(crate::gates::prod_skip(4, 4, 3) == 24);
    assert(crate::gates::prod_skip(4, 4, 4) == 24);
    assert(crate::gates::prod_skip(4, 4, 5) == 24);
    assert(crate::gates::prod_skip(4, 4, 6) == -24);
    assert(crate::gates::prod_skip(4, 4, 7) == 48);
    assert(crate::gates::prod_skip(4, 4, 8) == -144);
    assert(crate::gates::fact(8) as int / 144 == 280);
    assert(crate::gates::lagrange_coef(4, 8) == -280);
    assert(crate::gates::prod_skip(5, 5, 1) == 5);
    assert(crate::gates::prod_skip(5, 5, 2) == 20);
    assert(crate::gates::prod_skip(5, 5, 3) == 60);
    assert(crate::gates::prod_skip(5, 5, 4) == 120);
    assert(crate::gates::prod_skip(5, 5, 5) == 120);
    assert(crate::gates::prod_skip(5, 5, 6) == 120);
    assert(crate::gates::prod_skip(5, 5, 7) == -120);
    assert(crate::gates::prod_skip(5, 5, 8) == 240);
    assert(crate::gates::fact(8) as int / 240 == 168);
    assert(crate::gates::lagrange_coef(5, 8) == 168);
    assert(crate::gates::prod_skip(6, 6, 1) == 6);
    assert(crate::gates::prod_skip(6, 6, 2) == 30);
    assert(crate::gates::prod_skip(6, 6, 3) == 120);
    assert(crate::gates::prod_skip(6, 6, 4) == 360);
    assert(crate::gates::prod_skip(6, 6, 5) == 720);
    assert(crate::gates::prod_skip(6, 6, 6) == 720);
    assert(crate::gates::prod_skip(6, 6, 7) == 720);
    assert(crate::gates::prod_skip(6, 6, 8) == -720);
    assert(crate::gates::fact(8) as int / 720 == 56);
    assert(crate::gates::lagrange_coef(6, 8) == -56);
    assert(crate::gates::prod_skip(7, 7, 1) == 7);
    assert(crate::gates::prod_skip(7, 7, 2) == 42);
    assert(crate::gates::prod_skip(7, 7, 3) == 210);
    assert(crate::gates::prod_skip(7, 7, 4) == 840);
    assert(crate::gates::prod_skip(7, 7, 5) == 2520);
    assert(crate::gates::prod_skip(7, 7, 6) == 5040);
    assert(crate::gates::prod_skip(7, 7, 7) == 5040);
    assert(crate::gates::prod_skip(7, 7, 8) == 5040);
    assert(crate::gates::fact(8) as int / 5040 == 8);
    assert(crate::gates::lagrange_coef(7, 8) == 8);
}

/// The spread table on the 2-bit and 3-bit domains.
proof fn lemma_spread_consts()
    ensures
        crate::spread::spread_bits(0, 2) == 0,
        crate::spread::spread_bits(1, 2) == 1,
        crate::spread::spread_bits(2, 2) == 4,
        crate::spread::spread_bits(3, 2) == 5,
        crate::spread::spread_bits(0, 3) == 0,
        crate::spread::spread_bits(1, 3) == 1,
        crate::spread::spread_bits(2, 3) == 4,
        crate::spread::spread_bits(3, 3) == 5,
        crate::spread::spread_bits(4, 3) == 16,
        crate::spread::spread_bits(5, 3) == 17,
        crate::spread::spread_bits(6, 3) == 20,
        crate::spread::spread_bits(7, 3) == 21,
{
    reveal_with_fuel(crate::spread::spread_bits, 5);
    assert(crate::spread::spread_bits(0, 0) == 0);
    assert(crate::spread::spread_bits(0, 1) == 0);
    assert(crate::spread::spread_bits(1, 1) == 1);
    assert(crate::spread::spread_bits(0, 2) == 0);
    assert(crate::spread::spread_bits(1, 2) == 1);
    assert(crate::spread::spread_bits(2, 2) == 4);
    assert(crate::spread::spread_bits(3, 2) == 5);
    assert(crate::spread::spread_bits(0, 3) == 0);
    assert(crate::spread::spread_bits(1, 3) == 1);
    assert(crate::spread::spread_bits(2, 3) == 4);
    assert(crate::spread::spread_bits(3, 3) == 5);
    assert(crate::spread::spread_bits(4, 3) == 16);
    assert(crate::spread::spread_bits(5, 3) == 17);
    assert(crate::spread::spread_bits(6, 3) == 20);
    assert(crate::spread::spread_bits(7, 3) == 21);
}

/// The denominators and coefficients of the 1-point interpolation.
proof fn lemma_coef1()
    ensures
        crate::gates::prod_skip(0, 0, 1) == 1,
        crate::gates::lagrange_coef(0, 1) == 1,
        crate::gates::fact(1) == 1,
{
    reveal_with_fuel(crate::gates::prod_skip, 3);
    reveal_with_fuel(crate::gates::fact, 3);
    assert(crate::gates::fact(0) == 1);
    assert(crate::gates::fact(1) == 1);
    assert(crate::gates::prod_skip(0, 0, 1) == 1);
    assert(crate::gates::fact(1) as int / 1 == 1);
    assert(crate::gates::lagrange_coef(0, 1) == 1);
}

/// The denominators and coefficients of the 2-point interpolation.
proof fn lemma_coef2()
    ensures
        crate::gates::prod_skip(0, 0, 2) == -1,
        crate::gates::lagrange_coef(0, 2) == -2,
        crate::gates::prod_skip(1, 1, 2) == 1,
        crate::gates::lagrange_coef(1, 2) == 2,
        crate::gates::fact(2) == 2,
{
    reveal_with_fuel(crate::gates::prod_skip, 4);
    reveal_with_fuel(crate::gates::fact, 4);
    assert(crate::gates::fact(0) == 1);
    assert(crate::gates::fact(1) == 1);
    assert(crate::gates::fact(2) == 2);
    assert(crate::gates::prod_skip(0, 0, 1) == 1);
    assert(crate::gates::prod_skip(0, 0, 2) == -1);
    assert(crate::gates::fact(2) as int / 1 == 2);
    assert(crate::gates::lagrange_coef(0, 2) == -2);
    assert(crate::gates::prod_skip(1, 1, 1) == 1);
    assert(crate::gates::prod_skip(1, 1, 2) == 1);
    assert(crate::gates::fact(2) as int / 1 == 2);
    assert(crate::gates::lagrange_coef(1, 2) == 2);
}

/// The denominators and coefficients of the 3-point interpolation.
proof fn lemma_coef3()
    ensures
        crate::gates::prod_skip(0, 0, 3) == 2,
        crate::gates::lagrange_coef(0, 3) == 3,
        crate::gates::prod_skip(1, 1, 3) == -1,
        crate::gates::lagrange_coef(1, 3) == -6,
        crate::gates::prod_skip(2, 2, 3) == 2,
        crate::gates::lagrange_coef(2, 3) == 3,
        crate::gates::fact(3) == 6,
{
    reveal_with_fuel(crate::gates::prod_skip, 5);
    reveal_with_fuel(crate::gates::fact, 5);
    assert(crate::gates::fact(0) == 1);
    assert(crate::gates::fact(1) == 1);
    assert(crate::gates::fact(2) == 2);
    assert(crate::gates::fact(3) == 6);
    assert(crate::gates::prod_skip(0, 0, 1) == 1);
    assert(crate::gates::prod_skip(0, 0, 2) == -1);
    assert(crate::gates::prod_skip(0, 0, 3) == 2);
    assert(crate::gates::fact(3) as int / 2 == 3);
    assert(crate::gates::lagrange_coef(0, 3) == 3);
    assert(crate::gates::prod_skip(1, 1, 1) == 1);
    assert(crate::gates::prod_skip(1, 1, 2) == 1);
    assert(crate::gates::prod_skip(1, 1, 3) == -1);
    assert(crate::gates::fact(3) as int / 1 == 6);
    assert(crate::gates::lagrange_coef(1, 3) == -6);
    assert(crate::gates::prod_skip(2, 2, 1) == 2);
    assert(crate::gates::prod_skip(2, 2, 2) == 2);
    assert(crate::gates::prod_skip(2, 2, 3) == 2);
    assert(crate::gates::fact(3) as int / 2 == 3);
    assert(crate::gates::lagrange_coef(2, 3) == 3);
}

/// The denominators and coefficients of the 5-point interpolation.
proof fn lemma_coef5()
    ensures
        crate::gates::prod_skip(0, 0, 5) == 24,
        crate::gates::lagrange_coef(0, 5) == 5,
        crate::gates::prod_skip(1, 1, 5) == -6,
        crate::gates::lagrange_coef(1, 5) == -20,
        crate::gates::prod_skip(2, 2, 5) == 4,
        crate::gates::lagrange_coef(2, 5) == 30,
        crate::gates::prod_skip(3, 3, 5) == -6,
        crate::gates::lagrange_coef(3, 5) == -20,
        crate::gates::prod_skip(4, 4, 5) == 24,
        crate::gates::lagrange_coef(4, 5) == 5,
        crate::gates::fact(5) == 120,
{
    reveal_with_fuel(crate::gates::prod_skip, 7);
    reveal_with_fuel(crate::gates::fact, 7);
    assert(crate::gates::fact(0) == 1);
    assert(crate::gates::fact(1) == 1);
    assert(crate::gates::fact(2) == 2);
    assert(crate::gates::fact(3) == 6);
    assert(crate::gates::fact(4) == 24);
    assert(crate::gates::fact(5) == 120);
    assert(crate::gates::prod_skip(0, 0, 1) == 1);
    assert(crate::gates::prod_skip(0, 0, 2) == -1);
    assert(crate::gates::prod_skip(0, 0, 3) == 2);
    assert(crate::gates::prod_skip(0, 0, 4) == -6);
    assert(crate::gates::prod_skip(0, 0, 5) == 24);
    assert(crate::gates::fact(5) as int / 24 == 5);
    assert(crate::gates::lagrange_coef(0, 5) == 5);
    assert(crate::gates::prod_skip(1, 1, 1) == 1);
    assert(crate::gates::prod_skip(1, 1, 2) == 1);
    assert(crate::gates::prod_skip(1, 1, 3) == -1);
    assert(crate::gates::prod_skip(1, 1, 4) == 2);
    assert(crate::gates::prod_skip(1, 1, 5) == -6);
    assert(crate::gates::fact(5) as int / 6 == 20);
    assert(crate::gates::lagrange_coef(1, 5) == -20);
    assert(crate::gates::prod_skip(2, 2, 1) == 2);
    assert(crate::gates::prod_skip(2, 2, 2) == 2);
    assert(crate::gates::prod_skip(2, 2, 3) == 2);
    assert(crate::gates::prod_skip(2, 2, 4) == -2);
    assert(crate::gates::prod_skip(2, 2, 5) == 4);
    assert(crate::gates::fact(5) as int / 4 == 30);
    assert(crate::gates::lagrange_coef(2, 5) == 30);
    assert(crate::gates::prod_skip(3, 3, 1) == 3);
    assert(crate::gates::prod_skip(3, 3, 2) == 6);
    assert(crate::gates::prod_skip(3, 3, 3) == 6);
    assert(crate::gates::prod_skip(3, 3, 4) == 6);
    assert(crate::gates::prod_skip(3, 3, 5) == -6);
    assert(crate::gates::fact(5) as int / 6 == 20);
    assert(crate::gates::lagrange_coef(3, 5) == -20);
    assert(crate::gates::prod_skip(4, 4, 1) == 4);
    assert(crate::gates::prod_skip(4, 4, 2) == 12);
    assert(crate::gates::prod_skip(4, 4, 3) == 24);
    assert(crate::gates::prod_skip(4, 4, 4) == 24);
    assert(crate::gates::prod_skip(4, 4, 5) == 24);
    assert(crate::gates::fact(5) as int / 24 == 5);
    assert(crate::gates::lagrange_coef(4, 5) == 5);
}

/// The denominators and coefficients of the 6-point interpolation.
proof fn lemma_coef6()
    ensures
        crate::gates::prod_skip(0, 0, 6) == -120,
        crate::gates::lagrange_coef(0, 6) == -6,
        crate::gates::prod_skip(1, 1, 6) == 24,
        crate::gates::lagrange_coef(1, 6) == 30,
        crate::gates::prod_skip(2, 2, 6) == -12,
        crate::gates::lagrange_coef(2, 6) == -60,
        crate::gates::prod_skip(3, 3, 6) == 12,
        crate::gates::lagrange_coef(3, 6) == 60,
        crate::gates::prod_skip(4, 4, 6) == -24,
        crate::gates::lagrange_coef(4, 6) == -30,
        crate::gates::prod_skip(5, 5, 6) == 120,
        crate::gates::lagrange_coef(5, 6) == 6,
        crate::gates::fact(6) == 720,
{
    reveal_with_fuel(crate::gates::prod_skip, 8);
    reveal_with_fuel(crate::gates::fact, 8);
    assert(crate::gates::fact(0) == 1);
    assert(crate::gates::fact(1) == 1);
    assert(crate::gates::fact(2) == 2);
    assert(crate::gates::fact(3) == 6);
    assert(crate::gates::fact(4) == 24);
    assert(crate::gates::fact(5) == 120);
    assert(crate::gates::fact(6) == 720);
    assert(crate::gates::prod_skip(0, 0, 1) == 1);
    assert(crate::gates::prod_skip(0, 0, 2) == -1);
    assert(crate::gates::prod_skip(0, 0, 3) == 2);
    assert(crate::gates::prod_skip(0, 0, 4) == -6);
    assert(crate::gates::prod_skip(0, 0, 5) == 24);
    assert(crate::gates::prod_skip(0, 0, 6) == -120);
    assert(crate::gates::fact(6) as int / 120 == 6);
    assert(crate::gates::lagrange_coef(0, 6) == -6);
    assert(crate::gates::prod_skip(1, 1, 1) == 1);
    assert(crate::gates::prod_skip(1, 1, 2) == 1);
    assert(crate::gates::prod_skip(1, 1, 3) == -1);
    assert(crate::gates::prod_skip(1, 1, 4) == 2);
    assert(crate::gates::prod_skip(1, 1, 5) == -6);
    assert(crate::gates::prod_skip(1, 1, 6) == 24);
    assert(crate::gates::fact(6) as int / 24 == 30);
    assert(crate::gates::lagrange_coef(1, 6) == 30);
    assert(crate::gates::prod_skip(2, 2, 1) == 2);
    assert(crate::gates::prod_skip(2, 2, 2) == 2);
    assert(crate::gates::prod_skip(2, 2, 3) == 2);
    assert(crate::gates::prod_skip(2, 2, 4) == -2);
    assert(crate::gates::prod_skip(2, 2, 5) == 4);
    assert(crate::gates::prod_skip(2, 2, 6) == -12);
    assert(crate::gates::fact(6) as int / 12 == 60);
    assert(crate::gates::lagrange_coef(2, 6) == -60);
    assert(crate::gates::prod_skip(3, 3, 1) == 3);
    assert(crate::gates::prod_skip(3, 3, 2) == 6);
    assert(crate::gates::prod_skip(3, 3, 3) == 6);
    assert(crate::gates::prod_skip(3, 3, 4) == 6);
    assert(crate::gates::prod_skip(3, 3, 5) == -6);
    assert(crate::gates::prod_skip(3, 3, 6) == 12);
    assert(crate::gates::fact(6) as int / 12 == 60);
    assert(crate::gates::lagrange_coef(3, 6) == 60);
    assert(crate::gates::prod_skip(4, 4, 1) == 4);
    assert(crate::gates::prod_skip(4, 4, 2) == 12);
    assert(crate::gates::prod_skip(4, 4, 3) == 24);
    assert(crate::gates::prod_skip(4, 4, 4) == 24);
    assert(crate::gates::prod_skip(4, 4, 5) == 24);
    assert(crate::gates::prod_skip(4, 4, 6) == -24);
    assert(crate::gates::fact(6) as int / 24 == 30);
    assert(crate::gates::lagrange_coef(4, 6) == -30);
    assert(crate::gates::prod_skip(5, 5, 1) == 5);
    assert(crate::gates::prod_skip(5, 5, 2) == 20);
    assert(crate::gates::prod_skip(5, 5, 3) == 60);
    assert(crate::gates::prod_skip(5, 5, 4) == 120);
    assert(crate::gates::prod_skip(5, 5, 5) == 120);
    assert(crate::gates::prod_skip(5, 5, 6) == 120);
    assert(crate::gates::fact(6) as int / 120 == 6);
    assert(crate::gates::lagrange_coef(5, 6) == 6);
}

/// The denominators and coefficients of the 7-point interpolation.
proof fn lemma_coef7()
    ensures
        crate::gates::prod_skip(0, 0, 7) == 720,
        crate::gates::lagrange_coef(0, 7) == 7,
        crate::gates::prod_skip(1, 1, 7) == -120,
        crate::gates::lagrange_coef(1, 7) == -42,
        crate::gates::prod_skip(2, 2, 7) == 48,
        crate::gates::lagrange_coef(2, 7) == 105,
        crate::gates::prod_skip(3, 3, 7) == -36,
        crate::gates::lagrange_coef(3, 7) == -140,
        crate::gates::prod_skip(4, 4, 7) == 48,
        crate::gates::lagrange_coef(4, 7) == 105,
        crate::gates::prod_skip(5, 5, 7) == -120,
        crate::gates::lagrange_coef(5, 7) == -42,
        crate::gates::prod_skip(6, 6, 7) == 720,
        crate::gates::lagrange_coef(6, 7) == 7,
        crate::gates::fact(7) == 5040,
{
    reveal_with_fuel(crate::gates::prod_skip, 9);
    reveal_with_fuel(crate::gates::fact, 9);
    assert(crate::gates::fact(0) == 1);
    assert(crate::gates::fact(1) == 1);
    assert(crate::gates::fact(2) == 2);
    assert(crate::gates::fact(3) == 6);
    assert(crate::gates::fact(4) == 24);
    assert(crate::gates::fact(5) == 120);
    assert(crate::gates::fact(6) == 720);
    assert(crate::gates::fact(7) == 5040);
    assert(crate::gates::prod_skip(0, 0, 1) == 1);
    assert(crate::gates::prod_skip(0, 0, 2) == -1);
    assert(crate::gates::prod_skip(0, 0, 3) == 2);
    assert(crate::gates::prod_skip(0, 0, 4) == -6);
    assert(crate::gates::prod_skip(0, 0, 5) == 24);
    assert(crate::gates::prod_skip(0, 0, 6) == -120);
    assert(crate::gates::prod_skip(0, 0, 7) == 720);
    assert(crate::gates::fact(7) as int / 720 == 7);
    assert(crate::gates::lagrange_coef(0, 7) == 7);
    assert(crate::gates::prod_skip(1, 1, 1) == 1);
    assert(crate::gates::prod_skip(1, 1, 2) == 1);
    assert(crate::gates::prod_skip(1, 1, 3) == -1);
    assert(crate::gates::prod_skip(1, 1, 4) == 2);
    assert(crate::gates::prod_skip(1, 1, 5) == -6);
    assert(crate::gates::prod_skip(1, 1, 6) == 24);
    assert(crate::gates::prod_skip(1, 1, 7) == -120);
    assert(crate::gates::fact(7) as int / 120 == 42);
    assert(crate::gates::lagrange_coef(1, 7) == -42);
    assert(crate::gates::prod_skip(2, 2, 1) == 2);
    assert(crate::gates::prod_skip(2, 2, 2) == 2);
    assert(crate::gates::prod_skip(2, 2, 3) == 2);
    assert(crate::gates::prod_skip(2, 2, 4) == -2);
    assert(crate::gates::prod_skip(2, 2, 5) == 4);
    assert(crate::gates::prod_skip(2, 2, 6) == -12);
    assert(crate::gates::prod_skip(2, 2, 7) == 48);
    assert(crate::gates::fact(7) as int / 48 == 105);
    assert(crate::gates::lagrange_coef(2, 7) == 105);
    assert(crate::gates::prod_skip(3, 3, 1) == 3);
    assert(crate::gates::prod_skip(3, 3, 2) == 6);
    assert(crate::gates::prod_skip(3, 3, 3) == 6);
    assert(crate::gates::prod_skip(3, 3, 4) == 6);
    assert(crate::gates::prod_skip(3, 3, 5) == -6);
    assert(crate::gates::prod_skip(3, 3, 6) == 12);
    assert(crate::gates::prod_skip(3, 3, 7) == -36);
    assert(crate::gates::fact(7) as int / 36 == 140);
    assert(crate::gates::lagrange_coef(3, 7) == -140);
    assert(crate::gates::prod_skip(4, 4, 1) == 4);
    assert(crate::gates::prod_skip(4, 4, 2) == 12);
    assert(crate::gates::prod_skip(4, 4, 3) == 24);
    assert(crate::gates::prod_skip(4, 4, 4) == 24);
    assert(crate::gates::prod_skip(4, 4, 5) == 24);
    assert(crate::gates::prod_skip(4, 4, 6) == -24);
    assert(crate::gates::prod_skip(4, 4, 7) == 48);
    assert(crate::gates::fact(7) as int / 48 == 105);
    assert(crate::gates::lagrange_coef(4, 7) == 105);
    assert(crate::gates::prod_skip(5, 5, 1) == 5);
    assert(crate::gates::prod_skip(5, 5, 2) == 20);
    assert(crate::gates::prod_skip(5, 5, 3) == 60);
    assert(crate::gates::prod_skip(5, 5, 4) == 120);
    assert(crate::gates::prod_skip(5, 5, 5) == 120);
    assert(crate::gates::prod_skip(5, 5, 6) == 120);
    assert(crate::gates::prod_skip(5, 5, 7) == -120);
    assert(crate::gates::fact(7) as int / 120 == 42);
    assert(crate::gates::lagrange_coef(5, 7) == -42);
    assert(crate::gates::prod_skip(6, 6, 1) == 6);
    assert(crate::gates::prod_skip(6, 6, 2) == 30);
    assert(crate::gates::prod_skip(6, 6, 3) == 120);
    assert(crate::gates::prod_skip(6, 6, 4) == 360);
    assert(crate::gates::prod_skip(6, 6, 5) == 720);
    assert(crate::gates::prod_skip(6, 6, 6) == 720);
    assert(crate::gates::prod_skip(6, 6, 7) == 720);
    assert(crate::gates::fact(7) as int / 720 == 7);
    assert(crate::gates::lagrange_coef(6, 7) == 7);
}

/// The interpolation law of spec and sample: on every domain of one to
/// eight consecutive points, the scaled interpolation sum at the sample
/// point `k` is the factorial factor times the sample value.
pub proof fn lemma_lagrange_interpolation(k: int, evals: Seq<u32>)
    requires
        1 <= evals.len() <= 8,
        0 <= k < evals.len(),
    ensures
        crate::gates::lagrange_sum(k, evals, evals.len()) == fmul(
            crate::gates::fact(evals.len()) as int,
            evals[k] as int,
        ),
{
    let n = evals.len() as int;
    if n == 1 {
        lemma_coef1();
    }
    if n == 2 {
        lemma_coef2();
        if k == 0 {
        } else {
        }
    }
    if n == 3 {
        lemma_coef3();
        if k == 0 {
        } else if k == 1 {
        } else {
        }
    }
    if n == 4 {
        lemma_coef4();
        if k == 0 {
        } else if k == 1 {
        } else if k == 2 {
        } else {
        }
    }
    if n == 5 {
        lemma_coef5();
        if k == 0 {
        } else if k == 1 {
        } else if k == 2 {
        } else if k == 3 {
        } else {
        }
    }
    if n == 6 {
        lemma_coef6();
        if k == 0 {
        } else if k == 1 {
        } else if k == 2 {
        } else if k == 3 {
        } else if k == 4 {
        } else {
        }
    }
    if n == 7 {
        lemma_coef7();
        if k == 0 {
        } else if k == 1 {
        } else if k == 2 {
        } else if k == 3 {
        } else if k == 4 {
        } else if k == 5 {
        } else {
        }
    }
    if n == 8 {
        lemma_coef8();
        if k == 0 {
        } else if k == 1 {
        } else if k == 2 {
        } else if k == 3 {
        } else if k == 4 {
        } else if k == 5 {
        } else if k == 6 {
        } else {
        }
    }
    lemma_lagrange_interp_at(k, evals);
}

/// The 2-bit spread-consistency polynomial evaluates to the factor times
/// the difference between the true spread value and the witnessed one.
pub proof fn lemma_two_bit_spread_exact(d: int, s: int)
    requires
        0 <= d < 4,
        0 <= s < modulus(),
    ensures
        crate::gates::two_bit_spread_poly(d, s) == (24 * (crate::spread::spread_bits(d, 2) - s))
            % modulus(),
{
    let evals = crate::gates::two_bit_spread_evals();
    lemma_coef4();
    lemma_spread_consts();
    assert(crate::gates::lagrange_coef(d, 4) * crate::gates::prod_skip(d, d, 4)
        == crate::gates::fact(4));
    lemma_lagrange_interp_at(d, evals);
    let sp = crate::spread::spread_bits(d, 2);
    assert(evals[d] as int == sp);
    assert(crate::gates::lagrange_sum(d, evals, 4) == fmul(24, sp));
    lemma_fadd_fneg(fmul(24, sp), fmul(s, 24));
    vstd::arithmetic::div_mod::lemma_sub_mod_noop(24 * sp, s * 24, modulus());
}

/// The 3-bit spread-consistency polynomial evaluates likewise, with the
/// factor 8!.
pub proof fn lemma_three_bit_spread_exact(d: int, s: int)
    requires
        0 <= d < 8,
        0 <= s < modulus(),
    ensures
        crate::gates::three_bit_spread_poly(d, s) == (40320 * (crate::spread::spread_bits(d, 3)
            - s)) % modulus(),
{
    let evals = crate::gates::three_bit_spread_evals();
    lemma_coef8();
    lemma_spread_consts();
    assert(crate::gates::lagrange_coef(d, 8) * crate::gates::prod_skip(d, d, 8)
        == crate::gates::fact(8));
    lemma_lagrange_interp_at(d, evals);
    let sp = crate::spread::spread_bits(d, 3);
    assert(evals[d] as int == sp);
    assert(crate::gates::lagrange_sum(d, evals, 8) == fmul(40320, sp));
    lemma_fadd_fneg(fmul(40320, sp), fmul(s, 40320));
    vstd::arithmetic::div_mod::lemma_sub_mod_noop(40320 * sp, s * 40320, modulus());
}

/// The 2-bit spread check vanishes on the table pair and rejects a
/// witness perturbed by one in either direction.
pub proof fn lemma_two_bit_spread_law(d: int)
    requires
        0 <= d < 4,
    ensures
        crate::gates::two_bit_spread_poly(d, crate::spread::spread_bits(d, 2)) == 0,
        crate::gates::two_bit_spread_poly(d, crate::spread::spread_bits(d, 2) + 1) != 0,
        crate::spread::spread_bits(d, 2) >= 1 ==> crate::gates::two_bit_spread_poly(
            d,
            crate::spread::spread_bits(d, 2) - 1,
        ) != 0,
{
    let sp = crate::spread::spread_bits(d, 2);
    lemma_spread_consts();
    assert(0 <= sp <= 5);
    lemma_two_bit_spread_exact(d, sp);
    lemma_small_mod(0nat, modulus() as nat);
    lemma_two_bit_spread_exact(d, sp + 1);
    lemma_small_nonzero_mod(-24);
    if sp >= 1 {
        lemma_two_bit_spread_exact(d, sp - 1);
        lemma_small_nonzero_mod(24);
    }
}

/// The 3-bit spread check vanishes on the table pair and rejects a
/// witness perturbed by one in either direction.
pub proof fn lemma_three_bit_spread_law(d: int)
    requires
        0 <= d < 8,
    ensures
        crate::gates::three_bit_spread_poly(d, crate::spread::spread_bits(d, 3)) == 0,
        crate::gates::three_bit_spread_poly(d, crate::spread::spread_bits(d, 3) + 1) != 0,
        crate::spread::spread_bits(d, 3) >= 1 ==> crate::gates::three_bit_spread_poly(
            d,
            crate::spread::spread_bits(d, 3) - 1,
        ) != 0,
{
    let sp = crate::spread::spread_bits(d, 3);
    lemma_spread_consts();
    assert(0 <= sp <= 21);
    lemma_three_bit_spread_exact(d, sp);
    lemma_small_mod(0nat, modulus() as nat);
    lemma_three_bit_spread_exact(d, sp + 1);
    lemma_small_nonzero_mod(-40320);
    if sp >= 1 {
        lemma_three_bit_spread_exact(d, sp - 1);
        lemma_small_nonzero_mod(40320);
    }
}

/// One division step: a value splits into its remainder and quotient.
proof fn lemma_split(x: int, d: int)
    requires
        x >= 0,
        d >= 1,
    ensures
        x == d * (x / d) + x % d,
        0 <= x % d < d,
        x / d >= 0,
{
    vstd::arithmetic::div_mod::lemma_fundamental_div_mod(x, d);
    lemma_mod_bound(x, d);
    vstd::arithmetic::div_mod::lemma_div_pos_is_pos(x, d);
}

/// Dividing twice divides by the product.
proof fn lemma_div_twice(x: int, a: int, b: int)
    requires
        x >= 0,
        a >= 1,
        b >= 1,
    ensures
        (x / a) / b == x / (a * b),
{
    vstd::arithmetic::div_mod::lemma_div_denominator(x, a, b);
}

/// The chunks the scheduler extracts on the (16, 16) split reconstruct
/// the word, so the witness it writes satisfies the decomposition
/// identity.
pub proof fn lemma_decompose_0_witness(w: int)
    requires
        0 <= w < 0x100000000,
    ensures
        w == (w % 0x10000) + (w / 0x10000) * 0x10000,
        decompose_0_poly(w % 0x10000, w / 0x10000, w) == 0,
{
    lemma_split(w, 0x10000);
    lemma_decompose_0_exact(w % 0x10000, w / 0x10000, w);
}

/// The chunks the scheduler extracts on the (3, 4, 11, 14) split
/// reconstruct the word, so the witness it writes satisfies the
/// decomposition identity.
pub proof fn lemma_decompose_1_witness(w: int)
    requires
        0 <= w < 0x100000000,
    ensures
        w == (w % 0x8) + ((w / 0x8) % 0x10) * 0x8 + ((w / 0x80) % 0x800) * 0x80 + (w / 0x40000)
            * 0x40000,
        decompose_1_poly(w % 0x8, (w / 0x8) % 0x10, (w / 0x80) % 0x800, w / 0x40000, w) == 0,
{
    lemma_split(w, 0x8);
    lemma_split(w / 0x8, 0x10);
    lemma_div_twice(w, 0x8, 0x10);
    lemma_split(w / 0x80, 0x800);
    lemma_div_twice(w, 0x80, 0x800);
    lemma_decompose_1_exact(w % 0x8, (w / 0x8) % 0x10, (w / 0x80) % 0x800, w / 0x40000, w);
}

/// The chunks the scheduler extracts on the (3, 4, 3, 7, 1, 1, 13)
/// split reconstruct the word, so the witness it writes satisfies the
/// decomposition identity.
pub proof fn lemma_decompose_2_witness(w: int)
    requires
        0 <= w < 0x100000000,
    ensures
        decompose_2_poly(
            w % 0x8,
            (w / 0x8) % 0x10,
            (w / 0x80) % 0x8,
            (w / 0x400) % 0x80,
            (w / 0x20000) % 0x2,
            (w / 0x40000) % 0x2,
            w / 0x80000,
            w,
        ) == 0,
{
    lemma_split(w, 0x8);
    lemma_split(w / 0x8, 0x10);
    lemma_div_twice(w, 0x8, 0x10);
    lemma_split(w / 0x80, 0x8);
    lemma_div_twice(w, 0x80, 0x8);
    lemma_split(w / 0x400, 0x80);
    lemma_div_twice(w, 0x400, 0x80);
    lemma_split(w / 0x20000, 0x2);
    lemma_div_twice(w, 0x20000, 0x2);
    lemma_split(w / 0x40000, 0x2);
    lemma_div_twice(w, 0x40000, 0x2);
    lemma_decompose_2_exact(
        w % 0x8,
        (w / 0x8) % 0x10,
        (w / 0x80) % 0x8,
        (w / 0x400) % 0x80,
        (w / 0x20000) % 0x2,
        (w / 0x40000) % 0x2,
        w / 0x80000,
        w,
    );
}

/// The chunks the scheduler extracts on the (10, 7, 2, 13) split
/// reconstruct the word, so the witness it writes satisfies the
/// decomposition identity.
pub proof fn lemma_decompose_3_witness(w: int)
    requires
        0 <= w < 0x100000000,
    ensures
        decompose_3_poly(
            w % 0x400,
            (w / 0x400) % 0x80,
            (w / 0x20000) % 0x4,
            w / 0x80000,
            w,
        ) == 0,
{
    lemma_split(w, 0x400);
    lemma_split(w / 0x400, 0x80);
    lemma_div_twice(w, 0x400, 0x80);
    lemma_split(w / 0x20000, 0x4);
    lemma_div_twice(w, 0x20000, 0x4);
    lemma_decompose_3_exact(
        w % 0x400,
        (w / 0x400) % 0x80,
        (w / 0x20000) % 0x4,
        w / 0x80000,
        w,
    );
}

/// The word and carry the scheduler computes from the four true 32-bit
/// operands satisfy the word-assembly identity on the operands' halves.
pub proof fn lemma_s_word_witness(sig0: int, sig1: int, w7: int, w16: int)
    requires
        0 <= sig0 < 0x100000000,
        0 <= sig1 < 0x100000000,
        0 <= w7 < 0x100000000,
        0 <= w16 < 0x100000000,
    ensures
        s_word_poly(
            sig0 % 0x10000,
            sig1 % 0x10000,
            w7 % 0x10000,
            w16 % 0x10000,
            sig0 / 0x10000,
            sig1 / 0x10000,
            w7 / 0x10000,
            w16 / 0x10000,
            (sig0 + sig1 + w7 + w16) % 0x100000000,
            (sig0 + sig1 + w7 + w16) / 0x100000000,
        ) == 0,
{
    let total = sig0 + sig1 + w7 + w16;
    lemma_split(sig0, 0x10000);
    lemma_split(sig1, 0x10000);
    lemma_split(w7, 0x10000);
    lemma_split(w16, 0x10000);
    lemma_split(total, 0x100000000);
    assert(total / 0x100000000 <= 3) by {
        if total / 0x100000000 >= 4 {
            lemma_mod_bound(total, 0x100000000);
        }
    }
    lemma_s_word_exact(
        sig0 % 0x10000,
        sig1 % 0x10000,
        w7 % 0x10000,
        w16 % 0x10000,
        sig0 / 0x10000,
        sig1 / 0x10000,
        w7 / 0x10000,
        w16 / 0x10000,
        total % 0x100000000,
        total / 0x100000000,
    );
}

/// A multiple of 24 vanishing in the field forces the factor itself to
/// vanish: the modulus leaves remainder one modulo 24, so a nonzero
/// multiple of the modulus is never a multiple of 24 this small.
proof fn lemma_cancel_24(x: int)
    requires
        -modulus() < x < modulus(),
        (24 * x) % modulus() == 0,
    ensures
        x == 0,
{
    let m = 24 * x;
    vstd::arithmetic::div_mod::lemma_fundamental_div_mod(m, modulus());
    let k = m / modulus();
    assert(m == modulus() * k);
    assert(-24 < k < 24) by (nonlinear_arith)
        requires
            m == modulus() * k,
            -24 * modulus() < m < 24 * modulus(),
            modulus() > 0,
    ;
    assert(m % 24 == 0) by {
        vstd::arithmetic::div_mod::lemma_mod_multiples_basic(x, 24);
    }
    assert((modulus() * k) % 24 == k % 24) by {
        vstd::arithmetic::div_mod::lemma_mul_mod_noop_left(modulus(), k, 24);
        assert(modulus() % 24 == 1);
        vstd::arithmetic::div_mod::lemma_mul_mod_noop_left(1, k, 24);
    }
    assert(k % 24 == 0);
    lemma_small_nonzero_mod_window(k, 24);
    assert(24 * x == 0);
    assert(x == 0) by (nonlinear_arith)
        requires
            24 * x == 0,
    ;
}

/// A multiple of 8! vanishing in the field forces the factor itself to
/// vanish; here the modulus leaves the remainder 24961 modulo 40320,
/// whose inverse 38401 cancels it.
proof fn lemma_cancel_40320(x: int)
    requires
        -modulus() < x < modulus(),
        (40320 * x) % modulus() == 0,
    ensures
        x == 0,
{
    let m = 40320 * x;
    vstd::arithmetic::div_mod::lemma_fundamental_div_mod(m, modulus());
    let k = m / modulus();
    assert(m == modulus() * k);
    assert(-40320 < k < 40320) by (nonlinear_arith)
        requires
            m == modulus() * k,
            -40320 * modulus() < m < 40320 * modulus(),
            modulus() > 0,
    ;
    assert(m % 40320 == 0) by {
        vstd::arithmetic::div_mod::lemma_mod_multiples_basic(x, 40320);
    }
    assert((modulus() * k) % 40320 == (24961 * k) % 40320) by {
        vstd::arithmetic::div_mod::lemma_mul_mod_noop_left(modulus(), k, 40320);
        assert(modulus() % 40320 == 24961);
        vstd::arithmetic::div_mod::lemma_mul_mod_noop_left(24961, k, 40320);
    }
    assert((24961 * k) % 40320 == 0);
    // Multiplying by the inverse of 24961 modulo 40320 recovers k.
    assert((38401 * (24961 * k)) % 40320 == 0) by {
        vstd::arithmetic::div_mod::lemma_mul_mod_noop_right(38401, 24961 * k, 40320);
    }
    assert(38401 * (24961 * k) == k + 40320 * (23773 * k)) by (nonlinear_arith);
    assert((k + 40320 * (23773 * k)) % 40320 == k % 40320) by {
        vstd::arithmetic::div_mod::lemma_mod_multiples_vanish(23773 * k, k, 40320);
    }
    assert(k % 40320 == 0);
    lemma_small_nonzero_mod_window(k, 40320);
    assert(40320 * x == 0);
    assert(x == 0) by (nonlinear_arith)
        requires
            40320 * x == 0,
    ;
}

/// An integer strictly inside `(-w, w)` that vanishes modulo `w` is zero.
proof fn lemma_small_nonzero_mod_window(k: int, w: int)
    requires
        w >= 1,
        -w < k < w,
        k % w == 0,
    ensures
        k == 0,
{
    if k > 0 {
        lemma_small_mod(k as nat, w as nat);
    } else if k < 0 {
        lemma_mod_add_multiples_vanish(k, w);
        lemma_small_mod((k + w) as nat, w as nat);
    }
}

/// The 2-bit spread check vanishes exactly on the table pair: for every
/// dense value in the domain, the unique accepted witness is its
/// interleaving.
pub proof fn lemma_two_bit_spread_iff(d: int, s: int)
    requires
        0 <= d < 4,
        0 <= s < modulus(),
    ensures
        (crate::gates::two_bit_spread_poly(d, s) == 0) <==> (s == crate::spread::spread_bits(
            d,
            2,
        )),
{
    lemma_two_bit_spread_exact(d, s);
    lemma_spread_consts();
    let sp = crate::spread::spread_bits(d, 2);
    if s == sp {
        lemma_small_mod(0nat, modulus() as nat);
    } else {
        if crate::gates::two_bit_spread_poly(d, s) == 0 {
            lemma_cancel_24(sp - s);
            assert(false);
        }
    }
}

/// The 3-bit spread check vanishes exactly on the table pair.
pub proof fn lemma_three_bit_spread_iff(d: int, s: int)
    requires
        0 <= d < 8,
        0 <= s < modulus(),
    ensures
        (crate::gates::three_bit_spread_poly(d, s) == 0) <==> (s == crate::spread::spread_bits(
            d,
            3,
        )),
{
    lemma_three_bit_spread_exact(d, s);
    lemma_spread_consts();
    let sp = crate::spread::spread_bits(d, 3);
    if s == sp {
        lemma_small_mod(0nat, modulus() as nat);
    } else {
        if crate::gates::three_bit_spread_poly(d, s) == 0 {
            lemma_cancel_40320(sp - s);
            assert(false);
        }
    }
}

/// Powers of fifteen stay below the modulus on small exponents.
proof fn lemma_pow15_bound(n: nat)
    requires
        n <= 13,
    ensures
        1 <= pow_int(15, n) < modulus(),
{
    reveal_with_fuel(pow_int, 15);
    lemma_pow15_pos(n);
    assert(pow_int(15, 13) == 1946195068359375) by {
        assert(pow_int(15, 0) == 1);
        assert(pow_int(15, 1) == 15);
        assert(pow_int(15, 2) == 225);
        assert(pow_int(15, 3) == 3375);
        assert(pow_int(15, 4) == 50625);
        assert(pow_int(15, 5) == 759375);
        assert(pow_int(15, 6) == 11390625);
        assert(pow_int(15, 7) == 170859375);
        assert(pow_int(15, 8) == 2562890625);
        assert(pow_int(15, 9) == 38443359375);
        assert(pow_int(15, 10) == 576650390625);
        assert(pow_int(15, 11) == 8649755859375);
        assert(pow_int(15, 12) == 129746337890625);
    }
    if n >= 1 {
        lemma_pow15_mono(n);
    }
}

/// Powers of fifteen are monotone up to the exponent thirteen.
proof fn lemma_pow15_mono(n: nat)
    requires
        1 <= n <= 13,
    ensures
        pow_int(15, n) <= pow_int(15, 13),
    decreases 13 - n,
{
    if n == 13 {
    } else {
        lemma_pow15_mono(n + 1);
        assert(pow_int(15, (n + 1) as nat) == 15 * pow_int(15, n));
        lemma_pow15_pos(n);
        assert(pow_int(15, n) <= 15 * pow_int(15, n)) by (nonlinear_arith)
            requires
                pow_int(15, n) >= 1,
        ;
    }
}

/// Powers of fifteen are positive.
proof fn lemma_pow15_pos(n: nat)
    ensures
        pow_int(15, n) >= 1,
    decreases n,
{
    if n == 0 {
    } else {
        lemma_pow15_pos((n - 1) as nat);
        assert(15 * pow_int(15, (n - 1) as nat) >= 15) by (nonlinear_arith)
            requires
                pow_int(15, (n - 1) as nat) >= 1,
        ;
    }
}

} // verus!
