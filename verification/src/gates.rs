//! Pure functions building the polynomial identities of the SHA-256
//! message schedule (chunk decomposition, range checks,
//! lookup-free spread consistency via Lagrange interpolation, sigma
//! mixing, and final word assembly).
//!
//! Every public constructor here states exactly, for every environment,
//! the field value its polynomial takes, in terms of the values of the
//! operand expressions.

use vstd::prelude::*;
use vstd::arithmetic::div_mod::{
    lemma_add_mod_noop_right, lemma_mod_add_multiples_vanish, lemma_mul_mod_noop_general,
    lemma_small_mod, lemma_mod_bound,
};
use crate::expr::{ColumnQuery, Expression};
use crate::field::{fadd, fmul, fneg, fsub, modulus, Fp, MODULUS};

verus! {

/// A polynomial identity; the constraint system enforces that it vanish on
/// every row where its selector is active.
pub struct Gate(pub Expression);

/// The interpolation samples for the 2-bit spread table: the value
/// interleaved with zero bits, for each dense value in `[0, 4)`.
pub open spec fn two_bit_spread_evals() -> Seq<u32> {
    seq![0u32, 1u32, 4u32, 5u32]
}

/// The interpolation samples for the 3-bit spread table.
pub open spec fn three_bit_spread_evals() -> Seq<u32> {
    seq![0u32, 1u32, 4u32, 5u32, 16u32, 17u32, 20u32, 21u32]
}

/// The 2-bit range-check polynomial.
pub open spec fn two_bit_range_poly(d: int) -> int {
    range_poly(d, 0, 3)
}

/// The 3-bit range-check polynomial.
pub open spec fn three_bit_range_poly(d: int) -> int {
    range_poly(d, 0, 7)
}

/// The 2-bit spread-consistency polynomial: the interpolation of the
/// spread table at `d`, minus `s` scaled by the interpolation factor 4!.
pub open spec fn two_bit_spread_poly(d: int, s: int) -> int {
    fadd(lagrange_sum(d, two_bit_spread_evals(), 4), fneg(fmul(s, 24)))
}

/// The 3-bit spread-consistency polynomial, with factor 8!.
pub open spec fn three_bit_spread_poly(d: int, s: int) -> int {
    fadd(lagrange_sum(d, three_bit_spread_evals(), 8), fneg(fmul(s, 40320)))
}

/// The packed pair of 2-bit checks under one selector.
pub open spec fn s22_poly(d0: int, s0: int, d1: int, s1: int) -> int {
    fadd(
        fadd(fadd(two_bit_range_poly(d0), two_bit_range_poly(d1)), two_bit_spread_poly(d0, s0)),
        two_bit_spread_poly(d1, s1),
    )
}

/// The packed 2-bit and 3-bit checks under one selector.
pub open spec fn s23_poly(d0: int, s0: int, d1: int, s1: int) -> int {
    fadd(
        fadd(fadd(two_bit_range_poly(d0), three_bit_range_poly(d1)), two_bit_spread_poly(d0, s0)),
        three_bit_spread_poly(d1, s1),
    )
}

/// The (16, 16) decomposition identity.
pub open spec fn decompose_0_poly(lo: int, hi: int, word: int) -> int {
    fadd(fadd(lo, fmul(hi, 0x10000)), fneg(word))
}

/// The (3, 4, 11, 14) decomposition identity.
pub open spec fn decompose_1_poly(a: int, b: int, c: int, d: int, word: int) -> int {
    fadd(fadd(fadd(fadd(a, fmul(b, 0x8)), fmul(c, 0x80)), fmul(d, 0x40000)), fneg(word))
}

/// The (3, 4, 3, 7, 1, 1, 13) decomposition identity.
pub open spec fn decompose_2_poly(
    a: int,
    b: int,
    c: int,
    d: int,
    e: int,
    f: int,
    g: int,
    word: int,
) -> int {
    fadd(
        fadd(
            fadd(
                fadd(fadd(fadd(fadd(a, fmul(b, 0x8)), fmul(c, 0x80)), fmul(d, 0x400)), fmul(
                    e,
                    0x20000,
                )),
                fmul(f, 0x40000),
            ),
            fmul(g, 0x80000),
        ),
        fneg(word),
    )
}

/// The (10, 7, 2, 13) decomposition identity.
pub open spec fn decompose_3_poly(a: int, b: int, c: int, d: int, word: int) -> int {
    fadd(fadd(fadd(fadd(a, fmul(b, 0x400)), fmul(c, 0x20000)), fmul(d, 0x80000)), fneg(word))
}

/// The word-assembly identity: the four 16-bit partial sums, reduced
/// modulo 2^32 with an explicit carry, must reconstruct the word; the
/// carry must lie in `[0, 3]`.
pub open spec fn s_word_poly(
    sigma_0_lo: int,
    sigma_1_lo: int,
    w_7_lo: int,
    w_16_lo: int,
    sigma_0_hi: int,
    sigma_1_hi: int,
    w_7_hi: int,
    w_16_hi: int,
    word: int,
    carry: int,
) -> int {
    let lo = fadd(fadd(fadd(sigma_0_lo, sigma_1_lo), w_7_lo), w_16_lo);
    let hi = fadd(fadd(fadd(sigma_0_hi, sigma_1_hi), w_7_hi), w_16_hi);
    let word_check = fadd(
        fadd(fadd(lo, fmul(hi, 0x10000)), fneg(word)),
        fmul(fneg(carry), 0x100000000),
    );
    let carry_check = range_poly(carry, 0, 3);
    fadd(word_check, carry_check)
}

/// The spread-domain witness recomposition common to all sigma gates.
pub open spec fn sigma_witness_poly(r0_even: int, r0_odd: int, r1_even: int, r1_odd: int) -> int {
    fadd(fadd(r0_even, fmul(r0_odd, 2)), fmul(fadd(r1_even, fmul(r1_odd, 2)), 0x100000000))
}

/// The sigma_0 identity on the (3, 4, 11, 14) split: the even/odd witness
/// recomposition minus the spread-space sum of the three rotations.
pub open spec fn lower_sigma_0_poly(
    r0_even: int,
    r0_odd: int,
    r1_even: int,
    r1_odd: int,
    a: int,
    b_lo: int,
    b_hi: int,
    c: int,
    d: int,
) -> int {
    let wit = sigma_witness_poly(r0_even, r0_odd, r1_even, r1_odd);
    let xor_0 = fadd(fadd(fadd(b_lo, fmul(b_hi, 0x10)), fmul(c, 0x100)), fmul(d, 0x40000000));
    let xor_1 = fadd(
        fadd(fadd(fadd(c, fmul(d, 0x400000)), fmul(a, 0x4000000000000)), fmul(
            b_lo,
            0x100000000000000,
        )),
        fmul(b_hi, 0x1000000000000000),
    );
    let xor_2 = fadd(
        fadd(fadd(fadd(d, fmul(a, 0x10000000)), fmul(b_lo, 0x400000000)), fmul(
            b_hi,
            0x4000000000,
        )),
        fmul(c, 0x40000000000),
    );
    fadd(wit, fneg(fadd(fadd(xor_0, xor_1), xor_2)))
}

/// The sigma_1 identity on the (10, 7, 2, 13) split.
pub open spec fn lower_sigma_1_poly(
    r0_even: int,
    r0_odd: int,
    r1_even: int,
    r1_odd: int,
    a: int,
    b_lo: int,
    b_mid: int,
    b_hi: int,
    c: int,
    d: int,
) -> int {
    let wit = sigma_witness_poly(r0_even, r0_odd, r1_even, r1_odd);
    let xor_0 = fadd(
        fadd(fadd(fadd(b_lo, fmul(b_mid, 0x10)), fmul(b_hi, 0x100)), fmul(c, 0x4000)),
        fmul(d, 0x40000),
    );
    let xor_1 = fadd(
        fadd(
            fadd(fadd(fadd(c, fmul(d, 0x10)), fmul(a, 0x40000000)), fmul(
                b_lo,
                0x4000000000000,
            )),
            fmul(b_mid, 0x40000000000000),
        ),
        fmul(b_hi, 0x400000000000000),
    );
    let xor_2 = fadd(
        fadd(
            fadd(fadd(fadd(d, fmul(a, 0x4000000)), fmul(b_lo, 0x400000000000)), fmul(
                b_mid,
                0x4000000000000,
            )),
            fmul(b_hi, 0x40000000000000),
        ),
        fmul(c, 0x1000000000000000),
    );
    fadd(wit, fneg(fadd(fadd(xor_0, xor_1), xor_2)))
}

/// The sigma_0 identity on the (3, 4, 3, 7, 1, 1, 13) split.
pub open spec fn lower_sigma_0_v2_poly(
    r0_even: int,
    r0_odd: int,
    r1_even: int,
    r1_odd: int,
    a: int,
    b_lo: int,
    b_hi: int,
    c: int,
    d: int,
    e: int,
    f: int,
    g: int,
) -> int {
    let wit = sigma_witness_poly(r0_even, r0_odd, r1_even, r1_odd);
    let xor_0 = fadd(
        fadd(
            fadd(fadd(fadd(fadd(b_lo, fmul(b_hi, 0x10)), fmul(c, 0x100)), fmul(d, 0x4000)), fmul(
                e,
                0x10000000,
            )),
            fmul(f, 0x40000000),
        ),
        fmul(g, 0x100000000),
    );
    let xor_1 = fadd(
        fadd(
            fadd(
                fadd(
                    fadd(fadd(fadd(c, fmul(d, 0x40)), fmul(e, 0x100000)), fmul(f, 0x400000)),
                    fmul(g, 0x1000000),
                ),
                fmul(a, 0x4000000000000),
            ),
            fmul(b_lo, 0x100000000000000),
        ),
        fmul(b_hi, 0x1000000000000000),
    );
    let xor_2 = fadd(
        fadd(
            fadd(
                fadd(
                    fadd(fadd(fadd(f, fmul(g, 0x4)), fmul(a, 0x10000000)), fmul(
                        b_lo,
                        0x400000000,
                    )),
                    fmul(b_hi, 0x4000000000),
                ),
                fmul(c, 0x40000000000),
            ),
            fmul(d, 0x1000000000000),
        ),
        fmul(e, 0x4000000000000000),
    );
    fadd(wit, fneg(fadd(fadd(xor_0, xor_1), xor_2)))
}

/// The sigma_1 identity on the (3, 4, 3, 7, 1, 1, 13) split.
pub open spec fn lower_sigma_1_v2_poly(
    r0_even: int,
    r0_odd: int,
    r1_even: int,
    r1_odd: int,
    a: int,
    b_lo: int,
    b_hi: int,
    c: int,
    d: int,
    e: int,
    f: int,
    g: int,
) -> int {
    let wit = sigma_witness_poly(r0_even, r0_odd, r1_even, r1_odd);
    let xor_0 = fadd(fadd(fadd(d, fmul(e, 0x4000)), fmul(f, 0x10000)), fmul(g, 0x40000));
    let xor_1 = fadd(
        fadd(
            fadd(
                fadd(
                    fadd(fadd(fadd(e, fmul(f, 0x4)), fmul(g, 0x10)), fmul(a, 0x40000000)),
                    fmul(b_lo, 0x1000000000),
                ),
                fmul(b_hi, 0x10000000000),
            ),
            fmul(c, 0x100000000000),
        ),
        fmul(d, 0x4000000000000),
    );
    let xor_2 = fadd(
        fadd(
            fadd(
                fadd(
                    fadd(fadd(fadd(g, fmul(a, 0x4000000)), fmul(b_lo, 0x100000000)), fmul(
                        b_hi,
                        0x1000000000,
                    )),
                    fmul(c, 0x10000000000),
                ),
                fmul(d, 0x400000000000),
            ),
            fmul(e, 0x1000000000000000),
        ),
        fmul(f, 0x4000000000000000),
    );
    fadd(wit, fneg(fadd(fadd(xor_0, xor_1), xor_2)))
}

/// n factorial.
pub open spec fn fact(n: nat) -> nat
    decreases n,
{
    if n == 0 {
        1
    } else {
        n * fact((n - 1) as nat)
    }
}

/// The integer product of `(v - j)` over `j < upto`, skipping `j == skip`.
pub open spec fn prod_skip(v: int, skip: int, upto: nat) -> int
    decreases upto,
{
    if upto == 0 {
        1
    } else if upto - 1 == skip {
        prod_skip(v, skip, (upto - 1) as nat)
    } else {
        prod_skip(v, skip, (upto - 1) as nat) * (v - (upto - 1))
    }
}

/// The signed integer coefficient `n! / prod_skip(i, i, n)`, with the
/// division performed over the integers.
pub open spec fn lagrange_coef(i: int, n: nat) -> int {
    let d = prod_skip(i, i, n);
    if d < 0 {
        -(fact(n) as int / -d)
    } else {
        fact(n) as int / d
    }
}

/// One summand of the interpolation polynomial, evaluated at `v`.
pub open spec fn lagrange_term(v: int, evals: Seq<u32>, i: int) -> int {
    fmul(
        fmul(prod_skip(v, i, evals.len()) % modulus(), evals[i] as int),
        lagrange_coef(i, evals.len()) % modulus(),
    )
}

/// The interpolation polynomial's value at `v`: the sum of the first
/// `upto` summands.
pub open spec fn lagrange_sum(v: int, evals: Seq<u32>, upto: nat) -> int
    decreases upto,
{
    if upto == 0 {
        0
    } else {
        fadd(lagrange_sum(v, evals, (upto - 1) as nat), lagrange_term(v, evals, upto - 1))
    }
}

/// The range-check polynomial `(v - lo)(v - lo - 1)...(v - hi)`, with every
/// operation performed in the field.
pub open spec fn range_poly(v: int, lo: int, hi: int) -> int
    decreases hi + 1 - lo,
{
    if hi < lo {
        1
    } else {
        fmul(range_poly(v, lo, hi - 1), fsub(v, hi))
    }
}

/// Every expression evaluates to a canonical representative.
pub proof fn lemma_eval_in_field(e: Expression, env: Map<ColumnQuery, int>)
    ensures
        0 <= e.eval(env) < modulus(),
    decreases e,
{
    match e {
        Expression::Constant(f) => {
            lemma_mod_bound(f.as_int(), modulus());
        },
        Expression::Query(q) => {
            lemma_mod_bound(env[q], modulus());
        },
        Expression::Sum(a, b) => {
            lemma_mod_bound(a.eval(env) + b.eval(env), modulus());
        },
        Expression::Product(a, b) => {
            lemma_mod_bound(a.eval(env) * b.eval(env), modulus());
        },
        Expression::Negated(a) => {
            lemma_mod_bound(-a.eval(env), modulus());
        },
    }
}

/// Adding the embedding of `-j` subtracts `j` in the field.
proof fn lemma_fadd_neg_embed(a: int, j: int)
    requires
        0 <= j < modulus(),
    ensures
        fadd(a, (modulus() - j) % modulus()) == fsub(a, j),
{
    lemma_add_mod_noop_right(a, modulus() - j, modulus());
    lemma_mod_add_multiples_vanish(a - j, modulus());
}

/// Powers of seven, bounding the partial denominator products.
spec fn sevenpow(k: nat) -> int
    decreases k,
{
    if k == 0 {
        1
    } else {
        7 * sevenpow((k - 1) as nat)
    }
}

/// The denominator bound stays within machine range on small domains.
proof fn lemma_sevenpow_bound(k: nat)
    requires
        k <= 8,
    ensures
        1 <= sevenpow(k) <= 5764801,
        k < 8 ==> 7 * sevenpow(k) <= 5764801,
{
    reveal_with_fuel(sevenpow, 10);
    if k == 0 {
        assert(sevenpow(0) == 1);
    } else if k == 1 {
        assert(sevenpow(1) == 7);
    } else if k == 2 {
        assert(sevenpow(2) == 49);
    } else if k == 3 {
        assert(sevenpow(3) == 343);
    } else if k == 4 {
        assert(sevenpow(4) == 2401);
    } else if k == 5 {
        assert(sevenpow(5) == 16807);
    } else if k == 6 {
        assert(sevenpow(6) == 117649);
    } else if k == 7 {
        assert(sevenpow(7) == 823543);
    } else {
        assert(sevenpow(8) == 5764801);
    }
}

/// The denominator product at a sample point is a product of nonzero
/// factors, hence nonzero.
proof fn lemma_prod_skip_self_nonzero(i: int, upto: nat)
    ensures
        prod_skip(i, i, upto) != 0,
    decreases upto,
{
    if upto == 0 {
    } else if upto - 1 == i {
        lemma_prod_skip_self_nonzero(i, (upto - 1) as nat);
    } else {
        lemma_prod_skip_self_nonzero(i, (upto - 1) as nat);
        vstd::arithmetic::mul::lemma_mul_nonzero(
            prod_skip(i, i, (upto - 1) as nat),
            i - (upto - 1),
        );
    }
}

/// The factorial function stays small on the interpolation domains used
/// here.
proof fn lemma_fact_bound(k: nat)
    requires
        k <= 8,
    ensures
        fact(k) <= 40320,
{
    reveal_with_fuel(fact, 10);
    if k == 0 {
        assert(fact(0) == 1);
    } else if k == 1 {
        assert(fact(1) == 1);
    } else if k == 2 {
        assert(fact(2) == 2);
    } else if k == 3 {
        assert(fact(3) == 6);
    } else if k == 4 {
        assert(fact(4) == 24);
    } else if k == 5 {
        assert(fact(5) == 120);
    } else if k == 6 {
        assert(fact(6) == 720);
    } else if k == 7 {
        assert(fact(7) == 5040);
    } else {
        assert(fact(8) == 40320);
    }
}

impl Gate {
    /// Builds the unique interpolation polynomial through the sample points
    /// `(points[i], evals[i])`, scaled by `factor = n!` so that no field
    /// division is needed: the result satisfies
    /// `expr(points[i]) = factor * evals[i]` (see `lemma_lagrange_interp`).
    ///
    /// The sample points must be the consecutive integers `0..n` with `n`
    /// at most 8, which keeps every intermediate integer product within
    /// machine range and makes the coefficient divisions exact.
    fn lagrange_interpolate(var: Expression, points: Vec<u16>, evals: Vec<u32>) -> (r: (Fp, Expression))
        requires
            points.len() == evals.len(),
            1 <= points.len() <= 8,
            forall|i: int| 0 <= i < points.len() ==> points[i] as int == i,
        ensures
            r.0.inv(),
            r.0.as_int() == fact(points.len() as nat),
            forall|env: Map<ColumnQuery, int>| #[trigger] r.1.eval(env) == lagrange_sum(
                var.eval(env),
                evals@,
                evals.len() as nat,
            ),
            forall|env: Map<ColumnQuery, int>, i: int|
                #![trigger r.1.eval(env), evals@[i]]
                0 <= i < points.len() && var.eval(env) == i ==> r.1.eval(env) == fmul(
                    fact(points.len() as nat) as int,
                    evals@[i] as int,
                ),
            var.is_closed() ==> r.1.is_closed(),
    {
        let n = points.len();

        let mut factor: u64 = 1;
        let mut k: usize = 0;
        while k < n
            invariant
                k <= n,
                n <= 8,
                factor == fact(k as nat),
            decreases n - k,
        {
            proof {
                lemma_fact_bound((k + 1) as nat);
                assert(fact((k + 1) as nat) == ((k + 1) as nat) * fact(k as nat));
                assert(factor as int * ((k + 1) as int) == fact((k + 1) as nat) as int)
                    by (nonlinear_arith)
                    requires
                        factor == fact(k as nat),
                        fact((k + 1) as nat) == ((k + 1) as nat) * fact(k as nat),
                ;
            }
            factor = factor * ((k + 1) as u64);
            k = k + 1;
        }

        proof {
            lemma_fact_bound(n as nat);
        }
        let mut expr = Expression::constant(0);
        let mut idx: usize = 0;
        while idx < n
            invariant
                idx <= n,
                n <= 8,
                n == points.len(),
                n == evals.len(),
                factor == fact(n as nat),
                factor <= 40320,
                forall|i: int| 0 <= i < points.len() ==> points[i] as int == i,
                forall|env: Map<ColumnQuery, int>| #[trigger] expr.eval(env) == lagrange_sum(
                    var.eval(env),
                    evals@,
                    idx as nat,
                ),
                var.is_closed() ==> expr.is_closed(),
            decreases n - idx,
        {
            // The numerator: the product of (var - j) over the other points.
            let mut prod = Expression::constant(1);
            let mut j: usize = 0;
            while j < n
                invariant
                    j <= n,
                    n <= 8,
                    idx < n,
                    forall|env: Map<ColumnQuery, int>| #[trigger] prod.eval(env) == prod_skip(
                        var.eval(env),
                        idx as int,
                        j as nat,
                    ) % modulus(),
                    var.is_closed() ==> prod.is_closed(),
                decreases n - j,
            {
                if j != idx {
                    let c = Expression::constant(MODULUS - j as u64);
                    let f = var.dup().plus(c);
                    let prod_next = prod.dup().times(f);
                    proof {
                        assert forall|env: Map<ColumnQuery, int>| #[trigger] prod_next.eval(env)
                            == prod_skip(var.eval(env), idx as int, (j + 1) as nat) % modulus() by {
                            let v = var.eval(env);
                            lemma_eval_in_field(var, env);
                            lemma_fadd_neg_embed(v, j as int);
                            assert(f.eval(env) == fsub(v, j as int));
                            assert(prod_next.eval(env) == fmul(
                                prod_skip(v, idx as int, j as nat) % modulus(),
                                (v - j) % modulus(),
                            ));
                            lemma_mul_mod_noop_general(
                                prod_skip(v, idx as int, j as nat),
                                v - j,
                                modulus(),
                            );
                            assert(prod_skip(v, idx as int, (j + 1) as nat) == prod_skip(
                                v,
                                idx as int,
                                j as nat,
                            ) * (v - j));
                        }
                    }
                    prod = prod_next;
                } else {
                    proof {
                        assert forall|env: Map<ColumnQuery, int>| #[trigger] prod.eval(env)
                            == prod_skip(var.eval(env), idx as int, (j + 1) as nat)
                            % modulus() by {
                            assert(prod_skip(var.eval(env), idx as int, (j + 1) as nat)
                                == prod_skip(var.eval(env), idx as int, j as nat));
                        }
                    }
                }
                j = j + 1;
            }

            // The denominator: the integer product of (idx - j) over the
            // other points.
            let mut denom: i64 = 1;
            let mut j2: usize = 0;
            while j2 < n
                invariant
                    j2 <= n,
                    n <= 8,
                    idx < n,
                    denom == prod_skip(idx as int, idx as int, j2 as nat),
                    -sevenpow(j2 as nat) <= denom <= sevenpow(j2 as nat),
                decreases n - j2,
            {
                if j2 != idx {
                    proof {
                        lemma_sevenpow_bound(j2 as nat);
                        lemma_sevenpow_bound((j2 + 1) as nat);
                        assert(-7 * sevenpow(j2 as nat) <= denom * (idx as int - j2 as int)
                            <= 7 * sevenpow(j2 as nat)) by (nonlinear_arith)
                            requires
                                -sevenpow(j2 as nat) <= denom <= sevenpow(j2 as nat),
                                -7 <= idx as int - j2 as int <= 7,
                                sevenpow(j2 as nat) >= 1,
                        ;
                    }
                    denom = denom * (idx as i64 - j2 as i64);
                } else {
                    proof {
                        lemma_sevenpow_bound(j2 as nat);
                        lemma_sevenpow_bound((j2 + 1) as nat);
                        assert(-sevenpow((j2 + 1) as nat) <= denom <= sevenpow((j2 + 1) as nat))
                            by (nonlinear_arith)
                            requires
                                -sevenpow(j2 as nat) <= denom <= sevenpow(j2 as nat),
                                7 * sevenpow(j2 as nat) == sevenpow((j2 + 1) as nat),
                                sevenpow(j2 as nat) >= 1,
                        ;
                    }
                }
                j2 = j2 + 1;
            }

            proof {
                lemma_sevenpow_bound(n as nat);
                lemma_prod_skip_self_nonzero(idx as int, n as nat);
            }

            // The scaled coefficient factor / denominator, embedded into the
            // field with its sign.
            let cexpr: Expression;
            if denom < 0 {
                let q: u64 = factor / ((-denom) as u64);
                cexpr = Expression::constant(MODULUS - q);
                proof {
                    assert(q <= 40320);
                    assert(lagrange_coef(idx as int, n as nat) == -(q as int));
                    assert((MODULUS - q) as int % modulus() == (-(q as int)) % modulus()) by {
                        lemma_mod_add_multiples_vanish(-(q as int), modulus());
                    }
                }
            } else {
                let q: u64 = factor / (denom as u64);
                cexpr = Expression::constant(q);
                proof {
                    assert(q <= 40320);
                    assert(lagrange_coef(idx as int, n as nat) == q as int);
                    lemma_small_mod(q as nat, modulus() as nat);
                }
            }

            let ev: u32 = evals[idx];
            let term = prod.scaled(ev as u64).times(cexpr);
            let expr_next = expr.plus(term);
            proof {
                assert forall|env: Map<ColumnQuery, int>| #[trigger] expr_next.eval(env)
                    == lagrange_sum(var.eval(env), evals@, (idx + 1) as nat) by {
                    let v = var.eval(env);
                    lemma_small_mod(ev as nat, modulus() as nat);
                    lemma_small_mod((lagrange_coef(idx as int, n as nat)
                        % modulus()) as nat, modulus() as nat);
                    assert(term.eval(env) == lagrange_term(v, evals@, idx as int));
                    assert(lagrange_sum(v, evals@, (idx + 1) as nat) == fadd(
                        lagrange_sum(v, evals@, idx as nat),
                        lagrange_term(v, evals@, idx as int),
                    ));
                }
            }
            expr = expr_next;
            idx = idx + 1;
        }

        let r = (Fp::from_small(factor), expr);
        proof {
            assert forall|env: Map<ColumnQuery, int>, i: int|
                0 <= i < points.len() && var.eval(env) == i implies #[trigger] r.1.eval(env)
                == fmul(fact(points.len() as nat) as int, #[trigger] evals@[i] as int) by {
                crate::laws::lemma_lagrange_interpolation(i, evals@);
            }
        }
        r
    }

    /// The product of `(value - i)` for every integer `i` in `[lo, hi]`;
    /// it vanishes exactly when `value` is one of those integers, for the
    /// small windows stated by `lemma_range_poly_window`.
    fn range_check(value: Expression, lower_range: u64, upper_range: u64) -> (r: Expression)
        requires
            lower_range <= upper_range,
            upper_range < 65536,
        ensures
            forall|env: Map<ColumnQuery, int>| #[trigger] r.eval(env) == range_poly(
                value.eval(env),
                lower_range as int,
                upper_range as int,
            ),
            value.is_closed() ==> r.is_closed(),
    {
        let mut expr = Expression::constant(1);
        let mut i: u64 = lower_range;
        proof {
            assert forall|env: Map<ColumnQuery, int>| #[trigger] expr.eval(env) == range_poly(
                value.eval(env),
                lower_range as int,
                lower_range as int - 1,
            ) by {
                lemma_small_mod(1, modulus() as nat);
            }
        }
        while i <= upper_range
            invariant
                lower_range <= i <= upper_range + 1,
                upper_range < 65536,
                forall|env: Map<ColumnQuery, int>| #[trigger] expr.eval(env) == range_poly(
                    value.eval(env),
                    lower_range as int,
                    i as int - 1,
                ),
                value.is_closed() ==> expr.is_closed(),
            decreases upper_range + 1 - i,
        {
            let c = Expression::constant(MODULUS - i);
            let f = value.dup().plus(c);
            let expr_next = expr.times(f);
            proof {
                assert forall|env: Map<ColumnQuery, int>| #[trigger] expr_next.eval(env)
                    == range_poly(value.eval(env), lower_range as int, i as int) by {
                    let v = value.eval(env);
                    lemma_fadd_neg_embed(v, i as int);
                    assert(f.eval(env) == fsub(v, i as int));
                    assert(range_poly(v, lower_range as int, i as int) == fmul(
                        range_poly(v, lower_range as int, i as int - 1),
                        fsub(v, i as int),
                    ));
                }
            }
            expr = expr_next;
            i = i + 1;
        }
        expr
    }

    /// The range check specialized to 2-bit values.
    fn two_bit_range_check(value: Expression) -> (r: Expression)
        ensures
            forall|env: Map<ColumnQuery, int>| #[trigger] r.eval(env) == two_bit_range_poly(
                value.eval(env),
            ),
            value.is_closed() ==> r.is_closed(),
    {
        Self::range_check(value, 0, 3)
    }

    /// The range check specialized to 3-bit values.
    fn three_bit_range_check(value: Expression) -> (r: Expression)
        ensures
            forall|env: Map<ColumnQuery, int>| #[trigger] r.eval(env) == three_bit_range_poly(
                value.eval(env),
            ),
            value.is_closed() ==> r.is_closed(),
    {
        Self::range_check(value, 0, 7)
    }

    /// The 2-bit spread-consistency polynomial, interpolated through the
    /// four spread-table samples so that no lookup argument is needed.
    fn two_bit_spread(dense: Expression, spread: Expression) -> (r: Expression)
        ensures
            forall|env: Map<ColumnQuery, int>| #[trigger] r.eval(env) == two_bit_spread_poly(
                dense.eval(env),
                spread.eval(env),
            ),
            dense.is_closed() && spread.is_closed() ==> r.is_closed(),
    {
        let mut points: Vec<u16> = Vec::new();
        points.push(0);
        points.push(1);
        points.push(2);
        points.push(3);
        let mut evals: Vec<u32> = Vec::new();
        evals.push(0);
        evals.push(1);
        evals.push(4);
        evals.push(5);
        proof {
            assert(evals@ =~= two_bit_spread_evals());
            assert forall|i: int| 0 <= i < points@.len() implies points@[i] as int == i by {
                assert(points@[0] == 0u16);
                assert(points@[1] == 1u16);
                assert(points@[2] == 2u16);
                assert(points@[3] == 3u16);
            }
        }
        let fe = Self::lagrange_interpolate(dense, points, evals);
        proof {
            reveal_with_fuel(fact, 6);
            assert(fact(4) == 24);
        }
        let scaled_spread = spread.scaled(fe.0.rep);
        fe.1.plus(scaled_spread.negated())
    }

    /// The 3-bit spread-consistency polynomial.
    fn three_bit_spread(dense: Expression, spread: Expression) -> (r: Expression)
        ensures
            forall|env: Map<ColumnQuery, int>| #[trigger] r.eval(env) == three_bit_spread_poly(
                dense.eval(env),
                spread.eval(env),
            ),
            dense.is_closed() && spread.is_closed() ==> r.is_closed(),
    {
        let mut points: Vec<u16> = Vec::new();
        points.push(0);
        points.push(1);
        points.push(2);
        points.push(3);
        points.push(4);
        points.push(5);
        points.push(6);
        points.push(7);
        let mut evals: Vec<u32> = Vec::new();
        evals.push(0);
        evals.push(1);
        evals.push(4);
        evals.push(5);
        evals.push(16);
        evals.push(17);
        evals.push(20);
        evals.push(21);
        proof {
            assert(evals@ =~= three_bit_spread_evals());
            assert forall|i: int| 0 <= i < points@.len() implies points@[i] as int == i by {
                assert(points@[0] == 0u16);
                assert(points@[1] == 1u16);
                assert(points@[2] == 2u16);
                assert(points@[3] == 3u16);
                assert(points@[4] == 4u16);
                assert(points@[5] == 5u16);
                assert(points@[6] == 6u16);
                assert(points@[7] == 7u16);
            }
        }
        let fe = Self::lagrange_interpolate(dense, points, evals);
        proof {
            reveal_with_fuel(fact, 10);
            assert(fact(8) == 40320);
        }
        let scaled_spread = spread.scaled(fe.0.rep);
        fe.1.plus(scaled_spread.negated())
    }

    /// Spread and range check on two 2-bit words, packed under one selector.
    pub fn s22(
        s22: Expression,
        dense_0: Expression,
        spread_0: Expression,
        dense_1: Expression,
        spread_1: Expression,
    ) -> (g: Gate)
        ensures
            forall|env: Map<ColumnQuery, int>| #[trigger] g.0.eval(env) == fmul(
                s22.eval(env),
                s22_poly(
                    dense_0.eval(env),
                    spread_0.eval(env),
                    dense_1.eval(env),
                    spread_1.eval(env),
                ),
            ),
            s22.is_closed() && dense_0.is_closed() && spread_0.is_closed() && dense_1.is_closed() && spread_1.is_closed()
                ==> g.0.is_closed(),
    {
        let rc0 = Self::two_bit_range_check(dense_0.dup());
        let rc1 = Self::two_bit_range_check(dense_1.dup());
        let sp0 = Self::two_bit_spread(dense_0, spread_0);
        let sp1 = Self::two_bit_spread(dense_1, spread_1);
        Gate(s22.times(rc0.plus(rc1).plus(sp0).plus(sp1)))
    }

    /// Spread and range check on a 2-bit word and a 3-bit word, packed
    /// under one selector.
    pub fn s23(
        s23: Expression,
        dense_0: Expression,
        spread_0: Expression,
        dense_1: Expression,
        spread_1: Expression,
    ) -> (g: Gate)
        ensures
            forall|env: Map<ColumnQuery, int>| #[trigger] g.0.eval(env) == fmul(
                s23.eval(env),
                s23_poly(
                    dense_0.eval(env),
                    spread_0.eval(env),
                    dense_1.eval(env),
                    spread_1.eval(env),
                ),
            ),
            s23.is_closed() && dense_0.is_closed() && spread_0.is_closed() && dense_1.is_closed() && spread_1.is_closed()
                ==> g.0.is_closed(),
    {
        let rc0 = Self::two_bit_range_check(dense_0.dup());
        let rc1 = Self::three_bit_range_check(dense_1.dup());
        let sp0 = Self::two_bit_spread(dense_0, spread_0);
        let sp1 = Self::three_bit_spread(dense_1, spread_1);
        Gate(s23.times(rc0.plus(rc1).plus(sp0).plus(sp1)))
    }

    /// The (16, 16) decomposition gate, used for W_0, W_62 and W_63.
    pub fn s_decompose_0(
        s_decompose_0: Expression,
        lo: Expression,
        hi: Expression,
        word: Expression,
    ) -> (g: Gate)
        ensures
            forall|env: Map<ColumnQuery, int>| #[trigger] g.0.eval(env) == fmul(
                s_decompose_0.eval(env),
                decompose_0_poly(lo.eval(env), hi.eval(env), word.eval(env)),
            ),
            s_decompose_0.is_closed() && lo.is_closed() && hi.is_closed() && word.is_closed()
                ==> g.0.is_closed(),
    {
        Gate(s_decompose_0.times(lo.plus(hi.scaled(0x10000)).plus(word.negated())))
    }

    /// The (3, 4, 11, 14) decomposition gate, used for W_1 to W_13.
    pub fn s_decompose_1(
        s_decompose_1: Expression,
        a: Expression,
        b: Expression,
        c: Expression,
        d: Expression,
        word: Expression,
    ) -> (g: Gate)
        ensures
            forall|env: Map<ColumnQuery, int>| #[trigger] g.0.eval(env) == fmul(
                s_decompose_1.eval(env),
                decompose_1_poly(
                    a.eval(env),
                    b.eval(env),
                    c.eval(env),
                    d.eval(env),
                    word.eval(env),
                ),
            ),
            s_decompose_1.is_closed() && a.is_closed() && b.is_closed() && c.is_closed() && d.is_closed() && word.is_closed()
                ==> g.0.is_closed(),
    {
        Gate(
            s_decompose_1.times(
                a.plus(b.scaled(0x8)).plus(c.scaled(0x80)).plus(d.scaled(0x40000)).plus(
                    word.negated(),
                ),
            ),
        )
    }

    /// The (3, 4, 3, 7, 1, 1, 13) decomposition gate, used for W_14 to W_48.
    pub fn s_decompose_2(
        s_decompose_2: Expression,
        a: Expression,
        b: Expression,
        c: Expression,
        d: Expression,
        e: Expression,
        f: Expression,
        g: Expression,
        word: Expression,
    ) -> (r: Gate)
        ensures
            forall|env: Map<ColumnQuery, int>| #[trigger] r.0.eval(env) == fmul(
                s_decompose_2.eval(env),
                decompose_2_poly(
                    a.eval(env),
                    b.eval(env),
                    c.eval(env),
                    d.eval(env),
                    e.eval(env),
                    f.eval(env),
                    g.eval(env),
                    word.eval(env),
                ),
            ),
            s_decompose_2.is_closed() && a.is_closed() && b.is_closed() && c.is_closed() && d.is_closed() && e.is_closed() && f.is_closed() && g.is_closed() && word.is_closed()
                ==> r.0.is_closed(),
    {
        Gate(
            s_decompose_2.times(
                a.plus(b.scaled(0x8)).plus(c.scaled(0x80)).plus(d.scaled(0x400)).plus(
                    e.scaled(0x20000),
                ).plus(f.scaled(0x40000)).plus(g.scaled(0x80000)).plus(word.negated()),
            ),
        )
    }

    /// The (10, 7, 2, 13) decomposition gate, used for W_49 to W_61.
    pub fn s_decompose_3(
        s_decompose_3: Expression,
        a: Expression,
        b: Expression,
        c: Expression,
        d: Expression,
        word: Expression,
    ) -> (g: Gate)
        ensures
            forall|env: Map<ColumnQuery, int>| #[trigger] g.0.eval(env) == fmul(
                s_decompose_3.eval(env),
                decompose_3_poly(
                    a.eval(env),
                    b.eval(env),
                    c.eval(env),
                    d.eval(env),
                    word.eval(env),
                ),
            ),
            s_decompose_3.is_closed() && a.is_closed() && b.is_closed() && c.is_closed() && d.is_closed() && word.is_closed()
                ==> g.0.is_closed(),
    {
        Gate(
            s_decompose_3.times(
                a.plus(b.scaled(0x400)).plus(c.scaled(0x20000)).plus(d.scaled(0x80000)).plus(
                    word.negated(),
                ),
            ),
        )
    }

    /// The word-assembly gate for W_16 to W_63.
    pub fn s_word(
        s_word: Expression,
        sigma_0_lo: Expression,
        sigma_1_lo: Expression,
        w_7_lo: Expression,
        w_16_lo: Expression,
        sigma_0_hi: Expression,
        sigma_1_hi: Expression,
        w_7_hi: Expression,
        w_16_hi: Expression,
        word: Expression,
        carry: Expression,
    ) -> (g: Gate)
        ensures
            forall|env: Map<ColumnQuery, int>| #[trigger] g.0.eval(env) == fmul(
                s_word.eval(env),
                s_word_poly(
                    sigma_0_lo.eval(env),
                    sigma_1_lo.eval(env),
                    w_7_lo.eval(env),
                    w_16_lo.eval(env),
                    sigma_0_hi.eval(env),
                    sigma_1_hi.eval(env),
                    w_7_hi.eval(env),
                    w_16_hi.eval(env),
                    word.eval(env),
                    carry.eval(env),
                ),
            ),
            s_word.is_closed() && sigma_0_lo.is_closed() && sigma_1_lo.is_closed() && w_7_lo.is_closed() && w_16_lo.is_closed() && sigma_0_hi.is_closed() && sigma_1_hi.is_closed() && w_7_hi.is_closed() && w_16_hi.is_closed() && word.is_closed() && carry.is_closed()
                ==> g.0.is_closed(),
    {
        let lo = sigma_0_lo.plus(sigma_1_lo).plus(w_7_lo).plus(w_16_lo);
        let hi = sigma_0_hi.plus(sigma_1_hi).plus(w_7_hi).plus(w_16_hi);
        let word_check = lo.plus(hi.scaled(0x10000)).plus(word.negated()).plus(
            carry.dup().negated().scaled(0x100000000),
        );
        let carry_check = Self::range_check(carry, 0, 3);
        Gate(s_word.times(word_check.plus(carry_check)))
    }

    /// The sigma_0 gate on the (3, 4, 11, 14) split, for W_1 to W_13.
    pub fn s_lower_sigma_0(
        s_lower_sigma_0: Expression,
        spread_r0_even: Expression,
        spread_r0_odd: Expression,
        spread_r1_even: Expression,
        spread_r1_odd: Expression,
        spread_a: Expression,
        spread_b_lo: Expression,
        spread_b_hi: Expression,
        spread_c: Expression,
        spread_d: Expression,
    ) -> (g: Gate)
        ensures
            forall|env: Map<ColumnQuery, int>| #[trigger] g.0.eval(env) == fmul(
                s_lower_sigma_0.eval(env),
                lower_sigma_0_poly(
                    spread_r0_even.eval(env),
                    spread_r0_odd.eval(env),
                    spread_r1_even.eval(env),
                    spread_r1_odd.eval(env),
                    spread_a.eval(env),
                    spread_b_lo.eval(env),
                    spread_b_hi.eval(env),
                    spread_c.eval(env),
                    spread_d.eval(env),
                ),
            ),
            s_lower_sigma_0.is_closed() && spread_r0_even.is_closed() && spread_r0_odd.is_closed() && spread_r1_even.is_closed() && spread_r1_odd.is_closed() && spread_a.is_closed() && spread_b_lo.is_closed() && spread_b_hi.is_closed() && spread_c.is_closed() && spread_d.is_closed()
                ==> g.0.is_closed(),
    {
        let wit = spread_r0_even.plus(spread_r0_odd.scaled(2)).plus(
            spread_r1_even.plus(spread_r1_odd.scaled(2)).scaled(0x100000000),
        );
        let xor_0 = spread_b_lo.dup().plus(spread_b_hi.dup().scaled(0x10)).plus(
            spread_c.dup().scaled(0x100),
        ).plus(spread_d.dup().scaled(0x40000000));
        let xor_1 = spread_c.dup().plus(spread_d.dup().scaled(0x400000)).plus(
            spread_a.dup().scaled(0x4000000000000),
        ).plus(spread_b_lo.dup().scaled(0x100000000000000)).plus(
            spread_b_hi.dup().scaled(0x1000000000000000),
        );
        let xor_2 = spread_d.plus(spread_a.scaled(0x10000000)).plus(
            spread_b_lo.scaled(0x400000000),
        ).plus(spread_b_hi.scaled(0x4000000000)).plus(spread_c.scaled(0x40000000000));
        let xor = xor_0.plus(xor_1).plus(xor_2);
        Gate(s_lower_sigma_0.times(wit.plus(xor.negated())))
    }

    /// The sigma_1 gate on the (10, 7, 2, 13) split, for W_49 to W_61.
    pub fn s_lower_sigma_1(
        s_lower_sigma_1: Expression,
        spread_r0_even: Expression,
        spread_r0_odd: Expression,
        spread_r1_even: Expression,
        spread_r1_odd: Expression,
        spread_a: Expression,
        spread_b_lo: Expression,
        spread_b_mid: Expression,
        spread_b_hi: Expression,
        spread_c: Expression,
        spread_d: Expression,
    ) -> (g: Gate)
        ensures
            forall|env: Map<ColumnQuery, int>| #[trigger] g.0.eval(env) == fmul(
                s_lower_sigma_1.eval(env),
                lower_sigma_1_poly(
                    spread_r0_even.eval(env),
                    spread_r0_odd.eval(env),
                    spread_r1_even.eval(env),
                    spread_r1_odd.eval(env),
                    spread_a.eval(env),
                    spread_b_lo.eval(env),
                    spread_b_mid.eval(env),
                    spread_b_hi.eval(env),
                    spread_c.eval(env),
                    spread_d.eval(env),
                ),
            ),
            s_lower_sigma_1.is_closed() && spread_r0_even.is_closed() && spread_r0_odd.is_closed() && spread_r1_even.is_closed() && spread_r1_odd.is_closed() && spread_a.is_closed() && spread_b_lo.is_closed() && spread_b_mid.is_closed() && spread_b_hi.is_closed() && spread_c.is_closed() && spread_d.is_closed()
                ==> g.0.is_closed(),
    {
        let wit = spread_r0_even.plus(spread_r0_odd.scaled(2)).plus(
            spread_r1_even.plus(spread_r1_odd.scaled(2)).scaled(0x100000000),
        );
        let xor_0 = spread_b_lo.dup().plus(spread_b_mid.dup().scaled(0x10)).plus(
            spread_b_hi.dup().scaled(0x100),
        ).plus(spread_c.dup().scaled(0x4000)).plus(spread_d.dup().scaled(0x40000));
        let xor_1 = spread_c.dup().plus(spread_d.dup().scaled(0x10)).plus(
            spread_a.dup().scaled(0x40000000),
        ).plus(spread_b_lo.dup().scaled(0x4000000000000)).plus(
            spread_b_mid.dup().scaled(0x40000000000000),
        ).plus(spread_b_hi.dup().scaled(0x400000000000000));
        let xor_2 = spread_d.plus(spread_a.scaled(0x4000000)).plus(
            spread_b_lo.scaled(0x400000000000),
        ).plus(spread_b_mid.scaled(0x4000000000000)).plus(
            spread_b_hi.scaled(0x40000000000000),
        ).plus(spread_c.scaled(0x1000000000000000));
        let xor = xor_0.plus(xor_1).plus(xor_2);
        Gate(s_lower_sigma_1.times(wit.plus(xor.negated())))
    }

    /// The sigma_0 gate on the (3, 4, 3, 7, 1, 1, 13) split, for W_14 to
    /// W_48.
    pub fn s_lower_sigma_0_v2(
        s_lower_sigma_0_v2: Expression,
        spread_r0_even: Expression,
        spread_r0_odd: Expression,
        spread_r1_even: Expression,
        spread_r1_odd: Expression,
        spread_a: Expression,
        spread_b_lo: Expression,
        spread_b_hi: Expression,
        spread_c: Expression,
        spread_d: Expression,
        spread_e: Expression,
        spread_f: Expression,
        spread_g: Expression,
    ) -> (r: Gate)
        ensures
            forall|env: Map<ColumnQuery, int>| #[trigger] r.0.eval(env) == fmul(
                s_lower_sigma_0_v2.eval(env),
                lower_sigma_0_v2_poly(
                    spread_r0_even.eval(env),
                    spread_r0_odd.eval(env),
                    spread_r1_even.eval(env),
                    spread_r1_odd.eval(env),
                    spread_a.eval(env),
                    spread_b_lo.eval(env),
                    spread_b_hi.eval(env),
                    spread_c.eval(env),
                    spread_d.eval(env),
                    spread_e.eval(env),
                    spread_f.eval(env),
                    spread_g.eval(env),
                ),
            ),
            s_lower_sigma_0_v2.is_closed() && spread_r0_even.is_closed() && spread_r0_odd.is_closed() && spread_r1_even.is_closed() && spread_r1_odd.is_closed() && spread_a.is_closed() && spread_b_lo.is_closed() && spread_b_hi.is_closed() && spread_c.is_closed() && spread_d.is_closed() && spread_e.is_closed() && spread_f.is_closed() && spread_g.is_closed()
                ==> r.0.is_closed(),
    {
        let wit = spread_r0_even.plus(spread_r0_odd.scaled(2)).plus(
            spread_r1_even.plus(spread_r1_odd.scaled(2)).scaled(0x100000000),
        );
        let xor_0 = spread_b_lo.dup().plus(spread_b_hi.dup().scaled(0x10)).plus(
            spread_c.dup().scaled(0x100),
        ).plus(spread_d.dup().scaled(0x4000)).plus(spread_e.dup().scaled(0x10000000)).plus(
            spread_f.dup().scaled(0x40000000),
        ).plus(spread_g.dup().scaled(0x100000000));
        let xor_1 = spread_c.dup().plus(spread_d.dup().scaled(0x40)).plus(
            spread_e.dup().scaled(0x100000),
        ).plus(spread_f.dup().scaled(0x400000)).plus(spread_g.dup().scaled(0x1000000)).plus(
            spread_a.dup().scaled(0x4000000000000),
        ).plus(spread_b_lo.dup().scaled(0x100000000000000)).plus(
            spread_b_hi.dup().scaled(0x1000000000000000),
        );
        let xor_2 = spread_f.plus(spread_g.scaled(0x4)).plus(spread_a.scaled(0x10000000)).plus(
            spread_b_lo.scaled(0x400000000),
        ).plus(spread_b_hi.scaled(0x4000000000)).plus(spread_c.scaled(0x40000000000)).plus(
            spread_d.scaled(0x1000000000000),
        ).plus(spread_e.scaled(0x4000000000000000));
        let xor = xor_0.plus(xor_1).plus(xor_2);
        Gate(s_lower_sigma_0_v2.times(wit.plus(xor.negated())))
    }

    /// The sigma_1 gate on the (3, 4, 3, 7, 1, 1, 13) split, for W_14 to
    /// W_48.
    pub fn s_lower_sigma_1_v2(
        s_lower_sigma_1_v2: Expression,
        spread_r0_even: Expression,
        spread_r0_odd: Expression,
        spread_r1_even: Expression,
        spread_r1_odd: Expression,
        spread_a: Expression,
        spread_b_lo: Expression,
        spread_b_hi: Expression,
        spread_c: Expression,
        spread_d: Expression,
        spread_e: Expression,
        spread_f: Expression,
        spread_g: Expression,
    ) -> (r: Gate)
        ensures
            forall|env: Map<ColumnQuery, int>| #[trigger] r.0.eval(env) == fmul(
                s_lower_sigma_1_v2.eval(env),
                lower_sigma_1_v2_poly(
                    spread_r0_even.eval(env),
                    spread_r0_odd.eval(env),
                    spread_r1_even.eval(env),
                    spread_r1_odd.eval(env),
                    spread_a.eval(env),
                    spread_b_lo.eval(env),
                    spread_b_hi.eval(env),
                    spread_c.eval(env),
                    spread_d.eval(env),
                    spread_e.eval(env),
                    spread_f.eval(env),
                    spread_g.eval(env),
                ),
            ),
            s_lower_sigma_1_v2.is_closed() && spread_r0_even.is_closed() && spread_r0_odd.is_closed() && spread_r1_even.is_closed() && spread_r1_odd.is_closed() && spread_a.is_closed() && spread_b_lo.is_closed() && spread_b_hi.is_closed() && spread_c.is_closed() && spread_d.is_closed() && spread_e.is_closed() && spread_f.is_closed() && spread_g.is_closed()
                ==> r.0.is_closed(),
    {
        let wit = spread_r0_even.plus(spread_r0_odd.scaled(2)).plus(
            spread_r1_even.plus(spread_r1_odd.scaled(2)).scaled(0x100000000),
        );
        let xor_0 = spread_d.dup().plus(spread_e.dup().scaled(0x4000)).plus(
            spread_f.dup().scaled(0x10000),
        ).plus(spread_g.dup().scaled(0x40000));
        let xor_1 = spread_e.dup().plus(spread_f.dup().scaled(0x4)).plus(
            spread_g.dup().scaled(0x10),
        ).plus(spread_a.dup().scaled(0x40000000)).plus(spread_b_lo.dup().scaled(0x1000000000)).plus(
            spread_b_hi.dup().scaled(0x10000000000),
        ).plus(spread_c.dup().scaled(0x100000000000)).plus(spread_d.dup().scaled(0x4000000000000));
        let xor_2 = spread_g.plus(spread_a.scaled(0x4000000)).plus(
            spread_b_lo.scaled(0x100000000),
        ).plus(spread_b_hi.scaled(0x1000000000)).plus(spread_c.scaled(0x10000000000)).plus(
            spread_d.scaled(0x400000000000),
        ).plus(spread_e.scaled(0x1000000000000000)).plus(spread_f.scaled(0x4000000000000000));
        let xor = xor_0.plus(xor_1).plus(xor_2);
        Gate(s_lower_sigma_1_v2.times(wit.plus(xor.negated())))
    }
}

} // verus!
