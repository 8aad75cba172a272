use table16::expr::Expression;
use table16::field::{Fp, MODULUS};
use table16::gates::Gate;
use table16::spread::interleave_u16_with_zeros;

fn konst(v: u64) -> Expression {
    Expression::constant(v)
}

fn eval(e: &Expression) -> u64 {
    e.eval_closed().rep
}

#[test]
fn two_bit_spread_vanishes_on_table_pairs() {
    for d in 0u16..4 {
        let s = interleave_u16_with_zeros(d) as u64;
        let g = Gate::s22(
            konst(1),
            konst(d as u64),
            konst(s),
            konst(d as u64),
            konst(s),
        );
        assert_eq!(eval(&g.0), 0);
    }
}

#[test]
fn two_bit_spread_rejects_perturbed_witness() {
    for d in 0u16..4 {
        let s = interleave_u16_with_zeros(d) as u64;
        let good = interleave_u16_with_zeros(d) as u64;
        let g_up = Gate::s22(
            konst(1),
            konst(d as u64),
            konst(s + 1),
            konst(d as u64),
            konst(good),
        );
        // The spread check contributes 4! times the unit perturbation.
        assert_eq!(eval(&g_up.0), MODULUS - 24);
        if s >= 1 {
            let g_down = Gate::s22(
                konst(1),
                konst(d as u64),
                konst(s - 1),
                konst(d as u64),
                konst(good),
            );
            assert_eq!(eval(&g_down.0), 24);
        }
    }
}

#[test]
fn three_bit_spread_vanishes_on_table_pairs() {
    for d in 0u16..8 {
        let s3 = interleave_u16_with_zeros(d) as u64;
        let g = Gate::s23(konst(1), konst(1), konst(1), konst(d as u64), konst(s3));
        assert_eq!(eval(&g.0), 0);
    }
}

#[test]
fn three_bit_spread_rejects_perturbed_witness() {
    for d in 0u16..8 {
        let s3 = interleave_u16_with_zeros(d) as u64;
        let g = Gate::s23(konst(1), konst(1), konst(1), konst(d as u64), konst(s3 + 1));
        // The 3-bit check contributes 8! times the unit perturbation.
        assert_eq!(eval(&g.0), MODULUS - 40320);
    }
}

#[test]
fn carry_range_check_accepts_zero_to_three() {
    // Word check balanced by matching the high partial sums to the
    // carried multiple of 2^32, isolating the carry range check.
    for carry in 0u64..4 {
        let g = Gate::s_word(
            konst(1),
            konst(0),
            konst(0),
            konst(0),
            konst(0),
            konst(carry * 0x10000),
            konst(0),
            konst(0),
            konst(0),
            konst(0),
            konst(carry),
        );
        assert_eq!(eval(&g.0), 0);
    }
}

#[test]
fn carry_range_check_rejects_four_and_five() {
    for (carry, expected) in [(4u64, 24u64), (5, 120)] {
        let g = Gate::s_word(
            konst(1),
            konst(0),
            konst(0),
            konst(0),
            konst(0),
            konst(carry * 0x10000),
            konst(0),
            konst(0),
            konst(0),
            konst(0),
            konst(carry),
        );
        assert_eq!(eval(&g.0), expected);
    }
}

#[test]
fn decompose_0_reconstructs_word() {
    let word: u64 = 0x6162_6380;
    let lo: u64 = word & 0xFFFF;
    let hi: u64 = word >> 16;
    let g = Gate::s_decompose_0(konst(1), konst(lo), konst(hi), konst(word));
    assert_eq!(eval(&g.0), 0);
    // Incrementing a chunk shifts the identity by its weight.
    let g_hi = Gate::s_decompose_0(konst(1), konst(lo), konst(hi + 1), konst(word));
    assert_eq!(eval(&g_hi.0), 0x10000);
}

#[test]
fn decompose_1_reconstructs_word() {
    let word: u64 = 0x1234_5678;
    let a = word & 0x7;
    let b = (word >> 3) & 0xF;
    let c = (word >> 7) & 0x7FF;
    let d = word >> 18;
    let g = Gate::s_decompose_1(konst(1), konst(a), konst(b), konst(c), konst(d), konst(word));
    assert_eq!(eval(&g.0), 0);
    let g_b = Gate::s_decompose_1(
        konst(1),
        konst(a),
        konst(b + 1),
        konst(c),
        konst(d),
        konst(word),
    );
    assert_eq!(eval(&g_b.0), 0x8);
}

#[test]
fn decompose_2_reconstructs_word() {
    let word: u64 = 0xDEAD_BEEF;
    let a = word & 0x7;
    let b = (word >> 3) & 0xF;
    let c = (word >> 7) & 0x7;
    let d = (word >> 10) & 0x7F;
    let e = (word >> 17) & 0x1;
    let f = (word >> 18) & 0x1;
    let gch = word >> 19;
    let g = Gate::s_decompose_2(
        konst(1),
        konst(a),
        konst(b),
        konst(c),
        konst(d),
        konst(e),
        konst(f),
        konst(gch),
        konst(word),
    );
    assert_eq!(eval(&g.0), 0);
    let g_g = Gate::s_decompose_2(
        konst(1),
        konst(a),
        konst(b),
        konst(c),
        konst(d),
        konst(e),
        konst(f),
        konst(gch + 1),
        konst(word),
    );
    assert_eq!(eval(&g_g.0), 0x80000);
}

#[test]
fn decompose_3_reconstructs_word() {
    let word: u64 = 0x0F0F_0F0F;
    let a = word & 0x3FF;
    let b = (word >> 10) & 0x7F;
    let c = (word >> 17) & 0x3;
    let d = word >> 19;
    let g = Gate::s_decompose_3(konst(1), konst(a), konst(b), konst(c), konst(d), konst(word));
    assert_eq!(eval(&g.0), 0);
    let g_c = Gate::s_decompose_3(
        konst(1),
        konst(a),
        konst(b),
        konst(c + 1),
        konst(d),
        konst(word),
    );
    assert_eq!(eval(&g_c.0), 0x20000);
}

#[test]
fn word_assembly_vanishes_with_true_carry() {
    // Four operands whose sum overflows 2^32 once.
    let s0: u64 = 0xFFFF_FFFF;
    let s1: u64 = 0x0000_0001;
    let w7: u64 = 0x1234_0000;
    let w16: u64 = 0x0000_5678;
    let total = s0 + s1 + w7 + w16;
    let word = total & 0xFFFF_FFFF;
    let carry = total >> 32;
    assert_eq!(carry, 1);
    let g = Gate::s_word(
        konst(1),
        konst(s0 & 0xFFFF),
        konst(s1 & 0xFFFF),
        konst(w7 & 0xFFFF),
        konst(w16 & 0xFFFF),
        konst(s0 >> 16),
        konst(s1 >> 16),
        konst(w7 >> 16),
        konst(w16 >> 16),
        konst(word),
        konst(carry),
    );
    assert_eq!(eval(&g.0), 0);
    // The wrong carry leaves the identity off by a multiple of 2^32.
    let g_bad = Gate::s_word(
        konst(1),
        konst(s0 & 0xFFFF),
        konst(s1 & 0xFFFF),
        konst(w7 & 0xFFFF),
        konst(w16 & 0xFFFF),
        konst(s0 >> 16),
        konst(s1 >> 16),
        konst(w7 >> 16),
        konst(w16 >> 16),
        konst(word),
        konst(carry + 1),
    );
    assert_ne!(eval(&g_bad.0), 0);
}

#[test]
fn gates_vanish_whenever_selector_is_off() {
    // A zero selector masks even a violated identity.
    let g = Gate::s_decompose_0(konst(0), konst(7), konst(9), konst(1));
    assert_eq!(eval(&g.0), 0);
}

#[test]
fn field_arithmetic_wraps_at_the_modulus() {
    let one = Fp::one();
    let almost = Fp::from_small(MODULUS - 1);
    assert_eq!(almost.plus(one).rep, 0);
    assert_eq!(one.negate().rep, MODULUS - 1);
    let two = Fp::from_small(2);
    assert_eq!(almost.times(two).rep, MODULUS - 2);
    assert_eq!(Fp::from_small(MODULUS).rep, 0);
}

#[test]
fn closed_expressions_evaluate_structurally() {
    // (3 * 5 + (-2)) evaluated in the field.
    let e = konst(3).times(konst(5)).plus(konst(2).negated());
    assert_eq!(eval(&e), 13);
    let d = e.dup();
    assert_eq!(eval(&d), 13);
}

fn spread16(d: u16) -> u128 {
    interleave_u16_with_zeros(d) as u128
}

#[test]
fn sigma_0_v1_accepts_its_reduction_witness() {
    // Decompose a word on the (3, 4, 11, 14) split, build the rotated
    // spread-space sum, reduce it into even and odd planes, and confirm
    // that the identity vanishes on the witness.
    let w: u32 = 0x1234_5678;
    let a = (w & 0x7) as u16;
    let b = ((w >> 3) & 0xF) as u16;
    let c = ((w >> 7) & 0x7FF) as u16;
    let d = (w >> 18) as u16;
    let (sa, sbl, sbh) = (spread16(a), spread16(b % 4), spread16(b / 4));
    let (sc, sd) = (spread16(c), spread16(d));
    let xor_0 = sbl + (sbh << 4) + (sc << 8) + (sd << 30);
    let xor_1 = sc + (sd << 22) + (sa << 50) + (sbl << 56) + (sbh << 60);
    let xor_2 = sd + (sa << 28) + (sbl << 34) + (sbh << 38) + (sc << 42);
    let total = xor_0 + xor_1 + xor_2;
    let low = (total % 0x1_0000_0000) as u64;
    let high = ((total >> 32) % 0x1_0000_0000) as u64;
    let r0_even = table16::spread::compress_even_bits(low, 16) as u16;
    let r0_odd = table16::spread::compress_odd_bits(low, 16) as u16;
    let r1_even = table16::spread::compress_even_bits(high, 16) as u16;
    let r1_odd = table16::spread::compress_odd_bits(high, 16) as u16;
    let g = Gate::s_lower_sigma_0(
        konst(1),
        konst(spread16(r0_even) as u64),
        konst(spread16(r0_odd) as u64),
        konst(spread16(r1_even) as u64),
        konst(spread16(r1_odd) as u64),
        konst(sa as u64),
        konst(sbl as u64),
        konst(sbh as u64),
        konst(sc as u64),
        konst(sd as u64),
    );
    assert_eq!(eval(&g.0), 0);
    // The even planes recompose to sigma_0 of the word.
    let sigma = (r0_even as u32) | ((r1_even as u32) << 16);
    assert_eq!(sigma, w.rotate_right(7) ^ w.rotate_right(18) ^ (w >> 3));
}

#[test]
fn sigma_1_v2_accepts_its_reduction_witness() {
    // The (3, 4, 3, 7, 1, 1, 13) split with the sigma_1 rotations.
    let w: u32 = 0xDEAD_BEEF;
    let a = (w & 0x7) as u16;
    let b = ((w >> 3) & 0xF) as u16;
    let c = ((w >> 7) & 0x7) as u16;
    let d = ((w >> 10) & 0x7F) as u16;
    let e = ((w >> 17) & 0x1) as u16;
    let f = ((w >> 18) & 0x1) as u16;
    let gch = (w >> 19) as u16;
    let (sa, sbl, sbh) = (spread16(a), spread16(b % 4), spread16(b / 4));
    let (sc, sd, se) = (spread16(c), spread16(d), spread16(e));
    let (sf, sg) = (spread16(f), spread16(gch));
    let xor_0 = sd + (se << 14) + (sf << 16) + (sg << 18);
    let xor_1 = se + (sf << 2) + (sg << 4) + (sa << 30) + (sbl << 36) + (sbh << 40) + (sc << 44)
        + (sd << 50);
    let xor_2 = sg + (sa << 26) + (sbl << 32) + (sbh << 36) + (sc << 40) + (sd << 46) + (se << 60)
        + (sf << 62);
    let total = xor_0 + xor_1 + xor_2;
    let low = (total % 0x1_0000_0000) as u64;
    let high = ((total >> 32) % 0x1_0000_0000) as u64;
    let r0_even = table16::spread::compress_even_bits(low, 16) as u16;
    let r0_odd = table16::spread::compress_odd_bits(low, 16) as u16;
    let r1_even = table16::spread::compress_even_bits(high, 16) as u16;
    let r1_odd = table16::spread::compress_odd_bits(high, 16) as u16;
    let g = Gate::s_lower_sigma_1_v2(
        konst(1),
        konst(spread16(r0_even) as u64),
        konst(spread16(r0_odd) as u64),
        konst(spread16(r1_even) as u64),
        konst(spread16(r1_odd) as u64),
        konst(sa as u64),
        konst(sbl as u64),
        konst(sbh as u64),
        konst(sc as u64),
        konst(sd as u64),
        konst(se as u64),
        konst(sf as u64),
        konst(sg as u64),
    );
    assert_eq!(eval(&g.0), 0);
    let sigma = (r0_even as u32) | ((r1_even as u32) << 16);
    assert_eq!(sigma, w.rotate_right(17) ^ w.rotate_right(19) ^ (w >> 10));
}

#[test]
fn sigma_1_v1_accepts_its_reduction_witness() {
    // The (10, 7, 2, 13) split with the sigma_1 rotations.
    let w: u32 = 0xCAFE_F00D;
    let a = (w & 0x3FF) as u16;
    let b = ((w >> 10) & 0x7F) as u16;
    let c = ((w >> 17) & 0x3) as u16;
    let d = (w >> 19) as u16;
    let (sa, sbl) = (spread16(a), spread16(b % 4));
    let (sbm, sbh) = (spread16((b / 4) % 4), spread16(b / 16));
    let (sc, sd) = (spread16(c), spread16(d));
    let xor_0 = sbl + (sbm << 4) + (sbh << 8) + (sc << 14) + (sd << 18);
    let xor_1 = sc + (sd << 4) + (sa << 30) + (sbl << 50) + (sbm << 54) + (sbh << 58);
    let xor_2 = sd + (sa << 26) + (sbl << 46) + (sbm << 50) + (sbh << 54) + (sc << 60);
    let total = xor_0 + xor_1 + xor_2;
    let low = (total % 0x1_0000_0000) as u64;
    let high = ((total >> 32) % 0x1_0000_0000) as u64;
    let r0_even = table16::spread::compress_even_bits(low, 16) as u16;
    let r0_odd = table16::spread::compress_odd_bits(low, 16) as u16;
    let r1_even = table16::spread::compress_even_bits(high, 16) as u16;
    let r1_odd = table16::spread::compress_odd_bits(high, 16) as u16;
    let g = Gate::s_lower_sigma_1(
        konst(1),
        konst(spread16(r0_even) as u64),
        konst(spread16(r0_odd) as u64),
        konst(spread16(r1_even) as u64),
        konst(spread16(r1_odd) as u64),
        konst(sa as u64),
        konst(sbl as u64),
        konst(sbm as u64),
        konst(sbh as u64),
        konst(sc as u64),
        konst(sd as u64),
    );
    assert_eq!(eval(&g.0), 0);
    let sigma = (r0_even as u32) | ((r1_even as u32) << 16);
    assert_eq!(sigma, w.rotate_right(17) ^ w.rotate_right(19) ^ (w >> 10));
}

#[test]
fn sigma_0_v2_accepts_its_reduction_witness() {
    // The (3, 4, 3, 7, 1, 1, 13) split with the sigma_0 rotations.
    let w: u32 = 0x0BAD_C0DE;
    let a = (w & 0x7) as u16;
    let b = ((w >> 3) & 0xF) as u16;
    let c = ((w >> 7) & 0x7) as u16;
    let d = ((w >> 10) & 0x7F) as u16;
    let e = ((w >> 17) & 0x1) as u16;
    let f = ((w >> 18) & 0x1) as u16;
    let gch = (w >> 19) as u16;
    let (sa, sbl, sbh) = (spread16(a), spread16(b % 4), spread16(b / 4));
    let (sc, sd, se) = (spread16(c), spread16(d), spread16(e));
    let (sf, sg) = (spread16(f), spread16(gch));
    let xor_0 = sbl + (sbh << 4) + (sc << 8) + (sd << 14) + (se << 28) + (sf << 30) + (sg << 32);
    let xor_1 = sc + (sd << 6) + (se << 20) + (sf << 22) + (sg << 24) + (sa << 50) + (sbl << 56)
        + (sbh << 60);
    let xor_2 = sf + (sg << 2) + (sa << 28) + (sbl << 34) + (sbh << 38) + (sc << 42) + (sd << 48)
        + (se << 62);
    let total = xor_0 + xor_1 + xor_2;
    let low = (total % 0x1_0000_0000) as u64;
    let high = ((total >> 32) % 0x1_0000_0000) as u64;
    let r0_even = table16::spread::compress_even_bits(low, 16) as u16;
    let r0_odd = table16::spread::compress_odd_bits(low, 16) as u16;
    let r1_even = table16::spread::compress_even_bits(high, 16) as u16;
    let r1_odd = table16::spread::compress_odd_bits(high, 16) as u16;
    let g = Gate::s_lower_sigma_0_v2(
        konst(1),
        konst(spread16(r0_even) as u64),
        konst(spread16(r0_odd) as u64),
        konst(spread16(r1_even) as u64),
        konst(spread16(r1_odd) as u64),
        konst(sa as u64),
        konst(sbl as u64),
        konst(sbh as u64),
        konst(sc as u64),
        konst(sd as u64),
        konst(se as u64),
        konst(sf as u64),
        konst(sg as u64),
    );
    assert_eq!(eval(&g.0), 0);
    let sigma = (r0_even as u32) | ((r1_even as u32) << 16);
    assert_eq!(sigma, w.rotate_right(7) ^ w.rotate_right(18) ^ (w >> 3));
}
