//! Arithmetic on PCM samples carried as IEEE-754 single-precision bit
//! patterns.
//!
//! The audio plane stores every sample and every gain as the `u32` bit
//! pattern of an `f32`. This module defines, as specification functions,
//! what the sum and the product of two such bit patterns are — binary
//! round-to-nearest-even with the usual treatment of zeroes, infinities,
//! subnormals and NaN — and proves the executable operations against those
//! definitions. Quiet NaN results are canonical (`0x7FC0_0000`).

use vstd::prelude::*;

verus! {

pub const QNAN_BITS: u32 = 0x7FC0_0000;

pub const ONE_BITS: u32 = 0x3F80_0000;

/// The bit pattern of machine epsilon for single precision.
pub const EPSILON_BITS: u32 = 0x3400_0000;

pub open spec fn sign_of(b: u32) -> nat {
    (b as nat) / 0x8000_0000
}

pub open spec fn exp_of(b: u32) -> nat {
    ((b as nat) / 0x0080_0000) % 256
}

pub open spec fn frac_of(b: u32) -> nat {
    (b as nat) % 0x0080_0000
}

pub open spec fn is_nan_bits(b: u32) -> bool {
    exp_of(b) == 255 && frac_of(b) != 0
}

pub open spec fn is_inf_bits(b: u32) -> bool {
    exp_of(b) == 255 && frac_of(b) == 0
}

pub open spec fn is_zero_bits(b: u32) -> bool {
    exp_of(b) == 0 && frac_of(b) == 0
}

/// The significand: the stored fraction, with the implicit leading bit for
/// normal numbers.
pub open spec fn sig_of(b: u32) -> nat {
    if exp_of(b) == 0 {
        frac_of(b)
    } else {
        frac_of(b) + 0x0080_0000
    }
}

/// The effective biased exponent: subnormals sit at exponent 1 without the
/// implicit bit.
pub open spec fn bexp_of(b: u32) -> nat {
    if exp_of(b) == 0 {
        1
    } else {
        exp_of(b)
    }
}

pub open spec fn inf_bits(s: nat) -> u32 {
    (s * 0x8000_0000 + 0x7F80_0000) as u32
}

pub open spec fn zero_bits(s: nat) -> u32 {
    (s * 0x8000_0000) as u32
}

/// Halve a significand, folding any dropped remainder into the lowest kept
/// bit so that round-to-nearest-even still sees it ("jamming").
pub open spec fn jam_half(sig: nat) -> nat {
    if sig % 2 == 1 && (sig / 2) % 2 == 0 {
        sig / 2 + 1
    } else {
        sig / 2
    }
}

/// Shift a significand right `k` places with jamming.
pub open spec fn shr_jam(sig: nat, k: nat) -> nat
    decreases k,
{
    if k == 0 {
        sig
    } else {
        shr_jam(jam_half(sig), (k - 1) as nat)
    }
}

/// Double the significand until it reaches the normalized range
/// `[2^30, 2^31)`, lowering the exponent in step.
pub open spec fn norm_up(sig: nat, e: int) -> (nat, int)
    decreases 0x8000_0000 - sig,
{
    if sig >= 0x4000_0000 || sig == 0 {
        (sig, e)
    } else {
        norm_up(sig * 2, e - 1)
    }
}

/// Halve the significand (with jamming) until it is below `2^31`, raising
/// the exponent in step.
pub open spec fn norm_down(sig: nat, e: int) -> (nat, int)
    decreases sig,
{
    if sig < 0x8000_0000 {
        (sig, e)
    } else {
        norm_down(jam_half(sig), e + 1)
    }
}

/// Round a significand with 7 trailing rounding bits to nearest-even and
/// pack it with sign and biased exponent. For a normal result (`e >= 1`)
/// the significand lies in `[2^30, 2^31)`; for a subnormal result `e == 0`
/// and the significand is below `2^30`. A rounding carry out of the top
/// falls into the next exponent by the encoding itself.
pub open spec fn round_final(s: nat, e: nat, sig: nat) -> u32 {
    let rb = sig % 128;
    let base = sig / 128;
    let up: nat = if rb > 64 || (rb == 64 && base % 2 == 1) {
        1
    } else {
        0
    };
    let m = base + up;
    if e == 0 {
        (s * 0x8000_0000 + m) as u32
    } else {
        (s * 0x8000_0000 + (e - 1) * 0x0080_0000 + m) as u32
    }
}

/// Round and pack the positive value `sig * 2^(e - 157)` (nonzero `sig`)
/// into a float with sign `s`: normalize, handle exponent overflow to
/// infinity and underflow to the subnormal range, then round to
/// nearest-even.
pub open spec fn round_pack(s: nat, sig0: nat, e0: int) -> u32 {
    let (sig1, e1) = if sig0 >= 0x8000_0000 {
        norm_down(sig0, e0)
    } else {
        norm_up(sig0, e0)
    };
    if e1 >= 255 {
        inf_bits(s)
    } else if e1 <= 0 {
        round_final(s, 0, shr_jam(sig1, (1 - e1) as nat))
    } else {
        round_final(s, e1 as nat, sig1)
    }
}

/// The IEEE-754 binary32 product of two bit patterns, rounded to
/// nearest-even.
pub open spec fn mul_bits(a: u32, b: u32) -> u32 {
    let s: nat = if sign_of(a) == sign_of(b) {
        0
    } else {
        1
    };
    if is_nan_bits(a) || is_nan_bits(b) {
        QNAN_BITS
    } else if is_inf_bits(a) {
        if is_zero_bits(b) {
            QNAN_BITS
        } else {
            inf_bits(s)
        }
    } else if is_inf_bits(b) {
        if is_zero_bits(a) {
            QNAN_BITS
        } else {
            inf_bits(s)
        }
    } else if is_zero_bits(a) || is_zero_bits(b) {
        zero_bits(s)
    } else {
        round_pack(s, sig_of(a) * sig_of(b), bexp_of(a) + bexp_of(b) - 143)
    }
}

/// Whether `a` has the larger (or equal) magnitude, compared by effective
/// exponent and significand.
pub open spec fn larger_mag(a: u32, b: u32) -> bool {
    bexp_of(a) > bexp_of(b) || (bexp_of(a) == bexp_of(b) && sig_of(a) >= sig_of(b))
}

/// The IEEE-754 binary32 sum of two bit patterns, rounded to nearest-even.
pub open spec fn add_bits(a: u32, b: u32) -> u32 {
    if is_nan_bits(a) || is_nan_bits(b) {
        QNAN_BITS
    } else if is_inf_bits(a) {
        if is_inf_bits(b) && sign_of(a) != sign_of(b) {
            QNAN_BITS
        } else {
            a
        }
    } else if is_inf_bits(b) {
        b
    } else if is_zero_bits(a) && is_zero_bits(b) {
        if sign_of(a) == 1 && sign_of(b) == 1 {
            0x8000_0000u32
        } else {
            0u32
        }
    } else if is_zero_bits(a) {
        b
    } else if is_zero_bits(b) {
        a
    } else {
        let hb = if larger_mag(a, b) {
            a
        } else {
            b
        };
        let lb = if larger_mag(a, b) {
            b
        } else {
            a
        };
        let d = (bexp_of(hb) - bexp_of(lb)) as nat;
        let hi = sig_of(hb) * 128;
        let lo = shr_jam(sig_of(lb) * 128, d);
        if sign_of(hb) == sign_of(lb) {
            round_pack(sign_of(hb), hi + lo, bexp_of(hb) as int)
        } else {
            if hi == lo {
                0u32
            } else {
                round_pack(sign_of(hb), (hi - lo) as nat, bexp_of(hb) as int)
            }
        }
    }
}

/// The bit pattern with the sign flipped.
pub open spec fn neg_bits(b: u32) -> u32 {
    if b >= 0x8000_0000 {
        (b - 0x8000_0000) as u32
    } else {
        (b + 0x8000_0000) as u32
    }
}

/// The IEEE-754 binary32 difference: addition of the negation.
pub open spec fn sub_bits(a: u32, b: u32) -> u32 {
    add_bits(a, neg_bits(b))
}

/// The bit pattern with the sign bit cleared: the magnitude.
pub open spec fn abs_bits(b: u32) -> u32 {
    if b >= 0x8000_0000 {
        (b - 0x8000_0000) as u32
    } else {
        b
    }
}

proof fn lemma_recompose(v: u32)
    ensures
        v as nat == sign_of(v) * 0x8000_0000 + exp_of(v) * 0x0080_0000 + frac_of(v),
{
    let x = v as int;
    vstd::arithmetic::div_mod::lemma_fundamental_div_mod(x, 0x0080_0000);
    vstd::arithmetic::div_mod::lemma_fundamental_div_mod(x / 0x0080_0000, 256);
    vstd::arithmetic::div_mod::lemma_div_denominator(x, 0x0080_0000, 256);
}

proof fn lemma_top_bit(sig: nat) -> (b: nat)
    requires
        1 <= sig < 0x0100_0000,
    ensures
        b <= 23,
        vstd::arithmetic::power2::pow2(b) <= sig < vstd::arithmetic::power2::pow2(b + 1),
    decreases sig,
{
    vstd::arithmetic::power2::lemma2_to64();
    if sig == 1 {
        0
    } else {
        let bp = lemma_top_bit(sig / 2);
        vstd::arithmetic::power2::lemma_pow2_unfold(bp + 1);
        vstd::arithmetic::power2::lemma_pow2_unfold(bp + 2);
        if bp + 1 > 23 {
            vstd::arithmetic::power2::lemma_pow2_strictly_increases(24, bp + 1);
            assert(false);
        }
        bp + 1
    }
}

proof fn lemma_shr_jam_exact(y: nat, j: nat)
    requires
        y % vstd::arithmetic::power2::pow2(j) == 0,
    ensures
        shr_jam(y, j) == y / vstd::arithmetic::power2::pow2(j),
    decreases j,
{
    vstd::arithmetic::power2::lemma_pow2_pos(j);
    let p = vstd::arithmetic::power2::pow2(j);
    vstd::arithmetic::div_mod::lemma_fundamental_div_mod(y as int, p as int);
    let c = y / p;
    if j == 0 {
        assert(vstd::arithmetic::power2::pow2(0) == 1) by {
            vstd::arithmetic::power2::lemma2_to64();
        };
    } else {
        vstd::arithmetic::power2::lemma_pow2_unfold(j);
        let q = vstd::arithmetic::power2::pow2((j - 1) as nat);
        assert(y == c * (2 * q)) by (nonlinear_arith)
            requires
                y == p * c && p == 2 * q,
        ;
        assert(y == 2 * (c * q) && y / 2 == c * q && (c * q) % q == 0 && y % 2 == 0) by (
        nonlinear_arith)
            requires
                y == c * (2 * q) && q > 0,
        ;
        assert(jam_half(y) == y / 2);
        lemma_shr_jam_exact(y / 2, (j - 1) as nat);
        assert((c * q) / q == c) by (nonlinear_arith)
            requires
                q > 0,
        ;
    }
}

proof fn lemma_norm_down_to(y: nat, j: nat, e: int)
    requires
        0x4000_0000 <= y < 0x8000_0000,
    ensures
        norm_down(y * vstd::arithmetic::power2::pow2(j), e) == (y, e + j),
    decreases j,
{
    vstd::arithmetic::power2::lemma_pow2_pos(j);
    let p = vstd::arithmetic::power2::pow2(j);
    if j == 0 {
        assert(p == 1) by {
            vstd::arithmetic::power2::lemma2_to64();
        };
    } else {
        vstd::arithmetic::power2::lemma_pow2_unfold(j);
        let q = vstd::arithmetic::power2::pow2((j - 1) as nat);
        let x = y * p;
        assert(x == 2 * (y * q) && x >= 0x8000_0000 && x % 2 == 0 && x / 2 == y * q) by (
        nonlinear_arith)
            requires
                x == y * p && p == 2 * q && q >= 1 && y >= 0x4000_0000,
        ;
        assert(jam_half(x) == x / 2);
        lemma_norm_down_to(y, (j - 1) as nat, e + 1);
    }
}

proof fn lemma_norm_up_to(y: nat, j: nat, e: int)
    requires
        0x4000_0000 <= y < 0x8000_0000,
        y % vstd::arithmetic::power2::pow2(j) == 0,
        j <= 30,
    ensures
        norm_up(y / vstd::arithmetic::power2::pow2(j), e) == (y, e - j),
    decreases j,
{
    vstd::arithmetic::power2::lemma_pow2_pos(j);
    let p = vstd::arithmetic::power2::pow2(j);
    vstd::arithmetic::div_mod::lemma_fundamental_div_mod(y as int, p as int);
    let c = y / p;
    if j == 0 {
        assert(p == 1) by {
            vstd::arithmetic::power2::lemma2_to64();
        };
        vstd::arithmetic::div_mod::lemma_div_basics(y as int);
        assert(y / p == y);
    } else {
        vstd::arithmetic::power2::lemma_pow2_unfold(j);
        let q = vstd::arithmetic::power2::pow2((j - 1) as nat);
        assert(vstd::arithmetic::power2::pow2(30) == 0x4000_0000) by {
            vstd::arithmetic::power2::lemma2_to64();
        };
        if j < 30 {
            vstd::arithmetic::power2::lemma_pow2_strictly_increases(j, 30);
        }
        assert(y == (2 * c) * q && y % q == 0 && y / q == 2 * c && c < 0x4000_0000 && 1 <= 2 * c)
            by (nonlinear_arith)
            requires
                y == p * c && p == 2 * q && q >= 1 && 0x4000_0000 <= y < 0x8000_0000 && p
                    <= 0x4000_0000,
        ;
        lemma_norm_up_to(y, (j - 1) as nat, e - 1);
        assert(norm_up(y / q, e - 1) == (y, e - j));
        assert(c * 2 == y / q);
        assert(norm_up(c, e) == norm_up(c * 2, e - 1));
        assert(norm_up(y / p, e) == (y, e - j));
    }
}

/// Multiplying any sample that has a numeric value by the gain `1.0`
/// returns it unchanged, bit for bit.
pub proof fn lemma_mul_identity(v: u32)
    requires
        !is_nan_bits(v),
    ensures
        mul_bits(v, ONE_BITS) == v,
{
    vstd::arithmetic::power2::lemma2_to64();
    lemma_recompose(v);
    let s = sign_of(v);
    assert(s <= 1);
    assert(exp_of(ONE_BITS) == 127 && frac_of(ONE_BITS) == 0 && sign_of(ONE_BITS) == 0);
    if is_inf_bits(v) {
        assert(inf_bits(s) == v);
    } else if is_zero_bits(v) {
        assert(zero_bits(s) == v);
    } else {
        let sig = sig_of(v);
        let bexp = bexp_of(v);
        let e0: int = bexp + 127 - 143;
        let x = sig * 0x0080_0000;
        assert(mul_bits(v, ONE_BITS) == round_pack(s, x, e0));
        assert(1 <= sig < 0x0100_0000);
        let b = lemma_top_bit(sig);
        let y = sig * vstd::arithmetic::power2::pow2((30 - b) as nat);
        vstd::arithmetic::power2::lemma_pow2_adds(b, (30 - b) as nat);
        vstd::arithmetic::power2::lemma_pow2_adds((b + 1) as nat, (30 - b) as nat);
        vstd::arithmetic::power2::lemma_pow2_adds(7, (23 - b) as nat);
        vstd::arithmetic::power2::lemma_pow2_pos((30 - b) as nat);
        vstd::arithmetic::power2::lemma_pow2_pos((23 - b) as nat);
        assert(0x4000_0000 <= y < 0x8000_0000) by (nonlinear_arith)
            requires
                vstd::arithmetic::power2::pow2(b) <= sig < vstd::arithmetic::power2::pow2(
                    (b + 1) as nat,
                ),
                y == sig * vstd::arithmetic::power2::pow2((30 - b) as nat),
                vstd::arithmetic::power2::pow2(b) * vstd::arithmetic::power2::pow2(
                    (30 - b) as nat,
                ) == 0x4000_0000,
                vstd::arithmetic::power2::pow2((b + 1) as nat) * vstd::arithmetic::power2::pow2(
                    (30 - b) as nat,
                ) == 0x8000_0000,
                vstd::arithmetic::power2::pow2((30 - b) as nat) >= 1,
        ;
        let m128 = sig * 128;
        assert(vstd::arithmetic::power2::pow2(7) == 128);
        assert(y == m128 * vstd::arithmetic::power2::pow2((23 - b) as nat)) by (nonlinear_arith)
            requires
                y == sig * vstd::arithmetic::power2::pow2((30 - b) as nat),
                m128 == sig * 128,
                128 * vstd::arithmetic::power2::pow2((23 - b) as nat)
                    == vstd::arithmetic::power2::pow2((30 - b) as nat),
        ;
        // normalization lands on (y, e0 + b - 7), whichever direction it runs
        if b >= 8 {
            vstd::arithmetic::power2::lemma_pow2_adds((30 - b) as nat, (b - 7) as nat);
            assert(x == y * vstd::arithmetic::power2::pow2((b - 7) as nat)) by (nonlinear_arith)
                requires
                    x == sig * 0x0080_0000,
                    y == sig * vstd::arithmetic::power2::pow2((30 - b) as nat),
                    vstd::arithmetic::power2::pow2((30 - b) as nat)
                        * vstd::arithmetic::power2::pow2((b - 7) as nat) == 0x0080_0000,
            ;
            assert(vstd::arithmetic::power2::pow2((b - 7) as nat) >= 2) by {
                vstd::arithmetic::power2::lemma_pow2_strictly_increases(0, (b - 7) as nat);
            };
            assert(x >= 0x8000_0000) by (nonlinear_arith)
                requires
                    y >= 0x4000_0000,
                    vstd::arithmetic::power2::pow2((b - 7) as nat) >= 2,
                    x == y * vstd::arithmetic::power2::pow2((b - 7) as nat),
            ;
            lemma_norm_down_to(y, (b - 7) as nat, e0);
            assert(norm_down(x, e0) == (y, e0 + b - 7));
        } else if b == 7 {
            assert(vstd::arithmetic::power2::pow2(23) == 0x0080_0000);
            assert(x == y) by (nonlinear_arith)
                requires
                    x == sig * 0x0080_0000,
                    y == sig * vstd::arithmetic::power2::pow2(23nat),
                    vstd::arithmetic::power2::pow2(23nat) == 0x0080_0000,
            ;
            assert(norm_up(x, e0) == (y, e0 + b - 7));
        } else {
            vstd::arithmetic::power2::lemma_pow2_adds(23, (7 - b) as nat);
            vstd::arithmetic::power2::lemma_pow2_pos((7 - b) as nat);
            assert(y == x * vstd::arithmetic::power2::pow2((7 - b) as nat) && y
                % vstd::arithmetic::power2::pow2((7 - b) as nat) == 0 && y
                / vstd::arithmetic::power2::pow2((7 - b) as nat) == x && x < 0x4000_0000) by (
            nonlinear_arith)
                requires
                    x == sig * 0x0080_0000,
                    y == sig * vstd::arithmetic::power2::pow2((30 - b) as nat),
                    0x0080_0000 * vstd::arithmetic::power2::pow2((7 - b) as nat)
                        == vstd::arithmetic::power2::pow2((30 - b) as nat),
                    vstd::arithmetic::power2::pow2((7 - b) as nat) >= 1,
                    y < 0x8000_0000,
                    vstd::arithmetic::power2::pow2((7 - b) as nat) >= 2,
            ;
            assert(vstd::arithmetic::power2::pow2((7 - b) as nat) >= 2) by {
                vstd::arithmetic::power2::lemma_pow2_strictly_increases(0, (7 - b) as nat);
            };
            lemma_norm_up_to(y, (7 - b) as nat, e0);
            assert(norm_up(x, e0) == (y, e0 - (7 - b)));
        }
        let ee = e0 + b - 7;
        assert(exp_of(v) <= 254);
        assert(ee <= 254);
        if exp_of(v) != 0 {
            // a normal number: the top bit of its significand is fixed
            assert(sig >= 0x0080_0000);
            if b < 23 {
                vstd::arithmetic::power2::lemma_pow2_strictly_increases((b + 1) as nat, 24nat);
                assert(sig < vstd::arithmetic::power2::pow2(24nat));
                vstd::arithmetic::power2::lemma_pow2_strictly_increases(b, 23nat);
                assert(vstd::arithmetic::power2::pow2((b + 1) as nat)
                    <= vstd::arithmetic::power2::pow2(23nat)) by {
                    if b + 1 < 23 {
                        vstd::arithmetic::power2::lemma_pow2_strictly_increases(
                            (b + 1) as nat,
                            23nat,
                        );
                    }
                };
                assert(false);
            }
            assert(b == 23);
            assert(y == m128);
            assert(ee == bexp);
            assert(1 <= ee <= 254);
            assert(m128 % 128 == 0 && m128 / 128 == sig) by (nonlinear_arith)
                requires
                    m128 == sig * 128,
            ;
            assert(round_final(s, bexp, m128) == ((s * 0x8000_0000 + (bexp - 1) * 0x0080_0000
                + sig) as u32));
            assert(s * 0x8000_0000 + (bexp - 1) * 0x0080_0000 + sig == v as nat);
            assert(mul_bits(v, ONE_BITS) == v);
        } else {
            // a subnormal: the result re-packs below the normal range
            assert(bexp == 1);
            assert(sig == frac_of(v) && sig < 0x0080_0000);
            if b >= 23 {
                vstd::arithmetic::power2::lemma_pow2_strictly_increases(22nat, b);
                assert(false);
            }
            assert(ee == b - 22 && ee <= 0);
            assert((1 - ee) as nat == (23 - b) as nat);
            assert(y % vstd::arithmetic::power2::pow2((23 - b) as nat) == 0) by (nonlinear_arith)
                requires
                    y == m128 * vstd::arithmetic::power2::pow2((23 - b) as nat),
                    vstd::arithmetic::power2::pow2((23 - b) as nat) >= 1,
            ;
            lemma_shr_jam_exact(y, (23 - b) as nat);
            assert(shr_jam(y, (23 - b) as nat) == m128) by (nonlinear_arith)
                requires
                    shr_jam(y, (23 - b) as nat) == y / vstd::arithmetic::power2::pow2(
                        (23 - b) as nat,
                    ),
                    y == m128 * vstd::arithmetic::power2::pow2((23 - b) as nat),
                    vstd::arithmetic::power2::pow2((23 - b) as nat) >= 1,
            ;
            assert(m128 % 128 == 0 && m128 / 128 == sig) by (nonlinear_arith)
                requires
                    m128 == sig * 128,
            ;
            assert(round_final(s, 0, m128) == ((s * 0x8000_0000 + sig) as u32));
            assert(s * 0x8000_0000 + sig == v as nat);
            assert(mul_bits(v, ONE_BITS) == v);
        }
    }
}

/// Adding a sample to the zero accumulator returns it unchanged, except
/// that a negative zero comes out as positive zero.
pub proof fn lemma_add_zero_accumulator(x: u32)
    requires
        !is_nan_bits(x),
        x != 0x8000_0000u32,
    ensures
        add_bits(0u32, x) == x,
{
}

proof fn lemma_neg_fields(v: u32)
    ensures
        exp_of(neg_bits(v)) == exp_of(v),
        frac_of(neg_bits(v)) == frac_of(v),
        sign_of(neg_bits(v)) + sign_of(v) == 1,
{
    let n = neg_bits(v);
    assert(n / 0x0080_0000u32 % 256 == v / 0x0080_0000u32 % 256 && n % 0x0080_0000u32 == v
        % 0x0080_0000u32 && n / 0x8000_0000u32 + v / 0x8000_0000u32 == 1) by (bit_vector)
        requires
            n == (if v >= 0x8000_0000u32 {
                (v - 0x8000_0000u32) as u32
            } else {
                (v + 0x8000_0000u32) as u32
            }),
    ;
}

/// A sample subtracted from itself has no magnitude: the difference is a
/// zero, or — for NaN and infinite inputs — the quiet NaN.
pub proof fn lemma_sub_self(v: u32)
    ensures
        is_nan_bits(sub_bits(v, v)) || abs_bits(sub_bits(v, v)) == 0,
{
    let n = neg_bits(v);
    lemma_neg_fields(v);
    if is_nan_bits(v) || is_inf_bits(v) || is_zero_bits(v) {
    } else {
        assert(larger_mag(v, n));
        assert(sign_of(v) != sign_of(n));
        assert(shr_jam(sig_of(n) * 128, 0) == sig_of(n) * 128);
    }
}

/// A total order key on non-NaN bit patterns: negative values below
/// positive, negative zero below positive zero.
pub open spec fn mag_key(b: u32) -> int {
    if sign_of(b) == 1 {
        0x8000_0000 - (b as int) - 1
    } else {
        b as int
    }
}

/// The smaller of two samples; a NaN argument yields the other argument.
pub open spec fn min_bits(a: u32, b: u32) -> u32 {
    if is_nan_bits(a) {
        b
    } else if is_nan_bits(b) {
        a
    } else if mag_key(a) <= mag_key(b) {
        a
    } else {
        b
    }
}

/// The larger of two samples; a NaN argument yields the other argument.
pub open spec fn max_bits(a: u32, b: u32) -> u32 {
    if is_nan_bits(a) {
        b
    } else if is_nan_bits(b) {
        a
    } else if mag_key(a) >= mag_key(b) {
        a
    } else {
        b
    }
}

/// A volume with the sign bit set, or no numeric value at all, reads as
/// silence.
pub open spec fn clamped_volume_spec(v: u32) -> u32 {
    if is_nan_bits(v) || sign_of(v) == 1 {
        0u32
    } else {
        v
    }
}

proof fn lemma_jam_half_le(sig: nat)
    ensures
        jam_half(sig) <= sig,
        sig < 0x8000_0000 ==> jam_half(sig) < 0x4000_0000,
        sig >= 0x8000_0000 ==> jam_half(sig) >= 0x4000_0000,
{
}

proof fn lemma_shr_jam_le(sig: nat, k: nat)
    ensures
        shr_jam(sig, k) <= sig,
    decreases k,
{
    if k > 0 {
        lemma_jam_half_le(sig);
        lemma_shr_jam_le(jam_half(sig), (k - 1) as nat);
    }
}

fn exec_jam_half(sig: u64) -> (r: u64)
    ensures
        r as nat == jam_half(sig as nat),
        r <= sig,
{
    if sig % 2 == 1 && (sig / 2) % 2 == 0 {
        sig / 2 + 1
    } else {
        sig / 2
    }
}

fn exec_shr_jam(sig: u64, k: u64) -> (r: u64)
    ensures
        r as nat == shr_jam(sig as nat, k as nat),
        r <= sig,
    decreases k,
{
    proof {
        lemma_shr_jam_le(sig as nat, k as nat);
    }
    if k == 0 {
        sig
    } else {
        let h = exec_jam_half(sig);
        exec_shr_jam(h, k - 1)
    }
}

proof fn lemma_jam_half_pow2(sig: nat, n: nat)
    requires
        n >= 1,
        sig < vstd::arithmetic::power2::pow2(n + 1),
    ensures
        jam_half(sig) < vstd::arithmetic::power2::pow2(n),
{
    vstd::arithmetic::power2::lemma_pow2_unfold((n + 1) as nat);
    if n >= 1 {
        vstd::arithmetic::power2::lemma_pow2_unfold(n);
    }
    let m = vstd::arithmetic::power2::pow2(n);
    assert(sig / 2 < m);
    if jam_half(sig) == sig / 2 + 1 && sig / 2 + 1 == m {
        assert((sig / 2) % 2 == 0);
        assert(m % 2 == 0);
        assert(false);
    }
}

fn exec_norm_up(sig: u64, e: i64) -> (r: (u64, i64))
    requires
        1 <= sig < 0x8000_0000,
        -1000 <= e <= 1000,
    ensures
        (r.0 as nat, r.1 as int) == norm_up(sig as nat, e as int),
        0x4000_0000 <= r.0 < 0x8000_0000,
        e - 31 <= r.1 <= e,
{
    let mut s1 = sig;
    let mut e1 = e;
    proof {
        vstd::arithmetic::power2::lemma2_to64();
    }
    while s1 < 0x4000_0000
        invariant
            -1000 <= e <= 1000,
            1 <= s1 < 0x8000_0000,
            e1 <= e,
            0 <= e - e1 <= 31,
            s1 as nat >= vstd::arithmetic::power2::pow2((e - e1) as nat),
            norm_up(s1 as nat, e1 as int) == norm_up(sig as nat, e as int),
        decreases 0x8000_0000u64 - s1,
    {
        proof {
            vstd::arithmetic::power2::lemma_pow2_unfold((e - e1 + 1) as nat);
            vstd::arithmetic::power2::lemma2_to64();
            if e - e1 + 1 > 31 {
                assert(s1 as nat >= vstd::arithmetic::power2::pow2(31nat)) by {
                    vstd::arithmetic::power2::lemma_pow2_strictly_increases(
                        31nat,
                        (e - e1) as nat,
                    );
                };
                assert(false);
            }
        }
        s1 = s1 * 2;
        e1 = e1 - 1;
    }
    (s1, e1)
}

fn exec_norm_down(sig: u64, e: i64) -> (r: (u64, i64))
    requires
        1 <= sig < 0x1_0000_0000_0000,
        -1000 <= e <= 1000,
    ensures
        (r.0 as nat, r.1 as int) == norm_down(sig as nat, e as int),
        r.0 < 0x8000_0000,
        sig >= 0x4000_0000 ==> r.0 >= 0x4000_0000,
        e <= r.1 <= e + 17,
{
    let mut s1 = sig;
    let mut e1 = e;
    proof {
        vstd::arithmetic::power2::lemma2_to64();
        vstd::arithmetic::power2::lemma2_to64_rest();
        vstd::arithmetic::power2::lemma_pow2_strictly_increases(31nat, 48nat);
    }
    while s1 >= 0x8000_0000
        invariant
            -1000 <= e <= 1000,
            1 <= sig < 0x1_0000_0000_0000,
            e <= e1,
            0 <= e1 - e <= 17,
            (s1 as nat) < vstd::arithmetic::power2::pow2((48 - (e1 - e)) as nat),
            sig >= 0x4000_0000 ==> s1 >= 0x4000_0000,
            norm_down(s1 as nat, e1 as int) == norm_down(sig as nat, e as int),
        decreases s1,
    {
        proof {
            vstd::arithmetic::power2::lemma2_to64();
            vstd::arithmetic::power2::lemma2_to64_rest();
            let j = (e1 - e) as nat;
            if j >= 17 {
                assert((s1 as nat) < vstd::arithmetic::power2::pow2(31nat));
                assert(false);
            }
            lemma_jam_half_pow2(s1 as nat, (48 - j - 1) as nat);
            lemma_jam_half_le(s1 as nat);
        }
        s1 = exec_jam_half(s1);
        e1 = e1 + 1;
    }
    (s1, e1)
}

fn exec_round_final(s: u32, e: u32, sig: u64) -> (r: u32)
    requires
        s <= 1,
        e <= 254,
        e == 0 ==> sig < 0x4000_0000,
        e >= 1 ==> 0x4000_0000 <= sig < 0x8000_0000,
    ensures
        r == round_final(s as nat, e as nat, sig as nat),
{
    let rb = sig % 128;
    let base = sig / 128;
    let up: u64 = if rb > 64 || (rb == 64 && base % 2 == 1) {
        1
    } else {
        0
    };
    let m = base + up;
    if e == 0 {
        ((s as u64) * 0x8000_0000 + m) as u32
    } else {
        ((s as u64) * 0x8000_0000 + ((e - 1) as u64) * 0x0080_0000 + m) as u32
    }
}

fn exec_round_pack(s: u32, sig0: u64, e0: i64) -> (r: u32)
    requires
        s <= 1,
        1 <= sig0 < 0x1_0000_0000_0000,
        -500 <= e0 <= 700,
    ensures
        r == round_pack(s as nat, sig0 as nat, e0 as int),
{
    let (sig1, e1) = if sig0 >= 0x8000_0000 {
        exec_norm_down(sig0, e0)
    } else {
        exec_norm_up(sig0, e0)
    };
    if e1 >= 255 {
        s * 0x8000_0000 + 0x7F80_0000
    } else if e1 <= 0 {
        let k = (1 - e1) as u64;
        proof {
            lemma_jam_half_le(sig1 as nat);
            lemma_shr_jam_le(jam_half(sig1 as nat), (k - 1) as nat);
        }
        let sig2 = exec_shr_jam(sig1, k);
        exec_round_final(s, 0, sig2)
    } else {
        exec_round_final(s, e1 as u32, sig1)
    }
}

/// The sign, exponent and fraction fields of a bit pattern.
fn split_bits(b: u32) -> (r: (u32, u32, u32))
    ensures
        r.0 as nat == sign_of(b),
        r.1 as nat == exp_of(b),
        r.2 as nat == frac_of(b),
        r.0 <= 1,
        r.1 <= 255,
        r.2 < 0x0080_0000,
{
    (b / 0x8000_0000, (b / 0x0080_0000) % 256, b % 0x0080_0000)
}

/// The product of two samples: IEEE-754 binary32 multiplication on bit
/// patterns, rounded to nearest-even.
pub fn sample_mul(a: u32, b: u32) -> (r: u32)
    ensures
        r == mul_bits(a, b),
{
    let (sa, ea, fa) = split_bits(a);
    let (sb, eb, fb) = split_bits(b);
    let s: u32 = if sa == sb {
        0
    } else {
        1
    };
    let a_nan = ea == 255 && fa != 0;
    let b_nan = eb == 255 && fb != 0;
    let a_inf = ea == 255 && fa == 0;
    let b_inf = eb == 255 && fb == 0;
    let a_zero = ea == 0 && fa == 0;
    let b_zero = eb == 0 && fb == 0;
    if a_nan || b_nan {
        QNAN_BITS
    } else if a_inf {
        if b_zero {
            QNAN_BITS
        } else {
            s * 0x8000_0000 + 0x7F80_0000
        }
    } else if b_inf {
        if a_zero {
            QNAN_BITS
        } else {
            s * 0x8000_0000 + 0x7F80_0000
        }
    } else if a_zero || b_zero {
        s * 0x8000_0000
    } else {
        let siga: u64 = if ea == 0 {
            fa as u64
        } else {
            fa as u64 + 0x0080_0000
        };
        let sigb: u64 = if eb == 0 {
            fb as u64
        } else {
            fb as u64 + 0x0080_0000
        };
        let bea: i64 = if ea == 0 {
            1
        } else {
            ea as i64
        };
        let beb: i64 = if eb == 0 {
            1
        } else {
            eb as i64
        };
        proof {
            assert(siga * sigb < 0x1_0000_0000_0000 && siga * sigb >= 1) by (nonlinear_arith)
                requires
                    1 <= siga < 0x0100_0000,
                    1 <= sigb < 0x0100_0000,
            ;
        }
        exec_round_pack(s, siga * sigb, bea + beb - 143)
    }
}

/// The sum of two samples: IEEE-754 binary32 addition on bit patterns,
/// rounded to nearest-even.
pub fn sample_add(a: u32, b: u32) -> (r: u32)
    ensures
        r == add_bits(a, b),
{
    let (sa, ea, fa) = split_bits(a);
    let (sb, eb, fb) = split_bits(b);
    let a_nan = ea == 255 && fa != 0;
    let b_nan = eb == 255 && fb != 0;
    let a_inf = ea == 255 && fa == 0;
    let b_inf = eb == 255 && fb == 0;
    let a_zero = ea == 0 && fa == 0;
    let b_zero = eb == 0 && fb == 0;
    if a_nan || b_nan {
        QNAN_BITS
    } else if a_inf {
        if b_inf && sa != sb {
            QNAN_BITS
        } else {
            a
        }
    } else if b_inf {
        b
    } else if a_zero && b_zero {
        if sa == 1 && sb == 1 {
            0x8000_0000u32
        } else {
            0u32
        }
    } else if a_zero {
        b
    } else if b_zero {
        a
    } else {
        let siga: u64 = if ea == 0 {
            fa as u64
        } else {
            fa as u64 + 0x0080_0000
        };
        let sigb: u64 = if eb == 0 {
            fb as u64
        } else {
            fb as u64 + 0x0080_0000
        };
        let bea: u32 = if ea == 0 {
            1
        } else {
            ea
        };
        let beb: u32 = if eb == 0 {
            1
        } else {
            eb
        };
        let a_hi = bea > beb || (bea == beb && siga >= sigb);
        let (sh, sig_h, be_h, sl, sig_l, be_l) = if a_hi {
            (sa, siga, bea, sb, sigb, beb)
        } else {
            (sb, sigb, beb, sa, siga, bea)
        };
        let d = (be_h - be_l) as u64;
        let hi = sig_h * 128;
        proof {
            if d >= 1 {
                lemma_jam_half_le((sig_l * 128) as nat);
                lemma_shr_jam_le(jam_half((sig_l * 128) as nat), (d - 1) as nat);
            }
        }
        let lo = exec_shr_jam(sig_l * 128, d);
        if sh == sl {
            exec_round_pack(sh, hi + lo, be_h as i64)
        } else {
            if hi == lo {
                0u32
            } else {
                exec_round_pack(sh, hi - lo, be_h as i64)
            }
        }
    }
}

/// The sample with the sign flipped.
pub fn sample_neg(b: u32) -> (r: u32)
    ensures
        r == neg_bits(b),
{
    if b >= 0x8000_0000 {
        b - 0x8000_0000
    } else {
        b + 0x8000_0000
    }
}

/// The magnitude of a sample: the sign bit cleared.
pub fn sample_abs(b: u32) -> (r: u32)
    ensures
        r == abs_bits(b),
{
    if b >= 0x8000_0000 {
        b - 0x8000_0000
    } else {
        b
    }
}

/// The difference of two samples: addition of the negation.
pub fn sample_sub(a: u32, b: u32) -> (r: u32)
    ensures
        r == sub_bits(a, b),
{
    let nb = sample_neg(b);
    sample_add(a, nb)
}

/// Whether the bit pattern has no numeric value.
pub fn sample_is_nan(b: u32) -> (r: bool)
    ensures
        r == is_nan_bits(b),
{
    let (_, e, f) = split_bits(b);
    e == 255 && f != 0
}

fn exec_mag_key(b: u32) -> (r: i64)
    ensures
        r as int == mag_key(b),
{
    if b >= 0x8000_0000 {
        0x8000_0000i64 - (b as i64) - 1
    } else {
        b as i64
    }
}

/// The smaller of two samples; a NaN argument yields the other argument.
pub fn sample_min(a: u32, b: u32) -> (r: u32)
    ensures
        r == min_bits(a, b),
{
    if sample_is_nan(a) {
        b
    } else if sample_is_nan(b) {
        a
    } else if exec_mag_key(a) <= exec_mag_key(b) {
        a
    } else {
        b
    }
}

/// The larger of two samples; a NaN argument yields the other argument.
pub fn sample_max(a: u32, b: u32) -> (r: u32)
    ensures
        r == max_bits(a, b),
{
    if sample_is_nan(a) {
        b
    } else if sample_is_nan(b) {
        a
    } else if exec_mag_key(a) >= exec_mag_key(b) {
        a
    } else {
        b
    }
}

/// Clamp a requested volume at silence from below: a negative or NaN
/// volume reads as `0.0`.
pub fn clamped_volume(v: u32) -> (r: u32)
    ensures
        r == clamped_volume_spec(v),
{
    let (s, _, _) = split_bits(v);
    if sample_is_nan(v) || s == 1 {
        0
    } else {
        v
    }
}

} // verus!
