//! Converting a concentrated-liquidity square-root price (Q64.64) into a
//! Q64 price scaled by the decimal difference of the pair, with the 256-bit
//! intermediate held in four 64-bit limbs and the result in three.
use vstd::prelude::*;

use crate::pow10::{lemma_pow10_positive, pow10};

verus! {

/// `2^64`, the weight of one limb.
pub open spec fn limb_base() -> nat {
    0x1_0000_0000_0000_0000
}

/// `2^192`, the first value that does not fit in three limbs.
pub open spec fn base3() -> nat {
    0x1_0000_0000_0000_0000_0000_0000_0000_0000_0000_0000_0000_0000nat
}

/// `2^128`, the weight of the third limb.
pub open spec fn base2() -> nat {
    0x1_0000_0000_0000_0000_0000_0000_0000_0000nat
}

/// `2^256`, the first value that does not fit in four limbs.
pub open spec fn base4() -> nat {
    0x1_0000_0000_0000_0000_0000_0000_0000_0000_0000_0000_0000_0000_0000_0000_0000_0000nat
}

/// A 256-bit unsigned integer as four little-endian 64-bit limbs.
#[derive(Debug, Clone, Copy, PartialEq, Eq)]
pub struct Limbs256(pub [u64; 4]);

/// A 192-bit unsigned integer as three little-endian 64-bit limbs.
#[derive(Debug, Clone, Copy, PartialEq, Eq)]
pub struct X64Price(pub [u64; 3]);

/// The value of four limbs.
pub open spec fn value4(l: [u64; 4]) -> nat {
    l[0] as nat + l[1] as nat * limb_base() + l[2] as nat * base2() + l[3] as nat * base3()
}

/// The value of three limbs.
pub open spec fn value3(l: [u64; 3]) -> nat {
    l[0] as nat + l[1] as nat * limb_base() + l[2] as nat * base2()
}

/// `sqrt_price^2 / 2^64`, rounded down: the Q64 price.
pub open spec fn x64_square(sqrt_price: u128) -> nat {
    (sqrt_price as nat * sqrt_price as nat) / limb_base()
}

/// The Q64 price scaled by the decimal difference: multiplied by
/// `10^(decimals_a - decimals_b)` or divided (rounding down) by
/// `10^(decimals_b - decimals_a)`.
pub open spec fn scaled_x64_price(sqrt_price: u128, decimals_a: u8, decimals_b: u8) -> nat {
    if decimals_a >= decimals_b {
        x64_square(sqrt_price) * pow10((decimals_a - decimals_b) as nat)
    } else {
        x64_square(sqrt_price) / pow10((decimals_b - decimals_a) as nat)
    }
}

/// The scaling is defined: the decimal difference is within the table of
/// powers of ten, and a scaled-up price fits in 256 bits.
pub open spec fn scaling_defined(sqrt_price: u128, decimals_a: u8, decimals_b: u8) -> bool {
    &&& (if decimals_a >= decimals_b {
        decimals_a - decimals_b
    } else {
        decimals_b - decimals_a
    }) <= 30
    &&& scaled_x64_price(sqrt_price, decimals_a, decimals_b) < base4()
}

/// `floor(sqrt_price^2 / 2^64)` in four limbs (the top one is always zero).
fn square_shr64(sqrt_price: u128) -> (r: [u64; 4])
    ensures
        value4(r) == x64_square(sqrt_price),
        r[3] == 0,
{
    let b: u128 = 0x1_0000_0000_0000_0000;
    let s0: u128 = sqrt_price % b;
    let s1: u128 = sqrt_price / b;
    proof {
        assert(s0 * s0 <= 0xffff_ffff_ffff_fffe_0000_0000_0000_0001) by (nonlinear_arith)
            requires
                0 <= s0 < 0x1_0000_0000_0000_0000,
        ;
        assert(s0 * s1 <= 0xffff_ffff_ffff_fffe_0000_0000_0000_0001) by (nonlinear_arith)
            requires
                0 <= s0 < 0x1_0000_0000_0000_0000,
                0 <= s1 < 0x1_0000_0000_0000_0000,
        ;
        assert(s1 * s1 <= 0xffff_ffff_ffff_fffe_0000_0000_0000_0001) by (nonlinear_arith)
            requires
                0 <= s1 < 0x1_0000_0000_0000_0000,
        ;
    }
    let low_sq: u128 = s0 * s0;
    let cross: u128 = s0 * s1;
    let high_sq: u128 = s1 * s1;
    let a: u128 = low_sq / b;
    let cross_lo: u128 = cross % b;
    let cross_hi: u128 = cross / b;
    let high_lo: u128 = high_sq % b;
    let high_hi: u128 = high_sq / b;
    let t0: u128 = a + 2 * cross_lo;
    let r0: u128 = t0 % b;
    let c0: u128 = t0 / b;
    let t1: u128 = c0 + 2 * cross_hi + high_lo;
    let r1: u128 = t1 % b;
    let c1: u128 = t1 / b;
    proof {
        let s = sqrt_price as int;
        let bb = limb_base() as int;
        assert(s == s0 + s1 * bb);
        assert(s * s == low_sq + 2 * cross * bb + high_sq * (bb * bb)) by (nonlinear_arith)
            requires
                s == s0 + s1 * bb,
                low_sq == s0 * s0,
                cross == s0 * s1,
                high_sq == s1 * s1,
        ;
        // floor((low_sq + k * b) / b) == low_sq / b + k
        let k = 2 * cross + high_sq * bb;
        assert(s * s == low_sq + k * bb) by (nonlinear_arith)
            requires
                s * s == low_sq + 2 * cross * bb + high_sq * (bb * bb),
                k == 2 * cross + high_sq * bb,
        ;
        vstd::arithmetic::div_mod::lemma_hoist_over_denominator(low_sq as int, k, limb_base());
        assert(x64_square(sqrt_price) == a + k);
        assert(x64_square(sqrt_price) == a + 2 * cross_lo + 2 * cross_hi * bb + high_lo * bb + high_hi
            * (bb * bb));
        assert(s < bb * bb);
        assert(s * s < bb * bb * bb * bb) by (nonlinear_arith)
            requires
                0 <= s < bb * bb,
                bb > 0,
        ;
        vstd::arithmetic::div_mod::lemma_div_by_multiple_is_strongly_ordered(
            s * s,
            bb * bb * bb * bb,
            bb * bb * bb,
            bb,
        );
        assert(bb * bb * bb * bb == (bb * bb * bb) * bb);
        vstd::arithmetic::div_mod::lemma_div_by_multiple(bb * bb * bb, bb);
        assert(x64_square(sqrt_price) < bb * bb * bb);
    }
    let t2: u128 = c1 + high_hi;
    proof {
        let bb = limb_base() as int;
        assert(x64_square(sqrt_price) == r0 + r1 * bb + t2 * (bb * bb));
        assert(t2 < bb) by (nonlinear_arith)
            requires
                r0 + r1 * bb + t2 * (bb * bb) < bb * bb * bb,
                r0 >= 0,
                r1 >= 0,
                t2 >= 0,
                bb > 0,
        ;
    }
    [r0 as u64, r1 as u64, t2 as u64, 0]
}

/// Multiplies four limbs by ten; the caller guarantees the product fits.
fn mul10(l: [u64; 4]) -> (r: [u64; 4])
    requires
        value4(l) * 10 < base4(),
    ensures
        value4(r) == value4(l) * 10,
{
    let b: u128 = 0x1_0000_0000_0000_0000;
    let t0: u128 = (l[0] as u128) * 10;
    let t1: u128 = (l[1] as u128) * 10 + t0 / b;
    let t2: u128 = (l[2] as u128) * 10 + t1 / b;
    let t3: u128 = (l[3] as u128) * 10 + t2 / b;
    proof {
        assert(t0 == (t0 / b) * limb_base() + t0 % b);
        assert(t1 == (t1 / b) * limb_base() + t1 % b);
        assert(t2 == (t2 / b) * limb_base() + t2 % b);
        assert(t3 == (t3 / b) * limb_base() + t3 % b);
        let low = (t0 % b) + (t1 % b) * limb_base() + (t2 % b) * base2() + (t3 % b) * base3();
        assert(low + (t3 / b) * base4() == value4(l) * 10);
        assert(low >= 0);
        assert(t3 / b == 0);
    }
    [(t0 % b) as u64, (t1 % b) as u64, (t2 % b) as u64, (t3 % b) as u64]
}

/// Divides four limbs by ten, rounding down.
fn div10(l: [u64; 4]) -> (r: [u64; 4])
    ensures
        value4(r) == value4(l) / 10,
{
    let b: u128 = 0x1_0000_0000_0000_0000;
    let t3: u128 = l[3] as u128;
    let t2: u128 = (t3 % 10) * b + (l[2] as u128);
    let t1: u128 = (t2 % 10) * b + (l[1] as u128);
    let t0: u128 = (t1 % 10) * b + (l[0] as u128);
    proof {
        let q = (t3 / 10) * base3() + (t2 / 10) * base2() + (t1 / 10) * limb_base() + t0 / 10;
        assert(t3 == (t3 / 10) * 10 + t3 % 10);
        assert(t2 == (t2 / 10) * 10 + t2 % 10);
        assert(t1 == (t1 / 10) * 10 + t1 % 10);
        assert(t0 == (t0 / 10) * 10 + t0 % 10);
        assert(value4(l) == q * 10 + t0 % 10);
        vstd::arithmetic::div_mod::lemma_fundamental_div_mod_converse(value4(l) as int, 10, q, (t0 % 10) as int);
    }
    [(t0 / 10) as u64, (t1 / 10) as u64, (t2 / 10) as u64, (t3 / 10) as u64]
}

/// Multiplies four limbs by ten, or `None` when the product needs more than
/// 256 bits.
fn checked_mul10(l: [u64; 4]) -> (r: Option<[u64; 4]>)
    ensures
        r is None <==> value4(l) * 10 >= base4(),
        r matches Some(m) ==> value4(m) == value4(l) * 10,
{
    let b: u128 = 0x1_0000_0000_0000_0000;
    let t0: u128 = (l[0] as u128) * 10;
    let t1: u128 = (l[1] as u128) * 10 + t0 / b;
    let t2: u128 = (l[2] as u128) * 10 + t1 / b;
    let t3: u128 = (l[3] as u128) * 10 + t2 / b;
    proof {
        assert(t0 == (t0 / b) * limb_base() + t0 % b);
        assert(t1 == (t1 / b) * limb_base() + t1 % b);
        assert(t2 == (t2 / b) * limb_base() + t2 % b);
        assert(t3 == (t3 / b) * limb_base() + t3 % b);
        let low = (t0 % b) + (t1 % b) * limb_base() + (t2 % b) * base2() + (t3 % b) * base3();
        assert(low + (t3 / b) * base4() == value4(l) * 10);
        assert(low < base4()) by (nonlinear_arith)
            requires
                low == (t0 % b) + (t1 % b) * limb_base() + (t2 % b) * base2() + (t3 % b) * base3(),
                0 <= t0 % b < limb_base(),
                0 <= t1 % b < limb_base(),
                0 <= t2 % b < limb_base(),
                0 <= t3 % b < limb_base(),
                base2() == limb_base() * limb_base(),
                base3() == base2() * limb_base(),
                base4() == base3() * limb_base(),
        ;
    }
    if t3 / b != 0 {
        None
    } else {
        Some([(t0 % b) as u64, (t1 % b) as u64, (t2 % b) as u64, (t3 % b) as u64])
    }
}

/// Multiplies four limbs by `10^exponent`; the caller guarantees the product
/// fits.
fn mul_pow10(l: [u64; 4], exponent: u32) -> (r: [u64; 4])
    requires
        value4(l) * pow10(exponent as nat) < base4(),
    ensures
        value4(r) == value4(l) * pow10(exponent as nat),
{
    let mut acc = l;
    let mut k: u32 = 0;
    assert(value4(l) * pow10(0) == value4(l)) by {
        assert(pow10(0) == 1);
    }
    while k < exponent
        invariant
            k <= exponent,
            value4(acc) == value4(l) * pow10(k as nat),
            value4(l) * pow10(exponent as nat) < base4(),
        decreases exponent - k,
    {
        proof {
            crate::pow10::lemma_pow10_monotone((k + 1) as nat, exponent as nat);
            let v = value4(l) as int;
            assert(v * pow10((k + 1) as nat) <= v * pow10(exponent as nat)) by (nonlinear_arith)
                requires
                    v >= 0,
                    pow10((k + 1) as nat) <= pow10(exponent as nat),
            ;
            assert(v * pow10(k as nat) * 10 == v * pow10((k + 1) as nat)) by (nonlinear_arith)
                requires
                    pow10((k + 1) as nat) == 10 * pow10(k as nat),
            ;
        }
        acc = mul10(acc);
        k = k + 1;
    }
    acc
}

/// Divides four limbs by `10^exponent`, rounding down.
fn div_pow10(l: [u64; 4], exponent: u32) -> (r: [u64; 4])
    ensures
        value4(r) == value4(l) / pow10(exponent as nat),
{
    let mut acc = l;
    let mut k: u32 = 0;
    assert(value4(l) / pow10(0) == value4(l)) by {
        assert(pow10(0) == 1);
    }
    while k < exponent
        invariant
            k <= exponent,
            value4(acc) == value4(l) / pow10(k as nat),
        decreases exponent - k,
    {
        proof {
            lemma_pow10_positive(k as nat);
            vstd::arithmetic::div_mod::lemma_div_denominator(value4(l) as int, pow10(k as nat) as int, 10);
            assert(pow10((k + 1) as nat) == pow10(k as nat) * 10);
        }
        acc = div10(acc);
        k = k + 1;
    }
    acc
}

/// The scaled Q64 price in four limbs, multiplying or dividing by the power
/// of ten of the given decimal difference.
fn scaled_limbs(sqrt_price: u128, decimals_a: u8, decimals_b: u8) -> (r: [u64; 4])
    requires
        scaling_defined(sqrt_price, decimals_a, decimals_b),
    ensures
        value4(r) == scaled_x64_price(sqrt_price, decimals_a, decimals_b),
{
    let price = square_shr64(sqrt_price);
    if decimals_a >= decimals_b {
        mul_pow10(price, (decimals_a - decimals_b) as u32)
    } else {
        div_pow10(price, (decimals_b - decimals_a) as u32)
    }
}

/// Four limbs reach `2^192` exactly when the top limb is non-zero.
proof fn lemma_top_limb_overflow(l: [u64; 4])
    ensures
        (l[3] != 0) <==> value4(l) >= base3(),
        value4(l) % base3() == value3([l[0], l[1], l[2]]),
{
    let bb = limb_base() as int;
    let low = value3([l[0], l[1], l[2]]) as int;
    assert(low < base3()) by (nonlinear_arith)
        requires
            low == l[0] + l[1] * bb + l[2] * (bb * bb),
            0 <= l[0] < bb,
            0 <= l[1] < bb,
            0 <= l[2] < bb,
            base3() == bb * bb * bb,
            bb > 0,
    ;
    assert(value4(l) == low + l[3] * base3());
    vstd::arithmetic::div_mod::lemma_fundamental_div_mod_converse(value4(l) as int, base3() as int, l[3] as int, low);
}

/// The Q64 price for a square-root price and a pair's decimals, in four limbs,
/// and whether it exceeds 192 bits (its top limb is non-zero).
pub fn compute_price_u256_and_overflow(sqrt_price: u128, decimals_a: u8, decimals_b: u8) -> (r: (Limbs256, bool))
    requires
        scaling_defined(sqrt_price, decimals_a, decimals_b),
    ensures
        value4(r.0.0) == scaled_x64_price(sqrt_price, decimals_a, decimals_b),
        r.1 == (r.0.0[3] != 0),
        r.1 <==> scaled_x64_price(sqrt_price, decimals_a, decimals_b) >= base3(),
{
    let price_u256 = scaled_limbs(sqrt_price, decimals_a, decimals_b);
    proof {
        lemma_top_limb_overflow(price_u256);
    }
    let overflow = price_u256[3] != 0;
    (Limbs256(price_u256), overflow)
}

/// The Q64 price for a square-root price and a pair's decimals, keeping the
/// low 192 bits: a price of 192 bits or more is truncated modulo `2^192`.
pub fn sqrt_price_to_x64_price(sqrt_price: u128, decimals_a: u8, decimals_b: u8) -> (r: X64Price)
    requires
        scaling_defined(sqrt_price, decimals_a, decimals_b),
    ensures
        value3(r.0) == scaled_x64_price(sqrt_price, decimals_a, decimals_b) % base3(),
{
    let price_u256 = scaled_limbs(sqrt_price, decimals_a, decimals_b);
    proof {
        lemma_top_limb_overflow(price_u256);
    }
    X64Price([price_u256[0], price_u256[1], price_u256[2]])
}

broadcast use vstd::string::group_string_axioms;

/// The Q64 price for a square-root price and a pair's decimals, or an error
/// when it does not fit in 192 bits.
pub fn sqrt_price_to_x64_price_fixed(sqrt_price: u128, decimals_a: u8, decimals_b: u8) -> (r: Result<
    X64Price,
    String,
>)
    requires
        scaling_defined(sqrt_price, decimals_a, decimals_b),
    ensures
        r is Err <==> scaled_x64_price(sqrt_price, decimals_a, decimals_b) >= base3(),
        r matches Ok(p) ==> value3(p.0) == scaled_x64_price(sqrt_price, decimals_a, decimals_b),
        r matches Err(message) ==> message@ == "Math overflow: price exceeds U192 range"@,
{
    let price_u256 = scaled_limbs(sqrt_price, decimals_a, decimals_b);
    proof {
        lemma_top_limb_overflow(price_u256);
    }
    if price_u256[3] != 0 {
        return Err("Math overflow: price exceeds U192 range".to_string());
    }
    proof {
        vstd::arithmetic::div_mod::lemma_small_mod(value4(price_u256), base3());
    }
    Ok(X64Price([price_u256[0], price_u256[1], price_u256[2]]))
}

/// Within 192 bits the truncating conversion is exact and agrees with the
/// checked one; beyond, the checked conversion refuses and the truncating one
/// keeps the remainder modulo `2^192`.
pub proof fn lemma_truncation_exact_below_192_bits(sqrt_price: u128, decimals_a: u8, decimals_b: u8)
    requires
        scaled_x64_price(sqrt_price, decimals_a, decimals_b) < base3(),
    ensures
        scaled_x64_price(sqrt_price, decimals_a, decimals_b) % base3() == scaled_x64_price(
            sqrt_price,
            decimals_a,
            decimals_b,
        ),
{
    vstd::arithmetic::div_mod::lemma_small_mod(scaled_x64_price(sqrt_price, decimals_a, decimals_b), base3());
}

/// The truncating conversion: the Q64 price scaled by the power of ten of
/// the decimal difference, keeping only the low 192 bits of the 256-bit
/// intermediate, whatever lies above them.
pub fn sqrt_price_to_x64_price_vulnerable(sqrt_price: u128, decimals_a: u8, decimals_b: u8) -> (r: X64Price)
    requires
        scaling_defined(sqrt_price, decimals_a, decimals_b),
    ensures
        value3(r.0) == scaled_x64_price(sqrt_price, decimals_a, decimals_b) % base3(),
{
    let price_u256 = scaled_limbs(sqrt_price, decimals_a, decimals_b);
    proof {
        lemma_top_limb_overflow(price_u256);
    }
    X64Price([price_u256[0], price_u256[1], price_u256[2]])
}

/// An approximate square-root price at which scaling by `10^decimal_diff`
/// overflows 192 bits, for the tabulated differences (`u128::MAX` otherwise).
pub open spec fn overflow_threshold_spec(decimal_diff: u8) -> u128 {
    if decimal_diff == 1 {
        (u128::MAX / 3) as u128
    } else if decimal_diff == 6 {
        (u128::MAX / 1000) as u128
    } else if decimal_diff == 12 {
        (u128::MAX / 1_000_000) as u128
    } else if decimal_diff == 18 {
        (u128::MAX / 1_000_000_000) as u128
    } else if decimal_diff == 24 {
        (u128::MAX / 1_000_000_000_000) as u128
    } else if decimal_diff == 30 {
        (u128::MAX / 1_000_000_000_000_000) as u128
    } else {
        u128::MAX
    }
}

/// The tabulated threshold square-root price for a decimal difference.
pub fn calculate_overflow_threshold(decimal_diff: u8) -> (threshold: u128)
    ensures
        threshold == overflow_threshold_spec(decimal_diff),
{
    match decimal_diff {
        1 => u128::MAX / 3,
        6 => u128::MAX / 1000,
        12 => u128::MAX / 1_000_000,
        18 => u128::MAX / 1_000_000_000,
        24 => u128::MAX / 1_000_000_000_000,
        30 => u128::MAX / 1_000_000_000_000_000,
        _ => u128::MAX,
    }
}

/// Whether the scaling of a square-root price by a pair's decimal difference
/// is defined: the difference is at most 30 and a scaled-up price fits in 256
/// bits.
pub fn scaling_fits(sqrt_price: u128, decimals_a: u8, decimals_b: u8) -> (fits: bool)
    ensures
        fits == scaling_defined(sqrt_price, decimals_a, decimals_b),
{
    let difference: u8 = if decimals_a >= decimals_b {
        decimals_a - decimals_b
    } else {
        decimals_b - decimals_a
    };
    if difference > 30 {
        return false;
    }
    let price = square_shr64(sqrt_price);
    if decimals_a < decimals_b {
        proof {
            lemma_pow10_positive((decimals_b - decimals_a) as nat);
            vstd::arithmetic::div_mod::lemma_div_is_ordered_by_denominator(
                value4(price) as int,
                1,
                pow10((decimals_b - decimals_a) as nat) as int,
            );
            assert(value4(price) < base3()) by {
                lemma_top_limb_overflow(price);
            }
        }
        return true;
    }
    let exponent = difference as u32;
    let mut acc = price;
    let mut k: u32 = 0;
    assert(value4(price) * pow10(0) == value4(price)) by {
        assert(pow10(0) == 1);
    }
    while k < exponent
        invariant
            k <= exponent,
            exponent == decimals_a - decimals_b,
            value4(acc) == value4(price) * pow10(k as nat),
            value4(price) == x64_square(sqrt_price),
        decreases exponent - k,
    {
        proof {
            let v = value4(price) as int;
            assert(v * pow10(k as nat) * 10 == v * pow10((k + 1) as nat)) by (nonlinear_arith)
                requires
                    pow10((k + 1) as nat) == 10 * pow10(k as nat),
            ;
        }
        match checked_mul10(acc) {
            Some(next) => {
                acc = next;
            },
            None => {
                proof {
                    crate::pow10::lemma_pow10_monotone((k + 1) as nat, exponent as nat);
                    let v = value4(price) as int;
                    assert(v * pow10((k + 1) as nat) <= v * pow10(exponent as nat)) by (nonlinear_arith)
                        requires
                            v >= 0,
                            pow10((k + 1) as nat) <= pow10(exponent as nat),
                    ;
                }
                return false;
            },
        }
        k = k + 1;
    }
    true
}

} // verus!
