//! The oracle confidence-interval check: a price is refused when it is not
//! above its deviation times a tolerance factor,
//! `price / 10^price_exp <= deviation * tolerance / 10^deviation_exp`.
use vstd::prelude::*;

use crate::pow10::{lemma_pow10_add, lemma_pow10_positive, pow10, ten_pow};

verus! {

broadcast use vstd::string::group_string_axioms;

/// `2^128`, the modulus of wrapping `u128` arithmetic.
pub open spec fn u128_modulus() -> nat {
    u128::MAX as nat + 1
}

/// The smaller of the two exponents, by which both sides are reduced.
pub open spec fn common_exp(price_exp: u32, deviation_exp: u32) -> u32 {
    if price_exp <= deviation_exp {
        price_exp
    } else {
        deviation_exp
    }
}

/// The price side of the comparison, brought to the common exponent.
pub open spec fn price_scaled(price_value: u128, price_exp: u32, deviation_exp: u32) -> nat {
    price_value as nat * pow10((deviation_exp - common_exp(price_exp, deviation_exp)) as nat)
}

/// The deviation side of the comparison, brought to the common exponent.
pub open spec fn deviation_scaled(
    deviation: u128,
    tolerance_factor: u32,
    price_exp: u32,
    deviation_exp: u32,
) -> nat {
    deviation as nat * tolerance_factor as nat * pow10(
        (price_exp - common_exp(price_exp, deviation_exp)) as nat,
    )
}

/// The price passes the check: it is strictly above the tolerated deviation.
pub open spec fn confidence_ok(
    price_value: u128,
    price_exp: u32,
    deviation: u128,
    deviation_exp: u32,
    tolerance_factor: u32,
) -> bool {
    price_scaled(price_value, price_exp, deviation_exp) > deviation_scaled(
        deviation,
        tolerance_factor,
        price_exp,
        deviation_exp,
    )
}

/// The comparison on the full exponents, without the reduction:
/// `price * 10^deviation_exp > deviation * tolerance * 10^price_exp`.
pub open spec fn confidence_ok_unreduced(
    price_value: u128,
    price_exp: u32,
    deviation: u128,
    deviation_exp: u32,
    tolerance_factor: u32,
) -> bool {
    price_value as nat * pow10(deviation_exp as nat) > deviation as nat * tolerance_factor as nat
        * pow10(price_exp as nat)
}

/// Both exponent differences are within the table of powers of ten.
pub open spec fn exponents_supported(price_exp: u32, deviation_exp: u32) -> bool {
    &&& deviation_exp - common_exp(price_exp, deviation_exp) <= 30
    &&& price_exp - common_exp(price_exp, deviation_exp) <= 30
}

/// Reducing both sides by the common exponent does not change the outcome:
/// the reduced comparison holds exactly when
/// `price / 10^price_exp > deviation * tolerance / 10^deviation_exp`.
pub proof fn lemma_confidence_reduction_exact(
    price_value: u128,
    price_exp: u32,
    deviation: u128,
    deviation_exp: u32,
    tolerance_factor: u32,
)
    ensures
        confidence_ok(price_value, price_exp, deviation, deviation_exp, tolerance_factor)
            == confidence_ok_unreduced(price_value, price_exp, deviation, deviation_exp, tolerance_factor),
{
    let c = common_exp(price_exp, deviation_exp) as nat;
    let dp = (deviation_exp - c) as nat;
    let pp = (price_exp - c) as nat;
    lemma_pow10_add(dp, c);
    lemma_pow10_add(pp, c);
    lemma_pow10_positive(c);
    assert(dp + c == deviation_exp as nat);
    assert(pp + c == price_exp as nat);
    let p = price_value as int;
    let dt = deviation as int * tolerance_factor as int;
    let a = pow10(dp) as int;
    let b = pow10(pp) as int;
    let k = pow10(c) as int;
    assert(p * (a * k) == (p * a) * k) by (nonlinear_arith);
    assert(dt * (b * k) == (dt * b) * k) by (nonlinear_arith);
    assert((p * a > dt * b) == ((p * a) * k > (dt * b) * k)) by (nonlinear_arith)
        requires
            k >= 1,
    ;
}

/// The confidence-interval check with plain `u128` arithmetic: the caller
/// guarantees that no product overflows.
pub fn check_confidence_interval_vulnerable(
    price_value: u128,
    price_exp: u32,
    deviation: u128,
    deviation_exp: u32,
    tolerance_factor: u32,
) -> (result: Result<(), String>)
    requires
        exponents_supported(price_exp, deviation_exp),
        price_scaled(price_value, price_exp, deviation_exp) <= u128::MAX,
        deviation * tolerance_factor <= u128::MAX,
        deviation_scaled(deviation, tolerance_factor, price_exp, deviation_exp) <= u128::MAX,
    ensures
        result is Ok <==> confidence_ok(price_value, price_exp, deviation, deviation_exp, tolerance_factor),
        result matches Err(message) ==> message@ == "ConfidenceIntervalCheckFailed"@,
{
    let common_exp = if price_exp <= deviation_exp {
        price_exp
    } else {
        deviation_exp
    };
    let price_scaled = price_value * ten_pow(deviation_exp - common_exp);
    let deviation_tolerance = deviation * (tolerance_factor as u128);
    let deviation_scaled = deviation_tolerance * ten_pow(price_exp - common_exp);
    if price_scaled <= deviation_scaled {
        return Err("ConfidenceIntervalCheckFailed".to_string());
    }
    Ok(())
}

/// The overflow that stops `check_confidence_interval_safe`, if any, in the
/// order in which the products are formed.
pub open spec fn confidence_overflow(
    price_value: u128,
    price_exp: u32,
    deviation: u128,
    deviation_exp: u32,
    tolerance_factor: u32,
) -> Option<Seq<char>> {
    if price_scaled(price_value, price_exp, deviation_exp) > u128::MAX {
        Some("Price scaling overflow"@)
    } else if deviation * tolerance_factor > u128::MAX {
        Some("Deviation tolerance overflow"@)
    } else if deviation_scaled(deviation, tolerance_factor, price_exp, deviation_exp) > u128::MAX {
        Some("Deviation scaling overflow"@)
    } else {
        None
    }
}

/// The confidence-interval check with checked arithmetic: an overflowing
/// product is reported as an error instead of deciding the check.
pub fn check_confidence_interval_safe(
    price_value: u128,
    price_exp: u32,
    deviation: u128,
    deviation_exp: u32,
    tolerance_factor: u32,
) -> (result: Result<(), String>)
    requires
        deviation_exp - common_exp(price_exp, deviation_exp) <= 30,
        price_scaled(price_value, price_exp, deviation_exp) <= u128::MAX && deviation
            * tolerance_factor <= u128::MAX ==> price_exp - common_exp(price_exp, deviation_exp)
            <= 30,
    ensures
        ({
            match confidence_overflow(price_value, price_exp, deviation, deviation_exp, tolerance_factor) {
                Some(overflow) => result matches Err(message) && message@ == overflow,
                None => if confidence_ok(price_value, price_exp, deviation, deviation_exp, tolerance_factor) {
                    result is Ok
                } else {
                    result matches Err(message) && message@ == "ConfidenceIntervalCheckFailed"@
                },
            }
        }),
{
    let common_exp = if price_exp <= deviation_exp {
        price_exp
    } else {
        deviation_exp
    };
    let price_scaled = match price_value.checked_mul(ten_pow(deviation_exp - common_exp)) {
        Some(v) => v,
        None => return Err("Price scaling overflow".to_string()),
    };
    let deviation_tolerance = match deviation.checked_mul(tolerance_factor as u128) {
        Some(v) => v,
        None => return Err("Deviation tolerance overflow".to_string()),
    };
    let deviation_scaled = match deviation_tolerance.checked_mul(ten_pow(price_exp - common_exp)) {
        Some(v) => v,
        None => return Err("Deviation scaling overflow".to_string()),
    };
    if price_scaled <= deviation_scaled {
        return Err("ConfidenceIntervalCheckFailed".to_string());
    }
    Ok(())
}

/// Where the unchecked check is defined (no product overflows), the checked
/// check gives the same outcome and the same message.
pub proof fn lemma_confidence_checks_agree(
    price_value: u128,
    price_exp: u32,
    deviation: u128,
    deviation_exp: u32,
    tolerance_factor: u32,
)
    requires
        exponents_supported(price_exp, deviation_exp),
        price_scaled(price_value, price_exp, deviation_exp) <= u128::MAX,
        deviation * tolerance_factor <= u128::MAX,
        deviation_scaled(deviation, tolerance_factor, price_exp, deviation_exp) <= u128::MAX,
    ensures
        confidence_overflow(price_value, price_exp, deviation, deviation_exp, tolerance_factor)
            is None,
{
}

/// The outcome of the confidence comparison when every product wraps modulo
/// `2^128`.
pub open spec fn confidence_ok_wrapping(
    price_value: u128,
    price_exp: u32,
    deviation: u128,
    deviation_exp: u32,
    tolerance_factor: u32,
) -> bool {
    let c = common_exp(price_exp, deviation_exp);
    let p = (price_value as nat * pow10((deviation_exp - c) as nat)) % u128_modulus();
    let dt = (deviation as nat * tolerance_factor as nat) % u128_modulus();
    let d = (dt * pow10((price_exp - c) as nat)) % u128_modulus();
    p > d
}

/// The confidence comparison with wrapping multiplication: `true` when the
/// wrapped price side is above the wrapped deviation side.
pub fn check_confidence_interval(
    price_value: u128,
    price_exp: u32,
    deviation: u128,
    deviation_exp: u32,
    tolerance_factor: u32,
) -> (passes: bool)
    requires
        exponents_supported(price_exp, deviation_exp),
    ensures
        passes == confidence_ok_wrapping(price_value, price_exp, deviation, deviation_exp, tolerance_factor),
{
    let common_exp = if price_exp <= deviation_exp {
        price_exp
    } else {
        deviation_exp
    };
    let price_scaled = price_value.wrapping_mul(ten_pow(deviation_exp - common_exp));
    let deviation_scaled = deviation.wrapping_mul(tolerance_factor as u128).wrapping_mul(
        ten_pow(price_exp - common_exp),
    );
    price_scaled > deviation_scaled
}

/// Where none of the products wraps, the wrapping check decides exactly as
/// the comparison of `price / 10^price_exp` with
/// `deviation * tolerance / 10^deviation_exp`.
pub proof fn lemma_wrapping_check_exact_without_overflow(
    price_value: u128,
    price_exp: u32,
    deviation: u128,
    deviation_exp: u32,
    tolerance_factor: u32,
)
    requires
        price_scaled(price_value, price_exp, deviation_exp) <= u128::MAX,
        deviation * tolerance_factor <= u128::MAX,
        deviation_scaled(deviation, tolerance_factor, price_exp, deviation_exp) <= u128::MAX,
    ensures
        confidence_ok_wrapping(price_value, price_exp, deviation, deviation_exp, tolerance_factor)
            == confidence_ok_unreduced(price_value, price_exp, deviation, deviation_exp, tolerance_factor),
{
    let c = common_exp(price_exp, deviation_exp);
    let p = price_value as nat * pow10((deviation_exp - c) as nat);
    let dt = deviation as nat * tolerance_factor as nat;
    let d = dt * pow10((price_exp - c) as nat);
    vstd::arithmetic::div_mod::lemma_small_mod(p, u128_modulus());
    vstd::arithmetic::div_mod::lemma_small_mod(dt, u128_modulus());
    vstd::arithmetic::div_mod::lemma_small_mod(d, u128_modulus());
    lemma_confidence_reduction_exact(price_value, price_exp, deviation, deviation_exp, tolerance_factor);
}

/// `2^64`, the weight of the high part of a wide number.
spec fn wide_base() -> nat {
    0x1_0000_0000_0000_0000
}

/// `2^160`, above every number that the exact comparison scales.
spec fn wide_bound() -> nat {
    0x1_0000_0000_0000_0000_0000_0000_0000_0000_0000_0000nat
}

/// `2^192`, the first value that a wide number cannot hold.
spec fn wide_limit() -> nat {
    0x1_0000_0000_0000_0000_0000_0000_0000_0000_0000_0000_0000_0000nat
}

/// The value `hi * 2^64 + lo` of a wide number `(hi, lo)`.
spec fn wide_value(w: (u128, u128)) -> nat {
    w.0 as nat * wide_base() + w.1 as nat
}

/// A wide number keeps its low part below `2^64`.
spec fn wide_ok(w: (u128, u128)) -> bool {
    w.1 < wide_base()
}

/// A `u128` as a wide number.
fn wide_from(x: u128) -> (w: (u128, u128))
    ensures
        wide_ok(w),
        wide_value(w) == x,
{
    let b: u128 = 0x1_0000_0000_0000_0000;
    (x / b, x % b)
}

/// The product `x * m` as a wide number.
fn wide_product(x: u128, m: u32) -> (w: (u128, u128))
    ensures
        wide_ok(w),
        wide_value(w) == x as nat * m as nat,
{
    let b: u128 = 0x1_0000_0000_0000_0000;
    let x0: u128 = x % b;
    let x1: u128 = x / b;
    proof {
        assert(x1 < b);
        assert(x0 * (m as int) < 0x1_0000_0000_0000_0000_0000_0000) by (nonlinear_arith)
            requires
                0 <= x0 < 0x1_0000_0000_0000_0000,
                0 <= m < 0x1_0000_0000,
        ;
        assert(x1 * (m as int) < 0x1_0000_0000_0000_0000_0000_0000) by (nonlinear_arith)
            requires
                0 <= x1 < 0x1_0000_0000_0000_0000,
                0 <= m < 0x1_0000_0000,
        ;
    }
    let t0: u128 = x0 * (m as u128);
    let hi: u128 = x1 * (m as u128) + t0 / b;
    proof {
        let bb = wide_base() as int;
        let mm = m as int;
        assert(x == x1 * bb + x0);
        assert(t0 == (t0 / b) * bb + t0 % b);
        assert(x * mm == x1 * mm * bb + t0) by (nonlinear_arith)
            requires
                x == x1 * bb + x0,
                t0 == x0 * mm,
        ;
        assert(x * mm == hi * bb + t0 % b) by (nonlinear_arith)
            requires
                x * mm == x1 * mm * bb + t0,
                t0 == (t0 / b) * bb + t0 % b,
                hi == x1 * mm + t0 / b,
        ;
    }
    (hi, t0 % b)
}

/// Ten times a wide number; the caller guarantees that it stays below `2^192`.
fn wide_mul10(w: (u128, u128)) -> (r: (u128, u128))
    requires
        wide_ok(w),
        wide_value(w) * 10 < wide_limit(),
    ensures
        wide_ok(r),
        wide_value(r) == wide_value(w) * 10,
{
    let b: u128 = 0x1_0000_0000_0000_0000;
    let t: u128 = w.1 * 10;
    let carry: u128 = t / b;
    proof {
        let bb = wide_base() as int;
        let hi = w.0 as int;
        let lo = w.1 as int;
        assert(t == carry * bb + t % b);
        assert((hi * 10 + carry) * bb <= (hi * bb + lo) * 10) by (nonlinear_arith)
            requires
                t == lo * 10,
                t == carry * bb + t % b,
                t % b >= 0,
        ;
        assert(hi * 10 + carry < 0x1_0000_0000_0000_0000_0000_0000_0000_0000) by (nonlinear_arith)
            requires
                (hi * 10 + carry) * bb <= (hi * bb + lo) * 10,
                (hi * bb + lo) * 10 < wide_limit(),
                bb == 0x1_0000_0000_0000_0000,
                wide_limit() == 0x1_0000_0000_0000_0000_0000_0000_0000_0000_0000_0000_0000_0000,
        ;
    }
    let hi: u128 = w.0 * 10 + carry;
    proof {
        let bb = wide_base() as int;
        assert(hi * bb + t % b == (w.0 * bb + w.1) * 10) by (nonlinear_arith)
            requires
                hi == w.0 * 10 + carry,
                t == w.1 * 10,
                t == carry * bb + t % b,
        ;
    }
    (hi, t % b)
}

/// Whether one wide number exceeds another.
fn wide_gt(a: (u128, u128), b: (u128, u128)) -> (r: bool)
    requires
        wide_ok(a),
        wide_ok(b),
    ensures
        r == (wide_value(a) > wide_value(b)),
{
    proof {
        let bb = wide_base() as int;
        if a.0 > b.0 {
            assert(wide_value(a) > wide_value(b)) by (nonlinear_arith)
                requires
                    a.0 >= b.0 + 1,
                    0 <= b.1 < bb,
                    a.1 >= 0,
                    wide_value(a) == a.0 * bb + a.1,
                    wide_value(b) == b.0 * bb + b.1,
            ;
        } else if a.0 < b.0 {
            assert(wide_value(a) < wide_value(b)) by (nonlinear_arith)
                requires
                    b.0 >= a.0 + 1,
                    0 <= a.1 < bb,
                    b.1 >= 0,
                    wide_value(a) == a.0 * bb + a.1,
                    wide_value(b) == b.0 * bb + b.1,
            ;
        }
    }
    a.0 > b.0 || (a.0 == b.0 && a.1 > b.1)
}

/// Whether `base * 10^exponent` exceeds `other`, for numbers below `2^160`:
/// the base is scaled up one power of ten at a time until it exceeds `other`
/// or the exponent is reached.
fn scaled_exceeds(base: (u128, u128), exponent: u32, other: (u128, u128)) -> (r: bool)
    requires
        wide_ok(base),
        wide_ok(other),
        wide_value(base) < wide_bound(),
        wide_value(other) < wide_bound(),
    ensures
        r == (wide_value(base) * pow10(exponent as nat) > wide_value(other)),
{
    if base.0 == 0 && base.1 == 0 {
        assert(wide_value(base) == 0);
        return false;
    }
    let mut acc = base;
    let mut k: u32 = 0;
    assert(wide_value(base) * pow10(0) == wide_value(base)) by {
        assert(pow10(0) == 1);
    }
    while k < exponent
        invariant
            k <= exponent,
            wide_ok(acc),
            wide_ok(other),
            wide_value(other) < wide_bound(),
            wide_value(acc) == wide_value(base) * pow10(k as nat),
        decreases exponent - k,
    {
        if wide_gt(acc, other) {
            proof {
                crate::pow10::lemma_pow10_monotone(k as nat, exponent as nat);
                let v = wide_value(base) as int;
                assert(v * pow10(k as nat) <= v * pow10(exponent as nat)) by (nonlinear_arith)
                    requires
                        v >= 0,
                        pow10(k as nat) <= pow10(exponent as nat),
                ;
            }
            return true;
        }
        proof {
            let v = wide_value(base) as int;
            assert(v * pow10(k as nat) * 10 == v * pow10((k + 1) as nat)) by (nonlinear_arith)
                requires
                    pow10((k + 1) as nat) == 10 * pow10(k as nat),
            ;
        }
        acc = wide_mul10(acc);
        k = k + 1;
    }
    wide_gt(acc, other)
}

/// Compares `price_value * 10^deviation_exp` with
/// `deviation * tolerance_factor * 10^price_exp` exactly, for all exponents:
/// both sides are reduced by the smaller exponent and the side that keeps a
/// power of ten is scaled up in 192-bit arithmetic until the comparison is
/// decided.
pub fn big_check(
    price_value: u128,
    price_exp: u32,
    deviation: u128,
    deviation_exp: u32,
    tolerance_factor: u32,
) -> (passes: bool)
    ensures
        passes == confidence_ok_unreduced(price_value, price_exp, deviation, deviation_exp, tolerance_factor),
{
    proof {
        lemma_confidence_reduction_exact(price_value, price_exp, deviation, deviation_exp, tolerance_factor);
        assert(pow10(0) == 1);
        let dv = deviation as int;
        let tf = tolerance_factor as int;
        assert(dv * tf < wide_bound()) by (nonlinear_arith)
            requires
                0 <= dv < 0x1_0000_0000_0000_0000_0000_0000_0000_0000,
                0 <= tf < 0x1_0000_0000,
                wide_bound() == 0x1_0000_0000_0000_0000_0000_0000_0000_0000_0000_0000,
        ;
    }
    let scaled_deviation = wide_product(deviation, tolerance_factor);
    let ghost dt = deviation as nat * tolerance_factor as nat;
    if price_exp <= deviation_exp {
        // price * 10^(deviation_exp - price_exp) > deviation * tolerance
        let r = scaled_exceeds(wide_from(price_value), deviation_exp - price_exp, scaled_deviation);
        proof {
            assert(common_exp(price_exp, deviation_exp) == price_exp);
            assert(deviation_scaled(deviation, tolerance_factor, price_exp, deviation_exp) == dt * 1);
        }
        r
    } else if price_value == 0 {
        proof {
            assert(price_scaled(price_value, price_exp, deviation_exp) == 0 * pow10(0));
        }
        false
    } else {
        // price > deviation * tolerance * 10^(price_exp - deviation_exp),
        // that is, not (deviation * tolerance * 10^(..) > price - 1)
        let r = scaled_exceeds(scaled_deviation, price_exp - deviation_exp, wide_from(price_value - 1));
        proof {
            assert(common_exp(price_exp, deviation_exp) == deviation_exp);
            assert(price_scaled(price_value, price_exp, deviation_exp) == price_value * 1);
        }
        !r
    }
}

/// The checked check and the arbitrary-precision comparison agree whenever
/// the checked check reaches a decision: it passes exactly when the
/// arbitrary-precision comparison does.
pub proof fn lemma_safe_check_matches_exact(
    price_value: u128,
    price_exp: u32,
    deviation: u128,
    deviation_exp: u32,
    tolerance_factor: u32,
)
    requires
        confidence_overflow(price_value, price_exp, deviation, deviation_exp, tolerance_factor)
            is None,
    ensures
        confidence_ok(price_value, price_exp, deviation, deviation_exp, tolerance_factor)
            == confidence_ok_unreduced(price_value, price_exp, deviation, deviation_exp, tolerance_factor),
{
    lemma_confidence_reduction_exact(price_value, price_exp, deviation, deviation_exp, tolerance_factor);
}

} // verus!
