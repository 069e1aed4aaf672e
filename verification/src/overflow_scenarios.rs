//! The arithmetic of a few overflow scenarios in reward, confidence, price
//! conversion and fee accounting: each computes what the unchecked formula
//! would give next to its checked and its wrapping counterparts.
use vstd::prelude::*;

use crate::confidence::u128_modulus;
use crate::pow10::{lemma_pow10_monotone, lemma_pow10_table, pow10, ten_pow};
use crate::price::u64_modulus;

verus! {

/// `10^exponent` as a `u128`, for any exponent whose power fits.
pub fn pow10_u128(exponent: u32) -> (value: u128)
    requires
        pow10(exponent as nat) <= u128::MAX,
    ensures
        value == pow10(exponent as nat),
{
    let mut value: u128 = 1;
    let mut k: u32 = 0;
    while k < exponent
        invariant
            k <= exponent,
            value == pow10(k as nat),
            pow10(exponent as nat) <= u128::MAX,
        decreases exponent - k,
    {
        proof {
            lemma_pow10_monotone((k + 1) as nat, exponent as nat);
        }
        value = value * 10;
        k = k + 1;
    }
    value
}

/// Reward arithmetic with an oracle price: the cumulative amount per staked
/// unit at `10^decimals` precision, and its product with the price.
#[derive(Debug, Clone, Copy)]
pub struct RewardAdjustment {
    pub decimal_adjusted_amt: u128,
    /// `decimal_adjusted_amt * px`, or `None` when it overflows a `u128`.
    pub product: Option<u128>,
    /// `decimal_adjusted_amt * px / factor` when the product fits.
    pub oracle_adjusted_amt: Option<u128>,
    /// `decimal_adjusted_amt * px` modulo `2^128`.
    pub wrapped_product: u128,
}

/// `cumulative_amt * 10^decimals / total_staked`.
pub open spec fn decimal_adjusted_spec(cumulative_amt: u128, total_staked: u128, decimals: u32) -> nat {
    (cumulative_amt as nat * pow10(decimals as nat)) / total_staked as nat
}

/// Scales a cumulative reward amount to `10^decimals` precision per staked
/// unit, then values it at the oracle price `px / factor`, reporting whether
/// the product with the price overflows and what it wraps to.
pub fn kfarms_oracle_adjusted_amount(
    cumulative_amt: u128,
    total_staked: u128,
    rewards_per_second_decimals: u32,
    px: u128,
    factor: u128,
) -> (r: RewardAdjustment)
    requires
        pow10(rewards_per_second_decimals as nat) <= u128::MAX,
        cumulative_amt * pow10(rewards_per_second_decimals as nat) <= u128::MAX,
        total_staked != 0,
        decimal_adjusted_spec(cumulative_amt, total_staked, rewards_per_second_decimals) * px
            <= u128::MAX ==> factor != 0,
    ensures
        r.decimal_adjusted_amt == decimal_adjusted_spec(cumulative_amt, total_staked, rewards_per_second_decimals),
        r.product is Some <==> r.decimal_adjusted_amt * px <= u128::MAX,
        r.product matches Some(p) ==> p == r.decimal_adjusted_amt * px,
        r.oracle_adjusted_amt is Some <==> r.product is Some,
        r.oracle_adjusted_amt matches Some(v) ==> v == (r.decimal_adjusted_amt * px) / factor as int,
        r.wrapped_product == (r.decimal_adjusted_amt as nat * px as nat) % u128_modulus(),
{
    let scale = pow10_u128(rewards_per_second_decimals);
    let decimal_adjusted_amt = cumulative_amt * scale / total_staked;
    let product = decimal_adjusted_amt.checked_mul(px);
    let oracle_adjusted_amt = match product {
        Some(p) => Some(p / factor),
        None => None,
    };
    RewardAdjustment {
        decimal_adjusted_amt,
        product,
        oracle_adjusted_amt,
        wrapped_product: decimal_adjusted_amt.wrapping_mul(px),
    }
}

/// The confidence comparison carried out step by step, with its checked and
/// its wrapping outcomes.
#[derive(Debug, Clone, Copy)]
pub struct ConfidenceScaling {
    pub common_exp: u32,
    pub price_ten_pow: u128,
    pub deviation_ten_pow: u128,
    /// `price * 10^(deviation_exp - common_exp)`, or `None` on overflow.
    pub price_scaled: Option<u128>,
    /// `deviation * tolerance * 10^(price_exp - common_exp)`, or `None` on overflow.
    pub deviation_scaled: Option<u128>,
    /// The same products modulo `2^128`.
    pub price_wrapped: u128,
    pub deviation_wrapped: u128,
    /// The price is not above the tolerated deviation, compared on the
    /// wrapped products.
    pub check_fails_wrapped: bool,
}

/// Scales both sides of the confidence comparison to the smaller exponent,
/// with checked products (`None` on overflow) and wrapping ones.
pub fn confidence_scaling(
    price_value: u128,
    deviation: u128,
    tolerance_factor: u128,
    price_exp: u32,
    deviation_exp: u32,
) -> (r: ConfidenceScaling)
    requires
        pow10((deviation_exp - if price_exp <= deviation_exp { price_exp } else { deviation_exp }) as nat)
            <= u128::MAX,
        pow10((price_exp - if price_exp <= deviation_exp { price_exp } else { deviation_exp }) as nat)
            <= u128::MAX,
    ensures
        r.common_exp == (if price_exp <= deviation_exp { price_exp } else { deviation_exp }),
        r.price_ten_pow == pow10((deviation_exp - r.common_exp) as nat),
        r.deviation_ten_pow == pow10((price_exp - r.common_exp) as nat),
        r.price_scaled is Some <==> price_value * r.price_ten_pow <= u128::MAX,
        r.price_scaled matches Some(p) ==> p == price_value * r.price_ten_pow,
        r.deviation_scaled is Some <==> (deviation * tolerance_factor <= u128::MAX && deviation
            * tolerance_factor * r.deviation_ten_pow <= u128::MAX),
        r.deviation_scaled matches Some(d) ==> d == deviation * tolerance_factor * r.deviation_ten_pow,
        r.price_wrapped == (price_value as nat * r.price_ten_pow as nat) % u128_modulus(),
        r.deviation_wrapped == (((deviation as nat * tolerance_factor as nat) % u128_modulus())
            * r.deviation_ten_pow as nat) % u128_modulus(),
        r.check_fails_wrapped == (r.price_wrapped <= r.deviation_wrapped),
{
    let common_exp = if price_exp <= deviation_exp {
        price_exp
    } else {
        deviation_exp
    };
    let price_ten_pow = pow10_u128(deviation_exp - common_exp);
    let deviation_ten_pow = pow10_u128(price_exp - common_exp);
    let price_scaled = price_value.checked_mul(price_ten_pow);
    let deviation_intermediate = deviation.checked_mul(tolerance_factor);
    let deviation_scaled = match deviation_intermediate {
        Some(x) => x.checked_mul(deviation_ten_pow),
        None => None,
    };
    let price_wrapped = price_value.wrapping_mul(price_ten_pow);
    let deviation_wrapped = deviation.wrapping_mul(tolerance_factor).wrapping_mul(deviation_ten_pow);
    ConfidenceScaling {
        common_exp,
        price_ten_pow,
        deviation_ten_pow,
        price_scaled,
        deviation_scaled,
        price_wrapped,
        deviation_wrapped,
        check_fails_wrapped: price_wrapped <= deviation_wrapped,
    }
}

/// A price conversion with signed decimal exponents: the adjustment
/// exponent, and for an adjustment in `1..=30` the power of ten in a `u64`
/// (`None` when it overflows), the scaled value (`None` on overflow) and its
/// wrapped value.
#[derive(Debug, Clone, Copy)]
pub struct SignedConversion {
    pub adjust_exp: i32,
    pub power: Option<u64>,
    pub product: Option<u64>,
    pub wrapped: Option<u64>,
}

/// Computes `token_a_decimals - (lamport_exp + token_b_decimals)` and, when it
/// is in `1..=30`, scales `lamport_value` by that power of ten with checked
/// and wrapping `u64` arithmetic.
pub fn signed_price_conversion(
    token_a_decimals: i32,
    token_b_decimals: i32,
    lamport_exp: i32,
    lamport_value: u64,
) -> (r: SignedConversion)
    requires
        i32::MIN <= lamport_exp + token_b_decimals <= i32::MAX,
        i32::MIN <= token_a_decimals - (lamport_exp + token_b_decimals) <= i32::MAX,
    ensures
        r.adjust_exp == token_a_decimals - (lamport_exp + token_b_decimals),
        !(0 < r.adjust_exp <= 30) ==> r.power is None && r.product is None && r.wrapped is None,
        0 < r.adjust_exp <= 30 ==> {
            &&& (r.power is Some <==> pow10(r.adjust_exp as nat) <= u64::MAX)
            &&& (r.power matches Some(p) ==> p == pow10(r.adjust_exp as nat))
            &&& (r.product is Some <==> (r.power is Some && lamport_value * pow10(r.adjust_exp as nat)
                <= u64::MAX))
            &&& (r.product matches Some(v) ==> v == lamport_value * pow10(r.adjust_exp as nat))
            &&& (r.wrapped is Some <==> (r.power is Some && r.product is None))
            &&& (r.wrapped matches Some(w) ==> w == (lamport_value as nat * pow10(r.adjust_exp as nat))
                % u64_modulus())
        },
{
    let adjust_exp = token_a_decimals - (lamport_exp + token_b_decimals);
    if adjust_exp > 0 && adjust_exp <= 30 {
        proof {
            lemma_pow10_table();
            if adjust_exp > 19 {
                lemma_pow10_monotone(20, adjust_exp as nat);
            } else {
                lemma_pow10_monotone(adjust_exp as nat, 19);
            }
        }
        let power: Option<u64> = if adjust_exp <= 19 {
            Some(ten_pow(adjust_exp as u32) as u64)
        } else {
            None
        };
        match power {
            Some(p) => {
                let product = lamport_value.checked_mul(p);
                let wrapped = match product {
                    Some(_) => None,
                    None => Some(lamport_value.wrapping_mul(p)),
                };
                SignedConversion { adjust_exp, power, product, wrapped }
            },
            None => SignedConversion { adjust_exp, power, product: None, wrapped: None },
        }
    } else {
        SignedConversion { adjust_exp, power: None, product: None, wrapped: None }
    }
}

/// The accumulation of fees until a `u128` counter overflows.
#[derive(Debug, Clone, Copy)]
pub struct FeeOverflowTimeline {
    pub daily_fees: u128,
    /// Whole years of fees that fit in a `u128`.
    pub years_to_overflow: u128,
    /// The fees accumulated over those years.
    pub total_fees_at_overflow: u128,
    /// One more day of fees added with wrapping arithmetic.
    pub wrapped_fees: u128,
}

/// The number of days in a year of fee accounting.
pub const DAYS_PER_YEAR: u128 = 365;

/// How many whole years of fees fit in a `u128`, what they add up to, and
/// what one more day wraps the counter to.
pub fn referrer_fee_overflow_timeline(fees_per_operation: u128, operations_per_day: u128) -> (r:
    FeeOverflowTimeline)
    requires
        fees_per_operation * operations_per_day * DAYS_PER_YEAR <= u128::MAX,
        fees_per_operation * operations_per_day != 0,
    ensures
        r.daily_fees == fees_per_operation * operations_per_day,
        r.years_to_overflow == u128::MAX as int / (r.daily_fees * DAYS_PER_YEAR),
        r.total_fees_at_overflow == r.daily_fees * DAYS_PER_YEAR * r.years_to_overflow,
        r.wrapped_fees == (r.total_fees_at_overflow as nat + r.daily_fees as nat) % u128_modulus(),
{
    proof {
        let f = fees_per_operation as int;
        let o = operations_per_day as int;
        assert(f * o <= f * o * 365) by (nonlinear_arith)
            requires
                f * o >= 0,
        ;
    }
    let daily_fees = fees_per_operation * operations_per_day;
    let yearly = daily_fees * DAYS_PER_YEAR;
    let years_to_overflow = u128::MAX / yearly;
    proof {
        let y = yearly as int;
        let n = years_to_overflow as int;
        vstd::arithmetic::div_mod::lemma_fundamental_div_mod(u128::MAX as int, y);
        vstd::arithmetic::div_mod::lemma_mod_bound(u128::MAX as int, y);
        assert(y * n <= u128::MAX);
        assert(y * n == n * y) by (nonlinear_arith);
    }
    let total_fees_at_overflow = yearly * years_to_overflow;
    let wrapped_fees = total_fees_at_overflow.wrapping_add(daily_fees);
    proof {
        let sum = total_fees_at_overflow as int + daily_fees as int;
        let m = u128_modulus() as int;
        if sum <= u128::MAX {
            vstd::arithmetic::div_mod::lemma_small_mod(sum as nat, m as nat);
        } else {
            vstd::arithmetic::div_mod::lemma_fundamental_div_mod_converse(sum, m, 1, sum - m);
        }
    }
    FeeOverflowTimeline { daily_fees, years_to_overflow, total_fees_at_overflow, wrapped_fees }
}

} // verus!
