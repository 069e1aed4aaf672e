//! Unchecked conversions of Scope's price arithmetic: Jupiter LP asset value
//! and the lamport-to-token price conversion on bare tuples.
use vstd::prelude::*;

use crate::pow10::{lemma_pow10_add, lemma_pow10_positive, pow10, ten_pow};
use crate::price::{
    adjust_exponent, lamports_to_tokens_defined, lamports_to_tokens_spec, price_of_lamports_to_price_of_tokens, Price,
};

verus! {

/// The number of decimals in which pool values are expressed.
pub const POOL_VALUE_SCALE_DECIMALS: u8 = 6;

/// The USD value of `token_amount` (with `token_decimals` decimals) at the
/// price `price_value * 10^-price_exp`, expressed with 6 decimals: the raw
/// product is divided or multiplied by the power of ten that brings its
/// `price_exp + token_decimals` decimals to 6.
pub open spec fn asset_amount_to_usd_spec(
    price_value: u64,
    price_exp: u8,
    token_amount: u64,
    token_decimals: u8,
) -> nat {
    let decimals = price_exp + token_decimals;
    let raw = price_value as nat * token_amount as nat;
    if decimals > 6 {
        raw / pow10((decimals - 6) as nat)
    } else {
        raw * pow10((6 - decimals) as nat)
    }
}

/// Values an asset amount in USD with 6 decimals, with unchecked `u128`
/// arithmetic: the caller guarantees that the decimals add up within a `u8`,
/// that a division uses at most `10^30`, and that a multiplication fits.
pub fn asset_amount_to_usd_vulnerable(
    price_value: u64,
    price_exp: u8,
    token_amount: u64,
    token_decimals: u8,
) -> (usd: u128)
    requires
        price_exp + token_decimals <= u8::MAX,
        price_exp + token_decimals > 6 ==> price_exp + token_decimals - 6 <= 30,
        asset_amount_to_usd_spec(price_value, price_exp, token_amount, token_decimals)
            <= u128::MAX,
    ensures
        usd == asset_amount_to_usd_spec(price_value, price_exp, token_amount, token_decimals),
{
    let price_value: u128 = price_value as u128;
    let token_amount: u128 = token_amount as u128;
    let price_decimals: u8 = price_exp;
    proof {
        let p = price_value as int;
        let t = token_amount as int;
        assert(p * t <= 0xffff_ffff_ffff_ffff * 0xffff_ffff_ffff_ffff) by (nonlinear_arith)
            requires
                0 <= p <= 0xffff_ffff_ffff_ffff,
                0 <= t <= 0xffff_ffff_ffff_ffff,
        ;
    }
    if price_decimals + token_decimals > POOL_VALUE_SCALE_DECIMALS {
        let diff = price_decimals + token_decimals - POOL_VALUE_SCALE_DECIMALS;
        let nom = price_value * token_amount;
        let denom = ten_pow(diff as u32);
        proof {
            crate::pow10::lemma_pow10_positive(diff as nat);
        }
        nom / denom
    } else {
        let diff = POOL_VALUE_SCALE_DECIMALS - (price_decimals + token_decimals);
        let factor = ten_pow(diff as u32);
        proof {
            crate::pow10::lemma_pow10_positive(diff as nat);
            let raw = price_value as int * token_amount as int;
            let f = factor as int;
            assert(raw <= raw * f) by (nonlinear_arith)
                requires
                    raw >= 0,
                    f >= 1,
            ;
        }
        price_value * token_amount * factor
    }
}

/// Converts a lamport price given as `(value, exp)` into a token price
/// `(value, exp)` with unchecked arithmetic: the caller guarantees that the
/// power of ten and the scaled mantissa fit in a `u64`.
pub fn price_of_lamports_to_price_of_tokens_vulnerable(
    lamport_value: u64,
    lamport_exp: u64,
    token_a_decimals: u64,
    token_b_decimals: u64,
) -> (price: (u64, u64))
    requires
        lamports_to_tokens_defined(
            Price { value: lamport_value, exp: lamport_exp },
            token_a_decimals,
            token_b_decimals,
        ),
    ensures
        ({
            let expected = lamports_to_tokens_spec(
                Price { value: lamport_value, exp: lamport_exp },
                token_a_decimals,
                token_b_decimals,
            );
            price == (expected.value, expected.exp)
        }),
        lamport_exp + token_b_decimals < token_a_decimals ==> price.0 == lamport_value * pow10(
            adjust_exponent(lamport_exp, token_a_decimals, token_b_decimals) as nat,
        ),
{
    let converted = price_of_lamports_to_price_of_tokens(
        Price { value: lamport_value, exp: lamport_exp },
        token_a_decimals,
        token_b_decimals,
    );
    (converted.value, converted.exp)
}

/// The raw product of a `u64` price and a `u64` amount always fits in a
/// `u128`: of the asset valuation, only the scaling up by a power of ten can
/// overflow.
pub proof fn lemma_asset_product_fits(price_value: u64, token_amount: u64)
    ensures
        price_value as nat * token_amount as nat <= u128::MAX,
{
    let p = price_value as int;
    let t = token_amount as int;
    assert(p * t <= 0xffff_ffff_ffff_ffff * 0xffff_ffff_ffff_ffff) by (nonlinear_arith)
        requires
            0 <= p <= 0xffff_ffff_ffff_ffff,
            0 <= t <= 0xffff_ffff_ffff_ffff,
    ;
}

/// The result, read with 6 decimals, is the value of the amount: with
/// `d = price_exp + token_decimals` decimals in the raw product
/// `price_value * token_amount`, `usd * 10^d == raw * 10^6` when `d <= 6`,
/// and `usd == floor(raw * 10^6 / 10^d)` otherwise.
pub proof fn lemma_usd_value_has_six_decimals(
    price_value: u64,
    price_exp: u8,
    token_amount: u64,
    token_decimals: u8,
)
    ensures
        ({
            let d = (price_exp + token_decimals) as nat;
            let raw = price_value as nat * token_amount as nat;
            let usd = asset_amount_to_usd_spec(price_value, price_exp, token_amount, token_decimals);
            &&& d <= 6 ==> usd * pow10(d) == raw * pow10(6)
            &&& d > 6 ==> usd == (raw * pow10(6)) / pow10(d)
        }),
{
    let d = (price_exp + token_decimals) as nat;
    let raw = price_value as nat * token_amount as nat;
    if d <= 6 {
        let e = (6 - d) as nat;
        lemma_pow10_add(e, d);
        assert(e + d == 6);
        assert(raw * pow10(e) * pow10(d) == raw * (pow10(e) * pow10(d))) by (nonlinear_arith);
    } else {
        let e = (d - 6) as nat;
        lemma_pow10_add(e, 6);
        assert(e + 6 == d);
        lemma_pow10_positive(e);
        lemma_pow10_positive(6);
        assert(raw * pow10(6) == pow10(6) * raw) by (nonlinear_arith);
        assert(pow10(d) == pow10(6) * pow10(e)) by (nonlinear_arith)
            requires
                pow10(d) == pow10(e) * pow10(6),
        ;
        vstd::arithmetic::div_mod::lemma_div_multiples_vanish_quotient(pow10(6) as int, raw as int, pow10(e) as int);
    }
}

} // verus!
