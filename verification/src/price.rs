//! Scope prices as a mantissa and a decimal exponent, and their conversion
//! between token denominations.
use vstd::arithmetic::div_mod::{lemma_mul_mod_noop_left, lemma_mul_mod_noop_right, lemma_small_mod};
use vstd::prelude::*;

use crate::pow10::{lemma_pow10_add, lemma_pow10_positive, pow10};

verus! {

/// `2^64`, the modulus of wrapping `u64` arithmetic.
pub open spec fn u64_modulus() -> nat {
    0x1_0000_0000_0000_0000
}

/// A price `value * 10^-exp`.
#[derive(Debug, Clone, Copy, PartialEq, Eq, Structural)]
pub struct Price {
    pub value: u64,
    pub exp: u64,
}

/// The exponent by which a lamport price is raised when the token of the
/// numerator has more decimals than the lamport price and the other token
/// together carry.
pub open spec fn adjust_exponent(lamport_exp: u64, token_a_decimals: u64, token_b_decimals: u64) -> int {
    token_a_decimals - (lamport_exp + token_b_decimals)
}

/// The token price that `price_of_lamports_to_price_of_tokens` gives: the
/// exponent absorbs the decimal difference where it can; otherwise the
/// mantissa is scaled by the missing power of ten, modulo `2^64`.
pub open spec fn lamports_to_tokens_spec(
    lamport_price: Price,
    token_a_decimals: u64,
    token_b_decimals: u64,
) -> Price {
    if lamport_price.exp + token_b_decimals >= token_a_decimals {
        Price {
            value: lamport_price.value,
            exp: (lamport_price.exp + token_b_decimals - token_a_decimals) as u64,
        }
    } else {
        let adjust = adjust_exponent(lamport_price.exp, token_a_decimals, token_b_decimals);
        Price {
            value: ((lamport_price.value as nat * pow10(adjust as nat)) % u64_modulus()) as u64,
            exp: 0,
        }
    }
}

/// The token price that `price_of_lamports_to_price_of_tokens_wrapping`
/// gives: as `lamports_to_tokens_spec`, except that the power of ten is taken
/// with the adjustment exponent cut to its low 32 bits.
pub open spec fn lamports_to_tokens_wrapping_spec(
    lamport_price: Price,
    token_a_decimals: u64,
    token_b_decimals: u64,
) -> Price {
    if lamport_price.exp + token_b_decimals >= token_a_decimals {
        Price {
            value: lamport_price.value,
            exp: (lamport_price.exp + token_b_decimals - token_a_decimals) as u64,
        }
    } else {
        let adjust = adjust_exponent(lamport_price.exp, token_a_decimals, token_b_decimals);
        Price {
            value: ((lamport_price.value as nat * pow10((adjust % 0x1_0000_0000) as nat)) % u64_modulus()) as u64,
            exp: 0,
        }
    }
}

/// `10^exponent` modulo `2^64`, which is what `u64::pow` gives when it wraps.
fn wrapping_ten_pow(exponent: u64) -> (value: u64)
    ensures
        value == pow10(exponent as nat) % u64_modulus(),
{
    let mut value: u64 = 1;
    let mut k: u64 = 0;
    while k < exponent && value != 0
        invariant
            k <= exponent,
            value == pow10(k as nat) % u64_modulus(),
        decreases exponent - k,
    {
        proof {
            lemma_mul_mod_noop_left(pow10(k as nat) as int, 10, u64_modulus() as int);
            assert(pow10((k + 1) as nat) == pow10(k as nat) * 10);
        }
        value = value.wrapping_mul(10);
        k = k + 1;
    }
    if k < exponent {
        proof {
            let rest = (exponent - k) as nat;
            lemma_pow10_add(k as nat, rest);
            lemma_mul_mod_noop_left(pow10(k as nat) as int, pow10(rest) as int, u64_modulus() as int);
            assert(exponent as nat == k as nat + rest);
        }
    }
    value
}

/// The conversion is defined without overflow: the exponent sum fits, and
/// where the mantissa must be scaled, `10^adjust` and the scaled mantissa fit
/// in a `u64`.
pub open spec fn lamports_to_tokens_defined(
    lamport_price: Price,
    token_a_decimals: u64,
    token_b_decimals: u64,
) -> bool {
    &&& lamport_price.exp + token_b_decimals <= u64::MAX
    &&& lamport_price.exp + token_b_decimals < token_a_decimals ==> {
        let adjust = adjust_exponent(lamport_price.exp, token_a_decimals, token_b_decimals);
        &&& adjust <= 19
        &&& lamport_price.value * pow10(adjust as nat) <= u64::MAX
    }
}

/// Converts a price of one lamport of token A in lamports of token B into a
/// price of one token A in tokens B: the exponent absorbs the decimal
/// difference where it can, otherwise the mantissa is multiplied by the
/// missing power of ten. The caller guarantees that this product fits in a
/// `u64` (the arithmetic is not checked).
pub fn price_of_lamports_to_price_of_tokens(
    lamport_price: Price,
    token_a_decimals: u64,
    token_b_decimals: u64,
) -> (price: Price)
    requires
        lamports_to_tokens_defined(lamport_price, token_a_decimals, token_b_decimals),
    ensures
        price == lamports_to_tokens_spec(lamport_price, token_a_decimals, token_b_decimals),
        lamport_price.exp + token_b_decimals < token_a_decimals ==> price.value == lamport_price.value
            * pow10(adjust_exponent(lamport_price.exp, token_a_decimals, token_b_decimals) as nat),
{
    let Price { value: lamport_value, exp: lamport_exp } = lamport_price;
    if lamport_exp + token_b_decimals >= token_a_decimals {
        let exp = lamport_exp + token_b_decimals - token_a_decimals;
        Price { value: lamport_value, exp }
    } else {
        let adjust_exp = token_a_decimals - (lamport_exp + token_b_decimals);
        proof {
            crate::pow10::lemma_pow10_table();
            crate::pow10::lemma_pow10_monotone(adjust_exp as nat, 19);
            lemma_small_mod((lamport_value as nat * pow10(adjust_exp as nat)), u64_modulus());
        }
        let factor = crate::pow10::ten_pow(adjust_exp as u32) as u64;
        let value = lamport_value * factor;
        Price { value, exp: 0 }
    }
}

/// The same conversion with wrapping arithmetic: the adjustment exponent is
/// cut to 32 bits, and both the power of ten and the scaled mantissa are taken
/// modulo `2^64`, so the result is defined for every input whose exponents add
/// up in a `u64`.
pub fn price_of_lamports_to_price_of_tokens_wrapping(
    lamport_price: Price,
    token_a_decimals: u64,
    token_b_decimals: u64,
) -> (price: Price)
    requires
        lamport_price.exp + token_b_decimals <= u64::MAX,
    ensures
        price == lamports_to_tokens_wrapping_spec(lamport_price, token_a_decimals, token_b_decimals),
{
    let Price { value: lamport_value, exp: lamport_exp } = lamport_price;
    if lamport_exp + token_b_decimals >= token_a_decimals {
        let exp = lamport_exp + token_b_decimals - token_a_decimals;
        Price { value: lamport_value, exp }
    } else {
        let adjust_exp = token_a_decimals - (lamport_exp + token_b_decimals);
        let exponent: u32 = #[verifier::truncate] (adjust_exp as u32);
        proof {
            assert(adjust_exp as u32 == adjust_exp % 0x1_0000_0000) by (bit_vector);
        }
        let factor = wrapping_ten_pow(exponent as u64);
        let value = lamport_value.wrapping_mul(factor);
        proof {
            lemma_mul_mod_noop_right(
                lamport_value as int,
                pow10(exponent as nat) as int,
                u64_modulus() as int,
            );
        }
        Price { value, exp: 0 }
    }
}

/// Where the scaled mantissa fits in a `u64`, the converted price stands for
/// the same quantity: `value / 10^exp` in tokens equals the lamport price
/// times `10^(token_a_decimals - token_b_decimals)`, that is
/// `price.value * 10^(lamport_exp + token_b_decimals)
///  == lamport_value * 10^(token_a_decimals + price.exp)`.
pub proof fn lemma_lamports_to_tokens_preserves_value(
    lamport_price: Price,
    token_a_decimals: u64,
    token_b_decimals: u64,
)
    requires
        lamport_price.exp + token_b_decimals <= u64::MAX,
        lamport_price.exp + token_b_decimals < token_a_decimals ==> lamport_price.value * pow10(
            adjust_exponent(lamport_price.exp, token_a_decimals, token_b_decimals) as nat,
        ) <= u64::MAX,
    ensures
        ({
            let price = lamports_to_tokens_spec(lamport_price, token_a_decimals, token_b_decimals);
            price.value * pow10((lamport_price.exp + token_b_decimals) as nat) == lamport_price.value
                * pow10((token_a_decimals + price.exp) as nat)
        }),
{
    let price = lamports_to_tokens_spec(lamport_price, token_a_decimals, token_b_decimals);
    let e = lamport_price.exp;
    let b = token_b_decimals;
    let a = token_a_decimals;
    if e + b >= a {
        assert((a + price.exp) as nat == (e + b) as nat);
    } else {
        let adjust = (a - (e + b)) as nat;
        let scaled = lamport_price.value as nat * pow10(adjust);
        lemma_pow10_positive(adjust);
        lemma_small_mod(scaled as nat, u64_modulus());
        assert(price.value == scaled);
        lemma_pow10_add(adjust, (e + b) as nat);
        assert(adjust + (e + b) as nat == a as nat);
        let x = lamport_price.value as int;
        let y = pow10(adjust) as int;
        let z = pow10((e + b) as nat) as int;
        assert((x * y) * z == x * (y * z)) by (nonlinear_arith);
    }
}

/// The decimal exponent that `simulate_u64_div_to_price` picks for a
/// denominator: the number of digits of `denominator - 1`, at most 18
/// (denominators up to 10 get 0, those in `(10^k, 10^(k+1)]` get `k`).
pub open spec fn div_price_exponent_fits(denominator: u64, exp: nat) -> bool {
    &&& exp <= 18
    &&& (exp == 18 || denominator <= pow10(exp + 1))
    &&& (exp == 0 || denominator > pow10(exp))
}

/// Divides `numerator` by `denominator` into a price whose mantissa carries
/// as many decimals as the denominator has digits beyond the first (up to 18).
/// The quotient is truncated to its low 64 bits.
pub fn simulate_u64_div_to_price(numerator: u64, denominator: u64) -> (price: Price)
    requires
        denominator != 0,
    ensures
        div_price_exponent_fits(denominator, price.exp as nat),
        price.value == ((numerator as nat * pow10(price.exp as nat)) / denominator as nat) % u64_modulus(),
{
    proof {
        crate::pow10::lemma_pow10_table();
    }
    let (exp, ten_pow_exp): (u64, u64) = if denominator <= 10 {
        (0, 1)
    } else if denominator <= 100 {
        (1, 10)
    } else if denominator <= 1000 {
        (2, 100)
    } else if denominator <= 10000 {
        (3, 1000)
    } else if denominator <= 100000 {
        (4, 10000)
    } else if denominator <= 1000000 {
        (5, 100000)
    } else if denominator <= 10000000 {
        (6, 1000000)
    } else if denominator <= 100000000 {
        (7, 10000000)
    } else if denominator <= 1000000000 {
        (8, 100000000)
    } else if denominator <= 10000000000 {
        (9, 1000000000)
    } else if denominator <= 100000000000 {
        (10, 10000000000)
    } else if denominator <= 1000000000000 {
        (11, 100000000000)
    } else if denominator <= 10000000000000 {
        (12, 1000000000000)
    } else if denominator <= 100000000000000 {
        (13, 10000000000000)
    } else if denominator <= 1000000000000000 {
        (14, 100000000000000)
    } else if denominator <= 10000000000000000 {
        (15, 1000000000000000)
    } else if denominator <= 100000000000000000 {
        (16, 10000000000000000)
    } else if denominator <= 1000000000000000000 {
        (17, 100000000000000000)
    } else {
        (18, 1000000000000000000)
    };
    assert(ten_pow_exp == pow10(exp as nat));
    proof {
        let n = numerator as int;
        let t = ten_pow_exp as int;
        assert(n * t <= 0xffff_ffff_ffff_ffff * 1_000_000_000_000_000_000) by (nonlinear_arith)
            requires
                0 <= n <= 0xffff_ffff_ffff_ffff,
                0 <= t <= 1_000_000_000_000_000_000,
        ;
    }
    let numerator_scaled = (numerator as u128) * (ten_pow_exp as u128);
    let price_value = numerator_scaled / (denominator as u128);
    proof {
        assert(price_value as u64 == price_value % 0x1_0000_0000_0000_0000) by (bit_vector);
    }
    Price { value: #[verifier::truncate] (price_value as u64), exp }
}

/// On every input where the unchecked conversion is defined, the wrapping
/// conversion gives the same price, and the mantissa is the exact scaled
/// value (no wrap-around takes place).
pub proof fn lemma_wrapping_conversion_agrees_where_defined(
    lamport_price: Price,
    token_a_decimals: u64,
    token_b_decimals: u64,
)
    requires
        lamports_to_tokens_defined(lamport_price, token_a_decimals, token_b_decimals),
    ensures
        lamports_to_tokens_wrapping_spec(lamport_price, token_a_decimals, token_b_decimals)
            == lamports_to_tokens_spec(lamport_price, token_a_decimals, token_b_decimals),
        lamport_price.exp + token_b_decimals < token_a_decimals ==> lamports_to_tokens_spec(
            lamport_price,
            token_a_decimals,
            token_b_decimals,
        ).value == lamport_price.value * pow10(
            adjust_exponent(lamport_price.exp, token_a_decimals, token_b_decimals) as nat,
        ),
{
    if lamport_price.exp + token_b_decimals < token_a_decimals {
        let adjust = adjust_exponent(lamport_price.exp, token_a_decimals, token_b_decimals) as nat;
        lemma_pow10_positive(adjust);
        lemma_small_mod(lamport_price.value as nat * pow10(adjust), u64_modulus());
    }
}

} // verus!
