//! The share of a deposit that a liquidator withdraws, with the dust rule for
//! positions below the full-liquidation threshold.
use vstd::prelude::*;

use crate::fraction::Fraction;
use crate::price::u64_modulus;

verus! {

/// The smallest amount, in lamports, that a dust liquidation hands out.
pub const DUST_LAMPORT_THRESHOLD: u64 = 1;

/// The collateral side of an obligation.
#[derive(Debug, Clone)]
pub struct Collateral {
    pub deposited_amount: u64,
}

/// The quantities from which a liquidation's withdraw amount is derived, as
/// an account of the calculation.
#[derive(Debug, Clone)]
pub struct LiquidationBreakdown {
    pub deposited_amount: u64,
    pub total_liquidation_value_including_bonus: Fraction,
    pub collateral_value: Fraction,
    /// The value the liquidator repaid, where the calculation weighs it.
    pub repaid_value: Option<Fraction>,
    pub withdraw_pct: Fraction,
    pub withdraw_amount_f: Fraction,
    pub is_below_min_full_liquidation_value_threshold: bool,
}

/// `total_value / collateral_value`, cross-multiplied.
pub open spec fn withdraw_pct_spec(total_value: Fraction, collateral_value: Fraction) -> (int, int) {
    (total_value@.0 * collateral_value@.1, total_value@.1 * collateral_value@.0)
}

/// `deposited * total_value / collateral_value`, cross-multiplied.
pub open spec fn withdraw_amount_spec(
    deposited: u64,
    total_value: Fraction,
    collateral_value: Fraction,
) -> (int, int) {
    let pct = withdraw_pct_spec(total_value, collateral_value);
    (deposited * pct.0, pct.1)
}

/// The dust rule applies: the position is below the full-liquidation
/// threshold and the proportional withdraw amount is under one lamport.
pub open spec fn dust_case(
    deposited: u64,
    total_value: Fraction,
    collateral_value: Fraction,
    below_threshold: bool,
) -> bool {
    let amount = withdraw_amount_spec(deposited, total_value, collateral_value);
    below_threshold && amount.0 < amount.1
}

/// The proportional withdraw amount rounded down, truncated to 64 bits.
pub open spec fn proportional_withdraw(
    deposited: u64,
    total_value: Fraction,
    collateral_value: Fraction,
) -> nat {
    let amount = withdraw_amount_spec(deposited, total_value, collateral_value);
    ((amount.0 / amount.1) as nat) % u64_modulus()
}

/// The products of the calculation fit in a `u128`, and the division that
/// rounds the proportional amount down has a non-zero divisor.
pub open spec fn liquidation_defined(
    deposited: u64,
    total_value: Fraction,
    collateral_value: Fraction,
    below_threshold: bool,
) -> bool {
    let pct = withdraw_pct_spec(total_value, collateral_value);
    &&& pct.0 <= u128::MAX
    &&& pct.1 <= u128::MAX
    &&& deposited * pct.0 <= u128::MAX
    &&& !dust_case(deposited, total_value, collateral_value, below_threshold) ==> pct.1 != 0
}

/// The withdraw amount without the repaid-value test: a dust liquidation
/// always hands out `DUST_LAMPORT_THRESHOLD`.
pub open spec fn vulnerable_withdraw(
    deposited: u64,
    total_value: Fraction,
    collateral_value: Fraction,
    below_threshold: bool,
) -> nat {
    if dust_case(deposited, total_value, collateral_value, below_threshold) {
        DUST_LAMPORT_THRESHOLD as nat
    } else {
        proportional_withdraw(deposited, total_value, collateral_value)
    }
}

/// The repaid value covers the value of one unit of collateral,
/// `repaid >= collateral_value / deposited`.
pub open spec fn repaid_covers_unit(deposited: u64, collateral_value: Fraction, repaid_value: Fraction) -> bool {
    repaid_value@.0 * (collateral_value@.1 * deposited) >= collateral_value@.0 * repaid_value@.1
}

/// The withdraw amount with the repaid-value test: a dust liquidation hands
/// out one lamport only when the repaid value covers one unit, else nothing.
pub open spec fn safe_withdraw(
    deposited: u64,
    total_value: Fraction,
    collateral_value: Fraction,
    below_threshold: bool,
    repaid_value: Fraction,
) -> nat {
    if dust_case(deposited, total_value, collateral_value, below_threshold) {
        if repaid_covers_unit(deposited, collateral_value, repaid_value) {
            DUST_LAMPORT_THRESHOLD as nat
        } else {
            0
        }
    } else {
        proportional_withdraw(deposited, total_value, collateral_value)
    }
}

/// The products of the repaid-value test fit in a `u128`.
pub open spec fn unit_test_defined(deposited: u64, collateral_value: Fraction, repaid_value: Fraction) -> bool {
    &&& collateral_value@.1 * deposited <= u128::MAX
    &&& repaid_value@.0 * (collateral_value@.1 * deposited) <= u128::MAX
    &&& collateral_value@.0 * repaid_value@.1 <= u128::MAX
}

/// Computes `deposited * total / collateral_value` as a fraction.
fn withdraw_amount_fraction(
    collateral: &Collateral,
    total_liquidation_value_including_bonus: Fraction,
    collateral_value: Fraction,
) -> (result: (Fraction, Fraction))
    requires
        withdraw_pct_spec(total_liquidation_value_including_bonus, collateral_value).0 <= u128::MAX,
        withdraw_pct_spec(total_liquidation_value_including_bonus, collateral_value).1 <= u128::MAX,
        collateral.deposited_amount * withdraw_pct_spec(
            total_liquidation_value_including_bonus,
            collateral_value,
        ).0 <= u128::MAX,
    ensures
        result.0@.0 == withdraw_pct_spec(total_liquidation_value_including_bonus, collateral_value).0,
        result.0@.1 == withdraw_pct_spec(total_liquidation_value_including_bonus, collateral_value).1,
        result.1@.0 == withdraw_amount_spec(
            collateral.deposited_amount,
            total_liquidation_value_including_bonus,
            collateral_value,
        ).0,
        result.1@.1 == withdraw_amount_spec(
            collateral.deposited_amount,
            total_liquidation_value_including_bonus,
            collateral_value,
        ).1,
{
    let withdraw_pct = total_liquidation_value_including_bonus / collateral_value;
    let deposited = Fraction::from_num(collateral.deposited_amount);
    let withdraw_amount_f = deposited * withdraw_pct;
    (withdraw_pct, withdraw_amount_f)
}

/// The liquidation withdraw amount where a position below the
/// full-liquidation threshold whose proportional amount is under one lamport
/// always yields `DUST_LAMPORT_THRESHOLD`; otherwise the proportional amount
/// rounded down.
pub fn calculate_liquidation_vulnerable(
    collateral: &Collateral,
    total_liquidation_value_including_bonus: Fraction,
    collateral_value: Fraction,
    is_below_min_full_liquidation_value_threshold: bool,
) -> (result: (u64, LiquidationBreakdown))
    requires
        liquidation_defined(
            collateral.deposited_amount,
            total_liquidation_value_including_bonus,
            collateral_value,
            is_below_min_full_liquidation_value_threshold,
        ),
    ensures
        result.0 == vulnerable_withdraw(
            collateral.deposited_amount,
            total_liquidation_value_including_bonus,
            collateral_value,
            is_below_min_full_liquidation_value_threshold,
        ),
        result.1.deposited_amount == collateral.deposited_amount,
        result.1.total_liquidation_value_including_bonus == total_liquidation_value_including_bonus,
        result.1.collateral_value == collateral_value,
        result.1.repaid_value is None,
        result.1.withdraw_pct@.0 == withdraw_pct_spec(total_liquidation_value_including_bonus, collateral_value).0,
        result.1.withdraw_pct@.1 == withdraw_pct_spec(total_liquidation_value_including_bonus, collateral_value).1,
        result.1.withdraw_amount_f@.0 == withdraw_amount_spec(
            collateral.deposited_amount,
            total_liquidation_value_including_bonus,
            collateral_value,
        ).0,
        result.1.withdraw_amount_f@.1 == withdraw_amount_spec(
            collateral.deposited_amount,
            total_liquidation_value_including_bonus,
            collateral_value,
        ).1,
        result.1.is_below_min_full_liquidation_value_threshold
            == is_below_min_full_liquidation_value_threshold,
{
    let (withdraw_pct, withdraw_amount_f) = withdraw_amount_fraction(
        collateral,
        total_liquidation_value_including_bonus,
        collateral_value,
    );
    let breakdown = LiquidationBreakdown {
        deposited_amount: collateral.deposited_amount,
        total_liquidation_value_including_bonus,
        collateral_value,
        repaid_value: None,
        withdraw_pct,
        withdraw_amount_f,
        is_below_min_full_liquidation_value_threshold,
    };
    let threshold = Fraction::from_num(DUST_LAMPORT_THRESHOLD);
    proof {
        assert(withdraw_amount_f@.0 * threshold@.1 == withdraw_amount_f@.0 * 1);
        assert(threshold@.0 * withdraw_amount_f@.1 == 1 * withdraw_amount_f@.1);
    }
    let withdraw_amount = if is_below_min_full_liquidation_value_threshold && matches!(
        withdraw_amount_f.partial_cmp(&threshold),
        Some(core::cmp::Ordering::Less)
    ) {
        DUST_LAMPORT_THRESHOLD
    } else {
        withdraw_amount_f.to_floor()
    };
    (withdraw_amount, breakdown)
}

/// The liquidation withdraw amount where a dust liquidation yields one
/// lamport only when the repaid value covers the value of one unit of
/// collateral, and nothing otherwise; outside the dust rule the
/// proportional amount rounded down.
pub fn calculate_liquidation_safe(
    collateral: &Collateral,
    total_liquidation_value_including_bonus: Fraction,
    collateral_value: Fraction,
    is_below_min_full_liquidation_value_threshold: bool,
    repaid_value: Fraction,
) -> (result: (u64, LiquidationBreakdown))
    requires
        liquidation_defined(
            collateral.deposited_amount,
            total_liquidation_value_including_bonus,
            collateral_value,
            is_below_min_full_liquidation_value_threshold,
        ),
        dust_case(
            collateral.deposited_amount,
            total_liquidation_value_including_bonus,
            collateral_value,
            is_below_min_full_liquidation_value_threshold,
        ) ==> unit_test_defined(collateral.deposited_amount, collateral_value, repaid_value),
    ensures
        result.0 == safe_withdraw(
            collateral.deposited_amount,
            total_liquidation_value_including_bonus,
            collateral_value,
            is_below_min_full_liquidation_value_threshold,
            repaid_value,
        ),
        result.1.deposited_amount == collateral.deposited_amount,
        result.1.total_liquidation_value_including_bonus == total_liquidation_value_including_bonus,
        result.1.collateral_value == collateral_value,
        result.1.repaid_value == Some(repaid_value),
        result.1.withdraw_pct@.0 == withdraw_pct_spec(total_liquidation_value_including_bonus, collateral_value).0,
        result.1.withdraw_pct@.1 == withdraw_pct_spec(total_liquidation_value_including_bonus, collateral_value).1,
        result.1.withdraw_amount_f@.0 == withdraw_amount_spec(
            collateral.deposited_amount,
            total_liquidation_value_including_bonus,
            collateral_value,
        ).0,
        result.1.withdraw_amount_f@.1 == withdraw_amount_spec(
            collateral.deposited_amount,
            total_liquidation_value_including_bonus,
            collateral_value,
        ).1,
        result.1.is_below_min_full_liquidation_value_threshold
            == is_below_min_full_liquidation_value_threshold,
{
    let (withdraw_pct, withdraw_amount_f) = withdraw_amount_fraction(
        collateral,
        total_liquidation_value_including_bonus,
        collateral_value,
    );
    let breakdown = LiquidationBreakdown {
        deposited_amount: collateral.deposited_amount,
        total_liquidation_value_including_bonus,
        collateral_value,
        repaid_value: Some(repaid_value),
        withdraw_pct,
        withdraw_amount_f,
        is_below_min_full_liquidation_value_threshold,
    };
    let threshold = Fraction::from_num(DUST_LAMPORT_THRESHOLD);
    proof {
        assert(withdraw_amount_f@.0 * threshold@.1 == withdraw_amount_f@.0 * 1);
        assert(threshold@.0 * withdraw_amount_f@.1 == 1 * withdraw_amount_f@.1);
    }
    let withdraw_amount = if is_below_min_full_liquidation_value_threshold && matches!(
        withdraw_amount_f.partial_cmp(&threshold),
        Some(core::cmp::Ordering::Less)
    ) {
        let deposited = Fraction::from_num(collateral.deposited_amount);
        proof {
            assert(collateral_value@.0 * deposited@.1 == collateral_value@.0 * 1);
        }
        let one_unit_value = collateral_value / deposited;
        proof {
            assert(one_unit_value@.0 == collateral_value@.0);
            assert(one_unit_value@.1 == collateral_value@.1 * collateral.deposited_amount);
        }
        if matches!(
            repaid_value.partial_cmp(&one_unit_value),
            Some(core::cmp::Ordering::Greater) | Some(core::cmp::Ordering::Equal)
        ) {
            DUST_LAMPORT_THRESHOLD
        } else {
            0
        }
    } else {
        withdraw_amount_f.to_floor()
    };
    (withdraw_amount, breakdown)
}

/// The repaid-value test only ever takes away: the amount with the test is
/// never more than the amount without it, and the two differ only under the
/// dust rule.
pub proof fn lemma_safe_never_exceeds_vulnerable(
    deposited: u64,
    total_value: Fraction,
    collateral_value: Fraction,
    below_threshold: bool,
    repaid_value: Fraction,
)
    ensures
        safe_withdraw(deposited, total_value, collateral_value, below_threshold, repaid_value)
            <= vulnerable_withdraw(deposited, total_value, collateral_value, below_threshold),
        !dust_case(deposited, total_value, collateral_value, below_threshold) ==> safe_withdraw(
            deposited,
            total_value,
            collateral_value,
            below_threshold,
            repaid_value,
        ) == vulnerable_withdraw(deposited, total_value, collateral_value, below_threshold),
{
}

/// When the liquidation value does not exceed the collateral value
/// (`total / collateral_value <= 1`), a liquidation of a non-empty deposit
/// never withdraws more than is deposited, with or without the repaid-value
/// test.
pub proof fn lemma_withdraw_within_deposit(
    deposited: u64,
    total_value: Fraction,
    collateral_value: Fraction,
    below_threshold: bool,
    repaid_value: Fraction,
)
    requires
        deposited >= 1,
        liquidation_defined(deposited, total_value, collateral_value, below_threshold),
        total_value@.0 * collateral_value@.1 <= collateral_value@.0 * total_value@.1,
    ensures
        vulnerable_withdraw(deposited, total_value, collateral_value, below_threshold) <= deposited,
        safe_withdraw(deposited, total_value, collateral_value, below_threshold, repaid_value)
            <= deposited,
{
    if !dust_case(deposited, total_value, collateral_value, below_threshold) {
        let pct = withdraw_pct_spec(total_value, collateral_value);
        let num = pct.0;
        let den = pct.1;
        let d = deposited as int;
        assert(den == collateral_value@.0 * total_value@.1);
        assert(num <= den);
        assert(den > 0);
        assert(d * num <= d * den) by (nonlinear_arith)
            requires
                d >= 0,
                num <= den,
        ;
        vstd::arithmetic::div_mod::lemma_div_is_ordered(d * num, d * den, den);
        vstd::arithmetic::div_mod::lemma_div_by_multiple(d, den);
        assert(0 <= d * num) by (nonlinear_arith)
            requires
                d >= 0,
                num >= 0,
        ;
        vstd::arithmetic::div_mod::lemma_div_pos_is_pos(d * num, den);
        vstd::arithmetic::div_mod::lemma_small_mod(((d * num) / den) as nat, u64_modulus());
    }
    lemma_safe_never_exceeds_vulnerable(deposited, total_value, collateral_value, below_threshold, repaid_value);
}

/// The withdraw amount is `deposited * total / collateral_value` rounded
/// down whenever that amount is at least one lamport, whatever the threshold
/// flag and the repaid value; only an amount below one lamport, for a
/// position below the full-liquidation threshold, falls under the dust rule
/// (one lamport without the repaid-value test; with it, one lamport when the
/// repaid value covers one unit of collateral, else nothing). Above the
/// threshold an amount below one lamport rounds down to nothing.
pub proof fn lemma_withdraw_is_proportional_from_one_lamport(
    deposited: u64,
    total_value: Fraction,
    collateral_value: Fraction,
    below_threshold: bool,
    repaid_value: Fraction,
)
    requires
        total_value@.1 * collateral_value@.0 > 0,
    ensures
        ({
            let n = deposited * total_value@.0 * collateral_value@.1;
            let d = total_value@.1 * collateral_value@.0;
            let floor = ((n / d) as nat) % u64_modulus();
            let covers = repaid_value@.0 * (collateral_value@.1 * deposited) >= collateral_value@.0
                * repaid_value@.1;
            &&& n >= d ==> vulnerable_withdraw(deposited, total_value, collateral_value, below_threshold)
                == floor
            &&& n >= d ==> safe_withdraw(
                deposited,
                total_value,
                collateral_value,
                below_threshold,
                repaid_value,
            ) == floor
            &&& n < d && below_threshold ==> vulnerable_withdraw(
                deposited,
                total_value,
                collateral_value,
                below_threshold,
            ) == 1
            &&& n < d && below_threshold ==> safe_withdraw(
                deposited,
                total_value,
                collateral_value,
                below_threshold,
                repaid_value,
            ) == (if covers {
                1nat
            } else {
                0nat
            })
            &&& n < d && !below_threshold ==> vulnerable_withdraw(
                deposited,
                total_value,
                collateral_value,
                below_threshold,
            ) == 0
            &&& n < d && !below_threshold ==> safe_withdraw(
                deposited,
                total_value,
                collateral_value,
                below_threshold,
                repaid_value,
            ) == 0
        }),
{
    let dep = deposited as int;
    let t0 = total_value@.0 as int;
    let c1 = collateral_value@.1 as int;
    let n = deposited * total_value@.0 * collateral_value@.1;
    let d = total_value@.1 * collateral_value@.0;
    assert(dep * (t0 * c1) == dep * t0 * c1) by (nonlinear_arith);
    let amount = withdraw_amount_spec(deposited, total_value, collateral_value);
    assert(amount.0 == n && amount.1 == d);
    assert(n >= 0) by (nonlinear_arith)
        requires
            n == dep * t0 * c1,
            dep >= 0,
            t0 >= 0,
            c1 >= 0,
    ;
    if n < d {
        assert(n / d == 0) by {
            vstd::arithmetic::div_mod::lemma_basic_div_specific_divisor(d);
        }
        vstd::arithmetic::div_mod::lemma_small_mod(0nat, u64_modulus());
    }
}

} // verus!
