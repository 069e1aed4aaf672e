use kamino_math::fraction::Fraction;
use kamino_math::liquidation::{calculate_liquidation_safe, calculate_liquidation_vulnerable, Collateral};
use kamino_math::overflow_scenarios::{
    confidence_scaling, kfarms_oracle_adjusted_amount, pow10_u128, referrer_fee_overflow_timeline,
    signed_price_conversion,
};
use kamino_math::price_selection::{
    get_most_recent_price_and_twap, LendingError, OracleKind, OracleReading, PriceCandidate,
};
use kamino_math::pyth_pull::{get_price_safe, get_price_vulnerable, MockClock, MockPrice};
use kamino_math::sqrt_price::{
    calculate_overflow_threshold, compute_price_u256_and_overflow, sqrt_price_to_x64_price,
    sqrt_price_to_x64_price_fixed, sqrt_price_to_x64_price_vulnerable,
};

fn dust_inputs() -> (Collateral, Fraction, Fraction, Fraction) {
    let collateral = Collateral { deposited_amount: 1000 };
    let repaid = Fraction::new(1, 10);
    let total = repaid * Fraction::new(105, 100);
    let collateral_value = Fraction::from_num(1000) * Fraction::new(100, 1);
    (collateral, repaid, total, collateral_value)
}

#[test]
fn dust_liquidation_vulnerable_hands_out_one_unit() {
    let (collateral, _, total, collateral_value) = dust_inputs();
    let (amount, breakdown) = calculate_liquidation_vulnerable(&collateral, total, collateral_value, true);
    assert_eq!(amount, 1);
    assert_eq!(breakdown.deposited_amount, 1000);
    assert!(breakdown.repaid_value.is_none());
    assert_eq!((breakdown.withdraw_pct.numerator(), breakdown.withdraw_pct.denominator()), (105, 100_000_000));
    assert_eq!(
        (breakdown.withdraw_amount_f.numerator(), breakdown.withdraw_amount_f.denominator()),
        (105_000, 100_000_000)
    );
}

#[test]
fn dust_liquidation_safe_requires_a_covered_unit() {
    let (collateral, repaid, total, collateral_value) = dust_inputs();
    let (amount, breakdown) = calculate_liquidation_safe(&collateral, total, collateral_value, true, repaid);
    assert_eq!(amount, 0);
    assert!(breakdown.repaid_value.is_some());
    // Repaying the value of one unit (100) unlocks the dust unit.
    let (amount, _) =
        calculate_liquidation_safe(&collateral, total, collateral_value, true, Fraction::new(100, 1));
    assert_eq!(amount, 1);
}

#[test]
fn liquidation_above_threshold_rounds_down() {
    let (collateral, repaid, total, collateral_value) = dust_inputs();
    let (v, _) = calculate_liquidation_vulnerable(&collateral, total, collateral_value, false);
    let (s, _) = calculate_liquidation_safe(&collateral, total, collateral_value, false, repaid);
    assert_eq!((v, s), (0, 0));
    // Half the collateral value: half the deposit.
    let collateral = Collateral { deposited_amount: 1000 };
    let (v, _) = calculate_liquidation_vulnerable(&collateral, Fraction::new(50, 1), Fraction::new(100, 1), false);
    assert_eq!(v, 500);
}

#[test]
fn liquidation_never_exceeds_deposit_when_value_is_covered() {
    for deposited in [1u64, 2, 7, 1000] {
        for (tn, td) in [(1u128, 1000u128), (1, 3), (99, 100), (1, 1)] {
            let collateral = Collateral { deposited_amount: deposited };
            let total = Fraction::new(tn, td);
            let value = Fraction::from_num(1);
            for below in [false, true] {
                let (v, _) = calculate_liquidation_vulnerable(&collateral, total, value, below);
                let (s, _) = calculate_liquidation_safe(&collateral, total, value, below, Fraction::new(1, 1));
                assert!(v <= deposited && s <= deposited && s <= v);
            }
        }
    }
}

#[test]
fn pyth_conversion_builds_dated_price() {
    let clock = MockClock { unix_timestamp: 1_003_600, slot: 250_000_000 };
    let price = MockPrice { price: -50_000_000_000, conf: 1, exponent: -6, publish_time: 1_000_000 };
    let d = get_price_vulnerable(&price, &clock).unwrap();
    assert_eq!((d.value, d.exp, d.unix_timestamp, d.last_updated_slot), (50_000_000_000, 6, 1_000_000, 249_998_200));
    // A positive exponent is negated into its low 8 bits, a negative publish time read as unsigned,
    // and a future price has a negative age whose unsigned reading saturates the slot.
    let price = MockPrice { price: 7, conf: 0, exponent: 3, publish_time: -1 };
    let clock = MockClock { unix_timestamp: -5, slot: 10 };
    let d = get_price_vulnerable(&price, &clock).unwrap();
    assert_eq!((d.value, d.exp, d.unix_timestamp, d.last_updated_slot), (7, 253, u64::MAX, 0));
}

#[test]
fn pyth_safe_conversion_refuses_old_prices() {
    let clock = MockClock { unix_timestamp: 1_003_600, slot: 250_000_000 };
    let old = MockPrice { price: 50_000_000_000, conf: 1, exponent: -6, publish_time: 1_000_000 };
    assert_eq!(get_price_safe(&old, &clock).unwrap_err(), "Price too old: 3600 seconds > 600 seconds max");
    assert!(get_price_vulnerable(&old, &clock).is_ok());
    let fresh = MockPrice { price: 50_000_000_000, conf: 1, exponent: -6, publish_time: 1_003_000 };
    let a = get_price_safe(&fresh, &clock).unwrap();
    let b = get_price_vulnerable(&fresh, &clock).unwrap();
    assert_eq!((a.value, a.exp, a.unix_timestamp, a.last_updated_slot), (b.value, b.exp, b.unix_timestamp, b.last_updated_slot));
    // Exactly the maximum age is still fresh; a negative age too.
    let edge = MockPrice { price: 1, conf: 0, exponent: 0, publish_time: 1_003_000 };
    assert!(get_price_safe(&edge, &MockClock { unix_timestamp: 1_003_600, slot: 0 }).is_ok());
    assert_eq!(
        get_price_safe(&edge, &MockClock { unix_timestamp: 1_003_601, slot: 0 }).unwrap_err(),
        "Price too old: 601 seconds > 600 seconds max"
    );
}

fn reading(enabled: bool, timestamp: u64, price: Option<u128>) -> OracleReading {
    OracleReading { enabled, reading: Some(PriceCandidate { timestamp, price }) }
}

#[test]
fn price_selection_without_readings_fails() {
    let none = OracleReading { enabled: true, reading: None };
    assert_eq!(get_most_recent_price_and_twap(&none, &none, &none, 0), Err(LendingError::PriceNotValid));
    let disabled = reading(false, 10, Some(5));
    assert_eq!(get_most_recent_price_and_twap(&disabled, &disabled, &none, 0), Err(LendingError::PriceNotValid));
}

#[test]
fn price_selection_prefers_most_recent_within_band() {
    let pyth = reading(true, 100, Some(10_000));
    let sb = reading(true, 200, Some(10_010));
    let scope = reading(true, 300, Some(20_000));
    // Median 10_010; the scope price is outside the 50 bps band.
    assert_eq!(get_most_recent_price_and_twap(&pyth, &sb, &scope, 0), Ok(OracleKind::Switchboard));
    // A wide enough band admits it.
    assert_eq!(get_most_recent_price_and_twap(&pyth, &sb, &scope, 10_000), Ok(OracleKind::Scope));
    // Equal timestamps: the last eligible reading.
    let pyth = reading(true, 100, Some(10_000));
    let sb = reading(true, 100, Some(10_010));
    let off = OracleReading { enabled: false, reading: None };
    assert_eq!(get_most_recent_price_and_twap(&pyth, &sb, &off, 0), Ok(OracleKind::Switchboard));
}

#[test]
fn price_selection_ignores_disabled_oracle() {
    let sb = reading(true, 200, Some(10_010));
    let scope = reading(true, 150, Some(10_000));
    // A disabled oracle with a newer in-band reading, or with no account given.
    let disabled_with_reading = reading(false, 900, Some(10_005));
    let disabled_without_account = OracleReading { enabled: false, reading: None };
    let a = get_most_recent_price_and_twap(&disabled_with_reading, &sb, &scope, 0);
    let b = get_most_recent_price_and_twap(&disabled_without_account, &sb, &scope, 0);
    assert_eq!(a, Ok(OracleKind::Switchboard));
    assert_eq!(a, b);
    // Enabled, the same reading is chosen.
    let enabled = reading(true, 900, Some(10_005));
    assert_eq!(get_most_recent_price_and_twap(&enabled, &sb, &scope, 0), Ok(OracleKind::Pyth));
}

#[test]
fn price_selection_with_one_loaded_price_takes_first_latest() {
    let pyth = reading(true, 100, Some(10_000));
    let sb = reading(true, 200, None);
    let scope = reading(true, 200, None);
    assert_eq!(get_most_recent_price_and_twap(&pyth, &sb, &scope, 0), Ok(OracleKind::Switchboard));
}

#[test]
fn price_selection_zero_median_admits_nothing() {
    let pyth = reading(true, 100, Some(0));
    let sb = reading(true, 200, Some(0));
    let off = OracleReading { enabled: false, reading: None };
    assert_eq!(get_most_recent_price_and_twap(&pyth, &sb, &off, 0), Err(LendingError::PriceNotValid));
}

#[test]
fn scenario_arithmetic() {
    assert_eq!(pow10_u128(38), 100_000_000_000_000_000_000_000_000_000_000_000_000);
    let r = kfarms_oracle_adjusted_amount(1_000_000_000_000_000, 1_000_000_000_000, 6, u64::MAX as u128, 1);
    assert_eq!(r.decimal_adjusted_amt, 1_000_000_000);
    assert_eq!(r.product, Some(1_000_000_000u128 * u64::MAX as u128));
    assert_eq!(r.oracle_adjusted_amt, r.product);
    let r = kfarms_oracle_adjusted_amount(u128::MAX / 1_000_000, 1, 6, u128::MAX, 7);
    assert_eq!(r.product, None);
    assert_eq!(r.oracle_adjusted_amt, None);
    assert_eq!(r.wrapped_product, r.decimal_adjusted_amt.wrapping_mul(u128::MAX));

    let c = confidence_scaling(100_000_000_000_000_000_000, 1_000_000_000_000_000_000, 10_000, 25, 10);
    assert_eq!((c.common_exp, c.price_ten_pow, c.deviation_ten_pow), (10, 1, 1_000_000_000_000_000));
    assert_eq!(c.price_scaled, Some(100_000_000_000_000_000_000));
    assert_eq!(c.deviation_scaled, Some(10_000_000_000_000_000_000_000_000_000_000_000_000));
    assert!(c.check_fails_wrapped);

    let s = signed_price_conversion(18, 0, -10, u32::MAX as u64);
    assert_eq!((s.adjust_exp, s.power, s.product, s.wrapped), (28, None, None, None));
    let s = signed_price_conversion(9, 6, 0, 1_000_000_000_000_000_000);
    assert_eq!(s.power, Some(1000));
    assert_eq!(s.product, None);
    assert_eq!(s.wrapped, Some(1_000_000_000_000_000_000u64.wrapping_mul(1000)));
    let s = signed_price_conversion(6, 9, 0, 5);
    assert_eq!((s.adjust_exp, s.power), (-3, None));

    let f = referrer_fee_overflow_timeline(1_000_000_000, 10_000);
    assert_eq!(f.daily_fees, 10_000_000_000_000);
    assert_eq!(f.years_to_overflow, u128::MAX / (10_000_000_000_000 * 365));
    assert_eq!(f.total_fees_at_overflow, 10_000_000_000_000 * 365 * f.years_to_overflow);
    assert_eq!(f.wrapped_fees, f.total_fees_at_overflow.wrapping_add(f.daily_fees));
}

#[test]
fn sqrt_price_scaling_exact_values() {
    let sqrt_one = 1u128 << 64;
    let (limbs, overflow) = compute_price_u256_and_overflow(sqrt_one, 2, 0);
    assert_eq!((limbs.0, overflow), ([0, 100, 0, 0], false));
    assert_eq!(sqrt_price_to_x64_price(sqrt_one, 2, 0).0, [0, 100, 0]);
    assert_eq!(sqrt_price_to_x64_price_fixed(sqrt_one, 2, 0).unwrap().0, [0, 100, 0]);
    let (limbs, _) = compute_price_u256_and_overflow(sqrt_one, 0, 2);
    assert_eq!(limbs.0, [184_467_440_737_095_516, 0, 0, 0]);
    // The truncating conversion scales by 10^difference as well.
    assert_eq!(sqrt_price_to_x64_price_vulnerable(sqrt_one, 2, 0).0, [0, 100, 0]);
    assert_eq!(sqrt_price_to_x64_price_vulnerable(sqrt_one, 1, 0).0, [0, 10, 0]);
    assert_eq!(sqrt_price_to_x64_price_vulnerable(sqrt_one, 0, 1).0, [1_844_674_407_370_955_161, 0, 0]);
    // (2^128 - 1)^2 >> 64 = 2^192 - 2^65 + 0 (floor): limbs [0, u64::MAX - 1, u64::MAX].
    assert_eq!(sqrt_price_to_x64_price(u128::MAX, 0, 0).0, [0, u64::MAX - 1, u64::MAX]);
}

#[test]
fn sqrt_price_fixed_refuses_192_bit_overflow() {
    let err = sqrt_price_to_x64_price_fixed(u128::MAX, 7, 6).unwrap_err();
    assert_eq!(err, "Math overflow: price exceeds U192 range");
    let (limbs, overflow) = compute_price_u256_and_overflow(u128::MAX, 7, 6);
    assert!(overflow);
    assert_eq!(sqrt_price_to_x64_price(u128::MAX, 7, 6).0, [limbs.0[0], limbs.0[1], limbs.0[2]]);
    assert_eq!(sqrt_price_to_x64_price_vulnerable(u128::MAX, 7, 6).0, [limbs.0[0], limbs.0[1], limbs.0[2]]);
}

#[test]
fn overflow_threshold_table() {
    assert_eq!(calculate_overflow_threshold(1), u128::MAX / 3);
    assert_eq!(calculate_overflow_threshold(12), u128::MAX / 1_000_000);
    assert_eq!(calculate_overflow_threshold(30), u128::MAX / 1_000_000_000_000_000);
    assert_eq!(calculate_overflow_threshold(2), u128::MAX);
}
