use decimal_wad::decimal::U192;
use kamino_math::sqrt_price::{
    compute_price_u256_and_overflow, sqrt_price_to_x64_price, sqrt_price_to_x64_price_fixed,
};

#[test]
fn test_overflow_with_max_sqrt_and_delta_1() {
    // This test proves overflow occurs with Δ=1 and max sqrt_price
    let sqrt_price = u128::MAX;
    let decimals_a = 7;
    let decimals_b = 6;

    let (price_u256, overflow) = compute_price_u256_and_overflow(sqrt_price, decimals_a, decimals_b);

    assert!(overflow, "Overflow should occur with max sqrt_price and Δ=1");
    assert_ne!(price_u256.0[3], 0, "High limb should be non-zero");

    // In vulnerable version, this creates a truncated result
    let truncated_result = sqrt_price_to_x64_price(sqrt_price, decimals_a, decimals_b);

    // The truncation happens silently - no panic even with overflow-checks=true
    // because it's not arithmetic overflow, it's deliberate data loss
    assert_eq!(truncated_result.0[0], price_u256.0[0]);
    assert_eq!(truncated_result.0[1], price_u256.0[1]);
    assert_eq!(truncated_result.0[2], price_u256.0[2]);
    // High limb is lost!

    // Fixed version would return an error
    let fixed_result = sqrt_price_to_x64_price_fixed(sqrt_price, decimals_a, decimals_b);
    assert!(fixed_result.is_err(), "Fixed version should return error on overflow");
}

#[test]
fn test_realistic_mainnet_scenario() {
    // Test with realistic mainnet token pairs

    // Scenario 1: BONK (5 decimals) vs ETH (18 decimals)
    let bonk_decimals = 5u8;
    let eth_decimals = 18u8;
    let _delta = eth_decimals - bonk_decimals; // 13

    // With Δ=13, overflow occurs around sqrt_price ≈ 2^107
    let manipulated_sqrt = 1u128 << 107;
    let (_, overflow) = compute_price_u256_and_overflow(manipulated_sqrt, eth_decimals, bonk_decimals);
    assert!(overflow, "BONK/ETH pair vulnerable to overflow");

    // Scenario 2: Regular USDC (6 decimals) vs SOL (9 decimals)
    let usdc_decimals = 6u8;
    let sol_decimals = 9u8;
    let _delta = sol_decimals - usdc_decimals; // 3

    // With Δ=3, need much higher sqrt_price
    let extreme_sqrt = u128::MAX / 30;
    let (_, overflow) = compute_price_u256_and_overflow(extreme_sqrt, sol_decimals, usdc_decimals);
    assert!(overflow, "Even USDC/SOL can overflow with extreme sqrt_price");
}

#[test]
fn test_overflow_checks_doesnt_prevent_truncation() {
    // This test demonstrates that overflow-checks=true does NOT prevent
    // the vulnerability because it's not arithmetic overflow

    let sqrt_price = u128::MAX;
    let decimals_a = 10;
    let decimals_b = 6;

    let (price_u256, overflow) = compute_price_u256_and_overflow(sqrt_price, decimals_a, decimals_b);
    assert!(overflow);

    // Even with overflow-checks=true, this line doesn't panic:
    let _truncated = U192([price_u256.0[0], price_u256.0[1], price_u256.0[2]]);
}
