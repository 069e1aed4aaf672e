use kamino_math::pow10::ten_pow;
use kamino_math::scope_math::asset_amount_to_usd_vulnerable;

#[test]
fn test_jupiter_lp_overflow() {
    println!("\n=== Testing Jupiter LP AUM Overflow ===");

    // Test case that should cause overflow
    let price_value = u64::MAX;
    let price_exp = 0; // High precision price
    let token_amount = u64::MAX;
    let token_decimals = 18;

    println!("Test parameters:");
    println!("  price_value: {}", price_value);
    println!("  price_exp: {}", price_exp);
    println!("  token_amount: {}", token_amount);
    println!("  token_decimals: {}", token_decimals);

    // This should overflow u128 when multiplying price_value * token_amount
    let result = asset_amount_to_usd_vulnerable(price_value, price_exp, token_amount, token_decimals);
    println!("Result: {}", result);

    // Check if result is suspiciously small (indicating overflow wraparound)
    let expected_minimum = (u64::MAX as u128).pow(2) / ten_pow(18u32);
    if result < expected_minimum {
        println!("⚠️  VULNERABILITY CONFIRMED: Result {} is much smaller than expected minimum {}",
                result, expected_minimum);
        println!("    This indicates u128 overflow occurred and wrapped around");
    }
}

#[test]
fn test_ten_pow_limits() {
    println!("\n=== Testing ten_pow Function Limits ===");

    // Test the maximum supported exponent
    let max_exp = 30u32;
    let max_value = ten_pow(max_exp);
    println!("ten_pow({}): {}", max_exp, max_value);
    println!("u128::MAX: {}", u128::MAX);
    println!("Remaining headroom: {}", u128::MAX - max_value);

    // Show how quickly we can reach overflow when multiplying with ten_pow results
    let test_values = [1000u128, 10000u128, 100000u128, 1000000u128];
    for value in test_values {
        for exp in [25u32, 26u32, 27u32, 28u32, 29u32, 30u32] {
            let ten_pow_val = ten_pow(exp);
            if let Some(result) = value.checked_mul(ten_pow_val) {
                println!("{} * ten_pow({}) = {} (OK)", value, exp, result);
            } else {
                println!("⚠️  {} * ten_pow({}) = OVERFLOW", value, exp);
            }
        }
    }
}
