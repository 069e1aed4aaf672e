use kamino_math::price::{price_of_lamports_to_price_of_tokens, simulate_u64_div_to_price, Price};

#[test]
fn test_realistic_ktokens_overflow() {
    // Simulate KTokens Token-X scenario with small share supply
    let num_token_x = 500_000_000_000u64; // 500k tokens with 9 decimals
    let num_shares = 100u64; // Very small share supply (early vault)

    // This produces a price with small exp (0-2) from u64_div_to_price
    let price_lamport_to_lamport = simulate_u64_div_to_price(num_token_x, num_shares);

    println!("KTokens scenario:");
    println!("num_token_x: {}", num_token_x);
    println!("num_shares: {}", num_shares);
    println!("price_lamport_to_lamport value: {}", price_lamport_to_lamport.value);
    println!("price_lamport_to_lamport exp: {}", price_lamport_to_lamport.exp);

    // Common case: kToken shares with 9 decimals, underlying token with 6 decimals
    let share_decimals = 9u64;
    let token_decimals = 6u64;

    // This will overflow if lamport_exp is small enough
    let result = price_of_lamports_to_price_of_tokens(
        price_lamport_to_lamport,
        share_decimals,
        token_decimals,
    );

    println!("Result value: {}", result.value);
    println!("Result exp: {}", result.exp);
}

#[test]
fn test_meteora_dlmm_edge_case() {
    // Meteora DLMM with inverted pair and specific Q64 price
    // When integer_part is 0 (price < 1), exp = 18
    let lamport_price = Price {
        value: 500_000_000_000_000_000u64, // 0.5e18
        exp: 18,
    };

    // With SOL/USDC pair
    let sol_decimals = 9u64;
    let usdc_decimals = 6u64;

    // Check if this triggers else branch
    if lamport_price.exp + usdc_decimals >= sol_decimals {
        println!("Meteora takes safe if-branch (no overflow)");
        println!("exp + token_b_decimals = {} + {} = {} >= {}",
            lamport_price.exp, usdc_decimals,
            lamport_price.exp + usdc_decimals, sol_decimals);
    } else {
        println!("Would take dangerous else-branch!");
    }

    let result = price_of_lamports_to_price_of_tokens(
        lamport_price,
        sol_decimals,
        usdc_decimals,
    );

    println!("Result value: {}", result.value);
    println!("Result exp: {}", result.exp);
}

#[test]
fn demonstrate_overflow_conditions() {
    println!("\n=== Demonstrating Overflow Conditions ===\n");

    // Test different adjust_exp values
    for adjust_exp in 0..=4 {
        let max_safe_value = u64::MAX / 10_u64.pow(adjust_exp);
        println!("adjust_exp = {}: max safe value = {:.2e}",
            adjust_exp, max_safe_value as f64);

        // Test with value near 1e18
        let test_value = 900_000_000_000_000_000u64; // 0.9e18
        let multiplier = 10_u64.pow(adjust_exp);

        if let Some(result) = test_value.checked_mul(multiplier) {
            println!("  0.9e18 * 10^{} = {} (OK)", adjust_exp, result);
        } else {
            println!("  0.9e18 * 10^{} = OVERFLOW!", adjust_exp);
        }
    }

    println!("\n=== Common Token Decimal Differences ===\n");

    let token_pairs = [
        ("SOL", 9, "USDC", 6),
        ("SOL", 9, "USDT", 6),
        ("BTC", 8, "USDC", 6),
        ("ETH", 18, "USDC", 6),
        ("USDC", 6, "USDT", 6),
    ];

    for (token_a, dec_a, token_b, dec_b) in token_pairs.iter() {
        println!("{}/{}: {} vs {} decimals, difference = {}",
            token_a, token_b, dec_a, dec_b,
            (*dec_a as i32 - *dec_b as i32).abs());

        // Check overflow risk for different lamport_exp values
        for lamport_exp in 0..=3 {
            if lamport_exp + dec_b < *dec_a {
                let adjust_exp = dec_a - (lamport_exp + dec_b);
                let risk = if adjust_exp >= 2 { "HIGH RISK" } else { "Low risk" };
                println!("  lamport_exp={}: adjust_exp={} [{}]",
                    lamport_exp, adjust_exp, risk);
            }
        }
    }
}
