//! Fixed-point price arithmetic for oracle prices, lending liquidations and
//! concentrated-liquidity price conversion, with every overflow boundary made
//! explicit in the contracts.
pub mod pow10;
pub mod price;
pub mod confidence;
pub mod scope_math;
pub mod fraction;
pub mod liquidation;
pub mod pyth_pull;
pub mod most_recent;
pub mod price_selection;
pub mod overflow_scenarios;
pub mod sqrt_price;
