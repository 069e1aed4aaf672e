# kamino_math

Verified integer arithmetic for oracle prices and lending, written in Verus.

- `src/` — the library, every function proved against its contract:
  - `pow10` — powers of ten, `ten_pow`.
  - `price` — `Price` (mantissa and decimal exponent), lamport-to-token
    conversion (unchecked and wrapping), division into a price.
  - `scope_math` — asset valuation with 6 decimals, tuple conversion.
  - `confidence` — the confidence-interval check: unchecked, checked,
    wrapping, and arbitrary precision (`num-bigint`).
  - `fraction`, `liquidation` — rational arithmetic and the liquidation
    withdraw amount with the dust rule.
  - `pyth_pull` — dated prices from a pull oracle, with and without an age
    bound.
  - `most_recent` — the most recent of several dated prices.
  - `price_selection` — choosing among Pyth, Switchboard and Scope readings.
  - `overflow_scenarios` — reward, confidence, conversion and fee arithmetic
    with checked and wrapping outcomes.
  - `sqrt_price` — square-root price to Q64 price with 256-bit limbs.
- `tests/` — runtime tests of the library.
- `app/` — a command-line program that prints the scenarios, and the
  floating-point views of library values.
