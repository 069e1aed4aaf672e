//! Powers of ten: the mathematical definition and the executable table.
use vstd::prelude::*;

verus! {

/// `10^n` as a natural number.
pub open spec fn pow10(n: nat) -> nat
    decreases n,
{
    if n == 0 {
        1
    } else {
        10 * pow10((n - 1) as nat)
    }
}

/// Every power of ten is positive.
pub proof fn lemma_pow10_positive(n: nat)
    ensures
        pow10(n) >= 1,
    decreases n,
{
    if n > 0 {
        lemma_pow10_positive((n - 1) as nat);
    }
}

/// `10^(a + b) == 10^a * 10^b`.
pub proof fn lemma_pow10_add(a: nat, b: nat)
    ensures
        pow10(a + b) == pow10(a) * pow10(b),
    decreases b,
{
    if b > 0 {
        let c = (b - 1) as nat;
        lemma_pow10_add(a, c);
        assert((a + b - 1) as nat == a + c);
        assert(pow10(a + b) == 10 * pow10(a + c));
        assert(pow10(b) == 10 * pow10(c));
        let x = pow10(a);
        let y = pow10(c);
        assert(x * (10 * y) == 10 * (x * y)) by (nonlinear_arith);
        assert(pow10(a) * pow10(b) == x * (10 * y));
    } else {
        assert(pow10(b) == 1);
        assert(pow10(a) * 1 == pow10(a));
    }
}

/// Powers of ten grow with the exponent.
pub proof fn lemma_pow10_monotone(a: nat, b: nat)
    requires
        a <= b,
    ensures
        pow10(a) <= pow10(b),
    decreases b,
{
    if a < b {
        lemma_pow10_monotone(a, (b - 1) as nat);
        lemma_pow10_positive((b - 1) as nat);
    }
}

/// The values of `10^0` through `10^30`.
pub proof fn lemma_pow10_table()
    ensures
        pow10(0) == 1,
        pow10(1) == 10,
        pow10(2) == 100,
        pow10(3) == 1_000,
        pow10(4) == 10_000,
        pow10(5) == 100_000,
        pow10(6) == 1_000_000,
        pow10(7) == 10_000_000,
        pow10(8) == 100_000_000,
        pow10(9) == 1_000_000_000,
        pow10(10) == 10_000_000_000,
        pow10(11) == 100_000_000_000,
        pow10(12) == 1_000_000_000_000,
        pow10(13) == 10_000_000_000_000,
        pow10(14) == 100_000_000_000_000,
        pow10(15) == 1_000_000_000_000_000,
        pow10(16) == 10_000_000_000_000_000,
        pow10(17) == 100_000_000_000_000_000,
        pow10(18) == 1_000_000_000_000_000_000,
        pow10(19) == 10_000_000_000_000_000_000,
        pow10(20) == 100_000_000_000_000_000_000,
        pow10(21) == 1_000_000_000_000_000_000_000,
        pow10(22) == 10_000_000_000_000_000_000_000,
        pow10(23) == 100_000_000_000_000_000_000_000,
        pow10(24) == 1_000_000_000_000_000_000_000_000,
        pow10(25) == 10_000_000_000_000_000_000_000_000,
        pow10(26) == 100_000_000_000_000_000_000_000_000,
        pow10(27) == 1_000_000_000_000_000_000_000_000_000,
        pow10(28) == 10_000_000_000_000_000_000_000_000_000,
        pow10(29) == 100_000_000_000_000_000_000_000_000_000,
        pow10(30) == 1_000_000_000_000_000_000_000_000_000_000,
{
    assert(pow10(0) == 1);
    assert(pow10(1) == 10);
    assert(pow10(2) == 100);
    assert(pow10(3) == 1_000);
    assert(pow10(4) == 10_000);
    assert(pow10(5) == 100_000);
    assert(pow10(6) == 1_000_000);
    assert(pow10(7) == 10_000_000);
    assert(pow10(8) == 100_000_000);
    assert(pow10(9) == 1_000_000_000);
    assert(pow10(10) == 10_000_000_000);
    assert(pow10(11) == 100_000_000_000);
    assert(pow10(12) == 1_000_000_000_000);
    assert(pow10(13) == 10_000_000_000_000);
    assert(pow10(14) == 100_000_000_000_000);
    assert(pow10(15) == 1_000_000_000_000_000);
    assert(pow10(16) == 10_000_000_000_000_000);
    assert(pow10(17) == 100_000_000_000_000_000);
    assert(pow10(18) == 1_000_000_000_000_000_000);
    assert(pow10(19) == 10_000_000_000_000_000_000);
    assert(pow10(20) == 100_000_000_000_000_000_000);
    assert(pow10(21) == 1_000_000_000_000_000_000_000);
    assert(pow10(22) == 10_000_000_000_000_000_000_000);
    assert(pow10(23) == 100_000_000_000_000_000_000_000);
    assert(pow10(24) == 1_000_000_000_000_000_000_000_000);
    assert(pow10(25) == 10_000_000_000_000_000_000_000_000);
    assert(pow10(26) == 100_000_000_000_000_000_000_000_000);
    assert(pow10(27) == 1_000_000_000_000_000_000_000_000_000);
    assert(pow10(28) == 10_000_000_000_000_000_000_000_000_000);
    assert(pow10(29) == 100_000_000_000_000_000_000_000_000_000);
    assert(pow10(30) == 1_000_000_000_000_000_000_000_000_000_000);
}

/// `10^exponent` as a `u128`, for the exponents `0..=30` that the price
/// arithmetic supports (a larger exponent is a caller error).
pub fn ten_pow(exponent: u32) -> (value: u128)
    requires
        exponent <= 30,
    ensures
        value == pow10(exponent as nat),
{
    proof {
        lemma_pow10_table();
    }
    match exponent {
        30 => 1_000_000_000_000_000_000_000_000_000_000,
        29 => 100_000_000_000_000_000_000_000_000_000,
        28 => 10_000_000_000_000_000_000_000_000_000,
        27 => 1_000_000_000_000_000_000_000_000_000,
        26 => 100_000_000_000_000_000_000_000_000,
        25 => 10_000_000_000_000_000_000_000_000,
        24 => 1_000_000_000_000_000_000_000_000,
        23 => 100_000_000_000_000_000_000_000,
        22 => 10_000_000_000_000_000_000_000,
        21 => 1_000_000_000_000_000_000_000,
        20 => 100_000_000_000_000_000_000,
        19 => 10_000_000_000_000_000_000,
        18 => 1_000_000_000_000_000_000,
        17 => 100_000_000_000_000_000,
        16 => 10_000_000_000_000_000,
        15 => 1_000_000_000_000_000,
        14 => 100_000_000_000_000,
        13 => 10_000_000_000_000,
        12 => 1_000_000_000_000,
        11 => 100_000_000_000,
        10 => 10_000_000_000,
        9 => 1_000_000_000,
        8 => 100_000_000,
        7 => 10_000_000,
        6 => 1_000_000,
        5 => 100_000,
        4 => 10_000,
        3 => 1_000,
        2 => 100,
        1 => 10,
        _ => 1,
    }
}

} // verus!
