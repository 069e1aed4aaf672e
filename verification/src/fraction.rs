//! A non-negative rational `numerator / denominator` on `u128`, as the
//! liquidation arithmetic uses it.
use vstd::prelude::*;

use crate::price::u64_modulus;

verus! {

/// A fraction `numerator / denominator` of two `u128`. The denominator may be
/// zero; the operations that divide by it say so in their contracts.
#[derive(Debug, Clone, Copy, PartialEq, Eq, Structural)]
pub struct Fraction {
    numerator: u128,
    denominator: u128,
}

impl View for Fraction {
    type V = (u128, u128);

    /// The pair `(numerator, denominator)`.
    closed spec fn view(&self) -> (u128, u128) {
        (self.numerator, self.denominator)
    }
}

impl Fraction {
    /// The integer `value` as `value / 1`.
    pub fn from_num(value: u64) -> (f: Self)
        ensures
            f@ == (value as u128, 1u128),
    {
        Self { numerator: value as u128, denominator: 1 }
    }

    /// The fraction `numerator / denominator`, stored as given.
    pub fn new(numerator: u128, denominator: u128) -> (f: Self)
        ensures
            f@ == (numerator, denominator),
    {
        Self { numerator, denominator }
    }

    /// The numerator.
    pub fn numerator(&self) -> (n: u128)
        ensures
            n == self@.0,
    {
        self.numerator
    }

    /// The denominator.
    pub fn denominator(&self) -> (d: u128)
        ensures
            d == self@.1,
    {
        self.denominator
    }

    /// The quotient rounded down, truncated to its low 64 bits.
    pub fn to_floor(&self) -> (value: u64)
        requires
            self@.1 != 0,
        ensures
            value == (self@.0 as nat / self@.1 as nat) % u64_modulus(),
    {
        let q = self.numerator / self.denominator;
        proof {
            assert(q as u64 == q % 0x1_0000_0000_0000_0000) by (bit_vector);
        }
        #[verifier::truncate]
        (q as u64)
    }

    /// The quotient rounded up, truncated to its low 64 bits.
    pub fn to_ceil(&self) -> (value: u64)
        requires
            self@.1 != 0,
            self@.0 + self@.1 <= u128::MAX,
        ensures
            value == ((self@.0 + self@.1 - 1) as nat / self@.1 as nat) % u64_modulus(),
    {
        let q = (self.numerator + self.denominator - 1) / self.denominator;
        proof {
            assert(q as u64 == q % 0x1_0000_0000_0000_0000) by (bit_vector);
        }
        #[verifier::truncate]
        (q as u64)
    }

    /// The product `self * rhs`, numerators and denominators multiplied.
    pub open spec fn mul_view(self, rhs: Fraction) -> (int, int) {
        (self@.0 * rhs@.0, self@.1 * rhs@.1)
    }

    /// The quotient `self / rhs`, cross-multiplied.
    pub open spec fn div_view(self, rhs: Fraction) -> (int, int) {
        (self@.0 * rhs@.1, self@.1 * rhs@.0)
    }

    /// Three-way comparison by cross-multiplication: `self@.0 * other@.1`
    /// against `other@.0 * self@.1`; the caller guarantees that both products
    /// fit in a `u128`.
    pub fn partial_cmp(&self, other: &Self) -> (ordering: Option<core::cmp::Ordering>)
        requires
            self@.0 * other@.1 <= u128::MAX,
            other@.0 * self@.1 <= u128::MAX,
        ensures
            ordering == Some(compare_cross(*self, *other)),
    {
        let left = self.numerator * other.denominator;
        let right = other.numerator * self.denominator;
        if left < right {
            Some(core::cmp::Ordering::Less)
        } else if left == right {
            Some(core::cmp::Ordering::Equal)
        } else {
            Some(core::cmp::Ordering::Greater)
        }
    }
}

/// The outcome of comparing two fractions by cross-multiplication.
pub open spec fn compare_cross(a: Fraction, b: Fraction) -> core::cmp::Ordering {
    let left = a@.0 * b@.1;
    let right = b@.0 * a@.1;
    if left < right {
        core::cmp::Ordering::Less
    } else if left == right {
        core::cmp::Ordering::Equal
    } else {
        core::cmp::Ordering::Greater
    }
}

impl vstd::std_specs::ops::MulSpecImpl for Fraction {
    open spec fn obeys_mul_spec() -> bool {
        true
    }

    open spec fn mul_req(self, rhs: Fraction) -> bool {
        &&& self@.0 * rhs@.0 <= u128::MAX
        &&& self@.1 * rhs@.1 <= u128::MAX
    }

    closed spec fn mul_spec(self, rhs: Fraction) -> Fraction {
        Fraction {
            numerator: (self.numerator * rhs.numerator) as u128,
            denominator: (self.denominator * rhs.denominator) as u128,
        }
    }
}

impl std::ops::Mul for Fraction {
    type Output = Self;

    /// Multiplies numerators and denominators; the caller guarantees that
    /// neither product overflows.
    fn mul(self, rhs: Self) -> (product: Self)
        ensures
            product@.0 == self.mul_view(rhs).0,
            product@.1 == self.mul_view(rhs).1,
    {
        Self {
            numerator: self.numerator * rhs.numerator,
            denominator: self.denominator * rhs.denominator,
        }
    }
}

impl vstd::std_specs::ops::DivSpecImpl for Fraction {
    open spec fn obeys_div_spec() -> bool {
        true
    }

    open spec fn div_req(self, rhs: Fraction) -> bool {
        &&& self@.0 * rhs@.1 <= u128::MAX
        &&& self@.1 * rhs@.0 <= u128::MAX
    }

    closed spec fn div_spec(self, rhs: Fraction) -> Fraction {
        Fraction {
            numerator: (self.numerator * rhs.denominator) as u128,
            denominator: (self.denominator * rhs.numerator) as u128,
        }
    }
}

impl std::ops::Div for Fraction {
    type Output = Self;

    /// Cross-multiplies; the caller guarantees that neither product
    /// overflows. A zero numerator in `rhs` gives a zero denominator.
    fn div(self, rhs: Self) -> (quotient: Self)
        ensures
            quotient@.0 == self.div_view(rhs).0,
            quotient@.1 == self.div_view(rhs).1,
    {
        Self {
            numerator: self.numerator * rhs.denominator,
            denominator: self.denominator * rhs.numerator,
        }
    }
}

/// Rounding up exceeds rounding down by one exactly when the division leaves
/// a remainder (while the rounded-up quotient fits in a `u64`).
pub proof fn lemma_ceil_is_floor_plus_remainder(f: Fraction)
    requires
        f@.1 != 0,
        f@.0 + f@.1 <= u128::MAX,
        (f@.0 + f@.1 - 1) as nat / f@.1 as nat <= u64::MAX,
    ensures
        ((f@.0 + f@.1 - 1) as nat / f@.1 as nat) % u64_modulus() == (f@.0 as nat / f@.1 as nat) % u64_modulus()
            + if f@.0 % f@.1 == 0 {
            0int
        } else {
            1int
        },
{
    let n = f@.0 as int;
    let d = f@.1 as int;
    let q = n / d;
    let r = n % d;
    vstd::arithmetic::div_mod::lemma_fundamental_div_mod(n, d);
    assert((q + 1) * d == d * q + d) by (nonlinear_arith);
    assert(q * d == d * q) by (nonlinear_arith);
    assert(0 <= r < d) by {
        vstd::arithmetic::div_mod::lemma_mod_bound(n, d);
    }
    if r == 0 {
        vstd::arithmetic::div_mod::lemma_fundamental_div_mod_converse(n + d - 1, d, q, d - 1);
    } else {
        vstd::arithmetic::div_mod::lemma_fundamental_div_mod_converse(n + d - 1, d, q + 1, r - 1);
    }
    vstd::arithmetic::div_mod::lemma_small_mod(((n + d - 1) / d) as nat, u64_modulus());
    vstd::arithmetic::div_mod::lemma_small_mod(q as nat, u64_modulus());
}

/// An integer turned into a fraction rounds back to itself either way.
pub proof fn lemma_from_num_round_trip(value: u64, f: Fraction)
    requires
        f@ == (value as u128, 1u128),
    ensures
        (f@.0 as nat / f@.1 as nat) % u64_modulus() == value,
        ((f@.0 + f@.1 - 1) as nat / f@.1 as nat) % u64_modulus() == value,
{
    vstd::arithmetic::div_mod::lemma_small_mod(value as nat, u64_modulus());
}

} // verus!
