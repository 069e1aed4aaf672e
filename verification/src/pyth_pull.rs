//! Turning a Pyth pull-oracle price into a dated Scope price, with and
//! without a bound on the price's age.
use vstd::prelude::*;

verus! {

broadcast use vstd::string::group_string_axioms;

/// A price as the oracle publishes it: `price * 10^exponent`, published at
/// `publish_time` (Unix seconds).
#[derive(Debug, Clone)]
pub struct MockPrice {
    pub price: i64,
    pub conf: u64,
    pub exponent: i32,
    pub publish_time: i64,
}

/// The chain's clock: Unix time and slot.
#[derive(Debug, Clone)]
pub struct MockClock {
    pub unix_timestamp: i64,
    pub slot: u64,
}

/// A price `value * 10^-exp` with the time and the slot of its last update.
#[derive(Debug)]
pub struct DatedPrice {
    pub value: u64,
    pub exp: u8,
    pub unix_timestamp: u64,
    pub last_updated_slot: u64,
}

/// The largest age, in seconds, that the bounded conversion accepts.
pub const REASONABLE_MAX_AGE: i64 = 600;

/// The two's-complement reading of an `i64` as a `u64`.
pub open spec fn i64_bits_as_u64(x: i64) -> u64 {
    if x >= 0 {
        x as u64
    } else {
        (x + 0x1_0000_0000_0000_0000) as u64
    }
}

/// The age of the price at the clock's time, in seconds.
pub open spec fn price_age(price: MockPrice, clock: MockClock) -> int {
    clock.unix_timestamp - price.publish_time
}

/// The conversion is defined: the age fits in an `i64`, the mantissa has an
/// absolute value in `i64`, and the exponent can be negated in `i32`.
pub open spec fn conversion_defined(price: MockPrice, clock: MockClock) -> bool {
    &&& i64::MIN <= price_age(price, clock) <= i64::MAX
    &&& price.price != i64::MIN
    &&& price.exponent != i32::MIN
}

/// The fields of the dated price built from an oracle price: the absolute
/// mantissa, the negated exponent in its low 8 bits, the publish time read as
/// unsigned, and the clock's slot less half the age read as unsigned
/// (saturating at zero).
pub open spec fn dated_price_matches(d: DatedPrice, price: MockPrice, clock: MockClock) -> bool {
    &&& d.value == (if price.price < 0 { -price.price } else { price.price as int })
    &&& d.exp as int == (-(price.exponent as int)) % 256
    &&& d.unix_timestamp == i64_bits_as_u64(price.publish_time)
    &&& d.last_updated_slot == (if clock.slot >= i64_bits_as_u64(price_age(price, clock) as i64) / 2 {
        clock.slot - i64_bits_as_u64(price_age(price, clock) as i64) / 2
    } else {
        0
    })
}

fn i64_to_u64_bits(x: i64) -> (r: u64)
    ensures
        r == i64_bits_as_u64(x),
{
    proof {
        assert(x >= 0 ==> x as u64 == x) by (bit_vector);
        assert(x < 0 ==> x as u64 == (x + 0x1_0000_0000_0000_0000) as u64) by (bit_vector);
    }
    x as u64
}

/// Builds the dated price for an oracle price of the given age.
fn dated_price(price: &MockPrice, clock: &MockClock, age: i64) -> (d: DatedPrice)
    requires
        conversion_defined(*price, *clock),
        age == price_age(*price, *clock),
    ensures
        dated_price_matches(d, *price, *clock),
{
    let magnitude: i64 = if price.price < 0 {
        -price.price
    } else {
        price.price
    };
    let neg_exponent: i32 = -price.exponent;
    proof {
        assert(neg_exponent as u8 == (neg_exponent as int) % 256) by (bit_vector);
    }
    DatedPrice {
        value: magnitude as u64,
        exp: #[verifier::truncate] (neg_exponent as u8),
        unix_timestamp: i64_to_u64_bits(price.publish_time),
        last_updated_slot: clock.slot.saturating_sub(i64_to_u64_bits(age) / 2),
    }
}

/// Converts an oracle price into a dated price with no bound on its age:
/// every price is accepted, however old.
pub fn get_price_vulnerable(price: &MockPrice, clock: &MockClock) -> (result: Result<DatedPrice, String>)
    requires
        conversion_defined(*price, *clock),
    ensures
        result matches Ok(d) && dated_price_matches(d, *price, *clock),
{
    let maximum_age = i64::MAX;
    let age = clock.unix_timestamp - price.publish_time;
    if age <= maximum_age {
        Ok(dated_price(price, clock, age))
    } else {
        Err("Price too old".to_string())
    }
}

/// One decimal digit as a character.
pub open spec fn digit_char(d: nat) -> char {
    (48 + d) as char
}

/// The decimal digits of a natural number, most significant first.
pub open spec fn nat_decimal(n: nat) -> Seq<char>
    decreases n,
{
    if n < 10 {
        seq![digit_char(n)]
    } else {
        nat_decimal(n / 10).push(digit_char(n % 10))
    }
}

/// An integer in decimal, with a leading `-` when negative.
pub open spec fn int_decimal(x: int) -> Seq<char> {
    if x < 0 {
        seq!['-'] + nat_decimal((-x) as nat)
    } else {
        nat_decimal(x as nat)
    }
}

/// The error that the bounded conversion gives for a price of the given age.
pub open spec fn too_old_message(age: int) -> Seq<char> {
    "Price too old: "@ + int_decimal(age) + " seconds > "@ + int_decimal(REASONABLE_MAX_AGE as int)
        + " seconds max"@
}

/// `<i64 as ToString>::to_string`: `Display` for integers writes the decimal
/// digits, with a leading `-` for a negative value.
#[verifier::external_body]
fn i64_to_string(x: i64) -> (s: String)
    ensures
        s@ == int_decimal(x as int),
{
    x.to_string()
}

/// Converts an oracle price into a dated price only if it is at most
/// `REASONABLE_MAX_AGE` seconds old; an older price is refused with a message
/// that gives its age.
pub fn get_price_safe(price: &MockPrice, clock: &MockClock) -> (result: Result<DatedPrice, String>)
    requires
        conversion_defined(*price, *clock),
    ensures
        result is Ok <==> price_age(*price, *clock) <= REASONABLE_MAX_AGE,
        result matches Ok(d) ==> dated_price_matches(d, *price, *clock),
        result matches Err(message) ==> message@ == too_old_message(price_age(*price, *clock)),
{
    let age = clock.unix_timestamp - price.publish_time;
    if age <= REASONABLE_MAX_AGE {
        Ok(dated_price(price, clock, age))
    } else {
        let mut message = "Price too old: ".to_string();
        let age_text = i64_to_string(age);
        message.append(age_text.as_str());
        message.append(" seconds > ");
        let max_text = i64_to_string(REASONABLE_MAX_AGE);
        message.append(max_text.as_str());
        message.append(" seconds max");
        Err(message)
    }
}

/// Freshness is the only difference between the two conversions: a price
/// that the bounded conversion accepts is accepted unbounded too, with the
/// same dated price, and the bounded one refuses exactly the prices older
/// than `REASONABLE_MAX_AGE`.
pub proof fn lemma_bounded_conversion_refines_unbounded(
    price: MockPrice,
    clock: MockClock,
    bounded: DatedPrice,
    unbounded: DatedPrice,
)
    requires
        conversion_defined(price, clock),
        price_age(price, clock) <= REASONABLE_MAX_AGE,
        dated_price_matches(bounded, price, clock),
        dated_price_matches(unbounded, price, clock),
    ensures
        bounded == unbounded,
{
}

} // verus!
