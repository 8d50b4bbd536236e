//! Natural numbers of any size, held as little-endian bytes, and the
//! arithmetic on them that `num_bigint` supplies.

use num_bigint::BigUint;
use num_traits::ToPrimitive;
use vstd::arithmetic::div_mod::*;
use vstd::arithmetic::mul::*;
use vstd::arithmetic::power::*;
use vstd::arithmetic::power2::*;
use vstd::prelude::*;

verus! {

/// The number that `bytes` spells, least significant byte first:
/// the sum of `bytes[i] * 2^(8 i)`.
pub open spec fn le_value(bytes: Seq<u8>) -> nat
    decreases bytes.len(),
{
    if bytes.len() == 0 {
        0
    } else {
        le_value(bytes.drop_last()) + (bytes.last() as nat) * pow2((8 * (bytes.len() - 1)) as nat)
    }
}

/// Digit `index` of `value` written in `base`, counting from the least
/// significant one.
pub open spec fn digit_at(value: nat, base: nat, index: nat) -> nat {
    ((value as int / pow(base as int, index)) % (base as int)) as nat
}

/// Dividing by `base` shifts every digit down by one place.
pub proof fn lemma_digit_at_step(value: nat, base: nat, index: nat)
    requires
        base > 0,
    ensures
        pow(base as int, index) > 0,
        (value as int / pow(base as int, index)) / (base as int) == value as int / pow(
            base as int,
            index + 1,
        ),
        digit_at(value, base, index + 1) == digit_at(
            (value as int / (base as int)) as nat,
            base,
            index,
        ),
{
    let b = base as int;
    lemma_pow_positive(b, index);
    reveal(pow);
    assert(pow(b, index + 1) == b * pow(b, index));
    lemma_div_denominator(value as int, pow(b, index), b);
    lemma_div_denominator(value as int, b, pow(b, index));
    lemma_mul_is_commutative(b, pow(b, index));
    lemma_div_pos_is_pos(value as int, b);
}

/// A number below `base^2` has two digits: its remainder and its quotient
/// by `base`. Every higher digit is zero.
pub proof fn lemma_digits_of_two_digit_number(value: nat, base: nat, index: nat)
    requires
        base > 1,
        value < base * base,
    ensures
        digit_at(value, base, 0) == value % base,
        digit_at(value, base, 1) == value / base,
        index >= 2 ==> digit_at(value, base, index) == 0,
{
    let b = base as int;
    let v = value as int;
    lemma_pow0(b);
    lemma_pow1(b);
    assert(v / b < b) by (nonlinear_arith)
        requires
            0 <= v < b * b,
            b > 1,
    ;
    lemma_div_pos_is_pos(v, b);
    lemma_small_mod((v / b) as nat, base);
    if index >= 2 {
        lemma_pow_increases(base, 2, index);
        reveal_with_fuel(pow, 3);
        assert(pow(b, 2) == b * b) by (nonlinear_arith)
            requires
                pow(b, 2) == b * (b * 1),
        ;
        assert(v < pow(b, index));
        lemma_basic_div(v, pow(b, index));
        assert(v / pow(b, index) == 0);
        lemma_small_mod(0, base);
    }
}

/// `num_bigint`'s remainder: reads `bytes` as a little-endian number with
/// `BigUint::from_bytes_le` and returns what is left of it after division by
/// `divisor`, which fits a `u64` because the divisor does.
#[verifier::external_body]
pub(crate) fn big_rem(bytes: &[u8], divisor: u64) -> (remainder: u64)
    requires
        divisor > 0,
    ensures
        remainder as nat == le_value(bytes@) % (divisor as nat),
{
    (BigUint::from_bytes_le(bytes) % BigUint::from(divisor)).to_u64().expect(
        "a remainder is below its divisor",
    )
}

/// `num_bigint`'s division: the little-endian bytes (`BigUint::to_bytes_le`)
/// of the quotient of the number in `bytes` by `divisor`, rounded down.
#[verifier::external_body]
pub(crate) fn big_div(bytes: &[u8], divisor: u64) -> (quotient: Vec<u8>)
    requires
        divisor > 0,
    ensures
        le_value(quotient@) == le_value(bytes@) / (divisor as nat),
{
    (BigUint::from_bytes_le(bytes) / BigUint::from(divisor)).to_bytes_le()
}

/// `num_bigint`'s multiplication: the little-endian bytes of the number in
/// `bytes` times `factor`.
#[verifier::external_body]
pub(crate) fn big_mul(bytes: &[u8], factor: u64) -> (product: Vec<u8>)
    ensures
        le_value(product@) == le_value(bytes@) * (factor as nat),
{
    (BigUint::from_bytes_le(bytes) * BigUint::from(factor)).to_bytes_le()
}

/// `num_bigint`'s addition: the little-endian bytes of the number in `bytes`
/// plus `term`.
#[verifier::external_body]
pub(crate) fn big_add(bytes: &[u8], term: u64) -> (sum: Vec<u8>)
    ensures
        le_value(sum@) == le_value(bytes@) + (term as nat),
{
    (BigUint::from_bytes_le(bytes) + BigUint::from(term)).to_bytes_le()
}

} // verus!
