//! Integers without a bound, in which amounts of tokens are counted.

use crate::identifiers::copy_bytes;
use num_traits::Zero;
use vstd::arithmetic::power2::pow2;
use vstd::prelude::*;

verus! {

/// An integer, as its bytes in two's complement, the low ones first.
#[derive(Debug)]
pub struct BigInt {
    pub bytes: Vec<u8>,
}

/// An amount of tokens, in the smallest unit.
pub type TokenAmount = BigInt;

/// The integer that bytes in two's complement stand for, the low ones first.
pub open spec fn signed_value(bytes: Seq<u8>) -> int
    decreases bytes.len(),
{
    if bytes.len() == 0 {
        0
    } else if bytes.len() == 1 {
        if bytes[0] < 128 {
            bytes[0] as int
        } else {
            bytes[0] - 256
        }
    } else {
        bytes[0] + 256 * signed_value(bytes.drop_first())
    }
}

impl View for BigInt {
    type V = int;

    open spec fn view(&self) -> int {
        signed_value(self.bytes@)
    }
}

/// The magnitude of `amount` takes at most 127 bytes. A larger amount has no encoding.
pub open spec fn encodable_amount(amount: int) -> bool {
    -pow2(1016) < amount < pow2(1016)
}

/// Nothing at all has an encoding.
pub proof fn lemma_zero_is_encodable()
    ensures
        encodable_amount(0),
{
    vstd::arithmetic::power2::lemma_pow2_pos(1016);
}

/// Calls `num_bigint::BigInt::zero`, an implementation of `num_traits::Zero`, and takes the bytes
/// of the integer, which is zero.
#[verifier::external_body]
fn num_zero() -> (zero: BigInt)
    ensures
        zero@ == 0,
{
    BigInt { bytes: num_bigint::BigInt::zero().to_signed_bytes_le() }
}

/// Calls `num_bigint::BigInt::from` and takes the bytes of the integer, which is `value`.
#[verifier::external_body]
fn num_from(value: i64) -> (number: BigInt)
    ensures
        number@ == value,
{
    BigInt { bytes: num_bigint::BigInt::from(value).to_signed_bytes_le() }
}

/// Makes integers of the two byte strings with `num_bigint::BigInt::from_signed_bytes_le`, adds
/// them with `+`, and takes the bytes of the sum.
#[verifier::external_body]
fn num_sum(left: &BigInt, right: &BigInt) -> (sum: BigInt)
    ensures
        sum@ == left@ + right@,
{
    let left = num_bigint::BigInt::from_signed_bytes_le(&left.bytes);
    let right = num_bigint::BigInt::from_signed_bytes_le(&right.bytes);
    BigInt { bytes: (left + right).to_signed_bytes_le() }
}

/// Makes integers of the two byte strings with `num_bigint::BigInt::from_signed_bytes_le`, and
/// compares them with `==`.
#[verifier::external_body]
fn num_equal(left: &BigInt, right: &BigInt) -> (equal: bool)
    ensures
        equal == (left@ == right@),
{
    num_bigint::BigInt::from_signed_bytes_le(&left.bytes)
        == num_bigint::BigInt::from_signed_bytes_le(&right.bytes)
}

impl BigInt {
    /// Zero.
    pub fn zero() -> (zero: BigInt)
        ensures
            zero@ == 0,
    {
        num_zero()
    }

    /// The integer `value`.
    pub fn from_i64(value: i64) -> (number: BigInt)
        ensures
            number@ == value,
    {
        num_from(value)
    }

    /// Adds `other` to the integer.
    pub fn increase(&mut self, other: &BigInt)
        ensures
            final(self)@ == old(self)@ + other@,
    {
        let sum = num_sum(self, other);
        *self = sum;
    }
}

impl Clone for BigInt {
    fn clone(&self) -> (copy: BigInt)
        ensures
            copy@ == self@,
    {
        BigInt { bytes: copy_bytes(&self.bytes) }
    }
}

impl PartialEq for BigInt {
    fn eq(&self, other: &BigInt) -> (equal: bool) {
        num_equal(self, other)
    }
}

impl vstd::std_specs::cmp::PartialEqSpecImpl for BigInt {
    open spec fn obeys_eq_spec() -> bool {
        true
    }

    open spec fn eq_spec(&self, other: &BigInt) -> bool {
        self@ == other@
    }
}

} // verus!
