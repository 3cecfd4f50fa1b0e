//! Arbitrary-precision integers.
//!
//! Every coefficient in this crate is a `num_bigint::BigInt`.  Verus cannot see
//! inside one, so this module names the integer that a `BigInt` holds
//! ([`int_of`]) and states, operation by operation, what `num_bigint` does to
//! that integer.  Those statements are trusted, not proved; everything built on
//! top of them is verified.
use vstd::prelude::*;
use vstd::arithmetic::power::pow;
use vstd::arithmetic::power2::{pow2, lemma2_to64};
use num_bigint::BigInt;
use crate::Sign;

verus! {

#[verifier::external_type_specification]
#[verifier::external_body]
pub struct ExBigInt(BigInt);

/// The mathematical integer that a `BigInt` holds.
pub uninterp spec fn int_of(b: BigInt) -> int;

/// The sign of an integer.
pub open spec fn sign_of(v: int) -> Sign {
    if v < 0 {
        Sign::Minus
    } else if v == 0 {
        Sign::NoSign
    } else {
        Sign::Plus
    }
}

/// The absolute value of an integer.
pub open spec fn magnitude(v: int) -> int {
    if v < 0 {
        -v
    } else {
        v
    }
}

/// How many times 2 divides `v`; 0 for `v == 0`.
pub open spec fn trailing_zeros(v: int) -> nat
    decreases magnitude(v),
{
    if v == 0 || v % 2 != 0 {
        0
    } else {
        1 + trailing_zeros(v / 2)
    }
}

/// The quotient of `n` by `d` rounded towards zero.
pub open spec fn trunc_div(n: int, d: int) -> int
    recommends
        d != 0,
{
    if d > 0 {
        if n >= 0 {
            n / d
        } else {
            -((-n) / d)
        }
    } else {
        if n >= 0 {
            -(n / (-d))
        } else {
            (-n) / (-d)
        }
    }
}

/// `BigInt::from(i64)`: the result holds `v`.
#[verifier::external_body]
pub(crate) fn big_from(v: i64) -> (r: BigInt)
    ensures
        int_of(r) == v,
{
    BigInt::from(v)
}

/// `BigInt::clone`: the copy holds the same integer.
#[verifier::external_body]
pub(crate) fn big_clone(a: &BigInt) -> (r: BigInt)
    ensures
        int_of(r) == int_of(*a),
{
    a.clone()
}

/// `&BigInt + &BigInt`: the exact sum.
#[verifier::external_body]
pub(crate) fn big_add(a: &BigInt, b: &BigInt) -> (r: BigInt)
    ensures
        int_of(r) == int_of(*a) + int_of(*b),
{
    a + b
}

/// `&BigInt - &BigInt`: the exact difference.
#[verifier::external_body]
pub(crate) fn big_sub(a: &BigInt, b: &BigInt) -> (r: BigInt)
    ensures
        int_of(r) == int_of(*a) - int_of(*b),
{
    a - b
}

/// `&BigInt * &BigInt`: the exact product.
#[verifier::external_body]
pub(crate) fn big_mul(a: &BigInt, b: &BigInt) -> (r: BigInt)
    ensures
        int_of(r) == int_of(*a) * int_of(*b),
{
    a * b
}

/// `BigInt::pow`: the base raised to the exponent, exactly.  The exponent is
/// kept small, since the result takes memory in proportion to it.
#[verifier::external_body]
pub(crate) fn big_pow(a: &BigInt, exponent: u32) -> (r: BigInt)
    requires
        exponent <= 65535,
    ensures
        int_of(r) == pow(int_of(*a), exponent as nat),
{
    a.pow(exponent)
}

/// `-&BigInt`: the additive inverse.
#[verifier::external_body]
pub(crate) fn big_neg(a: &BigInt) -> (r: BigInt)
    ensures
        int_of(r) == -int_of(*a),
{
    -a
}

/// `&BigInt << u64`: multiplication by `2^n`; the sign is kept.  The shift is
/// kept below a machine word, since the result takes memory in proportion
/// to it.
#[verifier::external_body]
pub(crate) fn big_shl(a: &BigInt, n: u64) -> (r: BigInt)
    requires
        n < 64,
    ensures
        int_of(r) == int_of(*a) * pow2(n as nat),
{
    a << n
}

/// `&BigInt >> u64`: division by `2^n` rounded towards negative infinity
/// (`num_bigint` adds one to the shifted magnitude of a negative value when a
/// set bit was shifted out).
#[verifier::external_body]
pub(crate) fn big_shr(a: &BigInt, n: u64) -> (r: BigInt)
    ensures
        int_of(r) == int_of(*a) / (pow2(n as nat) as int),
{
    a >> n
}

/// `BigInt::bit`: bit `n` of the two's complement form, which is the parity of
/// the value divided by `2^n` rounded towards negative infinity.
#[verifier::external_body]
pub(crate) fn big_bit(a: &BigInt, n: u64) -> (r: bool)
    ensures
        r == ((int_of(*a) / (pow2(n as nat) as int)) % 2 == 1),
{
    a.bit(n)
}

/// `BigInt::sign`, variant by variant.
#[verifier::external_body]
pub(crate) fn big_sign(a: &BigInt) -> (r: Sign)
    ensures
        r == sign_of(int_of(*a)),
{
    match a.sign() {
        num_bigint::Sign::Minus => Sign::Minus,
        num_bigint::Sign::NoSign => Sign::NoSign,
        num_bigint::Sign::Plus => Sign::Plus,
    }
}

/// `BigInt == BigInt`: true exactly when both hold the same integer.
#[verifier::external_body]
pub(crate) fn big_eq(a: &BigInt, b: &BigInt) -> (r: bool)
    ensures
        r == (int_of(*a) == int_of(*b)),
{
    a == b
}

/// `BigInt < BigInt`: the order of the integers.
#[verifier::external_body]
pub(crate) fn big_lt(a: &BigInt, b: &BigInt) -> (r: bool)
    ensures
        r == (int_of(*a) < int_of(*b)),
{
    a < b
}

/// `BigInt::trailing_zeros`: `None` for zero, otherwise the number of
/// least-significant zero bits of the magnitude.
#[verifier::external_body]
pub(crate) fn big_trailing_zeros(a: &BigInt) -> (r: Option<u64>)
    ensures
        match r {
            None => int_of(*a) == 0,
            Some(k) => int_of(*a) != 0 && k == trailing_zeros(int_of(*a)),
        },
{
    a.trailing_zeros()
}

/// `BigInt::checked_div`: `None` for a zero divisor, otherwise the quotient
/// rounded towards zero.
#[verifier::external_body]
pub(crate) fn big_checked_div(a: &BigInt, b: &BigInt) -> (r: Option<BigInt>)
    ensures
        match r {
            None => int_of(*b) == 0,
            Some(q) => int_of(*b) != 0 && int_of(q) == trunc_div(int_of(*a), int_of(*b)),
        },
{
    a.checked_div(b)
}

/// Twice `a`.
pub(crate) fn double(a: &BigInt) -> (r: BigInt)
    ensures
        int_of(r) == 2 * int_of(*a),
{
    proof {
        lemma2_to64();
    }
    big_shl(a, 1)
}

/// Four times `a`.
pub(crate) fn quadruple(a: &BigInt) -> (r: BigInt)
    ensures
        int_of(r) == 4 * int_of(*a),
{
    proof {
        lemma2_to64();
    }
    big_shl(a, 2)
}

/// Half of `a`, rounded towards negative infinity.
pub(crate) fn halve(a: &BigInt) -> (r: BigInt)
    ensures
        int_of(r) == int_of(*a) / 2,
{
    proof {
        lemma2_to64();
    }
    big_shr(a, 1)
}

/// Whether `a` is odd.
pub(crate) fn is_odd(a: &BigInt) -> (r: bool)
    ensures
        r == (int_of(*a) % 2 != 0),
{
    proof {
        lemma2_to64();
    }
    big_bit(a, 0)
}

/// Whether `a` is zero.
pub(crate) fn is_zero(a: &BigInt) -> (r: bool)
    ensures
        r == (int_of(*a) == 0),
{
    big_sign(a) == Sign::NoSign
}

/// Whether `a` is below zero.
pub(crate) fn is_negative(a: &BigInt) -> (r: bool)
    ensures
        r == (int_of(*a) < 0),
{
    big_sign(a) == Sign::Minus
}

/// Whether `a <= b`.
pub(crate) fn big_le(a: &BigInt, b: &BigInt) -> (r: bool)
    ensures
        r == (int_of(*a) <= int_of(*b)),
{
    !big_lt(b, a)
}

/// The absolute value of `a`.
pub(crate) fn big_abs(a: &BigInt) -> (r: BigInt)
    ensures
        int_of(r) == magnitude(int_of(*a)),
{
    if is_negative(a) {
        big_neg(a)
    } else {
        big_clone(a)
    }
}

} // verus!
