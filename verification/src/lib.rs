//! Exact real arithmetic on continued-logarithm streams.
//!
//! A real number is a possibly infinite stream of [`Term`]s.  Arithmetic is done
//! by *units*: state machines over integer matrices that ingest terms of their
//! inputs and egest terms of their result as soon as the inputs read so far
//! determine them.  A [`workgroup::Workgroup`] wires units into a graph and
//! steps them in three phases.
use vstd::prelude::*;
use num_bigint::BigInt;
use crate::bigint::{
    big_abs, big_le, big_lt, big_neg, big_sign, double, halve, int_of, magnitude, quadruple, sign_of,
};

pub mod bigint;
pub mod matrix;
pub mod parse;
pub mod unit;
pub mod workgroup;

verus! {

/// One symbol of a continued-logarithm stream.
#[derive(Clone, Copy, PartialEq, Eq, Hash, Debug, Structural)]
pub enum Term {
    /// Nothing could be decided yet; carries no information.
    Empty,
    /// The value is at least 2; what follows encodes half of it.
    Ord,
    /// The value `x` lies in `[1, 2)`; what follows encodes `1 / (x - 1)`.
    DRec,
    /// The value lies below 1; what follows encodes its reciprocal.
    Rec,
    /// The value is negative; what follows encodes its additive inverse.
    Neg,
    /// The value is infinite; ends the stream.
    Inf,
    /// The value is not defined; ends the stream.
    Undefined,
}

impl Default for Term {
    fn default() -> (t: Term)
        ensures
            t == Term::Empty,
    {
        Term::Empty
    }
}

impl Term {
    /// The character that stands for a term in written streams.
    pub open spec fn symbol_of(self) -> char {
        match self {
            Term::Empty => '\u{f8}',
            Term::Ord => '1',
            Term::DRec => '0',
            Term::Rec => '/',
            Term::Neg => '-',
            Term::Inf => '\u{221e}',
            Term::Undefined => '!',
        }
    }

    /// The character that stands for this term in written streams.
    pub fn symbol(self) -> (c: char)
        ensures
            c == self.symbol_of(),
    {
        match self {
            Term::Empty => '\u{f8}',
            Term::Ord => '1',
            Term::DRec => '0',
            Term::Rec => '/',
            Term::Neg => '-',
            Term::Inf => '\u{221e}',
            Term::Undefined => '!',
        }
    }
}

/// The sign of an integer or of a fraction.
#[derive(Clone, Copy, PartialEq, Eq, Hash, Debug, Structural)]
pub enum Sign {
    Minus,
    NoSign,
    Plus,
}

/// A fraction `n / d` rewritten so that its denominator is not negative.
pub open spec fn canonical(n: int, d: int) -> (int, int) {
    if d < 0 {
        (-n, -d)
    } else {
        (n, d)
    }
}

/// The sign of the fraction `n / d`, where a zero denominator counts as
/// positive and a zero numerator has no sign.
pub open spec fn fraction_sign(n: int, d: int) -> Sign {
    if n == 0 {
        Sign::NoSign
    } else if (n < 0) != (d < 0) {
        Sign::Minus
    } else {
        Sign::Plus
    }
}

/// A fraction with a denominator that is not negative, as the units compare
/// them when they decide what to egest.
pub struct Fraction {
    pub n: int,
    pub d: int,
}

impl Fraction {
    /// The fraction `n / d`, with the sign moved into the numerator.
    pub open spec fn of(n: int, d: int) -> Fraction {
        Fraction { n: canonical(n, d).0, d: canonical(n, d).1 }
    }

    /// The sign of the fraction.
    pub open spec fn sign(self) -> Sign {
        sign_of(self.n)
    }

    /// `2 <= n/d`.
    pub open spec fn at_least_two(self) -> bool {
        self.n >= 2 * self.d
    }

    /// `1 <= n/d < 2`.
    pub open spec fn from_one_to_two(self) -> bool {
        self.d <= self.n < 2 * self.d
    }

    /// `n/d < 1`.
    pub open spec fn below_one(self) -> bool {
        self.n < self.d
    }

    /// `1 < n/d < 4`.
    pub open spec fn between_one_and_four(self) -> bool {
        self.d < self.n < 4 * self.d
    }

    /// `1/2 < n/d < 2`.
    pub open spec fn between_half_and_two(self) -> bool {
        self.d < 2 * self.n && self.n < 2 * self.d
    }

    /// `|n| < |d|`.
    pub open spec fn magnitude_below_one(self) -> bool {
        magnitude(self.n) < magnitude(self.d)
    }

    /// `2|d| <= |n|`.
    pub open spec fn magnitude_at_least_two(self) -> bool {
        magnitude(2 * self.d) <= magnitude(self.n)
    }
}

/// The fraction that two integers hold.
pub open spec fn fraction_of(n: BigInt, d: BigInt) -> Fraction {
    Fraction { n: int_of(n), d: int_of(d) }
}

pub(crate) fn at_least_two(n: &BigInt, d: &BigInt) -> (r: bool)
    ensures
        r == fraction_of(*n, *d).at_least_two(),
{
    let half = halve(n);
    big_le(d, &half)
}

pub(crate) fn from_one_to_two(n: &BigInt, d: &BigInt) -> (r: bool)
    ensures
        r == fraction_of(*n, *d).from_one_to_two(),
{
    let half = halve(n);
    big_le(d, n) && big_lt(&half, d)
}

pub(crate) fn below_one(n: &BigInt, d: &BigInt) -> (r: bool)
    ensures
        r == fraction_of(*n, *d).below_one(),
{
    big_lt(n, d)
}

pub(crate) fn between_one_and_four(n: &BigInt, d: &BigInt) -> (r: bool)
    ensures
        r == fraction_of(*n, *d).between_one_and_four(),
{
    let four = quadruple(d);
    big_lt(d, n) && big_lt(n, &four)
}

pub(crate) fn between_half_and_two(n: &BigInt, d: &BigInt) -> (r: bool)
    ensures
        r == fraction_of(*n, *d).between_half_and_two(),
{
    let twice_n = double(n);
    let twice_d = double(d);
    big_lt(d, &twice_n) && big_lt(n, &twice_d)
}

pub(crate) fn magnitude_below_one(n: &BigInt, d: &BigInt) -> (r: bool)
    ensures
        r == fraction_of(*n, *d).magnitude_below_one(),
{
    let size_n = big_abs(n);
    let size_d = big_abs(d);
    big_lt(&size_n, &size_d)
}

pub(crate) fn magnitude_at_least_two(n: &BigInt, d: &BigInt) -> (r: bool)
    ensures
        r == fraction_of(*n, *d).magnitude_at_least_two(),
{
    let twice_d = double(d);
    let size_n = big_abs(n);
    let size_d = big_abs(&twice_d);
    big_le(&size_d, &size_n)
}

/// Moves the sign of a fraction into its numerator and returns the sign of the
/// fraction.  Afterwards the denominator is not negative, so the fraction is
/// one of `+/+`, `-/+`, `0/+` or anything over zero.
pub fn rationalize(num: &mut BigInt, den: &mut BigInt) -> (s: Sign)
    ensures
        (int_of(*final(num)), int_of(*final(den))) == canonical(
            int_of(*old(num)),
            int_of(*old(den)),
        ),
        s == fraction_sign(int_of(*old(num)), int_of(*old(den))),
        fraction_of(*final(num), *final(den)) == Fraction::of(int_of(*old(num)), int_of(*old(den))),
        int_of(*final(den)) >= 0,
        s == sign_of(int_of(*final(num))),
{
    let n = big_sign(num);
    let d = big_sign(den);
    if d == Sign::Minus {
        let flipped_num = big_neg(num);
        let flipped_den = big_neg(den);
        *num = flipped_num;
        *den = flipped_den;
    }
    if n == Sign::NoSign {
        Sign::NoSign
    } else if (n == Sign::Minus) != (d == Sign::Minus) {
        Sign::Minus
    } else {
        Sign::Plus
    }
}

} // verus!
