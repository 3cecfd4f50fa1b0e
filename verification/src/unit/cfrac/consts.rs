//! Continued fractions of well-known constants.
use vstd::prelude::*;
use crate::bigint::big_from;
use crate::unit::cfrac::{CFracState, CoefficientSource, FromCFrac, QuadrupleState, Quadruples};
use crate::unit::lft::Mobius;

verus! {

/// Quadruple number `i` (from 0) of the simple continued fraction of Euler's
/// number, `[2; 1, 2, 1, 1, 4, 1, 1, 6, ..]`, for `i` up to `EULER_LAST`.
pub open spec fn euler_quadruple(i: nat) -> (i64, i64, i64, i64) {
    if i == 0 {
        (2, 1, 1, 1)
    } else if i % 3 == 2 {
        ((2 + 2 * (i as int / 3)) as i64, 1, 1, 1)
    } else {
        (1, 1, 1, 1)
    }
}

/// Quadruple number `i` (from 0) of the generalized continued fraction
/// `pi = 4 / (1 + 1 / (3 + 4 / (5 + 9 / (7 + ..))))`, for `i` up to
/// `PI_LAST`.
pub open spec fn pi_quadruple(i: nat) -> (i64, i64, i64, i64) {
    ((2 * (i + 1) - 1) as i64, 1, ((i as int + 1) * (i as int + 1)) as i64, 1)
}

/// The last index whose quadruple of Euler's number fits the machine
/// integers.
pub const EULER_LAST: u64 = 13835058055282163708;

/// The last index whose quadruple of pi fits the machine integers.
pub const PI_LAST: u64 = 3037000498;

/// The generator of the continued fraction of Euler's number.  It ends the
/// fraction once a quadruple would no longer fit the machine integers.
pub struct EulerTerms {
    produced: u64,
}

impl EulerTerms {
    /// How many quadruples have been taken.
    pub closed spec fn produced(&self) -> nat {
        self.produced as nat
    }

    pub fn new() -> (r: Self)
        ensures
            r.produced() == 0,
    {
        Self { produced: 0 }
    }
}

impl CoefficientSource for EulerTerms {
    fn next_quadruple(&mut self) -> (r: Option<(i64, i64, i64, i64)>)
        ensures
            match r {
                Some(quad) => old(self).produced() <= EULER_LAST && quad == euler_quadruple(
                    old(self).produced(),
                ) && final(self).produced() == old(self).produced() + 1,
                None => old(self).produced() > EULER_LAST && final(self).produced() == old(
                    self,
                ).produced(),
            },
    {
        let i = self.produced;
        if i > EULER_LAST {
            return None;
        }
        self.produced = i + 1;
        if i == 0 {
            Some((2, 1, 1, 1))
        } else if i % 3 == 2 {
            let third: i64 = (i / 3) as i64;
            Some((2 + 2 * third, 1, 1, 1))
        } else {
            Some((1, 1, 1, 1))
        }
    }
}

/// The generator of a continued fraction of pi.  It ends the fraction once a
/// quadruple would no longer fit the machine integers.
pub struct PiTerms {
    produced: u64,
}

impl PiTerms {
    /// How many quadruples have been taken.
    pub closed spec fn produced(&self) -> nat {
        self.produced as nat
    }

    pub fn new() -> (r: Self)
        ensures
            r.produced() == 0,
    {
        Self { produced: 0 }
    }
}

impl CoefficientSource for PiTerms {
    fn next_quadruple(&mut self) -> (r: Option<(i64, i64, i64, i64)>)
        ensures
            match r {
                Some(quad) => old(self).produced() <= PI_LAST && quad == pi_quadruple(
                    old(self).produced(),
                ) && final(self).produced() == old(self).produced() + 1,
                None => old(self).produced() > PI_LAST && final(self).produced() == old(
                    self,
                ).produced(),
            },
    {
        let i = self.produced;
        if i > PI_LAST {
            return None;
        }
        self.produced = i + 1;
        let k: i64 = (i + 1) as i64;
        assert(k * k <= 3037000499 * 3037000499) by (nonlinear_arith)
            requires
                0 <= k <= 3037000499,
        ;
        Some((2 * k - 1, 1, k * k, 1))
    }
}

/// Euler's number as a source.
pub fn e() -> (r: FromCFrac)
    ensures
        r@ == (CFracState { m: Mobius::identity(), source: QuadrupleState::Euler(0) }),
{
    FromCFrac {
        iter: Quadruples::Euler(EulerTerms::new()),
        mat: [big_from(1), big_from(0), big_from(0), big_from(1)],
    }
}

/// Pi as a source.
pub fn pi() -> (r: FromCFrac)
    ensures
        r@ == (CFracState { m: Mobius { a: 0, b: 4, c: 1, d: 0 }, source: QuadrupleState::Pi(0) }),
{
    FromCFrac {
        iter: Quadruples::Pi(PiTerms::new()),
        mat: [big_from(0), big_from(4), big_from(1), big_from(0)],
    }
}

} // verus!
