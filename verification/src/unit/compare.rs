//! The comparison unit: it follows `x - y` and egests nothing.
use vstd::prelude::*;
use num_bigint::BigInt;
use crate::bigint::{big_from, int_of};
use crate::unit::arith::{Arith, ArithState, Bilinear};
use crate::unit::lft::{Lft, LftState, Mobius};
use crate::unit::Unit;
use crate::Term;

verus! {

/// What a `Compare` is to its contracts: the unit that computes `x - y` and
/// the sampler that has read what that unit egested.
pub struct CompareState {
    pub arith: ArithState,
    pub lft: LftState,
}

impl CompareState {
    pub open spec fn start() -> CompareState {
        CompareState {
            arith: ArithState {
                m: Bilinear { a: 0, b: 1, c: -1, d: 0, e: 0, f: 0, g: 0, h: 1 },
                singular: false,
            },
            lft: LftState { m: Mobius::identity(), egest_enabled: false },
        }
    }

    pub open spec fn ingest_x(self, x: Term) -> CompareState {
        CompareState { arith: self.arith.ingest_x(x), ..self }
    }

    /// A term of `y` goes into the difference; what the difference then
    /// egests goes into the sampler.
    pub open spec fn ingest_y(self, y: Term) -> CompareState {
        let fed = self.arith.ingest_y(y);
        CompareState { arith: fed.egest_z(), lft: self.lft.ingest_x(fed.decide().0) }
    }
}

/// Streams the sign of `x - y`: the endpoints of its sampler bound the
/// difference of what has been read of the two inputs.
#[derive(Debug)]
pub struct Compare {
    arith: Arith,
    lft: Lft,
}

impl View for Compare {
    type V = CompareState;

    closed spec fn view(&self) -> CompareState {
        CompareState { arith: self.arith@, lft: self.lft@ }
    }
}

impl Compare {
    pub fn create() -> (r: Self)
        ensures
            r@ == CompareState::start(),
    {
        Compare {
            arith: Arith::create(
                [
                    big_from(0),
                    big_from(1),
                    big_from(-1),
                    big_from(0),
                    big_from(0),
                    big_from(0),
                    big_from(0),
                    big_from(1),
                ],
            ),
            lft: Lft {
                mat: [big_from(1), big_from(0), big_from(0), big_from(1)],
                egest_enabled: false,
            },
        }
    }

    /// The two rational endpoints that bound `x - y` so far, each as
    /// numerator and denominator.  The caller derives the order of `x` and
    /// `y` from their signs.
    pub fn cmp(&self) -> (r: ((BigInt, BigInt), (BigInt, BigInt)))
        ensures
            ((int_of(r.0.0), int_of(r.0.1)), (int_of(r.1.0), int_of(r.1.1)))
                == self@.lft.m.intervals(),
    {
        self.lft.intervals()
    }
}

impl Unit for Compare {
    open spec fn wf(&self) -> bool {
        true
    }

    fn ingest_x(&mut self, x: Term)
        ensures
            final(self)@ == old(self)@.ingest_x(x),
    {
        self.arith.ingest_x(x);
    }

    fn ingest_y(&mut self, y: Term)
        ensures
            final(self)@ == old(self)@.ingest_y(y),
    {
        self.arith.ingest_y(y);
        let z = self.arith.egest_z();
        self.lft.ingest_x(z);
    }

    /// A comparison has no stream of its own.
    fn egest_z(&mut self) -> (z: Term)
        ensures
            z == Term::Empty,
            final(self)@ == old(self)@,
    {
        Term::Empty
    }
}

} // verus!
