//! A source that turns a generalized continued fraction into a stream.
use vstd::prelude::*;
use num_bigint::BigInt;
use crate::bigint::{big_add, big_from, big_mul};
use crate::matrix::copy_at;
use crate::unit::cfrac::consts::{euler_quadruple, pi_quadruple, EulerTerms, PiTerms, EULER_LAST, PI_LAST};
use crate::unit::lft::{egest_decided, mobius_of, Mobius};
use crate::unit::Unit;
use crate::Term;

pub mod consts;

verus! {

/// A generator of the quadruples `(p, q, r, s)` of a generalized continued
/// fraction, each of which stands for `x = p/q + (r/s) / x'`.  `None` ends the
/// fraction.  Nothing is assumed about what a generator yields.
pub trait CoefficientSource {
    fn next_quadruple(&mut self) -> Option<(i64, i64, i64, i64)>;
}

/// The quadruples `(t, 1, 1, 1)` of a simple continued fraction with the
/// given terms.
pub struct SimpleTerms {
    terms: Vec<i64>,
    pos: usize,
}

impl SimpleTerms {
    /// The terms that are still to come.
    pub closed spec fn remaining(&self) -> Seq<i64> {
        if self.pos <= self.terms@.len() {
            self.terms@.skip(self.pos as int)
        } else {
            Seq::empty()
        }
    }

    pub fn new(terms: Vec<i64>) -> (r: Self)
        ensures
            r.remaining() == terms@,
    {
        Self { terms, pos: 0 }
    }
}

impl CoefficientSource for SimpleTerms {
    fn next_quadruple(&mut self) -> (r: Option<(i64, i64, i64, i64)>)
        ensures
            old(self).remaining().len() == 0 ==> r is None && final(self).remaining().len() == 0,
            old(self).remaining().len() > 0 ==> r == Some((old(self).remaining()[0], 1i64, 1i64, 1i64))
                && final(self).remaining() == old(self).remaining().skip(1),
    {
        if self.pos < self.terms.len() {
            let t = self.terms[self.pos];
            self.pos += 1;
            Some((t, 1, 1, 1))
        } else {
            None
        }
    }
}

impl Mobius {
    /// The matrix after `y` was replaced by `p/q + (r/s) / y`, or by infinity
    /// where the fraction has ended.
    pub open spec fn absorb(self, quad: Option<(i64, i64, i64, i64)>) -> Mobius {
        match quad {
            Some((p, q, r, s)) => Mobius {
                a: self.a * p * s + self.b * q * s,
                b: self.a * r * q,
                c: self.c * p * s + self.d * q * s,
                d: self.c * r * q,
            },
            None => Mobius { b: self.a, d: self.c, ..self },
        }
    }
}

/// Where the quadruples of a source come from.
pub enum Quadruples {
    Euler(EulerTerms),
    Pi(PiTerms),
    Simple(SimpleTerms),
    /// A generator of which nothing is known.
    Outside(Box<dyn CoefficientSource>),
}

/// What a stream of quadruples is to the contracts of its source.
pub enum QuadrupleState {
    /// The fraction of Euler's number, and how many quadruples were taken.
    Euler(nat),
    /// The fraction of pi, and how many quadruples were taken.
    Pi(nat),
    /// A simple continued fraction, and the terms that are still to come.
    Simple(Seq<i64>),
    Outside,
}

impl QuadrupleState {
    /// The stream after its next quadruple was taken, and that quadruple;
    /// `None` where the fraction has ended.  Says nothing true of a
    /// generator from outside.
    pub open spec fn next(self) -> (QuadrupleState, Option<(i64, i64, i64, i64)>) {
        match self {
            QuadrupleState::Euler(n) => if n <= EULER_LAST {
                (QuadrupleState::Euler(n + 1), Some(euler_quadruple(n)))
            } else {
                (self, None)
            },
            QuadrupleState::Pi(n) => if n <= PI_LAST {
                (QuadrupleState::Pi(n + 1), Some(pi_quadruple(n)))
            } else {
                (self, None)
            },
            QuadrupleState::Simple(s) => if s.len() > 0 {
                (QuadrupleState::Simple(s.skip(1)), Some((s[0], 1i64, 1i64, 1i64)))
            } else {
                (self, None)
            },
            QuadrupleState::Outside => (self, None),
        }
    }
}

impl View for Quadruples {
    type V = QuadrupleState;

    open spec fn view(&self) -> QuadrupleState {
        match self {
            Quadruples::Euler(g) => QuadrupleState::Euler(g.produced()),
            Quadruples::Pi(g) => QuadrupleState::Pi(g.produced()),
            Quadruples::Simple(g) => QuadrupleState::Simple(g.remaining()),
            Quadruples::Outside(_) => QuadrupleState::Outside,
        }
    }
}

impl Quadruples {
    /// Takes the next quadruple of the stream.
    pub fn next_quadruple(&mut self) -> (r: Option<(i64, i64, i64, i64)>)
        ensures
            old(self)@ is Outside ==> final(self)@ is Outside,
            !(old(self)@ is Outside) ==> (final(self)@, r) == old(self)@.next(),
    {
        match self {
            Quadruples::Euler(g) => g.next_quadruple(),
            Quadruples::Pi(g) => g.next_quadruple(),
            Quadruples::Simple(g) => {
                let r = g.next_quadruple();
                assert(old(self)@->Simple_0.len() == 0 ==> g.remaining() =~= old(
                    self,
                )@->Simple_0);
                r
            },
            Quadruples::Outside(g) => g.next_quadruple(),
        }
    }
}

/// What a `FromCFrac` is to its contracts.
pub struct CFracState {
    pub m: Mobius,
    pub source: QuadrupleState,
}

/// The continued-fraction source.  Each egestion pulls one quadruple from
/// `iter` into `mat` and then egests what `mat` determines.  The matrix is
/// never reduced by a common divisor.
pub struct FromCFrac {
    pub iter: Quadruples,
    pub mat: [BigInt; 4],
}

impl View for FromCFrac {
    type V = CFracState;

    open spec fn view(&self) -> CFracState {
        CFracState { m: mobius_of(self.mat), source: self.iter@ }
    }
}

impl FromCFrac {
    /// The source of the simple continued fraction with the given terms.
    pub fn simple(terms: Vec<i64>) -> (r: Self)
        ensures
            r@ == (CFracState { m: Mobius::identity(), source: QuadrupleState::Simple(terms@) }),
    {
        FromCFrac {
            iter: Quadruples::Simple(SimpleTerms::new(terms)),
            mat: [big_from(1), big_from(0), big_from(0), big_from(1)],
        }
    }

    /// Composes one quadruple of the fraction, or its end, into the matrix.
    pub fn absorb(&mut self, quad: Option<(i64, i64, i64, i64)>)
        ensures
            final(self)@.m == old(self)@.m.absorb(quad),
            final(self).iter == old(self).iter,
    {
        match quad {
            Some((p, q, r, s)) => {
                let p = big_from(p);
                let q = big_from(q);
                let r = big_from(r);
                let s = big_from(s);
                let a = big_add(
                    &big_mul(&big_mul(&self.mat[0], &p), &s),
                    &big_mul(&big_mul(&self.mat[1], &q), &s),
                );
                let b = big_mul(&big_mul(&self.mat[0], &r), &q);
                let c = big_add(
                    &big_mul(&big_mul(&self.mat[2], &p), &s),
                    &big_mul(&big_mul(&self.mat[3], &q), &s),
                );
                let d = big_mul(&big_mul(&self.mat[2], &r), &q);
                self.mat[0] = a;
                self.mat[1] = b;
                self.mat[2] = c;
                self.mat[3] = d;
            },
            None => {
                copy_at(&mut self.mat, 1, 0);
                copy_at(&mut self.mat, 3, 2);
            },
        }
    }

    /// One egestion, given what the generator yielded: composes it into the
    /// matrix, then decides the next term and factors it out.
    pub fn step(&mut self, quad: Option<(i64, i64, i64, i64)>) -> (z: Term)
        ensures
            z == old(self)@.m.absorb(quad).decide(),
            final(self)@.m == old(self)@.m.absorb(quad).egest(z),
            final(self).iter == old(self).iter,
    {
        self.absorb(quad);
        egest_decided(&mut self.mat)
    }

    /// Whether `post` and `z` are what one egestion of a unit in state
    /// `pre` leaves: for the quadruple that its stream yields next, or, with
    /// a generator from outside, for some quadruple or end of the fraction.
    pub open spec fn egested(pre: CFracState, post: CFracState, z: Term) -> bool {
        if pre.source is Outside {
            &&& post.source is Outside
            &&& exists|quad: Option<(i64, i64, i64, i64)>|
                z == (#[trigger] pre.m.absorb(quad)).decide() && post.m == pre.m.absorb(quad).egest(
                    z,
                )
        } else {
            let (source, quad) = pre.source.next();
            &&& z == pre.m.absorb(quad).decide()
            &&& post.m == pre.m.absorb(quad).egest(z)
            &&& post.source == source
        }
    }
}

impl Unit for FromCFrac {
    open spec fn wf(&self) -> bool {
        true
    }

    /// A source has no input.
    fn ingest_x(&mut self, _x: Term)
        ensures
            *final(self) == *old(self),
    {
    }

    /// A source has no input.
    fn ingest_y(&mut self, _y: Term)
        ensures
            *final(self) == *old(self),
    {
    }

    fn egest_z(&mut self) -> (z: Term)
        ensures
            FromCFrac::egested(old(self)@, final(self)@, z),
    {
        let quad = self.iter.next_quadruple();
        self.step(quad)
    }
}

} // verus!
