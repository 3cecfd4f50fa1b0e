//! The square-root unit.
//!
//! The unit keeps `(a*x*y + b*x + c*y + d) / (e*x*y + f*x + g*y + h)`, where
//! `x` is what is left of the input and `y` stands for what is left of the
//! result itself: the result is the `y` that the expression maps to `y`.
//! Every term that leaves is therefore factored out of the result and
//! consumed on `y` at once.
use vstd::prelude::*;
use num_bigint::BigInt;
use crate::bigint::{
    big_add, big_clone, big_from, big_le, big_lt, big_mul, big_neg, double, int_of, is_negative,
    is_zero, quadruple,
};
use crate::matrix::negate_at;
use crate::unit::arith::{bilinear_of, egest_from, ingest_x_into, ingest_y_into, Bilinear};
use crate::unit::lft::Mobius;
use crate::unit::Unit;
use crate::{fraction_of, rationalize, Fraction, Sign, Term};

verus! {

/// Whether the unit also egests on the two speculative rules.
pub const SQRT_SPECULATE: bool = true;

/// What one endpoint of the input allows the next term to be.
pub struct LftDecision {
    pub ord: bool,
    pub drec: bool,
    pub rec: bool,
    pub neg: bool,
    pub ord_spec: bool,
    pub drec_spec: bool,
}

impl Mobius {
    /// The pole of `(a*y + b) / (c*y + d)`: `-d / c`.
    pub open spec fn pole(self) -> Fraction {
        Fraction::of(-self.d, self.c)
    }

    /// The value at `y = p / q`, for a positive `q`.
    pub open spec fn at(self, p: int, q: int) -> Fraction {
        Fraction::of(p * self.a + q * self.b, p * self.c + q * self.d)
    }

    /// What the fixed point of `(a*y + b) / (c*y + d)` may start with,
    /// judged by the pole and by the values at 0, 1/2, 1, 2 and 4.
    pub open spec fn root_decision(self) -> LftDecision {
        let pole = self.pole();
        let y0 = self.at(0, 1);
        let yh = self.at(1, 2);
        let y1 = self.at(1, 1);
        let y2 = self.at(2, 1);
        let y4 = self.at(4, 1);
        LftDecision {
            ord: pole.n >= 2 * pole.d || y2.n >= 2 * y2.d,
            drec: pole.n < 2 * pole.d && y2.n < 2 * y2.d && (pole.n >= pole.d || y1.n >= y1.d),
            rec: pole.n < pole.d && y1.n < y1.d && (pole.n >= 0 || y0.n >= 0),
            neg: (self.c == 0 || pole.n < 0) && y0.n < 0,
            ord_spec: pole.n < 4 * pole.d && y4.n < 4 * y4.d && (pole.n >= pole.d || y1.n
                >= y1.d),
            drec_spec: pole.n < 2 * pole.d && y2.n < 2 * y2.d && (2 * pole.n >= pole.d || 2
                * yh.n >= yh.d),
        }
    }
}

impl Bilinear {
    /// The matrix with which the unit starts.
    pub open spec fn root_start() -> Bilinear {
        Bilinear { a: 0, b: 1, c: 0, d: 0, e: 0, f: 0, g: 1, h: 0 }
    }

    /// The function of `y` at `x = oo`.
    pub open spec fn at_x_inf(self) -> Mobius {
        Mobius { a: self.a, b: self.b, c: self.e, d: self.f }
    }

    /// The function of `y` at `x = 1`.
    pub open spec fn at_x_one(self) -> Mobius {
        Mobius { a: self.a + self.c, b: self.b + self.d, c: self.e + self.g, d: self.f + self.h }
    }

    pub open spec fn none_positive(self) -> bool {
        self.a <= 0 && self.b <= 0 && self.c <= 0 && self.d <= 0 && self.e <= 0 && self.f <= 0
            && self.g <= 0 && self.h <= 0
    }

    /// The derivative test: a function of `y` that rises everywhere has no
    /// fixed point that a square root could be.
    pub open spec fn root_defined(self) -> bool {
        self.a * self.f <= self.b * self.e && (self.a + self.c) * (self.f + self.h) <= (self.b
            + self.d) * (self.e + self.g)
    }

    /// The term that the square-root unit egests from this matrix: the
    /// strongest on which both endpoints of the input agree.
    pub open spec fn root_decide(self) -> Term {
        let hi = self.at_x_inf().root_decision();
        let lo = self.at_x_one().root_decision();
        if self.e == 0 && self.g == 0 {
            if self.none_positive() {
                Term::Undefined
            } else {
                Term::Inf
            }
        } else if !self.root_defined() {
            Term::Undefined
        } else if hi.ord && lo.ord {
            Term::Ord
        } else if hi.drec && lo.drec {
            Term::DRec
        } else if hi.rec && lo.rec {
            Term::Rec
        } else if hi.neg && lo.neg {
            Term::Neg
        } else if SQRT_SPECULATE && hi.ord_spec && lo.ord_spec {
            Term::Ord
        } else if SQRT_SPECULATE && hi.drec_spec && lo.drec_spec {
            Term::DRec
        } else {
            Term::Empty
        }
    }

    /// The matrix after a term left: factored out of the result and consumed
    /// on `y`.  Terms that end the stream, and `Empty`, change nothing.
    pub open spec fn root_feedback(self, t: Term) -> Bilinear {
        match t {
            Term::Ord | Term::DRec | Term::Rec | Term::Neg => self.egest(t).ingest_y(t),
            _ => self,
        }
    }
}

/// The square-root transducer.
#[derive(Debug)]
pub struct Sqrt {
    mat: [BigInt; 8],
}

impl View for Sqrt {
    type V = Bilinear;

    closed spec fn view(&self) -> Bilinear {
        bilinear_of(self.mat)
    }
}

fn decide_lft(a: BigInt, b: BigInt, c: BigInt, d: BigInt) -> (r: LftDecision)
    ensures
        r == (Mobius { a: int_of(a), b: int_of(b), c: int_of(c), d: int_of(d) }).root_decision(),
{
    let ghost m = Mobius { a: int_of(a), b: int_of(b), c: int_of(c), d: int_of(d) };
    let mut a_num = big_neg(&d);
    let mut a_den = big_clone(&c);
    let pole_sign = rationalize(&mut a_num, &mut a_den);
    let no_pole = is_zero(&c);
    let mut y2_num = big_add(&double(&a), &b);
    let mut y2_den = big_add(&double(&c), &d);
    let _ = rationalize(&mut y2_num, &mut y2_den);
    let mut y1_num = big_add(&a, &b);
    let mut y1_den = big_add(&c, &d);
    let _ = rationalize(&mut y1_num, &mut y1_den);
    let mut y0_num = big_clone(&b);
    let mut y0_den = big_clone(&d);
    let y0_sign = rationalize(&mut y0_num, &mut y0_den);
    let mut y4_num = big_add(&quadruple(&a), &b);
    let mut y4_den = big_add(&quadruple(&c), &d);
    let _ = rationalize(&mut y4_num, &mut y4_den);
    let mut yh_num = big_add(&a, &double(&b));
    let mut yh_den = big_add(&c, &double(&d));
    let _ = rationalize(&mut yh_num, &mut yh_den);
    assert(fraction_of(a_num, a_den) == m.pole());
    assert(fraction_of(y0_num, y0_den) == m.at(0, 1));
    assert(fraction_of(yh_num, yh_den) == m.at(1, 2));
    assert(fraction_of(y1_num, y1_den) == m.at(1, 1));
    assert(fraction_of(y2_num, y2_den) == m.at(2, 1));
    assert(fraction_of(y4_num, y4_den) == m.at(4, 1));

    let pole_two = double(&a_den);
    let pole_four = quadruple(&a_den);
    let y2_two = double(&y2_den);
    let y4_four = quadruple(&y4_den);
    let pole_below_two = big_lt(&a_num, &pole_two);
    let y2_below_two = big_lt(&y2_num, &y2_two);
    let from_one = big_le(&a_den, &a_num) || big_le(&y1_den, &y1_num);
    let ord = !pole_below_two || !y2_below_two;
    let drec = pole_below_two && y2_below_two && from_one;
    let rec = big_lt(&a_num, &a_den) && big_lt(&y1_num, &y1_den) && (!is_negative(&a_num)
        || !is_negative(&y0_num));
    let neg = (no_pole || pole_sign == Sign::Minus) && y0_sign == Sign::Minus;
    let ord_spec = big_lt(&a_num, &pole_four) && big_lt(&y4_num, &y4_four) && from_one;
    let drec_spec = pole_below_two && y2_below_two && (big_le(&a_den, &double(&a_num)) || big_le(
        &yh_den,
        &double(&yh_num),
    ));
    LftDecision { ord, drec, rec, neg, ord_spec, drec_spec }
}

fn none_positive(m: &[BigInt; 8]) -> (r: bool)
    ensures
        r == bilinear_of(*m).none_positive(),
{
    let zero = big_from(0);
    big_le(&m[0], &zero) && big_le(&m[1], &zero) && big_le(&m[2], &zero) && big_le(&m[3], &zero)
        && big_le(&m[4], &zero) && big_le(&m[5], &zero) && big_le(&m[6], &zero) && big_le(
        &m[7],
        &zero,
    )
}

impl Sqrt {
    /// A unit that has read nothing yet.
    pub fn create() -> (r: Self)
        ensures
            r@ == Bilinear::root_start(),
    {
        Self {
            mat: [
                big_from(0),
                big_from(1),
                big_from(0),
                big_from(0),
                big_from(0),
                big_from(0),
                big_from(1),
                big_from(0),
            ],
        }
    }

    fn feedback_ord(&mut self) -> (z: Term)
        ensures
            z == Term::Ord,
            final(self)@ == old(self)@.root_feedback(Term::Ord),
    {
        egest_from(&mut self.mat, Term::Ord);
        ingest_y_into(&mut self.mat, Term::Ord);
        Term::Ord
    }

    fn feedback_drec(&mut self) -> (z: Term)
        ensures
            z == Term::DRec,
            final(self)@ == old(self)@.root_feedback(Term::DRec),
    {
        egest_from(&mut self.mat, Term::DRec);
        ingest_y_into(&mut self.mat, Term::DRec);
        Term::DRec
    }

    fn feedback_rec(&mut self) -> (z: Term)
        ensures
            z == Term::Rec,
            final(self)@ == old(self)@.root_feedback(Term::Rec),
    {
        egest_from(&mut self.mat, Term::Rec);
        ingest_y_into(&mut self.mat, Term::Rec);
        Term::Rec
    }

    fn feedback_neg(&mut self) -> (z: Term)
        ensures
            z == Term::Neg,
            final(self)@ == old(self)@.root_feedback(Term::Neg),
    {
        negate_at(&mut self.mat, 1);
        negate_at(&mut self.mat, 3);
        negate_at(&mut self.mat, 4);
        negate_at(&mut self.mat, 6);
        Term::Neg
    }
}

impl Unit for Sqrt {
    open spec fn wf(&self) -> bool {
        true
    }

    fn ingest_x(&mut self, x: Term)
        ensures
            final(self)@ == old(self)@.ingest_x(x),
    {
        ingest_x_into(&mut self.mat, x);
    }

    /// A square root has no second input.
    fn ingest_y(&mut self, _y: Term)
        ensures
            final(self)@ == old(self)@,
    {
    }

    fn egest_z(&mut self) -> (z: Term)
        ensures
            z == old(self)@.root_decide(),
            final(self)@ == old(self)@.root_feedback(z),
    {
        if is_zero(&self.mat[4]) && is_zero(&self.mat[6]) {
            if none_positive(&self.mat) {
                return Term::Undefined;
            }
            return Term::Inf;
        }
        let defined_oo = big_le(
            &big_mul(&self.mat[0], &self.mat[5]),
            &big_mul(&self.mat[1], &self.mat[4]),
        );
        let n1 = big_add(&self.mat[0], &self.mat[2]);
        let m1 = big_add(&self.mat[1], &self.mat[3]);
        let d1 = big_add(&self.mat[4], &self.mat[6]);
        let e1 = big_add(&self.mat[5], &self.mat[7]);
        let defined_1 = big_le(&big_mul(&n1, &e1), &big_mul(&m1, &d1));
        if !defined_oo || !defined_1 {
            return Term::Undefined;
        }
        let hi = decide_lft(
            big_clone(&self.mat[0]),
            big_clone(&self.mat[1]),
            big_clone(&self.mat[4]),
            big_clone(&self.mat[5]),
        );
        let lo = decide_lft(n1, m1, d1, e1);
        if hi.ord && lo.ord {
            return self.feedback_ord();
        }
        if hi.drec && lo.drec {
            return self.feedback_drec();
        }
        if hi.rec && lo.rec {
            return self.feedback_rec();
        }
        if hi.neg && lo.neg {
            return self.feedback_neg();
        }
        if SQRT_SPECULATE {
            if hi.ord_spec && lo.ord_spec {
                return self.feedback_ord();
            }
            if hi.drec_spec && lo.drec_spec {
                return self.feedback_drec();
            }
        }
        Term::Empty
    }
}

} // verus!
