//! The bilinear unit: one transducer for `+`, `-`, `*` and `/`.
use vstd::prelude::*;
use num_bigint::BigInt;
use crate::bigint::{big_add, big_clone, big_from, int_of, is_odd, is_zero};
use crate::matrix::{add_at, all_zero, clear_at, copy_at, double_at, halve_at, negate_at, sub_at};
use crate::unit::Unit;
use crate::{
    at_least_two, below_one, between_half_and_two, between_one_and_four, fraction_of,
    from_one_to_two, magnitude_at_least_two, magnitude_below_one, rationalize, Fraction, Sign, Term,
};

verus! {

/// When false, the unit egests only what the corners of its matrix prove.
/// When true, corners with a zero denominator do not hold egestion back, and
/// the two rules for matrices that straddle a pole apply whatever the
/// singularity flag says.
pub const MORE_AGGRESSIVE: bool = true;

/// The eight coefficients of
/// `(a*x*y + b*x + c*y + d) / (e*x*y + f*x + g*y + h)`.
pub struct Bilinear {
    pub a: int,
    pub b: int,
    pub c: int,
    pub d: int,
    pub e: int,
    pub f: int,
    pub g: int,
    pub h: int,
}

/// The coefficients that an array of eight integers holds, in order.
pub open spec fn bilinear_of(m: [BigInt; 8]) -> Bilinear {
    Bilinear {
        a: int_of(m@[0]),
        b: int_of(m@[1]),
        c: int_of(m@[2]),
        d: int_of(m@[3]),
        e: int_of(m@[4]),
        f: int_of(m@[5]),
        g: int_of(m@[6]),
        h: int_of(m@[7]),
    }
}

impl Bilinear {
    /// The matrix of the undefined value.
    pub open spec fn zero() -> Bilinear {
        Bilinear { a: 0, b: 0, c: 0, d: 0, e: 0, f: 0, g: 0, h: 0 }
    }

    pub open spec fn is_zero(self) -> bool {
        self == Bilinear::zero()
    }

    /// The matrix after one term of `x` was consumed.
    pub open spec fn ingest_x(self, t: Term) -> Bilinear {
        match t {
            Term::Empty => self,
            Term::Ord => if self.c % 2 == 0 && self.d % 2 == 0 && self.g % 2 == 0 && self.h % 2
                == 0 {
                Bilinear { c: self.c / 2, d: self.d / 2, g: self.g / 2, h: self.h / 2, ..self }
            } else {
                Bilinear { a: 2 * self.a, b: 2 * self.b, e: 2 * self.e, f: 2 * self.f, ..self }
            },
            Term::DRec => Bilinear {
                a: self.a + self.c,
                b: self.b + self.d,
                c: self.a,
                d: self.b,
                e: self.e + self.g,
                f: self.f + self.h,
                g: self.e,
                h: self.f,
            },
            Term::Rec => Bilinear {
                a: self.c,
                b: self.d,
                c: self.a,
                d: self.b,
                e: self.g,
                f: self.h,
                g: self.e,
                h: self.f,
            },
            Term::Neg => Bilinear { a: -self.a, b: -self.b, e: -self.e, f: -self.f, ..self },
            Term::Inf => Bilinear { c: self.a, d: self.b, g: self.e, h: self.f, ..self },
            Term::Undefined => Bilinear::zero(),
        }
    }

    /// The matrix after one term of `y` was consumed.
    pub open spec fn ingest_y(self, t: Term) -> Bilinear {
        match t {
            Term::Empty => self,
            Term::Ord => if self.b % 2 == 0 && self.d % 2 == 0 && self.f % 2 == 0 && self.h % 2
                == 0 {
                Bilinear { b: self.b / 2, d: self.d / 2, f: self.f / 2, h: self.h / 2, ..self }
            } else {
                Bilinear { a: 2 * self.a, c: 2 * self.c, e: 2 * self.e, g: 2 * self.g, ..self }
            },
            Term::DRec => Bilinear {
                a: self.a + self.b,
                b: self.a,
                c: self.c + self.d,
                d: self.c,
                e: self.e + self.f,
                f: self.e,
                g: self.g + self.h,
                h: self.g,
            },
            Term::Rec => Bilinear {
                a: self.b,
                b: self.a,
                c: self.d,
                d: self.c,
                e: self.f,
                f: self.e,
                g: self.h,
                h: self.g,
            },
            Term::Neg => Bilinear { a: -self.a, c: -self.c, e: -self.e, g: -self.g, ..self },
            Term::Inf => Bilinear { b: self.a, d: self.c, f: self.e, h: self.g, ..self },
            Term::Undefined => Bilinear::zero(),
        }
    }

    /// The matrix after a term of the result was factored out of it.
    pub open spec fn egest(self, t: Term) -> Bilinear {
        match t {
            Term::Empty => self,
            Term::Inf => self,
            Term::Ord => if self.a % 2 == 0 && self.b % 2 == 0 && self.c % 2 == 0 && self.d % 2
                == 0 {
                Bilinear { a: self.a / 2, b: self.b / 2, c: self.c / 2, d: self.d / 2, ..self }
            } else {
                Bilinear { e: 2 * self.e, f: 2 * self.f, g: 2 * self.g, h: 2 * self.h, ..self }
            },
            Term::DRec => Bilinear {
                a: self.e,
                b: self.f,
                c: self.g,
                d: self.h,
                e: self.a - self.e,
                f: self.b - self.f,
                g: self.c - self.g,
                h: self.d - self.h,
            },
            Term::Rec => Bilinear {
                a: self.e,
                b: self.f,
                c: self.g,
                d: self.h,
                e: self.a,
                f: self.b,
                g: self.c,
                h: self.d,
            },
            Term::Neg => Bilinear { a: -self.a, b: -self.b, c: -self.c, d: -self.d, ..self },
            Term::Undefined => Bilinear::zero(),
        }
    }

    /// The value at one of the four corners of the input square `[1, oo]^2`:
    /// corner 0 at `x = y = oo`, corner 1 at `y = 1`, corner 2 at `x = 1`,
    /// corner 3 at `x = y = 1`.
    pub open spec fn corner(self, i: int) -> Fraction {
        if i == 0 {
            Fraction::of(self.a, self.e)
        } else if i == 1 {
            Fraction::of(self.a + self.b, self.e + self.f)
        } else if i == 2 {
            Fraction::of(self.a + self.c, self.e + self.g)
        } else {
            Fraction::of(self.a + self.b + self.c + self.d, self.e + self.f + self.g + self.h)
        }
    }

    /// Whether a property holds at all four corners.
    pub open spec fn every_corner(self, p: spec_fn(Fraction) -> bool) -> bool {
        p(self.corner(0)) && p(self.corner(1)) && p(self.corner(2)) && p(self.corner(3))
    }

    /// Whether a property holds at one corner at least.
    pub open spec fn some_corner(self, p: spec_fn(Fraction) -> bool) -> bool {
        p(self.corner(0)) || p(self.corner(1)) || p(self.corner(2)) || p(self.corner(3))
    }

    /// The result is infinite: every corner is a nonzero numerator over zero.
    pub open spec fn is_infinite(self) -> bool {
        self.every_corner(|q: Fraction| q.d == 0 && q.n != 0)
    }

    /// The corners do not disagree in sign, and (unless `MORE_AGGRESSIVE`)
    /// none has a zero denominator.
    pub open spec fn well_defined(self) -> bool {
        &&& !(self.some_corner(|q: Fraction| q.sign() == Sign::Plus) && self.some_corner(
            |q: Fraction| q.sign() == Sign::Minus,
        ))
        &&& (!self.some_corner(|q: Fraction| q.d == 0) || MORE_AGGRESSIVE)
    }

    pub open spec fn all_negative(self) -> bool {
        self.every_corner(|q: Fraction| q.sign() == Sign::Minus)
    }
}

/// Consuming `Neg` twice, on either input, leaves the matrix as it was.
pub proof fn neg_twice_is_identity(m: Bilinear)
    ensures
        m.ingest_x(Term::Neg).ingest_x(Term::Neg) == m,
        m.ingest_y(Term::Neg).ingest_y(Term::Neg) == m,
{
}

/// Consuming `Rec` twice, on either input, leaves the matrix as it was.
pub proof fn rec_twice_is_identity(m: Bilinear)
    ensures
        m.ingest_x(Term::Rec).ingest_x(Term::Rec) == m,
        m.ingest_y(Term::Rec).ingest_y(Term::Rec) == m,
{
}

/// The undefined value absorbs: whatever the zero matrix consumes, it stays
/// the zero matrix, it egests `Undefined`, and egestion leaves it as it is.
/// No other matrix egests `Undefined`.
pub proof fn undefined_is_absorbing(s: ArithState, t: Term)
    ensures
        s.m.is_zero() ==> s.m.ingest_x(t).is_zero() && s.m.ingest_y(t).is_zero(),
        s.m.is_zero() ==> s.decide().0 == Term::Undefined && s.egest_z() == s,
        s.decide().0 == Term::Undefined ==> s.m.is_zero(),
{
}

/// What an `Arith` is to its contracts: its matrix and its singularity flag.
pub struct ArithState {
    pub m: Bilinear,
    pub singular: bool,
}

impl ArithState {
    /// The term that the unit egests in this state and the singularity flag
    /// that it leaves.  The first rule that applies wins.
    pub open spec fn decide(self) -> (Term, bool) {
        let m = self.m;
        if m.is_zero() {
            (Term::Undefined, self.singular)
        } else if m.is_infinite() {
            if m.all_negative() {
                (Term::Neg, self.singular)
            } else {
                (Term::Inf, self.singular)
            }
        } else if m.well_defined() {
            if m.all_negative() {
                (Term::Neg, false)
            } else if m.every_corner(|q: Fraction| q.at_least_two()) {
                (Term::Ord, false)
            } else if m.every_corner(|q: Fraction| q.from_one_to_two()) {
                (Term::DRec, false)
            } else if m.every_corner(|q: Fraction| q.below_one()) {
                (Term::Rec, false)
            } else if m.every_corner(|q: Fraction| q.between_one_and_four()) {
                (Term::Ord, false)
            } else if m.every_corner(|q: Fraction| q.between_half_and_two()) {
                (Term::DRec, true)
            } else {
                (Term::Empty, false)
            }
        } else if (!self.singular || MORE_AGGRESSIVE) && m.every_corner(
            |q: Fraction| q.magnitude_below_one(),
        ) {
            (Term::Rec, true)
        } else if (self.singular || MORE_AGGRESSIVE) && m.every_corner(
            |q: Fraction| q.magnitude_at_least_two(),
        ) {
            (Term::Ord, self.singular)
        } else {
            (Term::Empty, self.singular)
        }
    }

    pub open spec fn ingest_x(self, t: Term) -> ArithState {
        ArithState { m: self.m.ingest_x(t), ..self }
    }

    pub open spec fn ingest_y(self, t: Term) -> ArithState {
        ArithState { m: self.m.ingest_y(t), ..self }
    }

    /// The state after one egestion.
    pub open spec fn egest_z(self) -> ArithState {
        ArithState { m: self.m.egest(self.decide().0), singular: self.decide().1 }
    }
}

/// The bilinear transducer.  `mat` holds the coefficients `[a, .., h]` of
/// `(a*x*y + b*x + c*y + d) / (e*x*y + f*x + g*y + h)`, a function of what is
/// left of its two input streams.
#[derive(Debug)]
pub struct Arith {
    pub mat: [BigInt; 8],
    /// Set while the unit has speculated across a pole and not yet recovered.
    pub singularity: bool,
}

impl View for Arith {
    type V = ArithState;

    open spec fn view(&self) -> ArithState {
        ArithState { m: self.coeffs(), singular: self.in_singularity() }
    }
}

impl Arith {
    /// The coefficients as integers.
    pub open spec fn coeffs(&self) -> Bilinear {
        bilinear_of(self.mat)
    }

    /// Whether the unit has speculated across a pole and not yet recovered.
    pub open spec fn in_singularity(&self) -> bool {
        self.singularity
    }

    /// A unit that starts from the given matrix, outside the singularity.
    pub fn create(mat: [BigInt; 8]) -> (r: Self)
        ensures
            r.mat == mat,
            !r.in_singularity(),
    {
        Self { mat, singularity: false }
    }

    /// Factors a term of the result out of the matrix, whatever the matrix
    /// says about that term.
    pub fn egest(&mut self, term: Term)
        ensures
            final(self).coeffs() == old(self).coeffs().egest(term),
            final(self).in_singularity() == old(self).in_singularity(),
    {
        egest_from(&mut self.mat, term);
    }
}

/// Factors a term of the result out of a matrix of eight coefficients.
pub(crate) fn egest_from(m: &mut [BigInt; 8], term: Term)
    ensures
        bilinear_of(*final(m)) == bilinear_of(*old(m)).egest(term),
{
    match term {
        Term::Empty | Term::Inf => {},
        Term::Ord => {
            if !is_odd(&m[0]) && !is_odd(&m[1]) && !is_odd(&m[2]) && !is_odd(&m[3]) {
                halve_at(m, 0);
                halve_at(m, 1);
                halve_at(m, 2);
                halve_at(m, 3);
            } else {
                double_at(m, 4);
                double_at(m, 5);
                double_at(m, 6);
                double_at(m, 7);
            }
        },
        Term::DRec => {
            sub_at(m, 0, 4);
            sub_at(m, 1, 5);
            sub_at(m, 2, 6);
            sub_at(m, 3, 7);
            m.swap(0, 4);
            m.swap(1, 5);
            m.swap(2, 6);
            m.swap(3, 7);
        },
        Term::Rec => {
            m.swap(0, 4);
            m.swap(1, 5);
            m.swap(2, 6);
            m.swap(3, 7);
        },
        Term::Neg => {
            negate_at(m, 0);
            negate_at(m, 1);
            negate_at(m, 2);
            negate_at(m, 3);
        },
        Term::Undefined => {
            clear_all(m);
        },
    }
}

/// A copy of a matrix of eight coefficients.
pub(crate) fn clone_matrix(m: &[BigInt; 8]) -> (r: [BigInt; 8])
    ensures
        bilinear_of(r) == bilinear_of(*m),
{
    [
        big_clone(&m[0]),
        big_clone(&m[1]),
        big_clone(&m[2]),
        big_clone(&m[3]),
        big_clone(&m[4]),
        big_clone(&m[5]),
        big_clone(&m[6]),
        big_clone(&m[7]),
    ]
}

/// The matrix with the given small coefficients.
pub(crate) fn matrix_of(v: [i64; 8]) -> (r: [BigInt; 8])
    ensures
        bilinear_of(r) == (Bilinear {
            a: v@[0] as int,
            b: v@[1] as int,
            c: v@[2] as int,
            d: v@[3] as int,
            e: v@[4] as int,
            f: v@[5] as int,
            g: v@[6] as int,
            h: v@[7] as int,
        }),
{
    [
        big_from(v[0]),
        big_from(v[1]),
        big_from(v[2]),
        big_from(v[3]),
        big_from(v[4]),
        big_from(v[5]),
        big_from(v[6]),
        big_from(v[7]),
    ]
}

/// Overwrites all eight coefficients with zero.
pub(crate) fn clear_all(m: &mut [BigInt; 8])
    ensures
        bilinear_of(*final(m)) == Bilinear::zero(),
{
    clear_at(m, 0);
    clear_at(m, 1);
    clear_at(m, 2);
    clear_at(m, 3);
    clear_at(m, 4);
    clear_at(m, 5);
    clear_at(m, 6);
    clear_at(m, 7);
}

/// Consumes a term of `x` into a matrix of eight coefficients.
pub(crate) fn ingest_x_into(m: &mut [BigInt; 8], x: Term)
    ensures
        bilinear_of(*final(m)) == bilinear_of(*old(m)).ingest_x(x),
{
    match x {
        Term::Empty => {},
        Term::Ord => {
            if !is_odd(&m[2]) && !is_odd(&m[3]) && !is_odd(&m[6]) && !is_odd(&m[7]) {
                halve_at(m, 2);
                halve_at(m, 3);
                halve_at(m, 6);
                halve_at(m, 7);
            } else {
                double_at(m, 0);
                double_at(m, 1);
                double_at(m, 4);
                double_at(m, 5);
            }
        },
        Term::DRec => {
            m.swap(0, 2);
            m.swap(1, 3);
            m.swap(4, 6);
            m.swap(5, 7);
            add_at(m, 0, 2);
            add_at(m, 1, 3);
            add_at(m, 4, 6);
            add_at(m, 5, 7);
        },
        Term::Rec => {
            m.swap(0, 2);
            m.swap(1, 3);
            m.swap(4, 6);
            m.swap(5, 7);
        },
        Term::Neg => {
            negate_at(m, 0);
            negate_at(m, 1);
            negate_at(m, 4);
            negate_at(m, 5);
        },
        Term::Inf => {
            copy_at(m, 2, 0);
            copy_at(m, 3, 1);
            copy_at(m, 6, 4);
            copy_at(m, 7, 5);
        },
        Term::Undefined => {
            clear_all(m);
        },
    }
}

/// Consumes a term of `y` into a matrix of eight coefficients.
pub(crate) fn ingest_y_into(m: &mut [BigInt; 8], y: Term)
    ensures
        bilinear_of(*final(m)) == bilinear_of(*old(m)).ingest_y(y),
{
    match y {
        Term::Empty => {},
        Term::Ord => {
            if !is_odd(&m[1]) && !is_odd(&m[3]) && !is_odd(&m[5]) && !is_odd(&m[7]) {
                halve_at(m, 1);
                halve_at(m, 3);
                halve_at(m, 5);
                halve_at(m, 7);
            } else {
                double_at(m, 0);
                double_at(m, 2);
                double_at(m, 4);
                double_at(m, 6);
            }
        },
        Term::DRec => {
            m.swap(0, 1);
            m.swap(2, 3);
            m.swap(4, 5);
            m.swap(6, 7);
            add_at(m, 0, 1);
            add_at(m, 2, 3);
            add_at(m, 4, 5);
            add_at(m, 6, 7);
        },
        Term::Rec => {
            m.swap(0, 1);
            m.swap(2, 3);
            m.swap(4, 5);
            m.swap(6, 7);
        },
        Term::Neg => {
            negate_at(m, 0);
            negate_at(m, 2);
            negate_at(m, 4);
            negate_at(m, 6);
        },
        Term::Inf => {
            copy_at(m, 1, 0);
            copy_at(m, 3, 2);
            copy_at(m, 5, 4);
            copy_at(m, 7, 6);
        },
        Term::Undefined => {
            clear_all(m);
        },
    }
}

impl Unit for Arith {
    open spec fn wf(&self) -> bool {
        true
    }

    fn ingest_x(&mut self, x: Term)
        ensures
            final(self)@ == old(self)@.ingest_x(x),
    {
        ingest_x_into(&mut self.mat, x);
    }

    fn ingest_y(&mut self, y: Term)
        ensures
            final(self)@ == old(self)@.ingest_y(y),
    {
        ingest_y_into(&mut self.mat, y);
    }

    fn egest_z(&mut self) -> (z: Term)
        ensures
            z == old(self)@.decide().0,
            final(self)@ == old(self)@.egest_z(),
            z == Term::Undefined <==> old(self).coeffs().is_zero(),
    {
        let ghost m = self.coeffs();
        let mut n0 = big_clone(&self.mat[0]);
        let mut n1 = big_add(&self.mat[0], &self.mat[1]);
        let mut n2 = big_add(&self.mat[0], &self.mat[2]);
        let n12 = big_add(&n1, &self.mat[2]);
        let mut n3 = big_add(&n12, &self.mat[3]);
        let mut d0 = big_clone(&self.mat[4]);
        let mut d1 = big_add(&self.mat[4], &self.mat[5]);
        let mut d2 = big_add(&self.mat[4], &self.mat[6]);
        let d12 = big_add(&d1, &self.mat[6]);
        let mut d3 = big_add(&d12, &self.mat[7]);
        let s0 = rationalize(&mut n0, &mut d0);
        let s1 = rationalize(&mut n1, &mut d1);
        let s2 = rationalize(&mut n2, &mut d2);
        let s3 = rationalize(&mut n3, &mut d3);
        assert(fraction_of(n0, d0) == m.corner(0));
        assert(fraction_of(n1, d1) == m.corner(1));
        assert(fraction_of(n2, d2) == m.corner(2));
        assert(fraction_of(n3, d3) == m.corner(3));
        let some_plus = s0 == Sign::Plus || s1 == Sign::Plus || s2 == Sign::Plus || s3
            == Sign::Plus;
        let some_minus = s0 == Sign::Minus || s1 == Sign::Minus || s2 == Sign::Minus || s3
            == Sign::Minus;
        let all_minus = s0 == Sign::Minus && s1 == Sign::Minus && s2 == Sign::Minus && s3
            == Sign::Minus;
        let z0 = is_zero(&d0);
        let z1 = is_zero(&d1);
        let z2 = is_zero(&d2);
        let z3 = is_zero(&d3);
        let well_defined = !(some_plus && some_minus) && (!(z0 || z1 || z2 || z3)
            || MORE_AGGRESSIVE);
        assert(well_defined == m.well_defined());
        assert(all_minus == m.all_negative());

        if all_zero(&self.mat) {
            assert(m.is_zero());
            return Term::Undefined;
        }
        assert(!m.is_zero()) by {
            if m.is_zero() {
                assert forall|i: int| 0 <= i < 8 implies int_of(#[trigger] self.mat@[i]) == 0 by {}
            }
        }

        if z0 && z1 && z2 && z3 && !is_zero(&n0) && !is_zero(&n1) && !is_zero(&n2) && !is_zero(
            &n3,
        ) {
            assert(m.is_infinite());
            if all_minus {
                negate_at(&mut self.mat, 0);
                negate_at(&mut self.mat, 1);
                negate_at(&mut self.mat, 2);
                negate_at(&mut self.mat, 3);
                return Term::Neg;
            }
            return Term::Inf;
        }
        assert(!m.is_infinite());

        if well_defined {
            self.singularity = false;
            if all_minus {
                self.egest(Term::Neg);
                return Term::Neg;
            } else if at_least_two(&n0, &d0) && at_least_two(&n1, &d1) && at_least_two(&n2, &d2)
                && at_least_two(&n3, &d3) {
                self.egest(Term::Ord);
                return Term::Ord;
            } else if from_one_to_two(&n0, &d0) && from_one_to_two(&n1, &d1) && from_one_to_two(
                &n2,
                &d2,
            ) && from_one_to_two(&n3, &d3) {
                self.egest(Term::DRec);
                return Term::DRec;
            } else if below_one(&n0, &d0) && below_one(&n1, &d1) && below_one(&n2, &d2)
                && below_one(&n3, &d3) {
                self.egest(Term::Rec);
                return Term::Rec;
            } else if between_one_and_four(&n0, &d0) && between_one_and_four(&n1, &d1)
                && between_one_and_four(&n2, &d2) && between_one_and_four(&n3, &d3) {
                self.egest(Term::Ord);
                return Term::Ord;
            } else if between_half_and_two(&n0, &d0) && between_half_and_two(&n1, &d1)
                && between_half_and_two(&n2, &d2) && between_half_and_two(&n3, &d3) {
                self.egest(Term::DRec);
                self.singularity = true;
                return Term::DRec;
            }
        } else {
            if (!self.singularity || MORE_AGGRESSIVE) && magnitude_below_one(&n0, &d0)
                && magnitude_below_one(&n1, &d1) && magnitude_below_one(&n2, &d2)
                && magnitude_below_one(&n3, &d3) {
                self.egest(Term::Rec);
                self.singularity = true;
                return Term::Rec;
            }
            if self.singularity || MORE_AGGRESSIVE {
                if magnitude_at_least_two(&n0, &d0) && magnitude_at_least_two(&n1, &d1)
                    && magnitude_at_least_two(&n2, &d2) && magnitude_at_least_two(&n3, &d3) {
                    self.egest(Term::Ord);
                    return Term::Ord;
                }
            }
        }
        Term::Empty
    }
}

} // verus!
