//! The linear-fractional unit: a transducer of one stream, and the place
//! where a stream is read back as a pair of rational bounds.
use vstd::prelude::*;
use vstd::arithmetic::power2::pow2;
use num_bigint::BigInt;
use crate::bigint::{
    big_abs, big_add, big_checked_div, big_clone, big_eq, big_from, big_lt, big_mul, big_neg,
    big_shr, big_sub, big_trailing_zeros, double, int_of, is_negative, is_odd, is_zero,
    trailing_zeros, trunc_div,
};
use crate::matrix::{add_at, all_zero, clear_at, copy_at, double_at, halve_at, negate_at, sub_at};
use crate::unit::arith::MORE_AGGRESSIVE;
use crate::unit::rounding::{
    ceil_div, ceil_from_trunc, floor_div, floor_from_trunc, nearest_from_trunc, round_div,
};
use crate::unit::Unit;
use crate::{at_least_two, below_one, fraction_of, from_one_to_two, rationalize, Fraction, Term};

verus! {

/// The four coefficients of `(a*y + b) / (c*y + d)`.
pub struct Mobius {
    pub a: int,
    pub b: int,
    pub c: int,
    pub d: int,
}

/// The coefficients that an array of four integers holds, in order.
pub open spec fn mobius_of(m: [BigInt; 4]) -> Mobius {
    Mobius { a: int_of(m@[0]), b: int_of(m@[1]), c: int_of(m@[2]), d: int_of(m@[3]) }
}

/// A fraction as `intervals` reports it: negated when both parts are
/// negative, and with the powers of two that both parts share shifted out.
pub open spec fn pretty(n: int, d: int) -> (int, int) {
    let g = if trailing_zeros(n) < trailing_zeros(d) {
        trailing_zeros(n)
    } else {
        trailing_zeros(d)
    };
    if n < 0 && d < 0 {
        ((-n) / (pow2(g) as int), (-d) / (pow2(g) as int))
    } else {
        (n / (pow2(g) as int), d / (pow2(g) as int))
    }
}

/// Whether an optional integer holds the given optional value.
pub open spec fn holds(r: Option<BigInt>, v: Option<int>) -> bool {
    match r {
        Some(x) => v == Some(int_of(x)),
        None => v is None,
    }
}

impl Mobius {
    pub open spec fn identity() -> Mobius {
        Mobius { a: 1, b: 0, c: 0, d: 1 }
    }

    pub open spec fn zero() -> Mobius {
        Mobius { a: 0, b: 0, c: 0, d: 0 }
    }

    /// All four coefficients are zero: the value is undefined.
    pub open spec fn is_undefined(self) -> bool {
        self == Mobius::zero()
    }

    /// Both denominators are zero, the numerators are not both zero.
    pub open spec fn is_inf(self) -> bool {
        self.c == 0 && self.d == 0 && !(self.a == 0 && self.b == 0)
    }

    /// Both numerators are zero, the denominators are not both zero.
    pub open spec fn is_zero(self) -> bool {
        self.a == 0 && self.b == 0 && !(self.c == 0 && self.d == 0)
    }

    /// At neither endpoint do numerator and denominator differ in sign.
    pub open spec fn is_nonnegative(self) -> bool {
        ((self.a < 0) == (self.c < 0)) && ((self.a + self.b < 0) == (self.c + self.d < 0))
    }

    /// At both endpoints numerator and denominator differ in sign, or the
    /// numerator is zero.
    pub open spec fn is_nonpositive(self) -> bool {
        ((self.a < 0) != (self.c < 0) || self.a == 0) && ((self.a + self.b < 0) != (self.c
            + self.d < 0) || (self.a == 0 && self.b == 0))
    }

    /// Nonnegative, with both numerators nonzero.
    pub open spec fn is_positive(self) -> bool {
        self.a != 0 && self.a + self.b != 0 && self.is_nonnegative()
    }

    /// Both numerators are nonzero and differ in sign from their denominators.
    pub open spec fn is_negative(self) -> bool {
        self.a != 0 && self.a + self.b != 0 && ((self.a < 0) != (self.c < 0)) && ((self.a + self.b
            < 0) != (self.c + self.d < 0))
    }

    /// The value at `y = oo`.
    pub open spec fn hi(self) -> Fraction {
        Fraction::of(self.a, self.c)
    }

    /// The value at `y = 1`.
    pub open spec fn lo(self) -> Fraction {
        Fraction::of(self.a + self.b, self.c + self.d)
    }

    /// The two endpoints as `intervals` reports them: first `y = oo`, then
    /// `y = 1`.
    pub open spec fn intervals(self) -> ((int, int), (int, int)) {
        (pretty(self.a, self.c), pretty(self.a + self.b, self.c + self.d))
    }

    /// The matrix after one term of the input was consumed.
    pub open spec fn ingest(self, t: Term) -> Mobius {
        match t {
            Term::Empty => self,
            Term::Ord => if self.b % 2 == 0 && self.d % 2 == 0 {
                Mobius { b: self.b / 2, d: self.d / 2, ..self }
            } else {
                Mobius { a: 2 * self.a, c: 2 * self.c, ..self }
            },
            Term::DRec => Mobius { a: self.a + self.b, b: self.a, c: self.c + self.d, d: self.c },
            Term::Rec => Mobius { a: self.b, b: self.a, c: self.d, d: self.c },
            Term::Neg => Mobius { a: -self.a, c: -self.c, ..self },
            Term::Inf => Mobius { b: self.a, d: self.c, ..self },
            Term::Undefined => Mobius::zero(),
        }
    }

    /// The matrix after a term of the result was factored out of it.
    pub open spec fn egest(self, t: Term) -> Mobius {
        match t {
            Term::Empty => self,
            Term::Inf => self,
            Term::Ord => if self.a % 2 == 0 && self.b % 2 == 0 {
                Mobius { a: self.a / 2, b: self.b / 2, ..self }
            } else {
                Mobius { c: 2 * self.c, d: 2 * self.d, ..self }
            },
            Term::DRec => Mobius { a: self.c, b: self.d, c: self.a - self.c, d: self.b - self.d },
            Term::Rec => Mobius { a: self.c, b: self.d, c: self.a, d: self.b },
            Term::Neg => Mobius { a: -self.a, b: -self.b, ..self },
            Term::Undefined => Mobius::zero(),
        }
    }

    /// The numerators of the two endpoints agree on being negative, and
    /// (unless `MORE_AGGRESSIVE`) neither denominator is zero.
    pub open spec fn well_defined(self) -> bool {
        &&& (self.hi().n < 0) == (self.lo().n < 0)
        &&& (!(self.hi().d == 0 || self.lo().d == 0) || MORE_AGGRESSIVE)
    }

    /// The term that both endpoints agree on; the first rule that applies
    /// wins, and `Term::Empty` is left when none does.
    pub open spec fn decide(self) -> Term {
        if self.is_undefined() {
            Term::Undefined
        } else if self.is_inf() {
            if self.a < 0 || self.b < 0 {
                Term::Neg
            } else {
                Term::Inf
            }
        } else if self.well_defined() {
            if self.hi().n < 0 && self.lo().n < 0 {
                Term::Neg
            } else if self.hi().at_least_two() && self.lo().at_least_two() {
                Term::Ord
            } else if self.hi().from_one_to_two() && self.lo().from_one_to_two() {
                Term::DRec
            } else if self.hi().below_one() && self.lo().below_one() {
                Term::Rec
            } else {
                Term::Empty
            }
        } else {
            Term::Empty
        }
    }

    /// The integer on which both endpoints agree when rounded towards zero.
    pub open spec fn trunc(self) -> Option<int> {
        let ((n1, d1), (n2, d2)) = self.intervals();
        if d1 == 0 || d2 == 0 {
            None
        } else if trunc_div(n1, d1) == trunc_div(n2, d2) {
            Some(trunc_div(n1, d1))
        } else {
            None
        }
    }

    /// The largest integer not above the value, where that is the same at
    /// both endpoints; none where an endpoint has a zero denominator or the
    /// endpoints differ.
    pub open spec fn floor(self) -> Option<int> {
        let ((n1, d1), (n2, d2)) = self.intervals();
        if d1 == 0 || d2 == 0 {
            None
        } else if floor_div(n1, d1) == floor_div(n2, d2) {
            Some(floor_div(n1, d1))
        } else {
            None
        }
    }

    /// The smallest integer not below the value, where that is the same at
    /// both endpoints; none where an endpoint has a zero denominator or the
    /// endpoints differ.
    pub open spec fn ceil(self) -> Option<int> {
        let ((n1, d1), (n2, d2)) = self.intervals();
        if d1 == 0 || d2 == 0 {
            None
        } else if ceil_div(n1, d1) == ceil_div(n2, d2) {
            Some(ceil_div(n1, d1))
        } else {
            None
        }
    }

    /// The integer nearest to the value, a tie going to the even one, where
    /// that is the same at both endpoints; none where an endpoint has a zero
    /// denominator or the endpoints differ.
    pub open spec fn round(self) -> Option<int> {
        let ((n1, d1), (n2, d2)) = self.intervals();
        if d1 == 0 || d2 == 0 {
            None
        } else if round_div(n1, d1) == round_div(n2, d2) {
            Some(round_div(n1, d1))
        } else {
            None
        }
    }
}

/// Consuming `Neg` twice leaves the matrix as it was.
pub proof fn neg_twice_is_identity(m: Mobius)
    ensures
        m.ingest(Term::Neg).ingest(Term::Neg) == m,
{
}

/// Consuming `Rec` twice leaves the matrix as it was.
pub proof fn rec_twice_is_identity(m: Mobius)
    ensures
        m.ingest(Term::Rec).ingest(Term::Rec) == m,
{
}

/// The undefined value absorbs: whatever the zero matrix consumes, it stays
/// the zero matrix, it egests `Undefined`, and egestion leaves it as it is.
/// No other matrix egests `Undefined`.
pub proof fn undefined_is_absorbing(m: Mobius, t: Term)
    ensures
        m.is_undefined() ==> m.ingest(t).is_undefined(),
        m.is_undefined() ==> m.decide() == Term::Undefined && m.egest(m.decide()) == m,
        m.decide() == Term::Undefined ==> m.is_undefined(),
{
}

/// What an `Lft` is to its contracts.
pub struct LftState {
    pub m: Mobius,
    pub egest_enabled: bool,
}

impl LftState {
    /// The term that the unit egests in this state.
    pub open spec fn decide(self) -> Term {
        if self.egest_enabled {
            self.m.decide()
        } else {
            Term::Empty
        }
    }

    pub open spec fn ingest_x(self, t: Term) -> LftState {
        LftState { m: self.m.ingest(t), ..self }
    }

    pub open spec fn egest_z(self) -> LftState {
        LftState { m: self.m.egest(self.decide()), ..self }
    }
}

/// The linear-fractional transducer.  `mat` holds `[a, b, c, d]` of
/// `(a*y + b) / (c*y + d)`, a function of what is left of its input stream.
/// With `egest_enabled` off it only accumulates, and its endpoints bound the
/// value of the stream it has read.
#[derive(Debug)]
pub struct Lft {
    pub mat: [BigInt; 4],
    pub egest_enabled: bool,
}

impl View for Lft {
    type V = LftState;

    open spec fn view(&self) -> LftState {
        LftState { m: mobius_of(self.mat), egest_enabled: self.egest_enabled }
    }
}

fn prettify(a: BigInt, b: BigInt) -> (r: (BigInt, BigInt))
    ensures
        (int_of(r.0), int_of(r.1)) == pretty(int_of(a), int_of(b)),
{
    let za = match big_trailing_zeros(&a) {
        Some(k) => k,
        None => 0,
    };
    let zb = match big_trailing_zeros(&b) {
        Some(k) => k,
        None => 0,
    };
    let g = if za < zb {
        za
    } else {
        zb
    };
    if is_negative(&a) && is_negative(&b) {
        let na = big_neg(&a);
        let nb = big_neg(&b);
        (big_shr(&na, g), big_shr(&nb, g))
    } else {
        (big_shr(&a, g), big_shr(&b, g))
    }
}

/// Overwrites all four coefficients with zero.
pub(crate) fn clear_four(m: &mut [BigInt; 4])
    ensures
        mobius_of(*final(m)) == Mobius::zero(),
{
    clear_at(m, 0);
    clear_at(m, 1);
    clear_at(m, 2);
    clear_at(m, 3);
}

/// Factors a term of the result out of a matrix of four coefficients.
pub(crate) fn egest_from(m: &mut [BigInt; 4], t: Term)
    ensures
        mobius_of(*final(m)) == mobius_of(*old(m)).egest(t),
{
    match t {
        Term::Empty | Term::Inf => {},
        Term::Ord => {
            if !is_odd(&m[0]) && !is_odd(&m[1]) {
                halve_at(m, 0);
                halve_at(m, 1);
            } else {
                double_at(m, 2);
                double_at(m, 3);
            }
        },
        Term::DRec => {
            sub_at(m, 0, 2);
            sub_at(m, 1, 3);
            m.swap(0, 2);
            m.swap(1, 3);
        },
        Term::Rec => {
            m.swap(0, 2);
            m.swap(1, 3);
        },
        Term::Neg => {
            negate_at(m, 0);
            negate_at(m, 1);
        },
        Term::Undefined => {
            clear_four(m);
        },
    }
}

/// Decides the next term of a matrix of four coefficients and factors it
/// out.
pub(crate) fn egest_decided(m: &mut [BigInt; 4]) -> (z: Term)
    ensures
        z == mobius_of(*old(m)).decide(),
        mobius_of(*final(m)) == mobius_of(*old(m)).egest(z),
{
    let ghost v = mobius_of(*m);
    if all_zero(m) {
        assert(v.is_undefined());
        return Term::Undefined;
    }
    assert(!v.is_undefined()) by {
        if v.is_undefined() {
            assert forall|i: int| 0 <= i < 4 implies int_of(#[trigger] m@[i]) == 0 by {}
        }
    }
    if is_zero(&m[2]) && is_zero(&m[3]) && !(is_zero(&m[0]) && is_zero(&m[1])) {
        if is_negative(&m[0]) || is_negative(&m[1]) {
            egest_from(m, Term::Neg);
            return Term::Neg;
        }
        return Term::Inf;
    }
    let mut n0 = big_clone(&m[0]);
    let mut n1 = big_add(&m[0], &m[1]);
    let mut d0 = big_clone(&m[2]);
    let mut d1 = big_add(&m[2], &m[3]);
    let _ = rationalize(&mut n0, &mut d0);
    let _ = rationalize(&mut n1, &mut d1);
    assert(fraction_of(n0, d0) == v.hi());
    assert(fraction_of(n1, d1) == v.lo());
    let nums_agreed = is_negative(&n0) == is_negative(&n1);
    let dens_agreed = is_negative(&d0) == is_negative(&d1);
    let den_zeros = is_zero(&d0) || is_zero(&d1);
    let well_defined = nums_agreed && dens_agreed && (!den_zeros || MORE_AGGRESSIVE);
    assert(well_defined == v.well_defined());
    if well_defined {
        if is_negative(&n0) && is_negative(&n1) {
            egest_from(m, Term::Neg);
            return Term::Neg;
        } else if at_least_two(&n0, &d0) && at_least_two(&n1, &d1) {
            egest_from(m, Term::Ord);
            return Term::Ord;
        } else if from_one_to_two(&n0, &d0) && from_one_to_two(&n1, &d1) {
            egest_from(m, Term::DRec);
            return Term::DRec;
        } else if below_one(&n0, &d0) && below_one(&n1, &d1) {
            egest_from(m, Term::Rec);
            return Term::Rec;
        }
    }
    Term::Empty
}

/// Consumes a term of the input into a matrix of four coefficients.
pub(crate) fn ingest_into(m: &mut [BigInt; 4], x: Term)
    ensures
        mobius_of(*final(m)) == mobius_of(*old(m)).ingest(x),
{
    match x {
        Term::Empty => {},
        Term::Ord => {
            if !is_odd(&m[1]) && !is_odd(&m[3]) {
                halve_at(m, 1);
                halve_at(m, 3);
            } else {
                double_at(m, 0);
                double_at(m, 2);
            }
        },
        Term::DRec => {
            m.swap(0, 1);
            m.swap(2, 3);
            add_at(m, 0, 1);
            add_at(m, 2, 3);
        },
        Term::Rec => {
            m.swap(0, 1);
            m.swap(2, 3);
        },
        Term::Neg => {
            negate_at(m, 0);
            negate_at(m, 2);
        },
        Term::Inf => {
            copy_at(m, 1, 0);
            copy_at(m, 3, 2);
        },
        Term::Undefined => {
            clear_four(m);
        },
    }
}

impl Lft {
    /// The unit that passes its input through: `y / 1`.
    pub fn identity() -> (r: Self)
        ensures
            r@.m == Mobius::identity(),
            r@.egest_enabled,
    {
        Self { mat: [big_from(1), big_from(0), big_from(0), big_from(1)], egest_enabled: true }
    }

    /// Whether the value is undefined at both endpoints.
    pub fn is_undefined(&self) -> (r: bool)
        ensures
            r == self@.m.is_undefined(),
    {
        let r = all_zero(&self.mat);
        proof {
            if self@.m.is_undefined() {
                assert forall|i: int| 0 <= i < 4 implies int_of(#[trigger] self.mat@[i]) == 0 by {}
            }
        }
        r
    }

    /// Whether the value is infinite at both endpoints.
    pub fn is_inf(&self) -> (r: bool)
        ensures
            r == self@.m.is_inf(),
    {
        is_zero(&self.mat[2]) && is_zero(&self.mat[3]) && !(is_zero(&self.mat[0]) && is_zero(
            &self.mat[1],
        ))
    }

    /// Whether the value is zero at both endpoints.
    pub fn is_zero(&self) -> (r: bool)
        ensures
            r == self@.m.is_zero(),
    {
        is_zero(&self.mat[0]) && is_zero(&self.mat[1]) && !(is_zero(&self.mat[2]) && is_zero(
            &self.mat[3],
        ))
    }

    /// Whether neither endpoint is negative.
    pub fn is_nonnegative(&self) -> (r: bool)
        ensures
            r == self@.m.is_nonnegative(),
    {
        let n1 = big_add(&self.mat[0], &self.mat[1]);
        let d1 = big_add(&self.mat[2], &self.mat[3]);
        (is_negative(&self.mat[0]) == is_negative(&self.mat[2])) && (is_negative(&n1)
            == is_negative(&d1))
    }

    /// Whether neither endpoint is positive.
    pub fn is_nonpositive(&self) -> (r: bool)
        ensures
            r == self@.m.is_nonpositive(),
    {
        let n1 = big_add(&self.mat[0], &self.mat[1]);
        let d1 = big_add(&self.mat[2], &self.mat[3]);
        (is_negative(&self.mat[0]) != is_negative(&self.mat[2]) || is_zero(&self.mat[0])) && (
        is_negative(&n1) != is_negative(&d1) || (is_zero(&self.mat[0]) && is_zero(&self.mat[1])))
    }

    /// Whether both endpoints are positive.
    pub fn is_positive(&self) -> (r: bool)
        ensures
            r == self@.m.is_positive(),
    {
        let n1 = big_add(&self.mat[0], &self.mat[1]);
        let d1 = big_add(&self.mat[2], &self.mat[3]);
        !is_zero(&self.mat[0]) && !is_zero(&n1) && (is_negative(&self.mat[0]) == is_negative(
            &self.mat[2],
        )) && (is_negative(&n1) == is_negative(&d1))
    }

    /// Whether both endpoints are negative.
    pub fn is_negative(&self) -> (r: bool)
        ensures
            r == self@.m.is_negative(),
    {
        let n1 = big_add(&self.mat[0], &self.mat[1]);
        let d1 = big_add(&self.mat[2], &self.mat[3]);
        !is_zero(&self.mat[0]) && !is_zero(&n1) && (is_negative(&self.mat[0]) != is_negative(
            &self.mat[2],
        )) && (is_negative(&n1) != is_negative(&d1))
    }

    /// The two endpoints of the value, each as numerator and denominator:
    /// first at `y = oo`, then at `y = 1`.  Common powers of two are removed
    /// and a fraction of two negatives is negated; no other reduction is made.
    pub fn intervals(&self) -> (r: ((BigInt, BigInt), (BigInt, BigInt)))
        ensures
            ((int_of(r.0.0), int_of(r.0.1)), (int_of(r.1.0), int_of(r.1.1)))
                == self@.m.intervals(),
    {
        let n1 = big_add(&self.mat[0], &self.mat[1]);
        let d1 = big_add(&self.mat[2], &self.mat[3]);
        (prettify(big_clone(&self.mat[0]), big_clone(&self.mat[2])), prettify(n1, d1))
    }

    /// The integer part of the value, if both endpoints have the same and
    /// neither has a zero denominator.
    pub fn trunc(&self) -> (r: Option<BigInt>)
        ensures
            holds(r, self@.m.trunc()),
    {
        let ((n1, d1), (n2, d2)) = self.intervals();
        let c1 = match big_checked_div(&n1, &d1) {
            Some(c) => c,
            None => { return None; },
        };
        let c2 = match big_checked_div(&n2, &d2) {
            Some(c) => c,
            None => { return None; },
        };
        if big_eq(&c1, &c2) {
            Some(c1)
        } else {
            None
        }
    }

    /// The largest integer not above the value, if both endpoints agree on
    /// it.
    pub fn floor(&self) -> (r: Option<BigInt>)
        ensures
            holds(r, self@.m.floor()),
    {
        let ((n1, d1), (n2, d2)) = self.intervals();
        let f1 = match floor_of(&n1, &d1) {
            Some(f) => f,
            None => { return None; },
        };
        let f2 = match floor_of(&n2, &d2) {
            Some(f) => f,
            None => { return None; },
        };
        if big_eq(&f1, &f2) {
            Some(f1)
        } else {
            None
        }
    }

    /// The smallest integer not below the value, if both endpoints agree on
    /// it.
    pub fn ceil(&self) -> (r: Option<BigInt>)
        ensures
            holds(r, self@.m.ceil()),
    {
        let ((n1, d1), (n2, d2)) = self.intervals();
        let f1 = match ceil_of(&n1, &d1) {
            Some(f) => f,
            None => { return None; },
        };
        let f2 = match ceil_of(&n2, &d2) {
            Some(f) => f,
            None => { return None; },
        };
        if big_eq(&f1, &f2) {
            Some(f1)
        } else {
            None
        }
    }

    /// The nearest integer, a tie going to the even one, if both endpoints
    /// agree on it.
    pub fn round(&self) -> (r: Option<BigInt>)
        ensures
            holds(r, self@.m.round()),
    {
        let ((n1, d1), (n2, d2)) = self.intervals();
        let f1 = match round_of(&n1, &d1) {
            Some(f) => f,
            None => { return None; },
        };
        let f2 = match round_of(&n2, &d2) {
            Some(f) => f,
            None => { return None; },
        };
        if big_eq(&f1, &f2) {
            Some(f1)
        } else {
            None
        }
    }
}

/// The largest integer not above `n / d`; none for a zero `d`.
fn floor_of(n: &BigInt, d: &BigInt) -> (r: Option<BigInt>)
    ensures
        holds(
            r,
            if int_of(*d) == 0 {
                None
            } else {
                Some(floor_div(int_of(*n), int_of(*d)))
            },
        ),
{
    let i = match big_checked_div(n, d) {
        Some(c) => c,
        None => { return None; },
    };
    proof {
        floor_from_trunc(int_of(*n), int_of(*d));
    }
    if big_eq(n, &big_mul(&i, d)) || is_negative(n) == is_negative(d) {
        Some(i)
    } else {
        Some(big_sub(&i, &big_from(1)))
    }
}

/// The smallest integer not below `n / d`; none for a zero `d`.
fn ceil_of(n: &BigInt, d: &BigInt) -> (r: Option<BigInt>)
    ensures
        holds(
            r,
            if int_of(*d) == 0 {
                None
            } else {
                Some(ceil_div(int_of(*n), int_of(*d)))
            },
        ),
{
    let i = match big_checked_div(n, d) {
        Some(c) => c,
        None => { return None; },
    };
    proof {
        ceil_from_trunc(int_of(*n), int_of(*d));
    }
    if big_eq(n, &big_mul(&i, d)) || is_negative(n) != is_negative(d) {
        Some(i)
    } else {
        Some(big_add(&i, &big_from(1)))
    }
}

/// The integer nearest to `n / d`, a tie going to the even one; none for a
/// zero `d`.
fn round_of(n: &BigInt, d: &BigInt) -> (r: Option<BigInt>)
    ensures
        holds(
            r,
            if int_of(*d) == 0 {
                None
            } else {
                Some(round_div(int_of(*n), int_of(*d)))
            },
        ),
{
    let i = match big_checked_div(n, d) {
        Some(c) => c,
        None => { return None; },
    };
    proof {
        nearest_from_trunc(int_of(*n), int_of(*d));
    }
    let twice_rest = double(&big_abs(&big_sub(n, &big_mul(&i, d))));
    let size = big_abs(d);
    let one = big_from(1);
    let away = if is_negative(n) != is_negative(d) {
        big_sub(&i, &one)
    } else {
        big_add(&i, &one)
    };
    if big_lt(&twice_rest, &size) {
        Some(i)
    } else if big_lt(&size, &twice_rest) {
        Some(away)
    } else if !is_odd(&i) {
        Some(i)
    } else {
        Some(away)
    }
}

impl Unit for Lft {
    open spec fn wf(&self) -> bool {
        true
    }

    fn ingest_x(&mut self, x: Term)
        ensures
            final(self)@ == old(self)@.ingest_x(x),
    {
        ingest_into(&mut self.mat, x);
    }

    /// A linear-fractional unit has no second input.
    fn ingest_y(&mut self, _y: Term)
        ensures
            final(self)@ == old(self)@,
    {
    }

    fn egest_z(&mut self) -> (z: Term)
        ensures
            z == old(self)@.decide(),
            final(self)@ == old(self)@.egest_z(),
            z == Term::Undefined <==> old(self).egest_enabled && old(self)@.m.is_undefined(),
    {
        if !self.egest_enabled {
            return Term::Empty;
        }
        egest_decided(&mut self.mat)
    }
}

} // verus!
