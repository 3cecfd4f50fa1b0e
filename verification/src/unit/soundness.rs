//! Why the units compute what they are meant to.  Every term that a matrix
//! consumes or gives off changes the matrix so that it stands for the same
//! value, now as a function of what is left of the streams; so over a whole
//! run the terms given off, followed by what the matrix still stands for,
//! are the value of the first matrix at the inputs, and a stream that has
//! ended is that value.  And what the rules of egestion find at the corners
//! of a matrix holds wherever its inputs may still be, as long as its
//! denominator does not change sign.
//!
//! A stream that starts with `Ord` and goes on as `x'` has the value `2x'`;
//! with `DRec`, `1 + 1/x'`; with `Rec`, `1/x'`; with `Neg`, `-x'`.  Values
//! are fractions here, a numerator over a denominator, and two fractions
//! are the same where one is the other with both parts multiplied by the
//! same number that is not zero.
use vstd::prelude::*;
use crate::unit::arith::{ArithState, Bilinear};
use crate::unit::lft::Mobius;
use crate::Term;

verus! {

/// The value of a stream that starts with `t`, where `p / q` is the value
/// of what follows.
pub open spec fn decoded(t: Term, p: int, q: int) -> (int, int) {
    match t {
        Term::Ord => (2 * p, q),
        Term::DRec => (p + q, p),
        Term::Rec => (q, p),
        Term::Neg => (-p, q),
        Term::Inf => (p + q, 0),
        _ => (p, q),
    }
}

/// Whether a term says something about the value of what follows it.
pub open spec fn carries_on(t: Term) -> bool {
    t == Term::Ord || t == Term::DRec || t == Term::Rec || t == Term::Neg || t == Term::Empty
}

/// Whether a term says what the value of a stream is: by what follows it,
/// or, for `Inf`, by itself.  `Inf` makes the value something over zero.
pub open spec fn tells(t: Term) -> bool {
    carries_on(t) || t == Term::Inf
}

impl Bilinear {
    /// The numerator of the value at `x = p/q`, `y = r/s`, times `q*s`.
    pub open spec fn num(self, p: int, q: int, r: int, s: int) -> int {
        self.a * (p * r) + self.b * (p * s) + self.c * (q * r) + self.d * (q * s)
    }

    /// The denominator of the value at `x = p/q`, `y = r/s`, times `q*s`.
    pub open spec fn den(self, p: int, q: int, r: int, s: int) -> int {
        self.e * (p * r) + self.f * (p * s) + self.g * (q * r) + self.h * (q * s)
    }
}

impl Mobius {
    /// The numerator of the value at `y = p/q`, times `q`.
    pub open spec fn num(self, p: int, q: int) -> int {
        self.a * p + self.b * q
    }

    /// The denominator of the value at `y = p/q`, times `q`.
    pub open spec fn den(self, p: int, q: int) -> int {
        self.c * p + self.d * q
    }
}

/// By how much both parts of the value shrink when a matrix takes up `Ord`
/// by halving.
pub open spec fn shrink(halves: bool) -> int {
    if halves {
        2
    } else {
        1
    }
}

/// By how much both parts of the value grow when `Ord` is decoded in front
/// of a matrix that gave it off.
pub open spec fn grow(t: Term) -> int {
    if t == Term::Ord {
        2
    } else {
        1
    }
}

/// After the first input gave a term, the matrix has at what follows the
/// value that it had at the whole stream.
pub proof fn ingest_x_keeps_the_value(m: Bilinear, t: Term, p: int, q: int, r: int, s: int)
    requires
        tells(t),
    ensures
        ({
            let k = shrink(
                t == Term::Ord && m.c % 2 == 0 && m.d % 2 == 0 && m.g % 2 == 0 && m.h % 2 == 0,
            );
            let x = decoded(t, p, q);
            &&& k * m.ingest_x(t).num(p, q, r, s) == m.num(x.0, x.1, r, s)
            &&& k * m.ingest_x(t).den(p, q, r, s) == m.den(x.0, x.1, r, s)
        }),
{
    let n = m.ingest_x(t);
    let pr = p * r;
    let ps = p * s;
    let qr = q * r;
    let qs = q * s;
    assert((2 * p) * r == 2 * pr && (2 * p) * s == 2 * ps) by (nonlinear_arith)
        requires
            pr == p * r,
            ps == p * s,
    ;
    assert((p + q) * r == pr + qr && (p + q) * s == ps + qs) by (nonlinear_arith)
        requires
            pr == p * r,
            ps == p * s,
            qr == q * r,
            qs == q * s,
    ;
    assert((-p) * r == -pr && (-p) * s == -ps) by (nonlinear_arith)
        requires
            pr == p * r,
            ps == p * s,
    ;
    let halves = m.c % 2 == 0 && m.d % 2 == 0 && m.g % 2 == 0 && m.h % 2 == 0;
    linear_in_the_coefficients(m.a, m.b, m.c, m.d, n.a, n.b, n.c, n.d, pr, ps, qr, qs, t, halves);
    linear_in_the_coefficients(m.e, m.f, m.g, m.h, n.e, n.f, n.g, n.h, pr, ps, qr, qs, t, halves);
    let k = shrink(t == Term::Ord && halves);
    let x = decoded(t, p, q);
    if k == 2 {
        assert(k * n.num(p, q, r, s) == 2 * n.num(p, q, r, s));
        assert(k * n.den(p, q, r, s) == 2 * n.den(p, q, r, s));
    } else {
        assert(k * n.num(p, q, r, s) == n.num(p, q, r, s));
        assert(k * n.den(p, q, r, s) == n.den(p, q, r, s));
    }
    if t == Term::Inf {
        assert(x.1 * r == 0 && x.1 * s == 0) by (nonlinear_arith)
            requires
                x.1 == 0,
        ;
        assert(m.c * 0 == 0 && m.d * 0 == 0 && m.g * 0 == 0 && m.h * 0 == 0);
    }
    assert(k * n.num(p, q, r, s) == m.num(x.0, x.1, r, s));
    assert(k * n.den(p, q, r, s) == m.den(x.0, x.1, r, s));
}

/// One row of a matrix before and after its first input gave a term,
/// weighed with any four numbers.
proof fn linear_in_the_coefficients(
    a: int,
    b: int,
    c: int,
    d: int,
    na: int,
    nb: int,
    nc: int,
    nd: int,
    pr: int,
    ps: int,
    qr: int,
    qs: int,
    t: Term,
    halves: bool,
)
    requires
        match t {
            Term::Ord => if halves {
                na == a && nb == b && c == 2 * nc && d == 2 * nd
            } else {
                na == 2 * a && nb == 2 * b && nc == c && nd == d
            },
            Term::DRec => na == a + c && nb == b + d && nc == a && nd == b,
            Term::Rec => na == c && nb == d && nc == a && nd == b,
            Term::Neg => na == -a && nb == -b && nc == c && nd == d,
            Term::Inf => na == a && nb == b && nc == a && nd == b,
            _ => na == a && nb == b && nc == c && nd == d,
        },
    ensures
        match t {
            Term::Ord => if halves {
                2 * (na * pr + nb * ps + nc * qr + nd * qs) == a * (2 * pr) + b * (2 * ps) + c * qr
                    + d * qs
            } else {
                na * pr + nb * ps + nc * qr + nd * qs == a * (2 * pr) + b * (2 * ps) + c * qr + d
                    * qs
            },
            Term::DRec => na * pr + nb * ps + nc * qr + nd * qs == a * (pr + qr) + b * (ps + qs)
                + c * pr + d * ps,
            Term::Rec => na * pr + nb * ps + nc * qr + nd * qs == a * qr + b * qs + c * pr + d
                * ps,
            Term::Neg => na * pr + nb * ps + nc * qr + nd * qs == a * (-pr) + b * (-ps) + c * qr
                + d * qs,
            Term::Inf => na * pr + nb * ps + nc * qr + nd * qs == a * (pr + qr) + b * (ps + qs),
            _ => na * pr + nb * ps + nc * qr + nd * qs == a * pr + b * ps + c * qr + d * qs,
        },
{
    assert(a * (2 * pr) == 2 * (a * pr) && b * (2 * ps) == 2 * (b * ps)) by (nonlinear_arith);
    assert((2 * a) * pr == 2 * (a * pr) && (2 * b) * ps == 2 * (b * ps)) by (nonlinear_arith);
    assert((2 * nc) * qr == 2 * (nc * qr) && (2 * nd) * qs == 2 * (nd * qs)) by (nonlinear_arith);
    assert((a + c) * pr == a * pr + c * pr && (b + d) * ps == b * ps + d * ps)
        by (nonlinear_arith);
    assert(a * (pr + qr) == a * pr + a * qr && b * (ps + qs) == b * ps + b * qs)
        by (nonlinear_arith);
    assert((-a) * pr == -(a * pr) && (-b) * ps == -(b * ps)) by (nonlinear_arith);
    assert(a * (-pr) == -(a * pr) && b * (-ps) == -(b * ps)) by (nonlinear_arith);
}

/// After the second input gave a term, the matrix has at what follows the
/// value that it had at the whole stream.
pub proof fn ingest_y_keeps_the_value(m: Bilinear, t: Term, p: int, q: int, r: int, s: int)
    requires
        tells(t),
    ensures
        ({
            let k = shrink(
                t == Term::Ord && m.b % 2 == 0 && m.d % 2 == 0 && m.f % 2 == 0 && m.h % 2 == 0,
            );
            let y = decoded(t, r, s);
            &&& k * m.ingest_y(t).num(p, q, r, s) == m.num(p, q, y.0, y.1)
            &&& k * m.ingest_y(t).den(p, q, r, s) == m.den(p, q, y.0, y.1)
        }),
{
    let n = m.ingest_y(t);
    let pr = p * r;
    let ps = p * s;
    let qr = q * r;
    let qs = q * s;
    assert(p * (2 * r) == 2 * pr && q * (2 * r) == 2 * qr) by (nonlinear_arith)
        requires
            pr == p * r,
            qr == q * r,
    ;
    assert(p * (r + s) == pr + ps && q * (r + s) == qr + qs) by (nonlinear_arith)
        requires
            pr == p * r,
            ps == p * s,
            qr == q * r,
            qs == q * s,
    ;
    assert(p * (-r) == -pr && q * (-r) == -qr) by (nonlinear_arith)
        requires
            pr == p * r,
            qr == q * r,
    ;
    let halves = m.b % 2 == 0 && m.d % 2 == 0 && m.f % 2 == 0 && m.h % 2 == 0;
    linear_in_the_coefficients(m.a, m.c, m.b, m.d, n.a, n.c, n.b, n.d, pr, qr, ps, qs, t, halves);
    linear_in_the_coefficients(m.e, m.g, m.f, m.h, n.e, n.g, n.f, n.h, pr, qr, ps, qs, t, halves);
    let k = shrink(t == Term::Ord && halves);
    let y = decoded(t, r, s);
    if k == 2 {
        assert(k * n.num(p, q, r, s) == 2 * n.num(p, q, r, s));
        assert(k * n.den(p, q, r, s) == 2 * n.den(p, q, r, s));
    } else {
        assert(k * n.num(p, q, r, s) == n.num(p, q, r, s));
        assert(k * n.den(p, q, r, s) == n.den(p, q, r, s));
    }
    if t == Term::Inf {
        assert(p * y.1 == 0 && q * y.1 == 0) by (nonlinear_arith)
            requires
                y.1 == 0,
        ;
        assert(m.b * 0 == 0 && m.d * 0 == 0 && m.f * 0 == 0 && m.h * 0 == 0);
    }
    assert(k * n.num(p, q, r, s) == m.num(p, q, y.0, y.1));
    assert(k * n.den(p, q, r, s) == m.den(p, q, y.0, y.1));
}

/// What a matrix that gave off a term has as its value, decoded behind
/// that term, is the value that the matrix had: with `n / d` the value
/// before and `n' / d'` the value after, `decoded(t, n', d')` is `n / d`,
/// both parts multiplied by 1 or 2.
pub proof fn egest_keeps_the_value(m: Bilinear, t: Term, p: int, q: int, r: int, s: int)
    requires
        carries_on(t),
    ensures
        ({
            let k = shrink(
                t == Term::Ord && m.a % 2 == 0 && m.b % 2 == 0 && m.c % 2 == 0 && m.d % 2 == 0,
            );
            let z = decoded(t, m.egest(t).num(p, q, r, s), m.egest(t).den(p, q, r, s));
            &&& k * z.0 == grow(t) * m.num(p, q, r, s)
            &&& k * z.1 == grow(t) * m.den(p, q, r, s)
        }),
{
    let n = m.egest(t);
    let pr = p * r;
    let ps = p * s;
    let qr = q * r;
    let qs = q * s;
    assert((2 * n.a) * pr == 2 * (n.a * pr) && (2 * n.b) * ps == 2 * (n.b * ps) && (2 * n.c) * qr
        == 2 * (n.c * qr) && (2 * n.d) * qs == 2 * (n.d * qs)) by (nonlinear_arith);
    assert((2 * m.e) * pr == 2 * (m.e * pr) && (2 * m.f) * ps == 2 * (m.f * ps) && (2 * m.g) * qr
        == 2 * (m.g * qr) && (2 * m.h) * qs == 2 * (m.h * qs)) by (nonlinear_arith);
    assert((m.a - m.e) * pr == m.a * pr - m.e * pr && (m.b - m.f) * ps == m.b * ps - m.f * ps && (
    m.c - m.g) * qr == m.c * qr - m.g * qr && (m.d - m.h) * qs == m.d * qs - m.h * qs)
        by (nonlinear_arith);
    assert((-m.a) * pr == -(m.a * pr) && (-m.b) * ps == -(m.b * ps) && (-m.c) * qr == -(m.c * qr)
        && (-m.d) * qs == -(m.d * qs)) by (nonlinear_arith);
}

/// The same for the matrix of one stream: after its input gave a term, it
/// has at what follows the value that it had at the whole stream.
pub proof fn lft_ingest_keeps_the_value(m: Mobius, t: Term, p: int, q: int)
    requires
        tells(t),
    ensures
        ({
            let k = shrink(t == Term::Ord && m.b % 2 == 0 && m.d % 2 == 0);
            let y = decoded(t, p, q);
            &&& k * m.ingest(t).num(p, q) == m.num(y.0, y.1)
            &&& k * m.ingest(t).den(p, q) == m.den(y.0, y.1)
        }),
{
    let n = m.ingest(t);
    assert(m.a * (2 * p) == 2 * (m.a * p) && m.c * (2 * p) == 2 * (m.c * p)) by (nonlinear_arith);
    assert((2 * m.a) * p == 2 * (m.a * p) && (2 * m.c) * p == 2 * (m.c * p)) by (nonlinear_arith);
    assert((2 * n.b) * q == 2 * (n.b * q) && (2 * n.d) * q == 2 * (n.d * q)) by (nonlinear_arith);
    assert((m.a + m.b) * p == m.a * p + m.b * p && (m.c + m.d) * p == m.c * p + m.d * p)
        by (nonlinear_arith);
    assert(m.a * (p + q) == m.a * p + m.a * q && m.c * (p + q) == m.c * p + m.c * q)
        by (nonlinear_arith);
    assert((-m.a) * p == -(m.a * p) && (-m.c) * p == -(m.c * p)) by (nonlinear_arith);
    assert(m.a * (-p) == -(m.a * p) && m.c * (-p) == -(m.c * p)) by (nonlinear_arith);
}

/// The same for the matrix of one stream: what it has as its value after
/// it gave off a term, decoded behind that term, is the value that it had.
pub proof fn lft_egest_keeps_the_value(m: Mobius, t: Term, p: int, q: int)
    requires
        carries_on(t),
    ensures
        ({
            let k = shrink(t == Term::Ord && m.a % 2 == 0 && m.b % 2 == 0);
            let z = decoded(t, m.egest(t).num(p, q), m.egest(t).den(p, q));
            &&& k * z.0 == grow(t) * m.num(p, q)
            &&& k * z.1 == grow(t) * m.den(p, q)
        }),
{
    let n = m.egest(t);
    assert((2 * n.a) * p == 2 * (n.a * p) && (2 * n.b) * q == 2 * (n.b * q)) by (nonlinear_arith);
    assert((2 * m.c) * p == 2 * (m.c * p) && (2 * m.d) * q == 2 * (m.d * q)) by (nonlinear_arith);
    assert((m.a - m.c) * p == m.a * p - m.c * p && (m.b - m.d) * q == m.b * q - m.d * q)
        by (nonlinear_arith);
    assert((-m.a) * p == -(m.a * p) && (-m.b) * q == -(m.b * q)) by (nonlinear_arith);
}

/// Whether no part of a sum of products is negative, where no factor is.
proof fn weighed(x0: int, x1: int, x2: int, x3: int, w0: int, w1: int, w2: int, w3: int)
    requires
        w0 >= 0 && w1 >= 0 && w2 >= 0 && w3 >= 0,
    ensures
        x0 >= 0 && x1 >= 0 && x2 >= 0 && x3 >= 0 ==> x0 * w0 + x1 * w1 + x2 * w2 + x3 * w3 >= 0,
        x0 > 0 && x1 > 0 && x2 > 0 && x3 > 0 && w0 + w1 + w2 + w3 > 0 ==> x0 * w0 + x1 * w1 + x2
            * w2 + x3 * w3 > 0,
{
    assert(x0 >= 0 ==> x0 * w0 >= 0) by (nonlinear_arith)
        requires
            w0 >= 0,
    ;
    assert(x1 >= 0 ==> x1 * w1 >= 0) by (nonlinear_arith)
        requires
            w1 >= 0,
    ;
    assert(x2 >= 0 ==> x2 * w2 >= 0) by (nonlinear_arith)
        requires
            w2 >= 0,
    ;
    assert(x3 >= 0 ==> x3 * w3 >= 0) by (nonlinear_arith)
        requires
            w3 >= 0,
    ;
    assert(x0 > 0 && w0 > 0 ==> x0 * w0 > 0) by (nonlinear_arith);
    assert(x1 > 0 && w1 > 0 ==> x1 * w1 > 0) by (nonlinear_arith);
    assert(x2 > 0 && w2 > 0 ==> x2 * w2 > 0) by (nonlinear_arith);
    assert(x3 > 0 && w3 > 0 ==> x3 * w3 > 0) by (nonlinear_arith);
}

/// One row of a matrix at `x = p/q`, `y = r/s` is its four corners weighed
/// with `(p-q)(r-s)`, `(p-q)s`, `q(r-s)` and `q*s`.
proof fn row_by_corners(a: int, b: int, c: int, d: int, p: int, q: int, r: int, s: int)
    ensures
        a * (p * r) + b * (p * s) + c * (q * r) + d * (q * s) == a * ((p - q) * (r - s)) + (a + b)
            * ((p - q) * s) + (a + c) * (q * (r - s)) + (a + b + c + d) * (q * s),
{
    let w0 = (p - q) * (r - s);
    let w1 = (p - q) * s;
    let w2 = q * (r - s);
    let w3 = q * s;
    assert(p * r == w0 + w1 + w2 + w3 && p * s == w1 + w3 && q * r == w2 + w3) by (nonlinear_arith)
        requires
            w0 == (p - q) * (r - s),
            w1 == (p - q) * s,
            w2 == q * (r - s),
            w3 == q * s,
    ;
    assert(a * (w0 + w1 + w2 + w3) == a * w0 + a * w1 + a * w2 + a * w3) by (nonlinear_arith);
    assert(b * (w1 + w3) == b * w1 + b * w3) by (nonlinear_arith);
    assert(c * (w2 + w3) == c * w2 + c * w3) by (nonlinear_arith);
    assert((a + b) * w1 == a * w1 + b * w1) by (nonlinear_arith);
    assert((a + c) * w2 == a * w2 + c * w2) by (nonlinear_arith);
    assert((a + b + c + d) * w3 == a * w3 + b * w3 + c * w3 + d * w3) by (nonlinear_arith);
}

/// A difference of two rows, weighed, is the difference of the rows
/// weighed.
proof fn weighed_difference(
    n0: int,
    n1: int,
    n2: int,
    n3: int,
    d0: int,
    d1: int,
    d2: int,
    d3: int,
    k: int,
    w0: int,
    w1: int,
    w2: int,
    w3: int,
)
    ensures
        (n0 - k * d0) * w0 + (n1 - k * d1) * w1 + (n2 - k * d2) * w2 + (n3 - k * d3) * w3 == (n0
            * w0 + n1 * w1 + n2 * w2 + n3 * w3) - k * (d0 * w0 + d1 * w1 + d2 * w2 + d3 * w3),
{
    assert((n0 - k * d0) * w0 == n0 * w0 - k * (d0 * w0)) by (nonlinear_arith);
    assert((n1 - k * d1) * w1 == n1 * w1 - k * (d1 * w1)) by (nonlinear_arith);
    assert((n2 - k * d2) * w2 == n2 * w2 - k * (d2 * w2)) by (nonlinear_arith);
    assert((n3 - k * d3) * w3 == n3 * w3 - k * (d3 * w3)) by (nonlinear_arith);
    assert(k * (d0 * w0 + d1 * w1 + d2 * w2 + d3 * w3) == k * (d0 * w0) + k * (d1 * w1) + k * (d2
        * w2) + k * (d3 * w3)) by (nonlinear_arith);
}

impl Bilinear {
    /// Whether the denominator is negative at none of the four corners, so
    /// that the corners are compared as they stand.
    pub open spec fn denominators_agree(self) -> bool {
        self.e >= 0 && self.e + self.f >= 0 && self.e + self.g >= 0 && self.e + self.f + self.g
            + self.h >= 0
    }
}

/// What holds at all four corners holds wherever the inputs may still be.
/// For a matrix whose denominator is negative at no corner, and inputs
/// `x = p/q` and `y = r/s` that are at least 1 (or infinite): if the value
/// is at least 2 at every corner, it is at least 2 there, the rule by which
/// `Ord` is egested; and so for the values of `DRec`, from 1 to below 2, of
/// `Rec`, below 1, and of `Neg`, below 0.
pub proof fn corners_bound_the_value(m: Bilinear, p: int, q: int, r: int, s: int)
    requires
        m.denominators_agree(),
        p >= q >= 0 && p > 0,
        r >= s >= 0 && r > 0,
    ensures
        m.den(p, q, r, s) >= 0,
        m.every_corner(|c: crate::Fraction| c.at_least_two()) ==> m.num(p, q, r, s) >= 2 * m.den(
            p,
            q,
            r,
            s,
        ),
        m.every_corner(|c: crate::Fraction| c.from_one_to_two()) ==> m.den(p, q, r, s) <= m.num(
            p,
            q,
            r,
            s,
        ) < 2 * m.den(p, q, r, s),
        m.every_corner(|c: crate::Fraction| c.below_one()) ==> m.num(p, q, r, s) < m.den(p, q, r, s),
        m.all_negative() ==> m.num(p, q, r, s) < 0,
{
    let w0 = (p - q) * (r - s);
    let w1 = (p - q) * s;
    let w2 = q * (r - s);
    let w3 = q * s;
    assert(w0 >= 0 && w1 >= 0 && w2 >= 0 && w3 >= 0 && w0 + w1 + w2 + w3 > 0) by (nonlinear_arith)
        requires
            p >= q >= 0 && p > 0,
            r >= s >= 0 && r > 0,
            w0 == (p - q) * (r - s),
            w1 == (p - q) * s,
            w2 == q * (r - s),
            w3 == q * s,
    ;
    let (n0, n1, n2, n3) = (m.a, m.a + m.b, m.a + m.c, m.a + m.b + m.c + m.d);
    let (d0, d1, d2, d3) = (m.e, m.e + m.f, m.e + m.g, m.e + m.f + m.g + m.h);
    row_by_corners(m.a, m.b, m.c, m.d, p, q, r, s);
    row_by_corners(m.e, m.f, m.g, m.h, p, q, r, s);
    let num = m.num(p, q, r, s);
    let den = m.den(p, q, r, s);
    assert(num == n0 * w0 + n1 * w1 + n2 * w2 + n3 * w3);
    assert(den == d0 * w0 + d1 * w1 + d2 * w2 + d3 * w3);
    assert(m.corner(0) == (crate::Fraction { n: n0, d: d0 }));
    assert(m.corner(1) == (crate::Fraction { n: n1, d: d1 }));
    assert(m.corner(2) == (crate::Fraction { n: n2, d: d2 }));
    assert(m.corner(3) == (crate::Fraction { n: n3, d: d3 }));
    weighed(d0, d1, d2, d3, w0, w1, w2, w3);
    // at least 2: n - 2d >= 0 at every corner
    weighed(n0 - 2 * d0, n1 - 2 * d1, n2 - 2 * d2, n3 - 2 * d3, w0, w1, w2, w3);
    weighed_difference(n0, n1, n2, n3, d0, d1, d2, d3, 2, w0, w1, w2, w3);
    // below 2: 2d - n > 0 at every corner
    weighed(2 * d0 - n0, 2 * d1 - n1, 2 * d2 - n2, 2 * d3 - n3, w0, w1, w2, w3);
    weighed_difference(-n0, -n1, -n2, -n3, d0, d1, d2, d3, -2, w0, w1, w2, w3);
    // at least 1: n - d >= 0 at every corner
    weighed(n0 - d0, n1 - d1, n2 - d2, n3 - d3, w0, w1, w2, w3);
    weighed_difference(n0, n1, n2, n3, d0, d1, d2, d3, 1, w0, w1, w2, w3);
    // below 1: d - n > 0 at every corner
    weighed(d0 - n0, d1 - n1, d2 - n2, d3 - n3, w0, w1, w2, w3);
    weighed_difference(-n0, -n1, -n2, -n3, d0, d1, d2, d3, -1, w0, w1, w2, w3);
    // below 0: -n > 0 at every corner
    weighed(-n0, -n1, -n2, -n3, w0, w1, w2, w3);
    weighed_difference(-n0, -n1, -n2, -n3, d0, d1, d2, d3, 0, w0, w1, w2, w3);
    assert((-n0) * w0 == -(n0 * w0) && (-n1) * w1 == -(n1 * w1) && (-n2) * w2 == -(n2 * w2) && (
    -n3) * w3 == -(n3 * w3)) by (nonlinear_arith);
}

/// The same for the matrix of one stream: for a matrix whose denominator is
/// negative at neither endpoint and an input `y = p/q` that is at least 1
/// (or infinite), what holds of the value at both endpoints holds of the
/// value there.
pub proof fn endpoints_bound_the_value(m: Mobius, p: int, q: int)
    requires
        m.c >= 0 && m.c + m.d >= 0,
        p >= q >= 0 && p > 0,
    ensures
        m.den(p, q) >= 0,
        m.hi().at_least_two() && m.lo().at_least_two() ==> m.num(p, q) >= 2 * m.den(p, q),
        m.hi().from_one_to_two() && m.lo().from_one_to_two() ==> m.den(p, q) <= m.num(p, q) < 2
            * m.den(p, q),
        m.hi().below_one() && m.lo().below_one() ==> m.num(p, q) < m.den(p, q),
        m.hi().n < 0 && m.lo().n < 0 ==> m.num(p, q) < 0,
{
    let w0 = p - q;
    let w1 = q;
    let (n0, n1) = (m.a, m.a + m.b);
    let (d0, d1) = (m.c, m.c + m.d);
    assert(m.a * p + m.b * q == n0 * w0 + n1 * w1) by (nonlinear_arith)
        requires
            w0 == p - q,
            w1 == q,
            n0 == m.a,
            n1 == m.a + m.b,
    ;
    assert(m.c * p + m.d * q == d0 * w0 + d1 * w1) by (nonlinear_arith)
        requires
            w0 == p - q,
            w1 == q,
            d0 == m.c,
            d1 == m.c + m.d,
    ;
    assert(m.hi() == (crate::Fraction { n: n0, d: d0 }));
    assert(m.lo() == (crate::Fraction { n: n1, d: d1 }));
    weighed(d0, d1, 0, 0, w0, w1, 0, 0);
    weighed(n0 - 2 * d0, n1 - 2 * d1, 1, 1, w0, w1, 0, 0);
    weighed_difference(n0, n1, 0, 0, d0, d1, 0, 0, 2, w0, w1, 0, 0);
    weighed(2 * d0 - n0, 2 * d1 - n1, 1, 1, w0, w1, 0, 0);
    weighed_difference(-n0, -n1, 0, 0, d0, d1, 0, 0, -2, w0, w1, 0, 0);
    weighed(n0 - d0, n1 - d1, 1, 1, w0, w1, 0, 0);
    weighed_difference(n0, n1, 0, 0, d0, d1, 0, 0, 1, w0, w1, 0, 0);
    weighed(d0 - n0, d1 - n1, 1, 1, w0, w1, 0, 0);
    weighed_difference(-n0, -n1, 0, 0, d0, d1, 0, 0, -1, w0, w1, 0, 0);
    weighed(-n0, -n1, 1, 1, w0, w1, 0, 0);
    assert((-n0) * w0 == -(n0 * w0) && (-n1) * w1 == -(n1 * w1)) by (nonlinear_arith);
}

/// What happens to a bilinear unit, one thing at a time.
pub enum Step {
    /// The first input gave a term.
    IngestX(Term),
    /// The second input gave a term.
    IngestY(Term),
    /// The term was factored out of the result.
    Egest(Term),
}

impl Step {
    /// Whether the step is one of which the value can be told: an input
    /// gave a term that tells, or a term that carries on was factored out.
    pub open spec fn tells(self) -> bool {
        match self {
            Step::IngestX(t) => tells(t),
            Step::IngestY(t) => tells(t),
            Step::Egest(t) => carries_on(t),
        }
    }
}

impl Bilinear {
    /// The matrix after a step.
    pub open spec fn step(self, step: Step) -> Bilinear {
        match step {
            Step::IngestX(t) => self.ingest_x(t),
            Step::IngestY(t) => self.ingest_y(t),
            Step::Egest(t) => self.egest(t),
        }
    }

    /// The matrix after a run of steps.
    pub open spec fn run(self, steps: Seq<Step>) -> Bilinear
        decreases steps.len(),
    {
        if steps.len() == 0 {
            self
        } else {
            self.step(steps[0]).run(steps.skip(1))
        }
    }

    /// By how much the two sides of `a_run_keeps_the_value` are multiplied
    /// for one step: powers of two, from halving and doubling.
    pub open spec fn step_scales(self, step: Step) -> (int, int) {
        match step {
            Step::IngestX(t) => (
                shrink(
                    t == Term::Ord && self.c % 2 == 0 && self.d % 2 == 0 && self.g % 2 == 0
                        && self.h % 2 == 0,
                ),
                1,
            ),
            Step::IngestY(t) => (
                shrink(
                    t == Term::Ord && self.b % 2 == 0 && self.d % 2 == 0 && self.f % 2 == 0
                        && self.h % 2 == 0,
                ),
                1,
            ),
            Step::Egest(t) => (
                shrink(
                    t == Term::Ord && self.a % 2 == 0 && self.b % 2 == 0 && self.c % 2 == 0
                        && self.d % 2 == 0,
                ),
                grow(t),
            ),
        }
    }

    /// The same for a run of steps.
    pub open spec fn run_scales(self, steps: Seq<Step>) -> (int, int)
        decreases steps.len(),
    {
        if steps.len() == 0 {
            (1, 1)
        } else {
            let first = self.step_scales(steps[0]);
            let rest = self.step(steps[0]).run_scales(steps.skip(1));
            (first.0 * rest.0, first.1 * rest.1)
        }
    }
}

/// The value of the stream of terms that the first input gave during a run,
/// where `p / q` is the value of what that input has not given yet.
pub open spec fn x_of(steps: Seq<Step>, p: int, q: int) -> (int, int)
    decreases steps.len(),
{
    if steps.len() == 0 {
        (p, q)
    } else {
        let rest = x_of(steps.skip(1), p, q);
        match steps[0] {
            Step::IngestX(t) => decoded(t, rest.0, rest.1),
            _ => rest,
        }
    }
}

/// The value of the stream of terms that the second input gave during a
/// run, where `r / s` is the value of what that input has not given yet.
pub open spec fn y_of(steps: Seq<Step>, r: int, s: int) -> (int, int)
    decreases steps.len(),
{
    if steps.len() == 0 {
        (r, s)
    } else {
        let rest = y_of(steps.skip(1), r, s);
        match steps[0] {
            Step::IngestY(t) => decoded(t, rest.0, rest.1),
            _ => rest,
        }
    }
}

/// The value of the stream of terms that were factored out during a run,
/// where `n / d` is the value of what is still to come.
pub open spec fn z_of(steps: Seq<Step>, n: int, d: int) -> (int, int)
    decreases steps.len(),
{
    if steps.len() == 0 {
        (n, d)
    } else {
        let rest = z_of(steps.skip(1), n, d);
        match steps[0] {
            Step::Egest(t) => decoded(t, rest.0, rest.1),
            _ => rest,
        }
    }
}

/// Decoding a term in front of a value is linear in that value.
proof fn decoded_is_linear(t: Term, k: int, p: int, q: int)
    requires
        tells(t),
    ensures
        decoded(t, k * p, k * q) == (k * decoded(t, p, q).0, k * decoded(t, p, q).1),
{
    assert(k * (2 * p) == 2 * (k * p)) by (nonlinear_arith);
    assert(k * (p + q) == k * p + k * q) by (nonlinear_arith);
    assert(k * (-p) == -(k * p)) by (nonlinear_arith);
    assert(k * 0 == 0);
}

/// From `k1 * z == l1 * a` and `k0 * a == l0 * b` to `(k0*k1) * z ==
/// (l0*l1) * b`.
proof fn chained(k0: int, l0: int, k1: int, l1: int, z: int, a: int, b: int)
    requires
        k1 * z == l1 * a,
        k0 * a == l0 * b,
    ensures
        (k0 * k1) * z == (l0 * l1) * b,
{
    assert((k0 * k1) * z == k0 * (k1 * z)) by (nonlinear_arith);
    assert(k0 * (l1 * a) == l1 * (k0 * a)) by (nonlinear_arith);
    assert(l1 * (l0 * b) == (l0 * l1) * b) by (nonlinear_arith);
}

/// Over a whole run, in whatever order terms were taken in and given off:
/// the terms given off, decoded in front of the value that the matrix has
/// in the end, are the value that the matrix had at the start, at the
/// inputs whose first terms are the terms taken in.  Both sides are
/// multiplied by powers of two.
///
/// With the matrix of an operation at the start this says that what the
/// unit has egested, followed by what it will egest, is the operation
/// applied to its inputs.
pub proof fn a_run_keeps_the_value(m: Bilinear, steps: Seq<Step>, p: int, q: int, r: int, s: int)
    requires
        forall|i: int| 0 <= i < steps.len() ==> (#[trigger] steps[i]).tells(),
    ensures
        ({
            let end = m.run(steps);
            let x = x_of(steps, p, q);
            let y = y_of(steps, r, s);
            let z = z_of(steps, end.num(p, q, r, s), end.den(p, q, r, s));
            let (k, l) = m.run_scales(steps);
            &&& k > 0 && l > 0
            &&& k * z.0 == l * m.num(x.0, x.1, y.0, y.1)
            &&& k * z.1 == l * m.den(x.0, x.1, y.0, y.1)
        }),
    decreases steps.len(),
{
    if steps.len() > 0 {
        let first = steps[0];
        let rest = steps.skip(1);
        let m1 = m.step(first);
        assert forall|i: int| 0 <= i < rest.len() implies (#[trigger] rest[i]).tells() by {
            assert(rest[i] == steps[i + 1]);
        }
        a_run_keeps_the_value(m1, rest, p, q, r, s);
        let end = m.run(steps);
        assert(end == m1.run(rest));
        let x1 = x_of(rest, p, q);
        let y1 = y_of(rest, r, s);
        let z1 = z_of(rest, end.num(p, q, r, s), end.den(p, q, r, s));
        let (k1, l1) = m1.run_scales(rest);
        let (k0, l0) = m.step_scales(first);
        let x = x_of(steps, p, q);
        let y = y_of(steps, r, s);
        let z = z_of(steps, end.num(p, q, r, s), end.den(p, q, r, s));
        assert(k0 > 0 && l0 > 0);
        assert(k0 * k1 > 0 && l0 * l1 > 0) by (nonlinear_arith)
            requires
                k0 > 0 && l0 > 0 && k1 > 0 && l1 > 0,
        ;
        match first {
            Step::IngestX(t) => {
                ingest_x_keeps_the_value(m, t, x1.0, x1.1, y1.0, y1.1);
                assert(l0 == 1);
                assert(l0 * m.num(x.0, x.1, y.0, y.1) == m.num(x.0, x.1, y.0, y.1));
                assert(l0 * m.den(x.0, x.1, y.0, y.1) == m.den(x.0, x.1, y.0, y.1));
                chained(k0, l0, k1, l1, z.0, m1.num(x1.0, x1.1, y1.0, y1.1), m.num(x.0, x.1, y.0, y.1));
                chained(k0, l0, k1, l1, z.1, m1.den(x1.0, x1.1, y1.0, y1.1), m.den(x.0, x.1, y.0, y.1));
            },
            Step::IngestY(t) => {
                ingest_y_keeps_the_value(m, t, x1.0, x1.1, y1.0, y1.1);
                assert(l0 == 1);
                assert(l0 * m.num(x.0, x.1, y.0, y.1) == m.num(x.0, x.1, y.0, y.1));
                assert(l0 * m.den(x.0, x.1, y.0, y.1) == m.den(x.0, x.1, y.0, y.1));
                chained(k0, l0, k1, l1, z.0, m1.num(x1.0, x1.1, y1.0, y1.1), m.num(x.0, x.1, y.0, y.1));
                chained(k0, l0, k1, l1, z.1, m1.den(x1.0, x1.1, y1.0, y1.1), m.den(x.0, x.1, y.0, y.1));
            },
            Step::Egest(t) => {
                let n1 = m1.num(x.0, x.1, y.0, y.1);
                let d1 = m1.den(x.0, x.1, y.0, y.1);
                egest_keeps_the_value(m, t, x.0, x.1, y.0, y.1);
                // k1 * z1 == l1 * (n1, d1), and decoding is linear
                decoded_is_linear(t, k1, z1.0, z1.1);
                decoded_is_linear(t, l1, n1, d1);
                let w = decoded(t, n1, d1);
                assert(k1 * z.0 == l1 * w.0 && k1 * z.1 == l1 * w.1);
                chained(k0, l0, k1, l1, z.0, w.0, m.num(x.0, x.1, y.0, y.1));
                chained(k0, l0, k1, l1, z.1, w.1, m.den(x.0, x.1, y.0, y.1));
            },
        }
    }
}

/// Decoding the terms given off during a run is linear in the value that
/// they are decoded in front of.
proof fn z_of_is_linear(steps: Seq<Step>, k: int, n: int, d: int)
    requires
        forall|i: int| 0 <= i < steps.len() ==> (#[trigger] steps[i]).tells(),
    ensures
        z_of(steps, k * n, k * d) == (k * z_of(steps, n, d).0, k * z_of(steps, n, d).1),
    decreases steps.len(),
{
    if steps.len() > 0 {
        let rest = steps.skip(1);
        assert forall|i: int| 0 <= i < rest.len() implies (#[trigger] rest[i]).tells() by {
            assert(rest[i] == steps[i + 1]);
        }
        z_of_is_linear(rest, k, n, d);
        let inner = z_of(rest, n, d);
        match steps[0] {
            Step::Egest(t) => {
                decoded_is_linear(t, k, inner.0, inner.1);
            },
            _ => {},
        }
    }
}

/// Over whole streams.  Let both inputs end after the terms that the unit
/// took in, so that what they have not given is infinity, and let the unit
/// find its value infinite, so that it egests `Inf` (or `Neg` first) and
/// its stream ends.  Then the stream of the terms given off is the value of
/// the matrix at the start at the two input streams: with the matrix of an
/// operation, the operation applied to the inputs.  `x_of`, `y_of` and
/// `z_of` at `1/0` are the values of the three streams as finished streams;
/// both sides are multiplied by numbers that are not zero.
pub proof fn a_finished_run_is_the_operation(m: Bilinear, steps: Seq<Step>)
    requires
        forall|i: int| 0 <= i < steps.len() ==> (#[trigger] steps[i]).tells(),
        m.run(steps).is_infinite(),
    ensures
        ({
            let x = x_of(steps, 1, 0);
            let y = y_of(steps, 1, 0);
            let z = z_of(steps, 1, 0);
            let k = m.run_scales(steps).0 * m.run(steps).a;
            let l = m.run_scales(steps).1;
            &&& k != 0 && l != 0
            &&& k * z.0 == l * m.num(x.0, x.1, y.0, y.1)
            &&& k * z.1 == l * m.den(x.0, x.1, y.0, y.1)
        }),
{
    let end = m.run(steps);
    a_run_keeps_the_value(m, steps, 1, 0, 1, 0);
    assert(end.corner(0).d == 0 && end.corner(0).n != 0);
    assert(end.e == 0 && end.a != 0);
    assert(end.num(1, 0, 1, 0) == end.a && end.den(1, 0, 1, 0) == 0) by {
        assert(end.b * 0 == 0 && end.c * 0 == 0 && end.d * 0 == 0);
        assert(end.f * 0 == 0 && end.g * 0 == 0 && end.h * 0 == 0);
        assert(end.a * 1 == end.a && end.e * 1 == end.e);
    }
    z_of_is_linear(steps, end.a, 1, 0);
    assert(end.a * 1 == end.a && end.a * 0 == 0);
    let z = z_of(steps, 1, 0);
    let k0 = m.run_scales(steps).0;
    assert((k0 * end.a) * z.0 == k0 * (end.a * z.0) && (k0 * end.a) * z.1 == k0 * (end.a * z.1))
        by (nonlinear_arith);
    assert(k0 * end.a != 0) by (nonlinear_arith)
        requires
            k0 > 0,
            end.a != 0,
    ;
}

/// What a bilinear unit does when it egests is a step of a run: it factors
/// the term that it decided on out of its matrix; and it decides on `Inf`
/// only where its value is infinite at every corner.
pub proof fn egestion_is_a_step(s: ArithState)
    ensures
        s.egest_z().m == s.m.step(Step::Egest(s.decide().0)),
        s.decide().0 == Term::Inf ==> s.m.is_infinite(),
        s.decide().0 != Term::Inf && s.decide().0 != Term::Undefined ==> Step::Egest(
            s.decide().0,
        ).tells(),
{
}

/// The matrices of the four operations of arithmetic stand for them: at
/// `x = p/q` and `y = r/s` they have the values `(p*s + q*r) / (q*s)`,
/// `(p*s - q*r) / (q*s)`, `(p*r) / (q*s)` and `(p*s) / (q*r)`.
pub proof fn the_operations(p: int, q: int, r: int, s: int)
    ensures
        ({
            let add = Bilinear { a: 0, b: 1, c: 1, d: 0, e: 0, f: 0, g: 0, h: 1 };
            let sub = Bilinear { a: 0, b: 1, c: -1, d: 0, e: 0, f: 0, g: 0, h: 1 };
            let mul = Bilinear { a: 1, b: 0, c: 0, d: 0, e: 0, f: 0, g: 0, h: 1 };
            let div = Bilinear { a: 0, b: 1, c: 0, d: 0, e: 0, f: 0, g: 1, h: 0 };
            &&& add.num(p, q, r, s) == p * s + q * r && add.den(p, q, r, s) == q * s
            &&& sub.num(p, q, r, s) == p * s - q * r && sub.den(p, q, r, s) == q * s
            &&& mul.num(p, q, r, s) == p * r && mul.den(p, q, r, s) == q * s
            &&& div.num(p, q, r, s) == p * s && div.den(p, q, r, s) == q * r
        }),
{
}

} // verus!
