//! What the integers that a linear-fractional unit reports have to do with
//! the fractions at its endpoints.
use vstd::prelude::*;
use vstd::arithmetic::div_mod::{lemma_div_pos_is_pos, lemma_fundamental_div_mod, lemma_mod_pos_bound};
use crate::bigint::{magnitude, trunc_div};
use crate::unit::lft::Mobius;

verus! {

/// Whether the fraction `n / d` is above zero.
pub open spec fn positive(n: int, d: int) -> bool {
    (n > 0 && d > 0) || (n < 0 && d < 0)
}

/// Whether the fraction `n / d` is below zero.
pub open spec fn negative(n: int, d: int) -> bool {
    (n > 0 && d < 0) || (n < 0 && d > 0)
}

/// The largest integer that is not above `n / d`.
pub open spec fn floor_div(n: int, d: int) -> int
    recommends
        d != 0,
{
    if d > 0 {
        n / d
    } else {
        (-n) / (-d)
    }
}

/// The smallest integer that is not below `n / d`.
pub open spec fn ceil_div(n: int, d: int) -> int
    recommends
        d != 0,
{
    -floor_div(-n, d)
}

/// The integer nearest to `n / d`; of two that are equally near, the even
/// one.
pub open spec fn round_div(n: int, d: int) -> int
    recommends
        d != 0,
{
    let f = floor_div(n, d);
    let rest = 2 * magnitude(n - f * d);
    if rest < magnitude(d) {
        f
    } else if rest > magnitude(d) {
        f + 1
    } else if f % 2 == 0 {
        f
    } else {
        f + 1
    }
}

/// `v` is `n / d` rounded towards zero: it has the sign of the fraction
/// unless it is zero, and `|v| <= |n / d| < |v| + 1`.
pub open spec fn is_trunc(v: int, n: int, d: int) -> bool {
    &&& magnitude(v) * magnitude(d) <= magnitude(n) < (magnitude(v) + 1) * magnitude(d)
    &&& v > 0 ==> positive(n, d)
    &&& v < 0 ==> negative(n, d)
}

/// `v` is `n / d` rounded down: `v <= n / d < v + 1`.
pub open spec fn is_floor(v: int, n: int, d: int) -> bool {
    if d > 0 {
        v * d <= n < (v + 1) * d
    } else {
        (v + 1) * d < n <= v * d
    }
}

/// `v` is `n / d` rounded up: `v - 1 < n / d <= v`.
pub open spec fn is_ceil(v: int, n: int, d: int) -> bool {
    if d > 0 {
        (v - 1) * d < n <= v * d
    } else {
        v * d <= n < (v - 1) * d
    }
}

/// `v` is an integer nearest to `n / d`, and the even one where two are:
/// `|n / d - v| <= 1/2`, with equality only for an even `v`.
pub open spec fn is_nearest(v: int, n: int, d: int) -> bool {
    &&& 2 * magnitude(n - v * d) <= magnitude(d)
    &&& 2 * magnitude(n - v * d) == magnitude(d) ==> v % 2 == 0
}

/// The quotient rounded towards zero, and what it leaves of the numerator:
/// less than the denominator in magnitude, and on the side of the fraction.
pub proof fn trunc_div_remainder(n: int, d: int)
    requires
        d != 0,
    ensures
        is_trunc(trunc_div(n, d), n, d),
        magnitude(n - trunc_div(n, d) * d) < magnitude(d),
        (n >= 0) ==> n - trunc_div(n, d) * d == magnitude(n - trunc_div(n, d) * d),
        (n <= 0) ==> n - trunc_div(n, d) * d == -magnitude(n - trunc_div(n, d) * d),
        positive(n, d) ==> trunc_div(n, d) >= 0,
        negative(n, d) ==> trunc_div(n, d) <= 0,
        n == 0 ==> trunc_div(n, d) == 0,
{
    let an = magnitude(n);
    let ad = magnitude(d);
    let q = an / ad;
    let r = an % ad;
    lemma_fundamental_div_mod(an, ad);
    lemma_mod_pos_bound(an, ad);
    lemma_div_pos_is_pos(an, ad);
    assert(an == ad * q + r);
    let i = trunc_div(n, d);
    assert(i == q || i == -q);
    assert(magnitude(i) == q);
    assert(q * ad == ad * q) by (nonlinear_arith);
    assert((q + 1) * ad == ad * q + ad) by (nonlinear_arith);
    assert(n == 0 ==> q == 0) by {
        if n == 0 {
            assert(ad * q + r == 0);
            assert(ad * q >= 0) by (nonlinear_arith)
                requires
                    ad > 0,
                    q >= 0,
            ;
            assert(q == 0) by (nonlinear_arith)
                requires
                    ad * q == 0,
                    ad > 0,
            ;
        }
    }
    if d > 0 {
        if n >= 0 {
            assert(i == q);
            assert(i * d == ad * q) by (nonlinear_arith)
                requires
                    i == q,
                    d == ad,
            ;
        } else {
            assert(i == -q);
            assert(i * d == -(ad * q)) by (nonlinear_arith)
                requires
                    i == -q,
                    d == ad,
            ;
        }
    } else {
        if n >= 0 {
            assert(i == -q);
            assert(i * d == ad * q) by (nonlinear_arith)
                requires
                    i == -q,
                    d == -ad,
            ;
        } else {
            assert(i == q);
            assert(i * d == -(ad * q)) by (nonlinear_arith)
                requires
                    i == q,
                    d == -ad,
            ;
        }
    }
}

/// The integer that `trunc` reports is each endpoint rounded towards zero.
pub proof fn trunc_agrees(m: Mobius, v: int)
    requires
        m.trunc() == Some(v),
    ensures
        m.intervals().0.1 != 0 && m.intervals().1.1 != 0,
        is_trunc(v, m.intervals().0.0, m.intervals().0.1),
        is_trunc(v, m.intervals().1.0, m.intervals().1.1),
{
    let ((n1, d1), (n2, d2)) = m.intervals();
    trunc_div_remainder(n1, d1);
    trunc_div_remainder(n2, d2);
}

/// `floor_div` rounds down.
pub proof fn floor_div_is_floor(n: int, d: int)
    requires
        d != 0,
    ensures
        is_floor(floor_div(n, d), n, d),
{
    let f = floor_div(n, d);
    if d > 0 {
        lemma_fundamental_div_mod(n, d);
        vstd::arithmetic::div_mod::lemma_mod_bound(n, d);
        assert(f * d == d * f) by (nonlinear_arith);
    } else {
        lemma_fundamental_div_mod(-n, -d);
        vstd::arithmetic::div_mod::lemma_mod_bound(-n, -d);
        assert(f * d == -((-d) * f)) by (nonlinear_arith);
    }
    assert((f + 1) * d == f * d + d) by (nonlinear_arith);
}

/// Only one integer is a fraction rounded down.
pub proof fn floor_is_unique(v: int, w: int, n: int, d: int)
    requires
        d != 0,
        is_floor(v, n, d),
        is_floor(w, n, d),
    ensures
        v == w,
{
    assert(v <= w) by (nonlinear_arith)
        requires
            d != 0,
            (d > 0 && v * d < (w + 1) * d) || (d < 0 && (w + 1) * d < v * d),
    ;
    assert(w <= v) by (nonlinear_arith)
        requires
            d != 0,
            (d > 0 && w * d < (v + 1) * d) || (d < 0 && (v + 1) * d < w * d),
    ;
}

/// Rounding up is rounding the opposite down.
proof fn ceil_mirrors_floor(v: int, n: int, d: int)
    ensures
        is_ceil(v, n, d) <==> is_floor(-v, -n, d),
{
    assert((-v) * d == -(v * d)) by (nonlinear_arith);
    assert((-v + 1) * d == -((v - 1) * d)) by (nonlinear_arith);
}

/// `ceil_div` rounds up.
pub proof fn ceil_div_is_ceil(n: int, d: int)
    requires
        d != 0,
    ensures
        is_ceil(ceil_div(n, d), n, d),
{
    floor_div_is_floor(-n, d);
    ceil_mirrors_floor(ceil_div(n, d), n, d);
}

/// Only one integer is a fraction rounded up.
pub proof fn ceil_is_unique(v: int, w: int, n: int, d: int)
    requires
        d != 0,
        is_ceil(v, n, d),
        is_ceil(w, n, d),
    ensures
        v == w,
{
    ceil_mirrors_floor(v, n, d);
    ceil_mirrors_floor(w, n, d);
    floor_is_unique(-v, -w, -n, d);
}

/// `round_div` rounds to the nearest integer, and to the even one of two.
pub proof fn round_div_is_nearest(n: int, d: int)
    requires
        d != 0,
    ensures
        is_nearest(round_div(n, d), n, d),
{
    let f = floor_div(n, d);
    floor_div_is_floor(n, d);
    assert((f + 1) * d == f * d + d) by (nonlinear_arith);
}

/// Only one integer is nearest to a fraction, and even where two are as
/// near.
pub proof fn nearest_is_unique(v: int, w: int, n: int, d: int)
    requires
        d != 0,
        is_nearest(v, n, d),
        is_nearest(w, n, d),
    ensures
        v == w,
{
    if v != w {
        let k = if v < w {
            w - v
        } else {
            v - w
        };
        let x = n - v * d;
        let y = n - w * d;
        assert(magnitude(x - y) == magnitude(k * d)) by (nonlinear_arith)
            requires
                x == n - v * d,
                y == n - w * d,
                k == w - v || k == v - w,
        ;
        assert(magnitude(k * d) >= magnitude(d) && (k >= 2 ==> magnitude(k * d) >= 2 * magnitude(d)))
            by (nonlinear_arith)
            requires
                k >= 1,
                d != 0,
        ;
        assert(k == 1);
        assert(v % 2 == 0 && w % 2 == 0);
    }
}

/// The quotient rounded towards zero is the quotient rounded down, unless
/// the fraction is negative and no integer; then it is one more.
pub proof fn floor_from_trunc(n: int, d: int)
    requires
        d != 0,
    ensures
        floor_div(n, d) == (if n == trunc_div(n, d) * d || (n < 0) == (d < 0) {
            trunc_div(n, d)
        } else {
            trunc_div(n, d) - 1
        }),
{
    trunc_div_remainder(n, d);
    let i = trunc_div(n, d);
    let v = if n == i * d || (n < 0) == (d < 0) {
        i
    } else {
        i - 1
    };
    assert((i + 1) * d == i * d + d) by (nonlinear_arith);
    assert((i - 1) * d == i * d - d) by (nonlinear_arith);
    assert((i - 1 + 1) * d == i * d) by (nonlinear_arith);
    assert(is_floor(v, n, d));
    floor_div_is_floor(n, d);
    floor_is_unique(v, floor_div(n, d), n, d);
}

/// The quotient rounded towards zero is the quotient rounded up, unless
/// the fraction is positive and no integer; then it is one less.
pub proof fn ceil_from_trunc(n: int, d: int)
    requires
        d != 0,
    ensures
        ceil_div(n, d) == (if n == trunc_div(n, d) * d || (n < 0) != (d < 0) {
            trunc_div(n, d)
        } else {
            trunc_div(n, d) + 1
        }),
{
    trunc_div_remainder(n, d);
    let i = trunc_div(n, d);
    let v = if n == i * d || (n < 0) != (d < 0) {
        i
    } else {
        i + 1
    };
    assert((i + 1) * d == i * d + d) by (nonlinear_arith);
    assert((i - 1) * d == i * d - d) by (nonlinear_arith);
    assert((i + 1 - 1) * d == i * d) by (nonlinear_arith);
    assert(is_ceil(v, n, d));
    ceil_div_is_ceil(n, d);
    ceil_is_unique(v, ceil_div(n, d), n, d);
}

/// The nearest integer, from the quotient rounded towards zero and twice
/// what it leaves of the numerator: the quotient itself where that is less
/// than the denominator, its neighbour away from zero where it is more, and
/// the even one of the two where it is as much.
pub proof fn nearest_from_trunc(n: int, d: int)
    requires
        d != 0,
    ensures
        round_div(n, d) == ({
            let i = trunc_div(n, d);
            let h = magnitude(n - i * d);
            let away = if (n < 0) != (d < 0) {
                i - 1
            } else {
                i + 1
            };
            if 2 * h < magnitude(d) {
                i
            } else if 2 * h > magnitude(d) {
                away
            } else if i % 2 == 0 {
                i
            } else {
                away
            }
        }),
{
    trunc_div_remainder(n, d);
    let i = trunc_div(n, d);
    let h = magnitude(n - i * d);
    let away = if (n < 0) != (d < 0) {
        i - 1
    } else {
        i + 1
    };
    let v = if 2 * h < magnitude(d) {
        i
    } else if 2 * h > magnitude(d) {
        away
    } else if i % 2 == 0 {
        i
    } else {
        away
    };
    assert((i + 1) * d == i * d + d) by (nonlinear_arith);
    assert((i - 1) * d == i * d - d) by (nonlinear_arith);
    assert(is_nearest(v, n, d));
    round_div_is_nearest(n, d);
    nearest_is_unique(v, round_div(n, d), n, d);
}

/// `floor` reports an integer exactly where both endpoints, rounded down,
/// are that integer.
pub proof fn floor_agrees(m: Mobius, v: int)
    ensures
        m.floor() == Some(v) <==> m.intervals().0.1 != 0 && m.intervals().1.1 != 0 && is_floor(
            v,
            m.intervals().0.0,
            m.intervals().0.1,
        ) && is_floor(v, m.intervals().1.0, m.intervals().1.1),
{
    let ((n1, d1), (n2, d2)) = m.intervals();
    if d1 != 0 && d2 != 0 {
        floor_div_is_floor(n1, d1);
        floor_div_is_floor(n2, d2);
        if is_floor(v, n1, d1) && is_floor(v, n2, d2) {
            floor_is_unique(v, floor_div(n1, d1), n1, d1);
            floor_is_unique(v, floor_div(n2, d2), n2, d2);
        }
    }
}

/// `ceil` reports an integer exactly where both endpoints, rounded up, are
/// that integer.
pub proof fn ceil_agrees(m: Mobius, v: int)
    ensures
        m.ceil() == Some(v) <==> m.intervals().0.1 != 0 && m.intervals().1.1 != 0 && is_ceil(
            v,
            m.intervals().0.0,
            m.intervals().0.1,
        ) && is_ceil(v, m.intervals().1.0, m.intervals().1.1),
{
    let ((n1, d1), (n2, d2)) = m.intervals();
    if d1 != 0 && d2 != 0 {
        ceil_div_is_ceil(n1, d1);
        ceil_div_is_ceil(n2, d2);
        if is_ceil(v, n1, d1) && is_ceil(v, n2, d2) {
            ceil_is_unique(v, ceil_div(n1, d1), n1, d1);
            ceil_is_unique(v, ceil_div(n2, d2), n2, d2);
        }
    }
}

/// `round` reports an integer exactly where it is nearest to both
/// endpoints, and even where an endpoint lies half-way.
pub proof fn round_agrees(m: Mobius, v: int)
    ensures
        m.round() == Some(v) <==> m.intervals().0.1 != 0 && m.intervals().1.1 != 0 && is_nearest(
            v,
            m.intervals().0.0,
            m.intervals().0.1,
        ) && is_nearest(v, m.intervals().1.0, m.intervals().1.1),
{
    let ((n1, d1), (n2, d2)) = m.intervals();
    if d1 != 0 && d2 != 0 {
        round_div_is_nearest(n1, d1);
        round_div_is_nearest(n2, d2);
        if is_nearest(v, n1, d1) && is_nearest(v, n2, d2) {
            nearest_is_unique(v, round_div(n1, d1), n1, d1);
            nearest_is_unique(v, round_div(n2, d2), n2, d2);
        }
    }
}

} // verus!
