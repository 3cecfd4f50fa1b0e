//! In-place operations on the coefficient arrays of the units.
use vstd::prelude::*;
use num_bigint::BigInt;
use crate::bigint::{
    big_add, big_clone, big_from, big_mul, big_neg, big_sub, double, halve, int_of, is_zero,
};

verus! {

/// `<[T]>::swap`: exchanges two elements of a slice and leaves the others
/// alone; it panics when an index is past the end.
pub assume_specification<T>[ <[T]>::swap ](s: &mut [T], a: usize, b: usize)
    requires
        a < old(s)@.len(),
        b < old(s)@.len(),
    ensures
        final(s)@ == old(s)@.update(a as int, old(s)@[b as int]).update(
            b as int,
            old(s)@[a as int],
        ),
;

/// Whether every coefficient is zero.
pub(crate) fn all_zero<const N: usize>(m: &[BigInt; N]) -> (r: bool)
    ensures
        r == (forall|i: int| 0 <= i < N ==> int_of(#[trigger] m@[i]) == 0),
{
    let mut i: usize = 0;
    while i < N
        invariant
            i <= N,
            forall|j: int| 0 <= j < i ==> int_of(#[trigger] m@[j]) == 0,
        decreases N - i,
    {
        if !is_zero(&m[i]) {
            return false;
        }
        i += 1;
    }
    true
}

/// Replaces coefficient `i` by its additive inverse.
pub(crate) fn negate_at<const N: usize>(m: &mut [BigInt; N], i: usize)
    requires
        i < N,
    ensures
        int_of(final(m)@[i as int]) == -int_of(old(m)@[i as int]),
        final(m)@ == old(m)@.update(i as int, final(m)@[i as int]),
{
    let v = big_neg(&m[i]);
    m[i] = v;
}

/// Replaces coefficient `i` by twice its value.
pub(crate) fn double_at<const N: usize>(m: &mut [BigInt; N], i: usize)
    requires
        i < N,
    ensures
        int_of(final(m)@[i as int]) == 2 * int_of(old(m)@[i as int]),
        final(m)@ == old(m)@.update(i as int, final(m)@[i as int]),
{
    let v = double(&m[i]);
    m[i] = v;
}

/// Replaces coefficient `i` by half its value, rounded towards negative
/// infinity.
pub(crate) fn halve_at<const N: usize>(m: &mut [BigInt; N], i: usize)
    requires
        i < N,
    ensures
        int_of(final(m)@[i as int]) == int_of(old(m)@[i as int]) / 2,
        final(m)@ == old(m)@.update(i as int, final(m)@[i as int]),
{
    let v = halve(&m[i]);
    m[i] = v;
}

/// Adds coefficient `src` to coefficient `dst`.
pub(crate) fn add_at<const N: usize>(m: &mut [BigInt; N], dst: usize, src: usize)
    requires
        dst < N,
        src < N,
    ensures
        int_of(final(m)@[dst as int]) == int_of(old(m)@[dst as int]) + int_of(
            old(m)@[src as int],
        ),
        final(m)@ == old(m)@.update(dst as int, final(m)@[dst as int]),
{
    let v = big_add(&m[dst], &m[src]);
    m[dst] = v;
}

/// Subtracts coefficient `src` from coefficient `dst`.
pub(crate) fn sub_at<const N: usize>(m: &mut [BigInt; N], dst: usize, src: usize)
    requires
        dst < N,
        src < N,
    ensures
        int_of(final(m)@[dst as int]) == int_of(old(m)@[dst as int]) - int_of(
            old(m)@[src as int],
        ),
        final(m)@ == old(m)@.update(dst as int, final(m)@[dst as int]),
{
    let v = big_sub(&m[dst], &m[src]);
    m[dst] = v;
}

/// Overwrites coefficient `dst` with a copy of coefficient `src`.
pub(crate) fn copy_at<const N: usize>(m: &mut [BigInt; N], dst: usize, src: usize)
    requires
        dst < N,
        src < N,
    ensures
        int_of(final(m)@[dst as int]) == int_of(old(m)@[src as int]),
        final(m)@ == old(m)@.update(dst as int, final(m)@[dst as int]),
{
    let v = big_clone(&m[src]);
    m[dst] = v;
}

/// Multiplies coefficient `i` by `k`.
pub(crate) fn scale_at<const N: usize>(m: &mut [BigInt; N], i: usize, k: &BigInt)
    requires
        i < N,
    ensures
        int_of(final(m)@[i as int]) == int_of(old(m)@[i as int]) * int_of(*k),
        final(m)@ == old(m)@.update(i as int, final(m)@[i as int]),
{
    let v = big_mul(&m[i], k);
    m[i] = v;
}

/// Overwrites coefficient `i` with zero.
pub(crate) fn clear_at<const N: usize>(m: &mut [BigInt; N], i: usize)
    requires
        i < N,
    ensures
        int_of(final(m)@[i as int]) == 0,
        final(m)@ == old(m)@.update(i as int, final(m)@[i as int]),
{
    let v = big_from(0);
    m[i] = v;
}

} // verus!
