//! Powers of a stream by repeated squaring.
use vstd::prelude::*;
use crate::unit::arith::{matrix_of, Arith, ArithState, Bilinear};
use crate::unit::UnitUnion;
use crate::workgroup::{UnitId, Workgroup};
use crate::Term;

verus! {

/// Whether unit `k` of `wg` is a fresh unit that multiplies what unit `of`
/// egests by itself.
pub open spec fn is_square(wg: &Workgroup, k: u32, of: UnitId) -> bool {
    &&& wg@.contains_key(k)
    &&& wg@[k].x == Some(of)
    &&& wg@[k].y == Some(of)
    &&& wg@[k].z == Term::Empty
    &&& wg@[k].inner matches UnitUnion::Arith(a)
    &&& a@ == (ArithState {
        m: Bilinear { a: 1, b: 0, c: 0, d: 0, e: 0, f: 0, g: 0, h: 1 },
        singular: false,
    })
}

/// Adds `d` units to the workgroup, each the square of the one before, and
/// returns the handles of `x, x^2, x^4, .., x^(2^d)`.
pub fn pow2(wg: &mut Workgroup, x: UnitId, d: u32) -> (items: Vec<UnitId>)
    requires
        old(wg).next_id() + d <= u32::MAX,
    ensures
        old(wg).wf() && old(wg)@.contains_key(x@) ==> final(wg).wf(),
        final(wg).phase() == old(wg).phase(),
        final(wg).next_id() == old(wg).next_id() + d,
        old(wg).wf() ==> forall|k: u32|
            old(wg)@.contains_key(k) ==> #[trigger] final(wg)@[k] == old(wg)@[k],
        items@.len() == d + 1,
        items@[0] == x,
        forall|i: int|
            1 <= i <= d ==> (#[trigger] items@[i])@ == old(wg).next_id() + i - 1 && is_square(
                final(wg),
                items@[i]@,
                items@[i - 1],
            ),
{
    let mut items: Vec<UnitId> = Vec::new();
    items.push(x);
    let mut n: u32 = 0;
    while n < d
        invariant
            n <= d,
            old(wg).next_id() + d <= u32::MAX,
            old(wg).wf() && old(wg)@.contains_key(x@) ==> wg.wf(),
            wg.phase() == old(wg).phase(),
            wg.next_id() == old(wg).next_id() + n,
            old(wg).wf() ==> forall|k: u32|
                old(wg)@.contains_key(k) ==> #[trigger] wg@[k] == old(wg)@[k],
            items@.len() == n + 1,
            items@[0] == x,
            old(wg)@.contains_key(x@) ==> wg@.contains_key(items@[n as int]@),
            forall|i: int|
                1 <= i <= n ==> (#[trigger] items@[i])@ == old(wg).next_id() + i - 1 && is_square(
                    wg,
                    items@[i]@,
                    items@[i - 1],
                ),
        decreases d - n,
    {
        let last = items[items.len() - 1];
        let ghost before = *wg;
        let id = wg.add_arith(Arith::create(matrix_of([1, 0, 0, 0, 0, 0, 0, 1])), last, last);
        items.push(id);
        n += 1;
        assert forall|i: int| 1 <= i <= n implies (#[trigger] items@[i])@ == old(wg).next_id() + i
            - 1 && is_square(wg, items@[i]@, items@[i - 1]) by {
            if i < n {
                assert(is_square(&before, items@[i]@, items@[i - 1]));
            }
        }
    }
    items
}

} // verus!
