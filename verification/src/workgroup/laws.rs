//! What holds of every workgroup, whatever it holds.
use vstd::prelude::*;
use crate::unit::UnitUnion;
use crate::workgroup::{slot_stepped, UnitConcrete, Workgroup};

verus! {

/// Whether two units are of one kind and in one state.
pub open spec fn same_unit(a: UnitUnion, b: UnitUnion) -> bool {
    match (a, b) {
        (UnitUnion::Arith(x), UnitUnion::Arith(y)) => x@ == y@,
        (UnitUnion::CLogs(x), UnitUnion::CLogs(y)) => x@ == y@,
        (UnitUnion::Compare(x), UnitUnion::Compare(y)) => x@ == y@,
        (UnitUnion::FromCFrac(x), UnitUnion::FromCFrac(y)) => x@ == y@,
        (UnitUnion::Lft(x), UnitUnion::Lft(y)) => x@ == y@,
        (UnitUnion::Modulo(x), UnitUnion::Modulo(y)) => x@ == y@,
        (UnitUnion::Sqrt(x), UnitUnion::Sqrt(y)) => x@ == y@,
        (UnitUnion::ExpTaylor(x), UnitUnion::ExpTaylor(y)) => x@ == y@,
        (UnitUnion::Log2(x), UnitUnion::Log2(y)) => x@ == y@,
        _ => false,
    }
}

/// Whether two units in their places are wired alike, egested the same term
/// last, and are in one state.
pub open spec fn same_slot(a: UnitConcrete, b: UnitConcrete) -> bool {
    a.x == b.x && a.y == b.y && a.z == b.z && same_unit(a.inner, b.inner)
}

/// Whether two workgroups are in one phase and hold the same units in the
/// same states.
pub open spec fn same_state(a: &Workgroup, b: &Workgroup) -> bool {
    &&& a.phase() == b.phase()
    &&& a.next_id() == b.next_id()
    &&& a@.dom() == b@.dom()
    &&& forall|k: u32| a@.contains_key(k) ==> same_slot(#[trigger] a@[k], b@[k])
}

/// Whether no unit of the workgroup takes what it egests from a generator
/// of which nothing is known.
pub open spec fn closed_world(w: &Workgroup) -> bool {
    forall|k: u32| w@.contains_key(k) ==> !(#[trigger] w@[k]).inner.is_outside()
}

/// Whether each workgroup of the sequence is the one before it, one step
/// later.
pub open spec fn is_run(run: Seq<Workgroup>) -> bool {
    forall|i: int| 0 <= i < run.len() - 1 ==> (#[trigger] run[i]).stepped(&run[i + 1])
}

/// Three steps bring a workgroup back to the phase it started in.
pub proof fn three_steps_restore_the_phase(a: &Workgroup, b: &Workgroup, c: &Workgroup, d: &Workgroup)
    requires
        a.stepped(b),
        b.stepped(c),
        c.stepped(d),
    ensures
        d.phase() == a.phase(),
{
}

/// One step of a workgroup without such generators is determined: from the same
/// state, whatever the order in which the units were visited, it leads to
/// the same state, with the same last term at every unit.
pub proof fn a_step_is_determined(a: &Workgroup, b: &Workgroup, a2: &Workgroup, b2: &Workgroup)
    requires
        a.wf(),
        b.wf(),
        same_state(a, b),
        closed_world(a),
        a.stepped(a2),
        b.stepped(b2),
    ensures
        same_state(a2, b2),
        closed_world(a2),
{
    assert forall|k: u32| a2@.contains_key(k) implies same_slot(#[trigger] a2@[k], b2@[k]) && !a2@[k].inner.is_outside() by {
        assert(a@.contains_key(k) && b@.contains_key(k));
        assert(same_slot(a@[k], b@[k]));
        assert(slot_stepped(a@, a.phase(), k, a2@[k]));
        assert(slot_stepped(b@, b.phase(), k, b2@[k]));
        assert(a.wired(a@[k]));
        match a@[k].x {
            Some(s) => {
                assert(same_slot(a@[s@], b@[s@]));
            },
            None => {},
        }
        match a@[k].y {
            Some(s) => {
                assert(same_slot(a@[s@], b@[s@]));
            },
            None => {},
        }
    }
}

/// Runs of the same length from the same state, in workgroups without such
/// generators, pass through the same states: after any number of steps every
/// unit has egested the same last term in both.
pub proof fn runs_are_determined(r1: Seq<Workgroup>, r2: Seq<Workgroup>, n: int)
    requires
        is_run(r1),
        is_run(r2),
        0 <= n < r1.len(),
        r1.len() == r2.len(),
        forall|i: int| 0 <= i < r1.len() ==> (#[trigger] r1[i]).wf(),
        forall|i: int| 0 <= i < r2.len() ==> (#[trigger] r2[i]).wf(),
        same_state(&r1[0], &r2[0]),
        closed_world(&r1[0]),
    ensures
        same_state(&r1[n], &r2[n]),
        closed_world(&r1[n]),
    decreases n,
{
    if n > 0 {
        runs_are_determined(r1, r2, n - 1);
        assert(r1[n - 1].stepped(&r1[n - 1 + 1]));
        assert(r2[n - 1].stepped(&r2[n - 1 + 1]));
        a_step_is_determined(&r1[n - 1], &r2[n - 1], &r1[n], &r2[n]);
    }
}

} // verus!
