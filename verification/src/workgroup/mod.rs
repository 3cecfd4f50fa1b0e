//! The workgroup: a graph of units, stepped in three phases.
//!
//! Units do not pull from their inputs.  In one phase every unit that has a
//! first input ingests the term that input egested last, in the next phase
//! the same happens for second inputs, and in the third phase every unit
//! egests.  No unit reads what another writes in the same phase, so the order
//! of the units within a phase does not matter.
use vstd::prelude::*;
use std::collections::HashMap;
use crate::unit::arith::Arith;
use crate::unit::cfrac::FromCFrac;
use crate::unit::compare::Compare;
use crate::unit::lft::Lft;
use crate::unit::modulo::Modulo;
use crate::unit::sqrt::Sqrt;
use crate::workgroup::exp::ExpTaylor;
use crate::workgroup::log2::Log2;
use crate::unit::{CLogs, Unit, UnitUnion};
use crate::workgroup::plain::{PlainGroup, PlainSlot, PlainUnit};
use crate::Term;

pub mod exp;
pub mod laws;
pub mod log2;
pub mod plain;
pub mod powu;

verus! {

/// What the units of a workgroup do in the next step.
#[derive(Debug, Clone, Copy, PartialEq, Eq, Hash, Structural)]
pub enum WorkgroupPhase {
    IngestX,
    IngestY,
    EgestZ,
}

impl WorkgroupPhase {
    /// The phase that follows this one.
    pub open spec fn following(self) -> WorkgroupPhase {
        match self {
            WorkgroupPhase::IngestX => WorkgroupPhase::IngestY,
            WorkgroupPhase::IngestY => WorkgroupPhase::EgestZ,
            WorkgroupPhase::EgestZ => WorkgroupPhase::IngestX,
        }
    }

    /// The phase that follows this one.
    pub fn next(self) -> (r: WorkgroupPhase)
        ensures
            r == self.following(),
    {
        match self {
            WorkgroupPhase::IngestX => WorkgroupPhase::IngestY,
            WorkgroupPhase::IngestY => WorkgroupPhase::EgestZ,
            WorkgroupPhase::EgestZ => WorkgroupPhase::IngestX,
        }
    }
}

/// The third phase after any phase is that phase again.
pub proof fn phases_repeat_after_three(p: WorkgroupPhase)
    ensures
        p.following().following().following() == p,
{
}

/// The handle of a unit.  A workgroup issues each handle once; a handle means
/// nothing to another workgroup.
#[derive(Debug, Clone, Copy, PartialEq, Eq, Hash, Structural)]
pub struct UnitId(u32);

impl View for UnitId {
    type V = u32;

    closed spec fn view(&self) -> u32 {
        self.0
    }
}

/// Handles with the same number are the same handle.
pub proof fn handles_are_their_numbers(a: UnitId, b: UnitId)
    ensures
        a@ == b@ <==> a == b,
{
}

/// A unit in its place in the graph: where its inputs come from, and the
/// term that it egested last.
pub struct UnitConcrete {
    pub inner: UnitUnion,
    pub x: Option<UnitId>,
    pub y: Option<UnitId>,
    pub z: Term,
}

/// `HashMap::get_mut`: a reference into the map under a key that it holds;
/// what is written through it is what the map holds afterwards.
#[verifier::external_body]
fn slot_mut(units: &mut HashMap<u32, UnitConcrete>, id: u32) -> (r: Option<&mut UnitConcrete>)
    ensures
        !old(units)@.contains_key(id) ==> r.is_none() && final(units)@ == old(units)@,
        old(units)@.contains_key(id) ==> r.is_some() && *r.unwrap() == old(units)@[id]
            && final(units)@ == old(units)@.insert(id, *final(r.unwrap())),
{
    units.get_mut(&id)
}

/// A graph of units and the phase it is in.
pub struct Workgroup {
    max_id: u32,
    units: HashMap<u32, UnitConcrete>,
    pub current_phase: WorkgroupPhase,
}

impl View for Workgroup {
    type V = Map<u32, UnitConcrete>;

    /// The units by the numbers of their handles.
    closed spec fn view(&self) -> Map<u32, UnitConcrete> {
        self.units@
    }
}

/// Whether `after` is what one step in `phase` makes of unit `k` of `units`.
pub open spec fn slot_stepped(
    units: Map<u32, UnitConcrete>,
    phase: WorkgroupPhase,
    k: u32,
    after: UnitConcrete,
) -> bool {
    let before = units[k];
    &&& after.x == before.x
    &&& after.y == before.y
    &&& match phase {
        WorkgroupPhase::IngestX => after.z == before.z && match before.x {
            Some(s) => before.inner.ingested_x(units[s@].z, after.inner),
            None => after.inner == before.inner,
        },
        WorkgroupPhase::IngestY => after.z == before.z && match before.y {
            Some(s) => before.inner.ingested_y(units[s@].z, after.inner),
            None => after.inner == before.inner,
        },
        WorkgroupPhase::EgestZ => before.inner.egested(after.inner, after.z),
    }
}

/// A bilinear or linear-fractional unit as its state; any other unit counts
/// as an idle linear-fractional one.
pub open spec fn plain_unit(u: UnitUnion) -> PlainUnit {
    match u {
        UnitUnion::Arith(a) => PlainUnit::Arith(a@),
        UnitUnion::Lft(l) => PlainUnit::Lft(l@),
        _ => PlainUnit::Lft(
            crate::unit::lft::LftState {
                m: crate::unit::lft::Mobius::identity(),
                egest_enabled: false,
            },
        ),
    }
}

/// The number of an optional handle.
pub open spec fn number_of(id: Option<UnitId>) -> Option<u32> {
    match id {
        Some(i) => Some(i@),
        None => None,
    }
}

/// A unit in its place, as its state.
pub open spec fn plain_slot(u: UnitConcrete) -> PlainSlot {
    PlainSlot { unit: plain_unit(u.inner), x: number_of(u.x), y: number_of(u.y), z: u.z }
}

impl Workgroup {
    /// The workgroup holds the units with the handles issued so far, all of
    /// them bilinear or linear-fractional and wired to units that it holds.
    pub open spec fn plain(&self) -> bool {
        &&& self@.dom().finite()
        &&& forall|k: u32| self@.contains_key(k) <==> k < self.next_id()
        &&& forall|k: u32| self@.contains_key(k) ==> self.wired(#[trigger] self@[k])
        &&& forall|k: u32|
            self@.contains_key(k) ==> ((#[trigger] self@[k]).inner is Arith || self@[k].inner is Lft)
    }

    /// The states of the units of a plain workgroup.
    pub open spec fn plain_view(&self) -> PlainGroup {
        PlainGroup {
            units: Map::new(|k: u32| self@.contains_key(k), |k: u32| plain_slot(self@[k])),
            phase: self.phase(),
            next_id: self.next_id(),
        }
    }

    /// A plain workgroup is well formed.
    pub proof fn plain_is_wf(&self)
        requires
            self.plain(),
        ensures
            self.wf(),
    {
    }

    /// A step of a plain workgroup leaves a plain workgroup, and what it
    /// holds is a function of what the workgroup held before.
    pub proof fn plain_step(&self, post: &Workgroup)
        requires
            self.plain(),
            self.stepped(post),
        ensures
            post.plain(),
            post.plain_view() == self.plain_view().cycle(),
    {
        assert forall|k: u32| post@.contains_key(k) implies post.wired(#[trigger] post@[k]) && (
        post@[k].inner is Arith || post@[k].inner is Lft) && plain_slot(post@[k])
            == self.plain_view().step_slot(k) by {
            assert(self@.contains_key(k));
            assert(self.wired(self@[k]));
            assert(slot_stepped(self@, self.phase(), k, post@[k]));
        }
        assert(post.plain_view().units =~= self.plain_view().cycle().units);
    }

    /// The number of the handle that is issued next.
    pub closed spec fn next_id(&self) -> u32 {
        self.max_id
    }

    /// The phase that the next step carries out.
    pub closed spec fn phase(&self) -> WorkgroupPhase {
        self.current_phase
    }

    /// Whether the inputs of a unit are units of this workgroup.
    pub open spec fn wired(&self, u: UnitConcrete) -> bool {
        &&& u.x matches Some(s) ==> self@.contains_key(s@)
        &&& u.y matches Some(s) ==> self@.contains_key(s@)
    }

    /// The workgroup holds the units with the handles issued so far, each
    /// well formed and wired to units that it holds.
    pub open spec fn wf(&self) -> bool {
        &&& self@.dom().finite()
        &&& forall|k: u32| self@.contains_key(k) <==> k < self.next_id()
        &&& forall|k: u32| self@.contains_key(k) ==> self.wired(#[trigger] self@[k])
        &&& forall|k: u32| self@.contains_key(k) ==> (#[trigger] self@[k]).inner.wf()
    }

    /// Whether `post` is this workgroup one step later.
    pub open spec fn stepped(&self, post: &Workgroup) -> bool {
        &&& post.phase() == self.phase().following()
        &&& post.next_id() == self.next_id()
        &&& post@.dom() == self@.dom()
        &&& forall|k: u32|
            self@.contains_key(k) ==> slot_stepped(self@, self.phase(), k, #[trigger] post@[k])
    }

    /// An empty workgroup, about to egest.
    pub fn create() -> (r: Workgroup)
        ensures
            r@ == Map::<u32, UnitConcrete>::empty(),
            r.next_id() == 0,
            r.phase() == WorkgroupPhase::EgestZ,
            r.wf(),
    {
        Workgroup { max_id: 0, units: HashMap::new(), current_phase: WorkgroupPhase::EgestZ }
    }

    /// The phase that the next step carries out.
    pub fn current_phase(&self) -> (r: WorkgroupPhase)
        ensures
            r == self.phase(),
    {
        self.current_phase
    }

    /// How many handles the workgroup has issued.
    pub fn issued(&self) -> (n: u32)
        ensures
            n == self.next_id(),
    {
        self.max_id
    }

    /// The unit behind a handle that this workgroup issued.
    pub fn get_unit(&self, id: UnitId) -> (r: &UnitConcrete)
        requires
            self@.contains_key(id@),
        ensures
            *r == self@[id@],
    {
        broadcast use vstd::std_specs::hash::group_hash_axioms;

        self.units.get(&id.0).unwrap()
    }

    /// The unit behind a handle that this workgroup issued, to be changed in
    /// place.
    pub fn get_unit_mut(&mut self, id: UnitId) -> (r: &mut UnitConcrete)
        requires
            old(self)@.contains_key(id@),
        ensures
            *r == old(self)@[id@],
            final(self)@ == old(self)@.insert(id@, *final(r)),
            final(self).next_id() == old(self).next_id(),
            final(self).phase() == old(self).phase(),
    {
        slot_mut(&mut self.units, id.0).unwrap()
    }

    fn new_id(&mut self) -> (id: UnitId)
        requires
            old(self).next_id() < u32::MAX,
        ensures
            id@ == old(self).next_id(),
            final(self).next_id() == old(self).next_id() + 1,
            final(self)@ == old(self)@,
            final(self).phase() == old(self).phase(),
    {
        let id = UnitId(self.max_id);
        self.max_id += 1;
        id
    }

    /// Puts a unit into the graph and issues its handle.
    pub fn add_unit(&mut self, unit: UnitConcrete) -> (id: UnitId)
        requires
            old(self).next_id() < u32::MAX,
        ensures
            id@ == old(self).next_id(),
            final(self).next_id() == old(self).next_id() + 1,
            final(self)@ == old(self)@.insert(id@, unit),
            final(self).phase() == old(self).phase(),
            old(self).wf() && old(self).wired(unit) && unit.inner.wf() ==> final(self).wf(),
            old(self).plain() && old(self).wired(unit) && (unit.inner is Arith || unit.inner is Lft)
                ==> final(self).plain() && final(self).plain_view() == old(self).plain_view().add(
                plain_slot(unit),
            ),
    {
        broadcast use vstd::std_specs::hash::group_hash_axioms;

        let id = self.new_id();
        self.units.insert(id.0, unit);
        proof {
            if old(self).plain() && old(self).wired(unit) && (unit.inner is Arith
                || unit.inner is Lft) {
                assert(self.plain_view().units =~= old(self).plain_view().add(
                    plain_slot(unit),
                ).units);
            }
        }
        id
    }

    /// How the workgroup ranks among the things that step one another.
    pub open spec fn level(&self) -> int {
        if self.plain() {
            1
        } else {
            4
        }
    }

    /// Hands a term to the first input of a unit, outside the schedule.
    pub fn feed_x(&mut self, id: UnitId, t: Term)
        requires
            old(self).wf(),
            old(self)@.contains_key(id@),
        ensures
            final(self).wf(),
            final(self).next_id() == old(self).next_id(),
            final(self).phase() == old(self).phase(),
            final(self)@ == old(self)@.insert(
                id@,
                UnitConcrete { inner: final(self)@[id@].inner, ..old(self)@[id@] },
            ),
            old(self)@[id@].inner.ingested_x(t, final(self)@[id@].inner),
            old(self).plain() ==> final(self).plain() && final(self).plain_view() == old(
                self,
            ).plain_view().feed_x(id@, t),
        decreases old(self).level(),
    {
        let unit = slot_mut(&mut self.units, id.0).unwrap();
        unit.inner.ingest_x(t);
        proof {
            if old(self).plain() {
                assert(old(self).wired(old(self)@[id@]));
                assert(self.plain_view().units =~= old(self).plain_view().feed_x(id@, t).units);
            }
        }
    }

    /// Hands a term to the second input of a unit, outside the schedule.
    pub fn feed_y(&mut self, id: UnitId, t: Term)
        requires
            old(self).wf(),
            old(self)@.contains_key(id@),
        ensures
            final(self).wf(),
            final(self).next_id() == old(self).next_id(),
            final(self).phase() == old(self).phase(),
            final(self)@ == old(self)@.insert(
                id@,
                UnitConcrete { inner: final(self)@[id@].inner, ..old(self)@[id@] },
            ),
            old(self)@[id@].inner.ingested_y(t, final(self)@[id@].inner),
            old(self).plain() ==> final(self).plain() && final(self).plain_view() == old(
                self,
            ).plain_view().feed_y(id@, t),
        decreases old(self).level(),
    {
        let unit = slot_mut(&mut self.units, id.0).unwrap();
        unit.inner.ingest_y(t);
        proof {
            if old(self).plain() {
                assert(old(self).wired(old(self)@[id@]));
                assert(self.plain_view().units =~= old(self).plain_view().feed_y(id@, t).units);
            }
        }
    }

    /// Puts a bilinear unit into the graph, fed by `x` and `y`.
    pub fn add_arith(&mut self, unit: Arith, x: UnitId, y: UnitId) -> (id: UnitId)
        requires
            old(self).next_id() < u32::MAX,
        ensures
            id@ == old(self).next_id(),
            final(self).next_id() == old(self).next_id() + 1,
            final(self)@ == old(self)@.insert(
                id@,
                UnitConcrete { inner: UnitUnion::Arith(unit), x: Some(x), y: Some(y), z: Term::Empty },
            ),
            final(self).phase() == old(self).phase(),
            old(self).wf() && old(self).wired(
                UnitConcrete { inner: UnitUnion::Arith(unit), x: Some(x), y: Some(y), z: Term::Empty },
            ) && unit.wf() ==> final(self).wf(),
            old(self).plain() && old(self).wired(
                UnitConcrete { inner: UnitUnion::Arith(unit), x: Some(x), y: Some(y), z: Term::Empty },
            ) ==> final(self).plain() && final(self).plain_view() == old(self).plain_view().add(
                plain_slot(
                    UnitConcrete { inner: UnitUnion::Arith(unit), x: Some(x), y: Some(y), z: Term::Empty },
                ),
            ),
    {
        self.add_unit(
            UnitConcrete { inner: UnitUnion::Arith(unit), x: Some(x), y: Some(y), z: Term::Empty },
        )
    }

    /// Puts a square-root unit into the graph, fed by `x`.
    pub fn add_sqrt(&mut self, unit: Sqrt, x: UnitId) -> (id: UnitId)
        requires
            old(self).next_id() < u32::MAX,
        ensures
            id@ == old(self).next_id(),
            final(self).next_id() == old(self).next_id() + 1,
            final(self)@ == old(self)@.insert(
                id@,
                UnitConcrete { inner: UnitUnion::Sqrt(unit), x: Some(x), y: None, z: Term::Empty },
            ),
            final(self).phase() == old(self).phase(),
            old(self).wf() && old(self).wired(
                UnitConcrete { inner: UnitUnion::Sqrt(unit), x: Some(x), y: None, z: Term::Empty },
            ) && unit.wf() ==> final(self).wf(),
    {
        self.add_unit(
            UnitConcrete { inner: UnitUnion::Sqrt(unit), x: Some(x), y: None, z: Term::Empty },
        )
    }

    /// Puts a continued-fraction source into the graph.
    pub fn add_from_cfrac(&mut self, unit: FromCFrac) -> (id: UnitId)
        requires
            old(self).next_id() < u32::MAX,
        ensures
            id@ == old(self).next_id(),
            final(self).next_id() == old(self).next_id() + 1,
            final(self)@ == old(self)@.insert(
                id@,
                UnitConcrete { inner: UnitUnion::FromCFrac(unit), x: None, y: None, z: Term::Empty },
            ),
            final(self).phase() == old(self).phase(),
            old(self).wf() && old(self).wired(
                UnitConcrete { inner: UnitUnion::FromCFrac(unit), x: None, y: None, z: Term::Empty },
            ) && unit.wf() ==> final(self).wf(),
    {
        self.add_unit(
            UnitConcrete { inner: UnitUnion::FromCFrac(unit), x: None, y: None, z: Term::Empty },
        )
    }

    /// Puts a source of given terms into the graph.
    pub fn add_clogs(&mut self, unit: CLogs) -> (id: UnitId)
        requires
            old(self).next_id() < u32::MAX,
        ensures
            id@ == old(self).next_id(),
            final(self).next_id() == old(self).next_id() + 1,
            final(self)@ == old(self)@.insert(
                id@,
                UnitConcrete { inner: UnitUnion::CLogs(unit), x: None, y: None, z: Term::Empty },
            ),
            final(self).phase() == old(self).phase(),
            old(self).wf() && old(self).wired(
                UnitConcrete { inner: UnitUnion::CLogs(unit), x: None, y: None, z: Term::Empty },
            ) && unit.wf() ==> final(self).wf(),
    {
        self.add_unit(
            UnitConcrete { inner: UnitUnion::CLogs(unit), x: None, y: None, z: Term::Empty },
        )
    }

    /// Puts a linear-fractional unit into the graph, fed by `x` if there is one.
    pub fn add_lft(&mut self, unit: Lft, x: Option<UnitId>) -> (id: UnitId)
        requires
            old(self).next_id() < u32::MAX,
        ensures
            id@ == old(self).next_id(),
            final(self).next_id() == old(self).next_id() + 1,
            final(self)@ == old(self)@.insert(
                id@,
                UnitConcrete { inner: UnitUnion::Lft(unit), x: x, y: None, z: Term::Empty },
            ),
            final(self).phase() == old(self).phase(),
            old(self).wf() && old(self).wired(
                UnitConcrete { inner: UnitUnion::Lft(unit), x: x, y: None, z: Term::Empty },
            ) && unit.wf() ==> final(self).wf(),
            old(self).plain() && old(self).wired(
                UnitConcrete { inner: UnitUnion::Lft(unit), x: x, y: None, z: Term::Empty },
            ) ==> final(self).plain() && final(self).plain_view() == old(self).plain_view().add(
                plain_slot(
                    UnitConcrete { inner: UnitUnion::Lft(unit), x: x, y: None, z: Term::Empty },
                ),
            ),
    {
        self.add_unit(
            UnitConcrete { inner: UnitUnion::Lft(unit), x: x, y: None, z: Term::Empty },
        )
    }

    /// Puts a remainder unit into the graph, fed by `x` and `y`.
    pub fn add_modulo(&mut self, unit: Modulo, x: UnitId, y: UnitId) -> (id: UnitId)
        requires
            old(self).next_id() < u32::MAX,
        ensures
            id@ == old(self).next_id(),
            final(self).next_id() == old(self).next_id() + 1,
            final(self)@ == old(self)@.insert(
                id@,
                UnitConcrete { inner: UnitUnion::Modulo(unit), x: Some(x), y: Some(y), z: Term::Empty },
            ),
            final(self).phase() == old(self).phase(),
            old(self).wf() && old(self).wired(
                UnitConcrete { inner: UnitUnion::Modulo(unit), x: Some(x), y: Some(y), z: Term::Empty },
            ) && unit.wf() ==> final(self).wf(),
    {
        self.add_unit(
            UnitConcrete { inner: UnitUnion::Modulo(unit), x: Some(x), y: Some(y), z: Term::Empty },
        )
    }

    /// Puts a comparison unit into the graph, fed by `x` and `y`.
    pub fn add_compare(&mut self, unit: Compare, x: UnitId, y: UnitId) -> (id: UnitId)
        requires
            old(self).next_id() < u32::MAX,
        ensures
            id@ == old(self).next_id(),
            final(self).next_id() == old(self).next_id() + 1,
            final(self)@ == old(self)@.insert(
                id@,
                UnitConcrete { inner: UnitUnion::Compare(unit), x: Some(x), y: Some(y), z: Term::Empty },
            ),
            final(self).phase() == old(self).phase(),
            old(self).wf() && old(self).wired(
                UnitConcrete { inner: UnitUnion::Compare(unit), x: Some(x), y: Some(y), z: Term::Empty },
            ) && unit.wf() ==> final(self).wf(),
    {
        self.add_unit(
            UnitConcrete { inner: UnitUnion::Compare(unit), x: Some(x), y: Some(y), z: Term::Empty },
        )
    }

    /// Puts an exponential unit into the graph, fed by `x`.
    pub fn add_exp_taylor(&mut self, unit: ExpTaylor, x: UnitId) -> (id: UnitId)
        requires
            old(self).next_id() < u32::MAX,
        ensures
            id@ == old(self).next_id(),
            final(self).next_id() == old(self).next_id() + 1,
            final(self)@ == old(self)@.insert(
                id@,
                UnitConcrete { inner: UnitUnion::ExpTaylor(unit), x: Some(x), y: None, z: Term::Empty },
            ),
            final(self).phase() == old(self).phase(),
            old(self).wf() && old(self).wired(
                UnitConcrete { inner: UnitUnion::ExpTaylor(unit), x: Some(x), y: None, z: Term::Empty },
            ) && unit.wf() ==> final(self).wf(),
    {
        self.add_unit(
            UnitConcrete { inner: UnitUnion::ExpTaylor(unit), x: Some(x), y: None, z: Term::Empty },
        )
    }

    /// Puts a binary-logarithm unit into the graph, fed by `x`.
    pub fn add_log2(&mut self, unit: Log2, x: UnitId) -> (id: UnitId)
        requires
            old(self).next_id() < u32::MAX,
        ensures
            id@ == old(self).next_id(),
            final(self).next_id() == old(self).next_id() + 1,
            final(self)@ == old(self)@.insert(
                id@,
                UnitConcrete { inner: UnitUnion::Log2(unit), x: Some(x), y: None, z: Term::Empty },
            ),
            final(self).phase() == old(self).phase(),
            old(self).wf() && old(self).wired(
                UnitConcrete { inner: UnitUnion::Log2(unit), x: Some(x), y: None, z: Term::Empty },
            ) && unit.wf() ==> final(self).wf(),
    {
        self.add_unit(
            UnitConcrete { inner: UnitUnion::Log2(unit), x: Some(x), y: None, z: Term::Empty },
        )
    }

    /// Carries out the current phase on every unit and moves on to the next
    /// phase: each unit with a first input ingests the term that input
    /// egested last, or each unit with a second input does, or each unit
    /// egests a term and keeps it as its last.
    pub fn cycle(&mut self)
        requires
            old(self).wf(),
        ensures
            final(self).wf(),
            old(self).stepped(final(self)),
            old(self).plain() ==> final(self).plain() && final(self).plain_view() == old(
                self,
            ).plain_view().cycle(),
        decreases old(self).level(),
    {
        broadcast use vstd::std_specs::hash::group_hash_axioms;

        let phase = self.current_phase;
        let mut id: u32 = 0;
        while id < self.max_id
            invariant
                old(self).wf(),
                id <= self.max_id,
                self.max_id == old(self).max_id,
                self.current_phase == old(self).current_phase,
                phase == self.current_phase,
                self.units@.dom() == old(self).units@.dom(),
                forall|k: u32| self.units@.contains_key(k) ==> (#[trigger] self.units@[k]).inner.wf(),
                forall|k: u32|
                    self.units@.contains_key(k) && k < id ==> slot_stepped(
                        old(self).units@,
                        phase,
                        k,
                        #[trigger] self.units@[k],
                    ),
                forall|k: u32|
                    self.units@.contains_key(k) && k >= id ==> #[trigger] self.units@[k] == old(
                        self,
                    ).units@[k],
                phase != WorkgroupPhase::EgestZ ==> forall|k: u32|
                    self.units@.contains_key(k) ==> (#[trigger] self.units@[k]).z == old(
                        self,
                    ).units@[k].z,
            decreases self.max_id - id,
        {
            assert(self.units@.contains_key(id));
            let ghost before = self.units@[id];
            assert(old(self).wired(before));
            match phase {
                WorkgroupPhase::IngestX => {
                    let source = self.units.get(&id).unwrap().x;
                    match source {
                        Some(x) => {
                            let term = self.units.get(&x.0).unwrap().z;
                            let unit = slot_mut(&mut self.units, id).unwrap();
                            unit.inner.ingest_x(term);
                        },
                        None => {},
                    }
                },
                WorkgroupPhase::IngestY => {
                    let source = self.units.get(&id).unwrap().y;
                    match source {
                        Some(y) => {
                            let term = self.units.get(&y.0).unwrap().z;
                            let unit = slot_mut(&mut self.units, id).unwrap();
                            unit.inner.ingest_y(term);
                        },
                        None => {},
                    }
                },
                WorkgroupPhase::EgestZ => {
                    let unit = slot_mut(&mut self.units, id).unwrap();
                    unit.z = unit.inner.egest_z();
                },
            }
            id += 1;
        }
        self.current_phase = self.current_phase.next();
        proof {
            if old(self).plain() {
                old(self).plain_step(self);
            }
        }
    }
}

} // verus!
