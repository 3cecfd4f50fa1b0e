//! What a workgroup of bilinear and linear-fractional units does, as
//! functions of what it holds.
//!
//! The units that grow their own workgroups keep nothing but such units in
//! them.  None of these units depends on anything outside its state, so a
//! step of such a workgroup is a function, and this module writes it down.
use vstd::prelude::*;
use crate::unit::arith::ArithState;
use crate::unit::lft::LftState;
use crate::workgroup::WorkgroupPhase;
use crate::Term;

verus! {

/// A bilinear or a linear-fractional unit.
pub enum PlainUnit {
    Arith(ArithState),
    Lft(LftState),
}

impl PlainUnit {
    pub open spec fn ingest_x(self, t: Term) -> PlainUnit {
        match self {
            PlainUnit::Arith(a) => PlainUnit::Arith(a.ingest_x(t)),
            PlainUnit::Lft(l) => PlainUnit::Lft(l.ingest_x(t)),
        }
    }

    pub open spec fn ingest_y(self, t: Term) -> PlainUnit {
        match self {
            PlainUnit::Arith(a) => PlainUnit::Arith(a.ingest_y(t)),
            PlainUnit::Lft(l) => PlainUnit::Lft(l),
        }
    }

    pub open spec fn decide(self) -> Term {
        match self {
            PlainUnit::Arith(a) => a.decide().0,
            PlainUnit::Lft(l) => l.decide(),
        }
    }

    pub open spec fn egest_z(self) -> PlainUnit {
        match self {
            PlainUnit::Arith(a) => PlainUnit::Arith(a.egest_z()),
            PlainUnit::Lft(l) => PlainUnit::Lft(l.egest_z()),
        }
    }
}

/// A unit in its place: the numbers of the units that feed it, and the term
/// that it egested last.
pub struct PlainSlot {
    pub unit: PlainUnit,
    pub x: Option<u32>,
    pub y: Option<u32>,
    pub z: Term,
}

/// A workgroup of such units.
pub struct PlainGroup {
    pub units: Map<u32, PlainSlot>,
    pub phase: WorkgroupPhase,
    pub next_id: u32,
}

impl PlainGroup {
    /// Unit `k` after one step of the workgroup.
    pub open spec fn step_slot(self, k: u32) -> PlainSlot {
        let s = self.units[k];
        match self.phase {
            WorkgroupPhase::IngestX => match s.x {
                Some(i) => PlainSlot { unit: s.unit.ingest_x(self.units[i].z), ..s },
                None => s,
            },
            WorkgroupPhase::IngestY => match s.y {
                Some(i) => PlainSlot { unit: s.unit.ingest_y(self.units[i].z), ..s },
                None => s,
            },
            WorkgroupPhase::EgestZ => PlainSlot { unit: s.unit.egest_z(), z: s.unit.decide(), ..s },
        }
    }

    /// The workgroup one step later.
    pub open spec fn cycle(self) -> PlainGroup {
        PlainGroup {
            units: Map::new(|k: u32| self.units.contains_key(k), |k: u32| self.step_slot(k)),
            phase: self.phase.following(),
            ..self
        }
    }

    /// The workgroup after unit `k` was handed a term of its first input.
    pub open spec fn feed_x(self, k: u32, t: Term) -> PlainGroup {
        PlainGroup {
            units: self.units.insert(
                k,
                PlainSlot { unit: self.units[k].unit.ingest_x(t), ..self.units[k] },
            ),
            ..self
        }
    }

    /// The workgroup after unit `k` was handed a term of its second input.
    pub open spec fn feed_y(self, k: u32, t: Term) -> PlainGroup {
        PlainGroup {
            units: self.units.insert(
                k,
                PlainSlot { unit: self.units[k].unit.ingest_y(t), ..self.units[k] },
            ),
            ..self
        }
    }

    /// The workgroup with one more unit, which gets the next number.
    pub open spec fn add(self, slot: PlainSlot) -> PlainGroup {
        PlainGroup {
            units: self.units.insert(self.next_id, slot),
            next_id: (self.next_id + 1) as u32,
            ..self
        }
    }
}

/// Three steps of a workgroup bring back the phase it started in.
pub proof fn three_cycles_restore_the_phase(g: PlainGroup)
    ensures
        g.cycle().cycle().cycle().phase == g.phase,
{
}

} // verus!
