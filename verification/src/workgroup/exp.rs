//! The exponential, as a workgroup that grows.
//!
//! `e^x = 1 + x + x^2/2! + x^3/3! + ..`.  Layer `i` of the workgroup holds a
//! unit for the term `x * previous term / (i + 2)` and a unit for the sum
//! `1 + term + previous sum`.  The unit egests what the last sum egests, and
//! adds a layer when that sum has run out or has been leaned on for long.
//! Works best for `0 < x < 1`.
use vstd::prelude::*;
use crate::bigint::big_from;
use crate::matrix::scale_at;
use crate::unit::arith::{clone_matrix, matrix_of, Arith, ArithState, Bilinear};
use crate::unit::{Unit, UnitUnion};
use crate::workgroup::plain::{PlainGroup, PlainSlot, PlainUnit};
use crate::workgroup::{UnitConcrete, UnitId, Workgroup, WorkgroupPhase};
use crate::Term;

verus! {

/// The most layers for which the workgroup still has two handles to issue.
pub const MAX_LAYERS: usize = 2147483645;

/// A bilinear unit that starts from the given matrix.
pub open spec fn fresh(m: Bilinear) -> PlainUnit {
    PlainUnit::Arith(ArithState { m, singular: false })
}

/// The matrix with its numerator multiplied by `p` and its denominator by
/// `q`.
pub open spec fn scaled(m: Bilinear, p: int, q: int) -> Bilinear {
    Bilinear {
        a: m.a * p,
        b: m.b * p,
        c: m.c * p,
        d: m.d * p,
        e: m.e * q,
        f: m.f * q,
        g: m.g * q,
        h: m.h * q,
    }
}

/// What an `ExpTaylor` is to its contracts.  In `group`, unit 0 is the first
/// term `x*x/2`, unit 1 the first sum `1 + x + x*x/2`, and layer `i` (from 0)
/// has its term as unit `2i + 2` and its sum as unit `2i + 3`.
pub struct ExpState {
    pub group: PlainGroup,
    pub layers: nat,
    /// Fed with `x` and with what the last term egests; the term of the next
    /// layer.
    pub next_taylor: ArithState,
    /// Fed with `x`; the term of the layer after the next.
    pub next_next_taylor: ArithState,
    /// Fed with what the unit egests; the sum of the next layer.
    pub next_out: ArithState,
    /// The terms other than `Empty` that the last sum egested since the last
    /// layer was added.
    pub egests: nat,
}

impl ExpState {
    pub open spec fn start() -> ExpState {
        let term = |k: int| Bilinear { a: 1, b: 0, c: 0, d: 0, e: 0, f: 0, g: 0, h: k };
        let sum = Bilinear { a: 0, b: 1, c: 1, d: 0, e: 0, f: 0, g: 0, h: 1 };
        ExpState {
            group: PlainGroup {
                units: Map::<u32, PlainSlot>::empty().insert(
                    0,
                    PlainSlot { unit: fresh(term(2)), x: None, y: None, z: Term::Empty },
                ).insert(
                    1,
                    PlainSlot {
                        unit: fresh(Bilinear { a: 0, b: 1, c: 1, d: 1, e: 0, f: 0, g: 0, h: 1 }),
                        x: None,
                        y: Some(0),
                        z: Term::Empty,
                    },
                ).insert(
                    2,
                    PlainSlot { unit: fresh(term(3)), x: None, y: Some(0), z: Term::Empty },
                ).insert(
                    3,
                    PlainSlot { unit: fresh(sum), x: Some(2), y: Some(1), z: Term::Empty },
                ),
                phase: WorkgroupPhase::EgestZ,
                next_id: 4,
            },
            layers: 1,
            next_taylor: ArithState { m: term(4), singular: false },
            next_next_taylor: ArithState { m: term(5), singular: false },
            next_out: ArithState { m: sum, singular: false },
            egests: 0,
        }
    }

    /// The workgroup after `x` was handed to the first term (on both
    /// inputs), to the first sum, and to the terms of the first `n` layers.
    pub open spec fn fed(self, x: Term, n: nat) -> PlainGroup {
        PlainGroup {
            units: Map::new(
                |k: u32| self.group.units.contains_key(k),
                |k: u32|
                    {
                        let s = self.group.units[k];
                        if k == 0 {
                            PlainSlot { unit: s.unit.ingest_x(x).ingest_y(x), ..s }
                        } else if k == 1 || (k % 2 == 0 && k < 2 * n + 2) {
                            PlainSlot { unit: s.unit.ingest_x(x), ..s }
                        } else {
                            s
                        }
                    },
            ),
            ..self.group
        }
    }

    /// A term of `x` goes to every term unit and to the first sum; two steps
    /// of the workgroup then carry what the units egested last through both
    /// inputs; the two staged terms follow `x` too.
    pub open spec fn ingest_x(self, x: Term) -> ExpState {
        ExpState {
            group: self.fed(x, self.layers).cycle().cycle(),
            next_taylor: self.next_taylor.ingest_x(x),
            next_next_taylor: self.next_next_taylor.ingest_x(x),
            ..self
        }
    }

    pub open spec fn can_grow(self) -> bool {
        self.layers <= MAX_LAYERS
    }

    /// One more layer: the staged term and the staged sum become units, the
    /// term after the next becomes the next, and its successor gets the next
    /// factor of the factorial.
    pub open spec fn add_layer(self) -> ExpState {
        let l = self.layers;
        ExpState {
            group: self.group.add(
                PlainSlot {
                    unit: fresh(self.next_taylor.m),
                    x: None,
                    y: Some((2 * l) as u32),
                    z: Term::Empty,
                },
            ).add(
                PlainSlot {
                    unit: fresh(self.next_out.m),
                    x: Some((2 * l + 2) as u32),
                    y: Some((2 * l + 1) as u32),
                    z: Term::Empty,
                },
            ),
            layers: l + 1,
            next_taylor: ArithState { m: self.next_next_taylor.m, ..self.next_taylor },
            next_next_taylor: ArithState {
                m: scaled(self.next_next_taylor.m, l as int + 4, l as int + 5),
                ..self.next_next_taylor
            },
            ..self
        }
    }

    /// One egestion: the state that it leaves and the term that it returns.
    /// The workgroup takes one step.  The staged term reads what the last
    /// term egested.  If the last sum has ended in `Inf`, or has egested
    /// more than 16 terms per layer since the last layer was added, this
    /// term included, a layer is added and nothing is egested; else the
    /// staged sum follows the term that leaves.
    pub open spec fn egest_z(self) -> (ExpState, Term) {
        let group = self.group.cycle();
        let l = self.layers;
        let out_term = group.units[(2 * l + 1) as u32].z;
        let counted: nat = if out_term != Term::Empty && self.egests < u32::MAX {
            self.egests + 1
        } else {
            self.egests
        };
        let stepped = ExpState {
            group,
            next_taylor: self.next_taylor.ingest_y(group.units[(2 * l) as u32].z),
            egests: counted,
            ..self
        };
        if (out_term == Term::Inf || counted > 16 * l) && self.can_grow() {
            (ExpState { egests: 0, ..stepped.add_layer() }, Term::Empty)
        } else {
            (
                ExpState {
                    next_out: ArithState {
                        m: self.next_out.ingest_y(out_term).m.egest(out_term),
                        ..self.next_out
                    },
                    ..stepped
                },
                out_term,
            )
        }
    }
}

/// The exponential transducer.
pub struct ExpTaylor {
    inner: Workgroup,
    init_term: UnitId,
    init_out: UnitId,
    taylor_terms: Vec<UnitId>,
    outs: Vec<UnitId>,
    next_taylor: Arith,
    next_next_taylor: Arith,
    next_out: Arith,
    real_egests_since_last_layer: u32,
}

impl View for ExpTaylor {
    type V = ExpState;

    closed spec fn view(&self) -> ExpState {
        ExpState {
            group: self.inner.plain_view(),
            layers: self.taylor_terms@.len(),
            next_taylor: self.next_taylor@,
            next_next_taylor: self.next_next_taylor@,
            next_out: self.next_out@,
            egests: self.real_egests_since_last_layer as nat,
        }
    }
}

impl ExpTaylor {
    /// The unit with one layer, having read nothing.
    pub fn create() -> (r: Self)
        ensures
            r.wf(),
            r@ == ExpState::start(),
    {
        let mut wg = Workgroup::create();
        proof {
            assert(wg.plain());
        }
        let init_term = wg.add_unit(
            UnitConcrete {
                inner: UnitUnion::Arith(Arith::create(matrix_of([1, 0, 0, 0, 0, 0, 0, 2]))),
                x: None,
                y: None,
                z: Term::Empty,
            },
        );
        let init_out = wg.add_unit(
            UnitConcrete {
                inner: UnitUnion::Arith(Arith::create(matrix_of([0, 1, 1, 1, 0, 0, 0, 1]))),
                x: None,
                y: Some(init_term),
                z: Term::Empty,
            },
        );
        let first_term = wg.add_unit(
            UnitConcrete {
                inner: UnitUnion::Arith(Arith::create(matrix_of([1, 0, 0, 0, 0, 0, 0, 3]))),
                x: None,
                y: Some(init_term),
                z: Term::Empty,
            },
        );
        let first_out = wg.add_unit(
            UnitConcrete {
                inner: UnitUnion::Arith(Arith::create(matrix_of([0, 1, 1, 0, 0, 0, 0, 1]))),
                x: Some(first_term),
                y: Some(init_out),
                z: Term::Empty,
            },
        );
        let mut taylor_terms = Vec::new();
        taylor_terms.push(first_term);
        let mut outs = Vec::new();
        outs.push(first_out);
        let r = Self {
            inner: wg,
            init_term,
            init_out,
            taylor_terms,
            outs,
            next_taylor: Arith::create(matrix_of([1, 0, 0, 0, 0, 0, 0, 4])),
            next_next_taylor: Arith::create(matrix_of([1, 0, 0, 0, 0, 0, 0, 5])),
            next_out: Arith::create(matrix_of([0, 1, 1, 0, 0, 0, 0, 1])),
            real_egests_since_last_layer: 0,
        };
        proof {
            assert(r@.group.units =~= ExpState::start().group.units);
        }
        r
    }

    /// How many layers the workgroup has.
    pub fn layers(&self) -> (n: usize)
        ensures
            n == self@.layers,
    {
        self.taylor_terms.len()
    }

    /// Adds a layer to the workgroup.
    pub fn add_layer(&mut self)
        requires
            old(self).wf(),
            old(self)@.can_grow(),
        ensures
            final(self).wf(),
            final(self)@ == old(self)@.add_layer(),
    {
        let len = self.taylor_terms.len();
        let last_term = self.taylor_terms[len - 1];
        let last_out = self.outs[len - 1];
        let new_last_term = self.inner.add_unit(
            UnitConcrete {
                inner: UnitUnion::Arith(Arith::create(clone_matrix(&self.next_taylor.mat))),
                x: None,
                y: Some(last_term),
                z: Term::Empty,
            },
        );
        self.next_taylor.mat = clone_matrix(&self.next_next_taylor.mat);
        let p = big_from((len + 4) as i64);
        let q = big_from((len + 5) as i64);
        scale_at(&mut self.next_next_taylor.mat, 0, &p);
        scale_at(&mut self.next_next_taylor.mat, 1, &p);
        scale_at(&mut self.next_next_taylor.mat, 2, &p);
        scale_at(&mut self.next_next_taylor.mat, 3, &p);
        scale_at(&mut self.next_next_taylor.mat, 4, &q);
        scale_at(&mut self.next_next_taylor.mat, 5, &q);
        scale_at(&mut self.next_next_taylor.mat, 6, &q);
        scale_at(&mut self.next_next_taylor.mat, 7, &q);
        self.taylor_terms.push(new_last_term);
        let out = self.inner.add_unit(
            UnitConcrete {
                inner: UnitUnion::Arith(Arith::create(clone_matrix(&self.next_out.mat))),
                x: Some(new_last_term),
                y: Some(last_out),
                z: Term::Empty,
            },
        );
        self.outs.push(out);
    }
}

impl Unit for ExpTaylor {
    /// The workgroup holds bilinear and linear-fractional units only, under
    /// the numbers that the layers are known by.
    closed spec fn wf(&self) -> bool {
        &&& self.inner.plain()
        &&& 1 <= self.taylor_terms@.len() <= MAX_LAYERS + 1
        &&& self.outs@.len() == self.taylor_terms@.len()
        &&& self.inner.next_id() == 2 * self.taylor_terms@.len() + 2
        &&& self.init_term@ == 0
        &&& self.init_out@ == 1
        &&& forall|i: int|
            0 <= i < self.taylor_terms@.len() ==> (#[trigger] self.taylor_terms@[i])@ == 2 * i + 2
        &&& forall|i: int| 0 <= i < self.outs@.len() ==> (#[trigger] self.outs@[i])@ == 2 * i + 3
    }

    fn ingest_x(&mut self, x: Term)
        ensures
            final(self)@ == old(self)@.ingest_x(x),
        decreases 2int,
    {
        proof {
            self.inner.plain_is_wf();
        }
        self.inner.feed_x(self.init_term, x);
        self.inner.feed_y(self.init_term, x);
        self.inner.feed_x(self.init_out, x);
        assert(self.inner.plain_view().units =~= old(self)@.fed(x, 0).units);
        let len = self.taylor_terms.len();
        let mut i: usize = 0;
        while i < len
            invariant
                i <= len,
                len == self.taylor_terms@.len(),
                self.wf(),
                self.taylor_terms == old(self).taylor_terms,
                self.inner.plain_view() == old(self)@.fed(x, i as nat),
                self.next_taylor == old(self).next_taylor,
                self.next_next_taylor == old(self).next_next_taylor,
                self.next_out == old(self).next_out,
                self.real_egests_since_last_layer == old(self).real_egests_since_last_layer,
            decreases len - i,
        {
            let id = self.taylor_terms[i];
            proof {
                self.inner.plain_is_wf();
            }
            self.inner.feed_x(id, x);
            assert(self.inner.plain_view().units =~= old(self)@.fed(x, (i + 1) as nat).units);
            i += 1;
        }
        proof {
            self.inner.plain_is_wf();
        }
        self.inner.cycle();
        proof {
            self.inner.plain_is_wf();
        }
        self.inner.cycle();
        self.next_taylor.ingest_x(x);
        self.next_next_taylor.ingest_x(x);
    }

    /// The exponential has no second input.
    fn ingest_y(&mut self, _y: Term)
        ensures
            final(self)@ == old(self)@,
    {
    }

    fn egest_z(&mut self) -> (z: Term)
        ensures
            z == old(self)@.egest_z().1,
            final(self)@ == old(self)@.egest_z().0,
        decreases 2int,
    {
        proof {
            self.inner.plain_is_wf();
        }
        self.inner.cycle();
        let len = self.taylor_terms.len();
        let last_taylor = self.inner.get_unit(self.taylor_terms[len - 1]).z;
        self.next_taylor.ingest_y(last_taylor);
        let out_term = self.inner.get_unit(self.outs[len - 1]).z;
        if out_term != Term::Empty && self.real_egests_since_last_layer < u32::MAX {
            self.real_egests_since_last_layer += 1;
        }
        if (out_term == Term::Inf || self.real_egests_since_last_layer as u64 > 16 * (
        len as u64)) && len <= MAX_LAYERS {
            self.add_layer();
            self.real_egests_since_last_layer = 0;
            return Term::Empty;
        }
        self.next_out.ingest_y(out_term);
        self.next_out.egest(out_term);
        out_term
    }
}

} // verus!
