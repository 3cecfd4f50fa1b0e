//! The binary logarithm, as a workgroup that grows.
//!
//! The unit keeps three powers `x^a / 2^c` of its input: one that is below 1,
//! one that is above 1, and their product, the mediant.  Whether the mediant
//! is above or below 1 is one bit of the logarithm; the mediant then takes
//! the place of the bound on its side and a new mediant is formed.  The bits
//! go into a linear-fractional unit of which the logarithm is the stream.
//! Each bound is read through a sampler that does not egest, so that its
//! value so far can be judged.  Only inputs above 1 are supported.
use vstd::prelude::*;
use crate::bigint::{big_eq, big_le, big_lt, double};
use crate::matrix::{add_at, copy_at};
use crate::unit::arith::{matrix_of, Arith, Bilinear};
use crate::unit::lft::{Lft, LftState, Mobius};
use crate::unit::{Unit, UnitUnion};
use crate::workgroup::exp::fresh;
use crate::workgroup::plain::{PlainGroup, PlainSlot, PlainUnit};
use crate::workgroup::{UnitConcrete, UnitId, Workgroup, WorkgroupPhase};
use crate::Term;

verus! {

/// The most handles that a workgroup may have issued and still have four
/// to issue.
pub const MAX_ISSUED: u32 = 4294967291;

/// A sampler: a linear-fractional unit that passes nothing on.
pub open spec fn lock() -> PlainUnit {
    PlainUnit::Lft(LftState { m: Mobius::identity(), egest_enabled: false })
}

/// A linear-fractional unit that starts from the given matrix and egests.
pub open spec fn open_lft(m: Mobius) -> PlainUnit {
    PlainUnit::Lft(LftState { m, egest_enabled: true })
}

/// The unit that multiplies its inputs.
pub open spec fn product() -> PlainUnit {
    fresh(Bilinear { a: 1, b: 0, c: 0, d: 0, e: 0, f: 0, g: 0, h: 1 })
}

impl PlainGroup {
    /// The workgroup after unit `k`, if it is linear-fractional, was allowed
    /// to egest.
    pub open spec fn unlock(self, k: u32) -> PlainGroup {
        PlainGroup {
            units: self.units.insert(
                k,
                PlainSlot {
                    unit: match self.units[k].unit {
                        PlainUnit::Lft(l) => PlainUnit::Lft(LftState { egest_enabled: true, ..l }),
                        PlainUnit::Arith(a) => PlainUnit::Arith(a),
                    },
                    ..self.units[k]
                },
            ),
            ..self
        }
    }

    /// The matrix of unit `k`, if it is linear-fractional.
    pub open spec fn sampled(self, k: u32) -> Mobius {
        match self.units[k].unit {
            PlainUnit::Lft(l) => l.m,
            PlainUnit::Arith(_) => Mobius::identity(),
        }
    }
}

/// What a `Log2` is to its contracts.  Unit 0 of `group` takes the input.
pub struct LogState {
    pub group: PlainGroup,
    /// The sampler of the bound above.
    pub left_lock: u32,
    /// The sampler of the bound below.
    pub right_lock: u32,
    /// The sampler of the mediant.
    pub mediant_lock: u32,
    /// The unit that the bits of the logarithm go into.
    pub lft: LftState,
}

impl LogState {
    pub open spec fn start() -> LogState {
        let plain = |unit: PlainUnit, x: Option<u32>, y: Option<u32>|
            PlainSlot { unit, x, y, z: Term::Empty };
        LogState {
            group: PlainGroup {
                units: Map::<u32, PlainSlot>::empty().insert(
                    0,
                    plain(open_lft(Mobius::identity()), None, None),
                ).insert(1, plain(open_lft(Mobius::identity()), Some(0), None)).insert(
                    2,
                    plain(lock(), Some(1), None),
                ).insert(
                    3,
                    plain(open_lft(Mobius { a: 1, b: 1, c: 2, d: 2 }), None, None),
                ).insert(4, plain(lock(), Some(3), None)).insert(
                    5,
                    plain(product(), Some(1), Some(3)),
                ).insert(6, plain(lock(), Some(5), None)),
                phase: WorkgroupPhase::EgestZ,
                next_id: 7,
            },
            left_lock: 2,
            right_lock: 4,
            mediant_lock: 6,
            lft: LftState { m: Mobius { a: 0, b: 1, c: 1, d: 0 }, egest_enabled: true },
        }
    }

    /// The input unit takes the term, and two steps of the workgroup carry
    /// what the units egested last through both inputs.
    pub open spec fn ingest_x(self, x: Term) -> LogState {
        LogState { group: self.group.feed_x(0, x).cycle().cycle(), ..self }
    }

    pub open spec fn can_grow(self) -> bool {
        self.group.next_id <= MAX_ISSUED
    }

    /// The mediant takes the place of the bound above (`left`) or below.
    /// The three samplers are let go, and four units are added: a sampler
    /// of the old mediant as the new bound on that side, the product of the
    /// old mediant and the other bound with its sampler as the new mediant,
    /// and a new sampler of the other bound.
    pub open spec fn add_layer(self, left: bool) -> LogState {
        let n = self.group.next_id;
        let freed = self.group.unlock(self.mediant_lock).unlock(self.left_lock).unlock(
            self.right_lock,
        );
        let plain = |unit: PlainUnit, x: Option<u32>, y: Option<u32>|
            PlainSlot { unit, x, y, z: Term::Empty };
        let other = if left {
            self.right_lock
        } else {
            self.left_lock
        };
        let group = freed.add(plain(lock(), Some(self.mediant_lock), None)).add(
            plain(product(), Some(self.mediant_lock), Some(other)),
        ).add(plain(lock(), Some((n + 1) as u32), None)).add(plain(lock(), Some(other), None));
        LogState {
            group,
            left_lock: if left {
                n
            } else {
                (n + 3) as u32
            },
            right_lock: if left {
                (n + 3) as u32
            } else {
                n
            },
            mediant_lock: (n + 2) as u32,
            ..self
        }
    }

    /// The state after the mediant was judged: above 1, a one bit goes into
    /// the logarithm and the mediant becomes the bound above; below 1, a zero
    /// bit and the bound below; at 1, the logarithm is closed to a point.
    pub open spec fn judge(self) -> LogState {
        let ((n1, d1), (n2, d2)) = self.group.sampled(self.mediant_lock).intervals();
        let m = self.lft.m;
        if !self.can_grow() {
            self
        } else if n1 > d1 && n2 > d2 {
            LogState {
                lft: LftState { m: Mobius { a: m.a + m.b, c: m.c + m.d, ..m }, ..self.lft },
                ..self.add_layer(true)
            }
        } else if n1 < d1 && n2 < d2 {
            LogState {
                lft: LftState { m: Mobius { b: m.b + m.a, d: m.d + m.c, ..m }, ..self.lft },
                ..self.add_layer(false)
            }
        } else if n1 == d1 && n2 == d2 {
            LogState {
                lft: LftState {
                    m: Mobius { a: m.a + m.b, b: m.a + m.b, c: m.c + m.d, d: m.c + m.d },
                    ..self.lft
                },
                ..self.add_layer(true)
            }
        } else {
            self
        }
    }

    /// One egestion: the state that it leaves and the term that it returns.
    /// The workgroup takes one step.  A logarithm that has become infinite
    /// stays so.  A mediant that is not positive, or that lies at or below
    /// 1/2, makes the logarithm undefined.  Else the mediant is judged, and
    /// the unit of the logarithm egests.
    pub open spec fn egest_z(self) -> (LogState, Term) {
        let stepped = LogState { group: self.group.cycle(), ..self };
        let med = stepped.group.sampled(self.mediant_lock);
        let ((n1, d1), (n2, d2)) = med.intervals();
        if self.lft.m.is_inf() {
            (LogState { lft: self.lft.egest_z(), ..stepped }, self.lft.decide())
        } else if med.is_nonpositive() {
            (stepped, Term::Undefined)
        } else if 2 * n1 <= d1 && 2 * n2 <= d2 {
            (stepped, Term::Undefined)
        } else {
            let judged = stepped.judge();
            (LogState { lft: judged.lft.egest_z(), ..judged }, judged.lft.decide())
        }
    }
}

/// The binary-logarithm transducer.
pub struct Log2 {
    wg: Workgroup,
    x: UnitId,
    left_lock: UnitId,
    right_lock: UnitId,
    mediant_lock: UnitId,
    lft: Lft,
}

impl View for Log2 {
    type V = LogState;

    closed spec fn view(&self) -> LogState {
        LogState {
            group: self.wg.plain_view(),
            left_lock: self.left_lock@,
            right_lock: self.right_lock@,
            mediant_lock: self.mediant_lock@,
            lft: self.lft@,
        }
    }
}

/// A sampler that has read nothing.
fn new_lock() -> (r: Lft)
    ensures
        r@ == (LftState { m: Mobius::identity(), egest_enabled: false }),
{
    let mut r = Lft::identity();
    r.egest_enabled = false;
    r
}

/// Lets a sampler egest.
fn unlock(wg: &mut Workgroup, id: UnitId)
    requires
        old(wg).plain(),
        old(wg)@.contains_key(id@),
    ensures
        final(wg).plain(),
        final(wg).plain_view() == old(wg).plain_view().unlock(id@),
{
    let ghost before = wg@[id@];
    assert(wg.wired(before));
    let unit = wg.get_unit_mut(id);
    match &mut unit.inner {
        UnitUnion::Lft(lft) => {
            lft.egest_enabled = true;
        },
        _ => {},
    }
    assert(wg.plain_view().units =~= old(wg).plain_view().unlock(id@).units);
}

impl Log2 {
    /// The unit before it has read anything.
    pub fn create() -> (r: Self)
        ensures
            r.wf(),
            r@ == LogState::start(),
    {
        let mut wg = Workgroup::create();
        assert(wg.plain());
        let x = wg.add_unit(
            UnitConcrete {
                inner: UnitUnion::Lft(Lft::identity()),
                x: None,
                y: None,
                z: Term::Empty,
            },
        );
        let left = wg.add_lft(Lft::identity(), Some(x));
        let left_lock = wg.add_lft(new_lock(), Some(left));
        let mut half = Lft::identity();
        add_at(&mut half.mat, 1, 0);
        add_at(&mut half.mat, 2, 3);
        add_at(&mut half.mat, 2, 3);
        add_at(&mut half.mat, 3, 3);
        let right = wg.add_lft(half, None);
        let right_lock = wg.add_lft(new_lock(), Some(right));
        let mediant = wg.add_arith(
            Arith::create(matrix_of([1, 0, 0, 0, 0, 0, 0, 1])),
            left,
            right,
        );
        let mediant_lock = wg.add_lft(new_lock(), Some(mediant));
        let mut lft = Lft::identity();
        lft.mat.swap(0, 1);
        lft.mat.swap(2, 3);
        let r = Self { wg, x, left_lock, right_lock, mediant_lock, lft };
        proof {
            assert(r@.group.units =~= LogState::start().group.units);
        }
        r
    }

    fn add_layer(&mut self, left: bool)
        requires
            old(self).wf(),
            old(self)@.can_grow(),
        ensures
            final(self).wf(),
            final(self)@ == old(self)@.add_layer(left),
    {
        unlock(&mut self.wg, self.mediant_lock);
        unlock(&mut self.wg, self.left_lock);
        unlock(&mut self.wg, self.right_lock);
        if left {
            let old_mediant = self.mediant_lock;
            let old_right = self.right_lock;
            self.left_lock = self.wg.add_lft(new_lock(), Some(old_mediant));
            let mediant = self.wg.add_arith(
                Arith::create(matrix_of([1, 0, 0, 0, 0, 0, 0, 1])),
                old_mediant,
                old_right,
            );
            self.mediant_lock = self.wg.add_lft(new_lock(), Some(mediant));
            self.right_lock = self.wg.add_lft(new_lock(), Some(old_right));
        } else {
            let ghost unlocked = self.wg.plain_view();
            unlock(&mut self.wg, self.right_lock);
            assert(self.wg.plain_view().units =~= unlocked.units);
            let old_mediant = self.mediant_lock;
            let old_left = self.left_lock;
            self.right_lock = self.wg.add_lft(new_lock(), Some(old_mediant));
            let mediant = self.wg.add_arith(
                Arith::create(matrix_of([1, 0, 0, 0, 0, 0, 0, 1])),
                old_mediant,
                old_left,
            );
            self.mediant_lock = self.wg.add_lft(new_lock(), Some(mediant));
            self.left_lock = self.wg.add_lft(new_lock(), Some(old_left));
        }
    }

    /// Judges the mediant and moves the bounds accordingly.
    fn judge(&mut self)
        requires
            old(self).wf(),
        ensures
            final(self).wf(),
            final(self)@ == old(self)@.judge(),
    {
        let (above, below, level) = match &self.wg.get_unit(self.mediant_lock).inner {
            UnitUnion::Lft(lft) => {
                let ((n1, d1), (n2, d2)) = lft.intervals();
                (
                    big_lt(&d1, &n1) && big_lt(&d2, &n2),
                    big_lt(&n1, &d1) && big_lt(&n2, &d2),
                    big_eq(&n1, &d1) && big_eq(&n2, &d2),
                )
            },
            _ => (false, false, false),
        };
        if self.wg.issued() > MAX_ISSUED {
            return ;
        }
        if above {
            self.add_layer(true);
            add_at(&mut self.lft.mat, 0, 1);
            add_at(&mut self.lft.mat, 2, 3);
        }
        if below {
            self.add_layer(false);
            add_at(&mut self.lft.mat, 1, 0);
            add_at(&mut self.lft.mat, 3, 2);
        }
        if level {
            self.add_layer(true);
            add_at(&mut self.lft.mat, 0, 1);
            add_at(&mut self.lft.mat, 2, 3);
            copy_at(&mut self.lft.mat, 1, 0);
            copy_at(&mut self.lft.mat, 3, 2);
        }
    }
}

impl Unit for Log2 {
    /// The workgroup holds bilinear and linear-fractional units only; the
    /// input unit and the three samplers are among them, and the sampler of
    /// the mediant is linear-fractional.
    closed spec fn wf(&self) -> bool {
        &&& self.wg.plain()
        &&& self.x@ == 0
        &&& self.wg@.contains_key(self.x@)
        &&& self.wg@.contains_key(self.left_lock@)
        &&& self.wg@.contains_key(self.right_lock@)
        &&& self.wg@.contains_key(self.mediant_lock@)
        &&& self.wg@[self.mediant_lock@].inner is Lft
    }

    fn ingest_x(&mut self, x: Term)
        ensures
            final(self)@ == old(self)@.ingest_x(x),
        decreases 2int,
    {
        proof {
            self.wg.plain_is_wf();
        }
        self.wg.feed_x(self.x, x);
        proof {
            self.wg.plain_is_wf();
        }
        self.wg.cycle();
        proof {
            self.wg.plain_is_wf();
        }
        self.wg.cycle();
    }

    /// The logarithm has no second input.
    fn ingest_y(&mut self, _y: Term)
        ensures
            final(self)@ == old(self)@,
    {
    }

    fn egest_z(&mut self) -> (z: Term)
        ensures
            z == old(self)@.egest_z().1,
            final(self)@ == old(self)@.egest_z().0,
        decreases 2int,
    {
        proof {
            self.wg.plain_is_wf();
        }
        self.wg.cycle();
        if self.lft.is_inf() {
            return self.lft.egest_z();
        }
        let undefined = match &self.wg.get_unit(self.mediant_lock).inner {
            UnitUnion::Lft(lft) => {
                if lft.is_nonpositive() {
                    true
                } else {
                    let ((n1, d1), (n2, d2)) = lft.intervals();
                    big_le(&double(&n1), &d1) && big_le(&double(&n2), &d2)
                }
            },
            _ => false,
        };
        if undefined {
            return Term::Undefined;
        }
        self.judge();
        self.lft.egest_z()
    }
}

} // verus!
