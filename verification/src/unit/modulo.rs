//! The remainder unit: `x - trunc(x / y) * y`.
//!
//! The quotient is rounded towards zero because that asks for one boundary
//! to be decided, not two.  The unit commits to the first integer on which
//! the bounds of the quotient agree; should later input move the quotient
//! across that integer, the remainder is wrong, and nothing retracts it.
use vstd::prelude::*;
use crate::bigint::{big_from, big_neg};
use crate::unit::arith::{Arith, ArithState, Bilinear};
use crate::unit::lft::{Lft, LftState, Mobius};
use crate::unit::Unit;
use crate::Term;

verus! {

/// What a `Modulo` is to its contracts.
pub struct ModuloState {
    /// The unit that computes `x / y`.
    pub div: ArithState,
    /// The sampler that has read the quotient.
    pub quotient: LftState,
    /// What has been read of `x` and not yet handed on.
    pub x: LftState,
    /// What has been read of `y` and not yet handed on.
    pub y: LftState,
    /// The unit that computes the remainder, once the quotient is settled.
    pub out: Option<ArithState>,
}

impl ModuloState {
    pub open spec fn start() -> ModuloState {
        ModuloState {
            div: ArithState {
                m: Bilinear { a: 0, b: 1, c: 0, d: 0, e: 0, f: 0, g: 1, h: 0 },
                singular: false,
            },
            quotient: LftState { m: Mobius::identity(), egest_enabled: false },
            x: LftState { m: Mobius::identity(), egest_enabled: true },
            y: LftState { m: Mobius::identity(), egest_enabled: true },
            out: None,
        }
    }

    /// The remainder unit that the bounds of the quotient and the buffered
    /// inputs call for, if any: `x - v*y` once the quotient truncates to `v`;
    /// else `x` itself where `y` is infinite and `x` is not; else the
    /// undefined value where the quotient is infinite or undefined.
    pub open spec fn settle(quotient: Mobius, x: Mobius, y: Mobius) -> Option<ArithState> {
        match quotient.trunc() {
            Some(v) => Some(
                ArithState {
                    m: Bilinear { a: 0, b: 1, c: -v, d: 0, e: 0, f: 0, g: 0, h: 1 },
                    singular: false,
                },
            ),
            None => if !x.is_inf() && y.is_inf() {
                Some(
                    ArithState {
                        m: Bilinear { a: 1, b: 0, c: 0, d: 0, e: 0, f: 0, g: 1, h: 0 },
                        singular: false,
                    },
                )
            } else if quotient.is_inf() || quotient.is_undefined() {
                Some(ArithState { m: Bilinear::zero(), singular: false })
            } else {
                None
            },
        }
    }

    pub open spec fn ingest_x(self, t: Term) -> ModuloState {
        let buffered = self.x.ingest_x(t);
        let div = self.div.ingest_x(t);
        match self.out {
            Some(out) => ModuloState {
                div,
                x: buffered.egest_z(),
                out: Some(out.ingest_x(buffered.decide())),
                ..self
            },
            None => ModuloState { div, x: buffered, ..self },
        }
    }

    pub open spec fn ingest_y(self, t: Term) -> ModuloState {
        let fed = self.div.ingest_y(t);
        let quotient = self.quotient.ingest_x(fed.decide().0);
        let buffered = self.y.ingest_x(t);
        match self.out {
            Some(out) => ModuloState {
                div: fed.egest_z(),
                quotient,
                y: buffered.egest_z(),
                out: Some(out.ingest_y(buffered.decide())),
                ..self
            },
            None => ModuloState {
                div: fed.egest_z(),
                quotient,
                y: buffered,
                out: ModuloState::settle(quotient.m, self.x.m, buffered.m),
                ..self
            },
        }
    }

    pub open spec fn decide(self) -> Term {
        match self.out {
            Some(out) => out.decide().0,
            None => Term::Empty,
        }
    }

    pub open spec fn egest_z(self) -> ModuloState {
        match self.out {
            Some(out) => ModuloState { out: Some(out.egest_z()), ..self },
            None => self,
        }
    }
}

/// The remainder transducer.
#[derive(Debug)]
pub struct Modulo {
    div: Arith,
    quotient: Lft,
    x: Lft,
    y: Lft,
    out: Option<Arith>,
}

impl View for Modulo {
    type V = ModuloState;

    closed spec fn view(&self) -> ModuloState {
        ModuloState {
            div: self.div@,
            quotient: self.quotient@,
            x: self.x@,
            y: self.y@,
            out: match self.out {
                Some(out) => Some(out@),
                None => None,
            },
        }
    }
}

impl Modulo {
    pub fn create() -> (r: Self)
        ensures
            r@ == ModuloState::start(),
    {
        let mut quotient = Lft::identity();
        quotient.egest_enabled = false;
        Self {
            div: Arith::create(
                [
                    big_from(0),
                    big_from(1),
                    big_from(0),
                    big_from(0),
                    big_from(0),
                    big_from(0),
                    big_from(1),
                    big_from(0),
                ],
            ),
            quotient,
            x: Lft::identity(),
            y: Lft::identity(),
            out: None,
        }
    }

    /// Builds the remainder unit once the quotient allows it.
    fn settle(&mut self)
        requires
            old(self).out is None,
        ensures
            final(self)@ == (ModuloState {
                out: ModuloState::settle(old(self)@.quotient.m, old(self)@.x.m, old(self)@.y.m),
                ..old(self)@
            }),
    {
        if self.quotient.is_inf() || self.quotient.is_undefined() {
            self.out = Some(
                Arith::create(
                    [
                        big_from(0),
                        big_from(0),
                        big_from(0),
                        big_from(0),
                        big_from(0),
                        big_from(0),
                        big_from(0),
                        big_from(0),
                    ],
                ),
            );
        }
        if !self.x.is_inf() && self.y.is_inf() {
            self.out = Some(
                Arith::create(
                    [
                        big_from(1),
                        big_from(0),
                        big_from(0),
                        big_from(0),
                        big_from(0),
                        big_from(0),
                        big_from(1),
                        big_from(0),
                    ],
                ),
            );
        }
        match self.quotient.trunc() {
            Some(val) => {
                self.out = Some(
                    Arith::create(
                        [
                            big_from(0),
                            big_from(1),
                            big_neg(&val),
                            big_from(0),
                            big_from(0),
                            big_from(0),
                            big_from(0),
                            big_from(1),
                        ],
                    ),
                );
            },
            None => {},
        }
    }
}

impl Unit for Modulo {
    open spec fn wf(&self) -> bool {
        true
    }

    fn ingest_x(&mut self, x: Term)
        ensures
            final(self)@ == old(self)@.ingest_x(x),
    {
        self.div.ingest_x(x);
        self.x.ingest_x(x);
        match &mut self.out {
            Some(out) => {
                let nxt = self.x.egest_z();
                out.ingest_x(nxt);
            },
            None => {},
        }
    }

    fn ingest_y(&mut self, y: Term)
        ensures
            final(self)@ == old(self)@.ingest_y(y),
    {
        self.div.ingest_y(y);
        let q = self.div.egest_z();
        self.quotient.ingest_x(q);
        self.y.ingest_x(y);
        let settled = self.out.is_some();
        match &mut self.out {
            Some(out) => {
                let nxt = self.y.egest_z();
                out.ingest_y(nxt);
            },
            None => {},
        }
        if !settled {
            self.settle();
        }
    }

    fn egest_z(&mut self) -> (z: Term)
        ensures
            z == old(self)@.decide(),
            final(self)@ == old(self)@.egest_z(),
    {
        match &mut self.out {
            Some(out) => out.egest_z(),
            None => Term::Empty,
        }
    }
}

} // verus!
