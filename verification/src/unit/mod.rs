//! The units: the stream transducers and sources that a workgroup steps.
use vstd::prelude::*;
use crate::unit::arith::Arith;
use crate::unit::cfrac::FromCFrac;
use crate::unit::compare::Compare;
use crate::unit::lft::Lft;
use crate::unit::modulo::Modulo;
use crate::unit::sqrt::Sqrt;
use crate::workgroup::exp::ExpTaylor;
use crate::workgroup::log2::Log2;
use crate::Term;

pub mod arith;
pub mod cfrac;
pub mod compare;
pub mod lft;
pub mod modulo;
pub mod rounding;
pub mod soundness;
pub mod sqrt;

verus! {

/// What every participant of a workgroup offers: it ingests a term of its
/// first or second input, and egests a term of its result.
pub trait Unit {
    /// Whether the unit's parts fit together.  Every constructor establishes
    /// this and every operation keeps it.
    spec fn wf(&self) -> bool;

    /// Consumes one term of the first input.
    fn ingest_x(&mut self, x: Term)
        requires
            old(self).wf(),
        ensures
            final(self).wf(),
    ;

    /// Consumes one term of the second input.
    fn ingest_y(&mut self, y: Term)
        requires
            old(self).wf(),
        ensures
            final(self).wf(),
    ;

    /// Produces the next term of the result, or `Term::Empty` when the inputs
    /// read so far do not determine it.
    fn egest_z(&mut self) -> (z: Term)
        requires
            old(self).wf(),
        ensures
            final(self).wf(),
    ;
}

/// A generator of terms.  Nothing is assumed about what a generator yields.
pub trait TermSource {
    fn next_term(&mut self) -> Term;
}

/// The generator that yields one term for ever.
pub struct Repeat {
    term: Term,
}

impl Repeat {
    pub closed spec fn term(&self) -> Term {
        self.term
    }

    pub fn new(term: Term) -> (r: Self)
        ensures
            r.term() == term,
    {
        Self { term }
    }
}

impl TermSource for Repeat {
    fn next_term(&mut self) -> (t: Term)
        ensures
            t == old(self).term(),
            *final(self) == *old(self),
    {
        self.term
    }
}

/// The generator that yields the given terms in order, and `Term::Empty` for
/// ever after.
pub struct Replay {
    items: Vec<Term>,
    pos: usize,
}

impl Replay {
    /// The terms that are still to come.
    pub closed spec fn remaining(&self) -> Seq<Term> {
        if self.pos <= self.items@.len() {
            self.items@.skip(self.pos as int)
        } else {
            Seq::empty()
        }
    }

    pub fn new(items: Vec<Term>) -> (r: Self)
        ensures
            r.remaining() == items@,
    {
        Self { items, pos: 0 }
    }
}

impl TermSource for Replay {
    fn next_term(&mut self) -> (t: Term)
        ensures
            old(self).remaining().len() == 0 ==> t == Term::Empty && final(self).remaining().len()
                == 0,
            old(self).remaining().len() > 0 ==> t == old(self).remaining()[0]
                && final(self).remaining() == old(self).remaining().skip(1),
    {
        if self.pos < self.items.len() {
            let t = self.items[self.pos];
            self.pos += 1;
            t
        } else {
            Term::Empty
        }
    }
}

/// Where the terms of a source come from.
pub enum TermStream {
    Repeat(Repeat),
    Replay(Replay),
    /// A generator of which nothing is known.
    Outside(Box<dyn TermSource>),
}

/// What a stream of terms is to the contracts of its source.
pub enum StreamState {
    /// The term that comes for ever.
    Repeat(Term),
    /// The terms that are still to come before `Term::Empty` comes for ever.
    Replay(Seq<Term>),
    Outside,
}

impl StreamState {
    /// The stream after its next term was taken, and that term.  Says
    /// nothing true of a generator from outside.
    pub open spec fn next(self) -> (StreamState, Term) {
        match self {
            StreamState::Repeat(t) => (self, t),
            StreamState::Replay(s) => if s.len() > 0 {
                (StreamState::Replay(s.skip(1)), s[0])
            } else {
                (self, Term::Empty)
            },
            StreamState::Outside => (self, Term::Empty),
        }
    }
}

impl View for TermStream {
    type V = StreamState;

    open spec fn view(&self) -> StreamState {
        match self {
            TermStream::Repeat(r) => StreamState::Repeat(r.term()),
            TermStream::Replay(r) => StreamState::Replay(r.remaining()),
            TermStream::Outside(_) => StreamState::Outside,
        }
    }
}

impl TermStream {
    /// Takes the next term of the stream.
    pub fn next_term(&mut self) -> (t: Term)
        ensures
            old(self)@ is Outside ==> final(self)@ is Outside,
            !(old(self)@ is Outside) ==> (final(self)@, t) == old(self)@.next(),
    {
        match self {
            TermStream::Repeat(r) => r.next_term(),
            TermStream::Replay(r) => {
                let t = r.next_term();
                assert(old(self)@->Replay_0.len() == 0 ==> r.remaining() =~= old(
                    self,
                )@->Replay_0);
                t
            },
            TermStream::Outside(g) => g.next_term(),
        }
    }
}

/// A source of given terms: a written stream, one term that recurs, or
/// anything that can say what comes next.
pub struct CLogs {
    pub terms: TermStream,
}

impl View for CLogs {
    type V = StreamState;

    open spec fn view(&self) -> StreamState {
        self.terms@
    }
}

impl CLogs {
    /// The source of the given terms, followed by `Term::Empty` for ever.
    pub fn replay(items: Vec<Term>) -> (r: Self)
        ensures
            r@ == StreamState::Replay(items@),
    {
        CLogs { terms: TermStream::Replay(Replay::new(items)) }
    }

    /// The source of one term, for ever.
    pub fn repeat(term: Term) -> (r: Self)
        ensures
            r@ == StreamState::Repeat(term),
    {
        CLogs { terms: TermStream::Repeat(Repeat::new(term)) }
    }

    /// Whether `post` and `z` are what one egestion of a source in state
    /// `pre` leaves.  A generator from outside may yield anything.
    pub open spec fn egested(pre: StreamState, post: StreamState, z: Term) -> bool {
        if pre is Outside {
            post is Outside
        } else {
            (post, z) == pre.next()
        }
    }
}

impl Unit for CLogs {
    open spec fn wf(&self) -> bool {
        true
    }

    /// A source has no input.
    fn ingest_x(&mut self, _x: Term)
        ensures
            *final(self) == *old(self),
    {
    }

    /// A source has no input.
    fn ingest_y(&mut self, _y: Term)
        ensures
            *final(self) == *old(self),
    {
    }

    /// Hands on what the stream yields next.
    fn egest_z(&mut self) -> (z: Term)
        ensures
            CLogs::egested(old(self)@, final(self)@, z),
    {
        self.terms.next_term()
    }
}

/// Any unit that a workgroup can hold.
pub enum UnitUnion {
    Arith(Arith),
    CLogs(CLogs),
    Compare(Compare),
    FromCFrac(FromCFrac),
    Lft(Lft),
    Modulo(Modulo),
    Sqrt(Sqrt),
    ExpTaylor(ExpTaylor),
    Log2(Log2),
}

impl UnitUnion {
    /// Whether `post` is this unit after it consumed `x` on its first input.
    pub open spec fn ingested_x(self, x: Term, post: UnitUnion) -> bool {
        match (self, post) {
            (UnitUnion::Arith(a), UnitUnion::Arith(b)) => b@ == a@.ingest_x(x),
            (UnitUnion::CLogs(a), UnitUnion::CLogs(b)) => b == a,
            (UnitUnion::Compare(a), UnitUnion::Compare(b)) => b@ == a@.ingest_x(x),
            (UnitUnion::FromCFrac(a), UnitUnion::FromCFrac(b)) => b == a,
            (UnitUnion::Lft(a), UnitUnion::Lft(b)) => b@ == a@.ingest_x(x),
            (UnitUnion::Modulo(a), UnitUnion::Modulo(b)) => b@ == a@.ingest_x(x),
            (UnitUnion::Sqrt(a), UnitUnion::Sqrt(b)) => b@ == a@.ingest_x(x),
            (UnitUnion::ExpTaylor(a), UnitUnion::ExpTaylor(b)) => b@ == a@.ingest_x(x),
            (UnitUnion::Log2(a), UnitUnion::Log2(b)) => b@ == a@.ingest_x(x),
            _ => false,
        }
    }

    /// Whether `post` is this unit after it consumed `y` on its second
    /// input.
    pub open spec fn ingested_y(self, y: Term, post: UnitUnion) -> bool {
        match (self, post) {
            (UnitUnion::Arith(a), UnitUnion::Arith(b)) => b@ == a@.ingest_y(y),
            (UnitUnion::CLogs(a), UnitUnion::CLogs(b)) => b == a,
            (UnitUnion::Compare(a), UnitUnion::Compare(b)) => b@ == a@.ingest_y(y),
            (UnitUnion::FromCFrac(a), UnitUnion::FromCFrac(b)) => b == a,
            (UnitUnion::Lft(a), UnitUnion::Lft(b)) => b@ == a@,
            (UnitUnion::Modulo(a), UnitUnion::Modulo(b)) => b@ == a@.ingest_y(y),
            (UnitUnion::Sqrt(a), UnitUnion::Sqrt(b)) => b@ == a@,
            (UnitUnion::ExpTaylor(a), UnitUnion::ExpTaylor(b)) => b@ == a@,
            (UnitUnion::Log2(a), UnitUnion::Log2(b)) => b@ == a@,
            _ => false,
        }
    }

    /// Whether `post` and `z` are what one egestion of this unit leaves.
    /// A generator from outside has a say in that; for every other unit
    /// both are determined.
    pub open spec fn egested(self, post: UnitUnion, z: Term) -> bool {
        match (self, post) {
            (UnitUnion::Arith(a), UnitUnion::Arith(b)) => z == a@.decide().0 && b@ == a@.egest_z(),
            (UnitUnion::CLogs(a), UnitUnion::CLogs(b)) => CLogs::egested(a@, b@, z),
            (UnitUnion::Compare(a), UnitUnion::Compare(b)) => z == Term::Empty && b@ == a@,
            (UnitUnion::FromCFrac(a), UnitUnion::FromCFrac(b)) => FromCFrac::egested(a@, b@, z),
            (UnitUnion::Lft(a), UnitUnion::Lft(b)) => z == a@.decide() && b@ == a@.egest_z(),
            (UnitUnion::Modulo(a), UnitUnion::Modulo(b)) => z == a@.decide() && b@ == a@.egest_z(),
            (UnitUnion::Sqrt(a), UnitUnion::Sqrt(b)) => z == a@.root_decide() && b@
                == a@.root_feedback(z),
            (UnitUnion::ExpTaylor(a), UnitUnion::ExpTaylor(b)) => z == a@.egest_z().1 && b@
                == a@.egest_z().0,
            (UnitUnion::Log2(a), UnitUnion::Log2(b)) => z == a@.egest_z().1 && b@
                == a@.egest_z().0,
            _ => false,
        }
    }

    /// How deep the unit nests: a unit that keeps a workgroup of its own
    /// ranks above that workgroup, which ranks above the units in it.
    pub open spec fn level(self) -> int {
        match self {
            UnitUnion::ExpTaylor(_) => 3,
            UnitUnion::Log2(_) => 3,
            _ => 0,
        }
    }

    /// Whether the unit takes what it egests from a generator of which
    /// nothing is known.
    pub open spec fn is_outside(self) -> bool {
        match self {
            UnitUnion::CLogs(u) => u@ is Outside,
            UnitUnion::FromCFrac(u) => u@.source is Outside,
            _ => false,
        }
    }
}

impl Unit for UnitUnion {
    open spec fn wf(&self) -> bool {
        match self {
            UnitUnion::Arith(u) => u.wf(),
            UnitUnion::CLogs(u) => u.wf(),
            UnitUnion::Compare(u) => u.wf(),
            UnitUnion::FromCFrac(u) => u.wf(),
            UnitUnion::Lft(u) => u.wf(),
            UnitUnion::Modulo(u) => u.wf(),
            UnitUnion::Sqrt(u) => u.wf(),
            UnitUnion::ExpTaylor(u) => u.wf(),
            UnitUnion::Log2(u) => u.wf(),
        }
    }

    fn ingest_x(&mut self, x: Term)
        ensures
            old(self).ingested_x(x, *final(self)),
            final(self).level() == old(self).level(),
        decreases old(self).level(),
    {
        match self {
            UnitUnion::Arith(u) => u.ingest_x(x),
            UnitUnion::CLogs(u) => u.ingest_x(x),
            UnitUnion::Compare(u) => u.ingest_x(x),
            UnitUnion::FromCFrac(u) => u.ingest_x(x),
            UnitUnion::Lft(u) => u.ingest_x(x),
            UnitUnion::Modulo(u) => u.ingest_x(x),
            UnitUnion::Sqrt(u) => u.ingest_x(x),
            UnitUnion::ExpTaylor(u) => u.ingest_x(x),
            UnitUnion::Log2(u) => u.ingest_x(x),
        }
    }

    fn ingest_y(&mut self, y: Term)
        ensures
            old(self).ingested_y(y, *final(self)),
            final(self).level() == old(self).level(),
        decreases old(self).level(),
    {
        match self {
            UnitUnion::Arith(u) => u.ingest_y(y),
            UnitUnion::CLogs(u) => u.ingest_y(y),
            UnitUnion::Compare(u) => u.ingest_y(y),
            UnitUnion::FromCFrac(u) => u.ingest_y(y),
            UnitUnion::Lft(u) => u.ingest_y(y),
            UnitUnion::Modulo(u) => u.ingest_y(y),
            UnitUnion::Sqrt(u) => u.ingest_y(y),
            UnitUnion::ExpTaylor(u) => u.ingest_y(y),
            UnitUnion::Log2(u) => u.ingest_y(y),
        }
    }

    fn egest_z(&mut self) -> (z: Term)
        ensures
            old(self).egested(*final(self), z),
            final(self).level() == old(self).level(),
        decreases old(self).level(),
    {
        match self {
            UnitUnion::Arith(u) => u.egest_z(),
            UnitUnion::CLogs(u) => u.egest_z(),
            UnitUnion::Compare(u) => u.egest_z(),
            UnitUnion::FromCFrac(u) => u.egest_z(),
            UnitUnion::Lft(u) => u.egest_z(),
            UnitUnion::Modulo(u) => u.egest_z(),
            UnitUnion::Sqrt(u) => u.egest_z(),
            UnitUnion::ExpTaylor(u) => u.egest_z(),
            UnitUnion::Log2(u) => u.egest_z(),
        }
    }
}

} // verus!
