use clns::unit::arith::Arith;
use clns::unit::cfrac::consts::{pi, EulerTerms, PiTerms};
use clns::unit::cfrac::{CoefficientSource, FromCFrac, Quadruples, SimpleTerms};
use clns::unit::lft::Lft;
use clns::unit::modulo::Modulo;
use clns::unit::sqrt::Sqrt;
use clns::unit::{CLogs, Repeat, Replay, TermSource, TermStream, Unit, UnitUnion};
use clns::workgroup::exp::ExpTaylor;
use clns::workgroup::powu::pow2;
use clns::workgroup::{UnitConcrete, UnitId, Workgroup, WorkgroupPhase};
use clns::{rationalize, Sign, Term};
use num_bigint::BigInt;

fn big(v: i64) -> BigInt {
    BigInt::from(v)
}

fn lft(m: [i64; 4]) -> Lft {
    Lft { mat: m.map(BigInt::from), egest_enabled: true }
}

fn arith(m: [i64; 8]) -> Arith {
    Arith::create(m.map(BigInt::from))
}

fn m4(l: &Lft) -> Vec<BigInt> {
    l.mat.to_vec()
}

fn v(m: &[i64]) -> Vec<BigInt> {
    m.iter().map(|x| big(*x)).collect()
}

const TERMS: [Term; 7] = [
    Term::Empty,
    Term::Ord,
    Term::DRec,
    Term::Rec,
    Term::Neg,
    Term::Inf,
    Term::Undefined,
];

#[test]
fn rationalize_moves_the_sign_up() {
    let cases = [
        ((3, 4), (3, 4), Sign::Plus),
        ((3, -4), (-3, 4), Sign::Minus),
        ((-3, 4), (-3, 4), Sign::Minus),
        ((-3, -4), (3, 4), Sign::Plus),
        ((0, -4), (0, 4), Sign::NoSign),
        ((0, 4), (0, 4), Sign::NoSign),
        ((0, 0), (0, 0), Sign::NoSign),
        ((5, 0), (5, 0), Sign::Plus),
        ((-5, 0), (-5, 0), Sign::Minus),
    ];
    for ((n, d), (n2, d2), sign) in cases {
        let (mut a, mut b) = (big(n), big(d));
        let s = rationalize(&mut a, &mut b);
        assert_eq!((a, b), (big(n2), big(d2)));
        assert_eq!(s, sign);
    }
}

#[test]
fn lft_ingests_each_term() {
    let start = [3, 4, 5, 6];
    let expect = |t: Term, m: [i64; 4]| {
        let mut l = lft(start);
        l.ingest_x(t);
        assert_eq!(m4(&l), v(&m), "{:?}", t);
    };
    expect(Term::Empty, [3, 4, 5, 6]);
    expect(Term::Ord, [3, 2, 5, 3]);
    expect(Term::DRec, [7, 3, 11, 5]);
    expect(Term::Rec, [4, 3, 6, 5]);
    expect(Term::Neg, [-3, 4, -5, 6]);
    expect(Term::Inf, [3, 3, 5, 5]);
    expect(Term::Undefined, [0, 0, 0, 0]);
    let mut odd = lft([3, 4, 5, 7]);
    odd.ingest_x(Term::Ord);
    assert_eq!(m4(&odd), v(&[6, 4, 10, 7]));
    let mut negative = lft([1, -6, 1, -2]);
    negative.ingest_x(Term::Ord);
    assert_eq!(m4(&negative), v(&[1, -3, 1, -1]));
    let mut second = lft(start);
    second.ingest_y(Term::Ord);
    assert_eq!(m4(&second), v(&start));
}

#[test]
fn lft_egests_each_term() {
    let expect = |m: [i64; 4], t: Term, after: [i64; 4]| {
        let mut l = lft(m);
        assert_eq!(l.egest_z(), t, "{:?}", m);
        assert_eq!(m4(&l), v(&after), "{:?}", m);
    };
    expect([0, 0, 0, 0], Term::Undefined, [0, 0, 0, 0]);
    expect([3, 1, 0, 0], Term::Inf, [3, 1, 0, 0]);
    expect([-3, 1, 0, 0], Term::Neg, [3, -1, 0, 0]);
    expect([-6, -6, 1, 1], Term::Neg, [6, 6, 1, 1]);
    expect([6, 6, 1, 1], Term::Ord, [3, 3, 1, 1]);
    expect([5, 5, 1, 1], Term::Ord, [5, 5, 2, 2]);
    expect([3, 3, 2, 2], Term::DRec, [2, 2, 1, 1]);
    expect([1, 1, 2, 2], Term::Rec, [2, 2, 1, 1]);
    expect([1, 0, 0, 1], Term::Empty, [1, 0, 0, 1]);
    expect([1, 2, 1, -3], Term::Empty, [1, 2, 1, -3]);
    let mut off = lft([6, 6, 1, 1]);
    off.egest_enabled = false;
    assert_eq!(off.egest_z(), Term::Empty);
    assert_eq!(m4(&off), v(&[6, 6, 1, 1]));
}

#[test]
fn lft_classifies_its_endpoints() {
    let flags = |m: [i64; 4]| {
        let l = lft(m);
        (
            l.is_undefined(),
            l.is_inf(),
            l.is_zero(),
            l.is_nonnegative(),
            l.is_nonpositive(),
            l.is_positive(),
            l.is_negative(),
        )
    };
    assert_eq!(flags([0, 0, 0, 0]), (true, false, false, true, true, false, false));
    assert_eq!(flags([1, 2, 0, 0]), (false, true, false, true, false, true, false));
    assert_eq!(flags([0, 0, 1, 2]), (false, false, true, true, true, false, false));
    assert_eq!(flags([1, 2, 3, 4]), (false, false, false, true, false, true, false));
    assert_eq!(flags([-1, -2, 3, 4]), (false, false, false, false, true, false, true));
    assert_eq!(flags([1, -3, 2, 2]), (false, false, false, false, false, false, false));
    assert_eq!(flags([-1, -2, -3, -4]), (false, false, false, true, false, true, false));
}

#[test]
fn intervals_drop_common_powers_of_two() {
    let pair = |m: [i64; 4]| lft(m).intervals();
    assert_eq!(pair([4, 4, 8, 8]), ((big(1), big(2)), (big(1), big(2))));
    assert_eq!(pair([-4, 0, -8, 0]), ((big(1), big(2)), (big(1), big(2))));
    assert_eq!(pair([-4, 0, 8, 0]), ((big(-1), big(2)), (big(-1), big(2))));
    assert_eq!(pair([3, 3, 0, 4]), ((big(3), big(0)), (big(3), big(2))));
    assert_eq!(pair([0, 6, 4, 0]), ((big(0), big(4)), (big(3), big(2))));
    assert_eq!(pair([12, 0, 5, 0]), ((big(12), big(5)), (big(12), big(5))));
}

#[test]
fn rounding_waits_for_agreement() {
    let s = |x: i64| Some(big(x));
    // both endpoints 5/2
    let l = lft([5, 0, 2, 0]);
    assert_eq!((l.trunc(), l.floor(), l.ceil(), l.round()), (s(2), s(2), s(3), s(2)));
    // both endpoints 7/2
    let l = lft([7, 0, 2, 0]);
    assert_eq!((l.trunc(), l.floor(), l.ceil(), l.round()), (s(3), s(3), s(4), s(4)));
    // both endpoints -5/2
    let l = lft([-5, 0, 2, 0]);
    assert_eq!((l.trunc(), l.floor(), l.ceil(), l.round()), (s(-2), s(-3), s(-2), s(-2)));
    // both endpoints -7/2
    let l = lft([-7, 0, 2, 0]);
    assert_eq!((l.trunc(), l.floor(), l.ceil(), l.round()), (s(-3), s(-4), s(-3), s(-4)));
    // endpoints 9/4 and 11/4
    let l = lft([9, 2, 4, 0]);
    assert_eq!((l.trunc(), l.floor(), l.ceil(), l.round()), (s(2), s(2), s(3), None));
    // endpoints 7/4 and 9/4
    let l = lft([7, 2, 4, 0]);
    assert_eq!((l.trunc(), l.floor(), l.ceil(), l.round()), (None, None, None, s(2)));
    // an endpoint over zero
    let l = lft([1, 0, 0, 1]);
    assert_eq!((l.trunc(), l.floor(), l.ceil(), l.round()), (None, None, None, None));
    // endpoints 3 and 3
    let l = lft([3, 3, 1, 1]);
    assert_eq!((l.trunc(), l.floor(), l.ceil(), l.round()), (s(3), s(3), s(3), s(3)));
}

#[test]
fn arith_ingests_each_term() {
    let start = [1, 2, 3, 4, 5, 6, 7, 8];
    let x = |t: Term, m: [i64; 8]| {
        let mut a = arith(start);
        a.ingest_x(t);
        assert_eq!(a.mat.to_vec(), v(&m), "x {:?}", t);
    };
    let y = |t: Term, m: [i64; 8]| {
        let mut a = arith(start);
        a.ingest_y(t);
        assert_eq!(a.mat.to_vec(), v(&m), "y {:?}", t);
    };
    x(Term::Empty, start);
    x(Term::Ord, [2, 4, 3, 4, 10, 12, 7, 8]);
    x(Term::DRec, [4, 6, 1, 2, 12, 14, 5, 6]);
    x(Term::Rec, [3, 4, 1, 2, 7, 8, 5, 6]);
    x(Term::Neg, [-1, -2, 3, 4, -5, -6, 7, 8]);
    x(Term::Inf, [1, 2, 1, 2, 5, 6, 5, 6]);
    x(Term::Undefined, [0; 8]);
    y(Term::Empty, start);
    y(Term::Ord, [1, 1, 3, 2, 5, 3, 7, 4]);
    y(Term::DRec, [3, 1, 7, 3, 11, 5, 15, 7]);
    y(Term::Rec, [2, 1, 4, 3, 6, 5, 8, 7]);
    y(Term::Neg, [-1, 2, -3, 4, -5, 6, -7, 8]);
    y(Term::Inf, [1, 1, 3, 3, 5, 5, 7, 7]);
    y(Term::Undefined, [0; 8]);
    let mut even = arith([1, 2, 4, 6, 5, 6, 8, -2]);
    even.ingest_x(Term::Ord);
    assert_eq!(even.mat.to_vec(), v(&[1, 2, 2, 3, 5, 6, 4, -1]));
    let mut even = arith([1, 2, 3, 6, 5, 6, 7, -2]);
    even.ingest_y(Term::Ord);
    assert_eq!(even.mat.to_vec(), v(&[1, 1, 3, 3, 5, 3, 7, -1]));
    let mut odd = arith([1, 3, 3, 4, 5, 6, 7, 8]);
    odd.ingest_y(Term::Ord);
    assert_eq!(odd.mat.to_vec(), v(&[2, 3, 6, 4, 10, 6, 14, 8]));
}

#[test]
fn arith_factors_terms_out() {
    let start = [2, 4, 6, 8, 1, 2, 3, 4];
    let z = |t: Term, m: [i64; 8]| {
        let mut a = arith(start);
        a.egest(t);
        assert_eq!(a.mat.to_vec(), v(&m), "{:?}", t);
    };
    z(Term::Empty, start);
    z(Term::Inf, start);
    z(Term::Ord, [1, 2, 3, 4, 1, 2, 3, 4]);
    z(Term::DRec, [1, 2, 3, 4, 1, 2, 3, 4]);
    z(Term::Rec, [1, 2, 3, 4, 2, 4, 6, 8]);
    z(Term::Neg, [-2, -4, -6, -8, 1, 2, 3, 4]);
    z(Term::Undefined, [0; 8]);
    let mut odd = arith([1, 4, 6, 8, 1, 2, 3, 4]);
    odd.egest(Term::Ord);
    assert_eq!(odd.mat.to_vec(), v(&[1, 4, 6, 8, 2, 4, 6, 8]));
}

#[test]
fn arith_decides_by_its_corners() {
    let z = |m: [i64; 8], t: Term, after: [i64; 8]| {
        let mut a = arith(m);
        assert_eq!(a.egest_z(), t, "{:?}", m);
        assert_eq!(a.mat.to_vec(), v(&after), "{:?}", m);
    };
    z([0; 8], Term::Undefined, [0; 8]);
    // corners 1/0, 2/0, 2/0, 4/0
    z([1, 1, 1, 1, 0, 0, 0, 0], Term::Inf, [1, 1, 1, 1, 0, 0, 0, 0]);
    z([-1, -1, -1, -1, 0, 0, 0, 0], Term::Neg, [1, 1, 1, 1, 0, 0, 0, 0]);
    // corners -3, -3, -3, -3
    z([-3, 0, 0, 0, 1, 0, 0, 0], Term::Neg, [3, 0, 0, 0, 1, 0, 0, 0]);
    // corners 4, 4, 4, 4
    z([4, 0, 0, 0, 1, 0, 0, 0], Term::Ord, [2, 0, 0, 0, 1, 0, 0, 0]);
    // corners 3/2
    z([3, 0, 0, 0, 2, 0, 0, 0], Term::DRec, [2, 0, 0, 0, 1, 0, 0, 0]);
    // corners 1/2
    z([1, 0, 0, 0, 2, 0, 0, 0], Term::Rec, [2, 0, 0, 0, 1, 0, 0, 0]);
    // corners 3/2, 5/2: between 1 and 4
    z([3, 2, 0, 0, 2, 0, 0, 0], Term::Ord, [3, 2, 0, 0, 4, 0, 0, 0]);
    // corners 3/4, 5/4: between 1/2 and 2
    z([3, 2, 0, 0, 4, 0, 0, 0], Term::DRec, [4, 0, 0, 0, -1, 2, 0, 0]);
    // corners 1, 5: nothing decided
    z([1, 4, 0, 0, 1, 0, 0, 0], Term::Empty, [1, 4, 0, 0, 1, 0, 0, 0]);
    // corners 1/4, -1/4: straddling zero, small
    z([1, -2, 0, 0, 4, 0, 0, 0], Term::Rec, [4, 0, 0, 0, 1, -2, 0, 0]);
    // corners 8, -8: straddling a pole, large
    z([8, -16, 0, 0, 1, 0, 0, 0], Term::Ord, [4, -8, 0, 0, 1, 0, 0, 0]);
    // corners 1, -1
    z([1, -2, 0, 0, 1, 0, 0, 0], Term::Empty, [1, -2, 0, 0, 1, 0, 0, 0]);
}

#[test]
fn speculation_sets_the_flag() {
    let mut a = arith([3, 2, 0, 0, 4, 0, 0, 0]);
    assert!(!a.singularity);
    assert_eq!(a.egest_z(), Term::DRec);
    assert!(a.singularity);
    let mut a = arith([4, 0, 0, 0, 1, 0, 0, 0]);
    a.singularity = true;
    assert_eq!(a.egest_z(), Term::Ord);
    assert!(!a.singularity);
}

#[test]
fn negating_twice_changes_nothing() {
    let mut a = arith([1, 2, 3, 4, 5, 6, 7, 8]);
    a.ingest_x(Term::Neg);
    a.ingest_x(Term::Neg);
    a.ingest_y(Term::Neg);
    a.ingest_y(Term::Neg);
    assert_eq!(a.mat.to_vec(), v(&[1, 2, 3, 4, 5, 6, 7, 8]));
    let mut l = lft([1, 2, 3, 4]);
    l.ingest_x(Term::Neg);
    l.ingest_x(Term::Neg);
    assert_eq!(m4(&l), v(&[1, 2, 3, 4]));
}

#[test]
fn inverting_twice_changes_nothing() {
    let mut a = arith([1, 2, 3, 4, 5, 6, 7, 8]);
    a.ingest_x(Term::Rec);
    a.ingest_x(Term::Rec);
    a.ingest_y(Term::Rec);
    a.ingest_y(Term::Rec);
    assert_eq!(a.mat.to_vec(), v(&[1, 2, 3, 4, 5, 6, 7, 8]));
    let mut l = lft([1, 2, 3, 4]);
    l.ingest_x(Term::Rec);
    l.ingest_x(Term::Rec);
    assert_eq!(m4(&l), v(&[1, 2, 3, 4]));
}

#[test]
fn undefined_absorbs() {
    for t in TERMS {
        let mut a = arith([0; 8]);
        a.ingest_x(t);
        a.ingest_y(t);
        assert_eq!(a.egest_z(), Term::Undefined);
        assert_eq!(a.mat.to_vec(), v(&[0; 8]));
        let mut l = lft([0; 4]);
        l.ingest_x(t);
        assert_eq!(l.egest_z(), Term::Undefined);
        assert_eq!(m4(&l), v(&[0; 4]));
    }
    let mut a = arith([1, 2, 3, 4, 5, 6, 7, 8]);
    a.ingest_x(Term::Undefined);
    for _ in 0..3 {
        assert_eq!(a.egest_z(), Term::Undefined);
    }
}

fn drive(unit: &mut dyn FnMut(Term) -> Term, input: &[Term], n: usize) -> String {
    let mut s = String::new();
    for i in 0..n {
        let t = if i < input.len() { input[i] } else { Term::Empty };
        let z = unit(t);
        if z != Term::Empty {
            s.push(z.symbol());
        }
    }
    s
}

#[test]
fn square_root_of_four_is_two() {
    // 4 = 2 * 2 * (1 + 1/oo)
    let mut sqrt = Sqrt::create();
    let mut sampler = lft([1, 0, 0, 1]);
    sampler.egest_enabled = false;
    let mut step = |t: Term| {
        sqrt.ingest_x(t);
        sqrt.ingest_y(t);
        let z = sqrt.egest_z();
        sampler.ingest_x(z);
        z
    };
    let s = drive(&mut step, &[Term::Ord, Term::Ord, Term::DRec, Term::Inf], 40);
    assert!(s.ends_with('\u{221e}'), "{}", s);
    let ((n1, d1), (n2, d2)) = sampler.intervals();
    assert_eq!((n1, d1), (big(2), big(1)));
    assert_eq!((n2, d2), (big(2), big(1)));
}

#[test]
fn square_root_of_a_negative_is_undefined() {
    let mut sqrt = Sqrt::create();
    let mut step = |t: Term| {
        sqrt.ingest_x(t);
        sqrt.egest_z()
    };
    let s = drive(&mut step, &[Term::Neg, Term::Ord, Term::Ord, Term::DRec, Term::Inf], 12);
    assert!(s.contains('!'), "{}", s);
}

#[test]
fn remainder_of_infinity_is_undefined() {
    let mut m = Modulo::create();
    m.ingest_x(Term::Inf);
    m.ingest_y(Term::Ord);
    m.ingest_y(Term::DRec);
    m.ingest_y(Term::Inf);
    assert_eq!(m.egest_z(), Term::Undefined);
}

#[test]
fn remainder_waits_for_the_quotient() {
    let mut m = Modulo::create();
    assert_eq!(m.egest_z(), Term::Empty);
    m.ingest_x(Term::Ord);
    assert_eq!(m.egest_z(), Term::Empty);
}

struct Counting(i64);

impl TermSource for Counting {
    fn next_term(&mut self) -> Term {
        self.0 += 1;
        if self.0 % 2 == 0 { Term::Ord } else { Term::DRec }
    }
}

#[test]
fn sources_may_come_from_outside() {
    let mut c = CLogs { terms: TermStream::Outside(Box::new(Counting(0))) };
    c.ingest_x(Term::Ord);
    c.ingest_y(Term::Ord);
    assert_eq!(c.egest_z(), Term::DRec);
    assert_eq!(c.egest_z(), Term::Ord);
    assert_eq!(c.egest_z(), Term::DRec);
}

struct GoldenRatio;

impl CoefficientSource for GoldenRatio {
    fn next_quadruple(&mut self) -> Option<(i64, i64, i64, i64)> {
        Some((1, 1, 1, 1))
    }
}

#[test]
fn fractions_may_come_from_outside() {
    let mut wg = Workgroup::create();
    let out = wg.add_from_cfrac(FromCFrac {
        iter: Quadruples::Outside(Box::new(GoldenRatio)),
        mat: [big(1), big(0), big(0), big(1)],
    });
    let sampler = wg.add_lft(
        Lft { mat: [big(1), big(0), big(0), big(1)], egest_enabled: false },
        Some(out),
    );
    for _ in 0..300 {
        wg.cycle();
    }
    match &wg.get_unit(sampler).inner {
        UnitUnion::Lft(l) => {
            let ((n1, d1), (n2, d2)) = l.intervals();
            // 1.6180339 < (1 + sqrt 5) / 2 < 1.6180340
            for (n, d) in [(n1, d1), (n2, d2)] {
                assert!(d > big(0));
                assert!(big(16180339) * &d <= &n * big(10000000));
                assert!(&n * big(10000000) <= big(16180340) * &d);
            }
        }
        _ => panic!(),
    }
}

#[test]
fn streams_take_their_terms_in_order() {
    let mut s = TermStream::Replay(Replay::new(vec![Term::Neg]));
    assert_eq!(s.next_term(), Term::Neg);
    assert_eq!(s.next_term(), Term::Empty);
    let mut s = TermStream::Repeat(Repeat::new(Term::Ord));
    assert_eq!(s.next_term(), Term::Ord);
    assert_eq!(s.next_term(), Term::Ord);
    let mut q = Quadruples::Euler(EulerTerms::new());
    assert_eq!(q.next_quadruple(), Some((2, 1, 1, 1)));
    assert_eq!(q.next_quadruple(), Some((1, 1, 1, 1)));
    assert_eq!(q.next_quadruple(), Some((2, 1, 1, 1)));
    let mut q = Quadruples::Pi(PiTerms::new());
    assert_eq!(q.next_quadruple(), Some((1, 1, 1, 1)));
    assert_eq!(q.next_quadruple(), Some((3, 1, 4, 1)));
    let mut q = Quadruples::Simple(SimpleTerms::new(vec![9]));
    assert_eq!(q.next_quadruple(), Some((9, 1, 1, 1)));
    assert_eq!(q.next_quadruple(), None);
}

#[test]
fn built_in_sources() {
    let mut r = Repeat::new(Term::Neg);
    assert_eq!(r.next_term(), Term::Neg);
    assert_eq!(r.next_term(), Term::Neg);
    let mut r = Replay::new(vec![Term::Ord, Term::Rec]);
    assert_eq!(r.next_term(), Term::Ord);
    assert_eq!(r.next_term(), Term::Rec);
    assert_eq!(r.next_term(), Term::Empty);
    assert_eq!(r.next_term(), Term::Empty);
    let mut c = CLogs::replay(vec![Term::Inf]);
    assert_eq!(c.egest_z(), Term::Inf);
    assert_eq!(c.egest_z(), Term::Empty);
    let mut c = CLogs::repeat(Term::Undefined);
    assert_eq!(c.egest_z(), Term::Undefined);
    assert_eq!(c.egest_z(), Term::Undefined);
}

#[test]
fn quadruples_of_the_constants() {
    let mut e = EulerTerms::new();
    let got: Vec<i64> = (0..12).map(|_| e.next_quadruple().unwrap().0).collect();
    assert_eq!(got, vec![2, 1, 2, 1, 1, 4, 1, 1, 6, 1, 1, 8]);
    let mut e = EulerTerms::new();
    assert_eq!(e.next_quadruple(), Some((2, 1, 1, 1)));
    let mut p = PiTerms::new();
    let got: Vec<(i64, i64, i64, i64)> = (0..4).map(|_| p.next_quadruple().unwrap()).collect();
    assert_eq!(got, vec![(1, 1, 1, 1), (3, 1, 4, 1), (5, 1, 9, 1), (7, 1, 16, 1)]);
    let mut s = SimpleTerms::new(vec![3, 7]);
    assert_eq!(s.next_quadruple(), Some((3, 1, 1, 1)));
    assert_eq!(s.next_quadruple(), Some((7, 1, 1, 1)));
    assert_eq!(s.next_quadruple(), None);
    assert_eq!(s.next_quadruple(), None);
}

#[test]
fn a_quadruple_is_composed_into_the_matrix() {
    let mut f = FromCFrac::simple(vec![]);
    f.mat = [big(1), big(2), big(3), big(4)];
    f.absorb(Some((5, 6, 7, 8)));
    // [a*p*s + b*q*s, a*r*q, c*p*s + d*q*s, c*r*q]
    assert_eq!(f.mat.to_vec(), v(&[1 * 5 * 8 + 2 * 6 * 8, 1 * 7 * 6, 3 * 5 * 8 + 4 * 6 * 8, 3 * 7 * 6]));
    f.absorb(None);
    assert_eq!(f.mat.to_vec(), v(&[136, 136, 312, 312]));
    let mut g = FromCFrac::simple(vec![]);
    assert_eq!(g.step(Some((3, 1, 1, 1))), Term::Ord);
    assert_eq!(g.mat.to_vec(), v(&[3, 1, 2, 0]));
    let mut h = FromCFrac::simple(vec![]);
    h.mat = [big(0), big(0), big(0), big(0)];
    assert_eq!(h.step(None), Term::Undefined);
}

#[test]
fn large_quadruples_do_not_overflow() {
    let mut f = FromCFrac::simple(vec![]);
    f.absorb(Some((i64::MAX, 1, 1, i64::MAX)));
    let square = BigInt::from(i64::MAX) * BigInt::from(i64::MAX);
    assert_eq!(f.mat[0], square);
}

#[test]
fn an_empty_workgroup() {
    let mut wg = Workgroup::create();
    assert_eq!(wg.issued(), 0);
    assert_eq!(wg.current_phase, WorkgroupPhase::EgestZ);
    wg.cycle();
    assert_eq!(wg.current_phase, WorkgroupPhase::IngestX);
    assert_eq!(WorkgroupPhase::IngestX.next(), WorkgroupPhase::IngestY);
    assert_eq!(WorkgroupPhase::IngestY.next(), WorkgroupPhase::EgestZ);
    assert_eq!(WorkgroupPhase::EgestZ.next(), WorkgroupPhase::IngestX);
}

#[test]
fn units_are_found_by_their_handles() {
    let mut wg = Workgroup::create();
    let a = wg.add_unit(UnitConcrete {
        inner: UnitUnion::Lft(lft([6, 6, 1, 1])),
        x: None,
        y: None,
        z: Term::Empty,
    });
    let b = wg.add_lft(lft([1, 0, 0, 1]), Some(a));
    assert_ne!(a, b);
    assert_eq!(wg.issued(), 2);
    assert_eq!(wg.get_unit(b).x, Some(a));
    assert_eq!(wg.get_unit(a).z, Term::Empty);
    wg.get_unit_mut(a).z = Term::Neg;
    assert_eq!(wg.get_unit(a).z, Term::Neg);
    match &mut wg.get_unit_mut(b).inner {
        UnitUnion::Lft(l) => l.egest_enabled = false,
        _ => panic!(),
    }
    match &wg.get_unit(b).inner {
        UnitUnion::Lft(l) => assert!(!l.egest_enabled),
        _ => panic!(),
    }
}

#[test]
fn a_step_carries_out_one_phase() {
    let mut wg = Workgroup::create();
    let a = wg.add_lft(lft([6, 6, 1, 1]), None);
    let b = wg.add_lft(
        Lft { mat: [big(1), big(0), big(0), big(1)], egest_enabled: false },
        Some(a),
    );
    let mats = |wg: &Workgroup, id: UnitId| match &wg.get_unit(id).inner {
        UnitUnion::Lft(l) => l.mat.to_vec(),
        _ => panic!(),
    };
    // egest: a egests Ord, b egests nothing
    wg.cycle();
    assert_eq!(wg.get_unit(a).z, Term::Ord);
    assert_eq!(wg.get_unit(b).z, Term::Empty);
    assert_eq!(mats(&wg, a), v(&[3, 3, 1, 1]));
    assert_eq!(mats(&wg, b), v(&[1, 0, 0, 1]));
    // ingest x: b reads what a egested
    wg.cycle();
    assert_eq!(mats(&wg, a), v(&[3, 3, 1, 1]));
    assert_eq!(mats(&wg, b), v(&[2, 0, 0, 1]));
    assert_eq!(wg.get_unit(a).z, Term::Ord);
    // ingest y: nobody has a second input
    wg.cycle();
    assert_eq!(mats(&wg, a), v(&[3, 3, 1, 1]));
    assert_eq!(mats(&wg, b), v(&[2, 0, 0, 1]));
}

#[test]
fn terms_may_be_fed_by_hand() {
    let mut wg = Workgroup::create();
    let p = wg.add_lft(lft([1, 0, 0, 1]), None);
    let q = wg.add_lft(lft([1, 0, 0, 1]), None);
    let a = wg.add_arith(arith([1, 2, 3, 4, 5, 6, 7, 8]), p, q);
    wg.feed_x(a, Term::Rec);
    wg.feed_y(a, Term::Neg);
    match &wg.get_unit(a).inner {
        UnitUnion::Arith(u) => assert_eq!(u.mat.to_vec(), v(&[-3, 4, -1, 2, -7, 8, -5, 6])),
        _ => panic!(),
    }
}

#[test]
fn squares_are_chained() {
    let mut wg = Workgroup::create();
    let three = wg.add_lft(lft([3, 3, 1, 1]), None);
    let items = pow2(&mut wg, three, 2);
    assert_eq!(items.len(), 3);
    assert_eq!(items[0], three);
    assert_eq!(wg.get_unit(items[1]).x, Some(three));
    assert_eq!(wg.get_unit(items[1]).y, Some(three));
    assert_eq!(wg.get_unit(items[2]).x, Some(items[1]));
    let sampler = wg.add_lft(Lft { mat: [big(1), big(0), big(0), big(1)], egest_enabled: false }, Some(items[2]));
    for _ in 0..300 {
        wg.cycle();
    }
    match &wg.get_unit(sampler).inner {
        UnitUnion::Lft(l) => {
            let ((n1, d1), (n2, d2)) = l.intervals();
            assert_eq!((n1, d1), (big(81), big(1)));
            assert_eq!((n2, d2), (big(81), big(1)));
        }
        _ => panic!(),
    }
    let none = pow2(&mut wg, three, 0);
    assert_eq!(none, vec![three]);
}

#[test]
fn endpoints_on_both_sides_of_zero_do_not_agree() {
    // endpoints 1/2 and -1/2: they round down to 0 and -1, up to 1 and 0
    let l = lft([1, -2, 2, 0]);
    assert_eq!(l.intervals(), ((big(1), big(2)), (big(-1), big(2))));
    assert_eq!(l.floor(), None);
    assert_eq!(l.ceil(), None);
    assert_eq!(l.trunc(), Some(big(0)));
    assert_eq!(l.round(), Some(big(0)));
    // endpoints 7/10 and -7/10: the nearest integers are 1 and -1
    let l = lft([7, -14, 10, 0]);
    assert_eq!(l.intervals(), ((big(7), big(10)), (big(-7), big(10))));
    assert_eq!(l.round(), None);
    assert_eq!(l.floor(), None);
    assert_eq!(l.ceil(), None);
    assert_eq!(l.trunc(), Some(big(0)));
}

#[test]
fn each_endpoint_is_rounded_by_its_own_sign() {
    let s = |x: i64| Some(big(x));
    // endpoints 13/5 and 16/5: both nearest to 3
    let l = lft([13, 3, 5, 0]);
    assert_eq!((l.trunc(), l.floor(), l.ceil(), l.round()), (None, None, None, s(3)));
    // endpoints -13/5 and -16/5
    let l = lft([-13, -3, 5, 0]);
    assert_eq!((l.trunc(), l.floor(), l.ceil(), l.round()), (None, None, None, s(-3)));
    // endpoints 5/-2 and 5/-2, the sign in the denominator
    let l = lft([5, 0, -2, 0]);
    assert_eq!((l.trunc(), l.floor(), l.ceil(), l.round()), (s(-2), s(-3), s(-2), s(-2)));
    // endpoints 3/2 and -3/2
    let l = lft([3, -6, 2, 0]);
    assert_eq!((l.trunc(), l.floor(), l.ceil(), l.round()), (None, None, None, None));
    // endpoints 0 and -1/3
    let l = lft([0, -1, 3, 0]);
    assert_eq!((l.trunc(), l.floor(), l.ceil(), l.round()), (s(0), None, s(0), s(0)));
    // endpoints 0 and 1/3
    let l = lft([0, 1, 3, 0]);
    assert_eq!((l.trunc(), l.floor(), l.ceil(), l.round()), (s(0), s(0), None, s(0)));
}

#[test]
fn workgroups_with_the_same_sources_agree() {
    let build = || {
        let mut wg = Workgroup::create();
        let p = wg.add_from_cfrac(pi());
        let c = wg.add_clogs(CLogs::replay(vec![Term::Ord, Term::DRec, Term::Inf]));
        let out = wg.add_arith(arith([1, 0, 0, 0, 0, 0, 0, 1]), p, c);
        (wg, out)
    };
    let (mut w1, o1) = build();
    let (mut w2, o2) = build();
    let mut seen = String::new();
    for _ in 0..150 {
        w1.cycle();
        w2.cycle();
        assert_eq!(w1.get_unit(o1).z, w2.get_unit(o2).z);
        if w1.current_phase == WorkgroupPhase::IngestX && w1.get_unit(o1).z != Term::Empty {
            seen.push(w1.get_unit(o1).z.symbol());
        }
    }
    assert!(seen.len() > 20, "{}", seen);
}

#[test]
fn a_layer_is_added_after_more_than_sixteen_terms_each() {
    // 1/2 = 1 / (2 * (1 + 1/oo))
    let input = [Term::Rec, Term::Ord, Term::DRec, Term::Inf];
    let mut exp = ExpTaylor::create();
    assert_eq!(exp.layers(), 1);
    let mut since = 0;
    let mut grown = 0;
    let mut by_count = 0;
    for i in 0..2000 {
        let t = if i < input.len() { input[i] } else { Term::Empty };
        exp.ingest_x(t);
        exp.ingest_y(t);
        let before = exp.layers();
        let z = exp.egest_z();
        assert_ne!(z, Term::Inf);
        if exp.layers() > before {
            // the term that brought the count over the limit was held back
            assert_eq!(exp.layers(), before + 1);
            assert_eq!(z, Term::Empty);
            assert!(since <= 16 * before);
            if since == 16 * before {
                by_count += 1;
            }
            since = 0;
            grown += 1;
        } else if z != Term::Empty {
            since += 1;
            assert!(since <= 16 * before);
        }
    }
    assert!(grown >= 2 && by_count >= 1, "{} {}", grown, by_count);
}

#[test]
fn layers_are_added_by_hand() {
    let mut exp = ExpTaylor::create();
    exp.add_layer();
    exp.add_layer();
    assert_eq!(exp.layers(), 3);
}
