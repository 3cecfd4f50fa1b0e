use clns::unit::arith::Arith;
use clns::unit::cfrac::consts::{e, pi};
use clns::unit::cfrac::{FromCFrac, Quadruples, SimpleTerms};
use clns::unit::compare::Compare;
use clns::unit::lft::Lft;
use clns::unit::modulo::Modulo;
use clns::unit::sqrt::Sqrt;
use clns::unit::{CLogs, Repeat, Replay, TermStream, UnitUnion};
use clns::workgroup::exp::ExpTaylor;
use clns::workgroup::log2::Log2;
use clns::workgroup::{UnitId, Workgroup, WorkgroupPhase};
use clns::Term;
use num_bigint::BigInt;

fn big(v: i64) -> BigInt {
    BigInt::from(v)
}

fn mat8(v: [i64; 8]) -> [BigInt; 8] {
    v.map(BigInt::from)
}

fn decimal(wg: &mut Workgroup, word: i64, pow: u32) -> UnitId {
    let den = BigInt::from(10).pow(pow);
    wg.add_lft(
        Lft { mat: [big(word), big(word), den.clone(), den], egest_enabled: true },
        None,
    )
}

fn sampler(wg: &mut Workgroup, of: UnitId) -> UnitId {
    wg.add_lft(
        Lft { mat: [big(1), big(0), big(0), big(1)], egest_enabled: false },
        Some(of),
    )
}

fn binary(wg: &mut Workgroup, m: [i64; 8], x: UnitId, y: UnitId) -> UnitId {
    wg.add_arith(Arith::create(mat8(m)), x, y)
}

const ADD: [i64; 8] = [0, 1, 1, 0, 0, 0, 0, 1];
const SUB: [i64; 8] = [0, 1, -1, 0, 0, 0, 0, 1];
const MUL: [i64; 8] = [1, 0, 0, 0, 0, 0, 0, 1];
const DIV: [i64; 8] = [0, 1, 0, 0, 0, 0, 1, 0];

/// Runs `3 * egests` steps and returns what `out` egested, `Empty` left out.
fn run(wg: &mut Workgroup, out: UnitId, egests: u32) -> String {
    let mut s = String::new();
    for _ in 0..egests * 3 {
        wg.cycle();
        if wg.current_phase == WorkgroupPhase::IngestX {
            let z = wg.get_unit(out).z;
            if z != Term::Empty {
                s.push(z.symbol());
            }
        }
    }
    s
}

fn bracket(wg: &Workgroup, to_rat: UnitId) -> ((BigInt, BigInt), (BigInt, BigInt)) {
    match &wg.get_unit(to_rat).inner {
        UnitUnion::Lft(lft) => lft.intervals(),
        _ => unreachable!(),
    }
}

/// Whether `p / q` lies between the two endpoints, whatever their order.
fn contains(b: &((BigInt, BigInt), (BigInt, BigInt)), p: i64, q: i64) -> bool {
    let ((n1, d1), (n2, d2)) = b.clone();
    assert!(d1 > big(0) && d2 > big(0));
    let (p, q) = (big(p), big(q));
    let below1 = &n1 * &q <= &p * &d1;
    let above1 = &n1 * &q >= &p * &d1;
    let below2 = &n2 * &q <= &p * &d2;
    let above2 = &n2 * &q >= &p * &d2;
    (below1 && above2) || (above1 && below2)
}

/// Whether the bracket lies within `[low/q, high/q]`, so that every value in it
/// agrees with the expected one to that precision.
fn within(b: &((BigInt, BigInt), (BigInt, BigInt)), low: i64, high: i64, q: i64) -> bool {
    let ((n1, d1), (n2, d2)) = b.clone();
    assert!(d1 > big(0) && d2 > big(0));
    let q = big(q);
    let ok = |n: &BigInt, d: &BigInt| &big(low) * d <= n * &q && n * &q <= &big(high) * d;
    ok(&n1, &d1) && ok(&n2, &d2)
}

#[test]
fn one_plus_one_is_two() {
    let mut wg = Workgroup::create();
    let a = decimal(&mut wg, 1, 0);
    let b = decimal(&mut wg, 1, 0);
    let out = binary(&mut wg, ADD, a, b);
    let to_rat = sampler(&mut wg, out);
    let s = run(&mut wg, out, 100);
    // 2 = 2 * (1 + 1/oo)
    assert!(s.starts_with("10\u{221e}"), "{}", s);
    let br = bracket(&wg, to_rat);
    assert!(within(&br, 2, 2, 1));
}

#[test]
fn two_plus_three_is_five() {
    let mut wg = Workgroup::create();
    let a = decimal(&mut wg, 2, 0);
    let b = decimal(&mut wg, 3, 0);
    let out = binary(&mut wg, ADD, a, b);
    let to_rat = sampler(&mut wg, out);
    let s = run(&mut wg, out, 100);
    // 5 = 2 * 2 * (1 + 1/4), 4 = 2 * 2 * (1 + 1/oo)
    assert!(s.starts_with("110110\u{221e}"), "{}", s);
    let br = bracket(&wg, to_rat);
    assert!(within(&br, 5, 5, 1));
}

#[test]
fn square_root_of_two() {
    let mut wg = Workgroup::create();
    let a = decimal(&mut wg, 2, 0);
    let out = wg.add_sqrt(Sqrt::create(), a);
    let to_rat = sampler(&mut wg, out);
    let s = run(&mut wg, out, 100);
    // 1.41.. = 1 + 1/2.41.., 2.41.. = 2 * (1 + 1/4.82..), 4.82.. = 2 * 2.41..
    assert!(s.contains("011011011011011011011011"), "{}", s);
    let br = bracket(&wg, to_rat);
    assert!(within(&br, 141421, 141422, 100000));
}

#[test]
fn pi_stream() {
    let mut wg = Workgroup::create();
    let out = wg.add_from_cfrac(pi());
    let to_rat = sampler(&mut wg, out);
    let s = run(&mut wg, out, 100);
    // 3.14.. = 2 * (1 + 1/1.75..), 1.75.. = 1 + 1/1.32.., ..
    assert!(s.starts_with("10001000111001110011"), "{}", s);
    let br = bracket(&wg, to_rat);
    assert!(within(&br, 314159, 314160, 100000));
}

#[test]
fn e_stream() {
    let mut wg = Workgroup::create();
    let out = wg.add_from_cfrac(e());
    let to_rat = sampler(&mut wg, out);
    let s = run(&mut wg, out, 100);
    // 2.71.. = 2 * (1 + 1/2.78..), 2.78.. = 2 * (1 + 1/2.54..), ..
    assert!(s.starts_with("10101010011011"), "{}", s);
    let br = bracket(&wg, to_rat);
    assert!(within(&br, 271828, 271829, 100000));
}

#[test]
fn exp_of_one_half() {
    let mut wg = Workgroup::create();
    let a = decimal(&mut wg, 5, 1);
    let out = wg.add_exp_taylor(ExpTaylor::create(), a);
    let to_rat = sampler(&mut wg, out);
    let _ = run(&mut wg, out, 100);
    let br = bracket(&wg, to_rat);
    // exp(1/2) = 1.64872127..
    assert!(contains(&br, 16487213, 10000000), "{:?}", br);
    assert!(within(&br, 164, 166, 100), "{:?}", br);
}

#[test]
fn log2_of_four_is_two() {
    let mut wg = Workgroup::create();
    let a = decimal(&mut wg, 4, 0);
    let out = wg.add_log2(Log2::create(), a);
    let to_rat = sampler(&mut wg, out);
    let s = run(&mut wg, out, 100);
    assert!(s.starts_with("10\u{221e}"), "{}", s);
    let br = bracket(&wg, to_rat);
    assert!(within(&br, 2, 2, 1));
}

#[test]
fn seven_mod_three_is_one() {
    let mut wg = Workgroup::create();
    let a = decimal(&mut wg, 7, 0);
    let b = decimal(&mut wg, 3, 0);
    let out = wg.add_modulo(Modulo::create(), a, b);
    let to_rat = sampler(&mut wg, out);
    let _ = run(&mut wg, out, 100);
    let br = bracket(&wg, to_rat);
    assert!(within(&br, 1, 1, 1), "{:?}", br);
}

#[test]
fn three_is_below_five() {
    let mut wg = Workgroup::create();
    let a = decimal(&mut wg, 3, 0);
    let b = decimal(&mut wg, 5, 0);
    let out = wg.add_compare(Compare::create(), a, b);
    let s = run(&mut wg, out, 100);
    assert_eq!(s, "");
    let ((n1, d1), (n2, d2)) = match &wg.get_unit(out).inner {
        UnitUnion::Compare(c) => c.cmp(),
        _ => unreachable!(),
    };
    assert!(d1 > big(0) && d2 > big(0));
    assert!(n1 < big(0) && n2 < big(0));
    assert_eq!((n1, d1), (big(-2), big(1)));
    assert_eq!((n2, d2), (big(-2), big(1)));
}

#[test]
fn arithmetic_on_rationals() {
    // 7/4 - 1/2 = 5/4, 3/2 * 5 = 15/2, 1 / 8 = 0.125
    let cases: [([i64; 8], (i64, u32), (i64, u32), (i64, i64)); 3] = [
        (SUB, (175, 2), (5, 1), (5, 4)),
        (MUL, (15, 1), (5, 0), (15, 2)),
        (DIV, (1, 0), (8, 0), (1, 8)),
    ];
    for (m, x, y, (p, q)) in cases {
        let mut wg = Workgroup::create();
        let a = decimal(&mut wg, x.0, x.1);
        let b = decimal(&mut wg, y.0, y.1);
        let out = binary(&mut wg, m, a, b);
        let to_rat = sampler(&mut wg, out);
        let s = run(&mut wg, out, 100);
        assert!(s.ends_with('\u{221e}'), "{}", s);
        let br = bracket(&wg, to_rat);
        assert!(within(&br, p, p, q), "{:?}", br);
    }
}

#[test]
fn simple_continued_fraction_round_trip() {
    // 415/93 = [4; 2, 6, 7]
    let mut wg = Workgroup::create();
    let out = wg.add_from_cfrac(FromCFrac {
        iter: Quadruples::Simple(SimpleTerms::new(vec![4, 2, 6, 7])),
        mat: [big(1), big(0), big(0), big(1)],
    });
    let to_rat = sampler(&mut wg, out);
    let s = run(&mut wg, out, 100);
    assert!(s.ends_with('\u{221e}'), "{}", s);
    let br = bracket(&wg, to_rat);
    assert!(within(&br, 415, 415, 93), "{:?}", br);
}

#[test]
fn written_stream_is_replayed() {
    let mut wg = Workgroup::create();
    let src = wg.add_clogs(CLogs {
        terms: TermStream::Replay(Replay::new(vec![Term::Ord, Term::Ord, Term::DRec, Term::Inf])),
    });
    let to_rat = sampler(&mut wg, src);
    let s = run(&mut wg, src, 10);
    assert_eq!(s, "110\u{221e}");
    let br = bracket(&wg, to_rat);
    assert!(within(&br, 4, 4, 1), "{:?}", br);
}

#[test]
fn infinity_is_repeated() {
    let mut wg = Workgroup::create();
    let src = wg.add_clogs(CLogs { terms: TermStream::Repeat(Repeat::new(Term::Inf)) });
    let s = run(&mut wg, src, 5);
    assert_eq!(s, "\u{221e}\u{221e}\u{221e}\u{221e}\u{221e}");
}

#[test]
fn phase_returns_after_three_cycles() {
    let mut wg = Workgroup::create();
    let _ = decimal(&mut wg, 3, 0);
    assert_eq!(wg.current_phase, WorkgroupPhase::EgestZ);
    wg.cycle();
    assert_eq!(wg.current_phase, WorkgroupPhase::IngestX);
    wg.cycle();
    assert_eq!(wg.current_phase, WorkgroupPhase::IngestY);
    wg.cycle();
    assert_eq!(wg.current_phase, WorkgroupPhase::EgestZ);
    assert_eq!(wg.current_phase(), WorkgroupPhase::EgestZ);
}

#[test]
fn same_start_same_terms() {
    let build = || {
        let mut wg = Workgroup::create();
        let a = decimal(&mut wg, 22, 0);
        let b = decimal(&mut wg, 7, 0);
        let q = binary(&mut wg, DIV, a, b);
        let out = wg.add_sqrt(Sqrt::create(), q);
        (wg, out)
    };
    let (mut w1, o1) = build();
    let (mut w2, o2) = build();
    for _ in 0..90 {
        w1.cycle();
        w2.cycle();
        assert_eq!(w1.get_unit(o1).z, w2.get_unit(o2).z);
        assert_eq!(w1.current_phase, w2.current_phase);
    }
}

/// The value of a finished stream: its terms decoded from the end, in
/// front of infinity.
fn decode(stream: &str) -> (BigInt, BigInt) {
    let mut v = (big(1), big(0));
    for c in stream.chars().rev() {
        let (p, q) = v;
        v = match c {
            '1' => (p * 2, q),
            '0' => (&p + &q, p),
            '/' => (q, p),
            '-' => (-p, q),
            '\u{221e}' => (p + q, big(0)),
            other => panic!("{}", other),
        };
    }
    v
}

#[test]
fn finished_streams_decode_to_the_operation() {
    // (operation, x, y, result), decimals as (word, digits behind the point)
    let cases: [([i64; 8], (i64, u32), (i64, u32), (i64, i64)); 8] = [
        (ADD, (1, 0), (1, 0), (2, 1)),
        (ADD, (25, 1), (125, 2), (15, 4)),
        (SUB, (175, 2), (5, 1), (5, 4)),
        (SUB, (5, 1), (175, 2), (-5, 4)),
        (MUL, (15, 1), (5, 0), (15, 2)),
        (MUL, (12, 1), (12, 1), (36, 25)),
        (DIV, (1, 0), (8, 0), (1, 8)),
        (DIV, (22, 0), (7, 0), (22, 7)),
    ];
    for (m, x, y, (p, q)) in cases {
        let mut wg = Workgroup::create();
        let a = decimal(&mut wg, x.0, x.1);
        let b = decimal(&mut wg, y.0, y.1);
        let out = binary(&mut wg, m, a, b);
        let s = run(&mut wg, out, 200);
        let end = s.find('\u{221e}').expect("the stream ends");
        let finished: String = s.chars().take(s[..end].chars().count() + 1).collect();
        let (n, d) = decode(&finished);
        assert!(d != big(0), "{}", finished);
        assert_eq!(&n * big(q), big(p) * &d, "{} is {}/{}", finished, n, d);
    }
}
