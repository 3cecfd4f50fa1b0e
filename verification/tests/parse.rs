use clns::parse::{
    roll_stack_expression, stack_into_workgroup, term_for, keep_term, literal_kind, Constant,
    LiteralKind, Node, OneChild, RollExprError, TwoChildren,
};
use clns::unit::UnitUnion;
use clns::workgroup::{UnitId, Workgroup, WorkgroupPhase};
use clns::Term;
use num_bigint::BigInt;

fn big(v: i64) -> BigInt {
    BigInt::from(v)
}

fn roll(line: &str) -> Box<Node> {
    match roll_stack_expression(line) {
        Ok(node) => node,
        Err(e) => panic!("{:?}", e),
    }
}

fn decimal(node: &Node) -> (BigInt, u16) {
    match node {
        Node::Decimal { word, pow } => (word.clone(), *pow),
        other => panic!("{:?}", other),
    }
}

fn run(wg: &mut Workgroup, out: UnitId, egests: u32) -> String {
    let mut s = String::new();
    for _ in 0..egests * 3 {
        wg.cycle();
        if wg.current_phase == WorkgroupPhase::IngestX {
            let z = wg.get_unit(out).z;
            if z != Term::Empty {
                s.push(z.symbol());
            }
        }
    }
    s
}

/// Builds and runs the workgroup of a line; returns what the value unit
/// egested and the bracket of the sampler.
fn evaluate(line: &str) -> (String, ((BigInt, BigInt), (BigInt, BigInt))) {
    let node = roll(line);
    assert!(node.is_supported());
    assert!(node.fits(u32::MAX - 1).is_some());
    let (mut wg, out, to_rat) = stack_into_workgroup(node);
    let s = run(&mut wg, out, 100);
    let br = match &wg.get_unit(to_rat).inner {
        UnitUnion::Lft(lft) => lft.intervals(),
        _ => unreachable!(),
    };
    (s, br)
}

/// Whether `p / q` lies between the two endpoints, whatever their order.
fn contains(b: &((BigInt, BigInt), (BigInt, BigInt)), p: i64, q: i64) -> bool {
    let ((n1, d1), (n2, d2)) = b.clone();
    assert!(d1 > big(0) && d2 > big(0));
    let (p, q) = (big(p), big(q));
    let below1 = &n1 * &q <= &p * &d1;
    let above1 = &n1 * &q >= &p * &d1;
    let below2 = &n2 * &q <= &p * &d2;
    let above2 = &n2 * &q >= &p * &d2;
    (below1 && above2) || (above1 && below2)
}

fn within(b: &((BigInt, BigInt), (BigInt, BigInt)), low: i64, high: i64, q: i64) -> bool {
    let ((n1, d1), (n2, d2)) = b.clone();
    assert!(d1 > big(0) && d2 > big(0), "{:?}", b);
    let q = big(q);
    let ok = |n: &BigInt, d: &BigInt| &big(low) * d <= n * &q && n * &q <= &big(high) * d;
    ok(&n1, &d1) && ok(&n2, &d2)
}

#[test]
fn rolls_an_addition() {
    match *roll("1 2.5 +") {
        Node::TwoChildren(TwoChildren::Add, first, second) => {
            assert_eq!(decimal(&first), (big(1), 0));
            assert_eq!(decimal(&second), (big(25), 1));
        }
        other => panic!("{:?}", other),
    }
}

#[test]
fn operands_keep_their_order() {
    match *roll("7 3 %") {
        Node::TwoChildren(TwoChildren::Mod, first, second) => {
            assert_eq!(decimal(&first), (big(7), 0));
            assert_eq!(decimal(&second), (big(3), 0));
        }
        other => panic!("{:?}", other),
    }
}

#[test]
fn rolls_every_operator() {
    let binary = [
        ("+", TwoChildren::Add),
        ("-", TwoChildren::Sub),
        ("*", TwoChildren::Mul),
        ("/", TwoChildren::Div),
        ("%", TwoChildren::Mod),
        ("^", TwoChildren::Pow),
        ("log", TwoChildren::Log),
        ("floor", TwoChildren::Floor),
        ("ceil", TwoChildren::Ceil),
        ("round", TwoChildren::Round),
        ("cmp", TwoChildren::Compare),
    ];
    for (word, kind) in binary {
        match *roll(&format!("1 2 {}", word)) {
            Node::TwoChildren(k, _, _) => assert_eq!(k, kind),
            other => panic!("{:?}", other),
        }
    }
    let unary = [
        ("abs", OneChild::Abs),
        ("sqrt", OneChild::Sqrt),
        ("exp", OneChild::Exp),
        ("ln", OneChild::Ln),
        ("log2", OneChild::Log2),
    ];
    for (word, kind) in unary {
        match *roll(&format!("2 {}", word)) {
            Node::OneChild(k, _) => assert_eq!(k, kind),
            other => panic!("{:?}", other),
        }
    }
    let constants = [("pi", Constant::Pi), ("e", Constant::E), ("inf", Constant::Inf)];
    for (word, kind) in constants {
        match *roll(word) {
            Node::Constant { kind: k } => assert_eq!(k, kind),
            other => panic!("{:?}", other),
        }
    }
}

#[test]
fn rolls_decimals() {
    assert_eq!(decimal(&roll("0.5")), (big(5), 1));
    assert_eq!(decimal(&roll("3.14")), (big(314), 2));
    assert_eq!(decimal(&roll("0.50")), (big(50), 2));
    assert_eq!(decimal(&roll(".5")), (big(5), 1));
    assert_eq!(decimal(&roll("5.")), (big(5), 0));
    assert_eq!(decimal(&roll("42")), (big(42), 0));
    assert_eq!(decimal(&roll("000")), (big(0), 0));
    assert_eq!(decimal(&roll("0.00")), (big(0), 0));
    let long = roll("123456789012345678901234567890.5");
    let expected = "1234567890123456789012345678905".parse::<BigInt>().unwrap();
    assert_eq!(decimal(&long), (expected, 1));
}

#[test]
fn rolls_continued_fractions_and_streams() {
    match *roll("f:4,2,6,7") {
        Node::CFrac { terms } => assert_eq!(terms, vec![4, 2, 6, 7]),
        other => panic!("{:?}", other),
    }
    match *roll("f:1,x,-3,,+5") {
        Node::CFrac { terms } => assert_eq!(terms, vec![1, -3, 5]),
        other => panic!("{:?}", other),
    }
    match *roll("f:") {
        Node::CFrac { terms } => assert_eq!(terms, Vec::<i64>::new()),
        other => panic!("{:?}", other),
    }
    match *roll("c110\u{221e}") {
        Node::CLog { items } => {
            assert_eq!(items, vec![Term::Ord, Term::Ord, Term::DRec, Term::Inf])
        }
        other => panic!("{:?}", other),
    }
    match *roll("c-/x\u{f8}!") {
        Node::CLog { items } => {
            assert_eq!(items, vec![Term::Neg, Term::Rec, Term::Empty, Term::Undefined])
        }
        other => panic!("{:?}", other),
    }
}

#[test]
fn blanks_do_not_matter() {
    match *roll("  \t 1   2  +   \n") {
        Node::TwoChildren(TwoChildren::Add, _, _) => {}
        other => panic!("{:?}", other),
    }
}

#[test]
fn what_is_below_the_top_is_ignored() {
    assert_eq!(decimal(&roll("1 2 3")), (big(3), 0));
}

#[test]
fn reports_each_error() {
    assert!(matches!(roll_stack_expression(""), Err(RollExprError::EmptyStack)));
    assert!(matches!(roll_stack_expression("   "), Err(RollExprError::EmptyStack)));
    assert!(matches!(roll_stack_expression("+"), Err(RollExprError::EmptyStack)));
    assert!(matches!(roll_stack_expression("1 +"), Err(RollExprError::EmptyStack)));
    assert!(matches!(roll_stack_expression("sqrt"), Err(RollExprError::EmptyStack)));
    match roll_stack_expression("1 ?? 2") {
        Err(RollExprError::InvalidToken(t)) => assert_eq!(t, "??"),
        other => panic!("{:?}", other),
    }
    assert!(matches!(roll_stack_expression("1.2.3"), Err(RollExprError::InvalidDecimal)));
    assert!(matches!(roll_stack_expression("."), Err(RollExprError::InvalidDecimal)));
    assert!(matches!(roll_stack_expression(".."), Err(RollExprError::InvalidDecimal)));
    assert!(matches!(roll_stack_expression("1\u{663}"), Err(RollExprError::InvalidDecimal)));
    assert!(matches!(roll_stack_expression("abc"), Err(RollExprError::InvalidName)));
    assert!(matches!(roll_stack_expression("1e5"), Err(RollExprError::InvalidName)));
}

#[test]
fn symbols_and_terms() {
    for t in [
        Term::Empty,
        Term::Ord,
        Term::DRec,
        Term::Rec,
        Term::Neg,
        Term::Inf,
        Term::Undefined,
    ] {
        assert_eq!(term_for(t.symbol()), Some(t));
    }
    assert_eq!(term_for('x'), None);
}

#[test]
fn pieces_that_spell_no_integer_are_dropped() {
    let mut terms = vec![1];
    keep_term(&mut terms, Some(7));
    keep_term(&mut terms, None);
    keep_term(&mut terms, Some(-2));
    assert_eq!(terms, vec![1, 7, -2]);
}

#[test]
fn kinds_of_literals() {
    assert!(matches!(literal_kind(true, true, true, true), LiteralKind::Invalid));
    assert!(matches!(literal_kind(false, true, true, true), LiteralKind::CFrac));
    assert!(matches!(literal_kind(false, false, true, true), LiteralKind::CLog));
    assert!(matches!(literal_kind(false, false, false, true), LiteralKind::Decimal));
    assert!(matches!(literal_kind(false, false, false, false), LiteralKind::Unknown));
}

#[test]
fn unsupported_operators_are_told() {
    assert!(roll("1 2 +").is_supported());
    assert!(roll("2 sqrt exp log2").is_supported());
    assert!(!roll("1 abs").is_supported());
    assert!(!roll("1 ln").is_supported());
    assert!(!roll("1 2 ^").is_supported());
    assert!(!roll("1 2 log").is_supported());
    assert!(!roll("1 2 floor").is_supported());
    assert!(!roll("1 2 ceil").is_supported());
    assert!(!roll("1 2 round 3 +").is_supported());
}

#[test]
fn handles_are_counted() {
    let node = roll("1 2 + 3 * sqrt");
    assert_eq!(node.fits(6), Some(0));
    assert_eq!(node.fits(10), Some(4));
    assert_eq!(node.fits(5), None);
    assert_eq!(node.fits(0), None);
}

#[test]
fn builds_the_graph_of_an_expression() {
    let (wg, out, to_rat) = stack_into_workgroup(roll("7 3 - pi *"));
    assert_eq!(wg.issued(), 6);
    assert_eq!(wg.current_phase, WorkgroupPhase::EgestZ);
    let product = wg.get_unit(out);
    assert!(matches!(product.inner, UnitUnion::Arith(_)));
    let difference = wg.get_unit(product.x.unwrap());
    let constant = wg.get_unit(product.y.unwrap());
    assert!(matches!(constant.inner, UnitUnion::FromCFrac(_)));
    match &difference.inner {
        UnitUnion::Arith(a) => {
            let expected: Vec<BigInt> = [0, 1, -1, 0, 0, 0, 0, 1].iter().map(|v| big(*v)).collect();
            assert_eq!(a.mat.to_vec(), expected);
        }
        _ => panic!(),
    }
    let seven = wg.get_unit(difference.x.unwrap());
    let three = wg.get_unit(difference.y.unwrap());
    match (&seven.inner, &three.inner) {
        (UnitUnion::Lft(a), UnitUnion::Lft(b)) => {
            assert_eq!(a.mat.to_vec(), vec![big(7), big(7), big(1), big(1)]);
            assert_eq!(b.mat.to_vec(), vec![big(3), big(3), big(1), big(1)]);
        }
        _ => panic!(),
    }
    let sampler = wg.get_unit(to_rat);
    assert_eq!(sampler.x, Some(out));
    match &sampler.inner {
        UnitUnion::Lft(l) => {
            assert!(!l.egest_enabled);
            assert_eq!(l.mat.to_vec(), vec![big(1), big(0), big(0), big(1)]);
        }
        _ => panic!(),
    }
}

#[test]
fn decimal_units_carry_the_power_of_ten() {
    let (wg, out, _) = stack_into_workgroup(roll("3.125"));
    match &wg.get_unit(out).inner {
        UnitUnion::Lft(l) => {
            assert_eq!(l.mat.to_vec(), vec![big(3125), big(3125), big(1000), big(1000)]);
            assert!(l.egest_enabled);
        }
        _ => panic!(),
    }
}

#[test]
fn decimals_round_as_written() {
    let sample = |line: &str| {
        let (wg, out, _) = stack_into_workgroup(roll(line));
        match &wg.get_unit(out).inner {
            UnitUnion::Lft(l) => (l.trunc(), l.floor(), l.ceil(), l.round()),
            _ => panic!(),
        }
    };
    let all = |t: i64, f: i64, c: i64, r: i64| (Some(big(t)), Some(big(f)), Some(big(c)), Some(big(r)));
    assert_eq!(sample("2.4"), all(2, 2, 3, 2));
    assert_eq!(sample("2.5"), all(2, 2, 3, 2));
    assert_eq!(sample("2.6"), all(2, 2, 3, 3));
    assert_eq!(sample("3.5"), all(3, 3, 4, 4));
    assert_eq!(sample("7"), all(7, 7, 7, 7));
    assert_eq!(sample("0.4999"), all(0, 0, 1, 0));
    assert_eq!(sample("12345.6789"), all(12345, 12345, 12346, 12346));
    assert_eq!(sample("0"), all(0, 0, 0, 0));
}

#[test]
fn written_scenarios() {
    let (s, br) = evaluate("1 1 +");
    assert!(s.starts_with("10\u{221e}"), "{}", s);
    assert!(within(&br, 2, 2, 1));
    let (s, br) = evaluate("2 3 +");
    assert!(s.starts_with("110110\u{221e}"), "{}", s);
    assert!(within(&br, 5, 5, 1));
    let (_, br) = evaluate("2 sqrt");
    assert!(within(&br, 141421, 141422, 100000));
    let (_, br) = evaluate("pi");
    assert!(within(&br, 314159, 314160, 100000));
    let (_, br) = evaluate("e");
    assert!(within(&br, 271828, 271829, 100000));
    let (_, br) = evaluate("0.5 exp");
    // exp(1/2) = 1.64872127..
    assert!(contains(&br, 16487213, 10000000), "{:?}", br);
    assert!(within(&br, 164, 166, 100), "{:?}", br);
    let (s, br) = evaluate("4 log2");
    assert!(s.starts_with("10\u{221e}"), "{}", s);
    assert!(within(&br, 2, 2, 1));
    let (_, br) = evaluate("7 3 %");
    assert!(within(&br, 1, 1, 1));
    let (_, br) = evaluate("f:4,2,6,7");
    assert!(within(&br, 415, 415, 93));
    let (_, br) = evaluate("c110\u{221e}");
    assert!(within(&br, 4, 4, 1));
    let (_, br) = evaluate("22 7 / 2 3 * -");
    assert!(within(&br, -20, -20, 7), "{:?}", br);
}

#[test]
fn three_compared_with_five_is_negative() {
    let (mut wg, out, _) = stack_into_workgroup(roll("3 5 cmp"));
    let s = run(&mut wg, out, 100);
    assert_eq!(s, "");
    match &wg.get_unit(out).inner {
        UnitUnion::Compare(c) => {
            let ((n1, d1), (n2, d2)) = c.cmp();
            assert!(d1 > big(0) && d2 > big(0));
            assert!(n1 < big(0) && n2 < big(0));
        }
        _ => panic!(),
    }
}

#[test]
fn remainder_by_infinity_is_the_dividend() {
    let (_, br) = evaluate("3 inf %");
    assert!(within(&br, 3, 3, 1), "{:?}", br);
}

#[test]
fn remainder_of_infinity_is_not_defined() {
    let (s, _) = evaluate("inf 3 %");
    assert!(s.starts_with('!'), "{}", s);
}

#[test]
fn logarithm_below_one_is_not_defined() {
    let (s, _) = evaluate("0.25 log2");
    assert!(s.contains('!'), "{}", s);
    assert!(!s.contains('1') && !s.contains('0'), "{}", s);
}

#[test]
fn logarithm_of_eight_is_three() {
    let (_, br) = evaluate("8 log2");
    assert!(within(&br, 3, 3, 1), "{:?}", br);
}

#[test]
fn square_root_of_a_fraction() {
    let (_, br) = evaluate("2.25 sqrt");
    assert!(within(&br, 3, 3, 2), "{:?}", br);
}

#[test]
fn exponential_of_zero_point_one() {
    let (_, br) = evaluate("0.1 exp");
    assert!(within(&br, 11051, 11052, 10000), "{:?}", br);
}
