use clns::Term;

#[test]
fn term_symbols() {
    assert_eq!(Term::Ord.symbol(), '1');
    assert_eq!(Term::DRec.symbol(), '0');
    assert_eq!(Term::Rec.symbol(), '/');
    assert_eq!(Term::Neg.symbol(), '-');
    assert_eq!(Term::Inf.symbol(), '\u{221e}');
    assert_eq!(Term::Empty.symbol(), '\u{f8}');
    assert_eq!(Term::Undefined.symbol(), '!');
    assert_eq!(Term::default(), Term::Empty);
}
