//! Expressions in reverse Polish notation, and the workgroups that compute
//! them.
//!
//! An expression is a line of tokens separated by spaces.  A token is an
//! operator (`+ - * / % ^ log floor ceil round cmp` take two operands,
//! `abs sqrt exp ln log2` take one), a constant (`pi e inf`), a decimal
//! literal, a simple continued fraction (`f:` and its terms, separated by
//! commas), or a written stream (`c` and its terms as symbols).
use vstd::prelude::*;
use vstd::string::*;
use num_bigint::BigInt;
use vstd::arithmetic::power::pow;
use vstd::pervasive::unreached;
use crate::bigint::{big_add, big_clone, big_from, big_mul, big_pow, int_of};
use crate::unit::arith::{matrix_of, Arith, ArithState, Bilinear};
use crate::unit::cfrac::consts::{e, pi};
use crate::unit::cfrac::{CFracState, FromCFrac, QuadrupleState};
use crate::unit::compare::{Compare, CompareState};
use crate::unit::lft::{Lft, LftState, Mobius};
use crate::unit::modulo::{Modulo, ModuloState};
use crate::unit::sqrt::Sqrt;
use crate::unit::{CLogs, StreamState, UnitUnion};
use crate::workgroup::exp::{ExpState, ExpTaylor};
use crate::workgroup::log2::{Log2, LogState};
use crate::workgroup::{number_of, UnitConcrete, UnitId, Workgroup, WorkgroupPhase};
use crate::Term;

verus! {

/// An operator with one operand.
#[derive(Clone, Copy, Debug, PartialEq, Eq, Structural)]
pub enum OneChild {
    Abs,
    Sqrt,
    Exp,
    Ln,
    Log2,
}

/// An operator with two operands.
#[derive(Clone, Copy, Debug, PartialEq, Eq, Structural)]
pub enum TwoChildren {
    Add,
    Sub,
    Mul,
    Div,
    Floor,
    Ceil,
    Round,
    Mod,
    Pow,
    Log,
    Compare,
}

/// A named constant.
#[derive(Clone, Copy, Debug, PartialEq, Eq, Structural)]
pub enum Constant {
    Pi,
    E,
    Inf,
}

/// Why a line is not an expression.
#[derive(Clone, Debug)]
pub enum RollExprError {
    /// A token without a letter, a digit or a point that is no operator.
    InvalidToken(String),
    /// A token of digits and points that is no decimal literal.
    InvalidDecimal,
    /// A token that is nothing else either.
    InvalidName,
    /// An operator found too few operands, or the line holds no token.
    EmptyStack,
}

/// An expression as a tree.  The first operand of an operator with two is
/// the one that was written first.
#[derive(Debug)]
pub enum Node {
    OneChild(OneChild, Box<Node>),
    TwoChildren(TwoChildren, Box<Node>, Box<Node>),
    /// `word / 10^pow`.
    Decimal { word: BigInt, pow: u16 },
    Constant { kind: Constant },
    CLog { items: Vec<Term> },
    CFrac { terms: Vec<i64> },
}

/// An expression as a value: what a `Node` holds.
pub enum Expr {
    OneChild(OneChild, Box<Expr>),
    TwoChildren(TwoChildren, Box<Expr>, Box<Expr>),
    Decimal { word: int, pow: u16 },
    Constant { kind: Constant },
    CLog { items: Seq<Term> },
    CFrac { terms: Seq<i64> },
}

/// Why a line is not an expression, as a value.
pub enum Failure {
    InvalidToken(Seq<char>),
    InvalidDecimal,
    InvalidName,
    EmptyStack,
}

impl Node {
    /// What the tree holds.
    pub open spec fn shape(&self) -> Expr
        decreases self,
    {
        match self {
            Node::OneChild(kind, child) => Expr::OneChild(*kind, Box::new(child.shape())),
            Node::TwoChildren(kind, first, second) => Expr::TwoChildren(
                *kind,
                Box::new(first.shape()),
                Box::new(second.shape()),
            ),
            Node::Decimal { word, pow } => Expr::Decimal { word: int_of(*word), pow: *pow },
            Node::Constant { kind } => Expr::Constant { kind: *kind },
            Node::CLog { items } => Expr::CLog { items: items@ },
            Node::CFrac { terms } => Expr::CFrac { terms: terms@ },
        }
    }
}

impl View for Node {
    type V = Expr;

    open spec fn view(&self) -> Expr {
        self.shape()
    }
}

impl View for RollExprError {
    type V = Failure;

    open spec fn view(&self) -> Failure {
        match self {
            RollExprError::InvalidToken(token) => Failure::InvalidToken(token@),
            RollExprError::InvalidDecimal => Failure::InvalidDecimal,
            RollExprError::InvalidName => Failure::InvalidName,
            RollExprError::EmptyStack => Failure::EmptyStack,
        }
    }
}

/// What `char::is_whitespace` says of a character.
pub uninterp spec fn whitespace(c: char) -> bool;

/// What `char::is_alphanumeric` says of a character.
pub uninterp spec fn alphanumeric(c: char) -> bool;

/// What `char::is_numeric` says of a character.
pub uninterp spec fn numeric(c: char) -> bool;

/// What `str::parse::<i64>` makes of a string.
pub uninterp spec fn parsed_i64(s: Seq<char>) -> Option<i64>;

/// `char::is_whitespace`: whether the character has the Unicode property
/// White_Space.
#[verifier::external_body]
fn is_whitespace(c: char) -> (r: bool)
    ensures
        r == whitespace(c),
{
    c.is_whitespace()
}

/// `char::is_alphanumeric`: whether the character is a Unicode letter or
/// number.
#[verifier::external_body]
fn is_alphanumeric(c: char) -> (r: bool)
    ensures
        r == alphanumeric(c),
{
    c.is_alphanumeric()
}

/// `char::is_numeric`: whether the character is a Unicode number.
#[verifier::external_body]
fn is_numeric(c: char) -> (r: bool)
    ensures
        r == numeric(c),
{
    c.is_numeric()
}

/// `str::parse::<i64>`: the integer that the string spells, if it spells
/// one that fits.
#[verifier::external_body]
fn parse_i64(s: &str) -> (r: Option<i64>)
    ensures
        r == parsed_i64(s@),
{
    s.parse::<i64>().ok()
}

/// How many characters of whitespace the string starts with.
pub open spec fn leading(s: Seq<char>) -> nat
    decreases s.len(),
{
    if s.len() > 0 && whitespace(s[0]) {
        1 + leading(s.skip(1))
    } else {
        0
    }
}

/// How many characters of whitespace the string ends with.
pub open spec fn trailing(s: Seq<char>) -> nat
    decreases s.len(),
{
    if s.len() > 0 && whitespace(s.last()) {
        1 + trailing(s.drop_last())
    } else {
        0
    }
}

/// The string without the whitespace at its ends.
pub open spec fn trim(s: Seq<char>) -> Seq<char> {
    if leading(s) >= s.len() {
        Seq::empty()
    } else {
        s.subrange(leading(s) as int, s.len() - trailing(s))
    }
}

/// Where the first `c` stands in the string; its length if there is none.
pub open spec fn first(s: Seq<char>, c: char) -> nat
    decreases s.len(),
{
    if s.len() > 0 && s[0] != c {
        1 + first(s.skip(1), c)
    } else {
        0
    }
}

proof fn leading_is(s: Seq<char>, k: nat)
    requires
        k <= s.len(),
        forall|j: int| 0 <= j < k ==> whitespace(#[trigger] s[j]),
        k == s.len() || !whitespace(s[k as int]),
    ensures
        leading(s) == k,
    decreases k,
{
    if k > 0 {
        assert(whitespace(s[0]));
        let t = s.skip(1);
        assert forall|j: int| 0 <= j < k - 1 implies whitespace(#[trigger] t[j]) by {
            assert(t[j] == s[j + 1]);
        }
        leading_is(t, (k - 1) as nat);
    }
}

proof fn trailing_is(s: Seq<char>, k: nat)
    requires
        k <= s.len(),
        forall|j: int| s.len() - k <= j < s.len() ==> whitespace(#[trigger] s[j]),
        k == s.len() || !whitespace(s[s.len() - k - 1]),
    ensures
        trailing(s) == k,
    decreases k,
{
    if k > 0 {
        assert(whitespace(s.last()));
        let t = s.drop_last();
        assert forall|j: int| t.len() - (k - 1) <= j < t.len() implies whitespace(
            #[trigger] t[j],
        ) by {
            assert(t[j] == s[j]);
        }
        trailing_is(t, (k - 1) as nat);
    }
}

proof fn first_is(s: Seq<char>, c: char, k: nat)
    requires
        k <= s.len(),
        forall|j: int| 0 <= j < k ==> #[trigger] s[j] != c,
        k == s.len() || s[k as int] == c,
    ensures
        first(s, c) == k,
    decreases k,
{
    if k > 0 {
        let t = s.skip(1);
        assert forall|j: int| 0 <= j < k - 1 implies #[trigger] t[j] != c by {
            assert(t[j] == s[j + 1]);
        }
        first_is(t, c, (k - 1) as nat);
    }
}

/// The characters of a string.
fn chars_of(s: &str) -> (v: Vec<char>)
    ensures
        v@ == s@,
{
    let n = s.unicode_len();
    let mut v: Vec<char> = Vec::new();
    let mut i: usize = 0;
    while i < n
        invariant
            i <= n,
            n == s@.len(),
            v@ == s@.take(i as int),
        decreases n - i,
    {
        v.push(s.get_char(i));
        assert(v@ == s@.take(i + 1));
        i += 1;
    }
    assert(s@.take(n as int) == s@);
    v
}

/// The bounds of `v[lo..hi]` without the whitespace at its ends.
fn trim_bounds(v: &Vec<char>, lo: usize, hi: usize) -> (r: (usize, usize))
    requires
        lo <= hi <= v@.len(),
    ensures
        lo <= r.0 <= r.1 <= hi,
        v@.subrange(r.0 as int, r.1 as int) == trim(v@.subrange(lo as int, hi as int)),
{
    let ghost s = v@.subrange(lo as int, hi as int);
    let mut a = lo;
    while a < hi && is_whitespace(v[a])
        invariant
            lo <= a <= hi <= v@.len(),
            forall|j: int| lo <= j < a ==> whitespace(#[trigger] v@[j]),
        decreases hi - a,
    {
        a += 1;
    }
    proof {
        assert forall|j: int| 0 <= j < a - lo implies whitespace(#[trigger] s[j]) by {
            assert(s[j] == v@[lo + j]);
        }
        leading_is(s, (a - lo) as nat);
    }
    if a == hi {
        assert(v@.subrange(a as int, a as int) == Seq::<char>::empty());
        return (a, a);
    }
    let mut b = hi;
    while b > a && is_whitespace(v[b - 1])
        invariant
            a <= b <= hi <= v@.len(),
            a < hi,
            !whitespace(v@[a as int]),
            forall|j: int| b <= j < hi ==> whitespace(#[trigger] v@[j]),
        decreases b,
    {
        b -= 1;
    }
    proof {
        assert(b > a);
        assert forall|j: int| s.len() - (hi - b) <= j < s.len() implies whitespace(
            #[trigger] s[j],
        ) by {
            assert(s[j] == v@[lo + j]);
        }
        assert(s[s.len() - (hi - b) - 1] == v@[b - 1]);
        trailing_is(s, (hi - b) as nat);
        assert(v@.subrange(a as int, b as int) == s.subrange(a - lo, s.len() - (hi - b)));
    }
    (a, b)
}

/// Where the first `c` stands in `v[lo..hi]`; `hi` if there is none.
fn find(v: &Vec<char>, lo: usize, hi: usize, c: char) -> (r: usize)
    requires
        lo <= hi <= v@.len(),
    ensures
        lo <= r <= hi,
        r - lo == first(v@.subrange(lo as int, hi as int), c),
{
    let ghost s = v@.subrange(lo as int, hi as int);
    let mut a = lo;
    while a < hi && v[a] != c
        invariant
            lo <= a <= hi <= v@.len(),
            forall|j: int| lo <= j < a ==> #[trigger] v@[j] != c,
        decreases hi - a,
    {
        a += 1;
    }
    proof {
        assert forall|j: int| 0 <= j < a - lo implies #[trigger] s[j] != c by {
            assert(s[j] == v@[lo + j]);
        }
        first_is(s, c, (a - lo) as nat);
    }
    a
}

/// The operator with two operands that a token names.
pub open spec fn binary_of(t: Seq<char>) -> Option<TwoChildren> {
    if t == seq!['+'] {
        Some(TwoChildren::Add)
    } else if t == seq!['-'] {
        Some(TwoChildren::Sub)
    } else if t == seq!['*'] {
        Some(TwoChildren::Mul)
    } else if t == seq!['/'] {
        Some(TwoChildren::Div)
    } else if t == seq!['%'] {
        Some(TwoChildren::Mod)
    } else if t == seq!['^'] {
        Some(TwoChildren::Pow)
    } else if t == seq!['l', 'o', 'g'] {
        Some(TwoChildren::Log)
    } else if t == seq!['f', 'l', 'o', 'o', 'r'] {
        Some(TwoChildren::Floor)
    } else if t == seq!['c', 'e', 'i', 'l'] {
        Some(TwoChildren::Ceil)
    } else if t == seq!['r', 'o', 'u', 'n', 'd'] {
        Some(TwoChildren::Round)
    } else if t == seq!['c', 'm', 'p'] {
        Some(TwoChildren::Compare)
    } else {
        None
    }
}

/// The operator with one operand that a token names.
pub open spec fn unary_of(t: Seq<char>) -> Option<OneChild> {
    if t == seq!['a', 'b', 's'] {
        Some(OneChild::Abs)
    } else if t == seq!['s', 'q', 'r', 't'] {
        Some(OneChild::Sqrt)
    } else if t == seq!['e', 'x', 'p'] {
        Some(OneChild::Exp)
    } else if t == seq!['l', 'n'] {
        Some(OneChild::Ln)
    } else if t == seq!['l', 'o', 'g', '2'] {
        Some(OneChild::Log2)
    } else {
        None
    }
}

/// The constant that a token names.
pub open spec fn constant_of(t: Seq<char>) -> Option<Constant> {
    if t == seq!['p', 'i'] {
        Some(Constant::Pi)
    } else if t == seq!['e'] {
        Some(Constant::E)
    } else if t == seq!['i', 'n', 'f'] {
        Some(Constant::Inf)
    } else {
        None
    }
}

/// The term that a symbol stands for.
pub open spec fn term_of(c: char) -> Option<Term> {
    if c == '1' {
        Some(Term::Ord)
    } else if c == '0' {
        Some(Term::DRec)
    } else if c == '/' {
        Some(Term::Rec)
    } else if c == '-' {
        Some(Term::Neg)
    } else if c == '\u{f8}' {
        Some(Term::Empty)
    } else if c == '\u{221e}' {
        Some(Term::Inf)
    } else if c == '!' {
        Some(Term::Undefined)
    } else {
        None
    }
}

/// The terms that the symbols in a string stand for; what is no symbol is
/// passed over.
pub open spec fn stream_terms(s: Seq<char>) -> Seq<Term>
    decreases s.len(),
{
    if s.len() == 0 {
        Seq::empty()
    } else {
        match term_of(s.last()) {
            Some(t) => stream_terms(s.drop_last()).push(t),
            None => stream_terms(s.drop_last()),
        }
    }
}

/// The integers spelled between the commas of a string; what spells none
/// is passed over.
pub open spec fn cfrac_terms(s: Seq<char>) -> Seq<i64>
    decreases s.len(),
{
    let i = first(s, ',') as int;
    let head = match parsed_i64(s.take(i)) {
        Some(v) => seq![v],
        None => Seq::empty(),
    };
    if i >= s.len() {
        head
    } else {
        head + cfrac_terms(s.skip(i + 1))
    }
}

/// Whether a character is one of `0` to `9`.
pub open spec fn is_digit(c: char) -> bool {
    '0' <= c <= '9'
}

/// How many points a string holds.
pub open spec fn dots(s: Seq<char>) -> nat
    decreases s.len(),
{
    if s.len() == 0 {
        0
    } else if s.last() == '.' {
        dots(s.drop_last()) + 1
    } else {
        dots(s.drop_last())
    }
}

/// How many characters follow the last point of a string; 0 without one.
pub open spec fn after_dot(s: Seq<char>) -> nat
    decreases s.len(),
{
    if s.len() == 0 || s.last() == '.' || dots(s.drop_last()) == 0 {
        0
    } else {
        after_dot(s.drop_last()) + 1
    }
}

/// The number that the digits of a string spell in base ten, read without
/// its points.
pub open spec fn digits_value(s: Seq<char>) -> int
    decreases s.len(),
{
    if s.len() == 0 {
        0
    } else if is_digit(s.last()) {
        digits_value(s.drop_last()) * 10 + (s.last() as u32 - 48)
    } else {
        digits_value(s.drop_last())
    }
}

/// The decimal literal that a token of digits and points spells: `0` if no
/// digit but `0` occurs, otherwise its digits over ten to the number of
/// digits behind the point.  A token with two points or without a digit,
/// with a numeral that is not one of `0` to `9`, or with more digits behind
/// the point than `u16` can count, spells none.
pub open spec fn decimal_of(t: Seq<char>) -> Result<Expr, Failure> {
    if dots(t) > 1 || t.len() == dots(t) {
        Err(Failure::InvalidDecimal)
    } else if !(forall|i: int| 0 <= i < t.len() ==> is_digit(#[trigger] t[i]) || t[i] == '.') {
        Err(Failure::InvalidDecimal)
    } else if forall|i: int| 0 <= i < t.len() ==> #[trigger] t[i] == '0' || t[i] == '.' {
        Ok(Expr::Decimal { word: 0, pow: 0 })
    } else if after_dot(t) > u16::MAX {
        Err(Failure::InvalidDecimal)
    } else {
        Ok(Expr::Decimal { word: digits_value(t), pow: after_dot(t) as u16 })
    }
}

/// What a token that is no operator and no constant stands for.
pub open spec fn literal_of(t: Seq<char>) -> Result<Expr, Failure> {
    if forall|i: int| 0 <= i < t.len() ==> !alphanumeric(#[trigger] t[i]) && t[i] != '.' {
        Err(Failure::InvalidToken(t))
    } else if t.len() >= 2 && t[0] == 'f' && t[1] == ':' {
        Ok(Expr::CFrac { terms: cfrac_terms(t.skip(2)) })
    } else if t.len() >= 1 && t[0] == 'c' {
        Ok(Expr::CLog { items: stream_terms(t) })
    } else if forall|i: int| 0 <= i < t.len() ==> numeric(#[trigger] t[i]) || t[i] == '.' {
        decimal_of(t)
    } else {
        Err(Failure::InvalidName)
    }
}

/// The stack after a token: an operator takes its operands off the stack,
/// the first operand from below the second, and puts the result there; a
/// constant or a literal is put on top.
pub open spec fn apply(t: Seq<char>, stack: Seq<Expr>) -> Result<Seq<Expr>, Failure> {
    let n = stack.len() as int;
    match binary_of(t) {
        Some(kind) => if n < 2 {
            Err(Failure::EmptyStack)
        } else {
            Ok(
                stack.take(n - 2).push(
                    Expr::TwoChildren(kind, Box::new(stack[n - 2]), Box::new(stack[n - 1])),
                ),
            )
        },
        None => match unary_of(t) {
            Some(kind) => if n < 1 {
                Err(Failure::EmptyStack)
            } else {
                Ok(stack.take(n - 1).push(Expr::OneChild(kind, Box::new(stack[n - 1]))))
            },
            None => match constant_of(t) {
                Some(kind) => Ok(stack.push(Expr::Constant { kind })),
                None => match literal_of(t) {
                    Ok(e) => Ok(stack.push(e)),
                    Err(f) => Err(f),
                },
            },
        },
    }
}

/// What is left of a line, read onto a stack: the text up to the next space
/// is a token unless it is blank; the top of the stack after the last token
/// is the expression.
pub open spec fn roll_from(s: Seq<char>, stack: Seq<Expr>) -> Result<Expr, Failure>
    decreases s.len(),
{
    let i = first(s, ' ') as int;
    let token = trim(s.take(i));
    let next = if token.len() == 0 {
        Ok(stack)
    } else {
        apply(token, stack)
    };
    match next {
        Err(f) => Err(f),
        Ok(st) => if i >= s.len() {
            if st.len() == 0 {
                Err(Failure::EmptyStack)
            } else {
                Ok(st.last())
            }
        } else {
            roll_from(s.skip(i + 1), st)
        },
    }
}

/// The expression that a line spells, or why it spells none.
pub open spec fn rolled(line: Seq<char>) -> Result<Expr, Failure> {
    roll_from(trim(line), Seq::empty())
}

/// What the trees on a stack hold.
pub open spec fn shapes(stack: Seq<Box<Node>>) -> Seq<Expr> {
    Seq::new(stack.len(), |i: int| stack[i].shape())
}

/// What a result holds.
pub open spec fn outcome(r: Result<Box<Node>, RollExprError>) -> Result<Expr, Failure> {
    match r {
        Ok(node) => Ok(node.shape()),
        Err(e) => Err(e@),
    }
}

/// Whether `v[a..b]` is the word of the given 1 character.
fn is_word1(v: &Vec<char>, a: usize, b: usize, c0: char) -> (r: bool)
    requires
        a <= b <= v@.len(),
    ensures
        r == (v@.subrange(a as int, b as int) == seq![c0]),
{
    let r = b - a == 1 && v[a] == c0;
    proof {
        let t = v@.subrange(a as int, b as int);
        let w = seq![c0];
        if r {
            assert(t =~= w);
        } else if t == w {
            assert(t.len() == 1);
            assert(t[0] == w[0]);
        }
    }
    r
}

/// Whether `v[a..b]` is the word of the given 2 characters.
fn is_word2(v: &Vec<char>, a: usize, b: usize, c0: char, c1: char) -> (r: bool)
    requires
        a <= b <= v@.len(),
    ensures
        r == (v@.subrange(a as int, b as int) == seq![c0, c1]),
{
    let r = b - a == 2 && v[a] == c0 && v[a + 1] == c1;
    proof {
        let t = v@.subrange(a as int, b as int);
        let w = seq![c0, c1];
        if r {
            assert(t =~= w);
        } else if t == w {
            assert(t.len() == 2);
            assert(t[0] == w[0]);
            assert(t[1] == w[1]);
        }
    }
    r
}

/// Whether `v[a..b]` is the word of the given 3 characters.
fn is_word3(v: &Vec<char>, a: usize, b: usize, c0: char, c1: char, c2: char) -> (r: bool)
    requires
        a <= b <= v@.len(),
    ensures
        r == (v@.subrange(a as int, b as int) == seq![c0, c1, c2]),
{
    let r = b - a == 3 && v[a] == c0 && v[a + 1] == c1 && v[a + 2] == c2;
    proof {
        let t = v@.subrange(a as int, b as int);
        let w = seq![c0, c1, c2];
        if r {
            assert(t =~= w);
        } else if t == w {
            assert(t.len() == 3);
            assert(t[0] == w[0]);
            assert(t[1] == w[1]);
            assert(t[2] == w[2]);
        }
    }
    r
}

/// Whether `v[a..b]` is the word of the given 4 characters.
fn is_word4(v: &Vec<char>, a: usize, b: usize, c0: char, c1: char, c2: char, c3: char) -> (r: bool)
    requires
        a <= b <= v@.len(),
    ensures
        r == (v@.subrange(a as int, b as int) == seq![c0, c1, c2, c3]),
{
    let r = b - a == 4 && v[a] == c0 && v[a + 1] == c1 && v[a + 2] == c2 && v[a + 3] == c3;
    proof {
        let t = v@.subrange(a as int, b as int);
        let w = seq![c0, c1, c2, c3];
        if r {
            assert(t =~= w);
        } else if t == w {
            assert(t.len() == 4);
            assert(t[0] == w[0]);
            assert(t[1] == w[1]);
            assert(t[2] == w[2]);
            assert(t[3] == w[3]);
        }
    }
    r
}

/// Whether `v[a..b]` is the word of the given 5 characters.
fn is_word5(v: &Vec<char>, a: usize, b: usize, c0: char, c1: char, c2: char, c3: char, c4: char) -> (r: bool)
    requires
        a <= b <= v@.len(),
    ensures
        r == (v@.subrange(a as int, b as int) == seq![c0, c1, c2, c3, c4]),
{
    let r = b - a == 5 && v[a] == c0 && v[a + 1] == c1 && v[a + 2] == c2 && v[a + 3] == c3 && v[a + 4] == c4;
    proof {
        let t = v@.subrange(a as int, b as int);
        let w = seq![c0, c1, c2, c3, c4];
        if r {
            assert(t =~= w);
        } else if t == w {
            assert(t.len() == 5);
            assert(t[0] == w[0]);
            assert(t[1] == w[1]);
            assert(t[2] == w[2]);
            assert(t[3] == w[3]);
            assert(t[4] == w[4]);
        }
    }
    r
}

fn binary_at(v: &Vec<char>, a: usize, b: usize) -> (r: Option<TwoChildren>)
    requires
        a <= b <= v@.len(),
    ensures
        r == binary_of(v@.subrange(a as int, b as int)),
{
    if is_word1(v, a, b, '+') {
        Some(TwoChildren::Add)
    } else if is_word1(v, a, b, '-') {
        Some(TwoChildren::Sub)
    } else if is_word1(v, a, b, '*') {
        Some(TwoChildren::Mul)
    } else if is_word1(v, a, b, '/') {
        Some(TwoChildren::Div)
    } else if is_word1(v, a, b, '%') {
        Some(TwoChildren::Mod)
    } else if is_word1(v, a, b, '^') {
        Some(TwoChildren::Pow)
    } else if is_word3(v, a, b, 'l', 'o', 'g') {
        Some(TwoChildren::Log)
    } else if is_word5(v, a, b, 'f', 'l', 'o', 'o', 'r') {
        Some(TwoChildren::Floor)
    } else if is_word4(v, a, b, 'c', 'e', 'i', 'l') {
        Some(TwoChildren::Ceil)
    } else if is_word5(v, a, b, 'r', 'o', 'u', 'n', 'd') {
        Some(TwoChildren::Round)
    } else if is_word3(v, a, b, 'c', 'm', 'p') {
        Some(TwoChildren::Compare)
    } else {
        None
    }
}

fn unary_at(v: &Vec<char>, a: usize, b: usize) -> (r: Option<OneChild>)
    requires
        a <= b <= v@.len(),
    ensures
        r == unary_of(v@.subrange(a as int, b as int)),
{
    if is_word3(v, a, b, 'a', 'b', 's') {
        Some(OneChild::Abs)
    } else if is_word4(v, a, b, 's', 'q', 'r', 't') {
        Some(OneChild::Sqrt)
    } else if is_word3(v, a, b, 'e', 'x', 'p') {
        Some(OneChild::Exp)
    } else if is_word2(v, a, b, 'l', 'n') {
        Some(OneChild::Ln)
    } else if is_word4(v, a, b, 'l', 'o', 'g', '2') {
        Some(OneChild::Log2)
    } else {
        None
    }
}

fn constant_at(v: &Vec<char>, a: usize, b: usize) -> (r: Option<Constant>)
    requires
        a <= b <= v@.len(),
    ensures
        r == constant_of(v@.subrange(a as int, b as int)),
{
    if is_word2(v, a, b, 'p', 'i') {
        Some(Constant::Pi)
    } else if is_word1(v, a, b, 'e') {
        Some(Constant::E)
    } else if is_word3(v, a, b, 'i', 'n', 'f') {
        Some(Constant::Inf)
    } else {
        None
    }
}

/// The term that a symbol stands for.
pub fn term_for(c: char) -> (r: Option<Term>)
    ensures
        r == term_of(c),
{
    if c == '1' {
        Some(Term::Ord)
    } else if c == '0' {
        Some(Term::DRec)
    } else if c == '/' {
        Some(Term::Rec)
    } else if c == '-' {
        Some(Term::Neg)
    } else if c == '\u{f8}' {
        Some(Term::Empty)
    } else if c == '\u{221e}' {
        Some(Term::Inf)
    } else if c == '!' {
        Some(Term::Undefined)
    } else {
        None
    }
}

/// The terms that the symbols in `v[a..b]` stand for.
fn stream_at(v: &Vec<char>, a: usize, b: usize) -> (items: Vec<Term>)
    requires
        a <= b <= v@.len(),
    ensures
        items@ == stream_terms(v@.subrange(a as int, b as int)),
{
    let mut items: Vec<Term> = Vec::new();
    let mut i = a;
    while i < b
        invariant
            a <= i <= b <= v@.len(),
            items@ == stream_terms(v@.subrange(a as int, i as int)),
        decreases b - i,
    {
        let ghost next = v@.subrange(a as int, i + 1);
        assert(next.drop_last() == v@.subrange(a as int, i as int));
        assert(next.last() == v@[i as int]);
        match term_for(v[i]) {
            Some(t) => {
                items.push(t);
            },
            None => {},
        }
        i += 1;
    }
    items
}

/// Keeps what a piece of a continued fraction spelled, if it spelled an
/// integer.
pub fn keep_term(terms: &mut Vec<i64>, parsed: Option<i64>)
    ensures
        final(terms)@ == old(terms)@ + (match parsed {
            Some(v) => seq![v],
            None => Seq::empty(),
        }),
{
    match parsed {
        Some(v) => {
            terms.push(v);
            assert(terms@ == old(terms)@ + seq![v]);
        },
        None => {
            assert(terms@ == old(terms)@ + Seq::<i64>::empty());
        },
    }
}

/// The integers spelled between the commas of `v[a..b]`.
fn cfrac_at(line: &str, v: &Vec<char>, a: usize, b: usize) -> (terms: Vec<i64>)
    requires
        v@ == line@,
        a <= b <= v@.len(),
    ensures
        terms@ == cfrac_terms(v@.subrange(a as int, b as int)),
{
    let mut terms: Vec<i64> = Vec::new();
    let mut pos = a;
    loop
        invariant_except_break
            cfrac_terms(v@.subrange(a as int, b as int)) == terms@ + cfrac_terms(
                v@.subrange(pos as int, b as int),
            ),
        invariant
            v@ == line@,
            a <= pos <= b <= v@.len(),
        ensures
            terms@ == cfrac_terms(v@.subrange(a as int, b as int)),
        decreases b - pos,
    {
        let ghost rest = v@.subrange(pos as int, b as int);
        let end = find(v, pos, b, ',');
        assert(rest.take(end - pos) == v@.subrange(pos as int, end as int));
        let parsed = parse_i64(line.substring_char(pos, end));
        keep_term(&mut terms, parsed);
        if end == b {
            break ;
        }
        assert(rest.skip(end - pos + 1) == v@.subrange(end + 1, b as int));
        pos = end + 1;
    }
    terms
}

/// Which kind of literal a token is, given what is known of its characters:
/// whether none of them is a letter, a digit or a point, whether it starts
/// with `f:` or with `c`, and whether all of them are numerals or points.
pub enum LiteralKind {
    Invalid,
    CFrac,
    CLog,
    Decimal,
    Unknown,
}

/// The kind of a literal.  The first description that fits wins.
pub fn literal_kind(symbols_only: bool, fraction: bool, stream: bool, numerals: bool) -> (r:
    LiteralKind)
    ensures
        r == (if symbols_only {
            LiteralKind::Invalid
        } else if fraction {
            LiteralKind::CFrac
        } else if stream {
            LiteralKind::CLog
        } else if numerals {
            LiteralKind::Decimal
        } else {
            LiteralKind::Unknown
        }),
{
    if symbols_only {
        LiteralKind::Invalid
    } else if fraction {
        LiteralKind::CFrac
    } else if stream {
        LiteralKind::CLog
    } else if numerals {
        LiteralKind::Decimal
    } else {
        LiteralKind::Unknown
    }
}

/// The decimal literal that `v[a..b]` spells.
fn decimal_at(v: &Vec<char>, a: usize, b: usize) -> (r: Result<Box<Node>, RollExprError>)
    requires
        a <= b <= v@.len(),
    ensures
        outcome(r) == decimal_of(v@.subrange(a as int, b as int)),
{
    let ghost t = v@.subrange(a as int, b as int);
    let mut points: usize = 0;
    let mut behind: usize = 0;
    let mut plain = true;
    let mut zero = true;
    let mut word = big_from(0);
    let ten = big_from(10);
    let mut i = a;
    while i < b
        invariant
            a <= i <= b <= v@.len(),
            t == v@.subrange(a as int, b as int),
            int_of(ten) == 10,
            points == dots(t.take(i - a)),
            behind == after_dot(t.take(i - a)),
            points <= i - a,
            behind <= i - a,
            int_of(word) == digits_value(t.take(i - a)),
            plain == (forall|j: int| 0 <= j < i - a ==> is_digit(#[trigger] t[j]) || t[j] == '.'),
            zero == (forall|j: int| 0 <= j < i - a ==> #[trigger] t[j] == '0' || t[j] == '.'),
        decreases b - i,
    {
        let c = v[i];
        let ghost next = t.take(i - a + 1);
        assert(next.drop_last() == t.take(i - a));
        assert(next.last() == c);
        assert(t[i - a] == c);
        if c == '.' {
            points += 1;
            behind = 0;
        } else {
            if points > 0 {
                behind += 1;
            }
            if '0' <= c && c <= '9' {
                let digit = big_from((c as u32 - 48) as i64);
                word = big_add(&big_mul(&word, &ten), &digit);
                if c != '0' {
                    zero = false;
                }
            } else {
                plain = false;
                zero = false;
            }
        }
        i += 1;
    }
    assert(t.take(b - a) == t);
    if points > 1 || b - a == points {
        Err(RollExprError::InvalidDecimal)
    } else if !plain {
        Err(RollExprError::InvalidDecimal)
    } else if zero {
        Ok(Box::new(Node::Decimal { word: big_from(0), pow: 0 }))
    } else if behind > 65535 {
        Err(RollExprError::InvalidDecimal)
    } else {
        Ok(Box::new(Node::Decimal { word, pow: behind as u16 }))
    }
}

/// What the token `v[a..b]` stands for if it is no operator and no constant.
fn literal_at(line: &str, v: &Vec<char>, a: usize, b: usize) -> (r: Result<
    Box<Node>,
    RollExprError,
>)
    requires
        v@ == line@,
        a < b <= v@.len(),
    ensures
        outcome(r) == literal_of(v@.subrange(a as int, b as int)),
{
    let ghost t = v@.subrange(a as int, b as int);
    let mut symbols_only = true;
    let mut numerals = true;
    let mut i = a;
    while i < b
        invariant
            a <= i <= b <= v@.len(),
            t == v@.subrange(a as int, b as int),
            symbols_only == (forall|j: int|
                0 <= j < i - a ==> !alphanumeric(#[trigger] t[j]) && t[j] != '.'),
            numerals == (forall|j: int| 0 <= j < i - a ==> numeric(#[trigger] t[j]) || t[j] == '.'),
        decreases b - i,
    {
        let c = v[i];
        assert(t[i - a] == c);
        if is_alphanumeric(c) || c == '.' {
            symbols_only = false;
        }
        if !(is_numeric(c) || c == '.') {
            numerals = false;
        }
        i += 1;
    }
    assert(t[0] == v@[a as int]);
    let fraction = b - a >= 2 && v[a] == 'f' && v[a + 1] == ':';
    assert(b - a >= 2 ==> t[1] == v@[a + 1]);
    let stream = v[a] == 'c';
    match literal_kind(symbols_only, fraction, stream, numerals) {
        LiteralKind::Invalid => Err(
            RollExprError::InvalidToken(String::from_str(line.substring_char(a, b))),
        ),
        LiteralKind::CFrac => {
            assert(t.skip(2) == v@.subrange(a + 2, b as int));
            Ok(Box::new(Node::CFrac { terms: cfrac_at(line, v, a + 2, b) }))
        },
        LiteralKind::CLog => Ok(Box::new(Node::CLog { items: stream_at(v, a, b) })),
        LiteralKind::Decimal => decimal_at(v, a, b),
        LiteralKind::Unknown => Err(RollExprError::InvalidName),
    }
}

/// Reads the token `v[a..b]` onto the stack.
fn apply_at(line: &str, v: &Vec<char>, a: usize, b: usize, stack: &mut Vec<Box<Node>>) -> (r:
    Result<(), RollExprError>)
    requires
        v@ == line@,
        a < b <= v@.len(),
    ensures
        match apply(v@.subrange(a as int, b as int), shapes(old(stack)@)) {
            Ok(st) => r is Ok && shapes(final(stack)@) == st,
            Err(f) => r matches Err(e) && e@ == f,
        },
{
    let ghost before = shapes(stack@);
    let ghost n = stack@.len() as int;
    match binary_at(v, a, b) {
        Some(kind) => {
            let second = match stack.pop() {
                Some(node) => node,
                None => { return Err(RollExprError::EmptyStack); },
            };
            let first = match stack.pop() {
                Some(node) => node,
                None => { return Err(RollExprError::EmptyStack); },
            };
            stack.push(Box::new(Node::TwoChildren(kind, first, second)));
            assert(shapes(stack@) =~= before.take(n - 2).push(
                Expr::TwoChildren(kind, Box::new(before[n - 2]), Box::new(before[n - 1])),
            ));
            return Ok(());
        },
        None => {},
    }
    match unary_at(v, a, b) {
        Some(kind) => {
            let top = match stack.pop() {
                Some(node) => node,
                None => { return Err(RollExprError::EmptyStack); },
            };
            stack.push(Box::new(Node::OneChild(kind, top)));
            assert(shapes(stack@) =~= before.take(n - 1).push(
                Expr::OneChild(kind, Box::new(before[n - 1])),
            ));
            return Ok(());
        },
        None => {},
    }
    match constant_at(v, a, b) {
        Some(kind) => {
            stack.push(Box::new(Node::Constant { kind }));
            assert(shapes(stack@) =~= before.push(Expr::Constant { kind }));
            return Ok(());
        },
        None => {},
    }
    match literal_at(line, v, a, b) {
        Ok(node) => {
            stack.push(node);
            assert(shapes(stack@) =~= before.push(node.shape()));
            Ok(())
        },
        Err(e) => Err(e),
    }
}

/// Rolls a line in reverse Polish notation into the tree of its
/// expression.  What lies below the top of the stack at the end is
/// ignored.
pub fn roll_stack_expression(expr: &str) -> (r: Result<Box<Node>, RollExprError>)
    ensures
        outcome(r) == rolled(expr@),
{
    let v = chars_of(expr);
    let (lo, hi) = trim_bounds(&v, 0, v.len());
    assert(v@.subrange(0, v@.len() as int) == v@);
    let mut stack: Vec<Box<Node>> = Vec::new();
    assert(shapes(stack@) =~= Seq::<Expr>::empty());
    let mut pos = lo;
    loop
        invariant_except_break
            rolled(expr@) == roll_from(v@.subrange(pos as int, hi as int), shapes(stack@)),
        invariant
            v@ == expr@,
            lo <= pos <= hi <= v@.len(),
        ensures
            rolled(expr@) == (if stack@.len() == 0 {
                Err(Failure::EmptyStack)
            } else {
                Ok(stack@.last().shape())
            }),
        decreases hi - pos,
    {
        let ghost rest = v@.subrange(pos as int, hi as int);
        let end = find(&v, pos, hi, ' ');
        assert(rest.take(end - pos) == v@.subrange(pos as int, end as int));
        let (a, b) = trim_bounds(&v, pos, end);
        if a < b {
            match apply_at(expr, &v, a, b, &mut stack) {
                Ok(()) => {},
                Err(e) => {
                    return Err(e);
                },
            }
        }
        if end == hi {
            assert(stack@.len() > 0 ==> shapes(stack@).last() == stack@.last().shape());
            break ;
        }
        assert(rest.skip(end - pos + 1) == v@.subrange(end + 1, hi as int));
        pos = end + 1;
    }
    match stack.pop() {
        Some(top) => Ok(top),
        None => Err(RollExprError::EmptyStack),
    }
}

impl Expr {
    /// How many units compute the expression.
    pub open spec fn size(self) -> nat
        decreases self,
    {
        match self {
            Expr::OneChild(_, child) => 1 + child.size(),
            Expr::TwoChildren(_, first, second) => 1 + first.size() + second.size(),
            _ => 1,
        }
    }

    /// Whether there is a unit for every operator of the expression.
    pub open spec fn supported(self) -> bool
        decreases self,
    {
        match self {
            Expr::OneChild(kind, child) => (kind == OneChild::Sqrt || kind == OneChild::Exp || kind
                == OneChild::Log2) && child.supported(),
            Expr::TwoChildren(kind, first, second) => (kind == TwoChildren::Add || kind
                == TwoChildren::Sub || kind == TwoChildren::Mul || kind == TwoChildren::Div || kind
                == TwoChildren::Mod || kind == TwoChildren::Compare) && first.supported()
                && second.supported(),
            _ => true,
        }
    }
}

/// The matrix of an operator of arithmetic.
pub open spec fn operator_matrix(kind: TwoChildren) -> Bilinear {
    match kind {
        TwoChildren::Add => Bilinear { a: 0, b: 1, c: 1, d: 0, e: 0, f: 0, g: 0, h: 1 },
        TwoChildren::Sub => Bilinear { a: 0, b: 1, c: -1, d: 0, e: 0, f: 0, g: 0, h: 1 },
        TwoChildren::Mul => Bilinear { a: 1, b: 0, c: 0, d: 0, e: 0, f: 0, g: 0, h: 1 },
        _ => Bilinear { a: 0, b: 1, c: 0, d: 0, e: 0, f: 0, g: 1, h: 0 },
    }
}

/// Whether `unit` is the unit of the top of the expression `e`, before it
/// has read anything.
pub open spec fn unit_for(e: Expr, unit: UnitUnion) -> bool {
    match e {
        Expr::Constant { kind: Constant::E } => unit matches UnitUnion::FromCFrac(u) && u@ == (
        CFracState { m: Mobius::identity(), source: QuadrupleState::Euler(0) }),
        Expr::Constant { kind: Constant::Pi } => unit matches UnitUnion::FromCFrac(u) && u@ == (
        CFracState { m: Mobius { a: 0, b: 4, c: 1, d: 0 }, source: QuadrupleState::Pi(0) }),
        Expr::Constant { kind: Constant::Inf } => unit matches UnitUnion::CLogs(u) && u@
            == StreamState::Repeat(Term::Inf),
        Expr::CLog { items } => unit matches UnitUnion::CLogs(u) && u@ == StreamState::Replay(
            items,
        ),
        Expr::CFrac { terms } => unit matches UnitUnion::FromCFrac(u) && u@ == (CFracState {
            m: Mobius::identity(),
            source: QuadrupleState::Simple(terms),
        }),
        Expr::Decimal { word, pow: p } => unit matches UnitUnion::Lft(u) && u@ == (LftState {
            m: Mobius { a: word, b: word, c: pow(10, p as nat), d: pow(10, p as nat) },
            egest_enabled: true,
        }),
        Expr::OneChild(kind, _) => match kind {
            OneChild::Sqrt => unit matches UnitUnion::Sqrt(u) && u@ == Bilinear::root_start(),
            OneChild::Exp => unit matches UnitUnion::ExpTaylor(u) && u@ == ExpState::start(),
            _ => unit matches UnitUnion::Log2(u) && u@ == LogState::start(),
        },
        Expr::TwoChildren(kind, _, _) => match kind {
            TwoChildren::Mod => unit matches UnitUnion::Modulo(u) && u@ == ModuloState::start(),
            TwoChildren::Compare => unit matches UnitUnion::Compare(u) && u@
                == CompareState::start(),
            _ => unit matches UnitUnion::Arith(u) && u@ == (ArithState {
                m: operator_matrix(kind),
                singular: false,
            }),
        },
    }
}

/// Whether `units` holds the units of the expression `e` under the numbers
/// from `start` on: the operands of an operator before the operator, the
/// first before the second, every unit fed by the units of its operands.
pub open spec fn laid_out(units: Map<u32, UnitConcrete>, e: Expr, start: nat) -> bool
    decreases e,
{
    let id = (start + e.size() - 1) as u32;
    &&& start + e.size() - 1 <= u32::MAX
    &&& units.contains_key(id)
    &&& units[id].z == Term::Empty
    &&& unit_for(e, units[id].inner)
    &&& match e {
        Expr::OneChild(_, child) => {
            &&& laid_out(units, *child, start)
            &&& number_of(units[id].x) == Some((id - 1) as u32)
            &&& units[id].y is None
        },
        Expr::TwoChildren(_, first, second) => {
            &&& laid_out(units, *first, start)
            &&& laid_out(units, *second, start + first.size())
            &&& number_of(units[id].x) == Some((start + first.size() - 1) as u32)
            &&& number_of(units[id].y) == Some((id - 1) as u32)
        },
        _ => units[id].x is None && units[id].y is None,
    }
}

/// Units that are laid out stay so when units with other numbers change.
pub proof fn laid_out_stays(
    before: Map<u32, UnitConcrete>,
    after: Map<u32, UnitConcrete>,
    e: Expr,
    start: nat,
)
    requires
        laid_out(before, e, start),
        forall|k: u32|
            start <= k < start + e.size() && #[trigger] before.contains_key(k)
                ==> after.contains_key(k) && after[k] == before[k],
    ensures
        laid_out(after, e, start),
    decreases e,
{
    match e {
        Expr::OneChild(_, child) => {
            assert(e.size() == 1 + child.size());
            laid_out_stays(before, after, *child, start);
        },
        Expr::TwoChildren(_, first, second) => {
            assert(e.size() == 1 + first.size() + second.size());
            laid_out_stays(before, after, *first, start);
            laid_out_stays(before, after, *second, start + first.size());
        },
        _ => {},
    }
}

impl Node {
    /// Whether there is a unit for every operator of the expression.
    pub fn is_supported(&self) -> (r: bool)
        ensures
            r == self.shape().supported(),
        decreases self,
    {
        match self {
            Node::OneChild(kind, child) => {
                let known = match kind {
                    OneChild::Sqrt | OneChild::Exp | OneChild::Log2 => true,
                    _ => false,
                };
                known && child.is_supported()
            },
            Node::TwoChildren(kind, first, second) => {
                let known = match kind {
                    TwoChildren::Add
                    | TwoChildren::Sub
                    | TwoChildren::Mul
                    | TwoChildren::Div
                    | TwoChildren::Mod
                    | TwoChildren::Compare => true,
                    _ => false,
                };
                known && first.is_supported() && second.is_supported()
            },
            _ => true,
        }
    }

    /// What is left of a number of handles after every unit of the
    /// expression got one; `None` if they do not suffice.
    pub fn fits(&self, handles: u32) -> (r: Option<u32>)
        ensures
            match r {
                Some(left) => left + self.shape().size() == handles,
                None => self.shape().size() > handles,
            },
        decreases self,
    {
        if handles == 0 {
            return None;
        }
        match self {
            Node::OneChild(_, child) => child.fits(handles - 1),
            Node::TwoChildren(_, first, second) => match first.fits(handles - 1) {
                Some(left) => second.fits(left),
                None => None,
            },
            _ => Some(handles - 1),
        }
    }
}

/// Adds the units of an expression to a workgroup and returns the handle
/// of the unit that egests its value.
fn place(node: Box<Node>, wg: &mut Workgroup) -> (id: UnitId)
    requires
        old(wg).wf(),
        node.shape().supported(),
        old(wg).next_id() + node.shape().size() <= u32::MAX,
    ensures
        final(wg).wf(),
        final(wg).phase() == old(wg).phase(),
        final(wg).next_id() == old(wg).next_id() + node.shape().size(),
        id@ == final(wg).next_id() - 1,
        forall|k: u32|
            #[trigger] old(wg)@.contains_key(k) ==> final(wg)@.contains_key(k) && final(wg)@[k]
                == old(wg)@[k],
        laid_out(final(wg)@, node.shape(), old(wg).next_id() as nat),
    decreases node,
{
    let ghost shape = node.shape();
    let ghost start = wg.next_id() as nat;
    match *node {
        Node::Constant { kind } => {
            match kind {
                Constant::E => wg.add_from_cfrac(e()),
                Constant::Pi => wg.add_from_cfrac(pi()),
                Constant::Inf => wg.add_clogs(CLogs::repeat(Term::Inf)),
            }
        },
        Node::CLog { items } => wg.add_clogs(CLogs::replay(items)),
        Node::CFrac { terms } => wg.add_from_cfrac(FromCFrac::simple(terms)),
        Node::Decimal { word, pow } => {
            let den = big_pow(&big_from(10), pow as u32);
            wg.add_lft(
                Lft { mat: [big_clone(&word), word, big_clone(&den), den], egest_enabled: true },
                None,
            )
        },
        Node::OneChild(kind, child) => {
            let ghost inner = child.shape();
            assert(shape.size() == 1 + inner.size());
            let c = place(child, wg);
            let ghost placed = wg@;
            let id = match kind {
                OneChild::Sqrt => wg.add_sqrt(Sqrt::create(), c),
                OneChild::Exp => wg.add_exp_taylor(ExpTaylor::create(), c),
                OneChild::Log2 => wg.add_log2(Log2::create(), c),
                _ => unreached(),
            };
            proof {
                laid_out_stays(placed, wg@, inner, start);
            }
            id
        },
        Node::TwoChildren(kind, first, second) => {
            let ghost left = first.shape();
            let ghost right = second.shape();
            assert(shape.size() == 1 + left.size() + right.size());
            let x = place(first, wg);
            let ghost placed_x = wg@;
            let y = place(second, wg);
            let ghost placed_y = wg@;
            proof {
                laid_out_stays(placed_x, placed_y, left, start);
            }
            let id = match kind {
                TwoChildren::Add => wg.add_arith(
                    Arith::create(matrix_of([0, 1, 1, 0, 0, 0, 0, 1])),
                    x,
                    y,
                ),
                TwoChildren::Sub => wg.add_arith(
                    Arith::create(matrix_of([0, 1, -1, 0, 0, 0, 0, 1])),
                    x,
                    y,
                ),
                TwoChildren::Mul => wg.add_arith(
                    Arith::create(matrix_of([1, 0, 0, 0, 0, 0, 0, 1])),
                    x,
                    y,
                ),
                TwoChildren::Div => wg.add_arith(
                    Arith::create(matrix_of([0, 1, 0, 0, 0, 0, 1, 0])),
                    x,
                    y,
                ),
                TwoChildren::Mod => wg.add_modulo(Modulo::create(), x, y),
                TwoChildren::Compare => wg.add_compare(Compare::create(), x, y),
                _ => unreached(),
            };
            proof {
                laid_out_stays(placed_y, wg@, left, start);
                laid_out_stays(placed_y, wg@, right, start + left.size());
            }
            id
        },
    }
}

/// Builds the workgroup that computes an expression.  Returns the
/// workgroup, the handle of the unit that egests the value, and the handle
/// of a sampler that reads that unit: its endpoints bound the value that
/// has been egested so far.
pub fn stack_into_workgroup(node: Box<Node>) -> (r: (Workgroup, UnitId, UnitId))
    requires
        node.shape().supported(),
        node.shape().size() < u32::MAX,
    ensures
        r.0.wf(),
        r.0.phase() == WorkgroupPhase::EgestZ,
        r.0.next_id() == node.shape().size() + 1,
        laid_out(r.0@, node.shape(), 0),
        r.1@ == node.shape().size() - 1,
        r.2@ == node.shape().size(),
        r.0@.contains_key(r.2@),
        r.0@[r.2@].x == Some(r.1),
        r.0@[r.2@].y is None,
        r.0@[r.2@].inner matches UnitUnion::Lft(u) && u@ == (LftState {
            m: Mobius::identity(),
            egest_enabled: false,
        }),
{
    let ghost shape = node.shape();
    let mut wg = Workgroup::create();
    let output = place(node, &mut wg);
    let ghost placed = wg@;
    let mut sampler = Lft::identity();
    sampler.egest_enabled = false;
    let to_rat = wg.add_lft(sampler, Some(output));
    proof {
        laid_out_stays(placed, wg@, shape, 0);
    }
    (wg, output, to_rat)
}

} // verus!
