//! The expression tree: literal values, binary operations, and how a tree is
//! evaluated and written out.
use vstd::prelude::*;
use vstd::string::*;
use crate::text::same_text;
use crate::number::{NAN, equal, less, less_or_equal, number_less, number_less_or_equal, numbers_equal};

verus! {

/// What an expression evaluates to: a number, held as its IEEE 754 binary64
/// bit pattern, or a truth value.
#[derive(Clone, Copy, Debug)]
pub enum EvaluableResult {
    F64(u64),
    Bool(bool),
}

impl PartialEq for EvaluableResult {
    /// Numbers are compared as numbers, so a NaN differs from itself and the
    /// two zeros are equal; a number never equals a truth value.
    fn eq(&self, other: &EvaluableResult) -> (r: bool) {
        match (*self, *other) {
            (EvaluableResult::F64(a), EvaluableResult::F64(b)) => numbers_equal(a, b),
            (EvaluableResult::Bool(a), EvaluableResult::Bool(b)) => a == b,
            _ => false,
        }
    }
}

impl vstd::std_specs::cmp::PartialEqSpecImpl for EvaluableResult {
    open spec fn obeys_eq_spec() -> bool {
        true
    }

    open spec fn eq_spec(&self, other: &EvaluableResult) -> bool {
        match (*self, *other) {
            (EvaluableResult::F64(a), EvaluableResult::F64(b)) => equal(a, b),
            (EvaluableResult::Bool(a), EvaluableResult::Bool(b)) => a == b,
            _ => false,
        }
    }
}

/// Why a text is not an expression.
#[derive(Debug)]
pub enum EvaluationParseError {
    /// An operand that is neither a number nor `true` or `false`; it holds
    /// the operand's text.
    UnsupportedValue(String),
    /// A sequence of tokens that no expression can be built from; it holds
    /// the whole text.
    InvalidExpression(String),
}

/// The mathematical value of an [`EvaluationParseError`].
pub enum ParseErrorView {
    UnsupportedValue(Seq<char>),
    InvalidExpression(Seq<char>),
}

impl View for EvaluationParseError {
    type V = ParseErrorView;

    open spec fn view(&self) -> ParseErrorView {
        match *self {
            EvaluationParseError::UnsupportedValue(text) => ParseErrorView::UnsupportedValue(text@),
            EvaluationParseError::InvalidExpression(text) => ParseErrorView::InvalidExpression(
                text@,
            ),
        }
    }
}

impl Clone for EvaluationParseError {
    fn clone(&self) -> (r: EvaluationParseError)
        ensures
            r@ == self@,
    {
        match self {
            EvaluationParseError::UnsupportedValue(text) => EvaluationParseError::UnsupportedValue(
                text.clone(),
            ),
            EvaluationParseError::InvalidExpression(text) => {
                EvaluationParseError::InvalidExpression(text.clone())
            },
        }
    }
}

impl PartialEq for EvaluationParseError {
    fn eq(&self, other: &EvaluationParseError) -> (r: bool) {
        match (self, other) {
            (
                EvaluationParseError::UnsupportedValue(a),
                EvaluationParseError::UnsupportedValue(b),
            ) => *a == *b,
            (
                EvaluationParseError::InvalidExpression(a),
                EvaluationParseError::InvalidExpression(b),
            ) => *a == *b,
            _ => false,
        }
    }
}

impl vstd::std_specs::cmp::PartialEqSpecImpl for EvaluationParseError {
    open spec fn obeys_eq_spec() -> bool {
        true
    }

    open spec fn eq_spec(&self, other: &EvaluationParseError) -> bool {
        self@ == other@
    }
}

/// The mathematical value of the outcome of parsing.
pub open spec fn outcome<T: View>(r: Result<T, EvaluationParseError>) -> Result<
    T::V,
    ParseErrorView,
> {
    match r {
        Ok(x) => Ok(x@),
        Err(e) => Err(e@),
    }
}

/// The operators that take two numbers and give a number.
#[derive(Clone, Copy, Debug, PartialEq, Eq, Structural)]
pub enum ArithmeticOp {
    Add,
    Subtract,
    Multiply,
    Divide,
    Remainder,
    Power,
}

/// The operators that take two numbers and give a truth value.
#[derive(Clone, Copy, Debug, PartialEq, Eq, Structural)]
pub enum RelationalOp {
    Less,
    LessOrEqual,
    Greater,
    GreaterOrEqual,
}

/// The operators that take two truth values and give a truth value.
#[derive(Clone, Copy, Debug, PartialEq, Eq, Structural)]
pub enum LogicalOp {
    And,
    Or,
}

/// Which operation a binary node performs, and with it the type of operand
/// that it reads and the type of result that it gives.
#[derive(Clone, Copy, Debug, PartialEq, Eq, Structural)]
pub enum OperatorKind {
    Arithmetic(ArithmeticOp),
    Relational(RelationalOp),
    Logical(LogicalOp),
}

/// The number that an operand is read as: its own value, or NaN where it is a
/// truth value.
pub open spec fn as_number(v: EvaluableResult) -> u64 {
    match v {
        EvaluableResult::F64(bits) => bits,
        EvaluableResult::Bool(_) => NAN,
    }
}

/// The truth value that an operand is read as: its own value, or `false`
/// where it is a number.
pub open spec fn as_truth(v: EvaluableResult) -> bool {
    match v {
        EvaluableResult::Bool(b) => b,
        EvaluableResult::F64(_) => false,
    }
}

/// Whether the relation holds between two numbers.
pub open spec fn relate(op: RelationalOp, a: u64, b: u64) -> bool {
    match op {
        RelationalOp::Less => less(a, b),
        RelationalOp::LessOrEqual => less_or_equal(a, b),
        RelationalOp::Greater => less(b, a),
        RelationalOp::GreaterOrEqual => less_or_equal(b, a),
    }
}

/// The truth value of a logical operation.
pub open spec fn connect(op: LogicalOp, a: bool, b: bool) -> bool {
    match op {
        LogicalOp::And => a && b,
        LogicalOp::Or => a || b,
    }
}

/// The mathematical value of an expression tree.
pub enum Tree {
    Literal(EvaluableResult),
    Operation { left: Box<Tree>, right: Box<Tree>, kind: OperatorKind, symbol: Seq<char> },
}

/// Arithmetic as the library sees it: a relation that holds between an
/// operator, two operands and each result that the operation may give.
pub type Arithmetic = spec_fn(ArithmeticOp, u64, u64, u64) -> bool;

/// The arithmetic that a unit does: the requests that it answers, each with
/// the answers that it may give.
pub open spec fn arithmetic_of<U: Fn(ArithmeticOp, u64, u64) -> u64>(unit: U) -> Arithmetic {
    |op: ArithmeticOp, a: u64, b: u64, r: u64| unit.ensures((op, a, b), r)
}

/// Whether `r` is a result that the arithmetic gives for `op` on `a` and `b`.
pub open spec fn gives(arithmetic: Arithmetic, op: ArithmeticOp, a: u64, b: u64, r: u64) -> bool {
    arithmetic(op, a, b, r)
}

/// Whether `v` is a value of the operation `kind` on the operand values `l`
/// and `r`. Arithmetic is what `arithmetic` gives for the two operands read
/// as numbers; relations and logic are decided here.
pub open spec fn combines(
    kind: OperatorKind,
    arithmetic: Arithmetic,
    l: EvaluableResult,
    r: EvaluableResult,
    v: EvaluableResult,
) -> bool {
    match kind {
        OperatorKind::Arithmetic(op) => v matches EvaluableResult::F64(bits) && gives(
            arithmetic,
            op,
            as_number(l),
            as_number(r),
            bits,
        ),
        OperatorKind::Relational(op) => v == EvaluableResult::Bool(
            relate(op, as_number(l), as_number(r)),
        ),
        OperatorKind::Logical(op) => v == EvaluableResult::Bool(
            connect(op, as_truth(l), as_truth(r)),
        ),
    }
}

/// Whether `v` is a value of the tree under `arithmetic`: a literal has its
/// own value, and an operation has a value of its kind on a value of its left
/// operand and a value of its right operand.
pub open spec fn evaluates_to(tree: Tree, arithmetic: Arithmetic, v: EvaluableResult) -> bool
    decreases tree,
{
    match tree {
        Tree::Literal(x) => v == x,
        Tree::Operation { left, right, kind, symbol } => exists|
            l: EvaluableResult,
            r: EvaluableResult,
        |
            evaluates_to(*left, arithmetic, l) && evaluates_to(*right, arithmetic, r) && combines(
                kind,
                arithmetic,
                l,
                r,
                v,
            ),
    }
}

/// Whether the tree evaluates to a number rather than a truth value: it is a
/// literal number, or its outermost operation is arithmetic.
pub open spec fn yields_number(tree: Tree) -> bool {
    match tree {
        Tree::Literal(v) => v is F64,
        Tree::Operation { kind, .. } => kind is Arithmetic,
    }
}

/// A literal operand.
#[derive(Clone, Copy, Debug)]
pub struct Value {
    val: EvaluableResult,
}

/// A binary operation on two subtrees, with the symbol it was written with.
#[derive(Debug)]
pub struct BasicEvaluable {
    left: Box<Node>,
    right: Box<Node>,
    func: OperatorKind,
    op: String,
}

/// A node of an expression tree.
#[derive(Debug)]
pub enum Node {
    Literal(Value),
    Operation(BasicEvaluable),
}

impl View for Value {
    type V = Tree;

    closed spec fn view(&self) -> Tree {
        Tree::Literal(self.val)
    }
}

impl View for BasicEvaluable {
    type V = Tree;

    closed spec fn view(&self) -> Tree
        decreases self,
    {
        Tree::Operation {
            left: Box::new((*self.left)@),
            right: Box::new((*self.right)@),
            kind: self.func,
            symbol: self.op@,
        }
    }
}

impl View for Node {
    type V = Tree;

    open spec fn view(&self) -> Tree
        decreases self,
    {
        match *self {
            Node::Literal(value) => value@,
            Node::Operation(operation) => operation@,
        }
    }
}

/// Whether the arithmetic unit accepts every request.
pub open spec fn always_answers<U: Fn(ArithmeticOp, u64, u64) -> u64>(unit: U) -> bool {
    forall|op: ArithmeticOp, a: u64, b: u64| unit.requires((op, a, b))
}

/// Whether the writer of numbers accepts every bit pattern.
pub open spec fn always_writes<R: Fn(u64) -> String>(render: R) -> bool {
    forall|bits: u64| render.requires((bits,))
}

/// How an operation is written: both operands between brackets, with the
/// symbol between them and a space on either side of it.
pub open spec fn bracketed(l: Seq<char>, symbol: Seq<char>, r: Seq<char>) -> Seq<char> {
    "("@ + l + " "@ + symbol + " "@ + r + ")"@
}

/// How a truth value is written.
pub open spec fn truth_text(b: bool) -> Seq<char> {
    if b {
        "true"@
    } else {
        "false"@
    }
}

/// The writing of numbers as the library sees it: a relation that holds
/// between a bit pattern and each text that may be written for it.
pub type Writing = spec_fn(u64, Seq<char>) -> bool;

/// The writing that a writer of numbers does.
pub open spec fn writing_of<R: Fn(u64) -> String>(render: R) -> Writing {
    |bits: u64, s: Seq<char>| exists|out: String| render.ensures((bits,), out) && out@ == s
}

/// Whether `s` is a way of writing the tree under `writing`: a number is
/// written as `writing` has it, a truth value as `true` or `false`, and an
/// operation in brackets around its two operands.
pub open spec fn renders_as(tree: Tree, writing: Writing, s: Seq<char>) -> bool
    decreases tree,
{
    match tree {
        Tree::Literal(EvaluableResult::F64(bits)) => writing(bits, s),
        Tree::Literal(EvaluableResult::Bool(b)) => s == truth_text(b),
        Tree::Operation { left, right, kind, symbol } => exists|l: Seq<char>, r: Seq<char>|
            renders_as(*left, writing, l) && renders_as(*right, writing, r) && s == bracketed(
                l,
                symbol,
                r,
            ),
    }
}

/// Whether the reader of numbers accepts every text.
pub open spec fn always_reads<P: Fn(&str) -> Option<u64>>(parse: P) -> bool {
    forall|t: &str| parse.requires((t,))
}

/// Whether `number` is an answer of the reader of numbers to `text`: the bit
/// pattern of the number that the text reads as, or `None` where it does not
/// read as a number.
pub open spec fn answers<P: Fn(&str) -> Option<u64>>(
    parse: P,
    text: Seq<char>,
    number: Option<u64>,
) -> bool {
    exists|t: &str| t@ == text && parse.ensures((t,), number)
}

/// The literal that an operand stands for, given what its text reads as: the
/// number where it reads as one, else the truth value where the text is
/// exactly `true` or `false`, and else no literal at all.
pub open spec fn literal_of(text: Seq<char>, number: Option<u64>) -> Result<Tree, ParseErrorView> {
    match number {
        Some(bits) => Ok(Tree::Literal(EvaluableResult::F64(bits))),
        None => if text == "true"@ {
            Ok(Tree::Literal(EvaluableResult::Bool(true)))
        } else if text == "false"@ {
            Ok(Tree::Literal(EvaluableResult::Bool(false)))
        } else {
            Err(ParseErrorView::UnsupportedValue(text))
        },
    }
}

/// Reads an operand as a number.
pub fn number_of(v: EvaluableResult) -> (r: u64)
    ensures
        r == as_number(v),
{
    match v {
        EvaluableResult::F64(bits) => bits,
        EvaluableResult::Bool(_) => NAN,
    }
}

/// Reads an operand as a truth value.
pub fn truth_of(v: EvaluableResult) -> (r: bool)
    ensures
        r == as_truth(v),
{
    match v {
        EvaluableResult::Bool(b) => b,
        EvaluableResult::F64(_) => false,
    }
}

/// Performs one operation on two operand values. Each operand is first read
/// as the type that the operation takes; only arithmetic goes to `unit`.
pub fn apply<U: Fn(ArithmeticOp, u64, u64) -> u64>(
    kind: OperatorKind,
    unit: &U,
    l: EvaluableResult,
    r: EvaluableResult,
) -> (v: EvaluableResult)
    requires
        always_answers(*unit),
    ensures
        combines(kind, arithmetic_of(*unit), l, r, v),
{
    match kind {
        OperatorKind::Arithmetic(op) => EvaluableResult::F64(unit(op, number_of(l), number_of(r))),
        OperatorKind::Relational(op) => {
            let a = number_of(l);
            let b = number_of(r);
            EvaluableResult::Bool(
                match op {
                    RelationalOp::Less => number_less(a, b),
                    RelationalOp::LessOrEqual => number_less_or_equal(a, b),
                    RelationalOp::Greater => number_less(b, a),
                    RelationalOp::GreaterOrEqual => number_less_or_equal(b, a),
                },
            )
        },
        OperatorKind::Logical(op) => {
            let a = truth_of(l);
            let b = truth_of(r);
            EvaluableResult::Bool(
                match op {
                    LogicalOp::And => a && b,
                    LogicalOp::Or => a || b,
                },
            )
        },
    }
}

/// What can be evaluated and written out.
pub trait Evaluable {
    /// The tree that `self` stands for.
    spec fn tree(&self) -> Tree;

    /// Evaluates `self`, with `unit` doing the arithmetic. Every operation
    /// of the tree is performed, whatever the values are.
    fn eval<U: Fn(ArithmeticOp, u64, u64) -> u64>(&self, unit: &U) -> (v: EvaluableResult)
        requires
            always_answers(*unit),
        ensures
            evaluates_to(self.tree(), arithmetic_of(*unit), v),
            v is F64 <==> yields_number(self.tree()),
    ;

    /// Writes `self` with every operation in brackets, with `render` writing
    /// the numbers.
    fn to_string<R: Fn(u64) -> String>(&self, render: &R) -> (s: String)
        requires
            always_writes(*render),
        ensures
            renders_as(self.tree(), writing_of(*render), s@),
    ;
}

impl Value {
    /// The literal with the value `val`.
    pub fn new(val: EvaluableResult) -> (r: Value)
        ensures
            r@ == Tree::Literal(val),
    {
        Value { val }
    }

    /// The literal that the operand `s` stands for, where `number` is what
    /// `s` reads as.
    pub fn from_reading(s: &str, number: Option<u64>) -> (r: Result<Value, EvaluationParseError>)
        ensures
            outcome(r) == literal_of(s@, number),
    {
        match number {
            Some(bits) => Ok(Value { val: EvaluableResult::F64(bits) }),
            None => if same_text(s, "true") {
                Ok(Value { val: EvaluableResult::Bool(true) })
            } else if same_text(s, "false") {
                Ok(Value { val: EvaluableResult::Bool(false) })
            } else {
                Err(EvaluationParseError::UnsupportedValue(String::from_str(s)))
            },
        }
    }

    /// The literal that the operand `s` stands for, with `parse` reading the
    /// numbers.
    pub fn from_str<P: Fn(&str) -> Option<u64>>(s: &str, parse: &P) -> (r: Result<
        Value,
        EvaluationParseError,
    >)
        requires
            always_reads(*parse),
        ensures
            exists|number: Option<u64>|
                answers(*parse, s@, number) && outcome(r) == literal_of(s@, number),
    {
        let number = parse(s);
        assert(answers(*parse, s@, number));
        Value::from_reading(s, number)
    }

    /// The value that the literal holds.
    pub fn value(&self) -> (v: EvaluableResult)
        ensures
            self@ == Tree::Literal(v),
    {
        self.val
    }

    fn write<R: Fn(u64) -> String>(&self, render: &R) -> (s: String)
        requires
            always_writes(*render),
        ensures
            renders_as(self@, writing_of(*render), s@),
    {
        match self.val {
            EvaluableResult::F64(bits) => render(bits),
            EvaluableResult::Bool(b) => if b {
                String::from_str("true")
            } else {
                String::from_str("false")
            },
        }
    }
}

impl BasicEvaluable {
    /// The operation `func`, written `op`, on the operands `left` and `right`.
    pub fn new(left: Box<Node>, right: Box<Node>, func: OperatorKind, op: String) -> (r:
        BasicEvaluable)
        ensures
            r@ == (Tree::Operation {
                left: Box::new((*left)@),
                right: Box::new((*right)@),
                kind: func,
                symbol: op@,
            }),
    {
        BasicEvaluable { left, right, func, op }
    }

    fn evaluate<U: Fn(ArithmeticOp, u64, u64) -> u64>(&self, unit: &U) -> (v: EvaluableResult)
        requires
            always_answers(*unit),
        ensures
            evaluates_to(self@, arithmetic_of(*unit), v),
        decreases self,
    {
        let l = self.left.evaluate(unit);
        let r = self.right.evaluate(unit);
        apply(self.func, unit, l, r)
    }

    fn write<R: Fn(u64) -> String>(&self, render: &R) -> (s: String)
        requires
            always_writes(*render),
        ensures
            renders_as(self@, writing_of(*render), s@),
        decreases self,
    {
        let l = self.left.write(render);
        let r = self.right.write(render);
        let mut s = String::from_str("(");
        s.append(l.as_str());
        s.append(" ");
        s.append(self.op.as_str());
        s.append(" ");
        s.append(r.as_str());
        s.append(")");
        proof {
            assert(s@ =~= bracketed(l@, self.op@, r@));
            assert(self@ matches Tree::Operation { left, right, symbol, .. } && *left
                == (*self.left)@ && *right == (*self.right)@ && symbol == self.op@);
        }
        s
    }
}

impl Node {
    fn evaluate<U: Fn(ArithmeticOp, u64, u64) -> u64>(&self, unit: &U) -> (v: EvaluableResult)
        requires
            always_answers(*unit),
        ensures
            evaluates_to(self@, arithmetic_of(*unit), v),
        decreases self,
    {
        match self {
            Node::Literal(value) => value.value(),
            Node::Operation(operation) => operation.evaluate(unit),
        }
    }

    fn write<R: Fn(u64) -> String>(&self, render: &R) -> (s: String)
        requires
            always_writes(*render),
        ensures
            renders_as(self@, writing_of(*render), s@),
        decreases self,
    {
        match self {
            Node::Literal(value) => value.write(render),
            Node::Operation(operation) => operation.write(render),
        }
    }
}

impl Evaluable for Value {
    open spec fn tree(&self) -> Tree {
        self@
    }

    fn eval<U: Fn(ArithmeticOp, u64, u64) -> u64>(&self, unit: &U) -> (v: EvaluableResult) {
        self.value()
    }

    fn to_string<R: Fn(u64) -> String>(&self, render: &R) -> (s: String) {
        self.write(render)
    }
}

impl Evaluable for BasicEvaluable {
    open spec fn tree(&self) -> Tree {
        self@
    }

    fn eval<U: Fn(ArithmeticOp, u64, u64) -> u64>(&self, unit: &U) -> (v: EvaluableResult) {
        self.evaluate(unit)
    }

    fn to_string<R: Fn(u64) -> String>(&self, render: &R) -> (s: String) {
        self.write(render)
    }
}

impl Evaluable for Node {
    open spec fn tree(&self) -> Tree {
        self@
    }

    fn eval<U: Fn(ArithmeticOp, u64, u64) -> u64>(&self, unit: &U) -> (v: EvaluableResult) {
        self.evaluate(unit)
    }

    fn to_string<R: Fn(u64) -> String>(&self, render: &R) -> (s: String) {
        self.write(render)
    }
}

/// Whether the tree is made of numbers and arithmetic alone.
pub open spec fn is_arithmetic(tree: Tree) -> bool
    decreases tree,
{
    match tree {
        Tree::Literal(v) => v is F64,
        Tree::Operation { left, right, kind, .. } => kind is Arithmetic && is_arithmetic(*left)
            && is_arithmetic(*right),
    }
}

/// Whether `part` is `whole` itself or lies somewhere below it.
pub open spec fn is_part_of(part: Tree, whole: Tree) -> bool
    decreases whole,
{
    part == whole || match whole {
        Tree::Literal(_) => false,
        Tree::Operation { left, right, .. } => is_part_of(part, *left) || is_part_of(part, *right),
    }
}

/// Whether the arithmetic gives each operation on two operands one result
/// at most.
pub open spec fn is_function(arithmetic: Arithmetic) -> bool {
    forall|op: ArithmeticOp, a: u64, b: u64, x: u64, y: u64|
        #[trigger] gives(arithmetic, op, a, b, x) && #[trigger] gives(arithmetic, op, a, b, y)
            ==> x == y
}

/// The type of a value is decided by the outermost node alone: a tree has a
/// number for its value exactly when it is a literal number or an arithmetic
/// operation.
pub proof fn lemma_type_of_value(tree: Tree, arithmetic: Arithmetic, v: EvaluableResult)
    requires
        evaluates_to(tree, arithmetic, v),
    ensures
        v is F64 <==> yields_number(tree),
{
}

/// An expression of numbers and arithmetic, with no relation and no logical
/// operator in it, evaluates to a number.
pub proof fn lemma_arithmetic_yields_number(tree: Tree, arithmetic: Arithmetic, v: EvaluableResult)
    requires
        is_arithmetic(tree),
        evaluates_to(tree, arithmetic, v),
    ensures
        v is F64,
{
}

/// Nothing is skipped: where a tree has a value, every part of it has one,
/// so the right operand of `&&` and `||` is evaluated whatever the left one
/// gave.
pub proof fn lemma_every_part_is_evaluated(
    whole: Tree,
    part: Tree,
    arithmetic: Arithmetic,
    v: EvaluableResult,
)
    requires
        evaluates_to(whole, arithmetic, v),
        is_part_of(part, whole),
    ensures
        exists|w: EvaluableResult| evaluates_to(part, arithmetic, w),
    decreases whole,
{
    if part != whole {
        match whole {
            Tree::Literal(_) => {},
            Tree::Operation { left, right, kind, symbol } => {
                let (l, r) = choose|l: EvaluableResult, r: EvaluableResult|
                    evaluates_to(*left, arithmetic, l) && evaluates_to(*right, arithmetic, r)
                        && combines(kind, arithmetic, l, r, v);
                if is_part_of(part, *left) {
                    lemma_every_part_is_evaluated(*left, part, arithmetic, l);
                } else {
                    lemma_every_part_is_evaluated(*right, part, arithmetic, r);
                }
            },
        }
    }
}

/// Evaluating again gives the same value: under an arithmetic that gives
/// each operation one result at most, a tree has at most one value.
pub proof fn lemma_value_is_unique(
    tree: Tree,
    arithmetic: Arithmetic,
    v: EvaluableResult,
    w: EvaluableResult,
)
    requires
        is_function(arithmetic),
        evaluates_to(tree, arithmetic, v),
        evaluates_to(tree, arithmetic, w),
    ensures
        v == w,
    decreases tree,
{
    match tree {
        Tree::Literal(_) => {},
        Tree::Operation { left, right, kind, symbol } => {
            let (l1, r1) = choose|l: EvaluableResult, r: EvaluableResult|
                evaluates_to(*left, arithmetic, l) && evaluates_to(*right, arithmetic, r)
                    && combines(kind, arithmetic, l, r, v);
            let (l2, r2) = choose|l: EvaluableResult, r: EvaluableResult|
                evaluates_to(*left, arithmetic, l) && evaluates_to(*right, arithmetic, r)
                    && combines(kind, arithmetic, l, r, w);
            lemma_value_is_unique(*left, arithmetic, l1, l2);
            lemma_value_is_unique(*right, arithmetic, r1, r2);
        },
    }
}

} // verus!
