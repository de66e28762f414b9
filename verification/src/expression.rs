//! Expressions: how one is built from a text, evaluated and written out.
use vstd::prelude::*;
use vstd::string::*;
use crate::text::same_text;
use crate::parser::{Token, TokenType, TokenView, postfix, scan, str_to_tokens, to_rpn};
use crate::evaluable::{
    ArithmeticOp, BasicEvaluable, Evaluable, EvaluableResult, EvaluationParseError, LogicalOp, Node,
    OperatorKind, ParseErrorView, RelationalOp, Tree, Value, always_reads, answers, literal_of,
    outcome,
};

verus! {

/// The operation that an operator symbol stands for, if it stands for one.
pub open spec fn symbol_kind(op: Seq<char>) -> Option<OperatorKind> {
    if op == "+"@ {
        Some(OperatorKind::Arithmetic(ArithmeticOp::Add))
    } else if op == "-"@ {
        Some(OperatorKind::Arithmetic(ArithmeticOp::Subtract))
    } else if op == "*"@ {
        Some(OperatorKind::Arithmetic(ArithmeticOp::Multiply))
    } else if op == "/"@ {
        Some(OperatorKind::Arithmetic(ArithmeticOp::Divide))
    } else if op == "%"@ {
        Some(OperatorKind::Arithmetic(ArithmeticOp::Remainder))
    } else if op == "^"@ {
        Some(OperatorKind::Arithmetic(ArithmeticOp::Power))
    } else if op == "<"@ {
        Some(OperatorKind::Relational(RelationalOp::Less))
    } else if op == "<="@ {
        Some(OperatorKind::Relational(RelationalOp::LessOrEqual))
    } else if op == ">"@ {
        Some(OperatorKind::Relational(RelationalOp::Greater))
    } else if op == ">="@ {
        Some(OperatorKind::Relational(RelationalOp::GreaterOrEqual))
    } else if op == "&&"@ {
        Some(OperatorKind::Logical(LogicalOp::And))
    } else if op == "||"@ {
        Some(OperatorKind::Logical(LogicalOp::Or))
    } else {
        None
    }
}

/// Looks up the operation that an operator symbol stands for.
pub fn operator_kind(op: &str) -> (r: Option<OperatorKind>)
    ensures
        r == symbol_kind(op@),
{
    if same_text(op, "+") {
        Some(OperatorKind::Arithmetic(ArithmeticOp::Add))
    } else if same_text(op, "-") {
        Some(OperatorKind::Arithmetic(ArithmeticOp::Subtract))
    } else if same_text(op, "*") {
        Some(OperatorKind::Arithmetic(ArithmeticOp::Multiply))
    } else if same_text(op, "/") {
        Some(OperatorKind::Arithmetic(ArithmeticOp::Divide))
    } else if same_text(op, "%") {
        Some(OperatorKind::Arithmetic(ArithmeticOp::Remainder))
    } else if same_text(op, "^") {
        Some(OperatorKind::Arithmetic(ArithmeticOp::Power))
    } else if same_text(op, "<") {
        Some(OperatorKind::Relational(RelationalOp::Less))
    } else if same_text(op, "<=") {
        Some(OperatorKind::Relational(RelationalOp::LessOrEqual))
    } else if same_text(op, ">") {
        Some(OperatorKind::Relational(RelationalOp::Greater))
    } else if same_text(op, ">=") {
        Some(OperatorKind::Relational(RelationalOp::GreaterOrEqual))
    } else if same_text(op, "&&") {
        Some(OperatorKind::Logical(LogicalOp::And))
    } else if same_text(op, "||") {
        Some(OperatorKind::Logical(LogicalOp::Or))
    } else {
        None
    }
}

/// A token of the postfix sequence together with what its text reads as: the
/// bit pattern of a number, or `None`.
pub type Reading = (TokenView, Option<u64>);

/// The operand stack after one more token. An operand is pushed as the
/// literal it stands for. An operator takes the two topmost trees, the upper
/// one as its right operand, and pushes the operation on them; it fails where
/// fewer than two trees are there or its symbol stands for no operation. Any
/// other token fails.
pub open spec fn push_token(stack: Seq<Tree>, reading: Reading, source: Seq<char>) -> Result<
    Seq<Tree>,
    ParseErrorView,
> {
    let (token, number) = reading;
    match token.t {
        TokenType::Operand => match literal_of(token.v, number) {
            Ok(literal) => Ok(stack.push(literal)),
            Err(e) => Err(e),
        },
        TokenType::Operator => match symbol_kind(token.v) {
            Some(kind) if stack.len() >= 2 => Ok(
                stack.take(stack.len() - 2).push(
                    Tree::Operation {
                        left: Box::new(stack[stack.len() - 2]),
                        right: Box::new(stack[stack.len() - 1]),
                        kind,
                        symbol: token.v,
                    },
                ),
            ),
            _ => Err(ParseErrorView::InvalidExpression(source)),
        },
        _ => Err(ParseErrorView::InvalidExpression(source)),
    }
}

/// The operand stack after a whole postfix sequence, or the first failure on
/// the way.
pub open spec fn assemble(readings: Seq<Reading>, source: Seq<char>) -> Result<
    Seq<Tree>,
    ParseErrorView,
>
    decreases readings.len(),
{
    if readings.len() == 0 {
        Ok(Seq::empty())
    } else {
        match assemble(readings.drop_last(), source) {
            Ok(stack) => push_token(stack, readings.last(), source),
            Err(e) => Err(e),
        }
    }
}

/// The tree that a postfix sequence builds: the top of the operand stack at
/// the end, whatever lies below it. An empty stack is a failure.
pub open spec fn built(readings: Seq<Reading>, source: Seq<char>) -> Result<Tree, ParseErrorView> {
    match assemble(readings, source) {
        Ok(stack) => if stack.len() > 0 {
            Ok(stack.last())
        } else {
            Err(ParseErrorView::InvalidExpression(source))
        },
        Err(e) => Err(e),
    }
}

/// A failure on a part of the sequence is the failure of the whole sequence.
proof fn lemma_failure_stays(readings: Seq<Reading>, n: int, source: Seq<char>)
    requires
        0 <= n <= readings.len(),
        assemble(readings.take(n), source) is Err,
    ensures
        assemble(readings, source) == assemble(readings.take(n), source),
    decreases readings.len() - n,
{
    if n < readings.len() {
        assert(readings.take(n + 1).drop_last() == readings.take(n));
        lemma_failure_stays(readings, n + 1, source);
    } else {
        assert(readings.take(n) == readings);
    }
}

/// The trees that a stack of nodes stands for.
pub open spec fn trees(stack: Seq<Node>) -> Seq<Tree> {
    stack.map_values(|node: Node| node@)
}

/// The readings that a vector of tokens and numbers stands for.
pub open spec fn readings_of(readings: Seq<(Token, Option<u64>)>) -> Seq<Reading> {
    readings.map_values(|reading: (Token, Option<u64>)| (reading.0@, reading.1))
}

/// Whether `readings` is what the reader of numbers makes of `tokens`: the
/// same tokens in the same order, each operand with an answer of `parse` to
/// its text, and every other token with `None`.
pub open spec fn reads<P: Fn(&str) -> Option<u64>>(
    parse: P,
    tokens: Seq<TokenView>,
    readings: Seq<Reading>,
) -> bool {
    &&& readings.len() == tokens.len()
    &&& forall|i: int|
        0 <= i < tokens.len() ==> {
            &&& (#[trigger] readings[i]).0 == tokens[i]
            &&& if tokens[i].t == TokenType::Operand {
                answers(parse, tokens[i].v, readings[i].1)
            } else {
                readings[i].1 is None
            }
        }
}

/// Asks the reader of numbers about every operand of a token sequence.
pub fn read_operands<P: Fn(&str) -> Option<u64>>(tokens: Vec<Token>, parse: &P) -> (readings: Vec<
    (Token, Option<u64>),
>)
    requires
        always_reads(*parse),
    ensures
        reads(*parse, tokens.deep_view(), readings_of(readings@)),
{
    let ghost all = tokens.deep_view();
    let mut readings: Vec<(Token, Option<u64>)> = Vec::new();
    for token in it: tokens
        invariant
            always_reads(*parse),
            it.seq().map_values(|t: Token| t@) == all,
            reads(*parse, all.take(it.index()), readings_of(readings@)),
    {
        let ghost before = readings_of(readings@);
        let number = if token.t == TokenType::Operand {
            let number = parse(token.v.as_str());
            assert(answers(*parse, token.v@, number));
            number
        } else {
            None
        };
        let ghost view = token@;
        readings.push((token, number));
        assert(readings_of(readings@) =~= before.push((view, number)));
    }
    assert(all.take(all.len() as int) == all);
    readings
}

/// An expression that has been built and can be evaluated.
#[derive(Debug)]
pub struct Expression {
    evaluable: Node,
}

impl View for Expression {
    type V = Tree;

    closed spec fn view(&self) -> Tree {
        self.evaluable@
    }
}

impl Expression {
    /// Builds the expression of a postfix sequence in which each token comes
    /// with what its text reads as. `source` is the text that the tokens were
    /// made from; a failure that is not the fault of one operand reports it.
    pub fn from_readings(readings: Vec<(Token, Option<u64>)>, source: &str) -> (r: Result<
        Expression,
        EvaluationParseError,
    >)
        ensures
            outcome(r) == built(readings_of(readings@), source@),
    {
        let ghost all = readings_of(readings@);
        let mut stack: Vec<Node> = Vec::new();
        assert(trees(stack@) =~= Seq::empty());
        for reading in it: readings
            invariant
                readings_of(it.seq()) == all,
                assemble(all.take(it.index()), source@) == Ok::<Seq<Tree>, ParseErrorView>(
                    trees(stack@),
                ),
        {
            proof {
                let upto = all.take(it.index() + 1);
                assert(upto.drop_last() == all.take(it.index()));
                assert(upto.last() == (reading.0@, reading.1));
            }
            let ghost before = trees(stack@);
            let ghost n = it.index() + 1;
            let (token, number) = reading;
            match token.t {
                TokenType::Operand => match Value::from_reading(token.v.as_str(), number) {
                    Ok(value) => {
                        stack.push(Node::Literal(value));
                        assert(trees(stack@) =~= before.push(value@));
                    },
                    Err(e) => {
                        proof {
                            lemma_failure_stays(all, n, source@);
                        }
                        return Err(e);
                    },
                },
                TokenType::Operator => {
                    let kind = operator_kind(token.v.as_str());
                    if kind.is_none() || stack.len() < 2 {
                        proof {
                            lemma_failure_stays(all, n, source@);
                        }
                        return Err(EvaluationParseError::InvalidExpression(String::from_str(source)));
                    }
                    let right = stack.pop().unwrap();
                    let left = stack.pop().unwrap();
                    let operation = BasicEvaluable::new(
                        Box::new(left),
                        Box::new(right),
                        kind.unwrap(),
                        token.v,
                    );
                    stack.push(Node::Operation(operation));
                    assert(trees(stack@) =~= before.take(before.len() - 2).push(operation@));
                },
                _ => {
                    proof {
                        lemma_failure_stays(all, n, source@);
                    }
                    return Err(EvaluationParseError::InvalidExpression(String::from_str(source)));
                },
            }
        }
        assert(all.take(all.len() as int) == all);
        match stack.pop() {
            Some(evaluable) => Ok(Expression { evaluable }),
            None => Err(EvaluationParseError::InvalidExpression(String::from_str(source))),
        }
    }

    /// Parses a text: splits it into tokens, reorders them into postfix
    /// form, asks `parse` what each operand reads as, and builds the tree.
    pub fn from_str<P: Fn(&str) -> Option<u64>>(s: &str, parse: &P) -> (r: Result<
        Expression,
        EvaluationParseError,
    >)
        requires
            always_reads(*parse),
        ensures
            exists|readings: Seq<Reading>|
                reads(*parse, postfix(scan(s@)), readings) && outcome(r) == built(readings, s@),
    {
        let rpn = to_rpn(str_to_tokens(s));
        let readings = read_operands(rpn, parse);
        Expression::from_readings(readings, s)
    }
}

impl Evaluable for Expression {
    open spec fn tree(&self) -> Tree {
        self@
    }

    fn eval<U: Fn(ArithmeticOp, u64, u64) -> u64>(&self, unit: &U) -> (v: EvaluableResult) {
        self.evaluable.eval(unit)
    }

    fn to_string<R: Fn(u64) -> String>(&self, render: &R) -> (s: String) {
        self.evaluable.to_string(render)
    }
}

} // verus!
