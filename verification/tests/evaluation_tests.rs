use std::cell::Cell;

use calculator::evaluable::{
    apply, number_of, truth_of, BasicEvaluable, LogicalOp, Node, OperatorKind, RelationalOp, Value,
};
use calculator::expression::{operator_kind, read_operands};
use calculator::number::NAN;
use calculator::parser::{str_to_tokens, to_rpn, Token, TokenType};
use calculator::{ArithmeticOp, Evaluable, EvaluableResult, EvaluationParseError, Expression};

fn read_float(text: &str) -> Option<u64> {
    text.parse::<f64>().ok().map(f64::to_bits)
}

fn float_unit(op: ArithmeticOp, a: u64, b: u64) -> u64 {
    let a = f64::from_bits(a);
    let b = f64::from_bits(b);
    let r = match op {
        ArithmeticOp::Add => a + b,
        ArithmeticOp::Subtract => a - b,
        ArithmeticOp::Multiply => a * b,
        ArithmeticOp::Divide => a / b,
        ArithmeticOp::Remainder => a % b,
        ArithmeticOp::Power => a.powf(b),
    };
    r.to_bits()
}

fn write_float(bits: u64) -> String {
    format!("{}", f64::from_bits(bits))
}

fn number(v: f64) -> EvaluableResult {
    EvaluableResult::F64(v.to_bits())
}

fn build(s: &str) -> Result<Expression, EvaluationParseError> {
    Expression::from_str(s, &read_float)
}

fn value_of(s: &str) -> EvaluableResult {
    build(s).unwrap().eval(&float_unit)
}

fn written(s: &str) -> String {
    build(s).unwrap().to_string(&write_float)
}

fn invalid(s: &str) -> EvaluationParseError {
    EvaluationParseError::InvalidExpression(s.into())
}

fn operand(text: &str) -> Token {
    Token { t: TokenType::Operand, v: text.into() }
}

fn operator(text: &str) -> Token {
    Token { t: TokenType::Operator, v: text.into() }
}

#[test]
fn precedence_of_arithmetic() {
    assert_eq!(value_of("1+2*3"), number(7.0));
    assert_eq!(value_of("(1+2)*3"), number(9.0));
    assert_eq!(value_of("2*3^2"), number(18.0));
    assert_eq!(value_of("2^3^2"), number(64.0));
    assert_eq!(value_of("10-4-3"), number(3.0));
    assert_eq!(value_of("100/10/5"), number(2.0));
    assert_eq!(value_of("7%4*2"), number(6.0));
}

#[test]
fn precedence_of_logic() {
    assert_eq!(value_of("true || false && false"), EvaluableResult::Bool(true));
    assert_eq!(value_of("(true || false) && false"), EvaluableResult::Bool(false));
    assert_eq!(value_of("1+1<3 && 2*2>3"), EvaluableResult::Bool(true));
}

#[test]
fn literals_evaluate_to_themselves() {
    assert_eq!(value_of("42"), number(42.0));
    assert_eq!(value_of(".5"), number(0.5));
    assert_eq!(value_of("1e3"), number(1000.0));
    assert_eq!(value_of("true"), EvaluableResult::Bool(true));
    assert_eq!(value_of("false"), EvaluableResult::Bool(false));
    assert_eq!(value_of("inf"), number(f64::INFINITY));
    assert_eq!(value_of("(((7)))"), number(7.0));
}

#[test]
fn division_by_zero_is_infinite() {
    assert_eq!(value_of("1/0"), number(f64::INFINITY));
    assert_eq!(value_of("1/0>1000"), EvaluableResult::Bool(true));
}

#[test]
fn relations_on_numbers() {
    assert_eq!(value_of("5<5"), EvaluableResult::Bool(false));
    assert_eq!(value_of("5>5"), EvaluableResult::Bool(false));
    assert_eq!(value_of("5<=4"), EvaluableResult::Bool(false));
    assert_eq!(value_of("4>=5"), EvaluableResult::Bool(false));
    assert_eq!(value_of("0-1<0"), EvaluableResult::Bool(true));
    assert_eq!(value_of("0-1>0-2"), EvaluableResult::Bool(true));
    assert_eq!(value_of("0*(0-1)>=0"), EvaluableResult::Bool(true));
    assert_eq!(value_of("0*(0-1)<0"), EvaluableResult::Bool(false));
}

#[test]
fn truth_values_read_as_numbers_are_nan() {
    match value_of("true+1") {
        EvaluableResult::F64(v) => assert!(f64::from_bits(v).is_nan()),
        EvaluableResult::Bool(_) => panic!("a number was expected"),
    }
    assert_eq!(value_of("true<1"), EvaluableResult::Bool(false));
    assert_eq!(value_of("true>=true"), EvaluableResult::Bool(false));
    assert_eq!(number_of(EvaluableResult::Bool(true)), NAN);
    assert_eq!(number_of(EvaluableResult::Bool(false)), NAN);
    assert_eq!(number_of(number(2.5)), 2.5f64.to_bits());
}

#[test]
fn numbers_read_as_truth_values_are_false() {
    assert_eq!(value_of("6 || 6"), EvaluableResult::Bool(false));
    assert_eq!(value_of("1 || true"), EvaluableResult::Bool(true));
    assert_eq!(value_of("true && 1"), EvaluableResult::Bool(false));
    assert!(!truth_of(number(1.0)));
    assert!(truth_of(EvaluableResult::Bool(true)));
    assert!(!truth_of(EvaluableResult::Bool(false)));
}

#[test]
fn arithmetic_hands_the_unit_both_operands_in_order() {
    let seen = Cell::new((ArithmeticOp::Add, 0u64, 0u64));
    let unit = |op: ArithmeticOp, a: u64, b: u64| {
        seen.set((op, a, b));
        7u64
    };
    let e = build("8-3").unwrap();
    assert!(matches!(e.eval(&unit), EvaluableResult::F64(7)));
    assert_eq!(seen.get(), (ArithmeticOp::Subtract, 8f64.to_bits(), 3f64.to_bits()));
}

#[test]
fn both_operands_of_or_are_evaluated() {
    let calls = Cell::new(0u32);
    let unit = |op: ArithmeticOp, a: u64, b: u64| {
        calls.set(calls.get() + 1);
        float_unit(op, a, b)
    };
    let e = build("1<2 || 3+4>5*6").unwrap();
    assert_eq!(e.eval(&unit), EvaluableResult::Bool(true));
    assert_eq!(calls.get(), 2);
}

#[test]
fn both_operands_of_and_are_evaluated() {
    let calls = Cell::new(0u32);
    let unit = |op: ArithmeticOp, a: u64, b: u64| {
        calls.set(calls.get() + 1);
        float_unit(op, a, b)
    };
    let e = build("2<1 && 3+4>5*6-1").unwrap();
    assert_eq!(e.eval(&unit), EvaluableResult::Bool(false));
    assert_eq!(calls.get(), 3);
}

#[test]
fn evaluating_again_gives_the_same() {
    let e = build("(6+10-4)/(1+1*2)+1>4 && 7>6").unwrap();
    let first = e.eval(&float_unit);
    for _ in 0..10 {
        assert_eq!(e.eval(&float_unit), first);
    }
    let n = build("2^0.5*3-1/7").unwrap();
    let first = n.eval(&float_unit);
    assert_eq!(first, number(2f64.powf(0.5) * 3.0 - 1.0 / 7.0));
    for _ in 0..10 {
        assert_eq!(n.eval(&float_unit), first);
    }
    assert_eq!(n.to_string(&write_float), n.to_string(&write_float));
}

#[test]
fn arithmetic_expressions_give_numbers() {
    for s in ["1", "1+2", "(1-2)*3", "2^3%5/7", "0/0", "1/0-1/0"] {
        assert!(matches!(value_of(s), EvaluableResult::F64(_)), "{}", s);
    }
    for s in ["1<2", "true", "1<2&&2<3", "true||1"] {
        assert!(matches!(value_of(s), EvaluableResult::Bool(_)), "{}", s);
    }
}

#[test]
fn writing_puts_every_operation_in_brackets() {
    assert_eq!(written("1+2*3"), "(1 + (2 * 3))");
    assert_eq!(written("(1+2)*3"), "((1 + 2) * 3)");
    assert_eq!(written(" 1  +  2 "), "(1 + 2)");
    assert_eq!(written("42"), "42");
    assert_eq!(written("10.0"), "10");
    assert_eq!(written(".5+1.25"), "(0.5 + 1.25)");
    assert_eq!(written("true&&false"), "(true && false)");
    assert_eq!(written("true"), "true");
    assert_eq!(written("1>=2||3<=4"), "((1 >= 2) || (3 <= 4))");
    assert_eq!(written("2^3%4"), "((2 ^ 3) % 4)");
}

#[test]
fn empty_text_is_invalid() {
    assert_eq!(build("").expect_err("no error returned"), invalid(""));
    assert_eq!(build("  ").expect_err("no error returned"), invalid("  "));
    assert_eq!(build("()").expect_err("no error returned"), invalid("()"));
    assert_eq!(build("$").expect_err("no error returned"), invalid("$"));
}

#[test]
fn stray_tokens_are_invalid() {
    assert_eq!(build("1,2").expect_err("no error returned"), invalid("1,2"));
    assert_eq!(build("((1+2)").expect_err("no error returned"), invalid("((1+2)"));
    assert_eq!(build("+").expect_err("no error returned"), invalid("+"));
    assert_eq!(build("1+*2").expect_err("no error returned"), invalid("1+*2"));
}

#[test]
fn unknown_operators_are_invalid() {
    assert_eq!(build("1==2").expect_err("no error returned"), invalid("1==2"));
    assert_eq!(build("1!=2").expect_err("no error returned"), invalid("1!=2"));
    assert_eq!(build("1&2").expect_err("no error returned"), invalid("1&2"));
    assert_eq!(build("1++2").expect_err("no error returned"), invalid("1++2"));
    assert_eq!(build("(1)(2)==(3)").expect_err("no error returned"), invalid("(1)(2)==(3)"));
}

#[test]
fn the_first_failure_in_postfix_order_is_reported() {
    assert_eq!(
        build("6as+").expect_err("no error returned"),
        EvaluationParseError::UnsupportedValue("6as".into())
    );
    assert_eq!(
        build("1+x*y").expect_err("no error returned"),
        EvaluationParseError::UnsupportedValue("x".into())
    );
    assert_eq!(build("+ +x").expect_err("no error returned"), EvaluationParseError::UnsupportedValue("x".into()));
    assert_eq!(build("1+,x").expect_err("no error returned"), invalid("1+,x"));
}

#[test]
fn operands_that_are_no_numbers_are_unsupported() {
    for s in ["True", "FALSE", "abc", "1e", "0..5", "1.2.3", "é", "truefalse"] {
        assert_eq!(
            build(s).expect_err("no error returned"),
            EvaluationParseError::UnsupportedValue(s.into()),
        );
    }
    assert_eq!(
        build("..").expect_err("no error returned"),
        EvaluationParseError::UnsupportedValue("0..".into())
    );
}

#[test]
fn the_topmost_tree_is_the_expression() {
    assert_eq!(value_of("(1)(2)"), number(2.0));
    assert_eq!(written("(1+1)(2)(3*3)"), "(3 * 3)");
    assert_eq!(value_of("1 2"), number(12.0));
}

#[test]
fn literals_from_readings() {
    assert_eq!(Value::from_reading("6", Some(7)).unwrap().value(), EvaluableResult::F64(7));
    assert_eq!(Value::from_reading("true", Some(7)).unwrap().value(), EvaluableResult::F64(7));
    assert_eq!(Value::from_reading("true", None).unwrap().value(), EvaluableResult::Bool(true));
    assert_eq!(Value::from_reading("false", None).unwrap().value(), EvaluableResult::Bool(false));
    assert_eq!(
        Value::from_reading("6", None).expect_err("no error returned"),
        EvaluationParseError::UnsupportedValue("6".into())
    );
    assert_eq!(
        Value::from_reading("", None).expect_err("no error returned"),
        EvaluationParseError::UnsupportedValue("".into())
    );
}

#[test]
fn literals_from_text() {
    assert_eq!(Value::from_str("2.5", &read_float).unwrap().value(), number(2.5));
    assert_eq!(Value::from_str("true", &read_float).unwrap().value(), EvaluableResult::Bool(true));
    assert_eq!(
        Value::from_str("6as", &read_float).expect_err("no error returned"),
        EvaluationParseError::UnsupportedValue("6as".into())
    );
    let v = Value::new(number(1.5));
    assert_eq!(v.eval(&float_unit), number(1.5));
    assert_eq!(v.to_string(&write_float), "1.5");
    assert_eq!(Value::new(EvaluableResult::Bool(false)).to_string(&write_float), "false");
}

#[test]
fn symbols_stand_for_operations() {
    assert_eq!(operator_kind("+"), Some(OperatorKind::Arithmetic(ArithmeticOp::Add)));
    assert_eq!(operator_kind("-"), Some(OperatorKind::Arithmetic(ArithmeticOp::Subtract)));
    assert_eq!(operator_kind("*"), Some(OperatorKind::Arithmetic(ArithmeticOp::Multiply)));
    assert_eq!(operator_kind("/"), Some(OperatorKind::Arithmetic(ArithmeticOp::Divide)));
    assert_eq!(operator_kind("%"), Some(OperatorKind::Arithmetic(ArithmeticOp::Remainder)));
    assert_eq!(operator_kind("^"), Some(OperatorKind::Arithmetic(ArithmeticOp::Power)));
    assert_eq!(operator_kind("<"), Some(OperatorKind::Relational(RelationalOp::Less)));
    assert_eq!(operator_kind("<="), Some(OperatorKind::Relational(RelationalOp::LessOrEqual)));
    assert_eq!(operator_kind(">"), Some(OperatorKind::Relational(RelationalOp::Greater)));
    assert_eq!(operator_kind(">="), Some(OperatorKind::Relational(RelationalOp::GreaterOrEqual)));
    assert_eq!(operator_kind("&&"), Some(OperatorKind::Logical(LogicalOp::And)));
    assert_eq!(operator_kind("||"), Some(OperatorKind::Logical(LogicalOp::Or)));
    for s in ["", "=", "==", "!=", "!", "&", "|", "+-", "<<", "a"] {
        assert_eq!(operator_kind(s), None);
    }
}

#[test]
fn one_operation_at_a_time() {
    let t = EvaluableResult::Bool(true);
    let f = EvaluableResult::Bool(false);
    let and = OperatorKind::Logical(LogicalOp::And);
    let or = OperatorKind::Logical(LogicalOp::Or);
    assert_eq!(apply(and, &float_unit, t, t), t);
    assert_eq!(apply(and, &float_unit, t, f), f);
    assert_eq!(apply(and, &float_unit, f, t), f);
    assert_eq!(apply(or, &float_unit, f, t), t);
    assert_eq!(apply(or, &float_unit, t, f), t);
    assert_eq!(apply(or, &float_unit, f, f), f);
    let less = OperatorKind::Relational(RelationalOp::Less);
    let at_most = OperatorKind::Relational(RelationalOp::LessOrEqual);
    let greater = OperatorKind::Relational(RelationalOp::Greater);
    let at_least = OperatorKind::Relational(RelationalOp::GreaterOrEqual);
    assert_eq!(apply(less, &float_unit, number(1.0), number(2.0)), t);
    assert_eq!(apply(less, &float_unit, number(2.0), number(1.0)), f);
    assert_eq!(apply(at_most, &float_unit, number(2.0), number(2.0)), t);
    assert_eq!(apply(greater, &float_unit, number(2.0), number(1.0)), t);
    assert_eq!(apply(greater, &float_unit, number(2.0), number(2.0)), f);
    assert_eq!(apply(at_least, &float_unit, number(2.0), number(2.0)), t);
    assert_eq!(apply(at_least, &float_unit, number(1.0), number(2.0)), f);
    let power = OperatorKind::Arithmetic(ArithmeticOp::Power);
    assert_eq!(apply(power, &float_unit, number(2.0), number(10.0)), number(1024.0));
}

#[test]
fn trees_built_by_hand() {
    let sum = BasicEvaluable::new(
        Box::new(Node::Literal(Value::new(number(1.0)))),
        Box::new(Node::Literal(Value::new(number(2.0)))),
        OperatorKind::Arithmetic(ArithmeticOp::Add),
        "plus".into(),
    );
    assert_eq!(sum.eval(&float_unit), number(3.0));
    assert_eq!(sum.to_string(&write_float), "(1 plus 2)");
    let test = Node::Operation(BasicEvaluable::new(
        Box::new(Node::Operation(sum)),
        Box::new(Node::Literal(Value::new(EvaluableResult::Bool(true)))),
        OperatorKind::Relational(RelationalOp::Less),
        "<".into(),
    ));
    assert_eq!(test.eval(&float_unit), EvaluableResult::Bool(false));
    assert_eq!(test.to_string(&write_float), "((1 plus 2) < true)");
}

#[test]
fn every_operand_is_read() {
    let readings = read_operands(to_rpn(str_to_tokens("1+x*(2)")), &read_float);
    let numbers: Vec<Option<u64>> = readings.iter().map(|r| r.1).collect();
    assert_eq!(
        numbers,
        vec![Some(1f64.to_bits()), None, Some(2f64.to_bits()), None, None]
    );
    let texts: Vec<&str> = readings.iter().map(|r| r.0.v.as_str()).collect();
    assert_eq!(texts, vec!["1", "x", "2", "*", "+"]);
}

#[test]
fn only_operands_are_read() {
    let asked = Cell::new(0u32);
    let reader = |text: &str| {
        asked.set(asked.get() + 1);
        read_float(text)
    };
    let readings = read_operands(to_rpn(str_to_tokens("(1+2),3")), &reader);
    assert_eq!(readings.len(), 5);
    assert_eq!(asked.get(), 3);
}

#[test]
fn expressions_from_readings() {
    let e = Expression::from_readings(
        vec![(operand("a"), Some(2f64.to_bits())), (operand("b"), Some(3f64.to_bits())), (operator("^"), None)],
        "a^b",
    )
    .unwrap();
    assert_eq!(e.eval(&float_unit), number(8.0));
    assert_eq!(e.to_string(&write_float), "(2 ^ 3)");
    let e = Expression::from_readings(vec![(operand("true"), None)], "true").unwrap();
    assert_eq!(e.eval(&float_unit), EvaluableResult::Bool(true));
    let e = Expression::from_readings(vec![(operand("true"), Some(1f64.to_bits()))], "true").unwrap();
    assert_eq!(e.eval(&float_unit), number(1.0));
}

#[test]
fn failures_from_readings() {
    assert_eq!(
        Expression::from_readings(Vec::new(), "nothing").expect_err("no error returned"),
        invalid("nothing")
    );
    assert_eq!(
        Expression::from_readings(
            vec![(operand("1"), Some(0)), (operator("+"), None)],
            "source"
        )
        .expect_err("no error returned"),
        invalid("source")
    );
    assert_eq!(
        Expression::from_readings(
            vec![(operand("1"), Some(0)), (operand("2"), Some(0)), (operator("?"), None)],
            "source"
        )
        .expect_err("no error returned"),
        invalid("source")
    );
    assert_eq!(
        Expression::from_readings(
            vec![(Token { t: TokenType::ArgSeparator, v: ",".into() }, None)],
            "source"
        )
        .expect_err("no error returned"),
        invalid("source")
    );
    assert_eq!(
        Expression::from_readings(
            vec![(Token { t: TokenType::CloseBrace, v: ")".into() }, None)],
            "source"
        )
        .expect_err("no error returned"),
        invalid("source")
    );
    assert_eq!(
        Expression::from_readings(vec![(operand("word"), None), (operator("+"), None)], "source")
            .expect_err("no error returned"),
        EvaluationParseError::UnsupportedValue("word".into())
    );
}

#[test]
fn errors_compare_by_kind_and_text() {
    let a = EvaluationParseError::InvalidExpression("x".into());
    let b = EvaluationParseError::UnsupportedValue("x".into());
    let c = EvaluationParseError::InvalidExpression("y".into());
    assert_eq!(a, a.clone());
    assert_eq!(b, b.clone());
    assert_ne!(a, b);
    assert_ne!(a, c);
}
