use splash::parse::parsers::atom::Atom;
use splash::parse::parsers::expression::{expression, Expression};
use splash::parse::parsers::identifier::identifier;
use splash::parse::parsers::keyword::Keyword;
use splash::parse::parsers::literal::{literal, Literal};
use splash::parse::parsers::operator::{binary_operator, unary_operator, Operator};
use splash::run::builtin::{divide, equal, modulo, not, plus, times};
use splash::run::value::{display_value, i64_display, Value};
use splash::run::SplashRuntimeError;

fn bytes(s: &str) -> Vec<u8> {
    s.as_bytes().to_vec()
}

fn parse_expression(src: &[u8]) -> Expression {
    match expression(&src.to_vec(), 0) {
        Ok((e, _)) => e,
        Err(_) => panic!("the expression should parse"),
    }
}

#[test]
fn keyword_spellings() {
    assert_eq!(Keyword::Let.as_str(), "let");
    assert_eq!(Keyword::Return.as_str(), "return");
    assert_eq!(Keyword::Fn.as_str(), "fn");
    assert_eq!(Keyword::For.as_str(), "for");
    assert_eq!(Keyword::In.as_str(), "in");
    assert_eq!(Keyword::While.as_str(), "while");
    assert_eq!(Keyword::If.as_str(), "if");
    assert_eq!(Keyword::Else.as_str(), "else");
}

#[test]
fn operator_priorities() {
    assert_eq!(Operator::Not.priority(), 4);
    assert_eq!(Operator::Times.priority(), 3);
    assert_eq!(Operator::Divide.priority(), 3);
    assert_eq!(Operator::And.priority(), 3);
    assert_eq!(Operator::Plus.priority(), 2);
    assert_eq!(Operator::Minus.priority(), 2);
    assert_eq!(Operator::Or.priority(), 2);
    assert_eq!(Operator::Modulo.priority(), 1);
    assert_eq!(Operator::Equal.priority(), 0);
    assert_eq!(Operator::LessThan.priority(), 0);
}

#[test]
fn longest_operator_symbol_wins() {
    let src = bytes(">=");
    let (op, p) = match binary_operator(&src, 0) {
        Ok(v) => v,
        Err(_) => panic!("should parse"),
    };
    assert!(matches!(op, Operator::GreaterOrEqual));
    assert_eq!(p, 2);
    let src = bytes("<1");
    let (op, p) = match binary_operator(&src, 0) {
        Ok(v) => v,
        Err(_) => panic!("should parse"),
    };
    assert!(matches!(op, Operator::LessThan));
    assert_eq!(p, 1);
    let src = bytes("!x");
    let (op, p) = match unary_operator(&src, 0) {
        Ok(v) => v,
        Err(_) => panic!("should parse"),
    };
    assert!(matches!(op, Operator::Not));
    assert_eq!(p, 1);
}

#[test]
fn identifier_takes_letters_digits_underscores() {
    let src = bytes("a_b9 rest");
    let (name, p) = match identifier(&src, 0) {
        Ok(v) => v,
        Err(_) => panic!("should parse"),
    };
    assert_eq!(name, bytes("a_b9"));
    assert_eq!(p, 4);
    assert!(identifier(&bytes("9x"), 0).is_err());
}

#[test]
fn literals_parse_to_their_values() {
    let (l, p) = match literal(&bytes("1234"), 0) {
        Ok(v) => v,
        Err(_) => panic!("should parse"),
    };
    assert!(matches!(l, Literal::Number(1234)));
    assert_eq!(p, 4);
    let (l, _) = match literal(&bytes("true"), 0) {
        Ok(v) => v,
        Err(_) => panic!("should parse"),
    };
    assert!(matches!(l, Literal::Boolean(true)));
    let (l, p) = match literal(&bytes("\"hi\""), 0) {
        Ok(v) => v,
        Err(_) => panic!("should parse"),
    };
    match l {
        Literal::String(s) => assert_eq!(s, bytes("hi")),
        _ => panic!("expected a string literal"),
    }
    assert_eq!(p, 4);
}

#[test]
fn oversized_number_literal_is_rejected() {
    assert!(literal(&bytes("9223372036854775808"), 0).is_err());
    assert!(literal(&bytes("9223372036854775807"), 0).is_ok());
}

#[test]
fn precedence_groups_multiplication_beneath_addition() {
    let e = parse_expression(&bytes("a + b * c"));
    match e {
        Expression::Operation(Operator::Plus, operands) => {
            assert_eq!(operands.len(), 2);
            assert!(matches!(&operands[0], Expression::Atom(Atom::Identifier(n)) if n == &bytes("a")));
            match &operands[1] {
                Expression::Operation(Operator::Times, inner) => {
                    assert_eq!(inner.len(), 2);
                    assert!(matches!(&inner[0], Expression::Atom(Atom::Identifier(n)) if n == &bytes("b")));
                    assert!(matches!(&inner[1], Expression::Atom(Atom::Identifier(n)) if n == &bytes("c")));
                }
                _ => panic!("expected the multiplication beneath the addition"),
            }
        }
        _ => panic!("expected an addition at the root"),
    }
}

#[test]
fn two_products_sit_under_one_sum() {
    let e = parse_expression(&bytes("a * b + c * d"));
    match e {
        Expression::Operation(Operator::Plus, operands) => {
            assert_eq!(operands.len(), 2);
            assert!(matches!(&operands[0], Expression::Operation(Operator::Times, _)));
            assert!(matches!(&operands[1], Expression::Operation(Operator::Times, _)));
        }
        _ => panic!("expected an addition at the root"),
    }
}

#[test]
fn equal_priority_associates_left_to_right() {
    let e = parse_expression(&bytes("a - b - c"));
    match e {
        Expression::Operation(Operator::Minus, operands) => {
            assert_eq!(operands.len(), 2);
            assert!(matches!(&operands[0], Expression::Operation(Operator::Minus, _)));
            assert!(matches!(&operands[1], Expression::Atom(Atom::Identifier(n)) if n == &bytes("c")));
        }
        _ => panic!("expected a subtraction at the root"),
    }
}

#[test]
fn number_display_handles_signs() {
    assert_eq!(i64_display(0), bytes("0"));
    assert_eq!(i64_display(8), bytes("8"));
    assert_eq!(i64_display(-5), bytes("-5"));
    assert_eq!(i64_display(120), bytes("120"));
    assert_eq!(i64_display(i64::MIN), bytes("-9223372036854775808"));
    assert_eq!(i64_display(i64::MAX), bytes("9223372036854775807"));
}

#[test]
fn value_display_forms() {
    assert_eq!(display_value(&Value::Boolean(true)), bytes("true"));
    assert_eq!(display_value(&Value::String(bytes("hi"))), bytes("hi"));
    let list = Value::List(vec![Value::Number(1), Value::Number(9), Value::Number(3)]);
    assert_eq!(display_value(&list), bytes("[1, 9, 3]"));
    assert_eq!(display_value(&Value::List(vec![])), bytes("[]"));
}

#[test]
fn arithmetic_operators_compute() {
    assert!(matches!(
        plus(Value::Number(2), Value::Number(6)),
        Ok(Some(Value::Number(8)))
    ));
    assert!(matches!(
        times(Value::Number(3), Value::Number(4)),
        Ok(Some(Value::Number(12)))
    ));
    assert!(matches!(
        divide(Value::Number(7), Value::Number(2)),
        Ok(Some(Value::Number(3)))
    ));
    assert!(matches!(
        divide(Value::Number(-7), Value::Number(2)),
        Ok(Some(Value::Number(-3)))
    ));
    assert!(matches!(
        modulo(Value::Number(-7), Value::Number(2)),
        Ok(Some(Value::Number(-1)))
    ));
    assert!(matches!(
        divide(Value::Number(1), Value::Number(0)),
        Err(SplashRuntimeError::DivisionByZero)
    ));
}

#[test]
fn operators_enforce_their_types() {
    assert!(matches!(
        plus(Value::Number(1), Value::Boolean(true)),
        Err(SplashRuntimeError::InvalidSignatureType(_, _))
    ));
    assert!(matches!(
        not(Value::Number(1)),
        Err(SplashRuntimeError::InvalidSignatureType(_, _))
    ));
    assert!(matches!(
        equal(Value::Number(1), Value::String(bytes("1"))),
        Err(SplashRuntimeError::InvalidSignatureType(_, _))
    ));
}

#[test]
fn string_equality_compares_bytes() {
    assert!(matches!(
        equal(Value::String(bytes("ab")), Value::String(bytes("ab"))),
        Ok(Some(Value::Boolean(true)))
    ));
    assert!(matches!(
        equal(Value::String(bytes("ab")), Value::String(bytes("ac"))),
        Ok(Some(Value::Boolean(false)))
    ));
}
