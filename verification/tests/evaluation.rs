//! The postfix evaluation step machine, driven directly.

use tui_calculator::calculator::CalculatorError;
use tui_calculator::eval::{EvalStep, Evaluation};
use tui_calculator::token::Token;
use tui_calculator::value::Real;

fn cs(s: &str) -> Vec<char> {
    s.chars().collect()
}

fn dbl(f: f64) -> Real {
    Real::from_bits(f.to_bits())
}

fn float_of(r: Real) -> f64 {
    f64::from_bits(r.to_bits())
}

#[test]
fn machine_walks_postfix_in_order() {
    let mut ev = Evaluation::from_text(&cs("2+3*4")).unwrap();
    match ev.step() {
        EvalStep::NeedNumber(t) => assert_eq!(t, cs("2")),
        other => panic!("unexpected step {other:?}"),
    }
    ev.provide(dbl(2.0));
    match ev.step() {
        EvalStep::NeedNumber(t) => assert_eq!(t, cs("3")),
        other => panic!("unexpected step {other:?}"),
    }
    ev.provide(dbl(3.0));
    match ev.step() {
        EvalStep::NeedNumber(t) => assert_eq!(t, cs("4")),
        other => panic!("unexpected step {other:?}"),
    }
    ev.provide(dbl(4.0));
    match ev.step() {
        EvalStep::NeedApply { op, a, b } => {
            assert_eq!(op, '*');
            assert_eq!(float_of(a), 3.0);
            assert_eq!(float_of(b), 4.0);
        }
        other => panic!("unexpected step {other:?}"),
    }
    ev.provide(dbl(12.0));
    match ev.step() {
        EvalStep::NeedApply { op, a, b } => {
            assert_eq!(op, '+');
            assert_eq!(float_of(a), 2.0);
            assert_eq!(float_of(b), 12.0);
        }
        other => panic!("unexpected step {other:?}"),
    }
    ev.provide(dbl(14.0));
    match ev.step() {
        EvalStep::Done(v) => assert_eq!(float_of(v), 14.0),
        other => panic!("unexpected step {other:?}"),
    }
}

#[test]
fn subtraction_pops_in_operand_order() {
    let mut ev = Evaluation::from_text(&cs("8-3")).unwrap();
    ev.provide(dbl(8.0));
    ev.provide(dbl(3.0));
    match ev.step() {
        EvalStep::NeedApply { op, a, b } => {
            assert_eq!(op, '-');
            assert_eq!(float_of(a), 8.0);
            assert_eq!(float_of(b), 3.0);
        }
        other => panic!("unexpected step {other:?}"),
    }
}

#[test]
fn zero_divisor_fails_before_dividing() {
    let mut ev = Evaluation::from_text(&cs("5/0")).unwrap();
    ev.provide(dbl(5.0));
    ev.provide(dbl(0.0));
    match ev.step() {
        EvalStep::Failed(e) => assert_eq!(e, CalculatorError::DivisionByZero),
        other => panic!("unexpected step {other:?}"),
    }
}

#[test]
fn negative_zero_divisor_also_fails() {
    let mut ev = Evaluation::from_text(&cs("5/0")).unwrap();
    ev.provide(dbl(5.0));
    ev.provide(dbl(-0.0));
    match ev.step() {
        EvalStep::Failed(e) => assert_eq!(e, CalculatorError::DivisionByZero),
        other => panic!("unexpected step {other:?}"),
    }
}

#[test]
fn missing_operand_fails() {
    let mut ev = Evaluation::from_text(&cs("2+")).unwrap();
    ev.provide(dbl(2.0));
    match ev.step() {
        EvalStep::Failed(e) => assert_eq!(e, CalculatorError::InvalidExpression),
        other => panic!("unexpected step {other:?}"),
    }
}

#[test]
fn leftover_values_fail() {
    let mut ev = Evaluation::from_text(&cs("2 3")).unwrap();
    ev.provide(dbl(2.0));
    ev.provide(dbl(3.0));
    match ev.step() {
        EvalStep::Failed(e) => assert_eq!(e, CalculatorError::InvalidExpression),
        other => panic!("unexpected step {other:?}"),
    }
}

#[test]
fn empty_expression_fails() {
    let ev = Evaluation::from_text(&cs("")).unwrap();
    match ev.step() {
        EvalStep::Failed(e) => assert_eq!(e, CalculatorError::InvalidExpression),
        other => panic!("unexpected step {other:?}"),
    }
}

#[test]
fn unknown_operator_fails_defensively() {
    let tokens = vec![
        Token::Number(cs("1")),
        Token::Number(cs("2")),
        Token::Operator('%'),
    ];
    let mut ev = Evaluation::new(tokens);
    ev.provide(dbl(1.0));
    ev.provide(dbl(2.0));
    match ev.step() {
        EvalStep::Failed(e) => assert_eq!(e, CalculatorError::UnknownOperator),
        other => panic!("unexpected step {other:?}"),
    }
}

#[test]
fn from_text_reports_pipeline_errors() {
    match Evaluation::from_text(&cs("2+a")) {
        Err(e) => assert_eq!(e, CalculatorError::InvalidExpression),
        Ok(_) => panic!("tokenizer should fail"),
    }
    match Evaluation::from_text(&cs("(2+3")) {
        Err(e) => assert_eq!(e, CalculatorError::MismatchedParentheses),
        Ok(_) => panic!("converter should fail"),
    }
}
