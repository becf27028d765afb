//! Whole-engine scenarios: the tests play the caller's part, doing the
//! floating-point work each [`Action`] asks for and feeding the results
//! back in.

use tui_calculator::calculator::{
    Action, BaseMode, CalculatorError, Calculator, CalculatorMode, Computed, StackEntry,
};
use tui_calculator::eval::EvalStep;
use tui_calculator::format::RealText;
use tui_calculator::value::{ComplexNumber, Real, StackValue};

fn cs(s: &str) -> Vec<char> {
    s.chars().collect()
}

fn text(v: &[char]) -> String {
    v.iter().collect()
}

fn dbl(f: f64) -> Real {
    Real::from_bits(f.to_bits())
}

fn float_of(r: Real) -> f64 {
    f64::from_bits(r.to_bits())
}

fn computed_of(f: f64) -> Computed {
    Computed {
        value: dbl(f),
        plain: format!("{f}").chars().collect(),
        sci: format!("{f:.3e}").chars().collect(),
    }
}

fn apply_op(op: char, a: f64, b: f64) -> f64 {
    match op {
        '+' => a + b,
        '-' => a - b,
        '*' => a * b,
        '/' => a / b,
        '^' => a.powf(b),
        _ => f64::NAN,
    }
}

/// Performs the floating-point work an action asks for.
fn drive(calc: &mut Calculator, action: Action) {
    match action {
        Action::Done => {}
        Action::ParseNumber { text: t, then_op } => {
            let s: String = t.iter().collect();
            let parsed = s.trim().parse::<f64>().ok().map(dbl);
            let next = calc.commit_number(parsed, then_op);
            drive(calc, next);
        }
        Action::ParseRecall { text: t } => {
            let s: String = t.iter().collect();
            let parsed = s.parse::<f64>().ok().map(dbl);
            let next = calc.commit_recall(t, parsed);
            drive(calc, next);
        }
        Action::NegateInput { text: t } => {
            let s: String = t.iter().collect();
            let rendered = s
                .parse::<f64>()
                .ok()
                .map(|f| (-f).to_string().chars().collect::<Vec<char>>());
            calc.commit_negated(rendered);
        }
        Action::ApplyOp { op } => {
            let computed = calc
                .binary_operands(op)
                .map(|(a, b)| computed_of(apply_op(op, float_of(a), float_of(b))));
            calc.apply_binary(op, computed);
        }
        Action::Evaluate { mut eval } => loop {
            match eval.step() {
                EvalStep::NeedNumber(t) => {
                    let s: String = t.iter().collect();
                    let f = s.parse::<f64>().unwrap_or(f64::NAN);
                    eval.provide(dbl(f));
                }
                EvalStep::NeedApply { op, a, b } => {
                    eval.provide(dbl(apply_op(op, float_of(a), float_of(b))));
                }
                EvalStep::Done(v) => {
                    calc.eval_commit(computed_of(float_of(v)));
                    break;
                }
                EvalStep::Failed(e) => {
                    calc.eval_failed(e);
                    break;
                }
            }
        },
    }
}

fn type_str(calc: &mut Calculator, s: &str) {
    for c in s.chars() {
        let a = calc.handle_char_input(c);
        drive(calc, a);
    }
}

fn press_enter(calc: &mut Calculator) {
    let a = calc.enter();
    drive(calc, a);
}

fn infix_calc() -> Calculator {
    let mut c = Calculator::new();
    c.toggle_mode();
    assert_eq!(c.mode, CalculatorMode::Infix);
    c
}

fn top_value(calc: &Calculator) -> f64 {
    match calc.stack.last().unwrap().result {
        StackValue::Real(r) => float_of(r),
        StackValue::Complex(_) => panic!("complex on stack"),
    }
}

#[test]
fn infix_precedence_evaluates() {
    let mut c = infix_calc();
    type_str(&mut c, "2+3*4");
    press_enter(&mut c);
    assert_eq!(c.error, None);
    assert_eq!(c.stack.len(), 1);
    assert_eq!(top_value(&c), 14.0);
    assert_eq!(text(&c.stack[0].expression), "2+3*4");
    assert_eq!(text(&c.history[0]), "2+3*4 = 14");
    assert_eq!(c.history_position, 1);
    assert!(c.input.is_empty());
}

#[test]
fn infix_parentheses_evaluate() {
    let mut c = infix_calc();
    type_str(&mut c, "(2+3)*4");
    press_enter(&mut c);
    assert_eq!(c.error, None);
    assert_eq!(top_value(&c), 20.0);
}

#[test]
fn power_is_right_associative() {
    let mut c = infix_calc();
    type_str(&mut c, "2^3^2");
    press_enter(&mut c);
    assert_eq!(top_value(&c), 512.0);
}

#[test]
fn infix_division_by_zero_reports_and_keeps_state() {
    let mut c = infix_calc();
    type_str(&mut c, "5/0");
    press_enter(&mut c);
    assert_eq!(c.error, Some(cs("Division by zero")));
    assert_eq!(c.stack.len(), 0);
    assert_eq!(c.history.len(), 0);
    assert_eq!(text(&c.input), "5/0");
}

#[test]
fn rpn_division_by_zero_reports_and_keeps_stack() {
    let mut c = Calculator::new();
    type_str(&mut c, "5");
    press_enter(&mut c);
    type_str(&mut c, "0");
    press_enter(&mut c);
    let a = c.handle_char_input('/');
    drive(&mut c, a);
    assert_eq!(c.error, Some(cs("Division by zero")));
    assert_eq!(c.stack.len(), 2);
    assert_eq!(top_value(&c), 0.0);
    assert_eq!(text(&c.stack[0].expression), "5");
}

#[test]
fn mismatched_parentheses_reports() {
    let mut c = infix_calc();
    type_str(&mut c, "(2+3");
    press_enter(&mut c);
    assert_eq!(c.error, Some(cs("Mismatched parentheses")));
    assert_eq!(c.stack.len(), 0);
    assert_eq!(text(&c.input), "(2+3");
}

#[test]
fn invalid_expression_reports() {
    let mut c = infix_calc();
    type_str(&mut c, "2+");
    press_enter(&mut c);
    assert_eq!(c.error, Some(cs("Invalid expression")));
    assert_eq!(c.stack.len(), 0);
}

#[test]
fn stack_capacity_evicts_oldest() {
    let mut c = Calculator::new();
    for i in 0..1001u32 {
        type_str(&mut c, &i.to_string());
        press_enter(&mut c);
    }
    assert_eq!(c.stack.len(), 1000);
    assert_eq!(c.history.len(), 1000);
    assert_eq!(text(&c.stack[0].expression), "1");
    assert_eq!(top_value(&c), 1000.0);
    assert_eq!(text(&c.history[0]), "1");
}

#[test]
fn negate_buffer_rewrites_text() {
    let mut c = Calculator::new();
    type_str(&mut c, "5");
    let a = c.negate();
    drive(&mut c, a);
    assert_eq!(text(&c.input), "-5");
    let a2 = c.negate();
    drive(&mut c, a2);
    assert_eq!(text(&c.input), "5");
}

#[test]
fn negate_top_flips_value_in_place() {
    let mut c = Calculator::new();
    type_str(&mut c, "5");
    press_enter(&mut c);
    let depth = c.stack.len();
    let a = c.negate();
    drive(&mut c, a);
    assert_eq!(c.stack.len(), depth);
    assert_eq!(top_value(&c), -5.0);
    assert_eq!(text(&c.stack.last().unwrap().expression), "5");
}

#[test]
fn swap_exchanges_top_two() {
    let mut c = Calculator::new();
    type_str(&mut c, "1");
    press_enter(&mut c);
    type_str(&mut c, "2");
    press_enter(&mut c);
    c.swap();
    assert_eq!(top_value(&c), 1.0);
    assert_eq!(text(&c.stack[0].expression), "2");
    let mut solo = Calculator::new();
    type_str(&mut solo, "7");
    press_enter(&mut solo);
    solo.swap();
    assert_eq!(solo.stack.len(), 1);
    assert_eq!(top_value(&solo), 7.0);
}

#[test]
fn rpn_operator_commits_pending_number() {
    let mut c = Calculator::new();
    type_str(&mut c, "5");
    press_enter(&mut c);
    type_str(&mut c, "3+");
    assert_eq!(c.stack.len(), 1);
    assert_eq!(top_value(&c), 8.0);
    assert_eq!(text(&c.stack[0].expression), "(5 + 3)");
    assert_eq!(text(c.history.last().unwrap()), "(5 + 3) = 8");
}

#[test]
fn rpn_underflow_reports() {
    let mut c = Calculator::new();
    type_str(&mut c, "5");
    press_enter(&mut c);
    let a = c.handle_char_input('+');
    drive(&mut c, a);
    assert_eq!(c.error, Some(cs("Stack underflow")));
    assert_eq!(c.stack.len(), 1);
}

#[test]
fn enter_on_empty_input_duplicates_top() {
    let mut c = Calculator::new();
    type_str(&mut c, "9");
    press_enter(&mut c);
    press_enter(&mut c);
    assert_eq!(c.stack.len(), 2);
    assert_eq!(top_value(&c), 9.0);
}

#[test]
fn history_recall_pushes_recorded_result() {
    let mut c = Calculator::new();
    c.history = vec![cs("5 + 5 = 10")];
    type_str(&mut c, "5");
    press_enter(&mut c);
    assert_eq!(c.stack.len(), 1);
    assert_eq!(top_value(&c), 10.0);
    assert_eq!(text(&c.stack[0].expression), "10");
    assert_eq!(c.history.len(), 1);
    assert!(c.input.is_empty());
}

#[test]
fn hex_entry_parses_in_base() {
    let mut c = Calculator::new();
    c.cycle_base_mode();
    assert_eq!(c.base_mode, BaseMode::Hexadecimal);
    c.input = cs("0xff");
    press_enter(&mut c);
    assert_eq!(c.error, None);
    assert_eq!(top_value(&c), 255.0);
    assert_eq!(text(&c.stack[0].expression), "0xff");
}

#[test]
fn binary_entry_rejects_bad_digits() {
    let mut c = Calculator::new();
    c.cycle_base_mode();
    c.cycle_base_mode();
    assert_eq!(c.base_mode, BaseMode::Binary);
    c.input = cs("102");
    press_enter(&mut c);
    assert_eq!(c.error, Some(cs("Invalid number for current base")));
    assert_eq!(c.stack.len(), 0);
}

#[test]
fn invalid_rpn_character_reports() {
    let mut c = Calculator::new();
    let a = c.handle_char_input('q');
    drive(&mut c, a);
    assert_eq!(c.error, Some(cs("Invalid input: 'q'")));
}

#[test]
fn invalid_infix_character_reports() {
    let mut c = infix_calc();
    let a = c.handle_char_input('q');
    drive(&mut c, a);
    assert_eq!(c.error, Some(cs("Invalid character 'q' for infix mode.")));
}

#[test]
fn browse_history_recalls_expressions_and_clamps() {
    let mut c = infix_calc();
    type_str(&mut c, "1+1");
    press_enter(&mut c);
    type_str(&mut c, "2+2");
    press_enter(&mut c);
    assert_eq!(c.history_position, 2);
    c.browse_history_up();
    assert_eq!(c.history_position, 1);
    assert_eq!(text(&c.input), "2+2");
    c.browse_history_up();
    assert_eq!(c.history_position, 0);
    assert_eq!(text(&c.input), "1+1");
    c.browse_history_up();
    assert_eq!(c.history_position, 0);
    assert_eq!(text(&c.input), "1+1");
    c.browse_history_down();
    assert_eq!(c.history_position, 1);
    assert_eq!(text(&c.input), "2+2");
    c.browse_history_down();
    assert_eq!(c.history_position, 2);
    assert!(c.input.is_empty());
    c.browse_history_down();
    assert_eq!(c.history_position, 2);
}

#[test]
fn browse_stack_clamps_at_both_ends() {
    let mut c = Calculator::new();
    for s in ["1", "2", "3"] {
        type_str(&mut c, s);
        press_enter(&mut c);
    }
    assert_eq!(c.stack_position, 0);
    c.browse_stack_up();
    assert_eq!(c.stack_position, 0);
    c.browse_stack_down();
    assert_eq!(c.stack_position, 1);
    c.browse_stack_down();
    assert_eq!(c.stack_position, 2);
    c.browse_stack_down();
    assert_eq!(c.stack_position, 2);
    c.browse_stack_up();
    assert_eq!(c.stack_position, 1);
}

#[test]
fn drop_removes_top_and_clamps_cursor() {
    let mut c = Calculator::new();
    for s in ["1", "2"] {
        type_str(&mut c, s);
        press_enter(&mut c);
    }
    c.browse_stack_down();
    assert_eq!(c.stack_position, 1);
    c.drop();
    assert_eq!(c.stack.len(), 1);
    assert_eq!(c.stack_position, 0);
    c.drop();
    assert_eq!(c.stack.len(), 0);
    c.drop();
    assert_eq!(c.stack.len(), 0);
}

#[test]
fn clear_all_resets_everything() {
    let mut c = infix_calc();
    type_str(&mut c, "1+1");
    press_enter(&mut c);
    type_str(&mut c, "oops");
    c.clear_all();
    assert!(c.input.is_empty());
    assert!(c.stack.is_empty());
    assert!(c.history.is_empty());
    assert_eq!(c.error, None);
    assert_eq!(c.stack_position, 0);
    assert_eq!(c.history_position, 0);
}

#[test]
fn mode_string_reflects_modes() {
    let mut c = Calculator::new();
    assert_eq!(
        c.get_mode_string(),
        "Mode: RPN | Angle: RAD | Base: DEC | Complex: REC"
    );
    c.toggle_mode();
    c.toggle_angle_mode();
    c.cycle_base_mode();
    c.toggle_complex_mode();
    assert_eq!(
        c.get_mode_string(),
        "Mode: INFIX | Angle: DEG | Base: HEX | Complex: POL"
    );
}

#[test]
fn error_messages_match_taxonomy() {
    assert_eq!(CalculatorError::InvalidExpression.message(), "Invalid expression");
    assert_eq!(CalculatorError::DivisionByZero.message(), "Division by zero");
    assert_eq!(CalculatorError::UnknownOperator.message(), "Unknown operator");
    assert_eq!(
        CalculatorError::MismatchedParentheses.message(),
        "Mismatched parentheses"
    );
    assert_eq!(CalculatorError::StackUnderflow.message(), "Stack underflow");
    assert_eq!(
        CalculatorError::InvalidBase.message(),
        "Invalid number for current base"
    );
    assert_eq!(
        CalculatorError::InvalidComplex.message(),
        "Invalid complex number"
    );
}

#[test]
fn get_current_value_prefers_input() {
    let mut c = Calculator::new();
    type_str(&mut c, "12");
    let v = c.get_current_value(None);
    assert_eq!(v, Some(cs("12")));
    c.clear_input();
    let v2 = c.get_current_value(Some(cs("7")));
    assert_eq!(v2, Some(cs("7")));
    let v3 = c.get_current_value(None);
    assert_eq!(v3, None);
}

#[test]
fn backspace_edits_input() {
    let mut c = Calculator::new();
    type_str(&mut c, "123");
    c.backspace();
    assert_eq!(text(&c.input), "12");
    c.backspace();
    c.backspace();
    c.backspace();
    assert!(c.input.is_empty());
}

#[test]
fn complex_operand_aborts_binary_operation() {
    let mut c = Calculator::new();
    type_str(&mut c, "2");
    press_enter(&mut c);
    c.stack.push(StackEntry {
        expression: cs("i"),
        result: StackValue::Complex(ComplexNumber::new(dbl(0.0), dbl(1.0))),
    });
    let a = c.handle_char_input('+');
    drive(&mut c, a);
    assert_eq!(c.error, Some(cs("Complex arithmetic not yet implemented")));
    assert_eq!(c.stack.len(), 2);
    let d = c.handle_char_input('/');
    drive(&mut c, d);
    assert_eq!(c.error, Some(cs("Complex division not yet implemented")));
    assert_eq!(c.stack.len(), 2);
}

#[test]
fn negate_leaves_unparseable_buffer_alone() {
    let mut c = Calculator::new();
    type_str(&mut c, "1.2.3");
    let a = c.negate();
    drive(&mut c, a);
    assert_eq!(text(&c.input), "1.2.3");
}

#[test]
fn complex_values_format_in_both_forms() {
    let c = Calculator::new();
    let z = StackValue::Complex(ComplexNumber::new(dbl(1.0), dbl(-2.0)));
    let re = RealText { plain: cs("1"), sci: cs("1.000e0") };
    let im = RealText { plain: cs("2"), sci: cs("2.000e0") };
    let rect = c.format_stack_value(&z, &re, &im, dbl(0.0), dbl(0.0));
    assert_eq!(text(&rect), "1 - 2i");

    let mut cp = Calculator::new();
    cp.toggle_complex_mode();
    let mag = RealText { plain: cs("2.236"), sci: cs("2.236e0") };
    let ph = RealText { plain: cs("-1.107"), sci: cs("-1.107e0") };
    let polar = cp.format_stack_value(&z, &mag, &ph, dbl(2.236), dbl(-1.107));
    assert_eq!(text(&polar), "2.236 ∠ -1.107rad");
    cp.toggle_angle_mode();
    let polar_deg = cp.format_stack_value(&z, &mag, &ph, dbl(2.236), dbl(-63.43));
    assert_eq!(text(&polar_deg), "2.236 ∠ -1.107°");
}

#[test]
fn history_capacity_holds_for_operation_lines() {
    let mut c = Calculator::new();
    c.history = vec![cs("0"); 1000];
    type_str(&mut c, "2");
    press_enter(&mut c);
    type_str(&mut c, "3");
    press_enter(&mut c);
    let a = c.handle_char_input('*');
    drive(&mut c, a);
    assert_eq!(c.history.len(), 1000);
    assert_eq!(text(c.history.last().unwrap()), "(2 * 3) = 6");
}
