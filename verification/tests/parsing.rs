//! Tokenizer, converter, radix reading/rendering, and text helpers.

use tui_calculator::calculator::CalculatorError;
use tui_calculator::format::{format_real_with, RealText};
use tui_calculator::calculator::BaseMode;
use tui_calculator::radix::{i64_to_u64_twos, parse_i64_radix, radix_digits};
use tui_calculator::text::{before_sep, recall_text, trim_chars, truncate_string};
use tui_calculator::token::{tokenize, Token};
use tui_calculator::postfix::{infix_to_postfix, is_right_associative, precedence};
use tui_calculator::value::Real;

fn cs(s: &str) -> Vec<char> {
    s.chars().collect()
}

fn shape(t: &Token) -> String {
    match t {
        Token::Number(v) => format!("N{}", v.iter().collect::<String>()),
        Token::Operator(c) => format!("O{c}"),
        Token::Function(v) => format!("F{}", v.iter().collect::<String>()),
        Token::LeftParen => "(".to_string(),
        Token::RightParen => ")".to_string(),
    }
}

fn shapes(ts: &[Token]) -> Vec<String> {
    ts.iter().map(shape).collect()
}

#[test]
fn tokenize_numbers_operators_parens() {
    let ts = tokenize(&cs("12 + 3.5*(4-2)")).unwrap();
    assert_eq!(
        shapes(&ts),
        vec!["N12", "O+", "N3.5", "O*", "(", "N4", "O-", "N2", ")"]
    );
}

#[test]
fn tokenize_accepts_leading_and_trailing_dot() {
    let ts = tokenize(&cs(".5 + 1.")).unwrap();
    assert_eq!(shapes(&ts), vec!["N.5", "O+", "N1."]);
}

#[test]
fn tokenize_rejects_bad_numbers_and_chars() {
    assert_eq!(
        tokenize(&cs("1..2")).unwrap_err(),
        CalculatorError::InvalidExpression
    );
    assert_eq!(
        tokenize(&cs(".")).unwrap_err(),
        CalculatorError::InvalidExpression
    );
    assert_eq!(
        tokenize(&cs("2+a")).unwrap_err(),
        CalculatorError::InvalidExpression
    );
}

#[test]
fn precedence_table() {
    assert_eq!(precedence('+'), 1);
    assert_eq!(precedence('-'), 1);
    assert_eq!(precedence('*'), 2);
    assert_eq!(precedence('/'), 2);
    assert_eq!(precedence('^'), 3);
    assert_eq!(precedence('%'), 0);
    assert!(is_right_associative('^'));
    assert!(!is_right_associative('+'));
    assert!(!is_right_associative('*'));
}

#[test]
fn postfix_orders_by_precedence() {
    let ts = tokenize(&cs("2+3*4")).unwrap();
    let pf = infix_to_postfix(&ts).unwrap();
    assert_eq!(shapes(&pf), vec!["N2", "N3", "N4", "O*", "O+"]);
}

#[test]
fn postfix_respects_parentheses() {
    let ts = tokenize(&cs("(2+3)*4")).unwrap();
    let pf = infix_to_postfix(&ts).unwrap();
    assert_eq!(shapes(&pf), vec!["N2", "N3", "O+", "N4", "O*"]);
}

#[test]
fn postfix_power_is_right_associative() {
    let ts = tokenize(&cs("2^3^2")).unwrap();
    let pf = infix_to_postfix(&ts).unwrap();
    assert_eq!(shapes(&pf), vec!["N2", "N3", "N2", "O^", "O^"]);
}

#[test]
fn postfix_equal_precedence_left_associative() {
    let ts = tokenize(&cs("8-3-2")).unwrap();
    let pf = infix_to_postfix(&ts).unwrap();
    assert_eq!(shapes(&pf), vec!["N8", "N3", "O-", "N2", "O-"]);
}

#[test]
fn postfix_rejects_unbalanced_parens() {
    let ts = tokenize(&cs("(2+3")).unwrap();
    assert_eq!(
        infix_to_postfix(&ts).unwrap_err(),
        CalculatorError::MismatchedParentheses
    );
    let ts2 = tokenize(&cs("2+3)")).unwrap();
    assert_eq!(
        infix_to_postfix(&ts2).unwrap_err(),
        CalculatorError::MismatchedParentheses
    );
}

#[test]
fn radix_parse_matches_from_str_radix() {
    for (s, radix) in [
        ("ff", 16u32),
        ("FF", 16),
        ("-ff", 16),
        ("+1f", 16),
        ("7fffffffffffffff", 16),
        ("8000000000000000", 16),
        ("-8000000000000000", 16),
        ("", 16),
        ("-", 16),
        ("0x1", 16),
        ("101", 2),
        ("-101", 2),
        ("102", 2),
        ("1111111111111111111111111111111111111111111111111111111111111111", 2),
    ] {
        let expected = i64::from_str_radix(s, radix).ok();
        assert_eq!(parse_i64_radix(&cs(s), radix), expected, "for {s} radix {radix}");
    }
}

#[test]
fn radix_digits_match_formatting() {
    for n in [0i64, 1, 15, 255, 4096, i64::MAX, -1, -255, i64::MIN] {
        let u = i64_to_u64_twos(n);
        let hex: String = radix_digits(u, 16).iter().collect();
        assert_eq!(hex, format!("{n:X}"), "hex of {n}");
        let bin: String = radix_digits(u, 2).iter().collect();
        assert_eq!(bin, format!("{n:b}"), "bin of {n}");
    }
}

#[test]
fn format_real_decimal_modes() {
    let text = RealText {
        plain: cs("2500000"),
        sci: cs("2.500e6"),
    };
    let v = Real::from_bits(2500000.0f64.to_bits());
    let plain: String = format_real_with(BaseMode::Decimal, false, v, &text)
        .iter()
        .collect();
    assert_eq!(plain, "2500000");
    let sci: String = format_real_with(BaseMode::Decimal, true, v, &text)
        .iter()
        .collect();
    assert_eq!(sci, "2.500e6");
    let small = Real::from_bits(42.0f64.to_bits());
    let small_text = RealText {
        plain: cs("42"),
        sci: cs("4.200e1"),
    };
    let still_plain: String = format_real_with(BaseMode::Decimal, true, small, &small_text)
        .iter()
        .collect();
    assert_eq!(still_plain, "42");
}

#[test]
fn format_real_integer_bases() {
    let v = Real::from_bits(255.0f64.to_bits());
    let text = RealText {
        plain: cs("255"),
        sci: cs("2.550e2"),
    };
    let hex: String = format_real_with(BaseMode::Hexadecimal, false, v, &text)
        .iter()
        .collect();
    assert_eq!(hex, "0xFF");
    let bin: String = format_real_with(BaseMode::Binary, false, v, &text)
        .iter()
        .collect();
    assert_eq!(bin, "0b11111111");
}

#[test]
fn format_real_fractional_base_falls_back() {
    let v = Real::from_bits(3.5f64.to_bits());
    let text = RealText {
        plain: cs("3.5"),
        sci: cs("3.500e0"),
    };
    let hex: String = format_real_with(BaseMode::Hexadecimal, false, v, &text)
        .iter()
        .collect();
    assert_eq!(hex, "3.5 (hex: 0x3)");
    let bin: String = format_real_with(BaseMode::Binary, false, v, &text)
        .iter()
        .collect();
    assert_eq!(bin, "3.5 (bin: 0b11)");
}

#[test]
fn format_real_negative_integer_base_shows_twos_complement() {
    let v = Real::from_bits((-1.0f64).to_bits());
    let text = RealText {
        plain: cs("-1"),
        sci: cs("-1.000e0"),
    };
    let hex: String = format_real_with(BaseMode::Hexadecimal, false, v, &text)
        .iter()
        .collect();
    assert_eq!(hex, format!("0x{:X}", -1i64));
}

#[test]
fn truncate_string_shortens_with_ellipsis() {
    assert_eq!(truncate_string("hello world", 8), "hello...");
    assert_eq!(truncate_string("hello", 8), "hello");
    assert_eq!(truncate_string("hello world", 2), "hello world");
    assert_eq!(truncate_string("abc", 3), "abc");
    assert_eq!(truncate_string("abcd", 3), "...");
}

#[test]
fn history_line_parts() {
    let line = cs("5 + 5 = 10");
    let expr: String = before_sep(&line).iter().collect();
    assert_eq!(expr, "5 + 5");
    let result: String = recall_text(&line).unwrap().iter().collect();
    assert_eq!(result, "10");
    assert_eq!(recall_text(&cs("just a number")), None);
    let plain = cs("42");
    let whole: String = before_sep(&plain).iter().collect();
    assert_eq!(whole, "42");
}

#[test]
fn trim_strips_ascii_whitespace() {
    let t: String = trim_chars(&cs("  42\t")).iter().collect();
    assert_eq!(t, "42");
    let empty: String = trim_chars(&cs("   ")).iter().collect();
    assert_eq!(empty, "");
    let un: String = trim_chars(&cs("4 2")).iter().collect();
    assert_eq!(un, "4 2");
}
