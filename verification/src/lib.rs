//! Core of a stack-based terminal calculator.
//!
//! The crate verifies the expression engine: tokenizer, operator-precedence
//! conversion to postfix, the postfix evaluation state machine, and the
//! stack/history engine with its capacity bounds and browsing cursors.
//!
//! Numeric values are IEEE-754 double-precision numbers, modelled here by
//! their 64-bit patterns; see [`value`]. All floating-point computation
//! (arithmetic, decimal parsing and decimal rendering) is performed by the
//! caller, which feeds results back in as plain values, so every decision the
//! engine makes about them is verified.

pub mod calculator;
pub mod eval;
pub mod format;
pub mod postfix;
pub mod radix;
pub mod text;
pub mod token;
pub mod value;
