//! The calculator engine: modes, errors, and the stack/history state with
//! its operations.
//!
//! The engine owns every mutation of the value stack, the history, the
//! input buffer, the browsing cursors and the single error slot. Work that
//! needs floating-point computation (decimal parsing, arithmetic, decimal
//! rendering) is returned to the caller as an [`Action`]; the caller
//! computes and feeds the plain result back through the matching `commit`
//! method, whose contract pins down the whole state change.

use vstd::prelude::*;
use crate::eval::{Evaluation, EvaluationModel};
use crate::format::{format_real_with, spec_format_real, RealText};
use crate::radix::{parse_i64_radix, spec_parse_i64_radix};
use crate::text::{
    before_sep, chars_of, clone_chars, recall_text, spec_before_sep, spec_is_prefix,
    spec_recall_text, spec_trim, starts_with, subrange_chars, trim_chars,
};
use crate::token::{spec_is_num_char, spec_is_op_char, spec_tokenize, TokenModel};
use crate::postfix::spec_to_postfix;
use crate::value::{
    f64_bits_of_i64, spec_as_real, spec_f64_bits_of_i64, spec_is_zero, spec_negate, Real,
    StackValue,
};

verus! {

/// Most entries the value stack may hold; the oldest entry leaves before a
/// push that would exceed it.
pub const MAX_STACK_SIZE: usize = 1000;

/// Most lines the history may hold, with the same eviction rule.
pub const MAX_HISTORY_SIZE: usize = 1000;

/// Angle unit used when a phase is displayed.
#[derive(Debug, Clone, Copy, PartialEq, Eq, Structural)]
pub enum AngleMode {
    Radians,
    Degrees,
}

/// Numeric base used for parsing committed numbers and for display.
#[derive(Debug, Clone, Copy, PartialEq, Eq, Structural)]
pub enum BaseMode {
    Decimal,
    Hexadecimal,
    Binary,
}

/// Display form for complex values.
#[derive(Debug, Clone, Copy, PartialEq, Eq, Structural)]
pub enum ComplexMode {
    Rectangular,
    Polar,
}

/// Input discipline: commit-per-number stack entry, or buffered expressions.
#[derive(Debug, Clone, Copy, PartialEq, Eq, Structural)]
pub enum CalculatorMode {
    RPN,
    Infix,
}

/// Everything that can go wrong in the engine; surfaced as a message in the
/// engine's single error slot, never as a panic.
#[derive(Debug, Clone, Copy, PartialEq, Eq, Structural)]
pub enum CalculatorError {
    InvalidExpression,
    DivisionByZero,
    UnknownOperator,
    MismatchedParentheses,
    StackUnderflow,
    InvalidBase,
    InvalidComplex,
}

/// The user-readable message for each error kind.
pub open spec fn spec_message(e: CalculatorError) -> Seq<char> {
    match e {
        CalculatorError::InvalidExpression => "Invalid expression"@,
        CalculatorError::DivisionByZero => "Division by zero"@,
        CalculatorError::UnknownOperator => "Unknown operator"@,
        CalculatorError::MismatchedParentheses => "Mismatched parentheses"@,
        CalculatorError::StackUnderflow => "Stack underflow"@,
        CalculatorError::InvalidBase => "Invalid number for current base"@,
        CalculatorError::InvalidComplex => "Invalid complex number"@,
    }
}

impl CalculatorError {
    /// The user-readable message for this error kind.
    pub fn message(&self) -> (r: String)
        ensures
            r@ == spec_message(*self),
    {
        match self {
            CalculatorError::InvalidExpression => String::from_str("Invalid expression"),
            CalculatorError::DivisionByZero => String::from_str("Division by zero"),
            CalculatorError::UnknownOperator => String::from_str("Unknown operator"),
            CalculatorError::MismatchedParentheses => String::from_str("Mismatched parentheses"),
            CalculatorError::StackUnderflow => String::from_str("Stack underflow"),
            CalculatorError::InvalidBase => String::from_str("Invalid number for current base"),
            CalculatorError::InvalidComplex => String::from_str("Invalid complex number"),
        }
    }
}

/// One computed entry: the infix text that produced the value (possibly
/// synthesized for derived results), and the value.
pub struct StackEntry {
    pub expression: Vec<char>,
    pub result: StackValue,
}

/// The mathematical shape of a stack entry.
pub struct EntryModel {
    pub expression: Seq<char>,
    pub result: StackValue,
}

impl DeepView for StackEntry {
    type V = EntryModel;

    open spec fn deep_view(&self) -> EntryModel {
        EntryModel { expression: self.expression@, result: self.result }
    }
}

/// A copy of the entry, with the same expression text and value.
pub fn clone_entry(e: &StackEntry) -> (r: StackEntry)
    ensures
        r.deep_view() == e.deep_view(),
{
    StackEntry { expression: clone_chars(&e.expression), result: e.result }
}

/// The whole engine state, in mathematical form.
pub struct CalcModel {
    pub input: Seq<char>,
    pub stack: Seq<EntryModel>,
    pub error: Option<Seq<char>>,
    pub history: Seq<Seq<char>>,
    pub history_position: usize,
    pub show_help: bool,
    pub angle_mode: AngleMode,
    pub base_mode: BaseMode,
    pub complex_mode: ComplexMode,
    pub stack_position: usize,
    pub abbreviation_mode: bool,
    pub mode: CalculatorMode,
    pub show_theme_selector: bool,
}

/// The calculator engine: input buffer, value stack, history, cursors,
/// modes, and the single error slot.
pub struct Calculator {
    pub input: Vec<char>,
    pub stack: Vec<StackEntry>,
    pub error: Option<Vec<char>>,
    pub history: Vec<Vec<char>>,
    pub history_position: usize,
    pub show_help: bool,
    pub angle_mode: AngleMode,
    pub base_mode: BaseMode,
    pub complex_mode: ComplexMode,
    pub stack_position: usize,
    pub abbreviation_mode: bool,
    pub mode: CalculatorMode,
    pub show_theme_selector: bool,
}

impl View for Calculator {
    type V = CalcModel;

    open spec fn view(&self) -> CalcModel {
        CalcModel {
            input: self.input@,
            stack: self.stack.deep_view(),
            error: match self.error {
                Some(ref v) => Some(v@),
                None => None,
            },
            history: self.history.deep_view(),
            history_position: self.history_position,
            show_help: self.show_help,
            angle_mode: self.angle_mode,
            base_mode: self.base_mode,
            complex_mode: self.complex_mode,
            stack_position: self.stack_position,
            abbreviation_mode: self.abbreviation_mode,
            mode: self.mode,
            show_theme_selector: self.show_theme_selector,
        }
    }
}

/// A sequence at its capacity sheds its oldest element to make room.
pub open spec fn spec_evict<T>(s: Seq<T>, cap: int) -> Seq<T> {
    if s.len() >= cap {
        s.drop_first()
    } else {
        s
    }
}

/// The state after moving the stack cursor one entry up.
pub open spec fn spec_browse_stack_up(m: CalcModel) -> CalcModel {
    CalcModel {
        stack_position: if m.stack_position > 0 {
            (m.stack_position - 1) as usize
        } else {
            0usize
        },
        ..m
    }
}

/// The state after moving the stack cursor one entry down.
pub open spec fn spec_browse_stack_down(m: CalcModel) -> CalcModel {
    CalcModel {
        stack_position: if m.stack.len() > 0 && m.stack_position < m.stack.len() - 1 {
            (m.stack_position + 1) as usize
        } else {
            m.stack_position
        },
        ..m
    }
}

/// The state after moving the history cursor one line back: the cursor
/// stops at 0, and the selected line's expression part replaces the input
/// buffer; an empty history leaves everything unchanged.
pub open spec fn spec_browse_history_up(m: CalcModel) -> CalcModel {
    if m.history.len() == 0 {
        m
    } else {
        let pos = if m.history_position > 0 {
            m.history_position - 1
        } else {
            0int
        };
        CalcModel {
            history_position: pos as usize,
            input: spec_before_sep(m.history[pos]),
            error: None::<Seq<char>>,
            ..m
        }
    }
}

/// The state after moving the history cursor one line forward: within the
/// history the selected line's expression part replaces the input buffer;
/// moving past the newest line parks the cursor at the length and clears
/// the buffer; an empty history leaves everything unchanged.
pub open spec fn spec_browse_history_down(m: CalcModel) -> CalcModel {
    if m.history.len() == 0 {
        m
    } else if m.history_position < m.history.len() - 1 {
        CalcModel {
            history_position: (m.history_position + 1) as usize,
            input: spec_before_sep(m.history[m.history_position + 1]),
            error: None::<Seq<char>>,
            ..m
        }
    } else {
        CalcModel {
            history_position: m.history.len() as usize,
            input: Seq::<char>::empty(),
            error: None::<Seq<char>>,
            ..m
        }
    }
}

/// Browsing never moves a cursor out of range, however often it is called
/// at a boundary: from any state whose stack cursor is on an entry (or 0
/// when the stack is empty) and whose history cursor is within `[0, len]`
/// (`len` meaning no selection), each browsing step leaves both cursors in
/// those same ranges, and a cursor at a boundary stays put rather than
/// leaving it.
pub proof fn lemma_browse_cursors_in_range(m: CalcModel)
    requires
        m.stack.len() == 0 ==> m.stack_position == 0,
        m.stack.len() > 0 ==> m.stack_position < m.stack.len(),
        m.history_position <= m.history.len(),
    ensures
        ({
            let u = spec_browse_stack_up(m);
            &&& u.stack.len() == 0 ==> u.stack_position == 0
            &&& u.stack.len() > 0 ==> u.stack_position < u.stack.len()
        }),
        ({
            let d = spec_browse_stack_down(m);
            &&& d.stack.len() == 0 ==> d.stack_position == 0
            &&& d.stack.len() > 0 ==> d.stack_position < d.stack.len()
        }),
        spec_browse_history_up(m).history_position <= spec_browse_history_up(m).history.len(),
        spec_browse_history_down(m).history_position <= spec_browse_history_down(m).history.len(),
        m.stack_position == 0 ==> spec_browse_stack_up(m).stack_position == 0,
        m.stack.len() > 0 && m.stack_position == m.stack.len() - 1
            ==> spec_browse_stack_down(m).stack_position == m.stack.len() - 1,
        m.history_position == 0 && m.history.len() > 0
            ==> spec_browse_history_up(m).history_position == 0,
        m.history_position >= m.history.len() && m.history.len() > 0
            ==> spec_browse_history_down(m).history_position == m.history.len(),
{
}

impl Calculator {
    /// Well-formedness: both bounded collections respect their capacity,
    /// the history cursor is within `[0, len]` (`len` meaning no
    /// selection), and the stack cursor points at an entry (0 when empty).
    pub open spec fn wf(&self) -> bool {
        &&& self@.stack.len() <= MAX_STACK_SIZE
        &&& self@.history.len() <= MAX_HISTORY_SIZE
        &&& self@.history_position <= self@.history.len()
        &&& self@.stack_position < MAX_STACK_SIZE
    }

    /// A fresh engine: everything empty, radians, decimal, rectangular,
    /// RPN.
    pub fn new() -> (r: Calculator)
        ensures
            r.wf(),
            r@.input == Seq::<char>::empty(),
            r@.stack == Seq::<EntryModel>::empty(),
            r@.error is None,
            r@.history == Seq::<Seq<char>>::empty(),
            r@.history_position == 0,
            r@.show_help == false,
            r@.angle_mode == AngleMode::Radians,
            r@.base_mode == BaseMode::Decimal,
            r@.complex_mode == ComplexMode::Rectangular,
            r@.stack_position == 0,
            r@.abbreviation_mode == false,
            r@.mode == CalculatorMode::RPN,
            r@.show_theme_selector == false,
    {
        let r = Calculator {
            input: Vec::new(),
            stack: Vec::new(),
            error: None,
            history: Vec::new(),
            history_position: 0,
            show_help: false,
            angle_mode: AngleMode::Radians,
            base_mode: BaseMode::Decimal,
            complex_mode: ComplexMode::Rectangular,
            stack_position: 0,
            abbreviation_mode: false,
            mode: CalculatorMode::RPN,
            show_theme_selector: false,
        };
        proof {
            assert(r@.input =~= Seq::<char>::empty());
            assert(r@.stack =~= Seq::<EntryModel>::empty());
            assert(r@.history =~= Seq::<Seq<char>>::empty());
        }
        r
    }

    /// Removes the last buffered character and clears any error.
    pub fn backspace(&mut self)
        requires
            old(self).wf(),
        ensures
            final(self).wf(),
            final(self)@ == (CalcModel {
                input: if old(self)@.input.len() > 0 {
                    old(self)@.input.drop_last()
                } else {
                    old(self)@.input
                },
                error: None::<Seq<char>>,
                ..old(self)@
            }),
    {
        self.input.pop();
        self.error = None;
    }

    /// Empties the input buffer and clears any error.
    pub fn clear_input(&mut self)
        requires
            old(self).wf(),
        ensures
            final(self).wf(),
            final(self)@ == (CalcModel {
                input: Seq::<char>::empty(),
                error: None::<Seq<char>>,
                ..old(self)@
            }),
    {
        self.input.clear();
        self.error = None;
    }

    /// Empties input, stack and history, clears the error, and resets both
    /// cursors.
    pub fn clear_all(&mut self)
        requires
            old(self).wf(),
        ensures
            final(self).wf(),
            final(self)@ == (CalcModel {
                input: Seq::<char>::empty(),
                stack: Seq::<EntryModel>::empty(),
                error: None::<Seq<char>>,
                history: Seq::<Seq<char>>::empty(),
                stack_position: 0usize,
                history_position: 0usize,
                ..old(self)@
            }),
    {
        self.input.clear();
        self.stack.clear();
        self.error = None;
        self.history.clear();
        self.stack_position = 0;
        self.history_position = 0;
        proof {
            assert(self.stack.deep_view() =~= Seq::<EntryModel>::empty());
            assert(self.history.deep_view() =~= Seq::<Seq<char>>::empty());
        }
    }

    /// Shows or hides the help screen.
    pub fn toggle_help(&mut self)
        requires
            old(self).wf(),
        ensures
            final(self).wf(),
            final(self)@ == (CalcModel { show_help: !old(self)@.show_help, ..old(self)@ }),
    {
        self.show_help = !self.show_help;
    }

    /// Switches between radians and degrees.
    pub fn toggle_angle_mode(&mut self)
        requires
            old(self).wf(),
        ensures
            final(self).wf(),
            final(self)@ == (CalcModel {
                angle_mode: if old(self)@.angle_mode is Radians {
                    AngleMode::Degrees
                } else {
                    AngleMode::Radians
                },
                ..old(self)@
            }),
    {
        self.angle_mode = match self.angle_mode {
            AngleMode::Radians => AngleMode::Degrees,
            AngleMode::Degrees => AngleMode::Radians,
        };
    }

    /// Cycles decimal, hexadecimal, binary.
    pub fn cycle_base_mode(&mut self)
        requires
            old(self).wf(),
        ensures
            final(self).wf(),
            final(self)@ == (CalcModel {
                base_mode: match old(self)@.base_mode {
                    BaseMode::Decimal => BaseMode::Hexadecimal,
                    BaseMode::Hexadecimal => BaseMode::Binary,
                    BaseMode::Binary => BaseMode::Decimal,
                },
                ..old(self)@
            }),
    {
        self.base_mode = match self.base_mode {
            BaseMode::Decimal => BaseMode::Hexadecimal,
            BaseMode::Hexadecimal => BaseMode::Binary,
            BaseMode::Binary => BaseMode::Decimal,
        };
    }

    /// Switches between rectangular and polar display.
    pub fn toggle_complex_mode(&mut self)
        requires
            old(self).wf(),
        ensures
            final(self).wf(),
            final(self)@ == (CalcModel {
                complex_mode: if old(self)@.complex_mode is Rectangular {
                    ComplexMode::Polar
                } else {
                    ComplexMode::Rectangular
                },
                ..old(self)@
            }),
    {
        self.complex_mode = match self.complex_mode {
            ComplexMode::Rectangular => ComplexMode::Polar,
            ComplexMode::Polar => ComplexMode::Rectangular,
        };
    }

    /// Toggles abbreviated (scientific) display of large magnitudes.
    pub fn toggle_abbreviation(&mut self)
        requires
            old(self).wf(),
        ensures
            final(self).wf(),
            final(self)@ == (CalcModel {
                abbreviation_mode: !old(self)@.abbreviation_mode,
                ..old(self)@
            }),
    {
        self.abbreviation_mode = !self.abbreviation_mode;
    }

    /// Switches between RPN and infix entry, clearing the input buffer and
    /// any error.
    pub fn toggle_mode(&mut self)
        requires
            old(self).wf(),
        ensures
            final(self).wf(),
            final(self)@ == (CalcModel {
                mode: if old(self)@.mode is RPN {
                    CalculatorMode::Infix
                } else {
                    CalculatorMode::RPN
                },
                input: Seq::<char>::empty(),
                error: None::<Seq<char>>,
                ..old(self)@
            }),
    {
        self.mode = match self.mode {
            CalculatorMode::RPN => CalculatorMode::Infix,
            CalculatorMode::Infix => CalculatorMode::RPN,
        };
        self.error = None;
        self.input.clear();
    }

    /// Shows or hides the theme selector.
    pub fn toggle_theme_selector(&mut self)
        requires
            old(self).wf(),
        ensures
            final(self).wf(),
            final(self)@ == (CalcModel {
                show_theme_selector: !old(self)@.show_theme_selector,
                ..old(self)@
            }),
    {
        self.show_theme_selector = !self.show_theme_selector;
    }

    /// Removes the top entry, clamping the stack cursor; a no-op on an
    /// empty stack.
    pub fn drop(&mut self)
        requires
            old(self).wf(),
        ensures
            final(self).wf(),
            old(self)@.stack.len() == 0 ==> final(self)@ == old(self)@,
            old(self)@.stack.len() > 0 ==> final(self)@ == (CalcModel {
                stack: old(self)@.stack.drop_last(),
                stack_position: if old(self)@.stack.len() <= 1 {
                    0usize
                } else if old(self)@.stack_position < old(self)@.stack.len() - 1 {
                    old(self)@.stack_position
                } else {
                    (old(self)@.stack.len() - 2) as usize
                },
                ..old(self)@
            }),
    {
        if self.stack.len() > 0 {
            let ghost olds = self.stack.deep_view();
            self.stack.pop();
            proof {
                assert(self.stack.deep_view() =~= olds.drop_last());
            }
            let bound = if self.stack.len() > 0 {
                self.stack.len() - 1
            } else {
                0
            };
            if self.stack_position > bound {
                self.stack_position = bound;
            }
        }
    }

    /// Exchanges the top two entries; a no-op with fewer than two.
    pub fn swap(&mut self)
        requires
            old(self).wf(),
        ensures
            final(self).wf(),
            old(self)@.stack.len() < 2 ==> final(self)@ == old(self)@,
            old(self)@.stack.len() >= 2 ==> final(self)@ == (CalcModel {
                stack: old(self)@.stack.update(
                    old(self)@.stack.len() - 2,
                    old(self)@.stack.last(),
                ).update(old(self)@.stack.len() - 1, old(self)@.stack[old(self)@.stack.len() - 2]),
                ..old(self)@
            }),
    {
        if self.stack.len() >= 2 {
            let ghost olds = self.stack.deep_view();
            let b = self.stack.pop();
            let a = self.stack.pop();
            match (a, b) {
                (Some(a), Some(b)) => {
                    self.stack.push(b);
                    self.stack.push(a);
                    proof {
                        assert(self.stack.deep_view() =~= olds.update(
                            olds.len() - 2,
                            olds.last(),
                        ).update(olds.len() - 1, olds[olds.len() - 2]));
                    }
                },
                _ => {
                    proof {
                        assert(false);
                    }
                },
            }
        }
    }

    /// Pushes a copy of the top entry (shedding the oldest entry at
    /// capacity); a no-op on an empty stack.
    pub fn duplicate(&mut self)
        requires
            old(self).wf(),
        ensures
            final(self).wf(),
            old(self)@.stack.len() == 0 ==> final(self)@ == old(self)@,
            old(self)@.stack.len() > 0 ==> final(self)@ == (CalcModel {
                stack: spec_evict(old(self)@.stack, MAX_STACK_SIZE as int).push(
                    old(self)@.stack.last(),
                ),
                ..old(self)@
            }),
    {
        if self.stack.len() > 0 {
            let top = clone_entry(&self.stack[self.stack.len() - 1]);
            let ghost olds = self.stack.deep_view();
            if self.stack.len() >= MAX_STACK_SIZE {
                self.stack.remove(0);
                proof {
                    assert(self.stack.deep_view() =~= olds.drop_first());
                }
            }
            let ghost evicted = self.stack.deep_view();
            self.stack.push(top);
            proof {
                assert(self.stack.deep_view() =~= evicted.push(olds.last()));
            }
        }
    }

    /// Moves the stack cursor one entry up (toward index 0).
    pub fn browse_stack_up(&mut self)
        requires
            old(self).wf(),
        ensures
            final(self).wf(),
            final(self)@ == spec_browse_stack_up(old(self)@),
    {
        if self.stack_position > 0 {
            self.stack_position = self.stack_position - 1;
        }
    }

    /// Moves the stack cursor one entry down, staying on the last entry.
    pub fn browse_stack_down(&mut self)
        requires
            old(self).wf(),
        ensures
            final(self).wf(),
            final(self)@ == spec_browse_stack_down(old(self)@),
    {
        let bound = if self.stack.len() > 0 {
            self.stack.len() - 1
        } else {
            0
        };
        if self.stack_position < bound {
            self.stack_position = self.stack_position + 1;
        }
    }

    /// Moves the history cursor one line back and copies that line's
    /// expression part into the input buffer, clearing any error; a no-op
    /// on an empty history.
    pub fn browse_history_up(&mut self)
        requires
            old(self).wf(),
        ensures
            final(self).wf(),
            final(self)@ == spec_browse_history_up(old(self)@),
    {
        if self.history.len() == 0 {
            return ;
        }
        if self.history_position > 0 {
            self.history_position = self.history_position - 1;
        }
        proof {
            assert(self.history.deep_view()[self.history_position as int]
                == self.history@[self.history_position as int]@);
        }
        self.input = before_sep(&self.history[self.history_position]);
        self.error = None;
    }

    /// Moves the history cursor one line forward, copying that line's
    /// expression part into the input buffer; moving past the newest line
    /// parks the cursor at the end and clears the buffer instead. Clears
    /// any error; a no-op on an empty history.
    pub fn browse_history_down(&mut self)
        requires
            old(self).wf(),
        ensures
            final(self).wf(),
            final(self)@ == spec_browse_history_down(old(self)@),
    {
        if self.history.len() == 0 {
            return ;
        }
        if self.history_position < self.history.len() - 1 {
            self.history_position = self.history_position + 1;
            proof {
                assert(self.history.deep_view()[self.history_position as int]
                    == self.history@[self.history_position as int]@);
            }
            self.input = before_sep(&self.history[self.history_position]);
        } else {
            self.history_position = self.history.len();
            self.input = Vec::new();
            proof {
                assert(self.input@ =~= Seq::<char>::empty());
            }
        }
        self.error = None;
    }
}

/// A floating-point result computed by the caller: the double, and its two
/// decimal renderings (see [`RealText`]).
pub struct Computed {
    pub value: Real,
    pub plain: Vec<char>,
    pub sci: Vec<char>,
}

/// The mathematical shape of a computed result.
pub struct ComputedModel {
    pub value: Real,
    pub plain: Seq<char>,
    pub sci: Seq<char>,
}

impl DeepView for Computed {
    type V = ComputedModel;

    open spec fn deep_view(&self) -> ComputedModel {
        ComputedModel { value: self.value, plain: self.plain@, sci: self.sci@ }
    }
}

/// The shape of an optional computed result.
pub open spec fn opt_computed_model(c: Option<Computed>) -> Option<ComputedModel> {
    match c {
        Some(cc) => Some(cc.deep_view()),
        None => None,
    }
}

/// What the engine asks its caller to do next. Everything the engine can
/// decide itself is already done when an action is returned; the caller
/// performs the floating-point work and feeds the result back through the
/// matching `commit` method.
pub enum Action {
    /// Nothing left to do.
    Done,
    /// Parse this decimal text as a double and call `commit_number`.
    ParseNumber { text: Vec<char>, then_op: Option<char> },
    /// Parse this recorded result text as a double and call
    /// `commit_recall`.
    ParseRecall { text: Vec<char> },
    /// Parse this text as a double, negate it, render it back to text, and
    /// call `commit_negated`.
    NegateInput { text: Vec<char> },
    /// Run the binary-operator protocol: `binary_operands`, compute, then
    /// `apply_binary`.
    ApplyOp { op: char },
    /// Drive this evaluation, then call `eval_commit` or `eval_failed`.
    Evaluate { eval: Evaluation },
}

/// The mathematical shape of an action.
pub enum ActionModel {
    Done,
    ParseNumber(Seq<char>, Option<char>),
    ParseRecall(Seq<char>),
    NegateInput(Seq<char>),
    ApplyOp(char),
    Evaluate(EvaluationModel),
}

impl DeepView for Action {
    type V = ActionModel;

    open spec fn deep_view(&self) -> ActionModel {
        match self {
            Action::Done => ActionModel::Done,
            Action::ParseNumber { text, then_op } => ActionModel::ParseNumber(text@, *then_op),
            Action::ParseRecall { text } => ActionModel::ParseRecall(text@),
            Action::NegateInput { text } => ActionModel::NegateInput(text@),
            Action::ApplyOp { op } => ActionModel::ApplyOp(*op),
            Action::Evaluate { eval } => ActionModel::Evaluate(eval.deep_view()),
        }
    }
}

/// The state with an error recorded and nothing else changed.
pub open spec fn spec_with_error(m: CalcModel, e: CalculatorError) -> CalcModel {
    CalcModel { error: Some(spec_message(e)), ..m }
}

/// The state after duplicating the top entry (a no-op on an empty stack).
pub open spec fn spec_duplicate_model(m: CalcModel) -> CalcModel {
    if m.stack.len() == 0 {
        m
    } else {
        CalcModel {
            stack: spec_evict(m.stack, MAX_STACK_SIZE as int).push(m.stack.last()),
            ..m
        }
    }
}

/// The state after committing a number: the entry joins the stack and its
/// expression joins the history (each shedding its oldest element at
/// capacity), the history cursor parks at the end, the input clears, and
/// any error clears.
pub open spec fn spec_after_push_number(m: CalcModel, expr: Seq<char>, v: StackValue) -> CalcModel {
    let hist = spec_evict(m.history, MAX_HISTORY_SIZE as int).push(expr);
    CalcModel {
        stack: spec_evict(m.stack, MAX_STACK_SIZE as int).push(
            EntryModel { expression: expr, result: v },
        ),
        history: hist,
        history_position: hist.len() as usize,
        input: Seq::<char>::empty(),
        error: None::<Seq<char>>,
        ..m
    }
}

/// Capacity is an invariant, not a limit on pushing: committing a number
/// onto a full stack (or full history) keeps the length at the bound and
/// shifts every entry down one place — the oldest entry is the one that
/// leaves — while below the bound the length simply grows by one.
pub proof fn lemma_capacity_eviction(m: CalcModel, expr: Seq<char>, v: StackValue)
    requires
        m.stack.len() <= MAX_STACK_SIZE,
        m.history.len() <= MAX_HISTORY_SIZE,
    ensures
        spec_after_push_number(m, expr, v).stack.len() <= MAX_STACK_SIZE,
        spec_after_push_number(m, expr, v).history.len() <= MAX_HISTORY_SIZE,
        m.stack.len() == MAX_STACK_SIZE ==> {
            let s2 = spec_after_push_number(m, expr, v).stack;
            &&& s2.len() == MAX_STACK_SIZE
            &&& forall|i: int| 0 <= i < MAX_STACK_SIZE - 1 ==> s2[i] == m.stack[i + 1]
        },
        m.stack.len() < MAX_STACK_SIZE ==> {
            let s2 = spec_after_push_number(m, expr, v).stack;
            &&& s2.len() == m.stack.len() + 1
            &&& forall|i: int| 0 <= i < m.stack.len() ==> s2[i] == m.stack[i]
        },
        m.history.len() == MAX_HISTORY_SIZE ==> {
            let h2 = spec_after_push_number(m, expr, v).history;
            &&& h2.len() == MAX_HISTORY_SIZE
            &&& forall|i: int| 0 <= i < MAX_HISTORY_SIZE - 1 ==> h2[i] == m.history[i + 1]
        },
{
}

/// The committed text under a non-decimal base: trimmed, an optional
/// `0x`/`0b` prefix stripped.
pub open spec fn spec_strip_radix_prefix(t: Seq<char>, base: BaseMode) -> Seq<char> {
    match base {
        BaseMode::Hexadecimal => if t.len() >= 2 && t[0] == '0' && t[1] == 'x' {
            t.skip(2)
        } else {
            t
        },
        BaseMode::Binary => if t.len() >= 2 && t[0] == '0' && t[1] == 'b' {
            t.skip(2)
        } else {
            t
        },
        BaseMode::Decimal => t,
    }
}

/// The integer a hex/binary input commits, if it reads as one.
pub open spec fn spec_radix_value(input: Seq<char>, base: BaseMode) -> Option<int> {
    spec_parse_i64_radix(
        spec_strip_radix_prefix(spec_trim(input), base),
        if base is Hexadecimal {
            16u32
        } else {
            2u32
        },
    )
}

/// The first history line the input text is a prefix of, from `i` on.
pub open spec fn find_prefix_from(h: Seq<Seq<char>>, inp: Seq<char>, i: int) -> Option<int>
    decreases h.len() - i,
    when i >= 0
{
    if i >= h.len() {
        None
    } else if spec_is_prefix(inp, h[i]) {
        Some(i)
    } else {
        find_prefix_from(h, inp, i + 1)
    }
}

/// The recorded result recalled by the input text: the first history line
/// it is a prefix of must carry a `" = "` result part.
pub open spec fn spec_find_recall(m: CalcModel) -> Option<Seq<char>> {
    match find_prefix_from(m.history, m.input, 0) {
        None => None,
        Some(k) => spec_recall_text(m.history[k]),
    }
}

/// How committing the buffered number ends, given the state before, the
/// state after, and the returned action: a decimal base hands the text out
/// for parsing (`then_op` rides along); a hex/binary base commits the
/// parsed integer as the nearest double, or records `InvalidBase`, and the
/// pending operator (if any) becomes the next action only on success.
pub open spec fn spec_number_commit_post(
    m: CalcModel,
    m2: CalcModel,
    a: ActionModel,
    then_op: Option<char>,
) -> bool {
    match m.base_mode {
        BaseMode::Decimal => m2 == m && a == ActionModel::ParseNumber(m.input, then_op),
        _ => match spec_radix_value(m.input, m.base_mode) {
            Some(n) => {
                &&& m2 == spec_after_push_number(
                    m,
                    m.input,
                    StackValue::Real(Real { bits: spec_f64_bits_of_i64(n as i64) }),
                )
                &&& match then_op {
                    Some(op) => a == ActionModel::ApplyOp(op),
                    None => a == ActionModel::Done,
                }
            },
            None => m2 == spec_with_error(m, CalculatorError::InvalidBase) && a
                == ActionModel::Done,
        },
    }
}

/// How beginning an infix evaluation ends: a tokenizer failure records
/// `InvalidExpression`, a conversion failure `MismatchedParentheses`
/// (each leaving the input in place for editing), and success hands back a
/// fresh evaluation of the postfix form with the state untouched.
pub open spec fn spec_eval_begin_post(m: CalcModel, m2: CalcModel, a: ActionModel) -> bool {
    match spec_tokenize(m.input) {
        None => m2 == spec_with_error(m, CalculatorError::InvalidExpression) && a
            == ActionModel::Done,
        Some(ts) => match spec_to_postfix(ts) {
            None => m2 == spec_with_error(m, CalculatorError::MismatchedParentheses) && a
                == ActionModel::Done,
            Some(pf) => m2 == m && a == ActionModel::Evaluate(
                EvaluationModel { tokens: pf, pos: 0, vals: Seq::<Real>::empty() },
            ),
        },
    }
}

/// How a binary operation finds the stack: missing an operand, holding a
/// complex operand, about to divide by zero, or ready.
pub enum BinaryCase {
    Underflow,
    ComplexOperand,
    DivideByZero,
    Ready,
}

/// Which of the four cases the stack is in for operator `op`: the top two
/// entries are the operands (`a` below `b`), each must represent a real,
/// and `/` must not see a zero divisor.
pub open spec fn spec_binary_case(m: CalcModel, op: char) -> BinaryCase {
    if m.stack.len() < 2 {
        BinaryCase::Underflow
    } else {
        let a = spec_as_real(m.stack[m.stack.len() - 2].result);
        let b = spec_as_real(m.stack[m.stack.len() - 1].result);
        if a is None || b is None {
            BinaryCase::ComplexOperand
        } else if op == '/' && spec_is_zero(b.unwrap().bits) {
            BinaryCase::DivideByZero
        } else {
            BinaryCase::Ready
        }
    }
}

/// The two real operands of a ready binary operation.
pub open spec fn spec_binary_operands(m: CalcModel) -> (Real, Real) {
    (
        spec_as_real(m.stack[m.stack.len() - 2].result).unwrap(),
        spec_as_real(m.stack[m.stack.len() - 1].result).unwrap(),
    )
}

/// The synthesized expression of a binary result:
/// `(a.expression op b.expression)`.
pub open spec fn spec_binary_expression(m: CalcModel, op: char) -> Seq<char> {
    "("@ + m.stack[m.stack.len() - 2].expression + " "@ + seq![op] + " "@ + m.stack[
        m.stack.len() - 1
    ].expression + ")"@
}

/// The message a complex operand draws: division names itself.
pub open spec fn spec_complex_binary_message(op: char) -> Seq<char> {
    if op == '/' {
        "Complex division not yet implemented"@
    } else {
        "Complex arithmetic not yet implemented"@
    }
}

/// The state after a ready binary operation commits: the two operands are
/// replaced by one entry with the synthesized expression and the computed
/// value, a `expression = formatted` line joins the history (shedding at
/// capacity), and any error clears. The history cursor does not move.
pub open spec fn spec_after_binary(
    m: CalcModel,
    op: char,
    v: Real,
    plain: Seq<char>,
    sci: Seq<char>,
) -> CalcModel {
    let expr = spec_binary_expression(m, op);
    let line = expr + " = "@ + spec_format_real(m.base_mode, m.abbreviation_mode, v.bits, plain, sci);
    CalcModel {
        stack: spec_evict(m.stack.drop_last().drop_last(), MAX_STACK_SIZE as int).push(
            EntryModel { expression: expr, result: StackValue::Real(v) },
        ),
        history: spec_evict(m.history, MAX_HISTORY_SIZE as int).push(line),
        error: None::<Seq<char>>,
        ..m
    }
}

/// How a binary operation ends: each failure case records its message and
/// leaves everything else unchanged; the ready case commits the caller's
/// computed result.
pub open spec fn spec_apply_binary_post(
    m: CalcModel,
    m2: CalcModel,
    op: char,
    c: Option<ComputedModel>,
) -> bool {
    match spec_binary_case(m, op) {
        BinaryCase::Underflow => m2 == spec_with_error(m, CalculatorError::StackUnderflow),
        BinaryCase::ComplexOperand => m2 == (CalcModel {
            error: Some(spec_complex_binary_message(op)),
            ..m
        }),
        BinaryCase::DivideByZero => m2 == spec_with_error(m, CalculatorError::DivisionByZero),
        BinaryCase::Ready => m2 == spec_after_binary(
            m,
            op,
            c.unwrap().value,
            c.unwrap().plain,
            c.unwrap().sci,
        ),
    }
}

/// The state after a successful infix evaluation commits: the input text
/// becomes the new entry's expression, an `input = formatted` line joins
/// the history, the history cursor parks at the end, and input and error
/// clear.
pub open spec fn spec_after_eval_commit(
    m: CalcModel,
    v: Real,
    plain: Seq<char>,
    sci: Seq<char>,
) -> CalcModel {
    let line = m.input + " = "@ + spec_format_real(
        m.base_mode,
        m.abbreviation_mode,
        v.bits,
        plain,
        sci,
    );
    let hist = spec_evict(m.history, MAX_HISTORY_SIZE as int).push(line);
    CalcModel {
        stack: spec_evict(m.stack, MAX_STACK_SIZE as int).push(
            EntryModel { expression: m.input, result: StackValue::Real(v) },
        ),
        history: hist,
        history_position: hist.len() as usize,
        input: Seq::<char>::empty(),
        error: None::<Seq<char>>,
        ..m
    }
}

/// The message an unsupported character draws in RPN entry.
pub open spec fn spec_msg_invalid_input(c: char) -> Seq<char> {
    "Invalid input: '"@ + seq![c] + "'"@
}

/// The message an unsupported character draws in infix entry.
pub open spec fn spec_msg_invalid_infix(c: char) -> Seq<char> {
    "Invalid character '"@ + seq![c] + "' for infix mode."@
}

/// A character infix entry buffers: digits, dot, operators, parentheses.
pub open spec fn spec_is_infix_char(c: char) -> bool {
    spec_is_num_char(c) || spec_is_op_char(c) || c == '(' || c == ')'
}

/// The message text for an error kind.
pub fn message_chars(e: CalculatorError) -> (r: Vec<char>)
    ensures
        r@ == spec_message(e),
{
    match e {
        CalculatorError::InvalidExpression => chars_of("Invalid expression"),
        CalculatorError::DivisionByZero => chars_of("Division by zero"),
        CalculatorError::UnknownOperator => chars_of("Unknown operator"),
        CalculatorError::MismatchedParentheses => chars_of("Mismatched parentheses"),
        CalculatorError::StackUnderflow => chars_of("Stack underflow"),
        CalculatorError::InvalidBase => chars_of("Invalid number for current base"),
        CalculatorError::InvalidComplex => chars_of("Invalid complex number"),
    }
}

impl Calculator {
    /// Pushes an entry, shedding the oldest at capacity.
    fn push_entry_evict(&mut self, e: StackEntry)
        requires
            old(self).wf(),
        ensures
            final(self).wf(),
            final(self)@ == (CalcModel {
                stack: spec_evict(old(self)@.stack, MAX_STACK_SIZE as int).push(e.deep_view()),
                ..old(self)@
            }),
    {
        let ghost olds = self.stack.deep_view();
        if self.stack.len() >= MAX_STACK_SIZE {
            self.stack.remove(0);
            proof {
                assert(self.stack.deep_view() =~= olds.drop_first());
            }
        }
        let ghost evicted = self.stack.deep_view();
        self.stack.push(e);
        proof {
            assert(self.stack.deep_view() =~= evicted.push(e.deep_view()));
        }
    }

    /// Appends a history line, shedding the oldest at capacity. The cursor
    /// does not move.
    fn push_history_evict(&mut self, line: Vec<char>)
        requires
            old(self).wf(),
        ensures
            final(self).wf(),
            final(self)@ == (CalcModel {
                history: spec_evict(old(self)@.history, MAX_HISTORY_SIZE as int).push(line@),
                ..old(self)@
            }),
    {
        let ghost oldh = self.history.deep_view();
        if self.history.len() >= MAX_HISTORY_SIZE {
            self.history.remove(0);
            proof {
                assert(self.history.deep_view() =~= oldh.drop_first());
            }
        }
        let ghost evicted = self.history.deep_view();
        self.history.push(line);
        proof {
            assert(self.history.deep_view() =~~= evicted.push(line@));
        }
    }

    /// Commits the buffered text as a number entry: it joins the stack and
    /// the history, the history cursor parks at the end, and the buffer
    /// and error clear.
    fn commit_parsed_number(&mut self, v: StackValue)
        requires
            old(self).wf(),
        ensures
            final(self).wf(),
            final(self)@ == spec_after_push_number(old(self)@, old(self)@.input, v),
    {
        let expr = clone_chars(&self.input);
        let line = clone_chars(&self.input);
        self.push_entry_evict(StackEntry { expression: expr, result: v });
        self.push_history_evict(line);
        self.history_position = self.history.len();
        self.input.clear();
        self.error = None;
        proof {
            assert(self.input@ =~= Seq::<char>::empty());
        }
    }

    /// Reads the buffered text as an integer of the current (hex or
    /// binary) base and commits it as the nearest double; an unreadable
    /// text records `InvalidBase` and leaves everything else in place.
    fn commit_input_radix(&mut self) -> (ok: bool)
        requires
            old(self).wf(),
            old(self)@.base_mode is Hexadecimal || old(self)@.base_mode is Binary,
        ensures
            final(self).wf(),
            match spec_radix_value(old(self)@.input, old(self)@.base_mode) {
                Some(n) => ok && final(self)@ == spec_after_push_number(
                    old(self)@,
                    old(self)@.input,
                    StackValue::Real(Real { bits: spec_f64_bits_of_i64(n as i64) }),
                ),
                None => !ok && final(self)@ == spec_with_error(
                    old(self)@,
                    CalculatorError::InvalidBase,
                ),
            },
    {
        let trimmed = trim_chars(&self.input);
        let prefix_char = match self.base_mode {
            BaseMode::Hexadecimal => 'x',
            BaseMode::Binary => 'b',
            BaseMode::Decimal => 'x',
        };
        let radix: u32 = match self.base_mode {
            BaseMode::Hexadecimal => 16,
            BaseMode::Binary => 2,
            BaseMode::Decimal => 16,
        };
        let stripped = if trimmed.len() >= 2 && trimmed[0] == '0' && trimmed[1] == prefix_char {
            subrange_chars(&trimmed, 2, trimmed.len())
        } else {
            trimmed
        };
        proof {
            assert(stripped@ =~= spec_strip_radix_prefix(spec_trim(self.input@), self.base_mode));
        }
        match parse_i64_radix(&stripped, radix) {
            Some(n) => {
                let bits = f64_bits_of_i64(n);
                self.commit_parsed_number(StackValue::Real(Real { bits: bits }));
                true
            },
            None => {
                self.error = Some(message_chars(CalculatorError::InvalidBase));
                false
            },
        }
    }

    /// Starts committing the buffered number, with `then_op` to apply
    /// afterwards: a decimal base asks the caller to parse; a hex/binary
    /// base commits (or fails) here.
    fn number_action(&mut self, then_op: Option<char>) -> (r: Action)
        requires
            old(self).wf(),
        ensures
            final(self).wf(),
            spec_number_commit_post(old(self)@, final(self)@, r.deep_view(), then_op),
    {
        match self.base_mode {
            BaseMode::Decimal => Action::ParseNumber {
                text: clone_chars(&self.input),
                then_op,
            },
            _ => {
                let ok = self.commit_input_radix();
                if ok {
                    match then_op {
                        Some(op) => Action::ApplyOp { op },
                        None => Action::Done,
                    }
                } else {
                    Action::Done
                }
            },
        }
    }

    /// Commits the caller's decimal parse of the buffered text: a number
    /// joins the stack and history; an unparseable text records
    /// `InvalidExpression`, and any pending operator is dropped.
    pub fn commit_number(&mut self, parsed: Option<Real>, then_op: Option<char>) -> (r: Action)
        requires
            old(self).wf(),
        ensures
            final(self).wf(),
            match parsed {
                Some(v) => {
                    &&& final(self)@ == spec_after_push_number(
                        old(self)@,
                        old(self)@.input,
                        StackValue::Real(v),
                    )
                    &&& match then_op {
                        Some(op) => r.deep_view() == ActionModel::ApplyOp(op),
                        None => r.deep_view() == ActionModel::Done,
                    }
                },
                None => {
                    &&& final(self)@ == spec_with_error(
                        old(self)@,
                        CalculatorError::InvalidExpression,
                    )
                    &&& r.deep_view() == ActionModel::Done
                },
            },
    {
        match parsed {
            Some(v) => {
                self.commit_parsed_number(StackValue::Real(v));
                match then_op {
                    Some(op) => Action::ApplyOp { op },
                    None => Action::Done,
                }
            },
            None => {
                self.error = Some(message_chars(CalculatorError::InvalidExpression));
                Action::Done
            },
        }
    }

    /// Commits the caller's parse of a recalled result: the parsed value
    /// is pushed directly, with the recalled text as its expression and no
    /// new history line; a text that does not parse falls back to the
    /// ordinary number commit.
    pub fn commit_recall(&mut self, text: Vec<char>, parsed: Option<Real>) -> (r: Action)
        requires
            old(self).wf(),
        ensures
            final(self).wf(),
            match parsed {
                Some(v) => {
                    &&& final(self)@ == (CalcModel {
                        stack: spec_evict(old(self)@.stack, MAX_STACK_SIZE as int).push(
                            EntryModel { expression: text@, result: StackValue::Real(v) },
                        ),
                        input: Seq::<char>::empty(),
                        error: None::<Seq<char>>,
                        ..old(self)@
                    })
                    &&& r.deep_view() == ActionModel::Done
                },
                None => spec_number_commit_post(old(self)@, final(self)@, r.deep_view(), None),
            },
    {
        match parsed {
            Some(v) => {
                self.push_entry_evict(StackEntry { expression: text, result: StackValue::Real(v) });
                self.input.clear();
                self.error = None;
                proof {
                    assert(self.input@ =~= Seq::<char>::empty());
                }
                Action::Done
            },
            None => self.number_action(None),
        }
    }

    /// Routes one typed character. RPN entry buffers digits and dots,
    /// intercepts operators (committing any pending number first), and
    /// rejects anything else; infix entry buffers its whole character set
    /// and rejects the rest.
    pub fn handle_char_input(&mut self, c: char) -> (r: Action)
        requires
            old(self).wf(),
        ensures
            final(self).wf(),
            old(self)@.mode is RPN ==> {
                if spec_is_num_char(c) {
                    final(self)@ == (CalcModel {
                        input: old(self)@.input.push(c),
                        error: None::<Seq<char>>,
                        ..old(self)@
                    }) && r.deep_view() == ActionModel::Done
                } else if spec_is_op_char(c) {
                    if old(self)@.input.len() == 0 {
                        final(self)@ == old(self)@ && r.deep_view() == ActionModel::ApplyOp(c)
                    } else {
                        spec_number_commit_post(old(self)@, final(self)@, r.deep_view(), Some(c))
                    }
                } else {
                    final(self)@ == (CalcModel {
                        error: Some(spec_msg_invalid_input(c)),
                        ..old(self)@
                    }) && r.deep_view() == ActionModel::Done
                }
            },
            old(self)@.mode is Infix ==> {
                if spec_is_infix_char(c) {
                    final(self)@ == (CalcModel {
                        input: old(self)@.input.push(c),
                        error: None::<Seq<char>>,
                        ..old(self)@
                    }) && r.deep_view() == ActionModel::Done
                } else {
                    final(self)@ == (CalcModel {
                        error: Some(spec_msg_invalid_infix(c)),
                        ..old(self)@
                    }) && r.deep_view() == ActionModel::Done
                }
            },
    {
        match self.mode {
            CalculatorMode::RPN => {
                if crate::token::is_num_char(c) {
                    self.input.push(c);
                    self.error = None;
                    Action::Done
                } else if crate::token::is_op_char(c) {
                    if self.input.len() == 0 {
                        Action::ApplyOp { op: c }
                    } else {
                        self.number_action(Some(c))
                    }
                } else {
                    let mut msg = chars_of("Invalid input: '");
                    msg.push(c);
                    msg.push('\'');
                    proof {
                        reveal_strlit("'");
                        assert(msg@ =~= spec_msg_invalid_input(c));
                    }
                    self.error = Some(msg);
                    Action::Done
                }
            },
            CalculatorMode::Infix => {
                if crate::token::is_num_char(c) || crate::token::is_op_char(c) || c == '(' || c
                    == ')' {
                    self.input.push(c);
                    self.error = None;
                    Action::Done
                } else {
                    let mut msg = chars_of("Invalid character '");
                    msg.push(c);
                    let mut tail = chars_of("' for infix mode.");
                    msg.append(&mut tail);
                    proof {
                        assert(msg@ =~= spec_msg_invalid_infix(c));
                    }
                    self.error = Some(msg);
                    Action::Done
                }
            },
        }
    }

    /// Commits the buffered entry (both modes duplicate the top entry on
    /// an empty buffer). RPN entry first offers a history recall — the
    /// buffered text as prefix of a recorded line — then commits the
    /// buffer as a number of the active base; infix entry starts the
    /// tokenize-convert-evaluate pipeline on the buffer, keeping the
    /// buffer and recording the error when it fails before evaluation.
    pub fn enter(&mut self) -> (r: Action)
        requires
            old(self).wf(),
        ensures
            final(self).wf(),
            old(self)@.mode is RPN ==> {
                if old(self)@.input.len() == 0 {
                    final(self)@ == (CalcModel {
                        error: None::<Seq<char>>,
                        ..spec_duplicate_model(old(self)@)
                    }) && r.deep_view() == ActionModel::Done
                } else {
                    match spec_find_recall(old(self)@) {
                        Some(t) => final(self)@ == old(self)@ && r.deep_view()
                            == ActionModel::ParseRecall(t),
                        None => spec_number_commit_post(
                            old(self)@,
                            final(self)@,
                            r.deep_view(),
                            None,
                        ),
                    }
                }
            },
            old(self)@.mode is Infix ==> {
                if old(self)@.input.len() == 0 {
                    final(self)@ == (CalcModel {
                        error: None::<Seq<char>>,
                        ..spec_duplicate_model(old(self)@)
                    }) && r.deep_view() == ActionModel::Done
                } else {
                    spec_eval_begin_post(old(self)@, final(self)@, r.deep_view())
                }
            },
    {
        match self.mode {
            CalculatorMode::RPN => {
                if self.input.len() == 0 {
                    self.duplicate();
                    self.error = None;
                    Action::Done
                } else {
                    let ghost h = self.history.deep_view();
                    let ghost inp = self.input@;
                    let mut k: usize = 0;
                    loop
                        invariant
                            k <= h.len(),
                            h == self.history.deep_view(),
                            inp == self.input@,
                            find_prefix_from(h, inp, 0) == find_prefix_from(h, inp, k as int),
                        ensures
                            h == self.history.deep_view(),
                            inp == self.input@,
                            match find_prefix_from(h, inp, 0) {
                                Some(j) => k == j && k < h.len(),
                                None => k == h.len(),
                            },
                        decreases h.len() - k,
                    {
                        if k >= self.history.len() {
                            break ;
                        }
                        proof {
                            assert(h[k as int] == self.history@[k as int]@);
                        }
                        if starts_with(&self.history[k], &self.input) {
                            break ;
                        }
                        k = k + 1;
                    }
                    if k < self.history.len() {
                        proof {
                            assert(h[k as int] == self.history@[k as int]@);
                        }
                        match recall_text(&self.history[k]) {
                            Some(t) => {
                                return Action::ParseRecall { text: t };
                            },
                            None => {},
                        }
                    }
                    self.number_action(None)
                }
            },
            CalculatorMode::Infix => {
                if self.input.len() == 0 {
                    self.duplicate();
                    self.error = None;
                    Action::Done
                } else {
                    match Evaluation::from_text(&self.input) {
                        Ok(ev) => {
                            proof {
                                assert(ev.vals@ =~= Seq::<Real>::empty());
                            }
                            Action::Evaluate { eval: ev }
                        },
                        Err(e) => {
                            self.error = Some(message_chars(e));
                            Action::Done
                        },
                    }
                }
            },
        }
    }

    /// Records a failed infix evaluation: only the error slot changes, so
    /// the buffered text stays for editing.
    pub fn eval_failed(&mut self, e: CalculatorError)
        requires
            old(self).wf(),
        ensures
            final(self).wf(),
            final(self)@ == spec_with_error(old(self)@, e),
    {
        self.error = Some(message_chars(e));
    }

    /// Commits a finished infix evaluation: the buffered text becomes the
    /// new entry's expression, the formatted result joins the history, the
    /// history cursor parks at the end, and the buffer and error clear.
    pub fn eval_commit(&mut self, computed: Computed)
        requires
            old(self).wf(),
        ensures
            final(self).wf(),
            final(self)@ == spec_after_eval_commit(
                old(self)@,
                computed.value,
                computed.plain@,
                computed.sci@,
            ),
    {
        let expr = clone_chars(&self.input);
        let mut line = clone_chars(&self.input);
        let mut mid = chars_of(" = ");
        line.append(&mut mid);
        let text = RealText { plain: computed.plain, sci: computed.sci };
        let mut formatted = format_real_with(
            self.base_mode,
            self.abbreviation_mode,
            computed.value,
            &text,
        );
        line.append(&mut formatted);
        self.push_entry_evict(
            StackEntry { expression: expr, result: StackValue::Real(computed.value) },
        );
        self.push_history_evict(line);
        self.history_position = self.history.len();
        self.input.clear();
        self.error = None;
        proof {
            assert(self.input@ =~= Seq::<char>::empty());
        }
    }

    /// The two real operands a binary operation would consume, when the
    /// stack is ready for `op`.
    pub fn binary_operands(&self, op: char) -> (r: Option<(Real, Real)>)
        ensures
            match r {
                Some(p) => spec_binary_case(self@, op) is Ready && p == spec_binary_operands(
                    self@,
                ),
                None => !(spec_binary_case(self@, op) is Ready),
            },
    {
        if self.stack.len() < 2 {
            return None;
        }
        proof {
            assert(self.stack.deep_view()[self.stack@.len() - 2] == self.stack@[self.stack@.len()
                - 2].deep_view());
            assert(self.stack.deep_view()[self.stack@.len() - 1] == self.stack@[self.stack@.len()
                - 1].deep_view());
        }
        let a = self.stack[self.stack.len() - 2].result.as_real();
        let b = self.stack[self.stack.len() - 1].result.as_real();
        match (a, b) {
            (Some(a), Some(b)) => {
                if op == '/' && b.is_zero() {
                    None
                } else {
                    Some((a, b))
                }
            },
            _ => None,
        }
    }

    /// Applies operator `op` to the top two entries with the caller's
    /// computed result: underflow, a complex operand, or a zero divisor
    /// records its message and leaves the stack untouched; otherwise the
    /// operands merge into one entry and the history gains a line.
    pub fn apply_binary(&mut self, op: char, computed: Option<Computed>)
        requires
            old(self).wf(),
            spec_binary_case(old(self)@, op) is Ready ==> computed is Some,
        ensures
            final(self).wf(),
            spec_apply_binary_post(old(self)@, final(self)@, op, opt_computed_model(computed)),
    {
        if self.stack.len() < 2 {
            self.error = Some(message_chars(CalculatorError::StackUnderflow));
            return ;
        }
        proof {
            assert(self.stack.deep_view()[self.stack@.len() - 2] == self.stack@[self.stack@.len()
                - 2].deep_view());
            assert(self.stack.deep_view()[self.stack@.len() - 1] == self.stack@[self.stack@.len()
                - 1].deep_view());
        }
        let a_ok = self.stack[self.stack.len() - 2].result.as_real();
        let b_ok = self.stack[self.stack.len() - 1].result.as_real();
        let b_real = match b_ok {
            Some(b) => b,
            None => Real { bits: 0 },
        };
        if a_ok.is_none() || b_ok.is_none() {
            if op == '/' {
                self.error = Some(chars_of("Complex division not yet implemented"));
            } else {
                self.error = Some(chars_of("Complex arithmetic not yet implemented"));
            }
            return ;
        }
        if op == '/' && b_real.is_zero() {
            self.error = Some(message_chars(CalculatorError::DivisionByZero));
            return ;
        }
        let c = match computed {
            Some(c) => c,
            None => {
                proof {
                    assert(false);
                }
                Computed { value: Real { bits: 0 }, plain: Vec::new(), sci: Vec::new() }
            },
        };
        let ghost olds = self.stack.deep_view();
        let b_entry = self.stack.pop();
        let a_entry = self.stack.pop();
        match (a_entry, b_entry) {
            (Some(a_entry), Some(b_entry)) => {
                proof {
                    assert(self.stack.deep_view() =~= olds.drop_last().drop_last());
                }
                let mut expr = chars_of("(");
                let mut a_text = a_entry.expression;
                expr.append(&mut a_text);
                let mut sp1 = chars_of(" ");
                expr.append(&mut sp1);
                expr.push(op);
                let mut sp2 = chars_of(" ");
                expr.append(&mut sp2);
                let mut b_text = b_entry.expression;
                expr.append(&mut b_text);
                let mut close = chars_of(")");
                expr.append(&mut close);
                proof {
                    assert(expr@ =~= spec_binary_expression(old(self)@, op)) by {
                        assert(expr@ =~= "("@ + old(self)@.stack[old(self)@.stack.len() - 2].expression
                            + " "@ + seq![op] + " "@ + old(self)@.stack[old(self)@.stack.len()
                            - 1].expression + ")"@);
                    }
                }
                let mut line = clone_chars(&expr);
                let mut mid = chars_of(" = ");
                line.append(&mut mid);
                let text = RealText { plain: c.plain, sci: c.sci };
                let mut formatted = format_real_with(
                    self.base_mode,
                    self.abbreviation_mode,
                    c.value,
                    &text,
                );
                line.append(&mut formatted);
                self.push_entry_evict(
                    StackEntry { expression: expr, result: StackValue::Real(c.value) },
                );
                self.push_history_evict(line);
                self.error = None;
            },
            _ => {
                proof {
                    assert(false);
                }
            },
        }
    }

    /// Adds the top two entries, with the caller's computed sum.
    pub fn add(&mut self, computed: Option<Computed>)
        requires
            old(self).wf(),
            spec_binary_case(old(self)@, '+') is Ready ==> computed is Some,
        ensures
            final(self).wf(),
            spec_apply_binary_post(old(self)@, final(self)@, '+', opt_computed_model(computed)),
    {
        self.apply_binary('+', computed);
    }

    /// Subtracts the top entry from the second, with the caller's computed
    /// difference.
    pub fn subtract(&mut self, computed: Option<Computed>)
        requires
            old(self).wf(),
            spec_binary_case(old(self)@, '-') is Ready ==> computed is Some,
        ensures
            final(self).wf(),
            spec_apply_binary_post(old(self)@, final(self)@, '-', opt_computed_model(computed)),
    {
        self.apply_binary('-', computed);
    }

    /// Multiplies the top two entries, with the caller's computed product.
    pub fn multiply(&mut self, computed: Option<Computed>)
        requires
            old(self).wf(),
            spec_binary_case(old(self)@, '*') is Ready ==> computed is Some,
        ensures
            final(self).wf(),
            spec_apply_binary_post(old(self)@, final(self)@, '*', opt_computed_model(computed)),
    {
        self.apply_binary('*', computed);
    }

    /// Divides the second entry by the top one, with the caller's computed
    /// quotient; a zero divisor is refused here, before any division.
    pub fn divide(&mut self, computed: Option<Computed>)
        requires
            old(self).wf(),
            spec_binary_case(old(self)@, '/') is Ready ==> computed is Some,
        ensures
            final(self).wf(),
            spec_apply_binary_post(old(self)@, final(self)@, '/', opt_computed_model(computed)),
    {
        self.apply_binary('/', computed);
    }

    /// Raises the second entry to the top one, with the caller's computed
    /// power.
    pub fn power(&mut self, computed: Option<Computed>)
        requires
            old(self).wf(),
            spec_binary_case(old(self)@, '^') is Ready ==> computed is Some,
        ensures
            final(self).wf(),
            spec_apply_binary_post(old(self)@, final(self)@, '^', opt_computed_model(computed)),
    {
        self.apply_binary('^', computed);
    }

    /// Negates the top entry in place — sign bits flip, the expression
    /// stays, the stack depth stays. On an empty stack a non-empty buffer
    /// is handed back to be reparsed, negated and re-rendered.
    pub fn negate(&mut self) -> (r: Action)
        requires
            old(self).wf(),
        ensures
            final(self).wf(),
            old(self)@.stack.len() > 0 ==> final(self)@ == (CalcModel {
                stack: old(self)@.stack.update(
                    old(self)@.stack.len() - 1,
                    (EntryModel {
                        expression: old(self)@.stack.last().expression,
                        result: spec_negate_value(old(self)@.stack.last().result),
                    }),
                ),
                ..old(self)@
            }) && r.deep_view() == ActionModel::Done,
            old(self)@.stack.len() == 0 && old(self)@.input.len() > 0 ==> final(self)@ == old(
                self,
            )@ && r.deep_view() == ActionModel::NegateInput(old(self)@.input),
            old(self)@.stack.len() == 0 && old(self)@.input.len() == 0 ==> final(self)@ == old(
                self,
            )@ && r.deep_view() == ActionModel::Done,
    {
        if self.stack.len() > 0 {
            let ghost olds = self.stack.deep_view();
            match self.stack.pop() {
                Some(top) => {
                    let negated = StackEntry {
                        expression: top.expression,
                        result: top.result.negated(),
                    };
                    self.stack.push(negated);
                    proof {
                        assert(self.stack.deep_view() =~= olds.update(
                            olds.len() - 1,
                            (EntryModel {
                                expression: olds.last().expression,
                                result: spec_negate_value(olds.last().result),
                            }),
                        ));
                    }
                },
                None => {
                    proof {
                        assert(false);
                    }
                },
            }
            Action::Done
        } else if self.input.len() > 0 {
            Action::NegateInput { text: clone_chars(&self.input) }
        } else {
            Action::Done
        }
    }

    /// Commits the caller's negated re-rendering of the buffer: the new
    /// text replaces the buffer, and a text that did not parse leaves it
    /// unchanged.
    pub fn commit_negated(&mut self, rendered: Option<Vec<char>>)
        requires
            old(self).wf(),
        ensures
            final(self).wf(),
            match rendered {
                Some(t) => final(self)@ == (CalcModel { input: t@, ..old(self)@ }),
                None => final(self)@ == old(self)@,
            },
    {
        match rendered {
            Some(t) => {
                self.input = t;
            },
            None => {},
        }
    }

    /// The buffered text when one is being typed, else the caller's
    /// formatted rendering of the top entry (or nothing).
    pub fn get_current_value(&self, top_formatted: Option<Vec<char>>) -> (r: Option<Vec<char>>)
        ensures
            self@.input.len() > 0 ==> (r matches Some(t) && t@ == self@.input),
            self@.input.len() == 0 ==> opt_chars_model(r) == opt_chars_model(top_formatted),
    {
        if self.input.len() > 0 {
            Some(clone_chars(&self.input))
        } else {
            top_formatted
        }
    }

    /// Renders a real value under the active base and abbreviation modes.
    pub fn format_real(&self, v: Real, text: &RealText) -> (r: Vec<char>)
        ensures
            r@ == spec_format_real(
                self@.base_mode,
                self@.abbreviation_mode,
                v.bits,
                text.plain@,
                text.sci@,
            ),
    {
        format_real_with(self.base_mode, self.abbreviation_mode, v, text)
    }

    /// Renders a complex value in rectangular form under the active modes;
    /// `im_text` renders the displayed (non-negative form) imaginary
    /// component.
    pub fn format_complex_rectangular(
        &self,
        c: &crate::value::ComplexNumber,
        re_text: &RealText,
        im_text: &RealText,
    ) -> (r: Vec<char>)
        ensures
            r@ == crate::format::spec_format_complex_rect(
                self@.base_mode,
                self@.abbreviation_mode,
                *c,
                re_text.plain@,
                re_text.sci@,
                im_text.plain@,
                im_text.sci@,
            ),
    {
        crate::format::format_complex_rect_with(
            self.base_mode,
            self.abbreviation_mode,
            c,
            re_text,
            im_text,
        )
    }

    /// Renders a complex value in polar form under the active modes, from
    /// the caller's computed magnitude and displayed phase (converted to
    /// degrees when the angle mode asks for them).
    pub fn format_complex_polar(
        &self,
        mag: Real,
        mag_text: &RealText,
        phase: Real,
        phase_text: &RealText,
    ) -> (r: Vec<char>)
        ensures
            r@ == crate::format::spec_format_complex_polar(
                self@.base_mode,
                self@.abbreviation_mode,
                self@.angle_mode,
                mag.bits,
                mag_text.plain@,
                mag_text.sci@,
                phase.bits,
                phase_text.plain@,
                phase_text.sci@,
            ),
    {
        crate::format::format_complex_polar_with(
            self.base_mode,
            self.abbreviation_mode,
            self.angle_mode,
            mag,
            mag_text,
            phase,
            phase_text,
        )
    }

    /// Renders a stack value: a real directly; a complex through the
    /// active complex display form, with `first`/`second` rendering its
    /// two displayed components (real part and displayed imaginary part,
    /// or caller-computed magnitude and displayed phase).
    pub fn format_stack_value(
        &self,
        value: &StackValue,
        first: &RealText,
        second: &RealText,
        polar_mag: Real,
        polar_phase: Real,
    ) -> (r: Vec<char>)
        ensures
            (*value) matches StackValue::Real(x) ==> r@ == spec_format_real(
                self@.base_mode,
                self@.abbreviation_mode,
                x.bits,
                first.plain@,
                first.sci@,
            ),
            (*value) matches StackValue::Complex(c) ==> self@.complex_mode is Rectangular ==> r@
                == crate::format::spec_format_complex_rect(
                self@.base_mode,
                self@.abbreviation_mode,
                c,
                first.plain@,
                first.sci@,
                second.plain@,
                second.sci@,
            ),
            (*value) matches StackValue::Complex(c) ==> self@.complex_mode is Polar ==> r@
                == crate::format::spec_format_complex_polar(
                self@.base_mode,
                self@.abbreviation_mode,
                self@.angle_mode,
                polar_mag.bits,
                first.plain@,
                first.sci@,
                polar_phase.bits,
                second.plain@,
                second.sci@,
            ),
    {
        match value {
            StackValue::Real(x) => self.format_real(*x, first),
            StackValue::Complex(c) => match self.complex_mode {
                ComplexMode::Rectangular => self.format_complex_rectangular(c, first, second),
                ComplexMode::Polar => self.format_complex_polar(
                    polar_mag,
                    first,
                    polar_phase,
                    second,
                ),
            },
        }
    }

    /// The composed mode summary line.
    pub fn get_mode_string(&self) -> (r: String)
        ensures
            r@ == spec_mode_string(self@),
    {
        let mut s = String::from_str("Mode: ");
        s.append(
            match self.mode {
                CalculatorMode::RPN => "RPN",
                CalculatorMode::Infix => "INFIX",
            },
        );
        s.append(" | Angle: ");
        s.append(
            match self.angle_mode {
                AngleMode::Radians => "RAD",
                AngleMode::Degrees => "DEG",
            },
        );
        s.append(" | Base: ");
        s.append(
            match self.base_mode {
                BaseMode::Decimal => "DEC",
                BaseMode::Hexadecimal => "HEX",
                BaseMode::Binary => "BIN",
            },
        );
        s.append(" | Complex: ");
        s.append(
            match self.complex_mode {
                ComplexMode::Rectangular => "REC",
                ComplexMode::Polar => "POL",
            },
        );
        s
    }
}

/// A stack value with every sign bit flipped.
pub open spec fn spec_negate_value(v: StackValue) -> StackValue {
    match v {
        StackValue::Real(x) => StackValue::Real(Real { bits: spec_negate(x.bits) }),
        StackValue::Complex(c) => StackValue::Complex(
            crate::value::ComplexNumber {
                real: Real { bits: spec_negate(c.real.bits) },
                imag: Real { bits: spec_negate(c.imag.bits) },
            },
        ),
    }
}

/// The shape of an optional text.
pub open spec fn opt_chars_model(o: Option<Vec<char>>) -> Option<Seq<char>> {
    match o {
        Some(v) => Some(v@),
        None => None,
    }
}

/// The word each mode shows in the summary line.
pub open spec fn spec_mode_word(m: CalculatorMode) -> Seq<char> {
    match m {
        CalculatorMode::RPN => "RPN"@,
        CalculatorMode::Infix => "INFIX"@,
    }
}

/// The word the angle unit shows.
pub open spec fn spec_angle_word(m: AngleMode) -> Seq<char> {
    match m {
        AngleMode::Radians => "RAD"@,
        AngleMode::Degrees => "DEG"@,
    }
}

/// The word the base shows.
pub open spec fn spec_base_word(m: BaseMode) -> Seq<char> {
    match m {
        BaseMode::Decimal => "DEC"@,
        BaseMode::Hexadecimal => "HEX"@,
        BaseMode::Binary => "BIN"@,
    }
}

/// The word the complex display form shows.
pub open spec fn spec_complex_word(m: ComplexMode) -> Seq<char> {
    match m {
        ComplexMode::Rectangular => "REC"@,
        ComplexMode::Polar => "POL"@,
    }
}

/// The mode summary line.
pub open spec fn spec_mode_string(m: CalcModel) -> Seq<char> {
    "Mode: "@ + spec_mode_word(m.mode) + " | Angle: "@ + spec_angle_word(m.angle_mode)
        + " | Base: "@ + spec_base_word(m.base_mode) + " | Complex: "@ + spec_complex_word(
        m.complex_mode,
    )
}

} // verus!
