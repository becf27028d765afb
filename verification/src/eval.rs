//! Postfix evaluation as a step machine.
//!
//! The engine never computes floating-point arithmetic, so evaluation is
//! driven from outside: [`Evaluation::step`] says what is needed next —
//! parse this numeral, or apply this operator to these two values — and the
//! caller feeds the computed double back in with [`Evaluation::provide`].
//! Everything else — the value-stack discipline, operand order, the
//! division-by-zero and arity checks, and the final single-result check —
//! is decided and verified here.

use vstd::prelude::*;
use crate::calculator::CalculatorError;
use crate::postfix::{infix_to_postfix, spec_to_postfix};
use crate::token::{spec_tokenize, tokenize, Token, TokenModel};
use crate::value::{spec_is_zero, Real};

verus! {

/// What evaluation needs next, or how it ended.
#[derive(Debug)]
pub enum EvalStep {
    /// Parse this numeral text as a double and `provide` it.
    NeedNumber(Vec<char>),
    /// Compute `a op b` and `provide` the result.
    NeedApply { op: char, a: Real, b: Real },
    /// Evaluation succeeded with this value.
    Done(Real),
    /// Evaluation failed; the machine is stuck on this error.
    Failed(CalculatorError),
}

/// The mathematical shape of a step.
pub enum EvalStepModel {
    NeedNumber(Seq<char>),
    NeedApply(char, Real, Real),
    Done(Real),
    Failed(CalculatorError),
}

impl DeepView for EvalStep {
    type V = EvalStepModel;

    open spec fn deep_view(&self) -> EvalStepModel {
        match self {
            EvalStep::NeedNumber(v) => EvalStepModel::NeedNumber(v@),
            EvalStep::NeedApply { op: op, a: a, b: b } => EvalStepModel::NeedApply(*op, *a, *b),
            EvalStep::Done(v) => EvalStepModel::Done(*v),
            EvalStep::Failed(e) => EvalStepModel::Failed(*e),
        }
    }
}

/// What the machine at token `pos` with value stack `vals` asks for next:
/// number tokens are handed out for parsing; an operator needs two operands
/// (`a` pushed before `b`), with a zero divisor failing before any division
/// is asked for, and a character outside the operator set failing
/// defensively; tokens of any other shape are invalid here. Past the last
/// token, exactly one value must remain.
pub open spec fn spec_step(tokens: Seq<TokenModel>, pos: int, vals: Seq<Real>) -> EvalStepModel {
    if pos >= tokens.len() {
        if vals.len() == 1 {
            EvalStepModel::Done(vals[0])
        } else {
            EvalStepModel::Failed(CalculatorError::InvalidExpression)
        }
    } else {
        match tokens[pos] {
            TokenModel::Number(text) => EvalStepModel::NeedNumber(text),
            TokenModel::Operator(op) => {
                if vals.len() < 2 {
                    EvalStepModel::Failed(CalculatorError::InvalidExpression)
                } else {
                    let a = vals[vals.len() - 2];
                    let b = vals[vals.len() - 1];
                    if op == '+' || op == '-' || op == '*' || op == '^' {
                        EvalStepModel::NeedApply(op, a, b)
                    } else if op == '/' {
                        if spec_is_zero(b.bits) {
                            EvalStepModel::Failed(CalculatorError::DivisionByZero)
                        } else {
                            EvalStepModel::NeedApply(op, a, b)
                        }
                    } else {
                        EvalStepModel::Failed(CalculatorError::UnknownOperator)
                    }
                }
            },
            _ => EvalStepModel::Failed(CalculatorError::InvalidExpression),
        }
    }
}

/// The mathematical shape of an evaluation in progress.
pub struct EvaluationModel {
    pub tokens: Seq<TokenModel>,
    pub pos: int,
    pub vals: Seq<Real>,
}

/// A postfix evaluation in progress.
pub struct Evaluation {
    /// The postfix token sequence being consumed.
    pub tokens: Vec<Token>,
    /// Index of the next token.
    pub pos: usize,
    /// The working value stack; top is the last element.
    pub vals: Vec<Real>,
}

impl DeepView for Evaluation {
    type V = EvaluationModel;

    open spec fn deep_view(&self) -> EvaluationModel {
        EvaluationModel {
            tokens: self.tokens.deep_view(),
            pos: self.pos as int,
            vals: self.vals@,
        }
    }
}

impl Evaluation {
    /// Starts evaluation of a postfix token sequence.
    pub fn new(tokens: Vec<Token>) -> (r: Evaluation)
        ensures
            r.tokens.deep_view() == tokens.deep_view(),
            r.pos == 0,
            r.vals@ == Seq::<Real>::empty(),
    {
        let e = Evaluation { tokens, pos: 0, vals: Vec::new() };
        proof {
            assert(e.vals@ =~= Seq::<Real>::empty());
        }
        e
    }

    /// Converts an infix token sequence to postfix and starts evaluating it.
    pub fn from_infix(tokens: &Vec<Token>) -> (r: Result<Evaluation, CalculatorError>)
        ensures
            match r {
                Ok(ev) => {
                    &&& spec_to_postfix(tokens.deep_view()) == Some(ev.tokens.deep_view())
                    &&& ev.pos == 0
                    &&& ev.vals@ == Seq::<Real>::empty()
                },
                Err(e) => {
                    &&& spec_to_postfix(tokens.deep_view()) == None::<Seq<TokenModel>>
                    &&& e == CalculatorError::MismatchedParentheses
                },
            },
    {
        match infix_to_postfix(tokens) {
            Ok(postfix) => Ok(Evaluation::new(postfix)),
            Err(e) => Err(e),
        }
    }

    /// Tokenizes an infix text, converts it to postfix, and starts
    /// evaluating it; fails exactly as the tokenizer or converter does.
    pub fn from_text(input: &Vec<char>) -> (r: Result<Evaluation, CalculatorError>)
        ensures
            match r {
                Ok(ev) => {
                    &&& spec_tokenize(input@) matches Some(ts)
                    &&& spec_to_postfix(spec_tokenize(input@).unwrap()) == Some(
                        ev.tokens.deep_view(),
                    )
                    &&& ev.pos == 0
                    &&& ev.vals@ == Seq::<Real>::empty()
                },
                Err(e) => {
                    ||| {
                        &&& spec_tokenize(input@) == None::<Seq<TokenModel>>
                        &&& e == CalculatorError::InvalidExpression
                    }
                    ||| {
                        &&& spec_tokenize(input@) matches Some(ts)
                        &&& spec_to_postfix(ts) == None::<Seq<TokenModel>>
                        &&& e == CalculatorError::MismatchedParentheses
                    }
                },
            },
    {
        match tokenize(input) {
            Ok(ts) => Evaluation::from_infix(&ts),
            Err(e) => Err(e),
        }
    }

    /// What this evaluation needs next, or how it ended.
    pub fn step(&self) -> (r: EvalStep)
        ensures
            r.deep_view() == spec_step(self.tokens.deep_view(), self.pos as int, self.vals@),
    {
        if self.pos >= self.tokens.len() {
            if self.vals.len() == 1 {
                EvalStep::Done(self.vals[0])
            } else {
                EvalStep::Failed(CalculatorError::InvalidExpression)
            }
        } else {
            proof {
                assert(self.tokens.deep_view()[self.pos as int] == self.tokens@[self.pos as int].deep_view());
            }
            match &self.tokens[self.pos] {
                Token::Number(text) => {
                    let t = text.clone();
                    proof {
                        assert(t@ =~= text@);
                    }
                    EvalStep::NeedNumber(t)
                },
                Token::Operator(op) => {
                    let op = *op;
                    if self.vals.len() < 2 {
                        EvalStep::Failed(CalculatorError::InvalidExpression)
                    } else {
                        let a = self.vals[self.vals.len() - 2];
                        let b = self.vals[self.vals.len() - 1];
                        if op == '+' || op == '-' || op == '*' || op == '^' {
                            EvalStep::NeedApply { op: op, a: a, b: b }
                        } else if op == '/' {
                            if b.is_zero() {
                                EvalStep::Failed(CalculatorError::DivisionByZero)
                            } else {
                                EvalStep::NeedApply { op: op, a: a, b: b }
                            }
                        } else {
                            EvalStep::Failed(CalculatorError::UnknownOperator)
                        }
                    }
                },
                Token::Function(_) => EvalStep::Failed(CalculatorError::InvalidExpression),
                Token::LeftParen => EvalStep::Failed(CalculatorError::InvalidExpression),
                Token::RightParen => EvalStep::Failed(CalculatorError::InvalidExpression),
            }
        }
    }

    /// Feeds the asked-for double back in: a parsed numeral is pushed; an
    /// applied operator replaces its two operands. The token is consumed.
    pub fn provide(&mut self, v: Real)
        requires
            spec_step(
                old(self).tokens.deep_view(),
                old(self).pos as int,
                old(self).vals@,
            ) matches EvalStepModel::NeedNumber(_) || spec_step(
                old(self).tokens.deep_view(),
                old(self).pos as int,
                old(self).vals@,
            ) matches EvalStepModel::NeedApply(_, _, _),
        ensures
            final(self).tokens.deep_view() == old(self).tokens.deep_view(),
            final(self).pos == old(self).pos + 1,
            (spec_step(
                old(self).tokens.deep_view(),
                old(self).pos as int,
                old(self).vals@,
            ) matches EvalStepModel::NeedNumber(_)) ==> final(self).vals@ == old(self).vals@.push(v),
            (spec_step(
                old(self).tokens.deep_view(),
                old(self).pos as int,
                old(self).vals@,
            ) matches EvalStepModel::NeedApply(_, _, _)) ==> final(self).vals@ == old(
                self,
            ).vals@.drop_last().drop_last().push(v),
    {
        proof {
            assert(self.pos < self.tokens.len());
            assert(self.tokens.deep_view()[self.pos as int] == self.tokens@[self.pos as int].deep_view());
        }
        let is_number = match &self.tokens[self.pos] {
            Token::Number(_) => true,
            _ => false,
        };
        if is_number {
            self.vals.push(v);
        } else {
            self.vals.pop();
            self.vals.pop();
            self.vals.push(v);
            proof {
                assert(self.vals@ =~= old(self).vals@.drop_last().drop_last().push(v));
            }
        }
        self.pos = self.pos + 1;
    }
}

} // verus!
