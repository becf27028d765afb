//! Infix-to-postfix conversion by operator precedence (shunting-yard).
//!
//! `+ -` bind at level 1, `* /` at 2, `^` at 3; every operator is
//! left-associative except `^`. Numbers and functions pass straight to the
//! output; an arriving operator first pops operators that bind more tightly
//! (or equally, for a left-associative arrival); a right parenthesis pops
//! down to its matching left one. Any parenthesis left over — on either
//! side — is a mismatch error.

use vstd::prelude::*;
use crate::calculator::CalculatorError;
use crate::token::{Token, TokenModel};

verus! {

/// Binding strength of an operator character; unknown characters bind at 0.
pub open spec fn spec_precedence(op: char) -> int {
    if op == '+' || op == '-' {
        1
    } else if op == '*' || op == '/' {
        2
    } else if op == '^' {
        3
    } else {
        0
    }
}

/// Only `^` groups to the right.
pub open spec fn spec_is_right_assoc(op: char) -> bool {
    op == '^'
}

/// Operators popped from the stack to the output when `op` arrives: those of
/// higher precedence, and those of equal precedence when `op` is
/// left-associative.
pub open spec fn pop_for_op(out: Seq<TokenModel>, ops: Seq<TokenModel>, op: char) -> (
    Seq<TokenModel>,
    Seq<TokenModel>,
)
    decreases ops.len(),
{
    if ops.len() == 0 {
        (out, ops)
    } else {
        match ops.last() {
            TokenModel::Operator(top) => {
                if spec_precedence(top) > spec_precedence(op) || (spec_precedence(top)
                    == spec_precedence(op) && !spec_is_right_assoc(op)) {
                    pop_for_op(out.push(ops.last()), ops.drop_last(), op)
                } else {
                    (out, ops)
                }
            },
            _ => (out, ops),
        }
    }
}

/// Operators popped to the output down to the nearest left parenthesis,
/// which is discarded; `None` when the stack empties without one.
pub open spec fn pop_to_lparen(out: Seq<TokenModel>, ops: Seq<TokenModel>) -> Option<
    (Seq<TokenModel>, Seq<TokenModel>),
>
    decreases ops.len(),
{
    if ops.len() == 0 {
        None
    } else {
        match ops.last() {
            TokenModel::LeftParen => Some((out, ops.drop_last())),
            _ => pop_to_lparen(out.push(ops.last()), ops.drop_last()),
        }
    }
}

/// The output and operator stack after consuming `ts`; `None` on an
/// unmatched right parenthesis.
pub open spec fn sy_run(ts: Seq<TokenModel>, out: Seq<TokenModel>, ops: Seq<TokenModel>) -> Option<
    (Seq<TokenModel>, Seq<TokenModel>),
>
    decreases ts.len(),
{
    if ts.len() == 0 {
        Some((out, ops))
    } else {
        match ts[0] {
            TokenModel::Number(_) => sy_run(ts.drop_first(), out.push(ts[0]), ops),
            TokenModel::Function(_) => sy_run(ts.drop_first(), out.push(ts[0]), ops),
            TokenModel::Operator(op) => {
                let popped = pop_for_op(out, ops, op);
                sy_run(ts.drop_first(), popped.0, popped.1.push(ts[0]))
            },
            TokenModel::LeftParen => sy_run(ts.drop_first(), out, ops.push(ts[0])),
            TokenModel::RightParen => {
                match pop_to_lparen(out, ops) {
                    None => None,
                    Some(popped) => sy_run(ts.drop_first(), popped.0, popped.1),
                }
            },
        }
    }
}

/// The leftover operator stack emptied onto the output; `None` when a
/// parenthesis remains on it.
pub open spec fn sy_drain(out: Seq<TokenModel>, ops: Seq<TokenModel>) -> Option<Seq<TokenModel>>
    decreases ops.len(),
{
    if ops.len() == 0 {
        Some(out)
    } else {
        match ops.last() {
            TokenModel::LeftParen => None,
            TokenModel::RightParen => None,
            _ => sy_drain(out.push(ops.last()), ops.drop_last()),
        }
    }
}

/// The postfix ordering of `ts`, or `None` on mismatched parentheses.
pub open spec fn spec_to_postfix(ts: Seq<TokenModel>) -> Option<Seq<TokenModel>> {
    match sy_run(ts, Seq::empty(), Seq::empty()) {
        None => None,
        Some(fin) => sy_drain(fin.0, fin.1),
    }
}

/// Parenthesis balance, tracked with `k` pending opens: a close must find
/// an open, and none may remain at the end.
pub open spec fn balanced_from(ts: Seq<TokenModel>, k: int) -> bool
    decreases ts.len(),
{
    if ts.len() == 0 {
        k == 0
    } else {
        match ts[0] {
            TokenModel::LeftParen => balanced_from(ts.drop_first(), k + 1),
            TokenModel::RightParen => k > 0 && balanced_from(ts.drop_first(), k - 1),
            _ => balanced_from(ts.drop_first(), k),
        }
    }
}

/// The token sequence's parentheses are balanced.
pub open spec fn spec_balanced(ts: Seq<TokenModel>) -> bool {
    balanced_from(ts, 0)
}

/// No close outruns its opens, with `k` already pending.
pub open spec fn prefix_ok(ts: Seq<TokenModel>, k: int) -> bool
    decreases ts.len(),
{
    if ts.len() == 0 {
        true
    } else {
        match ts[0] {
            TokenModel::LeftParen => prefix_ok(ts.drop_first(), k + 1),
            TokenModel::RightParen => k > 0 && prefix_ok(ts.drop_first(), k - 1),
            _ => prefix_ok(ts.drop_first(), k),
        }
    }
}

/// Opens minus closes over the whole sequence.
pub open spec fn paren_net(ts: Seq<TokenModel>) -> int
    decreases ts.len(),
{
    if ts.len() == 0 {
        0
    } else {
        (match ts[0] {
            TokenModel::LeftParen => 1int,
            TokenModel::RightParen => -1int,
            _ => 0int,
        }) + paren_net(ts.drop_first())
    }
}

/// How many left parentheses an operator stack holds.
pub open spec fn lp_count(ops: Seq<TokenModel>) -> int
    decreases ops.len(),
{
    if ops.len() == 0 {
        0
    } else {
        lp_count(ops.drop_last()) + (match ops.last() {
            TokenModel::LeftParen => 1int,
            _ => 0int,
        })
    }
}

/// No right parenthesis anywhere in the operator stack.
pub open spec fn no_rp(ops: Seq<TokenModel>) -> bool {
    forall|i: int| 0 <= i < ops.len() ==> !(#[trigger] ops[i] matches TokenModel::RightParen)
}

/// Popping for an arriving operator removes only operators: the left
/// parentheses stay put.
proof fn lemma_pop_for_op(out: Seq<TokenModel>, ops: Seq<TokenModel>, op: char)
    requires
        no_rp(ops),
    ensures
        no_rp(pop_for_op(out, ops, op).1),
        lp_count(pop_for_op(out, ops, op).1) == lp_count(ops),
        lp_count(ops) >= 0,
    decreases ops.len(),
{
    if ops.len() == 0 {
    } else {
        assert(no_rp(ops.drop_last())) by {
            assert(forall|i: int|
                0 <= i < ops.drop_last().len() ==> ops.drop_last()[i] == ops[i]);
        }
        lemma_pop_for_op(out.push(ops.last()), ops.drop_last(), op);
    }
}

/// Popping to a left parenthesis fails exactly when the stack holds none;
/// otherwise it consumes exactly one.
proof fn lemma_pop_to_lparen(out: Seq<TokenModel>, ops: Seq<TokenModel>)
    requires
        no_rp(ops),
    ensures
        lp_count(ops) >= 0,
        lp_count(ops) == 0 ==> pop_to_lparen(out, ops) is None,
        lp_count(ops) > 0 ==> (pop_to_lparen(out, ops) matches Some(p) && no_rp(p.1) && lp_count(
            p.1,
        ) == lp_count(ops) - 1),
    decreases ops.len(),
{
    if ops.len() == 0 {
    } else {
        assert(no_rp(ops.drop_last())) by {
            assert(forall|i: int|
                0 <= i < ops.drop_last().len() ==> ops.drop_last()[i] == ops[i]);
        }
        match ops.last() {
            TokenModel::LeftParen => {
                lemma_pop_to_lparen(out, ops.drop_last());
            },
            _ => {
                lemma_pop_to_lparen(out.push(ops.last()), ops.drop_last());
            },
        }
    }
}

/// The main run succeeds exactly while no close outruns its opens, and
/// leaves one pending left parenthesis on the stack per unmatched open.
proof fn lemma_sy_run_parens(ts: Seq<TokenModel>, out: Seq<TokenModel>, ops: Seq<TokenModel>)
    requires
        no_rp(ops),
    ensures
        sy_run(ts, out, ops) is Some <==> prefix_ok(ts, lp_count(ops)),
        sy_run(ts, out, ops) matches Some(p) ==> (no_rp(p.1) && lp_count(p.1) == lp_count(ops)
            + paren_net(ts)),
    decreases ts.len(),
{
    lemma_pop_for_op(out, ops, ' ');
    if ts.len() == 0 {
    } else {
        match ts[0] {
            TokenModel::Number(_) => {
                lemma_sy_run_parens(ts.drop_first(), out.push(ts[0]), ops);
            },
            TokenModel::Function(_) => {
                lemma_sy_run_parens(ts.drop_first(), out.push(ts[0]), ops);
            },
            TokenModel::Operator(op) => {
                lemma_pop_for_op(out, ops, op);
                let popped = pop_for_op(out, ops, op);
                assert(no_rp(popped.1.push(ts[0]))) by {
                    assert(forall|i: int|
                        0 <= i < popped.1.len() ==> popped.1.push(ts[0])[i] == popped.1[i]);
                }
                assert(lp_count(popped.1.push(ts[0])) == lp_count(popped.1)) by {
                    assert(popped.1.push(ts[0]).drop_last() =~= popped.1);
                }
                lemma_sy_run_parens(ts.drop_first(), popped.0, popped.1.push(ts[0]));
            },
            TokenModel::LeftParen => {
                assert(no_rp(ops.push(ts[0]))) by {
                    assert(forall|i: int|
                        0 <= i < ops.len() ==> ops.push(ts[0])[i] == ops[i]);
                }
                assert(lp_count(ops.push(ts[0])) == lp_count(ops) + 1) by {
                    assert(ops.push(ts[0]).drop_last() =~= ops);
                }
                lemma_sy_run_parens(ts.drop_first(), out, ops.push(ts[0]));
            },
            TokenModel::RightParen => {
                lemma_pop_to_lparen(out, ops);
                if lp_count(ops) == 0 {
                } else {
                    let popped = pop_to_lparen(out, ops).unwrap();
                    lemma_sy_run_parens(ts.drop_first(), popped.0, popped.1);
                }
            },
        }
    }
}

/// Draining succeeds exactly when no left parenthesis is pending.
proof fn lemma_drain_parens(out: Seq<TokenModel>, ops: Seq<TokenModel>)
    requires
        no_rp(ops),
    ensures
        sy_drain(out, ops) is Some <==> lp_count(ops) == 0,
    decreases ops.len(),
{
    if ops.len() == 0 {
    } else {
        assert(no_rp(ops.drop_last())) by {
            assert(forall|i: int|
                0 <= i < ops.drop_last().len() ==> ops.drop_last()[i] == ops[i]);
        }
        match ops.last() {
            TokenModel::LeftParen => {
                lemma_pop_for_op(out, ops.drop_last(), ' ');
            },
            TokenModel::RightParen => {
                assert(false);
            },
            _ => {
                lemma_drain_parens(out.push(ops.last()), ops.drop_last());
            },
        }
    }
}

/// Balance implies no close outruns its opens, and fixes the net count.
proof fn lemma_balance_split(ts: Seq<TokenModel>, k: int)
    ensures
        balanced_from(ts, k) <==> prefix_ok(ts, k) && k + paren_net(ts) == 0,
    decreases ts.len(),
{
    if ts.len() == 0 {
    } else {
        match ts[0] {
            TokenModel::LeftParen => {
                lemma_balance_split(ts.drop_first(), k + 1);
            },
            TokenModel::RightParen => {
                lemma_balance_split(ts.drop_first(), k - 1);
            },
            _ => {
                lemma_balance_split(ts.drop_first(), k);
            },
        }
    }
}

/// Conversion to postfix succeeds exactly on token sequences whose
/// parentheses are balanced: it returns the mismatch error if and only if
/// some close has no pending open, or opens remain at the end.
pub proof fn lemma_postfix_iff_balanced(ts: Seq<TokenModel>)
    ensures
        spec_to_postfix(ts) is Some <==> spec_balanced(ts),
{
    let empty = Seq::<TokenModel>::empty();
    lemma_sy_run_parens(ts, empty, empty);
    lemma_balance_split(ts, 0);
    match sy_run(ts, empty, empty) {
        None => {
        },
        Some(p) => {
            lemma_drain_parens(p.0, p.1);
        },
    }
}

/// Binding strength of an operator character.
pub fn precedence(op: char) -> (r: i32)
    ensures
        r == spec_precedence(op),
{
    if op == '+' || op == '-' {
        1
    } else if op == '*' || op == '/' {
        2
    } else if op == '^' {
        3
    } else {
        0
    }
}

/// Only `^` groups to the right.
pub fn is_right_associative(op: char) -> (r: bool)
    ensures
        r == spec_is_right_assoc(op),
{
    op == '^'
}

/// A copy of the token, with the same shape and text.
pub fn clone_token(t: &Token) -> (r: Token)
    ensures
        r.deep_view() == t.deep_view(),
{
    match t {
        Token::Number(v) => {
            let w = v.clone();
            proof {
                assert(w@ =~= v@);
            }
            Token::Number(w)
        },
        Token::Operator(c) => Token::Operator(*c),
        Token::Function(v) => {
            let w = v.clone();
            proof {
                assert(w@ =~= v@);
            }
            Token::Function(w)
        },
        Token::LeftParen => Token::LeftParen,
        Token::RightParen => Token::RightParen,
    }
}

/// Reorders an infix token sequence into postfix by operator precedence;
/// fails with `MismatchedParentheses` exactly when the spec does.
pub fn infix_to_postfix(tokens: &Vec<Token>) -> (r: Result<Vec<Token>, CalculatorError>)
    ensures
        match r {
            Ok(out) => spec_to_postfix(tokens.deep_view()) == Some(out.deep_view()),
            Err(e) => {
                &&& spec_to_postfix(tokens.deep_view()) == None::<Seq<TokenModel>>
                &&& e == CalculatorError::MismatchedParentheses
            },
        },
{
    let ghost ts = tokens.deep_view();
    let mut output: Vec<Token> = Vec::new();
    let mut operators: Vec<Token> = Vec::new();
    let mut i: usize = 0;
    proof {
        assert(ts.skip(0) =~= ts);
        assert(output.deep_view() =~= Seq::<TokenModel>::empty());
        assert(operators.deep_view() =~= Seq::<TokenModel>::empty());
    }
    while i < tokens.len()
        invariant
            i <= ts.len(),
            ts == tokens.deep_view(),
            sy_run(ts, Seq::empty(), Seq::empty()) == sy_run(
                ts.skip(i as int),
                output.deep_view(),
                operators.deep_view(),
            ),
        decreases ts.len() - i,
    {
        let t = &tokens[i];
        proof {
            assert(ts.skip(i as int)[0] == ts[i as int]);
            assert(ts.skip(i as int).drop_first() =~= ts.skip(i as int + 1));
        }
        match t {
            Token::Number(_) => {
                let ghost oldout = output.deep_view();
                output.push(clone_token(t));
                proof {
                    assert(output.deep_view() =~= oldout.push(ts[i as int]));
                }
            },
            Token::Function(_) => {
                let ghost oldout = output.deep_view();
                output.push(clone_token(t));
                proof {
                    assert(output.deep_view() =~= oldout.push(ts[i as int]));
                }
            },
            Token::Operator(op) => {
                let op = *op;
                let ghost out0 = output.deep_view();
                let ghost ops0 = operators.deep_view();
                loop
                    invariant
                        pop_for_op(out0, ops0, op) == pop_for_op(
                            output.deep_view(),
                            operators.deep_view(),
                            op,
                        ),
                    ensures
                        pop_for_op(out0, ops0, op) == (output.deep_view(), operators.deep_view()),
                    decreases operators.deep_view().len(),
                {
                    if operators.len() == 0 {
                        break ;
                    }
                    let keep_popping = match &operators[operators.len() - 1] {
                        Token::Operator(top) => {
                            let tp = precedence(*top);
                            let cp = precedence(op);
                            tp > cp || (tp == cp && !is_right_associative(op))
                        },
                        _ => false,
                    };
                    proof {
                        assert(operators.deep_view().last() == operators@[operators@.len()
                            - 1].deep_view());
                    }
                    if keep_popping {
                        let ghost oldout = output.deep_view();
                        let ghost oldops = operators.deep_view();
                        match operators.pop() {
                            Some(popped) => {
                                output.push(popped);
                            },
                            None => {
                                proof {
                                    assert(false);
                                }
                            },
                        }
                        proof {
                            assert(operators.deep_view() =~= oldops.drop_last());
                            assert(output.deep_view() =~= oldout.push(oldops.last()));
                        }
                    } else {
                        break ;
                    }
                }
                let ghost out1 = output.deep_view();
                let ghost ops1 = operators.deep_view();
                operators.push(clone_token(t));
                proof {
                    assert(operators.deep_view() =~= ops1.push(ts[i as int]));
                }
            },
            Token::LeftParen => {
                let ghost oldops = operators.deep_view();
                operators.push(clone_token(t));
                proof {
                    assert(operators.deep_view() =~= oldops.push(ts[i as int]));
                }
            },
            Token::RightParen => {
                let ghost out0 = output.deep_view();
                let ghost ops0 = operators.deep_view();
                loop
                    invariant
                        pop_to_lparen(out0, ops0) == pop_to_lparen(
                            output.deep_view(),
                            operators.deep_view(),
                        ),
                    ensures
                        pop_to_lparen(out0, ops0) == pop_to_lparen(
                            output.deep_view(),
                            operators.deep_view(),
                        ),
                        operators.deep_view().len() == 0 || operators.deep_view().last()
                            matches TokenModel::LeftParen,
                    decreases operators.deep_view().len(),
                {
                    if operators.len() == 0 {
                        break ;
                    }
                    let at_lparen = match &operators[operators.len() - 1] {
                        Token::LeftParen => true,
                        _ => false,
                    };
                    proof {
                        assert(operators.deep_view().last() == operators@[operators@.len()
                            - 1].deep_view());
                    }
                    if at_lparen {
                        break ;
                    }
                    let ghost oldout = output.deep_view();
                    let ghost oldops = operators.deep_view();
                    match operators.pop() {
                        Some(popped) => {
                            output.push(popped);
                        },
                        None => {
                            proof {
                                assert(false);
                            }
                        },
                    }
                    proof {
                        assert(operators.deep_view() =~= oldops.drop_last());
                        assert(output.deep_view() =~= oldout.push(oldops.last()));
                    }
                }
                if operators.len() == 0 {
                    return Err(CalculatorError::MismatchedParentheses);
                }
                let ghost oldops = operators.deep_view();
                operators.pop();
                proof {
                    assert(operators.deep_view() =~= oldops.drop_last());
                }
            },
        }
        i = i + 1;
    }
    proof {
        assert(ts.skip(i as int) =~= Seq::<TokenModel>::empty());
    }
    let ghost out0 = output.deep_view();
    let ghost ops0 = operators.deep_view();
    loop
        invariant
            sy_drain(out0, ops0) == sy_drain(output.deep_view(), operators.deep_view()),
        ensures
            sy_drain(out0, ops0) == sy_drain(output.deep_view(), operators.deep_view()),
            operators.deep_view().len() == 0 || sy_drain(out0, ops0) == None::<Seq<TokenModel>>,
        decreases operators.deep_view().len(),
    {
        if operators.len() == 0 {
            break ;
        }
        let is_paren = match &operators[operators.len() - 1] {
            Token::LeftParen => true,
            Token::RightParen => true,
            _ => false,
        };
        proof {
            assert(operators.deep_view().last() == operators@[operators@.len() - 1].deep_view());
        }
        if is_paren {
            break ;
        }
        let ghost oldout = output.deep_view();
        let ghost oldops = operators.deep_view();
        match operators.pop() {
            Some(popped) => {
                output.push(popped);
            },
            None => {
                proof {
                    assert(false);
                }
            },
        }
        proof {
            assert(operators.deep_view() =~= oldops.drop_last());
            assert(output.deep_view() =~= oldout.push(oldops.last()));
        }
    }
    if operators.len() > 0 {
        return Err(CalculatorError::MismatchedParentheses);
    }
    Ok(output)
}

} // verus!
