//! Tokenizer for infix expressions.
//!
//! Spaces are skipped; a maximal run of ASCII digits and dots becomes one
//! number token, valid only if it holds at least one digit and at most one
//! dot (exactly the digit-and-dot strings a decimal float parser accepts);
//! the five operator characters and the two parentheses become their own
//! tokens; any other character fails the whole tokenization.

use vstd::prelude::*;
use crate::calculator::CalculatorError;

verus! {

/// A token of the expression language. Numbers carry their text: the engine
/// never holds a parsed float, only the numeral the caller will parse.
#[derive(Debug)]
pub enum Token {
    Number(Vec<char>),
    Operator(char),
    Function(Vec<char>),
    LeftParen,
    RightParen,
}

/// The mathematical shape of a token, with text as a sequence.
pub enum TokenModel {
    Number(Seq<char>),
    Operator(char),
    Function(Seq<char>),
    LeftParen,
    RightParen,
}

impl DeepView for Token {
    type V = TokenModel;

    open spec fn deep_view(&self) -> TokenModel {
        match self {
            Token::Number(v) => TokenModel::Number(v@),
            Token::Operator(c) => TokenModel::Operator(*c),
            Token::Function(v) => TokenModel::Function(v@),
            Token::LeftParen => TokenModel::LeftParen,
            Token::RightParen => TokenModel::RightParen,
        }
    }
}

/// An ASCII digit.
pub open spec fn spec_is_digit(c: char) -> bool {
    48 <= c as u32 <= 57
}

/// A character a number token may hold: a digit or a dot.
pub open spec fn spec_is_num_char(c: char) -> bool {
    spec_is_digit(c) || c == '.'
}

/// One of the five operator characters.
pub open spec fn spec_is_op_char(c: char) -> bool {
    c == '+' || c == '-' || c == '*' || c == '/' || c == '^'
}

/// Length of the maximal prefix of digit-or-dot characters.
pub open spec fn num_run_len(s: Seq<char>) -> nat
    decreases s.len(),
{
    if s.len() > 0 && spec_is_num_char(s[0]) {
        1 + num_run_len(s.drop_first())
    } else {
        0
    }
}

/// How many ASCII digits the text holds.
pub open spec fn count_digits(s: Seq<char>) -> nat
    decreases s.len(),
{
    if s.len() == 0 {
        0nat
    } else {
        count_digits(s.drop_first()) + if spec_is_digit(s[0]) {
            1nat
        } else {
            0nat
        }
    }
}

/// How many dots the text holds.
pub open spec fn count_dots(s: Seq<char>) -> nat
    decreases s.len(),
{
    if s.len() == 0 {
        0nat
    } else {
        count_dots(s.drop_first()) + if s[0] == '.' {
            1nat
        } else {
            0nat
        }
    }
}

/// A digit-and-dot string parses as a decimal number exactly when it has at
/// least one digit and at most one dot.
pub open spec fn valid_number_text(s: Seq<char>) -> bool {
    count_digits(s) >= 1 && count_dots(s) <= 1
}

/// The token sequence of `s`, or `None` when tokenization fails.
pub open spec fn spec_tokenize(s: Seq<char>) -> Option<Seq<TokenModel>>
    decreases s.len(),
    via spec_tokenize_dec
{
    if s.len() == 0 {
        Some(Seq::empty())
    } else if s[0] == ' ' {
        spec_tokenize(s.drop_first())
    } else if spec_is_num_char(s[0]) {
        let n = num_run_len(s);
        let text = s.take(n as int);
        if valid_number_text(text) {
            match spec_tokenize(s.skip(n as int)) {
                Some(ts) => Some(seq![TokenModel::Number(text)] + ts),
                None => None,
            }
        } else {
            None
        }
    } else if spec_is_op_char(s[0]) {
        match spec_tokenize(s.drop_first()) {
            Some(ts) => Some(seq![TokenModel::Operator(s[0])] + ts),
            None => None,
        }
    } else if s[0] == '(' {
        match spec_tokenize(s.drop_first()) {
            Some(ts) => Some(seq![TokenModel::LeftParen] + ts),
            None => None,
        }
    } else if s[0] == ')' {
        match spec_tokenize(s.drop_first()) {
            Some(ts) => Some(seq![TokenModel::RightParen] + ts),
            None => None,
        }
    } else {
        None
    }
}

#[via_fn]
proof fn spec_tokenize_dec(s: Seq<char>) {
    if s.len() > 0 && s[0] != ' ' && spec_is_num_char(s[0]) {
        lemma_num_run_le_len(s);
    }
}

/// The digit run is at most the whole text.
proof fn lemma_num_run_le_len(s: Seq<char>)
    ensures
        num_run_len(s) <= s.len(),
    decreases s.len(),
{
    if s.len() > 0 && spec_is_num_char(s[0]) {
        lemma_num_run_le_len(s.drop_first());
    }
}

/// Counts extend one character at a time.
proof fn lemma_counts_push(t: Seq<char>, c: char)
    ensures
        count_digits(t.push(c)) == count_digits(t) + if spec_is_digit(c) {
            1nat
        } else {
            0nat
        },
        count_dots(t.push(c)) == count_dots(t) + if c == '.' {
            1nat
        } else {
            0nat
        },
    decreases t.len(),
{
    if t.len() == 0 {
        assert(t.push(c).drop_first() =~= t);
    } else {
        assert(t.push(c).drop_first() =~= t.drop_first().push(c));
        lemma_counts_push(t.drop_first(), c);
    }
}

/// `Some` with the given prefix glued on, or `None`.
pub open spec fn opt_prepend(pre: Seq<TokenModel>, rest: Option<Seq<TokenModel>>) -> Option<
    Seq<TokenModel>,
> {
    match rest {
        Some(r) => Some(pre + r),
        None => None,
    }
}

/// Splits `input` into tokens: spaces skipped, maximal digit-and-dot runs as
/// number tokens (failing on texts with no digit or a second dot), the five
/// operators and both parentheses as single tokens, anything else an error.
pub fn tokenize(input: &Vec<char>) -> (r: Result<Vec<Token>, CalculatorError>)
    ensures
        match r {
            Ok(ts) => spec_tokenize(input@) == Some(ts.deep_view()),
            Err(e) => {
                &&& spec_tokenize(input@) == None::<Seq<TokenModel>>
                &&& e == CalculatorError::InvalidExpression
            },
        },
{
    let ghost s = input@;
    let mut acc: Vec<Token> = Vec::new();
    let mut i: usize = 0;
    proof {
        assert(s.skip(0) =~= s);
    }
    while i < input.len()
        invariant
            i <= s.len(),
            s == input@,
            spec_tokenize(s) == opt_prepend(acc.deep_view(), spec_tokenize(s.skip(i as int))),
        decreases s.len() - i,
    {
        let c = input[i];
        assert(s.skip(i as int)[0] == s[i as int]);
        assert(s.skip(i as int).drop_first() =~= s.skip(i as int + 1));
        if c == ' ' {
            i = i + 1;
        } else if is_num_char(c) {
            let mut j = i;
            let mut text: Vec<char> = Vec::new();
            let mut digits: usize = 0;
            let mut dots: usize = 0;
            proof {
                assert(text@ =~= s.subrange(i as int, i as int));
            }
            while j < input.len() && is_num_char(input[j])
                invariant
                    i <= j <= s.len(),
                    s == input@,
                    text@ =~= s.subrange(i as int, j as int),
                    num_run_len(s.skip(i as int)) == (j - i) + num_run_len(s.skip(j as int)),
                    digits == count_digits(text@),
                    dots == count_dots(text@),
                    digits <= j - i,
                    dots <= j - i,
                decreases s.len() - j,
            {
                let cj = input[j];
                proof {
                    assert(s.skip(j as int)[0] == s[j as int]);
                    assert(s.skip(j as int).drop_first() =~= s.skip(j as int + 1));
                    lemma_counts_push(text@, s[j as int]);
                    assert(text@.push(s[j as int]) =~= s.subrange(i as int, j as int + 1));
                }
                text.push(cj);
                if is_digit(cj) {
                    digits = digits + 1;
                } else {
                    dots = dots + 1;
                }
                j = j + 1;
            }
            proof {
                if j < s.len() {
                    assert(s.skip(j as int)[0] == s[j as int]);
                }
                assert(num_run_len(s.skip(j as int)) == 0);
                assert(s.skip(i as int).take((j - i) as int) =~= s.subrange(i as int, j as int));
                assert(s.skip(i as int).skip((j - i) as int) =~= s.skip(j as int));
            }
            if digits == 0 || dots > 1 {
                return Err(CalculatorError::InvalidExpression);
            }
            let ghost oldacc = acc.deep_view();
            acc.push(Token::Number(text));
            proof {
                assert(acc.deep_view() =~= oldacc.push(
                    TokenModel::Number(s.subrange(i as int, j as int)),
                ));
            }
            i = j;
        } else if c == '+' || c == '-' || c == '*' || c == '/' || c == '^' {
            let ghost oldacc = acc.deep_view();
            acc.push(Token::Operator(c));
            proof {
                assert(acc.deep_view() =~= oldacc.push(TokenModel::Operator(s[i as int])));
            }
            i = i + 1;
        } else if c == '(' {
            let ghost oldacc = acc.deep_view();
            acc.push(Token::LeftParen);
            proof {
                assert(acc.deep_view() =~= oldacc.push(TokenModel::LeftParen));
            }
            i = i + 1;
        } else if c == ')' {
            let ghost oldacc = acc.deep_view();
            acc.push(Token::RightParen);
            proof {
                assert(acc.deep_view() =~= oldacc.push(TokenModel::RightParen));
            }
            i = i + 1;
        } else {
            return Err(CalculatorError::InvalidExpression);
        }
    }
    proof {
        assert(s.skip(i as int) =~= Seq::<char>::empty());
        assert(acc.deep_view() + Seq::<TokenModel>::empty() =~= acc.deep_view());
    }
    Ok(acc)
}

/// An ASCII digit.
pub fn is_digit(c: char) -> (r: bool)
    ensures
        r == spec_is_digit(c),
{
    let u = c as u32;
    48 <= u && u <= 57
}

/// A digit or a dot.
pub fn is_num_char(c: char) -> (r: bool)
    ensures
        r == spec_is_num_char(c),
{
    is_digit(c) || c == '.'
}

/// One of the five operator characters.
pub fn is_op_char(c: char) -> (r: bool)
    ensures
        r == spec_is_op_char(c),
{
    c == '+' || c == '-' || c == '*' || c == '/' || c == '^'
}

} // verus!
