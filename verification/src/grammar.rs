use crate::ast::{ExpressionView, StatementView};
use crate::lexer::{SpannedTok, TokView};
use crate::value::{BinaryOperator, UnaryOperator, Value};
use vstd::prelude::*;

verus! {

/// What parsing from some place in the tokens yields: what was read with the
/// place of the token after it, or the place of the token that cannot stand
/// where it is. That place is the number of tokens where the tokens end too
/// early.
///
/// Whatever is read takes at least one token and ends within the tokens: see
/// [`advances`]. The functions below test this before they read on, which
/// shows that they come to an end.
pub type Parsed<T> = Result<(T, int), int>;

/// The token at `pos`, if there is one.
pub open spec fn tok_at(tokens: Seq<SpannedTok>, pos: int) -> Option<TokView> {
    if 0 <= pos < tokens.len() {
        Some(tokens[pos].1)
    } else {
        None
    }
}

/// Whether a number's text is made of digits and underscores alone.
pub open spec fn is_number_text(text: Seq<char>) -> bool {
    forall|i: int| 0 <= i < text.len() ==> ('0' <= #[trigger] text[i] <= '9') || text[i] == '_'
}

/// The number that the digits of a text write in base ten; underscores
/// between them only separate.
pub open spec fn number_value(text: Seq<char>) -> nat
    decreases text.len(),
{
    if text.len() == 0 {
        0
    } else if '0' <= text.last() <= '9' {
        number_value(text.drop_last()) * 10 + (text.last() as nat - '0' as nat) as nat
    } else {
        number_value(text.drop_last())
    }
}

/// The value of a number literal, if it is one that a number of the language
/// can hold.
pub open spec fn number_literal(text: Seq<char>) -> Option<i32> {
    if is_number_text(text) && number_value(text) <= i32::MAX {
        Some(number_value(text) as i32)
    } else {
        None
    }
}

/// The unary operator that a token writes.
pub open spec fn unary_operator(tok: Option<TokView>) -> Option<UnaryOperator> {
    match tok {
        Some(TokView::Not) => Some(UnaryOperator::Not),
        Some(TokView::Minus) => Some(UnaryOperator::Minus),
        _ => None,
    }
}

/// The number of levels of binary operators. Level 1 binds tightest.
pub const BINARY_LEVELS: usize = 3;

/// The binary operator of the given level that a token writes: `*` and `/`
/// are of level 1, `+` and `-` of level 2, and the six comparisons of
/// level 3.
pub open spec fn binary_operator(level: nat, tok: Option<TokView>) -> Option<BinaryOperator> {
    if level == 1 {
        match tok {
            Some(TokView::Mul) => Some(BinaryOperator::Mul),
            Some(TokView::Div) => Some(BinaryOperator::Div),
            _ => None,
        }
    } else if level == 2 {
        match tok {
            Some(TokView::Plus) => Some(BinaryOperator::Add),
            Some(TokView::Minus) => Some(BinaryOperator::Sub),
            _ => None,
        }
    } else if level == 3 {
        match tok {
            Some(TokView::Less) => Some(BinaryOperator::Less),
            Some(TokView::LessOrEqual) => Some(BinaryOperator::LessOrEqual),
            Some(TokView::DoubleEquals) => Some(BinaryOperator::Equals),
            Some(TokView::NotEquals) => Some(BinaryOperator::NotEquals),
            Some(TokView::Greater) => Some(BinaryOperator::Greater),
            Some(TokView::GreaterOrEqual) => Some(BinaryOperator::GreaterOrEqual),
            _ => None,
        }
    } else {
        None
    }
}

/// A primary expression at `pos`: a number, `true`, `false`, a variable, a
/// function call, or an expression in parentheses.
pub open spec fn primary(tokens: Seq<SpannedTok>, pos: int) -> Parsed<ExpressionView>
    decreases tokens.len() - pos, 0nat,
{
    match tok_at(tokens, pos) {
        Some(TokView::Number(text)) => match number_literal(text) {
            Some(number) => Ok((ExpressionView::Literal(Value::Number(number)), pos + 1)),
            None => Err(pos),
        },
        Some(TokView::True) => Ok((ExpressionView::Literal(Value::Bool(true)), pos + 1)),
        Some(TokView::False) => Ok((ExpressionView::Literal(Value::Bool(false)), pos + 1)),
        Some(TokView::Identifier(name)) => {
            if tok_at(tokens, pos + 1) == Some(TokView::OpenParen) {
                match arguments(tokens, pos + 2) {
                    Ok((list, next)) => Ok((ExpressionView::FunctionCall(name, list), next)),
                    Err(at) => Err(at),
                }
            } else {
                Ok((ExpressionView::Variable(name), pos + 1))
            }
        },
        Some(TokView::OpenParen) => match expression(tokens, pos + 1) {
            Ok((inner, next)) => {
                if tok_at(tokens, next) == Some(TokView::CloseParen) {
                    Ok((inner, next + 1))
                } else {
                    Err(next)
                }
            },
            Err(at) => Err(at),
        },
        _ => Err(pos),
    }
}

/// A unary expression at `pos`: any number of `not` and `-`, then a primary
/// expression.
pub open spec fn unary(tokens: Seq<SpannedTok>, pos: int) -> Parsed<ExpressionView>
    decreases tokens.len() - pos, 1nat,
{
    match unary_operator(tok_at(tokens, pos)) {
        Some(op) => match unary(tokens, pos + 1) {
            Ok((operand, next)) => Ok((ExpressionView::UnaryOp(op, Box::new(operand)), next)),
            Err(at) => Err(at),
        },
        None => primary(tokens, pos),
    }
}

/// An expression of the given level at `pos`: operands of the level below,
/// with operators of this level between them, grouped from the left. Level 0
/// is the unary expressions.
pub open spec fn binary(tokens: Seq<SpannedTok>, pos: int, level: nat) -> Parsed<ExpressionView>
    decreases tokens.len() - pos, 2 * level + 3,
{
    if level == 0 {
        unary(tokens, pos)
    } else {
        match binary(tokens, pos, (level - 1) as nat) {
            Ok((lhs, next)) => {
                if pos < next <= tokens.len() {
                    binary_rest(tokens, next, level, lhs)
                } else {
                    Err(next)
                }
            },
            Err(at) => Err(at),
        }
    }
}

/// What follows the operand `lhs` in an expression of the given level.
pub open spec fn binary_rest(
    tokens: Seq<SpannedTok>,
    pos: int,
    level: nat,
    lhs: ExpressionView,
) -> Parsed<ExpressionView>
    decreases tokens.len() - pos, 2 * level + 2,
{
    match binary_operator(level, tok_at(tokens, pos)) {
        Some(op) if level > 0 => match binary(tokens, pos + 1, (level - 1) as nat) {
            Ok((rhs, next)) => {
                if pos < next <= tokens.len() {
                    binary_rest(
                        tokens,
                        next,
                        level,
                        ExpressionView::BinaryOp(Box::new(lhs), op, Box::new(rhs)),
                    )
                } else {
                    Err(next)
                }
            },
            Err(at) => Err(at),
        },
        _ => Ok((lhs, pos)),
    }
}

/// An expression at `pos`.
pub open spec fn expression(tokens: Seq<SpannedTok>, pos: int) -> Parsed<ExpressionView>
    decreases tokens.len() - pos, 2 * BINARY_LEVELS + 4,
{
    binary(tokens, pos, BINARY_LEVELS as nat)
}

/// The arguments of a call, from the token after its `(` to its `)`:
/// expressions with commas between them, or nothing.
pub open spec fn arguments(tokens: Seq<SpannedTok>, pos: int) -> Parsed<Seq<ExpressionView>>
    decreases tokens.len() - pos, 2 * BINARY_LEVELS + 6,
{
    if tok_at(tokens, pos) == Some(TokView::CloseParen) {
        Ok((Seq::empty(), pos + 1))
    } else {
        match expression(tokens, pos) {
            Ok((first, next)) => {
                if pos < next <= tokens.len() {
                    arguments_rest(tokens, next, seq![first])
                } else {
                    Err(next)
                }
            },
            Err(at) => Err(at),
        }
    }
}

/// What follows the arguments `list` of a call.
pub open spec fn arguments_rest(
    tokens: Seq<SpannedTok>,
    pos: int,
    list: Seq<ExpressionView>,
) -> Parsed<Seq<ExpressionView>>
    decreases tokens.len() - pos, 2 * BINARY_LEVELS + 5,
{
    match tok_at(tokens, pos) {
        Some(TokView::CloseParen) => Ok((list, pos + 1)),
        Some(TokView::Comma) => match expression(tokens, pos + 1) {
            Ok((argument, next)) => {
                if pos < next <= tokens.len() {
                    arguments_rest(tokens, next, list.push(argument))
                } else {
                    Err(next)
                }
            },
            Err(at) => Err(at),
        },
        _ => Err(pos),
    }
}

/// An expression at `pos` and the `;` after it.
pub open spec fn expression_and_semicolon(tokens: Seq<SpannedTok>, pos: int) -> Parsed<
    ExpressionView,
>
    decreases tokens.len() - pos, 2 * BINARY_LEVELS + 7,
{
    match expression(tokens, pos) {
        Ok((value, next)) => {
            if tok_at(tokens, next) == Some(TokView::SemiColon) {
                Ok((value, next + 1))
            } else {
                Err(next)
            }
        },
        Err(at) => Err(at),
    }
}

/// The name that the token at `pos` must be.
pub open spec fn name_at(tokens: Seq<SpannedTok>, pos: int) -> Parsed<Seq<char>> {
    match tok_at(tokens, pos) {
        Some(TokView::Identifier(name)) => Ok((name, pos + 1)),
        _ => Err(pos),
    }
}

/// The place after the token at `pos`, which must be `tok`.
pub open spec fn expect(tokens: Seq<SpannedTok>, pos: int, tok: TokView) -> Result<int, int> {
    if tok_at(tokens, pos) == Some(tok) {
        Ok(pos + 1)
    } else {
        Err(pos)
    }
}

/// A statement at `pos`:
///
/// - `;`
/// - `let` name `=` expression `;`
/// - `fn` name `(` name `)` `{` statements `}`
/// - `return` `;` or `return` expression `;`
/// - expression `;`
pub open spec fn statement(tokens: Seq<SpannedTok>, pos: int) -> Parsed<StatementView>
    decreases tokens.len() - pos, 2 * BINARY_LEVELS + 8,
{
    match tok_at(tokens, pos) {
        Some(TokView::SemiColon) => Ok((StatementView::Empty, pos + 1)),
        Some(TokView::Let) => match name_at(tokens, pos + 1) {
            Ok((name, _)) => match expect(tokens, pos + 2, TokView::SingleEquals) {
                Ok(_) => match expression_and_semicolon(tokens, pos + 3) {
                    Ok((value, next)) => Ok((StatementView::Assignment(name, value), next)),
                    Err(at) => Err(at),
                },
                Err(at) => Err(at),
            },
            Err(at) => Err(at),
        },
        Some(TokView::Fn) => match function_head(tokens, pos + 1) {
            Ok(((name, parameter), _)) => match block(tokens, pos + 6, Seq::empty()) {
                Ok((body, next)) => Ok(
                    (StatementView::FunctionDeclaration(name, parameter, body), next),
                ),
                Err(at) => Err(at),
            },
            Err(at) => Err(at),
        },
        Some(TokView::Return) => {
            if tok_at(tokens, pos + 1) == Some(TokView::SemiColon) {
                Ok((StatementView::Return(None), pos + 2))
            } else {
                match expression_and_semicolon(tokens, pos + 1) {
                    Ok((value, next)) => Ok((StatementView::Return(Some(value)), next)),
                    Err(at) => Err(at),
                }
            }
        },
        _ => match expression_and_semicolon(tokens, pos) {
            Ok((value, next)) => Ok((StatementView::Expression(value), next)),
            Err(at) => Err(at),
        },
    }
}

/// The five tokens after `fn`, from `pos` on: the function's name, `(`, the
/// name of its parameter, `)` and `{`. Yields the two names.
pub open spec fn function_head(tokens: Seq<SpannedTok>, pos: int) -> Parsed<
    (Seq<char>, Seq<char>),
> {
    match name_at(tokens, pos) {
        Ok((name, _)) => match expect(tokens, pos + 1, TokView::OpenParen) {
            Ok(_) => match name_at(tokens, pos + 2) {
                Ok((parameter, _)) => match expect(tokens, pos + 3, TokView::CloseParen) {
                    Ok(_) => match expect(tokens, pos + 4, TokView::OpenBracket) {
                        Ok(next) => Ok(((name, parameter), next)),
                        Err(at) => Err(at),
                    },
                    Err(at) => Err(at),
                },
                Err(at) => Err(at),
            },
            Err(at) => Err(at),
        },
        Err(at) => Err(at),
    }
}

/// The rest of a function's body, after its statements `list`, up to its `}`.
pub open spec fn block(tokens: Seq<SpannedTok>, pos: int, list: Seq<StatementView>) -> Parsed<
    Seq<StatementView>,
>
    decreases tokens.len() - pos, 2 * BINARY_LEVELS + 9,
{
    if tok_at(tokens, pos) == Some(TokView::CloseBracket) {
        Ok((list, pos + 1))
    } else {
        match statement(tokens, pos) {
            Ok((next_statement, next)) => {
                if pos < next <= tokens.len() {
                    block(tokens, next, list.push(next_statement))
                } else {
                    Err(next)
                }
            },
            Err(at) => Err(at),
        }
    }
}

/// The rest of a program, after its statements `list`. Where the tokens end
/// the program ends, unless the lexer stopped there at a character that
/// begins no token: `complete` says that it did not.
pub open spec fn program(
    tokens: Seq<SpannedTok>,
    pos: int,
    list: Seq<StatementView>,
    complete: bool,
) -> Result<Seq<StatementView>, int>
    decreases tokens.len() - pos,
{
    if pos >= tokens.len() {
        if complete {
            Ok(list)
        } else {
            Err(tokens.len() as int)
        }
    } else {
        match statement(tokens, pos) {
            Ok((next_statement, next)) => {
                if pos < next <= tokens.len() {
                    program(tokens, next, list.push(next_statement), complete)
                } else {
                    Err(next)
                }
            },
            Err(at) => Err(at),
        }
    }
}

/// Whether what was read from `pos` on took a token at least and ended
/// within the `len` tokens, or the place of the error lies from `pos` on
/// within them or at their end.
pub open spec fn advances<T>(result: Parsed<T>, pos: int, len: nat) -> bool {
    match result {
        Ok((_, next)) => pos < next <= len,
        Err(at) => pos <= at <= len,
    }
}

} // verus!
