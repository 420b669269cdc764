use crate::ast::{
    expressions_view, lemma_call_view, lemma_declaration_view, statements_view, Expression,
    ExpressionView, Statement, StatementView,
};
use crate::error::{unexpected_token, CacauError, ErrorView};
use crate::grammar;
use crate::grammar::{Parsed, BINARY_LEVELS};
use crate::lexer::{failure_view, lex_from, tokens_view, SpannedTok, Tok, Token};
use crate::value::{BinaryOperator, UnaryOperator, Value};
use core::ops::Range;
use vstd::prelude::*;
use vstd::string::{StrSliceExecFns, StringSliceAdditionalSpecFns};

verus! {

/// Why a source text is no program.
#[derive(Debug, PartialEq, Eq)]
pub enum ParseError<'input> {
    /// The text ends where the program cannot end yet. `location` is the
    /// place after the last token.
    UnrecognizedEOF { location: usize },
    /// A token that cannot stand where it is, between the places of its
    /// first byte and of the byte after its last.
    UnrecognizedToken { token: (usize, Tok<'input>, usize) },
    /// An error of the lexer.
    User { error: CacauError },
}

/// A [`ParseError`] as a mathematical value.
pub enum ParseErrorView {
    UnrecognizedEOF { location: int },
    UnrecognizedToken { token: SpannedTok },
    User { error: ErrorView },
}

impl<'input> ParseError<'input> {
    /// The error as one of the interpreter's own: a token that cannot stand
    /// where it is becomes an unexpected token with the bytes it covers, the
    /// end of the text an unexpected token of no bytes at that place.
    pub fn into_error(self) -> (error: CacauError)
        ensures
            error@ == self@.as_error(),
    {
        match self {
            ParseError::UnrecognizedEOF { location } => unexpected_token(location, location),
            ParseError::UnrecognizedToken { token } => unexpected_token(token.0, token.2),
            ParseError::User { error } => error,
        }
    }
}

impl ParseErrorView {
    /// The error as one of the interpreter's own.
    pub open spec fn as_error(self) -> ErrorView {
        match self {
            ParseErrorView::UnrecognizedEOF { location } => ErrorView::UnexpectedToken(
                Range { start: location as usize, end: location as usize },
            ),
            ParseErrorView::UnrecognizedToken { token } => ErrorView::UnexpectedToken(
                Range { start: token.0 as usize, end: token.2 as usize },
            ),
            ParseErrorView::User { error } => error,
        }
    }
}

impl<'input> View for ParseError<'input> {
    type V = ParseErrorView;

    open spec fn view(&self) -> ParseErrorView {
        match *self {
            ParseError::UnrecognizedEOF { location } => ParseErrorView::UnrecognizedEOF {
                location: location as int,
            },
            ParseError::UnrecognizedToken { token } => ParseErrorView::UnrecognizedToken {
                token: (token.0 as int, token.1@, token.2 as int),
            },
            ParseError::User { error } => ParseErrorView::User { error: error@ },
        }
    }
}

/// The place after the last of the tokens, or the beginning of the source if
/// there is none.
pub open spec fn end_of_tokens(tokens: Seq<SpannedTok>) -> int {
    if tokens.len() == 0 {
        0
    } else {
        tokens.last().2
    }
}

/// The error for tokens that are no program, where `at` is the place of the
/// token that cannot stand where it is: that token; or, where the tokens end
/// there, the lexer's error if it stopped at one, and else the end of the
/// text.
pub open spec fn parse_error_at(
    tokens: Seq<SpannedTok>,
    failure: Option<Range<usize>>,
    at: int,
) -> ParseErrorView {
    if 0 <= at < tokens.len() {
        ParseErrorView::UnrecognizedToken { token: tokens[at] }
    } else {
        match failure {
            Some(span) => ParseErrorView::User { error: ErrorView::UnexpectedToken(span) },
            None => ParseErrorView::UnrecognizedEOF { location: end_of_tokens(tokens) },
        }
    }
}

/// The program that tokens write, or the error for the first place where
/// they cannot go on.
pub open spec fn parse_tokens_spec(tokens: Seq<SpannedTok>, failure: Option<Range<usize>>) -> Result<
    Seq<StatementView>,
    ParseErrorView,
> {
    match grammar::program(tokens, 0, Seq::empty(), failure is None) {
        Ok(statements) => Ok(statements),
        Err(at) => Err(parse_error_at(tokens, failure, at)),
    }
}

/// The program that a source text writes, or the error for the first place
/// where it cannot go on.
pub open spec fn parse_source(bytes: Seq<u8>) -> Result<Seq<StatementView>, ParseErrorView> {
    let lexed = lex_from(bytes, 0);
    parse_tokens_spec(lexed.tokens, lexed.failure)
}

/// The view of what parsing an expression yielded.
pub open spec fn parsed_expression(result: Result<(Expression, usize), usize>) -> Parsed<
    ExpressionView,
> {
    match result {
        Ok((expression, next)) => Ok((expression@, next as int)),
        Err(at) => Err(at as int),
    }
}

/// The view of what parsing a list of expressions yielded.
pub open spec fn parsed_expressions(result: Result<(Vec<Expression>, usize), usize>) -> Parsed<
    Seq<ExpressionView>,
> {
    match result {
        Ok((list, next)) => Ok((expressions_view(list@), next as int)),
        Err(at) => Err(at as int),
    }
}

/// The view of what parsing a statement yielded.
pub open spec fn parsed_statement(result: Result<(Statement, usize), usize>) -> Parsed<
    StatementView,
> {
    match result {
        Ok((statement, next)) => Ok((statement@, next as int)),
        Err(at) => Err(at as int),
    }
}

/// The view of what parsing a list of statements yielded.
pub open spec fn parsed_statements(result: Result<(Vec<Statement>, usize), usize>) -> Parsed<
    Seq<StatementView>,
> {
    match result {
        Ok((list, next)) => Ok((statements_view(list@), next as int)),
        Err(at) => Err(at as int),
    }
}

fn peek<'a>(tokens: &[Token<'a>], pos: usize) -> (tok: Option<Tok<'a>>)
    ensures
        match tok {
            Some(found) => pos < tokens@.len() && found == tokens@[pos as int].1,
            None => pos >= tokens@.len(),
        },
        tok is Some ==> grammar::tok_at(tokens_view(tokens@), pos as int) == Some(tok->Some_0@),
        tok is None ==> grammar::tok_at(tokens_view(tokens@), pos as int) is None,
        tokens@.len() <= usize::MAX,
{
    if pos < tokens.len() {
        Some(tokens[pos].1)
    } else {
        None
    }
}

/// The value of a number literal, if it is one that a number can hold.
pub fn parse_number(text: &str) -> (number: Option<i32>)
    ensures
        number == grammar::number_literal(text@),
{
    let length = text.unicode_len();
    let mut value: u32 = 0;
    let mut too_large = false;
    let mut i: usize = 0;
    while i < length
        invariant
            i <= length,
            length == text@.len(),
            grammar::is_number_text(text@.subrange(0, i as int)),
            !too_large ==> value == grammar::number_value(text@.subrange(0, i as int)) && value
                <= i32::MAX,
            too_large ==> grammar::number_value(text@.subrange(0, i as int)) > i32::MAX,
        decreases length - i,
    {
        let c = text.get_char(i);
        proof {
            let longer = text@.subrange(0, i + 1);
            assert(longer.drop_last() =~= text@.subrange(0, i as int));
            assert(longer.last() == c);
        }
        if '0' <= c && c <= '9' {
            let digit: u32 = c as u32 - '0' as u32;
            if !too_large {
                if value > 214748364 || value * 10 + digit > 2147483647 {
                    too_large = true;
                } else {
                    value = value * 10 + digit;
                }
            }
        } else if c != '_' {
            proof {
                let whole = text@;
                assert(whole[i as int] == c);
            }
            return None;
        }
        proof {
            let longer = text@.subrange(0, i + 1);
            assert forall|k: int| 0 <= k < longer.len() implies ('0' <= #[trigger] longer[k]
                <= '9') || longer[k] == '_' by {
                if k < i {
                    assert(text@.subrange(0, i as int)[k] == longer[k]);
                }
            }
        }
        i += 1;
    }
    assert(text@.subrange(0, i as int) =~= text@);
    if too_large {
        None
    } else {
        Some(value as i32)
    }
}

fn parse_primary(tokens: &[Token<'_>], pos: usize) -> (result: Result<(Expression, usize), usize>)
    requires
        pos <= tokens@.len(),
    ensures
        parsed_expression(result) == grammar::primary(tokens_view(tokens@), pos as int),
        grammar::advances(parsed_expression(result), pos as int, tokens@.len()),
    decreases tokens@.len() - pos, 0nat,
{
    match peek(tokens, pos) {
        Some(Tok::Number(text)) => match parse_number(text) {
            Some(number) => Ok((Expression::Literal(Value::Number(number)), pos + 1)),
            None => Err(pos),
        },
        Some(Tok::True) => Ok((Expression::Literal(Value::Bool(true)), pos + 1)),
        Some(Tok::False) => Ok((Expression::Literal(Value::Bool(false)), pos + 1)),
        Some(Tok::Identifier(name)) => {
            if matches!(peek(tokens, pos + 1), Some(Tok::OpenParen)) {
                match parse_arguments(tokens, pos + 2) {
                    Ok((list, next)) => {
                        let name = name.to_owned();
                        proof {
                            lemma_call_view(name, list);
                        }
                        Ok((Expression::FunctionCall(name, list), next))
                    },
                    Err(at) => Err(at),
                }
            } else {
                Ok((Expression::Variable(name.to_owned()), pos + 1))
            }
        },
        Some(Tok::OpenParen) => match parse_expression(tokens, pos + 1) {
            Ok((inner, next)) => {
                if matches!(peek(tokens, next), Some(Tok::CloseParen)) {
                    Ok((inner, next + 1))
                } else {
                    Err(next)
                }
            },
            Err(at) => Err(at),
        },
        _ => Err(pos),
    }
}

fn parse_unary(tokens: &[Token<'_>], pos: usize) -> (result: Result<(Expression, usize), usize>)
    requires
        pos <= tokens@.len(),
    ensures
        parsed_expression(result) == grammar::unary(tokens_view(tokens@), pos as int),
        grammar::advances(parsed_expression(result), pos as int, tokens@.len()),
    decreases tokens@.len() - pos, 1nat,
{
    let op = match peek(tokens, pos) {
        Some(Tok::Not) => UnaryOperator::Not,
        Some(Tok::Minus) => UnaryOperator::Minus,
        _ => {
            return parse_primary(tokens, pos);
        },
    };
    match parse_unary(tokens, pos + 1) {
        Ok((operand, next)) => Ok((Expression::UnaryOp(op, Box::new(operand)), next)),
        Err(at) => Err(at),
    }
}

fn binary_operator_at(tokens: &[Token<'_>], pos: usize, level: usize) -> (op: Option<
    BinaryOperator,
>)
    ensures
        op == grammar::binary_operator(
            level as nat,
            grammar::tok_at(tokens_view(tokens@), pos as int),
        ),
        op is Some ==> pos < tokens@.len(),
        tokens@.len() <= usize::MAX,
{
    let tok = peek(tokens, pos);
    if level == 1 {
        match tok {
            Some(Tok::Mul) => Some(BinaryOperator::Mul),
            Some(Tok::Div) => Some(BinaryOperator::Div),
            _ => None,
        }
    } else if level == 2 {
        match tok {
            Some(Tok::Plus) => Some(BinaryOperator::Add),
            Some(Tok::Minus) => Some(BinaryOperator::Sub),
            _ => None,
        }
    } else if level == 3 {
        match tok {
            Some(Tok::Less) => Some(BinaryOperator::Less),
            Some(Tok::LessOrEqual) => Some(BinaryOperator::LessOrEqual),
            Some(Tok::DoubleEquals) => Some(BinaryOperator::Equals),
            Some(Tok::NotEquals) => Some(BinaryOperator::NotEquals),
            Some(Tok::Greater) => Some(BinaryOperator::Greater),
            Some(Tok::GreaterOrEqual) => Some(BinaryOperator::GreaterOrEqual),
            _ => None,
        }
    } else {
        None
    }
}

fn parse_binary(tokens: &[Token<'_>], pos: usize, level: usize) -> (result: Result<
    (Expression, usize),
    usize,
>)
    requires
        pos <= tokens@.len(),
        level <= BINARY_LEVELS,
    ensures
        parsed_expression(result) == grammar::binary(
            tokens_view(tokens@),
            pos as int,
            level as nat,
        ),
        grammar::advances(parsed_expression(result), pos as int, tokens@.len()),
    decreases tokens@.len() - pos, 2 * level + 3,
{
    if level == 0 {
        return parse_unary(tokens, pos);
    }
    let (mut lhs, mut next) = match parse_binary(tokens, pos, level - 1) {
        Ok(parsed) => parsed,
        Err(at) => {
            return Err(at);
        },
    };
    loop
        invariant
            0 < level <= BINARY_LEVELS,
            pos < next <= tokens@.len(),
            grammar::binary_rest(tokens_view(tokens@), next as int, level as nat, lhs@)
                == grammar::binary(tokens_view(tokens@), pos as int, level as nat),
        decreases tokens@.len() - next,
    {
        let op = match binary_operator_at(tokens, next, level) {
            Some(op) => op,
            None => {
                return Ok((lhs, next));
            },
        };
        let (rhs, after) = match parse_binary(tokens, next + 1, level - 1) {
            Ok(parsed) => parsed,
            Err(at) => {
                return Err(at);
            },
        };
        lhs = Expression::BinaryOp(Box::new(lhs), op, Box::new(rhs));
        next = after;
    }
}

fn parse_expression(tokens: &[Token<'_>], pos: usize) -> (result: Result<
    (Expression, usize),
    usize,
>)
    requires
        pos <= tokens@.len(),
    ensures
        parsed_expression(result) == grammar::expression(tokens_view(tokens@), pos as int),
        grammar::advances(parsed_expression(result), pos as int, tokens@.len()),
    decreases tokens@.len() - pos, 2 * BINARY_LEVELS + 4,
{
    parse_binary(tokens, pos, BINARY_LEVELS)
}

fn parse_arguments(tokens: &[Token<'_>], pos: usize) -> (result: Result<
    (Vec<Expression>, usize),
    usize,
>)
    requires
        pos <= tokens@.len(),
    ensures
        parsed_expressions(result) == grammar::arguments(tokens_view(tokens@), pos as int),
        grammar::advances(parsed_expressions(result), pos as int, tokens@.len()),
    decreases tokens@.len() - pos, 2 * BINARY_LEVELS + 6,
{
    let mut list: Vec<Expression> = Vec::new();
    if matches!(peek(tokens, pos), Some(Tok::CloseParen)) {
        assert(expressions_view(list@) =~= Seq::empty());
        return Ok((list, pos + 1));
    }
    let mut next = match parse_expression(tokens, pos) {
        Ok((first, next)) => {
            list.push(first);
            assert(expressions_view(list@) =~= seq![first@]);
            next
        },
        Err(at) => {
            return Err(at);
        },
    };
    loop
        invariant
            pos < next <= tokens@.len(),
            grammar::arguments_rest(tokens_view(tokens@), next as int, expressions_view(list@))
                == grammar::arguments(tokens_view(tokens@), pos as int),
        decreases tokens@.len() - next,
    {
        match peek(tokens, next) {
            Some(Tok::CloseParen) => {
                return Ok((list, next + 1));
            },
            Some(Tok::Comma) => {},
            _ => {
                return Err(next);
            },
        }
        let ghost before = expressions_view(list@);
        match parse_expression(tokens, next + 1) {
            Ok((argument, after)) => {
                list.push(argument);
                assert(expressions_view(list@) =~= before.push(argument@));
                next = after;
            },
            Err(at) => {
                return Err(at);
            },
        }
    }
}

fn parse_expression_and_semicolon(tokens: &[Token<'_>], pos: usize) -> (result: Result<
    (Expression, usize),
    usize,
>)
    requires
        pos <= tokens@.len(),
    ensures
        parsed_expression(result) == grammar::expression_and_semicolon(
            tokens_view(tokens@),
            pos as int,
        ),
        grammar::advances(parsed_expression(result), pos as int, tokens@.len()),
    decreases tokens@.len() - pos, 2 * BINARY_LEVELS + 7,
{
    match parse_expression(tokens, pos) {
        Ok((value, next)) => {
            if matches!(peek(tokens, next), Some(Tok::SemiColon)) {
                Ok((value, next + 1))
            } else {
                Err(next)
            }
        },
        Err(at) => Err(at),
    }
}

fn parse_statement(tokens: &[Token<'_>], pos: usize) -> (result: Result<(Statement, usize), usize>)
    requires
        pos <= tokens@.len(),
    ensures
        parsed_statement(result) == grammar::statement(tokens_view(tokens@), pos as int),
        grammar::advances(parsed_statement(result), pos as int, tokens@.len()),
    decreases tokens@.len() - pos, 2 * BINARY_LEVELS + 8,
{
    match peek(tokens, pos) {
        Some(Tok::SemiColon) => Ok((Statement::Empty, pos + 1)),
        Some(Tok::Let) => {
            let name = match peek(tokens, pos + 1) {
                Some(Tok::Identifier(name)) => name,
                _ => {
                    return Err(pos + 1);
                },
            };
            if !matches!(peek(tokens, pos + 2), Some(Tok::SingleEquals)) {
                return Err(pos + 2);
            }
            match parse_expression_and_semicolon(tokens, pos + 3) {
                Ok((value, next)) => Ok((Statement::Assignment(name.to_owned(), value), next)),
                Err(at) => Err(at),
            }
        },
        Some(Tok::Fn) => {
            let name = match peek(tokens, pos + 1) {
                Some(Tok::Identifier(name)) => name,
                _ => {
                    return Err(pos + 1);
                },
            };
            if !matches!(peek(tokens, pos + 2), Some(Tok::OpenParen)) {
                return Err(pos + 2);
            }
            let parameter = match peek(tokens, pos + 3) {
                Some(Tok::Identifier(parameter)) => parameter,
                _ => {
                    return Err(pos + 3);
                },
            };
            if !matches!(peek(tokens, pos + 4), Some(Tok::CloseParen)) {
                return Err(pos + 4);
            }
            if !matches!(peek(tokens, pos + 5), Some(Tok::OpenBracket)) {
                return Err(pos + 5);
            }
            match parse_block(tokens, pos + 6) {
                Ok((body, next)) => {
                    let name = name.to_owned();
                    let parameter = parameter.to_owned();
                    proof {
                        lemma_declaration_view(name, parameter, body);
                    }
                    Ok((Statement::FunctionDeclaration(name, parameter, body), next))
                },
                Err(at) => Err(at),
            }
        },
        Some(Tok::Return) => {
            if matches!(peek(tokens, pos + 1), Some(Tok::SemiColon)) {
                Ok((Statement::Return(None), pos + 2))
            } else {
                match parse_expression_and_semicolon(tokens, pos + 1) {
                    Ok((value, next)) => Ok((Statement::Return(Some(value)), next)),
                    Err(at) => Err(at),
                }
            }
        },
        _ => match parse_expression_and_semicolon(tokens, pos) {
            Ok((value, next)) => Ok((Statement::Expression(value), next)),
            Err(at) => Err(at),
        },
    }
}

fn parse_block(tokens: &[Token<'_>], pos: usize) -> (result: Result<
    (Vec<Statement>, usize),
    usize,
>)
    requires
        pos <= tokens@.len(),
    ensures
        parsed_statements(result) == grammar::block(
            tokens_view(tokens@),
            pos as int,
            Seq::empty(),
        ),
        grammar::advances(parsed_statements(result), pos as int, tokens@.len()),
    decreases tokens@.len() - pos, 2 * BINARY_LEVELS + 9,
{
    let mut list: Vec<Statement> = Vec::new();
    let mut next = pos;
    assert(statements_view(list@) =~= Seq::empty());
    loop
        invariant
            pos <= next <= tokens@.len(),
            grammar::block(tokens_view(tokens@), next as int, statements_view(list@))
                == grammar::block(tokens_view(tokens@), pos as int, Seq::empty()),
        decreases tokens@.len() - next,
    {
        if matches!(peek(tokens, next), Some(Tok::CloseBracket)) {
            return Ok((list, next + 1));
        }
        let ghost before = statements_view(list@);
        match parse_statement(tokens, next) {
            Ok((statement, after)) => {
                list.push(statement);
                assert(statements_view(list@) =~= before.push(statement@));
                next = after;
            },
            Err(at) => {
                return Err(at);
            },
        }
    }
}

fn parse_program(tokens: &[Token<'_>], complete: bool) -> (result: Result<Vec<Statement>, usize>)
    ensures
        match result {
            Ok(list) => grammar::program(tokens_view(tokens@), 0, Seq::empty(), complete) == Ok::<
                Seq<StatementView>,
                int,
            >(statements_view(list@)),
            Err(at) => grammar::program(tokens_view(tokens@), 0, Seq::empty(), complete) == Err::<
                Seq<StatementView>,
                int,
            >(at as int) && at <= tokens@.len(),
        },
{
    let mut list: Vec<Statement> = Vec::new();
    let mut next: usize = 0;
    assert(statements_view(list@) =~= Seq::empty());
    loop
        invariant
            next <= tokens@.len(),
            grammar::program(tokens_view(tokens@), next as int, statements_view(list@), complete)
                == grammar::program(tokens_view(tokens@), 0, Seq::empty(), complete),
        decreases tokens@.len() - next,
    {
        if next >= tokens.len() {
            if complete {
                return Ok(list);
            } else {
                return Err(tokens.len());
            }
        }
        let ghost before = statements_view(list@);
        match parse_statement(tokens, next) {
            Ok((statement, after)) => {
                list.push(statement);
                assert(statements_view(list@) =~= before.push(statement@));
                next = after;
            },
            Err(at) => {
                return Err(at);
            },
        }
    }
}

/// The program that `tokens` write. `failure` is the error of the lexer, if
/// it stopped after these tokens at a character that begins no token.
pub fn parse_tokens<'a>(tokens: &[Token<'a>], failure: Option<CacauError>) -> (result: Result<
    Vec<Statement>,
    ParseError<'a>,
>)
    requires
        failure matches Some(error) ==> error@ is UnexpectedToken,
    ensures
        program_outcome(result) == parse_tokens_spec(tokens_view(tokens@), failure_view(failure)),
{
    let at = match parse_program(tokens, failure.is_none()) {
        Ok(list) => {
            return Ok(list);
        },
        Err(at) => at,
    };
    if at < tokens.len() {
        Err(ParseError::UnrecognizedToken { token: tokens[at] })
    } else {
        match failure {
            Some(error) => Err(ParseError::User { error }),
            None => {
                if tokens.len() == 0 {
                    Err(ParseError::UnrecognizedEOF { location: 0 })
                } else {
                    Err(ParseError::UnrecognizedEOF { location: tokens[tokens.len() - 1].2 })
                }
            },
        }
    }
}

/// The views of a program or of the error in its place.
pub open spec fn program_outcome(result: Result<Vec<Statement>, ParseError<'_>>) -> Result<
    Seq<StatementView>,
    ParseErrorView,
> {
    match result {
        Ok(statements) => Ok(statements_view(statements@)),
        Err(error) => Err(error@),
    }
}

} // verus!
