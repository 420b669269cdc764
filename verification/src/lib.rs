//! An interpreter for a small language of statements and expressions:
//! variables, arithmetic and comparisons on 32-bit numbers, functions of one
//! parameter and a few built-in functions.
//!
//! Source text is cut into tokens by the [`Lexer`], the tokens are parsed into
//! [`Statement`]s, and the statements run in an execution environment, the
//! [`Vm`].

mod ast;
mod error;
mod grammar;
mod interpret;
mod laws;
mod lexer;
mod parser;
mod text;
mod value;
mod vm;

pub use crate::ast::{
    clone_statements, expression_view, expressions_view, statement_view, statements_view,
    Expression, ExpressionView, Function, FunctionView, Identifier, Statement, StatementView,
};
pub use crate::error::{outcome, unexpected_token, CacauError, CacauResult, ErrorView, Span, Spanned};
pub use crate::grammar::{advances, number_literal, number_value, Parsed, BINARY_LEVELS};
pub use crate::interpret::{
    apply_binary, apply_unary, check_and_return_arguments_quantity, eval_builtin,
    eval_expression, eval_statement, is_builtin, run_body, run_program, Interpret,
};
pub use crate::laws::{
    is_common_error, lemma_assignment_is_observed, lemma_body_in_supported_state,
    lemma_body_under_larger_limit, lemma_declaration_is_observed,
    lemma_expression_in_supported_state, lemma_expression_under_larger_limit,
    lemma_program_under_larger_limit, lemma_statement_under_larger_limit,
    lemma_failures_are_common_errors, lemma_statement_in_supported_state,
    lemma_supported_program_fails_in_kind, supported_body, supported_program, supported_state,
    supported_statement,
};
pub use crate::lexer::{
    lex_from, next_lexeme, tokenize, tokens_view, Lexed, Lexeme, Lexer, LexerView, SpannedTok,
    Tok, TokView, Token,
};
pub use crate::parser::{
    parse_number, parse_source, parse_tokens, parse_tokens_spec, program_outcome, ParseError,
    ParseErrorView,
};
pub use crate::text::{decimal, number_text, value_text};
pub use crate::value::{
    binary_result, kind_name, truncated_quotient, unary_result, wrap_i32, BinaryOperator,
    UnaryOperator, Value,
};
pub use crate::vm::{lemma_last_write_wins, Vm, VmState, DEFAULT_CALL_DEPTH};

use vstd::prelude::*;
use vstd::string::StringSliceAdditionalSpecFns;

verus! {

/// Parses a source text into the statements of a program.
pub fn parse_input(input: &str) -> (result: Result<Vec<Statement>, ParseError<'_>>)
    ensures
        program_outcome(result) == parse_source(input.spec_bytes()),
{
    let (tokens, failure) = tokenize(input);
    parse_tokens(tokens.as_slice(), failure)
}

/// Runs the statements of a program, in order, in a new environment, until
/// one fails. Gives the outcome, and with it the text that the program wrote
/// to the console, up to the failure if there is one.
///
/// Function calls may nest [`DEFAULT_CALL_DEPTH`] deep; a call inside that
/// many others fails with [`CacauError::CallDepthExceeded`]. To run a program
/// with another limit, make the environment with [`Vm::with_call_depth`] and
/// run the program with [`Vm::interpret`].
pub fn interpret_ast(statements: &[Statement]) -> (run: (CacauResult, String))
    ensures
        outcome(run.0) == run_program(
            statements_view(statements@),
            0,
            VmState::empty(),
            DEFAULT_CALL_DEPTH as nat,
        ).0,
        run.1@ == run_program(
            statements_view(statements@),
            0,
            VmState::empty(),
            DEFAULT_CALL_DEPTH as nat,
        ).1.output,
{
    let mut vm = Vm::new();
    let result = vm.interpret(statements);
    let output = vm.take_output();
    (result, output)
}

} // verus!
