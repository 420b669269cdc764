use crate::ast::{ExpressionView, FunctionView, StatementView};
use crate::error::ErrorView;
use crate::interpret::{eval_expression, eval_statement, run_body, run_program};
use crate::parser::parse_source;
use crate::value::Value;
use crate::vm::VmState;
use vstd::prelude::*;

verus! {

/// Whether a statement can run by itself: it is no `return`, and if it
/// declares a function, the body of that function can run.
pub open spec fn supported_statement(statement: StatementView) -> bool
    decreases statement,
{
    match statement {
        StatementView::Return(_) => false,
        StatementView::FunctionDeclaration(_, _, body) => supported_body(body),
        _ => true,
    }
}

/// Whether the body of a function can run: each of its statements is a
/// `return` with an expression, or can run by itself.
pub open spec fn supported_body(body: Seq<StatementView>) -> bool
    decreases body,
{
    forall|i: int|
        0 <= i < body.len() ==> (#[trigger] body[i] matches StatementView::Return(Some(_)))
            || supported_statement(body[i])
}

/// Whether a program can run: each of its statements can run by itself.
pub open spec fn supported_program(program: Seq<StatementView>) -> bool {
    forall|i: int| 0 <= i < program.len() ==> supported_statement(#[trigger] program[i])
}

/// Whether the body of every function that an environment holds can run.
pub open spec fn supported_state(state: VmState) -> bool {
    forall|name: Seq<char>| #[trigger]
        state.functions.contains_key(name) ==> supported_body(state.functions[name].body)
}

/// The errors of a name lookup, of an operand or an argument of the wrong
/// kind, of a wrong number of arguments, of a failed assertion and of an
/// unexpected token.
pub open spec fn is_common_error(error: ErrorView) -> bool {
    error is UnexpectedToken || error is UndefinedVariable || error is UndefinedFunction
        || error is InvalidBinaryOperation || error is InvalidUnaryOperation
        || error is WrongAmountOfArguments || error is FunctionWrongArgumentType
        || error is AssertionError
}

/// After an assignment has run, the variable holds the value that the
/// assignment gave it, whatever was assigned to it before.
pub proof fn lemma_assignment_is_observed(
    name: Seq<char>,
    value: ExpressionView,
    state: VmState,
    depth: nat,
)
    ensures
        ({
            let assignment = StatementView::Assignment(name, value);
            let (result, after) = eval_statement(assignment, state, depth);
            result is Ok ==> eval_expression(ExpressionView::Variable(name), after, depth) == (
                eval_expression(value, state, depth).0,
                after,
            )
        }),
{
}

/// After a declaration has run, the name stands for the function that the
/// declaration gave it, whatever was declared under it before.
pub proof fn lemma_declaration_is_observed(
    name: Seq<char>,
    parameter: Seq<char>,
    body: Seq<StatementView>,
    state: VmState,
    depth: nat,
)
    ensures
        ({
            let declaration = StatementView::FunctionDeclaration(name, parameter, body);
            let (result, after) = eval_statement(declaration, state, depth);
            result is Ok && after.function(name) == Ok::<FunctionView, ErrorView>(
                FunctionView { arguments: parameter, body },
            )
        }),
{
}

/// An expression never fails for a `return` out of place, in an environment
/// whose functions can all run; and it leaves such an environment.
pub proof fn lemma_expression_in_supported_state(
    expression: ExpressionView,
    state: VmState,
    depth: nat,
)
    requires
        supported_state(state),
    ensures
        supported_state(eval_expression(expression, state, depth).1),
        eval_expression(expression, state, depth).0 != Err::<Value, ErrorView>(
            ErrorView::UnsupportedReturn,
        ),
    decreases depth, 0nat, expression, 0nat,
{
    match expression {
        ExpressionView::Literal(_) => {},
        ExpressionView::BinaryOp(lhs, op, rhs) => {
            lemma_expression_in_supported_state(*lhs, state, depth);
            let (left, after_left) = eval_expression(*lhs, state, depth);
            if left is Ok {
                lemma_expression_in_supported_state(*rhs, after_left, depth);
            }
        },
        ExpressionView::UnaryOp(op, operand) => {
            lemma_expression_in_supported_state(*operand, state, depth);
        },
        ExpressionView::Variable(_) => {},
        ExpressionView::FunctionCall(name, arguments) => {
            if arguments.len() == 1 {
                lemma_expression_in_supported_state(arguments[0], state, depth);
                let (argument, after) = eval_expression(arguments[0], state, depth);
                if argument is Ok && !crate::interpret::is_builtin(name) && after.function(name)
                    is Ok && depth > 0 {
                    let function = after.functions[name];
                    lemma_body_in_supported_state(
                        function.body,
                        0,
                        after.assign(function.arguments, argument->Ok_0),
                        (depth - 1) as nat,
                    );
                }
            }
        },
    }
}

/// The body of a function that can run never fails for a `return` out of
/// place, in an environment whose functions can all run; and it leaves such
/// an environment.
pub proof fn lemma_body_in_supported_state(
    body: Seq<StatementView>,
    from: nat,
    state: VmState,
    depth: nat,
)
    requires
        supported_body(body),
        supported_state(state),
    ensures
        supported_state(run_body(body, from, state, depth).1),
        run_body(body, from, state, depth).0 != Err::<Value, ErrorView>(
            ErrorView::UnsupportedReturn,
        ),
    decreases depth, 2nat, body, body.len() - from,
{
    if from < body.len() {
        match body[from as int] {
            StatementView::Return(Some(expression)) => {
                lemma_expression_in_supported_state(expression, state, depth);
            },
            statement => {
                lemma_statement_in_supported_state(statement, state, depth);
                let (result, after) = eval_statement(statement, state, depth);
                if result is Ok {
                    lemma_body_in_supported_state(body, from + 1, after, depth);
                }
            },
        }
    }
}

/// A statement that can run never fails for a `return` out of place, in an
/// environment whose functions can all run; and it leaves such an
/// environment.
pub proof fn lemma_statement_in_supported_state(
    statement: StatementView,
    state: VmState,
    depth: nat,
)
    requires
        supported_statement(statement),
        supported_state(state),
    ensures
        supported_state(eval_statement(statement, state, depth).1),
        eval_statement(statement, state, depth).0 != Err::<(), ErrorView>(
            ErrorView::UnsupportedReturn,
        ),
    decreases depth, 1nat, statement, 0nat,
{
    match statement {
        StatementView::Expression(expression) => {
            lemma_expression_in_supported_state(expression, state, depth);
        },
        StatementView::Assignment(_, expression) => {
            lemma_expression_in_supported_state(expression, state, depth);
        },
        _ => {},
    }
}

/// A program that can run fails only with one of the common errors, with a
/// division by zero, or with calls nested too deep; and the functions that
/// it leaves declared can all run.
pub proof fn lemma_supported_program_fails_in_kind(
    program: Seq<StatementView>,
    from: nat,
    state: VmState,
    depth: nat,
)
    requires
        supported_program(program),
        supported_state(state),
    ensures
        supported_state(run_program(program, from, state, depth).1),
        run_program(program, from, state, depth).0 != Err::<(), ErrorView>(
            ErrorView::UnsupportedReturn,
        ),
    decreases program.len() - from,
{
    if from < program.len() {
        lemma_statement_in_supported_state(program[from as int], state, depth);
        let (result, after) = eval_statement(program[from as int], state, depth);
        if result is Ok {
            lemma_supported_program_fails_in_kind(program, from + 1, after, depth);
        }
    }
}

/// Whatever the source text, parsing and running it ends in a program's
/// result or in an error. A text that is no program gives an unexpected
/// token. A program that can run, run in a new environment, succeeds or fails
/// with one of the common errors, unless it divides by zero or nests its
/// calls too deep.
pub proof fn lemma_failures_are_common_errors(bytes: Seq<u8>, depth: nat)
    ensures
        match parse_source(bytes) {
            Err(error) => error.as_error() is UnexpectedToken,
            Ok(program) => {
                let result = run_program(program, 0, VmState::empty(), depth).0;
                supported_program(program) && result != Err::<(), ErrorView>(
                    ErrorView::DivisionByZero,
                ) && result != Err::<(), ErrorView>(ErrorView::CallDepthExceeded) ==> result is Ok
                    || is_common_error(result->Err_0)
            },
        },
{
    match parse_source(bytes) {
        Err(error) => {},
        Ok(program) => {
            if supported_program(program) {
                lemma_supported_program_fails_in_kind(program, 0, VmState::empty(), depth);
            }
        },
    }
}

/// The limit on nested calls only cuts runs short: an expression that is
/// evaluated without reaching the limit yields the same, and leaves the same
/// environment, under every larger limit.
pub proof fn lemma_expression_under_larger_limit(
    expression: ExpressionView,
    state: VmState,
    depth: nat,
    larger: nat,
)
    requires
        depth <= larger,
        eval_expression(expression, state, depth).0 != Err::<Value, ErrorView>(
            ErrorView::CallDepthExceeded,
        ),
    ensures
        eval_expression(expression, state, larger) == eval_expression(expression, state, depth),
    decreases depth, 0nat, expression, 0nat,
{
    match expression {
        ExpressionView::Literal(_) => {},
        ExpressionView::BinaryOp(lhs, op, rhs) => {
            lemma_expression_under_larger_limit(*lhs, state, depth, larger);
            let (left, after_left) = eval_expression(*lhs, state, depth);
            if left is Ok {
                lemma_expression_under_larger_limit(*rhs, after_left, depth, larger);
            }
        },
        ExpressionView::UnaryOp(op, operand) => {
            lemma_expression_under_larger_limit(*operand, state, depth, larger);
        },
        ExpressionView::Variable(_) => {},
        ExpressionView::FunctionCall(name, arguments) => {
            if arguments.len() == 1 {
                lemma_expression_under_larger_limit(arguments[0], state, depth, larger);
                let (argument, after) = eval_expression(arguments[0], state, depth);
                if argument is Ok && !crate::interpret::is_builtin(name) && after.function(name)
                    is Ok {
                    let function = after.functions[name];
                    lemma_body_under_larger_limit(
                        function.body,
                        0,
                        after.assign(function.arguments, argument->Ok_0),
                        (depth - 1) as nat,
                        (larger - 1) as nat,
                    );
                }
            }
        },
    }
}

/// A function's body that runs without reaching the limit on nested calls
/// yields the same, and leaves the same environment, under every larger
/// limit.
pub proof fn lemma_body_under_larger_limit(
    body: Seq<StatementView>,
    from: nat,
    state: VmState,
    depth: nat,
    larger: nat,
)
    requires
        depth <= larger,
        run_body(body, from, state, depth).0 != Err::<Value, ErrorView>(
            ErrorView::CallDepthExceeded,
        ),
    ensures
        run_body(body, from, state, larger) == run_body(body, from, state, depth),
    decreases depth, 2nat, body, body.len() - from,
{
    if from < body.len() {
        match body[from as int] {
            StatementView::Return(Some(expression)) => {
                lemma_expression_under_larger_limit(expression, state, depth, larger);
            },
            statement => {
                lemma_statement_under_larger_limit(statement, state, depth, larger);
                let (result, after) = eval_statement(statement, state, depth);
                if result is Ok {
                    lemma_body_under_larger_limit(body, from + 1, after, depth, larger);
                }
            },
        }
    }
}

/// A statement that runs without reaching the limit on nested calls yields
/// the same, and leaves the same environment, under every larger limit.
pub proof fn lemma_statement_under_larger_limit(
    statement: StatementView,
    state: VmState,
    depth: nat,
    larger: nat,
)
    requires
        depth <= larger,
        eval_statement(statement, state, depth).0 != Err::<(), ErrorView>(
            ErrorView::CallDepthExceeded,
        ),
    ensures
        eval_statement(statement, state, larger) == eval_statement(statement, state, depth),
    decreases depth, 1nat, statement, 0nat,
{
    match statement {
        StatementView::Expression(expression) => {
            lemma_expression_under_larger_limit(expression, state, depth, larger);
        },
        StatementView::Assignment(_, expression) => {
            lemma_expression_under_larger_limit(expression, state, depth, larger);
        },
        _ => {},
    }
}

/// A program that runs without reaching the limit on nested calls yields the
/// same, writes the same and leaves the same environment under every larger
/// limit: the limit changes no run but those that it cuts short.
pub proof fn lemma_program_under_larger_limit(
    program: Seq<StatementView>,
    from: nat,
    state: VmState,
    depth: nat,
    larger: nat,
)
    requires
        depth <= larger,
        run_program(program, from, state, depth).0 != Err::<(), ErrorView>(
            ErrorView::CallDepthExceeded,
        ),
    ensures
        run_program(program, from, state, larger) == run_program(program, from, state, depth),
    decreases program.len() - from,
{
    if from < program.len() {
        lemma_statement_under_larger_limit(program[from as int], state, depth, larger);
        let (result, after) = eval_statement(program[from as int], state, depth);
        if result is Ok {
            lemma_program_under_larger_limit(program, from + 1, after, depth, larger);
        }
    }
}

} // verus!
