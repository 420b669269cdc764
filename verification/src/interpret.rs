use crate::ast::{
    clone_statements, lemma_call_view, lemma_declaration_view, statements_view, Expression, ExpressionView,
    Function, FunctionView, Identifier, Statement, StatementView,
};
use crate::error::{outcome, CacauError, CacauResult, ErrorView};
use crate::text::{same_text, value_text};
use crate::value::{binary_result, kind_name, unary_result, BinaryOperator, UnaryOperator, Value};
use crate::vm::{Vm, VmState};
use vstd::prelude::*;

verus! {

/// What the built-in function `assert` yields on a value.
pub open spec fn assert_result(value: Value) -> Result<Value, ErrorView> {
    match value {
        Value::Bool(true) => Ok(Value::Unit),
        Value::Bool(false) => Err(ErrorView::AssertionError),
        _ => Err(ErrorView::FunctionWrongArgumentType("assert"@, "bool"@, kind_name(value))),
    }
}

/// Whether `name` is the name of a built-in function. A declared function of
/// such a name is never called.
pub open spec fn is_builtin(name: Seq<char>) -> bool {
    name == "dbg"@ || name == "println"@ || name == "print"@ || name == "assert"@
}

/// What calling the built-in function `name` on `value` yields, and the
/// environment that it leaves: `dbg` writes the value and a line break and
/// yields the value, `println` writes the value and a line break, `print`
/// writes the value, and `assert` writes nothing.
pub open spec fn eval_builtin(name: Seq<char>, value: Value, state: VmState) -> (
    Result<Value, ErrorView>,
    VmState,
)
    recommends
        is_builtin(name),
{
    if name == "dbg"@ {
        (Ok(value), state.write(value_text(value)).write(seq!['\n']))
    } else if name == "println"@ {
        (Ok(Value::Unit), state.write(value_text(value)).write(seq!['\n']))
    } else if name == "print"@ {
        (Ok(Value::Unit), state.write(value_text(value)))
    } else {
        (assert_result(value), state)
    }
}

/// The meaning of an expression: the value or error that evaluating it in
/// `state` yields, and the environment that it leaves. `depth` is the number
/// of function calls that may still nest.
///
/// Both operands of a binary operator are evaluated, the left one first. A
/// function call takes exactly one argument and evaluates it before anything
/// else; the built-in functions come before the declared ones.
pub open spec fn eval_expression(expression: ExpressionView, state: VmState, depth: nat) -> (
    Result<Value, ErrorView>,
    VmState,
)
    decreases depth, 0nat, expression, 0nat,
{
    match expression {
        ExpressionView::Literal(value) => (Ok(value), state),
        ExpressionView::BinaryOp(lhs, op, rhs) => {
            let (left, after_left) = eval_expression(*lhs, state, depth);
            match left {
                Err(error) => (Err(error), after_left),
                Ok(left_value) => {
                    let (right, after_right) = eval_expression(*rhs, after_left, depth);
                    match right {
                        Err(error) => (Err(error), after_right),
                        Ok(right_value) => (binary_result(op, left_value, right_value), after_right),
                    }
                },
            }
        },
        ExpressionView::UnaryOp(op, operand) => {
            let (inner, after) = eval_expression(*operand, state, depth);
            match inner {
                Err(error) => (Err(error), after),
                Ok(value) => (unary_result(op, value), after),
            }
        },
        ExpressionView::Variable(name) => (state.variable(name), state),
        ExpressionView::FunctionCall(name, arguments) => {
            if arguments.len() != 1 {
                (
                    Err(ErrorView::WrongAmountOfArguments(name, 1, arguments.len() as usize)),
                    state,
                )
            } else {
                let (argument, after) = eval_expression(arguments[0], state, depth);
                match argument {
                    Err(error) => (Err(error), after),
                    Ok(value) => {
                        if is_builtin(name) {
                            eval_builtin(name, value, after)
                        } else {
                            match after.function(name) {
                                Err(error) => (Err(error), after),
                                Ok(function) => {
                                    if depth == 0 {
                                        (Err(ErrorView::CallDepthExceeded), after)
                                    } else {
                                        run_body(
                                            function.body,
                                            0,
                                            after.assign(function.arguments, value),
                                            (depth - 1) as nat,
                                        )
                                    }
                                },
                            }
                        }
                    },
                }
            }
        },
    }
}

/// The meaning of a function's body from its statement `from` on: the
/// statements run in order, in the caller's own environment. The first that
/// is a `return` with an expression ends the call with that expression's
/// value; an error ends it too; a body that runs to its end yields the unit
/// value.
pub open spec fn run_body(body: Seq<StatementView>, from: nat, state: VmState, depth: nat) -> (
    Result<Value, ErrorView>,
    VmState,
)
    decreases depth, 2nat, body, body.len() - from,
{
    if from >= body.len() {
        (Ok(Value::Unit), state)
    } else {
        match body[from as int] {
            StatementView::Return(Some(expression)) => eval_expression(expression, state, depth),
            statement => {
                let (result, after) = eval_statement(statement, state, depth);
                match result {
                    Err(error) => (Err(error), after),
                    Ok(_) => run_body(body, from + 1, after, depth),
                }
            },
        }
    }
}

/// The meaning of a statement: whether it fails, and the environment that it
/// leaves. A `return` is no statement that can run by itself.
pub open spec fn eval_statement(statement: StatementView, state: VmState, depth: nat) -> (
    Result<(), ErrorView>,
    VmState,
)
    decreases depth, 1nat, statement, 0nat,
{
    match statement {
        StatementView::Empty => (Ok(()), state),
        StatementView::Expression(expression) => {
            let (result, after) = eval_expression(expression, state, depth);
            match result {
                Err(error) => (Err(error), after),
                Ok(_) => (Ok(()), after),
            }
        },
        StatementView::Assignment(name, expression) => {
            let (result, after) = eval_expression(expression, state, depth);
            match result {
                Err(error) => (Err(error), after),
                Ok(value) => (Ok(()), after.assign(name, value)),
            }
        },
        StatementView::FunctionDeclaration(name, parameter, body) => (
            Ok(()),
            state.declare(name, FunctionView { arguments: parameter, body }),
        ),
        StatementView::Return(_) => (Err(ErrorView::UnsupportedReturn), state),
    }
}

/// The meaning of a program from its statement `from` on: the statements run
/// in order until one fails.
pub open spec fn run_program(
    statements: Seq<StatementView>,
    from: nat,
    state: VmState,
    depth: nat,
) -> (Result<(), ErrorView>, VmState)
    decreases statements.len() - from,
{
    if from >= statements.len() {
        (Ok(()), state)
    } else {
        let (result, after) = eval_statement(statements[from as int], state, depth);
        match result {
            Err(error) => (Err(error), after),
            Ok(_) => run_program(statements, from + 1, after, depth),
        }
    }
}

/// What can be evaluated in an execution environment.
pub trait Interpret<T = ()> {
    fn evaluate(&self, vm: &mut Vm) -> CacauResult<T>;
}

/// The single argument of a call of `identifier`, or the error for a call
/// with another number of arguments.
pub fn check_and_return_arguments_quantity<'a, T>(
    arguments: &'a [T],
    identifier: &Identifier,
) -> (result: CacauResult<&'a T>)
    ensures
        arguments@.len() == 1 ==> result == Ok::<&T, CacauError>(&arguments@[0]),
        arguments@.len() != 1 ==> result is Err && result->Err_0@
            == ErrorView::WrongAmountOfArguments(identifier@, 1, arguments@.len() as usize),
{
    if arguments.len() != 1 {
        return Err(CacauError::WrongAmountOfArguments(identifier.clone(), 1, arguments.len()));
    }
    Ok(&arguments[0])
}

/// Calls the built-in function `identifier` on `value`, if there is one of
/// that name.
fn call_builtin(identifier: &Identifier, value: Value, vm: &mut Vm) -> (result: Option<
    CacauResult<Value>,
>)
    ensures
        result is Some == is_builtin(identifier@),
        result is Some ==> (outcome(result->Some_0), final(vm)@) == eval_builtin(
            identifier@,
            value,
            old(vm)@,
        ),
        result is None ==> final(vm)@ == old(vm)@,
        final(vm).depth_left() == old(vm).depth_left(),
{
    let name = identifier.as_str();
    if same_text(name, "dbg") {
        vm.write_value(value);
        vm.write_line_break();
        Some(Ok(value))
    } else if same_text(name, "println") {
        vm.write_value(value);
        vm.write_line_break();
        Some(Ok(Value::Unit))
    } else if same_text(name, "print") {
        vm.write_value(value);
        Some(Ok(Value::Unit))
    } else if same_text(name, "assert") {
        match value {
            Value::Bool(true) => Some(Ok(Value::Unit)),
            Value::Bool(false) => Some(Err(CacauError::AssertionError)),
            _ => Some(
                Err(CacauError::FunctionWrongArgumentType("assert", "bool", value.variant_name())),
            ),
        }
    } else {
        None
    }
}

/// Applies a binary operator to two values.
pub fn apply_binary(op: BinaryOperator, lhs: Value, rhs: Value) -> (result: CacauResult<Value>)
    ensures
        outcome(result) == binary_result(op, lhs, rhs),
{
    match op {
        BinaryOperator::Add => lhs.add_op(rhs),
        BinaryOperator::Sub => lhs.sub_op(rhs),
        BinaryOperator::Mul => lhs.mul_op(rhs),
        BinaryOperator::Div => lhs.div_op(rhs),
        BinaryOperator::Less => lhs.less_op(rhs),
        BinaryOperator::LessOrEqual => lhs.less_or_equal_op(rhs),
        BinaryOperator::Equals => lhs.equals_op(rhs),
        BinaryOperator::NotEquals => lhs.not_equals_op(rhs),
        BinaryOperator::Greater => lhs.greater_op(rhs),
        BinaryOperator::GreaterOrEqual => lhs.greater_or_equal_op(rhs),
    }
}

/// Applies a unary operator to a value.
pub fn apply_unary(op: UnaryOperator, operand: Value) -> (result: CacauResult<Value>)
    ensures
        outcome(result) == unary_result(op, operand),
{
    match op {
        UnaryOperator::Not => operand.not_op(),
        UnaryOperator::Minus => operand.minus_op(),
    }
}

impl Interpret<Value> for Expression {
    /// Evaluates the expression in `vm`.
    fn evaluate(&self, vm: &mut Vm) -> (result: CacauResult<Value>)
        ensures
            (outcome(result), final(vm)@) == eval_expression(
                self@,
                old(vm)@,
                old(vm).depth_left(),
            ),
            final(vm).depth_left() == old(vm).depth_left(),
        decreases old(vm).depth_left(), 0nat, *self, 0nat,
    {
        match self {
            Expression::Literal(value) => Ok(*value),
            Expression::BinaryOp(lhs, op, rhs) => {
                let left = match lhs.evaluate(vm) {
                    Ok(value) => value,
                    Err(error) => {
                        return Err(error);
                    },
                };
                let right = match rhs.evaluate(vm) {
                    Ok(value) => value,
                    Err(error) => {
                        return Err(error);
                    },
                };
                apply_binary(*op, left, right)
            },
            Expression::UnaryOp(op, operand) => {
                let value = match operand.evaluate(vm) {
                    Ok(value) => value,
                    Err(error) => {
                        return Err(error);
                    },
                };
                apply_unary(*op, value)
            },
            Expression::Variable(identifier) => vm.get_variable(identifier),
            Expression::FunctionCall(identifier, arguments) => {
                proof {
                    lemma_call_view(*identifier, *arguments);
                }
                let expression = match check_and_return_arguments_quantity(
                    arguments.as_slice(),
                    identifier,
                ) {
                    Ok(expression) => expression,
                    Err(error) => {
                        return Err(error);
                    },
                };
                assert(decreases_to!(*self => self->FunctionCall_1));
                assert(decreases_to!(*arguments => arguments@));
                assert(decreases_to!(arguments@ => arguments@[0]));
                let value = match expression.evaluate(vm) {
                    Ok(value) => value,
                    Err(error) => {
                        return Err(error);
                    },
                };
                match call_builtin(identifier, value, vm) {
                    Some(result) => {
                        return result;
                    },
                    None => {},
                }
                let function = match vm.get_function(identifier) {
                    Ok(function) => function,
                    Err(error) => {
                        return Err(error);
                    },
                };
                if !vm.enter_call() {
                    return Err(CacauError::CallDepthExceeded);
                }
                vm.assign_variable(function.arguments.clone(), value);
                let result = run_function_body(&function.body, vm);
                vm.leave_call();
                result
            },
        }
    }
}

/// Runs the body of a function that was just called.
fn run_function_body(body: &Vec<Statement>, vm: &mut Vm) -> (result: CacauResult<Value>)
    ensures
        (outcome(result), final(vm)@) == run_body(
            statements_view(body@),
            0,
            old(vm)@,
            old(vm).depth_left(),
        ),
        final(vm).depth_left() == old(vm).depth_left(),
    decreases old(vm).depth_left(), 2nat, *body, 0nat,
{
    let ghost statements = statements_view(body@);
    let ghost depth = old(vm).depth_left();
    let mut i: usize = 0;
    while i < body.len()
        invariant
            i <= body.len(),
            statements == statements_view(body@),
            depth == old(vm).depth_left(),
            vm.depth_left() == depth,
            run_body(statements, i as nat, vm@, depth) == run_body(statements, 0, old(vm)@, depth),
        decreases body.len() - i,
    {
        match &body[i] {
            Statement::Return(Some(expression)) => {
                return expression.evaluate(vm);
            },
            statement => {
                match statement.evaluate(vm) {
                    Ok(_) => {},
                    Err(error) => {
                        return Err(error);
                    },
                }
            },
        }
        i += 1;
    }
    Ok(Value::Unit)
}

impl Interpret for Statement {
    /// Runs the statement in `vm`.
    fn evaluate(&self, vm: &mut Vm) -> (result: CacauResult)
        ensures
            (outcome(result), final(vm)@) == eval_statement(
                self@,
                old(vm)@,
                old(vm).depth_left(),
            ),
            final(vm).depth_left() == old(vm).depth_left(),
        decreases old(vm).depth_left(), 1nat, *self, 0nat,
    {
        match self {
            Statement::Empty => {},
            Statement::Expression(expression) => {
                match expression.evaluate(vm) {
                    Ok(_) => {},
                    Err(error) => {
                        return Err(error);
                    },
                }
            },
            Statement::Assignment(identifier, expression) => {
                let value = match expression.evaluate(vm) {
                    Ok(value) => value,
                    Err(error) => {
                        return Err(error);
                    },
                };
                vm.assign_variable(identifier.clone(), value);
            },
            Statement::FunctionDeclaration(identifier, arguments, body) => {
                proof {
                    lemma_declaration_view(*identifier, *arguments, *body);
                }
                let function = Function::new(arguments.clone(), clone_statements(body));
                vm.declare_function(identifier.clone(), function);
            },
            Statement::Return(_) => {
                return Err(CacauError::UnsupportedReturn);
            },
        }
        Ok(())
    }
}

/// Runs the statements of a program in `vm`, in order, until one fails.
fn run_statements(statements: &[Statement], vm: &mut Vm) -> (result: CacauResult)
    ensures
        (outcome(result), final(vm)@) == run_program(
            statements_view(statements@),
            0,
            old(vm)@,
            old(vm).depth_left(),
        ),
        final(vm).depth_left() == old(vm).depth_left(),
{
    let ghost program = statements_view(statements@);
    let ghost depth = old(vm).depth_left();
    let mut i: usize = 0;
    while i < statements.len()
        invariant
            i <= statements.len(),
            program == statements_view(statements@),
            depth == old(vm).depth_left(),
            vm.depth_left() == depth,
            run_program(program, i as nat, vm@, depth) == run_program(program, 0, old(vm)@, depth),
        decreases statements.len() - i,
    {
        let ghost before = vm@;
        let result = statements[i].evaluate(vm);
        assert((outcome(result), vm@) == eval_statement(program[i as int], before, depth));
        match result {
            Ok(_) => {
                assert(run_program(program, i as nat, before, depth) == run_program(
                    program,
                    (i + 1) as nat,
                    vm@,
                    depth,
                ));
            },
            Err(error) => {
                return Err(error);
            },
        }
        i += 1;
    }
    Ok(())
}

impl Vm {
    /// Runs the statements of a program in this environment, in order, until
    /// one fails.
    pub fn interpret(&mut self, statements: &[Statement]) -> (result: CacauResult)
        ensures
            (outcome(result), final(self)@) == run_program(
                statements_view(statements@),
                0,
                old(self)@,
                old(self).depth_left(),
            ),
            final(self).depth_left() == old(self).depth_left(),
    {
        run_statements(statements, self)
    }
}

} // verus!
