use crate::value::{BinaryOperator, UnaryOperator, Value};
use vstd::prelude::*;

verus! {

pub type Identifier = String;

/// A statement of a program.
#[derive(Debug)]
pub enum Statement {
    Empty,
    Assignment(Identifier, Expression),
    Expression(Expression),
    FunctionDeclaration(Identifier, Identifier, Vec<Statement>),
    Return(Option<Expression>),
}

/// An expression of a program.
#[derive(Debug)]
pub enum Expression {
    Literal(Value),
    BinaryOp(Box<Expression>, BinaryOperator, Box<Expression>),
    UnaryOp(UnaryOperator, Box<Expression>),
    Variable(Identifier),
    FunctionCall(Identifier, Vec<Expression>),
}

/// A declared function: the name of its one parameter, and its body.
#[derive(Debug)]
pub struct Function {
    pub arguments: Identifier,
    pub body: Vec<Statement>,
}

/// A statement as a mathematical tree: names are sequences of characters,
/// lists are sequences.
pub enum StatementView {
    Empty,
    Assignment(Seq<char>, ExpressionView),
    Expression(ExpressionView),
    FunctionDeclaration(Seq<char>, Seq<char>, Seq<StatementView>),
    Return(Option<ExpressionView>),
}

/// An expression as a mathematical tree.
pub enum ExpressionView {
    Literal(Value),
    BinaryOp(Box<ExpressionView>, BinaryOperator, Box<ExpressionView>),
    UnaryOp(UnaryOperator, Box<ExpressionView>),
    Variable(Seq<char>),
    FunctionCall(Seq<char>, Seq<ExpressionView>),
}

/// A declared function as a mathematical value.
pub struct FunctionView {
    pub arguments: Seq<char>,
    pub body: Seq<StatementView>,
}

/// The mathematical tree of an expression.
pub open spec fn expression_view(expression: Expression) -> ExpressionView
    decreases expression,
{
    match expression {
        Expression::Literal(value) => ExpressionView::Literal(value),
        Expression::BinaryOp(lhs, op, rhs) => ExpressionView::BinaryOp(
            Box::new(expression_view(*lhs)),
            op,
            Box::new(expression_view(*rhs)),
        ),
        Expression::UnaryOp(op, operand) => ExpressionView::UnaryOp(
            op,
            Box::new(expression_view(*operand)),
        ),
        Expression::Variable(name) => ExpressionView::Variable(name@),
        Expression::FunctionCall(name, arguments) => ExpressionView::FunctionCall(
            name@,
            Seq::new(
                arguments@.len(),
                |i: int|
                    if 0 <= i < arguments@.len() {
                        expression_view(arguments@[i])
                    } else {
                        ExpressionView::Literal(Value::Unit)
                    },
            ),
        ),
    }
}

/// The mathematical tree of a statement.
pub open spec fn statement_view(statement: Statement) -> StatementView
    decreases statement,
{
    match statement {
        Statement::Empty => StatementView::Empty,
        Statement::Assignment(name, expression) => StatementView::Assignment(
            name@,
            expression_view(expression),
        ),
        Statement::Expression(expression) => StatementView::Expression(
            expression_view(expression),
        ),
        Statement::FunctionDeclaration(name, parameter, body) => {
            StatementView::FunctionDeclaration(
                name@,
                parameter@,
                Seq::new(
                    body@.len(),
                    |i: int|
                        if 0 <= i < body@.len() {
                            statement_view(body@[i])
                        } else {
                            StatementView::Empty
                        },
                ),
            )
        },
        Statement::Return(None) => StatementView::Return(None),
        Statement::Return(Some(expression)) => StatementView::Return(
            Some(expression_view(expression)),
        ),
    }
}

impl View for Expression {
    type V = ExpressionView;

    open spec fn view(&self) -> ExpressionView {
        expression_view(*self)
    }
}

impl View for Statement {
    type V = StatementView;

    open spec fn view(&self) -> StatementView {
        statement_view(*self)
    }
}

/// The views of a list of expressions, in order.
pub open spec fn expressions_view(expressions: Seq<Expression>) -> Seq<ExpressionView> {
    Seq::new(expressions.len(), |i: int| expressions[i]@)
}

/// The views of a list of statements, in order.
pub open spec fn statements_view(statements: Seq<Statement>) -> Seq<StatementView> {
    Seq::new(statements.len(), |i: int| statements[i]@)
}

impl View for Function {
    type V = FunctionView;

    open spec fn view(&self) -> FunctionView {
        FunctionView { arguments: self.arguments@, body: statements_view(self.body@) }
    }
}

impl Function {
    pub fn new(arguments: Identifier, body: Vec<Statement>) -> (function: Function)
        ensures
            function@ == (FunctionView { arguments: arguments@, body: statements_view(body@) }),
    {
        Function { arguments, body }
    }
}

/// A function call's view holds the views of its arguments.
pub proof fn lemma_call_view(name: Identifier, arguments: Vec<Expression>)
    ensures
        Expression::FunctionCall(name, arguments)@ == ExpressionView::FunctionCall(
            name@,
            expressions_view(arguments@),
        ),
{
    let call = Expression::FunctionCall(name, arguments);
    assert(call@->FunctionCall_1 =~= expressions_view(arguments@));
}

/// A function declaration's view holds the views of the statements of its body.
pub proof fn lemma_declaration_view(name: Identifier, parameter: Identifier, body: Vec<Statement>)
    ensures
        Statement::FunctionDeclaration(name, parameter, body)@
            == StatementView::FunctionDeclaration(name@, parameter@, statements_view(body@)),
{
    let declaration = Statement::FunctionDeclaration(name, parameter, body);
    assert(declaration@->FunctionDeclaration_2 =~= statements_view(body@));
}

impl Clone for Expression {
    /// A copy of the whole tree.
    fn clone(&self) -> (copy: Expression)
        ensures
            copy@ == self@,
        decreases self,
    {
        match self {
            Expression::Literal(value) => Expression::Literal(*value),
            Expression::BinaryOp(lhs, op, rhs) => {
                let left: Expression = (**lhs).clone();
                let right: Expression = (**rhs).clone();
                Expression::BinaryOp(Box::new(left), *op, Box::new(right))
            },
            Expression::UnaryOp(op, operand) => {
                let inner: Expression = (**operand).clone();
                Expression::UnaryOp(*op, Box::new(inner))
            },
            Expression::Variable(name) => Expression::Variable(name.clone()),
            Expression::FunctionCall(name, arguments) => {
                let mut copies: Vec<Expression> = Vec::new();
                let mut i: usize = 0;
                while i < arguments.len()
                    invariant
                        i <= arguments.len(),
                        self == Expression::FunctionCall(*name, *arguments),
                        copies@.len() == i,
                        forall|k: int| 0 <= k < i ==> copies@[k]@ == arguments@[k]@,
                    decreases arguments.len() - i,
                {
                    assert(decreases_to!(*self => self->FunctionCall_1));
                    assert(decreases_to!(*arguments => arguments@));
                    assert(decreases_to!(arguments@ => arguments@[i as int]));
                    let copy: Expression = arguments[i].clone();
                    copies.push(copy);
                    i += 1;
                }
                let name_copy = name.clone();
                proof {
                    lemma_call_view(*name, *arguments);
                    lemma_call_view(name_copy, copies);
                    assert(expressions_view(copies@) =~= expressions_view(arguments@));
                }
                Expression::FunctionCall(name_copy, copies)
            },
        }
    }
}

impl Clone for Statement {
    /// A copy of the whole tree.
    fn clone(&self) -> (copy: Statement)
        ensures
            copy@ == self@,
        decreases self,
    {
        match self {
            Statement::Empty => Statement::Empty,
            Statement::Assignment(name, expression) => Statement::Assignment(
                name.clone(),
                expression.clone(),
            ),
            Statement::Expression(expression) => Statement::Expression(expression.clone()),
            Statement::FunctionDeclaration(name, parameter, body) => {
                let mut copies: Vec<Statement> = Vec::new();
                let mut i: usize = 0;
                while i < body.len()
                    invariant
                        i <= body.len(),
                        self == Statement::FunctionDeclaration(*name, *parameter, *body),
                        copies@.len() == i,
                        forall|k: int| 0 <= k < i ==> copies@[k]@ == body@[k]@,
                    decreases body.len() - i,
                {
                    assert(decreases_to!(*self => self->FunctionDeclaration_2));
                    assert(decreases_to!(*body => body@));
                    assert(decreases_to!(body@ => body@[i as int]));
                    let copy: Statement = body[i].clone();
                    copies.push(copy);
                    i += 1;
                }
                let name_copy = name.clone();
                let parameter_copy = parameter.clone();
                proof {
                    lemma_declaration_view(*name, *parameter, *body);
                    lemma_declaration_view(name_copy, parameter_copy, copies);
                    assert(statements_view(copies@) =~= statements_view(body@));
                }
                Statement::FunctionDeclaration(name_copy, parameter_copy, copies)
            },
            Statement::Return(None) => Statement::Return(None),
            Statement::Return(Some(expression)) => Statement::Return(Some(expression.clone())),
        }
    }
}

/// A copy of each statement of a list, in order.
pub fn clone_statements(statements: &Vec<Statement>) -> (copies: Vec<Statement>)
    ensures
        statements_view(copies@) == statements_view(statements@),
{
    let mut copies: Vec<Statement> = Vec::new();
    let mut i: usize = 0;
    while i < statements.len()
        invariant
            i <= statements.len(),
            copies@.len() == i,
            forall|k: int| 0 <= k < i ==> copies@[k]@ == statements@[k]@,
        decreases statements.len() - i,
    {
        copies.push(statements[i].clone());
        i += 1;
    }
    assert(statements_view(copies@) =~= statements_view(statements@));
    copies
}

impl Clone for Function {
    fn clone(&self) -> (copy: Function)
        ensures
            copy@ == self@,
    {
        Function { arguments: self.arguments.clone(), body: clone_statements(&self.body) }
    }
}

} // verus!
