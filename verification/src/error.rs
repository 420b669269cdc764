use core::ops::Range;
use vstd::prelude::*;

verus! {

/// A half-open range of byte offsets into the source text.
pub type Span = Range<usize>;

/// A value together with the place in the source text where it was read.
#[derive(Debug, PartialEq, Eq)]
pub struct Spanned<T>(pub T, pub Span);

pub type CacauResult<T = ()> = Result<T, CacauError>;

/// Everything that can stop the interpretation of a program.
#[derive(Debug, PartialEq, Eq)]
pub enum CacauError {
    /// A byte sequence that is no token, with the bytes it covers.
    UnexpectedToken(Spanned<()>),
    /// A variable was read before anything was assigned to it.
    UndefinedVariable(String),
    /// A function was called that is neither built in nor declared.
    UndefinedFunction(String),
    /// Kind of the left operand, name of the operation, kind of the right operand.
    InvalidBinaryOperation(&'static str, &'static str, &'static str),
    /// Name of the operation, kind of the operand.
    InvalidUnaryOperation(&'static str, &'static str),
    /// Name of the function, the number of arguments it takes, the number it was given.
    WrongAmountOfArguments(String, usize, usize),
    /// Name of the function, the kind it expects, the kind it was given.
    FunctionWrongArgumentType(&'static str, &'static str, &'static str),
    /// `assert` was given `false`.
    AssertionError,
    /// A number was divided by zero.
    DivisionByZero,
    /// A `return` was met where no function call could take its value.
    UnsupportedReturn,
    /// Function calls were nested deeper than the environment allows.
    CallDepthExceeded,
}

/// What a [`CacauError`] says, with every text as a sequence of characters.
pub enum ErrorView {
    UnexpectedToken(Span),
    UndefinedVariable(Seq<char>),
    UndefinedFunction(Seq<char>),
    InvalidBinaryOperation(Seq<char>, Seq<char>, Seq<char>),
    InvalidUnaryOperation(Seq<char>, Seq<char>),
    WrongAmountOfArguments(Seq<char>, usize, usize),
    FunctionWrongArgumentType(Seq<char>, Seq<char>, Seq<char>),
    AssertionError,
    DivisionByZero,
    UnsupportedReturn,
    CallDepthExceeded,
}

impl View for CacauError {
    type V = ErrorView;

    open spec fn view(&self) -> ErrorView {
        match *self {
            CacauError::UnexpectedToken(spanned) => ErrorView::UnexpectedToken(spanned.1),
            CacauError::UndefinedVariable(name) => ErrorView::UndefinedVariable(name@),
            CacauError::UndefinedFunction(name) => ErrorView::UndefinedFunction(name@),
            CacauError::InvalidBinaryOperation(lhs, op, rhs) => ErrorView::InvalidBinaryOperation(
                lhs@,
                op@,
                rhs@,
            ),
            CacauError::InvalidUnaryOperation(op, operand) => ErrorView::InvalidUnaryOperation(
                op@,
                operand@,
            ),
            CacauError::WrongAmountOfArguments(name, expected, actual) => {
                ErrorView::WrongAmountOfArguments(name@, expected, actual)
            },
            CacauError::FunctionWrongArgumentType(name, expected, actual) => {
                ErrorView::FunctionWrongArgumentType(name@, expected@, actual@)
            },
            CacauError::AssertionError => ErrorView::AssertionError,
            CacauError::DivisionByZero => ErrorView::DivisionByZero,
            CacauError::UnsupportedReturn => ErrorView::UnsupportedReturn,
            CacauError::CallDepthExceeded => ErrorView::CallDepthExceeded,
        }
    }
}

/// A result with its error, if any, replaced by the error's view.
pub open spec fn outcome<T>(result: Result<T, CacauError>) -> Result<T, ErrorView> {
    match result {
        Ok(value) => Ok(value),
        Err(error) => Err(error@),
    }
}

/// The error for a byte sequence that is no token and lies at `start..end`.
pub fn unexpected_token(start: usize, end: usize) -> (error: CacauError)
    ensures
        error@ == ErrorView::UnexpectedToken(Range { start, end }),
{
    CacauError::UnexpectedToken(Spanned((), Range { start, end }))
}

} // verus!
