use crate::error::{outcome, CacauError, CacauResult, ErrorView};
use vstd::prelude::*;

verus! {

/// A datum of the language at run time.
#[derive(Debug, Clone, Copy, PartialEq, Eq, Structural)]
pub enum Value {
    Number(i32),
    Bool(bool),
    Unit,
}

/// The operators that take two operands.
#[derive(Debug, Clone, Copy, PartialEq, Eq, Structural)]
pub enum BinaryOperator {
    Add,
    Sub,
    Mul,
    Div,
    Less,
    LessOrEqual,
    Equals,
    NotEquals,
    Greater,
    GreaterOrEqual,
}

/// The operators that take one operand.
#[derive(Debug, Clone, Copy, PartialEq, Eq, Structural)]
pub enum UnaryOperator {
    Not,
    Minus,
}

/// The name of a value's kind, as error reports give it.
pub open spec fn kind_name(value: Value) -> Seq<char> {
    match value {
        Value::Number(_) => "number"@,
        Value::Bool(_) => "bool"@,
        Value::Unit => "()"@,
    }
}

/// The 32-bit signed integer that is congruent to `x` modulo 2^32: numbers of
/// the language wrap around on overflow.
pub open spec fn wrap_i32(x: int) -> i32 {
    let low = x % 0x1_0000_0000;
    if low > i32::MAX {
        (low - 0x1_0000_0000) as i32
    } else {
        low as i32
    }
}

/// The absolute value of `x`.
pub open spec fn magnitude(x: int) -> int {
    if x < 0 {
        -x
    } else {
        x
    }
}

/// The quotient of `x` by `d`, rounded toward zero.
pub open spec fn truncated_quotient(x: int, d: int) -> int
    recommends
        d != 0,
{
    if (x >= 0) == (d > 0) {
        magnitude(x) / magnitude(d)
    } else {
        -(magnitude(x) / magnitude(d))
    }
}

/// The name under which an error report speaks of a binary operator.
pub open spec fn binary_operator_name(op: BinaryOperator) -> Seq<char> {
    match op {
        BinaryOperator::Add => "add"@,
        BinaryOperator::Sub => "subtract"@,
        BinaryOperator::Mul => "multiply"@,
        BinaryOperator::Div => "divide"@,
        BinaryOperator::Less => "compare"@,
        BinaryOperator::LessOrEqual => "compare"@,
        BinaryOperator::Equals => "compare"@,
        BinaryOperator::NotEquals => "compare"@,
        BinaryOperator::Greater => "compare"@,
        BinaryOperator::GreaterOrEqual => "compare"@,
    }
}

/// What a binary operator yields on two numbers.
pub open spec fn binary_on_numbers(op: BinaryOperator, l: int, r: int) -> Result<Value, ErrorView> {
    match op {
        BinaryOperator::Add => Ok(Value::Number(wrap_i32(l + r))),
        BinaryOperator::Sub => Ok(Value::Number(wrap_i32(l - r))),
        BinaryOperator::Mul => Ok(Value::Number(wrap_i32(l * r))),
        BinaryOperator::Div => if r == 0 {
            Err(ErrorView::DivisionByZero)
        } else {
            Ok(Value::Number(wrap_i32(truncated_quotient(l, r))))
        },
        BinaryOperator::Less => Ok(Value::Bool(l < r)),
        BinaryOperator::LessOrEqual => Ok(Value::Bool(l <= r)),
        BinaryOperator::Equals => Ok(Value::Bool(l == r)),
        BinaryOperator::NotEquals => Ok(Value::Bool(l != r)),
        BinaryOperator::Greater => Ok(Value::Bool(l > r)),
        BinaryOperator::GreaterOrEqual => Ok(Value::Bool(l >= r)),
    }
}

/// What a binary operator yields on two values. Equality and inequality
/// compare any two values, and values of different kinds are unequal; every
/// other operator takes two numbers.
pub open spec fn binary_result(op: BinaryOperator, lhs: Value, rhs: Value) -> Result<
    Value,
    ErrorView,
> {
    match op {
        BinaryOperator::Equals => Ok(Value::Bool(lhs == rhs)),
        BinaryOperator::NotEquals => Ok(Value::Bool(lhs != rhs)),
        _ => match (lhs, rhs) {
            (Value::Number(l), Value::Number(r)) => binary_on_numbers(op, l as int, r as int),
            _ => Err(
                ErrorView::InvalidBinaryOperation(
                    kind_name(lhs),
                    binary_operator_name(op),
                    kind_name(rhs),
                ),
            ),
        },
    }
}

/// What a unary operator yields on a value: `not` takes a boolean, `-` a number.
pub open spec fn unary_result(op: UnaryOperator, operand: Value) -> Result<Value, ErrorView> {
    match (op, operand) {
        (UnaryOperator::Not, Value::Bool(b)) => Ok(Value::Bool(!b)),
        (UnaryOperator::Minus, Value::Number(n)) => Ok(Value::Number(wrap_i32(-n))),
        (UnaryOperator::Not, _) => Err(ErrorView::InvalidUnaryOperation("not"@, kind_name(operand))),
        (UnaryOperator::Minus, _) => Err(
            ErrorView::InvalidUnaryOperation("-"@, kind_name(operand)),
        ),
    }
}

impl Value {
    /// The number inside a value that is known to be one.
    pub fn unwrap_number(self) -> (number: i32)
        requires
            self is Number,
        ensures
            self == Value::Number(number),
    {
        match self {
            Value::Number(value) => value,
            _ => unreached(),
        }
    }

    /// The boolean inside a value that is known to be one.
    pub fn unwrap_bool(self) -> (boolean: bool)
        requires
            self is Bool,
        ensures
            self == Value::Bool(boolean),
    {
        match self {
            Value::Bool(value) => value,
            _ => unreached(),
        }
    }

    pub fn variant_name(&self) -> (name: &'static str)
        ensures
            name@ == kind_name(*self),
    {
        match self {
            Value::Number(_) => "number",
            Value::Bool(_) => "bool",
            Value::Unit => "()",
        }
    }

    fn invalid_binary(self, operation: &'static str, other: Value) -> (error: CacauError)
        ensures
            error@ == ErrorView::InvalidBinaryOperation(
                kind_name(self),
                operation@,
                kind_name(other),
            ),
    {
        CacauError::InvalidBinaryOperation(self.variant_name(), operation, other.variant_name())
    }

    pub fn not_op(self) -> (result: CacauResult<Value>)
        ensures
            outcome(result) == unary_result(UnaryOperator::Not, self),
    {
        match self {
            Value::Bool(boolean) => Ok(Value::Bool(!boolean)),
            _ => Err(CacauError::InvalidUnaryOperation("not", self.variant_name())),
        }
    }

    pub fn minus_op(self) -> (result: CacauResult<Value>)
        ensures
            outcome(result) == unary_result(UnaryOperator::Minus, self),
    {
        match self {
            Value::Number(value) => Ok(Value::Number(0i32.wrapping_sub(value))),
            _ => Err(CacauError::InvalidUnaryOperation("-", self.variant_name())),
        }
    }

    pub fn add_op(self, other: Value) -> (result: CacauResult<Value>)
        ensures
            outcome(result) == binary_result(BinaryOperator::Add, self, other),
    {
        match (self, other) {
            (Value::Number(l), Value::Number(r)) => Ok(Value::Number(l.wrapping_add(r))),
            _ => Err(self.invalid_binary("add", other)),
        }
    }

    pub fn sub_op(self, other: Value) -> (result: CacauResult<Value>)
        ensures
            outcome(result) == binary_result(BinaryOperator::Sub, self, other),
    {
        match (self, other) {
            (Value::Number(l), Value::Number(r)) => Ok(Value::Number(l.wrapping_sub(r))),
            _ => Err(self.invalid_binary("subtract", other)),
        }
    }

    pub fn mul_op(self, other: Value) -> (result: CacauResult<Value>)
        ensures
            outcome(result) == binary_result(BinaryOperator::Mul, self, other),
    {
        match (self, other) {
            (Value::Number(l), Value::Number(r)) => Ok(Value::Number(l.wrapping_mul(r))),
            _ => Err(self.invalid_binary("multiply", other)),
        }
    }

    pub fn div_op(self, other: Value) -> (result: CacauResult<Value>)
        ensures
            outcome(result) == binary_result(BinaryOperator::Div, self, other),
    {
        match (self, other) {
            (Value::Number(l), Value::Number(r)) => {
                if r == 0 {
                    Err(CacauError::DivisionByZero)
                } else {
                    proof {
                        lemma_quotient_wraps(l as int, r as int);
                    }
                    match l.checked_div(r) {
                        Some(quotient) => Ok(Value::Number(quotient)),
                        None => Ok(Value::Number(i32::MIN)),
                    }
                }
            },
            _ => Err(self.invalid_binary("divide", other)),
        }
    }

    pub fn less_op(self, other: Value) -> (result: CacauResult<Value>)
        ensures
            outcome(result) == binary_result(BinaryOperator::Less, self, other),
    {
        match (self, other) {
            (Value::Number(l), Value::Number(r)) => Ok(Value::Bool(l < r)),
            _ => Err(self.invalid_binary("compare", other)),
        }
    }

    pub fn less_or_equal_op(self, other: Value) -> (result: CacauResult<Value>)
        ensures
            outcome(result) == binary_result(BinaryOperator::LessOrEqual, self, other),
    {
        match (self, other) {
            (Value::Number(l), Value::Number(r)) => Ok(Value::Bool(l <= r)),
            _ => Err(self.invalid_binary("compare", other)),
        }
    }

    pub fn equals_op(self, other: Value) -> (result: CacauResult<Value>)
        ensures
            outcome(result) == binary_result(BinaryOperator::Equals, self, other),
    {
        Ok(Value::Bool(self == other))
    }

    pub fn not_equals_op(self, other: Value) -> (result: CacauResult<Value>)
        ensures
            outcome(result) == binary_result(BinaryOperator::NotEquals, self, other),
    {
        Ok(Value::Bool(self != other))
    }

    pub fn greater_op(self, other: Value) -> (result: CacauResult<Value>)
        ensures
            outcome(result) == binary_result(BinaryOperator::Greater, self, other),
    {
        match (self, other) {
            (Value::Number(l), Value::Number(r)) => Ok(Value::Bool(l > r)),
            _ => Err(self.invalid_binary("compare", other)),
        }
    }

    pub fn greater_or_equal_op(self, other: Value) -> (result: CacauResult<Value>)
        ensures
            outcome(result) == binary_result(BinaryOperator::GreaterOrEqual, self, other),
    {
        match (self, other) {
            (Value::Number(l), Value::Number(r)) => Ok(Value::Bool(l >= r)),
            _ => Err(self.invalid_binary("compare", other)),
        }
    }
}

/// The quotient of two 32-bit numbers is a 32-bit number, but for the least
/// of them divided by minus one, which wraps around to itself.
proof fn lemma_quotient_wraps(x: int, d: int)
    requires
        d != 0,
        i32::MIN <= x <= i32::MAX,
    ensures
        x == i32::MIN && d == -1 ==> wrap_i32(truncated_quotient(x, d)) == i32::MIN,
        !(x == i32::MIN && d == -1) ==> i32::MIN <= truncated_quotient(x, d) <= i32::MAX
            && wrap_i32(truncated_quotient(x, d)) == truncated_quotient(x, d),
{
    let a = magnitude(x);
    let b = magnitude(d);
    assert(0 <= a / b <= a) by (nonlinear_arith)
        requires
            a >= 0,
            b >= 1,
    ;
    if b >= 2 {
        assert(a / b <= a / 2) by (nonlinear_arith)
            requires
                a >= 0,
                b >= 2,
        ;
    } else {
        assert(a / b == a) by (nonlinear_arith)
            requires
                b == 1,
        ;
    }
}

} // verus!
