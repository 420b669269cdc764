use crate::value::Value;
use vstd::prelude::*;
use vstd::string::StringSliceAdditionalSpecFns;
use vstd::utf8::encode_utf8_decode_utf8;

verus! {

/// The character of a decimal digit.
pub open spec fn digit_char(digit: int) -> char
    recommends
        0 <= digit < 10,
{
    ((48 + digit) as u8) as char
}

/// The decimal digits of a natural number, without leading zeros.
pub open spec fn decimal(n: nat) -> Seq<char>
    decreases n,
{
    if n < 10 {
        seq![digit_char(n as int)]
    } else {
        decimal(n / 10).push(digit_char((n % 10) as int))
    }
}

/// A number in decimal digits, after a `-` if it is negative.
pub open spec fn number_text(n: int) -> Seq<char> {
    if n < 0 {
        seq!['-'] + decimal((-n) as nat)
    } else {
        decimal(n as nat)
    }
}

/// The text that stands for a value on the console.
pub open spec fn value_text(value: Value) -> Seq<char> {
    match value {
        Value::Bool(true) => "true"@,
        Value::Bool(false) => "false"@,
        Value::Number(n) => number_text(n as int),
        Value::Unit => "()"@,
    }
}

/// Appends the character of the decimal digit `digit` to `text`.
fn push_digit(text: &mut String, digit: u32)
    requires
        digit < 10,
    ensures
        final(text)@ == old(text)@.push(digit_char(digit as int)),
{
    proof {
        reveal_strlit("0");
        reveal_strlit("1");
        reveal_strlit("2");
        reveal_strlit("3");
        reveal_strlit("4");
        reveal_strlit("5");
        reveal_strlit("6");
        reveal_strlit("7");
        reveal_strlit("8");
        reveal_strlit("9");
    }
    let written = if digit == 0 {
        "0"
    } else if digit == 1 {
        "1"
    } else if digit == 2 {
        "2"
    } else if digit == 3 {
        "3"
    } else if digit == 4 {
        "4"
    } else if digit == 5 {
        "5"
    } else if digit == 6 {
        "6"
    } else if digit == 7 {
        "7"
    } else if digit == 8 {
        "8"
    } else {
        "9"
    };
    assert(written@ =~= seq![digit_char(digit as int)]);
    text.append(written);
    assert(final(text)@ =~= old(text)@.push(digit_char(digit as int)));
}

/// Appends the decimal digits of `n` to `text`.
pub(crate) fn push_decimal(text: &mut String, n: u32)
    ensures
        final(text)@ == old(text)@ + decimal(n as nat),
    decreases n,
{
    if n >= 10 {
        push_decimal(text, n / 10);
    }
    push_digit(text, n % 10);
    assert(final(text)@ =~= old(text)@ + decimal(n as nat));
}

/// Appends the text of `value` to `text`.
pub(crate) fn push_value(text: &mut String, value: Value)
    ensures
        final(text)@ == old(text)@ + value_text(value),
{
    match value {
        Value::Bool(true) => text.append("true"),
        Value::Bool(false) => text.append("false"),
        Value::Unit => text.append("()"),
        Value::Number(n) => {
            if n < 0 {
                proof {
                    reveal_strlit("-");
                }
                text.append("-");
                assert("-"@ =~= seq!['-']);
                let below: u32 = (-(n as i64)) as u32;
                push_decimal(text, below);
                assert(final(text)@ =~= old(text)@ + value_text(value));
            } else {
                push_decimal(text, n as u32);
            }
        },
    }
}

/// Whether two texts hold the same characters.
pub(crate) fn same_text(a: &str, b: &str) -> (same: bool)
    ensures
        same == (a@ == b@),
{
    let x = a.as_bytes();
    let y = b.as_bytes();
    if x.len() != y.len() {
        return false;
    }
    let mut i: usize = 0;
    while i < x.len()
        invariant
            i <= x.len(),
            x.len() == y.len(),
            x@ == a.spec_bytes(),
            y@ == b.spec_bytes(),
            forall|k: int| 0 <= k < i ==> x@[k] == y@[k],
        decreases x.len() - i,
    {
        if x[i] != y[i] {
            return false;
        }
        i += 1;
    }
    proof {
        assert(x@ =~= y@);
        encode_utf8_decode_utf8(a@);
        encode_utf8_decode_utf8(b@);
    }
    true
}

impl Value {
    /// The text that stands for the value on the console: a boolean as `true`
    /// or `false`, a number in decimal digits, the unit value as `()`.
    pub fn to_string(&self) -> (text: String)
        ensures
            text@ == value_text(*self),
    {
        let mut text = String::new();
        push_value(&mut text, *self);
        assert(text@ =~= value_text(*self));
        text
    }
}

} // verus!
