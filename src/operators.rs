use crate::error::{Error, ErrorKind};
use crate::location::{Located, Location};
use crate::token::{Token, TokenKind};
use crate::value::{Value, ValueModel, result_view};
use vstd::prelude::*;

verus! {

pub const NOT_HELP: &'static str = "Invalid type for logical NOT";

pub const NEGATION_HELP: &'static str = "Invalid type for negation";

pub const UNSUPPORTED_HELP: &'static str = "Unsupported unary operator";

pub const OPERANDS_HELP: &'static str = "The operands have invalid types for this operator";

pub const EXPONENT_TOO_LARGE: &'static str = "Exponent too large";

pub const NEGATIVE_EXPONENT: &'static str = "Exponent must be non-negative";

/// `b` raised to the power `e`.
pub open spec fn power(b: int, e: nat) -> int
    decreases e,
{
    if e == 0 {
        1
    } else {
        b * power(b, (e - 1) as nat)
    }
}

/// Whether `v` is a value of `i128`.
pub open spec fn fits_i128(v: int) -> bool {
    i128::MIN <= v <= i128::MAX
}

pub open spec fn fail(kind: ErrorKind, at: Location) -> Error {
    Error { kind, location: Some(at), help: None }
}

pub open spec fn fail_with(kind: ErrorKind, at: Location, help: &'static str) -> Error {
    Error { kind, location: Some(at), help: Some(help) }
}

/// The outcome of an integer operation whose mathematical result is `v`.
pub open spec fn checked(v: int, at: Location) -> Result<ValueModel, Error> {
    if fits_i128(v) {
        Ok(ValueModel::Integer(v as i128))
    } else {
        Err(fail(ErrorKind::Overflow, at))
    }
}

/// Truncating division, as Rust's `/` on integers.
pub open spec fn trunc_div(a: int, b: int) -> int {
    if (a >= 0) == (b > 0) || a == 0 {
        if a >= 0 {
            a / b
        } else {
            (-a) / (-b)
        }
    } else if a < 0 {
        -((-a) / b)
    } else {
        -(a / (-b))
    }
}

/// The remainder that goes with `trunc_div`, as Rust's `%` on integers: its
/// magnitude is `|a| mod |b|` and its sign that of `a`.
pub open spec fn trunc_rem(a: int, b: int) -> int {
    if a >= 0 {
        a % abs(b)
    } else {
        -((-a) % abs(b))
    }
}

/// `!` and `-` on an operand already forced to a value.
pub open spec fn unary_op(op: Located<Token>, v: ValueModel) -> Result<ValueModel, Error> {
    match op.node.kind {
        TokenKind::Bang => match v {
            ValueModel::Boolean(b) => Ok(ValueModel::Boolean(!b)),
            _ => Err(fail_with(ErrorKind::InvalidArguments, op.location, NOT_HELP)),
        },
        TokenKind::Minus => match v {
            ValueModel::Integer(i) => checked(-(i as int), op.location),
            _ => Err(fail_with(ErrorKind::InvalidArguments, op.location, NEGATION_HELP)),
        },
        _ => Err(fail_with(ErrorKind::UnsupportedExpression, op.location, UNSUPPORTED_HELP)),
    }
}

/// `**` on two integers.
pub open spec fn exponentiation(b: i128, e: i128, at: Location) -> Result<ValueModel, Error> {
    if 0 <= e <= u32::MAX {
        checked(power(b as int, e as nat), at)
    } else if b == 0 || b == 1 {
        Ok(ValueModel::Integer(b))
    } else if e > 0 {
        Err(fail_with(ErrorKind::Overflow, at, EXPONENT_TOO_LARGE))
    } else {
        Err(fail_with(ErrorKind::InvalidArguments, at, NEGATIVE_EXPONENT))
    }
}

/// A binary operator on two operands already forced to values.
pub open spec fn binary_op(op: Located<Token>, l: ValueModel, r: ValueModel) -> Result<
    ValueModel,
    Error,
> {
    let at = op.location;
    let invalid = Err(fail_with(ErrorKind::InvalidArguments, at, OPERANDS_HELP));
    match (l, r) {
        (ValueModel::Integer(a), ValueModel::Integer(b)) => {
            let (x, y) = (a as int, b as int);
            match op.node.kind {
                TokenKind::Plus => checked(x + y, at),
                TokenKind::Minus => checked(x - y, at),
                TokenKind::Star => checked(x * y, at),
                TokenKind::StarStar => exponentiation(a, b, at),
                TokenKind::Slash => if y == 0 {
                    Err(fail(ErrorKind::DivisionByZero, at))
                } else {
                    checked(trunc_div(x, y), at)
                },
                TokenKind::Percent => if y == 0 {
                    Err(fail(ErrorKind::DivisionByZero, at))
                } else if a == i128::MIN && b == -1 {
                    // The quotient, 2^127, leaves i128.
                    Err(fail(ErrorKind::Overflow, at))
                } else {
                    Ok(ValueModel::Integer(trunc_rem(x, y) as i128))
                },
                TokenKind::Ampersand => Ok(ValueModel::Integer(a & b)),
                TokenKind::Pipe => Ok(ValueModel::Integer(a | b)),
                TokenKind::Caret => Ok(ValueModel::Integer(a ^ b)),
                TokenKind::EqualEqual => Ok(ValueModel::Boolean(x == y)),
                TokenKind::BangEqual => Ok(ValueModel::Boolean(x != y)),
                TokenKind::Less => Ok(ValueModel::Boolean(x < y)),
                TokenKind::LessEqual => Ok(ValueModel::Boolean(x <= y)),
                TokenKind::Greater => Ok(ValueModel::Boolean(x > y)),
                TokenKind::GreaterEqual => Ok(ValueModel::Boolean(x >= y)),
                _ => invalid,
            }
        },
        (ValueModel::Boolean(a), ValueModel::Boolean(b)) => match op.node.kind {
            TokenKind::Ampersand => Ok(ValueModel::Boolean(a && b)),
            TokenKind::Pipe => Ok(ValueModel::Boolean(a || b)),
            TokenKind::Caret => Ok(ValueModel::Boolean(a != b)),
            TokenKind::EqualEqual => Ok(ValueModel::Boolean(a == b)),
            TokenKind::BangEqual => Ok(ValueModel::Boolean(a != b)),
            // `false` orders before `true`.
            TokenKind::Less => Ok(ValueModel::Boolean(!a && b)),
            TokenKind::LessEqual => Ok(ValueModel::Boolean(!a || b)),
            TokenKind::Greater => Ok(ValueModel::Boolean(a && !b)),
            TokenKind::GreaterEqual => Ok(ValueModel::Boolean(a || !b)),
            _ => invalid,
        },
        (ValueModel::Str(a), ValueModel::Str(b)) => match op.node.kind {
            TokenKind::Plus => Ok(ValueModel::Str(a + b)),
            _ => invalid,
        },
        _ => invalid,
    }
}

/// The powers of -1, 0 and 1.
proof fn lemma_power_small(b: int, e: nat)
    requires
        -1 <= b <= 1,
    ensures
        b == 0 ==> power(b, e) == if e == 0 {
            1int
        } else {
            0int
        },
        b == 1 ==> power(b, e) == 1,
        b == -1 ==> power(b, e) == if e % 2 == 0 {
            1int
        } else {
            -1int
        },
    decreases e,
{
    if e > 0 {
        lemma_power_small(b, (e - 1) as nat);
    }
}

/// For `|b| >= 2`, `|b^e|` at least doubles with each step of `e`.
proof fn lemma_power_grows(b: int, n: nat, m: nat)
    requires
        b >= 2 || b <= -2,
        n < m,
    ensures
        abs(power(b, m)) >= 2 * abs(power(b, n)),
    decreases m - n,
{
    let pm1 = power(b, (m - 1) as nat);
    assert(abs(b * pm1) == abs(b) * abs(pm1)) by (nonlinear_arith);
    assert(abs(b) * abs(pm1) >= 2 * abs(pm1)) by (nonlinear_arith)
        requires
            abs(b) >= 2,
    ;
    if n + 1 < m {
        lemma_power_grows(b, n, (m - 1) as nat);
    }
}

pub open spec fn abs(v: int) -> int {
    if v < 0 {
        -v
    } else {
        v
    }
}

/// `base` to the power `exp`, or `None` where that leaves `i128`.
fn checked_power(base: i128, exp: u32) -> (r: Option<i128>)
    ensures
        match r {
            Some(v) => v as int == power(base as int, exp as nat),
            None => !fits_i128(power(base as int, exp as nat)),
        },
{
    proof {
        if -1 <= base <= 1 {
            lemma_power_small(base as int, exp as nat);
        }
    }
    if base == 0 {
        return if exp == 0 {
            Some(1)
        } else {
            Some(0)
        };
    }
    if base == 1 {
        return Some(1);
    }
    if base == -1 {
        return if exp % 2 == 0 {
            Some(1)
        } else {
            Some(-1)
        };
    }
    let mut acc: i128 = 1;
    let mut i: u32 = 0;
    while i < exp
        invariant
            i <= exp,
            base >= 2 || base <= -2,
            acc as int == power(base as int, i as nat),
        decreases exp - i,
    {
        match acc.checked_mul(base) {
            Some(next) => {
                acc = next;
                i = i + 1;
            },
            None => {
                proof {
                    let p = power(base as int, (i + 1) as nat);
                    assert(p == base * acc);
                    if i + 1 < exp {
                        lemma_power_grows(base as int, (i + 1) as nat, exp as nat);
                    }
                }
                return None;
            },
        }
    }
    Some(acc)
}

/// Applies `!` or `-` to a forced operand.
pub fn apply_unary(op: &Located<Token>, v: Value) -> (r: Result<Value, Error>)
    ensures
        result_view(r) == unary_op(*op, v@),
{
    match op.node.kind {
        TokenKind::Bang => match v {
            Value::Boolean(b) => Ok(Value::Boolean(!b)),
            _ => Err(Error::with_help(ErrorKind::InvalidArguments, op.location, NOT_HELP)),
        },
        TokenKind::Minus => match v {
            Value::Integer(i) => {
                if i == i128::MIN {
                    Err(Error::new(ErrorKind::Overflow, op.location))
                } else {
                    Ok(Value::Integer(-i))
                }
            },
            _ => Err(Error::with_help(ErrorKind::InvalidArguments, op.location, NEGATION_HELP)),
        },
        _ => Err(Error::with_help(ErrorKind::UnsupportedExpression, op.location, UNSUPPORTED_HELP)),
    }
}

/// An integer result, or `Overflow` where there is none.
fn overflow_or(r: Option<i128>, at: Location) -> (o: Result<Value, Error>)
    ensures
        match r {
            Some(v) => o == Ok::<Value, Error>(Value::Integer(v)),
            None => o == Err::<Value, Error>(fail(ErrorKind::Overflow, at)),
        },
{
    match r {
        Some(v) => Ok(Value::Integer(v)),
        None => Err(Error::new(ErrorKind::Overflow, at)),
    }
}

/// A binary operator on two integers.
fn integer_op(op: &Located<Token>, a: i128, b: i128) -> (r: Result<Value, Error>)
    ensures
        result_view(r) == binary_op(*op, ValueModel::Integer(a), ValueModel::Integer(b)),
{
    let at = op.location;
    match op.node.kind {
        TokenKind::Plus => overflow_or(a.checked_add(b), at),
        TokenKind::Minus => overflow_or(a.checked_sub(b), at),
        TokenKind::Star => overflow_or(a.checked_mul(b), at),
        TokenKind::StarStar => {
            if 0 <= b && b <= u32::MAX as i128 {
                overflow_or(checked_power(a, b as u32), at)
            } else if a == 0 || a == 1 {
                Ok(Value::Integer(a))
            } else if b > 0 {
                Err(Error::with_help(ErrorKind::Overflow, at, EXPONENT_TOO_LARGE))
            } else {
                Err(Error::with_help(ErrorKind::InvalidArguments, at, NEGATIVE_EXPONENT))
            }
        },
        TokenKind::Slash => {
            if b == 0 {
                Err(Error::new(ErrorKind::DivisionByZero, at))
            } else {
                let q = a.checked_div(b);
                proof {
                    let v = trunc_div(a as int, b as int);
                    assert(q == if fits_i128(v) {
                        Some(v as i128)
                    } else {
                        None::<i128>
                    });
                }
                overflow_or(q, at)
            }
        },
        TokenKind::Percent => {
            if b == 0 {
                Err(Error::new(ErrorKind::DivisionByZero, at))
            } else if a == i128::MIN && b == -1 {
                Err(Error::new(ErrorKind::Overflow, at))
            } else {
                let q = a.checked_rem(b);
                proof {
                    let (x, d) = (a as int, b as int);
                    assert(x * -1 == -x);
                    assert(d * -1 == -d);
                    assert(0 <= x % abs(d) < abs(d)) by {
                        if x >= 0 {
                            vstd::arithmetic::div_mod::lemma_mod_bound(x, abs(d));
                        }
                    }
                    assert(0 <= (-x) % abs(d) < abs(d));
                }
                assert(q == Some(trunc_rem(a as int, b as int) as i128));
                overflow_or(q, at)
            }
        },
        TokenKind::Ampersand => Ok(Value::Integer(a & b)),
        TokenKind::Pipe => Ok(Value::Integer(a | b)),
        TokenKind::Caret => Ok(Value::Integer(a ^ b)),
        TokenKind::EqualEqual => Ok(Value::Boolean(a == b)),
        TokenKind::BangEqual => Ok(Value::Boolean(a != b)),
        TokenKind::Less => Ok(Value::Boolean(a < b)),
        TokenKind::LessEqual => Ok(Value::Boolean(a <= b)),
        TokenKind::Greater => Ok(Value::Boolean(a > b)),
        TokenKind::GreaterEqual => Ok(Value::Boolean(a >= b)),
        _ => Err(Error::with_help(ErrorKind::InvalidArguments, at, OPERANDS_HELP)),
    }
}

/// Applies a binary operator to two forced operands.
pub fn apply_binary(op: &Located<Token>, l: Value, r: Value) -> (o: Result<Value, Error>)
    ensures
        result_view(o) == binary_op(*op, l@, r@),
{
    let at = op.location;
    match (l, r) {
        (Value::Integer(a), Value::Integer(b)) => integer_op(op, a, b),
        (Value::Boolean(a), Value::Boolean(b)) => match op.node.kind {
            TokenKind::Ampersand => Ok(Value::Boolean(a && b)),
            TokenKind::Pipe => Ok(Value::Boolean(a || b)),
            TokenKind::Caret => Ok(Value::Boolean(a != b)),
            TokenKind::EqualEqual => Ok(Value::Boolean(a == b)),
            TokenKind::BangEqual => Ok(Value::Boolean(a != b)),
            TokenKind::Less => Ok(Value::Boolean(!a && b)),
            TokenKind::LessEqual => Ok(Value::Boolean(!a || b)),
            TokenKind::Greater => Ok(Value::Boolean(a && !b)),
            TokenKind::GreaterEqual => Ok(Value::Boolean(a || !b)),
            _ => Err(Error::with_help(ErrorKind::InvalidArguments, at, OPERANDS_HELP)),
        },
        (Value::String(a), Value::String(b)) => match op.node.kind {
            TokenKind::Plus => Ok(Value::String(a.concat(b.as_str()))),
            _ => Err(Error::with_help(ErrorKind::InvalidArguments, at, OPERANDS_HELP)),
        },
        _ => Err(Error::with_help(ErrorKind::InvalidArguments, at, OPERANDS_HELP)),
    }
}

} // verus!
