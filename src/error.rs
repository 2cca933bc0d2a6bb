use crate::location::Location;
use crate::text::push_char;
use vstd::prelude::*;

verus! {

/// The closed set of failures that the tokenizer, the parser and the
/// evaluator report.
#[derive(Clone, Copy, Debug, PartialEq, Eq, Structural)]
pub enum ErrorKind {
    DivisionByZero,
    ExpectedExpression,
    IncompleteIf,
    InvalidArguments,
    InvalidIdentifier,
    InvalidToken,
    MismatchedTypes,
    MissingClosingParenthesis,
    MissingParameter,
    NotANumber,
    Overflow,
    UndeclaredFunction,
    UnexpectedEndOfFile,
    UnexpectedToken,
    UnimplementedFunction,
    UnsupportedExpression,
    UnterminatedString,
    UnterminatedUse,
    /// Evaluation nested deeper than the interpreter's depth budget.
    RecursionLimit,
}

/// An error: its kind, where it arose (if known) and an optional hint.
#[derive(Clone, Copy, Debug)]
pub struct Error {
    pub kind: ErrorKind,
    pub location: Option<Location>,
    pub help: Option<&'static str>,
}

impl ErrorKind {
    /// The human-readable name of the kind.
    pub fn message(&self) -> (r: &'static str)
        ensures
            r@ == kind_message(*self),
    {
        proof {
            reveal_strlit("Division by zero");
        }
        match self {
            ErrorKind::DivisionByZero => "Division by zero",
            ErrorKind::ExpectedExpression => "Expected expression",
            ErrorKind::IncompleteIf => "Incomplete if",
            ErrorKind::InvalidArguments => "Invalid arguments",
            ErrorKind::InvalidIdentifier => "Invalid identifier",
            ErrorKind::InvalidToken => "Invalid token",
            ErrorKind::MismatchedTypes => "Mismatched types",
            ErrorKind::MissingClosingParenthesis => "Missing closing parenthesis",
            ErrorKind::MissingParameter => "Missing parameter",
            ErrorKind::NotANumber => "Not a number",
            ErrorKind::Overflow => "Overflow",
            ErrorKind::UndeclaredFunction => "Undeclared function",
            ErrorKind::UnexpectedEndOfFile => "Unexpected end of file",
            ErrorKind::UnexpectedToken => "Unexpected token",
            ErrorKind::UnimplementedFunction => "Unimplemented function",
            ErrorKind::UnsupportedExpression => "Unsupported Expression",
            ErrorKind::UnterminatedString => "Unterminated string",
            ErrorKind::UnterminatedUse => "Unterminated use",
            ErrorKind::RecursionLimit => "Recursion limit reached",
        }
    }
}

/// The name of each kind, as `message` returns it.
pub open spec fn kind_message(k: ErrorKind) -> Seq<char> {
    match k {
        ErrorKind::DivisionByZero => "Division by zero"@,
        ErrorKind::ExpectedExpression => "Expected expression"@,
        ErrorKind::IncompleteIf => "Incomplete if"@,
        ErrorKind::InvalidArguments => "Invalid arguments"@,
        ErrorKind::InvalidIdentifier => "Invalid identifier"@,
        ErrorKind::InvalidToken => "Invalid token"@,
        ErrorKind::MismatchedTypes => "Mismatched types"@,
        ErrorKind::MissingClosingParenthesis => "Missing closing parenthesis"@,
        ErrorKind::MissingParameter => "Missing parameter"@,
        ErrorKind::NotANumber => "Not a number"@,
        ErrorKind::Overflow => "Overflow"@,
        ErrorKind::UndeclaredFunction => "Undeclared function"@,
        ErrorKind::UnexpectedEndOfFile => "Unexpected end of file"@,
        ErrorKind::UnexpectedToken => "Unexpected token"@,
        ErrorKind::UnimplementedFunction => "Unimplemented function"@,
        ErrorKind::UnsupportedExpression => "Unsupported Expression"@,
        ErrorKind::UnterminatedString => "Unterminated string"@,
        ErrorKind::UnterminatedUse => "Unterminated use"@,
        ErrorKind::RecursionLimit => "Recursion limit reached"@,
    }
}

/// The decimal digits of `n`, most significant first.
pub open spec fn decimal(n: nat) -> Seq<char>
    decreases n,
{
    if n < 10 {
        seq![digit_char(n)]
    } else {
        decimal(n / 10).push(digit_char(n % 10))
    }
}

pub open spec fn digit_char(d: nat) -> char {
    (('0' as nat) + d) as char
}

pub const UNKNOWN_LOCATION: &'static str = " at unknown location (probably end of file)";

/// How an error reads: its kind, where it arose (rows and columns counted
/// from one) and, on a line of its own, the hint.
pub open spec fn rendered(e: Error) -> Seq<char> {
    let place = match e.location {
        Some(l) => " at "@ + decimal((l.row + 1) as nat) + ":"@ + decimal((l.column + 1) as nat),
        None => UNKNOWN_LOCATION@,
    };
    let hint = match e.help {
        Some(h) => "\nHelp: "@ + h@,
        None => Seq::empty(),
    };
    kind_message(e.kind) + place + hint
}

/// The decimal digit for `d`.
fn digit(d: u128) -> (c: char)
    requires
        d < 10,
    ensures
        c == digit_char(d as nat),
{
    match d {
        0 => '0',
        1 => '1',
        2 => '2',
        3 => '3',
        4 => '4',
        5 => '5',
        6 => '6',
        7 => '7',
        8 => '8',
        _ => '9',
    }
}

/// Appends the decimal digits of `n`.
fn append_decimal(s: &mut String, n: u128)
    ensures
        final(s)@ == old(s)@ + decimal(n as nat),
    decreases n,
{
    if n >= 10 {
        append_decimal(s, n / 10);
    }
    push_char(s, digit(n % 10));
    proof {
        assert(final(s)@ =~= old(s)@ + decimal(n as nat));
    }
}

impl Error {
    /// The error as text: `<kind> at <row>:<column>`, then `Help: <hint>` on a
    /// new line when there is a hint.
    pub fn render(&self) -> (r: String)
        ensures
            r@ == rendered(*self),
    {
        let mut s = String::new();
        s.append(self.kind.message());
        match self.location {
            Some(l) => {
                s.append(" at ");
                append_decimal(&mut s, l.row as u128 + 1);
                s.append(":");
                append_decimal(&mut s, l.column as u128 + 1);
            },
            None => s.append(UNKNOWN_LOCATION),
        }
        match self.help {
            Some(h) => {
                s.append("\nHelp: ");
                s.append(h);
            },
            None => {},
        }
        proof {
            reveal_strlit(" at ");
            reveal_strlit(":");
            reveal_strlit("\nHelp: ");
            assert(s@ =~= rendered(*self));
        }
        s
    }

    /// An error of `kind` at `location`, without a hint.
    pub fn new(kind: ErrorKind, location: Location) -> (r: Error)
        ensures
            r == (Error { kind, location: Some(location), help: None }),
    {
        Error { kind, location: Some(location), help: None }
    }

    /// An error of `kind` at `location`, with a hint for the user.
    pub fn with_help(kind: ErrorKind, location: Location, help: &'static str) -> (r: Error)
        ensures
            r == (Error { kind, location: Some(location), help: Some(help) }),
    {
        Error { kind, location: Some(location), help: Some(help) }
    }
}

impl From<ErrorKind> for Error {
    /// An error of `kind` with no location (the end of the input).
    fn from(kind: ErrorKind) -> (r: Error)
        ensures
            r == (Error { kind, location: None, help: None }),
    {
        Error { kind, location: None, help: None }
    }
}

impl vstd::std_specs::convert::FromSpecImpl<ErrorKind> for Error {
    open spec fn obeys_from_spec() -> bool {
        true
    }

    open spec fn from_spec(kind: ErrorKind) -> Error {
        Error { kind, location: None, help: None }
    }
}

} // verus!
