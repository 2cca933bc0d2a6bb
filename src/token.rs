use crate::location::{Located, LocatedExt, Location};
use vstd::prelude::*;

verus! {

/// The kind of a token: punctuation, operators, keywords and literal classes.
#[derive(Clone, Copy, Debug, PartialEq, Eq, Structural)]
pub enum TokenKind {
    LeftBrace,
    RightBrace,
    LeftBracket,
    RightBracket,
    LeftParenthesis,
    RightParenthesis,
    Plus,
    Minus,
    Star,
    StarStar,
    Slash,
    Percent,
    Ampersand,
    Caret,
    Pipe,
    Bang,
    BangEqual,
    Equal,
    EqualEqual,
    Less,
    LessEqual,
    Greater,
    GreaterEqual,
    At,
    Colon,
    Comma,
    Dollar,
    Dot,
    Hash,
    Newline,
    QuestionMark,
    Semicolon,
    Underscore,
    If,
    Then,
    Elif,
    Else,
    True,
    False,
    Null,
    Use,
    Identifier,
    Float,
    Integer,
    String,
    Unknown,
}

/// Kinds that may stand as a definition's name or parameters: identifiers,
/// literals and `_`.
pub open spec fn primary_kind(k: TokenKind) -> bool {
    match k {
        TokenKind::Identifier | TokenKind::True | TokenKind::False | TokenKind::Null
        | TokenKind::Float | TokenKind::Integer | TokenKind::String
        | TokenKind::Underscore => true,
        _ => false,
    }
}

/// Kinds that denote a binary (or reserved) operator.
pub open spec fn operator_kind(k: TokenKind) -> bool {
    match k {
        TokenKind::Ampersand | TokenKind::Caret | TokenKind::Pipe | TokenKind::Plus
        | TokenKind::Minus | TokenKind::Star | TokenKind::StarStar | TokenKind::Slash
        | TokenKind::Percent | TokenKind::BangEqual | TokenKind::Equal
        | TokenKind::EqualEqual | TokenKind::Less | TokenKind::LessEqual
        | TokenKind::Greater | TokenKind::GreaterEqual | TokenKind::At | TokenKind::Colon
        | TokenKind::Hash => true,
        _ => false,
    }
}

/// Kinds that can begin an expression.
pub open spec fn starts_expression(k: TokenKind) -> bool {
    match k {
        TokenKind::Identifier | TokenKind::Bang | TokenKind::Minus
        | TokenKind::LeftParenthesis | TokenKind::True | TokenKind::False | TokenKind::Null
        | TokenKind::Float | TokenKind::Integer | TokenKind::String | TokenKind::Underscore
        | TokenKind::If => true,
        _ => false,
    }
}

impl TokenKind {
    /// Whether a token of this kind may be a definition's name or parameter.
    pub fn is_primary(self) -> (r: bool)
        ensures
            r == primary_kind(self),
    {
        match self {
            TokenKind::Identifier | TokenKind::True | TokenKind::False | TokenKind::Null
            | TokenKind::Float | TokenKind::Integer | TokenKind::String
            | TokenKind::Underscore => true,
            _ => false,
        }
    }

    /// Whether this kind is an operator (and so never an argument).
    pub fn is_operator(self) -> (r: bool)
        ensures
            r == operator_kind(self),
    {
        match self {
            TokenKind::Ampersand | TokenKind::Caret | TokenKind::Pipe | TokenKind::Plus
            | TokenKind::Minus | TokenKind::Star | TokenKind::StarStar | TokenKind::Slash
            | TokenKind::Percent | TokenKind::BangEqual | TokenKind::Equal
            | TokenKind::EqualEqual | TokenKind::Less | TokenKind::LessEqual
            | TokenKind::Greater | TokenKind::GreaterEqual | TokenKind::At
            | TokenKind::Colon | TokenKind::Hash => true,
            _ => false,
        }
    }

    /// Whether an expression can begin with a token of this kind.
    pub fn can_start_expression(self) -> (r: bool)
        ensures
            r == starts_expression(self),
    {
        match self {
            TokenKind::Identifier | TokenKind::Bang | TokenKind::Minus
            | TokenKind::LeftParenthesis | TokenKind::True | TokenKind::False
            | TokenKind::Null | TokenKind::Float | TokenKind::Integer | TokenKind::String
            | TokenKind::Underscore | TokenKind::If => true,
            _ => false,
        }
    }
}

/// The payload of a token. A float literal keeps its decimal text
/// (digits, a dot, digits) exactly as written.
#[derive(Debug)]
pub enum TokenValue {
    Identifier(String),
    Boolean(bool),
    Float(String),
    Integer(i128),
    String(String),
    Unknown(char),
    /// No payload (punctuation, keywords, `null`).
    Empty,
}

impl Clone for TokenValue {
    fn clone(&self) -> (r: Self)
        ensures
            r == *self,
    {
        match self {
            TokenValue::Identifier(s) => TokenValue::Identifier(s.clone()),
            TokenValue::Boolean(b) => TokenValue::Boolean(*b),
            TokenValue::Float(s) => TokenValue::Float(s.clone()),
            TokenValue::Integer(i) => TokenValue::Integer(*i),
            TokenValue::String(s) => TokenValue::String(s.clone()),
            TokenValue::Unknown(c) => TokenValue::Unknown(*c),
            TokenValue::Empty => TokenValue::Empty,
        }
    }
}

/// A token: its kind and its literal payload.
#[derive(Debug)]
pub struct Token {
    pub kind: TokenKind,
    pub value: TokenValue,
}

impl Clone for Token {
    fn clone(&self) -> (r: Self)
        ensures
            r == *self,
    {
        Token { kind: self.kind, value: self.value.clone() }
    }
}

impl Clone for Located<Token> {
    fn clone(&self) -> (r: Self)
        ensures
            r == *self,
    {
        Located { node: self.node.clone(), location: self.location }
    }
}

impl LocatedExt for Token {
    fn at(self, location: Location) -> (r: Located<Token>) {
        Located { node: self, location }
    }
}

/// The name a token carries, if it is an identifier token's payload.
pub open spec fn identifier_name(t: Token) -> Option<Seq<char>> {
    match t.value {
        TokenValue::Identifier(name) => Some(name@),
        _ => None,
    }
}

impl Token {
    /// A token of `kind` carrying `value`.
    pub fn new(kind: TokenKind, value: TokenValue) -> (r: Token)
        ensures
            r == (Token { kind, value }),
    {
        Token { kind, value }
    }

    /// The identifier's name, for a token whose payload is an identifier.
    pub fn get_identifier_name(&self) -> (r: Option<String>)
        ensures
            r matches Some(s) ==> identifier_name(*self) == Some(s@),
            r is None ==> identifier_name(*self) is None,
    {
        match &self.value {
            TokenValue::Identifier(name) => Some(name.clone()),
            _ => None,
        }
    }
}

} // verus!
