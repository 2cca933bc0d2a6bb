use crate::token::TokenKind;
use vstd::prelude::*;

verus! {

/// Binding strength, from loosest to tightest.
#[derive(Clone, Copy, Debug, PartialEq, Eq, Structural, PartialOrd, Ord)]
pub enum Precedence {
    Lowest,
    Definition,
    Conditional,
    Comparison,
    Term,
    Factor,
    Exponentiation,
    BitwiseOr,
    BitwiseXor,
    BitwiseAnd,
    Prefix,
    Application,
}

/// The rank of a precedence: a higher rank binds tighter.
pub open spec fn level(p: Precedence) -> nat {
    match p {
        Precedence::Lowest => 0,
        Precedence::Definition => 1,
        Precedence::Conditional => 2,
        Precedence::Comparison => 3,
        Precedence::Term => 4,
        Precedence::Factor => 5,
        Precedence::Exponentiation => 6,
        Precedence::BitwiseOr => 7,
        Precedence::BitwiseXor => 8,
        Precedence::BitwiseAnd => 9,
        Precedence::Prefix => 10,
        Precedence::Application => 11,
    }
}

/// The precedence with which a token binds as an infix operator (`Lowest` for
/// a token that is no operator).
pub open spec fn precedence_of(kind: TokenKind) -> Precedence {
    match kind {
        TokenKind::Equal => Precedence::Definition,
        TokenKind::If => Precedence::Conditional,
        TokenKind::BangEqual | TokenKind::EqualEqual | TokenKind::Less | TokenKind::LessEqual
        | TokenKind::Greater | TokenKind::GreaterEqual => Precedence::Comparison,
        TokenKind::Plus | TokenKind::Minus => Precedence::Term,
        TokenKind::Star | TokenKind::Slash | TokenKind::Percent => Precedence::Factor,
        TokenKind::StarStar => Precedence::Exponentiation,
        TokenKind::Pipe => Precedence::BitwiseOr,
        TokenKind::Caret => Precedence::BitwiseXor,
        TokenKind::Ampersand => Precedence::BitwiseAnd,
        _ => Precedence::Lowest,
    }
}

impl Precedence {
    /// The rank of this precedence.
    pub fn level(self) -> (r: u8)
        ensures
            r as nat == level(self),
    {
        match self {
            Precedence::Lowest => 0,
            Precedence::Definition => 1,
            Precedence::Conditional => 2,
            Precedence::Comparison => 3,
            Precedence::Term => 4,
            Precedence::Factor => 5,
            Precedence::Exponentiation => 6,
            Precedence::BitwiseOr => 7,
            Precedence::BitwiseXor => 8,
            Precedence::BitwiseAnd => 9,
            Precedence::Prefix => 10,
            Precedence::Application => 11,
        }
    }

    /// Whether this precedence binds tighter than `other`.
    pub fn binds_tighter(self, other: Precedence) -> (r: bool)
        ensures
            r == (level(self) > level(other)),
    {
        self.level() > other.level()
    }
}

impl From<TokenKind> for Precedence {
    fn from(kind: TokenKind) -> (r: Precedence)
        ensures
            r == precedence_of(kind),
    {
        match kind {
            TokenKind::Equal => Precedence::Definition,
            TokenKind::If => Precedence::Conditional,
            TokenKind::BangEqual | TokenKind::EqualEqual | TokenKind::Less
            | TokenKind::LessEqual | TokenKind::Greater
            | TokenKind::GreaterEqual => Precedence::Comparison,
            TokenKind::Plus | TokenKind::Minus => Precedence::Term,
            TokenKind::Star | TokenKind::Slash | TokenKind::Percent => Precedence::Factor,
            TokenKind::StarStar => Precedence::Exponentiation,
            TokenKind::Pipe => Precedence::BitwiseOr,
            TokenKind::Caret => Precedence::BitwiseXor,
            TokenKind::Ampersand => Precedence::BitwiseAnd,
            _ => Precedence::Lowest,
        }
    }
}

impl vstd::std_specs::convert::FromSpecImpl<TokenKind> for Precedence {
    open spec fn obeys_from_spec() -> bool {
        true
    }

    open spec fn from_spec(kind: TokenKind) -> Precedence {
        precedence_of(kind)
    }
}

} // verus!
