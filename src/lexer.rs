use crate::error::{Error, ErrorKind};
use crate::location::{Located, Location};
use crate::operators::{fail, fail_with};
use crate::text::{
    alphabetic_char, alphanumeric_char, chars_of, is_alphabetic, is_alphanumeric, is_whitespace,
    push_char, whitespace_char,
};
use crate::token::{Token, TokenKind, TokenValue};
use vstd::prelude::*;

verus! {

pub const STRING_HELP: &'static str = "Expected a \" after this string.";

/// A token payload with its strings as character sequences.
pub ghost enum TokenValueModel {
    Identifier(Seq<char>),
    Boolean(bool),
    Float(Seq<char>),
    Integer(i128),
    String(Seq<char>),
    Unknown(char),
    Empty,
}

impl View for TokenValue {
    type V = TokenValueModel;

    open spec fn view(&self) -> TokenValueModel {
        match self {
            TokenValue::Identifier(s) => TokenValueModel::Identifier(s@),
            TokenValue::Boolean(b) => TokenValueModel::Boolean(*b),
            TokenValue::Float(s) => TokenValueModel::Float(s@),
            TokenValue::Integer(i) => TokenValueModel::Integer(*i),
            TokenValue::String(s) => TokenValueModel::String(s@),
            TokenValue::Unknown(c) => TokenValueModel::Unknown(*c),
            TokenValue::Empty => TokenValueModel::Empty,
        }
    }
}

/// A located token as the contracts see it.
pub ghost struct TokenModel {
    pub kind: TokenKind,
    pub value: TokenValueModel,
    pub location: Location,
}

pub open spec fn tokens_view(v: Seq<Located<Token>>) -> Seq<TokenModel> {
    v.map_values(
        |t: Located<Token>| TokenModel { kind: t.node.kind, value: t.node.value@, location: t.location },
    )
}

pub open spec fn is_digit(c: char) -> bool {
    '0' <= c <= '9'
}

pub open spec fn digit_value(c: char) -> int {
    c as int - '0' as int
}

/// The number that a run of decimal digits denotes.
pub open spec fn digits_value(d: Seq<char>) -> int
    decreases d.len(),
{
    if d.len() == 0 {
        0
    } else {
        digits_value(d.drop_last()) * 10 + digit_value(d.last())
    }
}

pub open spec fn char_is(s: Seq<char>, i: nat, c: char) -> bool {
    i < s.len() && s[i as int] == c
}

/// The end of the run of digits from `i`.
pub open spec fn digit_run_end(s: Seq<char>, i: nat) -> nat
    decreases s.len() - i,
{
    if i < s.len() && is_digit(s[i as int]) {
        digit_run_end(s, i + 1)
    } else {
        i
    }
}

/// The end of the rest of a word from `i`: alphanumerics and `_`.
pub open spec fn word_end(s: Seq<char>, i: nat) -> nat
    decreases s.len() - i,
{
    if i < s.len() && (alphanumeric_char(s[i as int]) || s[i as int] == '_') {
        word_end(s, i + 1)
    } else {
        i
    }
}

/// The index of the first `"` from `i` (the length if there is none).
pub open spec fn quote_at_or_after(s: Seq<char>, i: nat) -> nat
    decreases s.len() - i,
{
    if i < s.len() && s[i as int] != '"' {
        quote_at_or_after(s, i + 1)
    } else {
        i
    }
}

/// Where a block comment ends, scanning from `i` inside `depth` open
/// comments. Comments nest; one left open runs to the end of the input.
pub open spec fn comment_end(s: Seq<char>, i: nat, depth: nat) -> nat
    decreases s.len() - i,
{
    if i >= s.len() {
        s.len()
    } else if s[i as int] == '{' && char_is(s, i + 1, '-') {
        comment_end(s, i + 2, depth + 1)
    } else if s[i as int] == '-' && char_is(s, i + 1, '}') {
        if depth <= 1 {
            i + 2
        } else {
            comment_end(s, i + 2, (depth - 1) as nat)
        }
    } else {
        comment_end(s, i + 1, depth)
    }
}

/// The keyword that a word spells, if any.
pub open spec fn keyword_of(w: Seq<char>) -> Option<TokenKind> {
    if w == seq!['i', 'f'] {
        Some(TokenKind::If)
    } else if w == seq!['t', 'h', 'e', 'n'] {
        Some(TokenKind::Then)
    } else if w == seq!['e', 'l', 'i', 'f'] {
        Some(TokenKind::Elif)
    } else if w == seq!['e', 'l', 's', 'e'] {
        Some(TokenKind::Else)
    } else if w == seq!['t', 'r', 'u', 'e'] {
        Some(TokenKind::True)
    } else if w == seq!['f', 'a', 'l', 's', 'e'] {
        Some(TokenKind::False)
    } else if w == seq!['n', 'u', 'l', 'l'] {
        Some(TokenKind::Null)
    } else if w == seq!['u', 's', 'e'] {
        Some(TokenKind::Use)
    } else {
        None
    }
}

/// The token of a word: a keyword, or an identifier.
pub open spec fn word_token(w: Seq<char>) -> (TokenKind, TokenValueModel) {
    match keyword_of(w) {
        Some(TokenKind::True) => (TokenKind::True, TokenValueModel::Boolean(true)),
        Some(TokenKind::False) => (TokenKind::False, TokenValueModel::Boolean(false)),
        Some(k) => (k, TokenValueModel::Empty),
        None => (TokenKind::Identifier, TokenValueModel::Identifier(w)),
    }
}

/// Punctuation and operators of one character.
pub open spec fn single_char_kind(c: char) -> Option<TokenKind> {
    match c {
        '}' => Some(TokenKind::RightBrace),
        '[' => Some(TokenKind::LeftBracket),
        ']' => Some(TokenKind::RightBracket),
        '(' => Some(TokenKind::LeftParenthesis),
        ')' => Some(TokenKind::RightParenthesis),
        '&' => Some(TokenKind::Ampersand),
        '^' => Some(TokenKind::Caret),
        '|' => Some(TokenKind::Pipe),
        '+' => Some(TokenKind::Plus),
        '-' => Some(TokenKind::Minus),
        '/' => Some(TokenKind::Slash),
        '%' => Some(TokenKind::Percent),
        '@' => Some(TokenKind::At),
        ':' => Some(TokenKind::Colon),
        ',' => Some(TokenKind::Comma),
        '$' => Some(TokenKind::Dollar),
        '.' => Some(TokenKind::Dot),
        '#' => Some(TokenKind::Hash),
        '?' => Some(TokenKind::QuestionMark),
        ';' => Some(TokenKind::Semicolon),
        '_' => Some(TokenKind::Underscore),
        _ => None,
    }
}

/// Operators of one character that become another with a second one:
/// the first character, the second, the short kind and the long kind.
pub open spec fn pair_kinds(c: char) -> Option<(char, TokenKind, TokenKind)> {
    match c {
        '!' => Some(('=', TokenKind::Bang, TokenKind::BangEqual)),
        '*' => Some(('*', TokenKind::Star, TokenKind::StarStar)),
        '=' => Some(('=', TokenKind::Equal, TokenKind::EqualEqual)),
        '<' => Some(('=', TokenKind::Less, TokenKind::LessEqual)),
        '>' => Some(('=', TokenKind::Greater, TokenKind::GreaterEqual)),
        _ => None,
    }
}

/// What the text at `i` is, given `i < s.len()`: a token or nothing
/// (white space, a comment), and the index after it.
pub open spec fn step(s: Seq<char>, i: nat, at: Location) -> Result<
    (Option<(TokenKind, TokenValueModel)>, nat),
    Error,
> {
    let c = s[i as int];
    if c == '\n' {
        Ok((Some((TokenKind::Newline, TokenValueModel::Empty)), i + 1))
    } else if whitespace_char(c) {
        Ok((None, i + 1))
    } else if c == '{' {
        if char_is(s, i + 1, '-') {
            Ok((None, comment_end(s, i + 2, 1)))
        } else {
            Ok((Some((TokenKind::LeftBrace, TokenValueModel::Empty)), i + 1))
        }
    } else if pair_kinds(c) is Some {
        let (second, short, long) = pair_kinds(c)->0;
        if char_is(s, i + 1, second) {
            Ok((Some((long, TokenValueModel::Empty)), i + 2))
        } else {
            Ok((Some((short, TokenValueModel::Empty)), i + 1))
        }
    } else if single_char_kind(c) is Some {
        Ok((Some((single_char_kind(c)->0, TokenValueModel::Empty)), i + 1))
    } else if c == '"' {
        let e = quote_at_or_after(s, i + 1);
        if e < s.len() {
            Ok(
                (
                    Some(
                        (TokenKind::String, TokenValueModel::String(s.subrange(i + 1 as int, e as int))),
                    ),
                    e + 1,
                ),
            )
        } else {
            Err(fail_with(ErrorKind::UnterminatedString, at, STRING_HELP))
        }
    } else if is_digit(c) {
        let e = digit_run_end(s, i);
        if char_is(s, e, '.') && e + 1 < s.len() && is_digit(s[e + 1 as int]) {
            let f = digit_run_end(s, e + 1);
            Ok((Some((TokenKind::Float, TokenValueModel::Float(s.subrange(i as int, f as int)))), f))
        } else {
            let v = digits_value(s.subrange(i as int, e as int));
            if v <= i128::MAX {
                Ok((Some((TokenKind::Integer, TokenValueModel::Integer(v as i128))), e))
            } else {
                Err(fail(ErrorKind::NotANumber, at))
            }
        }
    } else if alphabetic_char(c) {
        let e = word_end(s, i + 1);
        Ok((Some(word_token(s.subrange(i as int, e as int))), e))
    } else {
        Ok((Some((TokenKind::Unknown, TokenValueModel::Unknown(c))), i + 1))
    }
}

/// The row and the start of the row after the text `from..to`, each
/// newline starting a new row.
pub open spec fn lines(s: Seq<char>, from: nat, to: nat, row: nat, bol: nat) -> (nat, nat)
    decreases to - from,
{
    if from >= to || from >= s.len() {
        (row, bol)
    } else if s[from as int] == '\n' {
        lines(s, from + 1, to, row + 1, from + 1)
    } else {
        lines(s, from + 1, to, row, bol)
    }
}

/// The location of index `i` on the row that starts at `bol`.
pub open spec fn location_of(i: nat, row: nat, bol: nat) -> Location {
    Location {
        row: row as usize,
        column: if i >= bol {
            (i - bol) as usize
        } else {
            0
        },
    }
}

/// The tokens of `s` from index `i` on, after those in `acc`, each located
/// at its first character.
pub open spec fn scan(s: Seq<char>, i: nat, row: nat, bol: nat, acc: Seq<TokenModel>) -> Result<
    Seq<TokenModel>,
    Error,
>
    decreases s.len() - i,
{
    if i >= s.len() {
        Ok(acc)
    } else {
        let at = location_of(i, row, bol);
        match step(s, i, at) {
            Err(x) => Err(x),
            Ok((token, e)) => if !(i < e <= s.len()) {
                Err(fail(ErrorKind::InvalidToken, at))
            } else {
                let (row2, bol2) = lines(s, i, e, row, bol);
                let acc2 = match token {
                    Some((kind, value)) => acc.push(TokenModel { kind, value, location: at }),
                    None => acc,
                };
                scan(s, e, row2, bol2, acc2)
            },
        }
    }
}

/// The tokens of a source text.
pub open spec fn lex_text(s: Seq<char>) -> Result<Seq<TokenModel>, Error> {
    scan(s, 0, 0, 0, Seq::empty())
}

/// Turns source text into located tokens.
pub struct Lexer {
    source: Vec<char>,
    index: usize,
    row: usize,
    bol: usize,
}

pub open spec fn char_at(s: Seq<char>, i: int) -> Option<char> {
    if 0 <= i < s.len() {
        Some(s[i])
    } else {
        None
    }
}

impl Lexer {
    /// The characters being scanned.
    pub closed spec fn text(&self) -> Seq<char> {
        self.source@
    }

    /// The index of the next character to scan.
    pub closed spec fn position(&self) -> nat {
        self.index as nat
    }

    /// A lexer with no text yet.
    pub fn new() -> (r: Lexer)
        ensures
            r.text().len() == 0,
            r.position() == 0,
    {
        Lexer { source: Vec::new(), index: 0, row: 0, bol: 0 }
    }

    /// The tokens of `source`; the first malformed token aborts it.
    pub fn lex(&mut self, source: &str) -> (r: Result<Vec<Located<Token>>, Error>)
        ensures
            match r {
                Ok(v) => lex_text(source@) == Ok::<Seq<TokenModel>, Error>(tokens_view(v@)),
                Err(x) => lex_text(source@) == Err::<Seq<TokenModel>, Error>(x),
            },
    {
        self.source = chars_of(source);
        self.index = 0;
        self.row = 0;
        self.bol = 0;
        let ghost s = self.source@;
        let mut tokens: Vec<Located<Token>> = Vec::new();
        proof {
            assert(tokens_view(tokens@) =~= Seq::<TokenModel>::empty());
        }
        while self.index < self.source.len()
            invariant
                self.source@ == s,
                s == source@,
                self.index <= s.len(),
                self.row <= self.index,
                self.bol <= self.index,
                scan(s, self.index as nat, self.row as nat, self.bol as nat, tokens_view(tokens@))
                    == lex_text(s),
            decreases s.len() - self.index,
        {
            let at = self.location();
            let start = self.index;
            let token = self.consume_token(at)?;
            self.track_lines(start);
            match token {
                Some(t) => {
                    let ghost before = tokens@;
                    tokens.push(Located { node: t, location: at });
                    proof {
                        assert(tokens_view(tokens@) =~= tokens_view(before).push(
                            TokenModel { kind: t.kind, value: t.value@, location: at },
                        ));
                    }
                },
                None => {},
            }
        }
        Ok(tokens)
    }

    /// The character at the current index.
    fn current(&self) -> (r: Option<char>)
        ensures
            r == char_at(self.source@, self.index as int),
    {
        if self.index < self.source.len() {
            Some(self.source[self.index])
        } else {
            None
        }
    }

    /// The character `n` places after the current index.
    fn next(&self, n: usize) -> (r: Option<char>)
        ensures
            r == char_at(self.source@, self.index + n),
    {
        if n < self.source.len() && self.index < self.source.len() - n {
            Some(self.source[self.index + n])
        } else {
            None
        }
    }

    /// Moves to the next character.
    fn advance(&mut self)
        requires
            old(self).index < old(self).source.len(),
        ensures
            final(self).index == old(self).index + 1,
            final(self).source == old(self).source,
            final(self).row == old(self).row,
            final(self).bol == old(self).bol,
    {
        self.index = self.index + 1;
    }

    /// The location of the current index.
    fn location(&self) -> (r: Location)
        requires
            self.row <= self.index,
        ensures
            r == location_of(self.index as nat, self.row as nat, self.bol as nat),
    {
        Location { row: self.row, column: self.index.saturating_sub(self.bol) }
    }

    /// Steps over the next character if it is `c`.
    fn consume(&mut self, c: char) -> (r: bool)
        requires
            old(self).index < old(self).source.len(),
        ensures
            r == char_is(old(self).source@, (old(self).index + 1) as nat, c),
            final(self).index == old(self).index + (if r {
                1int
            } else {
                0int
            }),
            final(self).source == old(self).source,
            final(self).row == old(self).row,
            final(self).bol == old(self).bol,
    {
        match self.next(1) {
            Some(d) => {
                if d == c {
                    self.advance();
                    true
                } else {
                    false
                }
            },
            None => false,
        }
    }

    /// Moves the row and its start over the text scanned since `start`.
    fn track_lines(&mut self, start: usize)
        requires
            start <= old(self).index <= old(self).source.len(),
            old(self).row <= start,
            old(self).bol <= start,
        ensures
            (final(self).row as nat, final(self).bol as nat) == lines(
                old(self).source@,
                start as nat,
                old(self).index as nat,
                old(self).row as nat,
                old(self).bol as nat,
            ),
            final(self).row <= final(self).index,
            final(self).bol <= final(self).index,
            final(self).index == old(self).index,
            final(self).source == old(self).source,
    {
        let mut k = start;
        while k < self.index
            invariant
                start <= k <= self.index <= self.source.len(),
                self.index == old(self).index,
                self.source == old(self).source,
                self.row <= k,
                self.bol <= k,
                lines(self.source@, k as nat, self.index as nat, self.row as nat, self.bol as nat)
                    == lines(
                    old(self).source@,
                    start as nat,
                    old(self).index as nat,
                    old(self).row as nat,
                    old(self).bol as nat,
                ),
            decreases self.index - k,
        {
            if self.source[k] == '\n' {
                self.row = self.row + 1;
                self.bol = k + 1;
            }
            k = k + 1;
        }
    }

    /// Scans one token (or white space, or a comment) at the current index
    /// and moves past it.
    fn consume_token(&mut self, at: Location) -> (r: Result<Option<Token>, Error>)
        requires
            old(self).index < old(self).source.len(),
        ensures
            final(self).source == old(self).source,
            final(self).row == old(self).row,
            final(self).bol == old(self).bol,
            match r {
                Ok(t) => step(old(self).source@, old(self).index as nat, at) == Ok::<
                    (Option<(TokenKind, TokenValueModel)>, nat),
                    Error,
                >(
                    (
                        match t {
                            Some(t) => Some((t.kind, t.value@)),
                            None => None,
                        },
                        final(self).index as nat,
                    ),
                ) && old(self).index < final(self).index <= final(self).source@.len(),
                Err(x) => step(old(self).source@, old(self).index as nat, at) == Err::<
                    (Option<(TokenKind, TokenValueModel)>, nat),
                    Error,
                >(x),
            },
    {
        let c = self.source[self.index];
        if c == '\n' {
            self.advance();
            return Ok(Some(Token::new(TokenKind::Newline, TokenValue::Empty)));
        }
        if is_whitespace(c) {
            self.advance();
            return Ok(None);
        }
        if c == '{' {
            if self.consume('-') {
                self.advance();
                proof {
                    lemma_comment_end_bounds(self.source@, self.index as nat, 1);
                }
                self.consume_comment();
                return Ok(None);
            }
            self.advance();
            return Ok(Some(Token::new(TokenKind::LeftBrace, TokenValue::Empty)));
        }
        match Self::pair_kinds(c) {
            Some((second, short, long)) => {
                let kind = if self.consume(second) {
                    long
                } else {
                    short
                };
                self.advance();
                return Ok(Some(Token::new(kind, TokenValue::Empty)));
            },
            None => {},
        }
        match Self::single_char_kind(c) {
            Some(kind) => {
                self.advance();
                return Ok(Some(Token::new(kind, TokenValue::Empty)));
            },
            None => {},
        }
        if c == '"' {
            return self.consume_string(at);
        }
        if '0' <= c && c <= '9' {
            return self.consume_number(at);
        }
        if is_alphabetic(c) {
            return Ok(Some(self.consume_identifier()));
        }
        self.advance();
        Ok(Some(Token::new(TokenKind::Unknown, TokenValue::Unknown(c))))
    }

    /// The operators that `c` starts, and the character that makes the long one.
    fn pair_kinds(c: char) -> (r: Option<(char, TokenKind, TokenKind)>)
        ensures
            r == pair_kinds(c),
    {
        match c {
            '!' => Some(('=', TokenKind::Bang, TokenKind::BangEqual)),
            '*' => Some(('*', TokenKind::Star, TokenKind::StarStar)),
            '=' => Some(('=', TokenKind::Equal, TokenKind::EqualEqual)),
            '<' => Some(('=', TokenKind::Less, TokenKind::LessEqual)),
            '>' => Some(('=', TokenKind::Greater, TokenKind::GreaterEqual)),
            _ => None,
        }
    }

    /// The kind of a one-character token.
    fn single_char_kind(c: char) -> (r: Option<TokenKind>)
        ensures
            r == single_char_kind(c),
    {
        match c {
            '}' => Some(TokenKind::RightBrace),
            '[' => Some(TokenKind::LeftBracket),
            ']' => Some(TokenKind::RightBracket),
            '(' => Some(TokenKind::LeftParenthesis),
            ')' => Some(TokenKind::RightParenthesis),
            '&' => Some(TokenKind::Ampersand),
            '^' => Some(TokenKind::Caret),
            '|' => Some(TokenKind::Pipe),
            '+' => Some(TokenKind::Plus),
            '-' => Some(TokenKind::Minus),
            '/' => Some(TokenKind::Slash),
            '%' => Some(TokenKind::Percent),
            '@' => Some(TokenKind::At),
            ':' => Some(TokenKind::Colon),
            ',' => Some(TokenKind::Comma),
            '$' => Some(TokenKind::Dollar),
            '.' => Some(TokenKind::Dot),
            '#' => Some(TokenKind::Hash),
            '?' => Some(TokenKind::QuestionMark),
            ';' => Some(TokenKind::Semicolon),
            '_' => Some(TokenKind::Underscore),
            _ => None,
        }
    }

    /// Skips the inside of a block comment whose `{-` ends just before the
    /// current index; nested comments must close too.
    fn consume_comment(&mut self)
        requires
            old(self).index <= old(self).source.len(),
        ensures
            final(self).index == comment_end(old(self).source@, old(self).index as nat, 1),
            final(self).source == old(self).source,
            final(self).row == old(self).row,
            final(self).bol == old(self).bol,
    {
        let mut depth: usize = 1;
        let ghost start = self.index;
        loop
            invariant
                self.source == old(self).source,
                self.row == old(self).row,
                self.bol == old(self).bol,
                self.index <= self.source.len(),
                1 <= depth <= self.index + 1,
                start == old(self).index,
                comment_end(self.source@, self.index as nat, depth as nat) == comment_end(
                    self.source@,
                    start as nat,
                    1,
                ),
            decreases self.source.len() - self.index,
        {
            match (self.current(), self.next(1)) {
                (None, _) => {
                    return;
                },
                (Some('{'), Some('-')) => {
                    depth = depth + 1;
                    self.advance();
                    self.advance();
                },
                (Some('-'), Some('}')) => {
                    self.advance();
                    self.advance();
                    if depth <= 1 {
                        return;
                    }
                    depth = depth - 1;
                },
                _ => {
                    self.advance();
                },
            }
        }
    }

    /// The characters `from..to` of the source, as a string.
    fn text_between(&self, from: usize, to: usize) -> (r: String)
        requires
            from <= to <= self.source.len(),
        ensures
            r@ == self.source@.subrange(from as int, to as int),
    {
        let mut r = String::new();
        let mut k = from;
        while k < to
            invariant
                from <= k <= to <= self.source.len(),
                r@ == self.source@.subrange(from as int, k as int),
            decreases to - k,
        {
            push_char(&mut r, self.source[k]);
            k = k + 1;
            proof {
                assert(r@ =~= self.source@.subrange(from as int, k as int));
            }
        }
        r
    }

    /// A string literal: everything up to the next `"`, with no escapes.
    fn consume_string(&mut self, at: Location) -> (r: Result<Option<Token>, Error>)
        requires
            old(self).index < old(self).source.len(),
            old(self).source@[old(self).index as int] == '"',
        ensures
            r is Ok ==> old(self).index < final(self).index <= old(self).source.len(),
            final(self).source == old(self).source,
            final(self).row == old(self).row,
            final(self).bol == old(self).bol,
            ({
                let e = quote_at_or_after(old(self).source@, (old(self).index + 1) as nat);
                if e < old(self).source@.len() {
                    r matches Ok(Some(t)) && t.kind == TokenKind::String && t.value@
                        == TokenValueModel::String(
                        old(self).source@.subrange(old(self).index + 1, e as int),
                    ) && final(self).index == e + 1
                } else {
                    r == Err::<Option<Token>, Error>(
                        fail_with(ErrorKind::UnterminatedString, at, STRING_HELP),
                    )
                }
            }),
    {
        let start = self.index + 1;
        let mut e = start;
        while e < self.source.len() && self.source[e] != '"'
            invariant
                start <= e <= self.source.len(),
                quote_at_or_after(self.source@, e as nat) == quote_at_or_after(
                    self.source@,
                    start as nat,
                ),
            decreases self.source.len() - e,
        {
            e = e + 1;
        }
        if e >= self.source.len() {
            return Err(Error::with_help(ErrorKind::UnterminatedString, at, STRING_HELP));
        }
        let text = self.text_between(start, e);
        self.index = e + 1;
        Ok(Some(Token::new(TokenKind::String, TokenValue::String(text))))
    }

    /// The end of the run of digits from `from`.
    fn digit_run_end(&self, from: usize) -> (r: usize)
        requires
            from <= self.source.len(),
        ensures
            r == digit_run_end(self.source@, from as nat),
            from <= r <= self.source.len(),
            forall|k: int| from <= k < r ==> is_digit(#[trigger] self.source@[k]),
            from < self.source.len() && is_digit(self.source@[from as int]) ==> from < r,
    {
        let mut e = from;
        while e < self.source.len() && '0' <= self.source[e] && self.source[e] <= '9'
            invariant
                from <= e <= self.source.len(),
                forall|k: int| from <= k < e ==> is_digit(#[trigger] self.source@[k]),
                digit_run_end(self.source@, e as nat) == digit_run_end(self.source@, from as nat),
            decreases self.source.len() - e,
        {
            e = e + 1;
        }
        e
    }

    /// A number: digits, then a dot and digits for a float.
    fn consume_number(&mut self, at: Location) -> (r: Result<Option<Token>, Error>)
        requires
            old(self).index < old(self).source.len(),
            is_digit(old(self).source@[old(self).index as int]),
        ensures
            r is Ok ==> old(self).index < final(self).index <= old(self).source.len(),
            final(self).source == old(self).source,
            final(self).row == old(self).row,
            final(self).bol == old(self).bol,
            ({
                let s = old(self).source@;
                let i = old(self).index as nat;
                let e = digit_run_end(s, i);
                if char_is(s, e, '.') && e + 1 < s.len() && is_digit(s[e + 1 as int]) {
                    let f = digit_run_end(s, e + 1);
                    r matches Ok(Some(t)) && t.kind == TokenKind::Float && t.value@
                        == TokenValueModel::Float(s.subrange(i as int, f as int)) && final(self).index
                        == f
                } else {
                    let v = digits_value(s.subrange(i as int, e as int));
                    if v <= i128::MAX {
                        r matches Ok(Some(t)) && t.kind == TokenKind::Integer && t.value@
                            == TokenValueModel::Integer(v as i128) && final(self).index == e
                    } else {
                        r == Err::<Option<Token>, Error>(fail(ErrorKind::NotANumber, at))
                    }
                }
            }),
    {
        let start = self.index;
        let e = self.digit_run_end(start);
        if e < self.source.len() && self.source[e] == '.' && e + 1 < self.source.len() && '0'
            <= self.source[e + 1] && self.source[e + 1] <= '9' {
            let f = self.digit_run_end(e + 1);
            let text = self.text_between(start, f);
            self.index = f;
            return Ok(Some(Token::new(TokenKind::Float, TokenValue::Float(text))));
        }
        match self.integer_value(start, e) {
            Some(v) => {
                self.index = e;
                Ok(Some(Token::new(TokenKind::Integer, TokenValue::Integer(v))))
            },
            None => Err(Error::new(ErrorKind::NotANumber, at)),
        }
    }

    /// The number that the digits `from..to` denote, if it fits `i128`.
    fn integer_value(&self, from: usize, to: usize) -> (r: Option<i128>)
        requires
            from <= to <= self.source.len(),
            forall|k: int| from <= k < to ==> is_digit(#[trigger] self.source@[k]),
        ensures
            match r {
                Some(v) => v as int == digits_value(self.source@.subrange(from as int, to as int)),
                None => digits_value(self.source@.subrange(from as int, to as int)) > i128::MAX,
            },
    {
        let mut acc: i128 = 0;
        let mut k = from;
        proof {
            assert(self.source@.subrange(from as int, from as int) =~= Seq::<char>::empty());
        }
        while k < to
            invariant
                from <= k <= to <= self.source.len(),
                forall|j: int| from <= j < to ==> is_digit(#[trigger] self.source@[j]),
                acc as int == digits_value(self.source@.subrange(from as int, k as int)),
                acc >= 0,
            decreases to - k,
        {
            let ghost prefix = self.source@.subrange(from as int, (k + 1) as int);
            proof {
                assert(prefix.drop_last() =~= self.source@.subrange(from as int, k as int));
            }
            let d = (self.source[k] as u32 - '0' as u32) as i128;
            match acc.checked_mul(10) {
                Some(m) => match m.checked_add(d) {
                    Some(n) => {
                        acc = n;
                    },
                    None => {
                        proof {
                            lemma_digits_grow(self.source@.subrange(from as int, to as int), (k + 1 - from) as nat);
                            assert(self.source@.subrange(from as int, to as int).subrange(0, (k + 1 - from) as int) =~= prefix);
                        }
                        return None;
                    },
                },
                None => {
                    proof {
                        lemma_digits_grow(self.source@.subrange(from as int, to as int), (k + 1 - from) as nat);
                        assert(self.source@.subrange(from as int, to as int).subrange(0, (k + 1 - from) as int) =~= prefix);
                    }
                    return None;
                },
            }
            k = k + 1;
        }
        Some(acc)
    }

    /// A word: a letter, then letters, digits and `_`; a keyword or an
    /// identifier.
    fn consume_identifier(&mut self) -> (r: Token)
        requires
            old(self).index < old(self).source.len(),
        ensures
            old(self).index < final(self).index <= old(self).source.len(),
            final(self).source == old(self).source,
            final(self).row == old(self).row,
            final(self).bol == old(self).bol,
            ({
                let e = word_end(old(self).source@, (old(self).index + 1) as nat);
                &&& final(self).index == e
                &&& (r.kind, r.value@) == word_token(
                    old(self).source@.subrange(old(self).index as int, e as int),
                )
            }),
    {
        let start = self.index;
        let mut e = start + 1;
        while e < self.source.len() && (is_alphanumeric(self.source[e]) || self.source[e] == '_')
            invariant
                start + 1 <= e <= self.source.len(),
                word_end(self.source@, e as nat) == word_end(self.source@, (start + 1) as nat),
            decreases self.source.len() - e,
        {
            e = e + 1;
        }
        self.index = e;
        let w = self.text_between(start, e);
        match Self::keyword(&w) {
            Some(TokenKind::True) => Token::new(TokenKind::True, TokenValue::Boolean(true)),
            Some(TokenKind::False) => Token::new(TokenKind::False, TokenValue::Boolean(false)),
            Some(k) => Token::new(k, TokenValue::Empty),
            None => Token::new(TokenKind::Identifier, TokenValue::Identifier(w)),
        }
    }

    /// The keyword that `w` spells, if any.
    fn keyword(w: &String) -> (r: Option<TokenKind>)
        ensures
            r == keyword_of(w@),
    {
        let c = chars_of(w.as_str());
        let n = c.len();
        let r = if n == 2 && c[0] == 'i' && c[1] == 'f' {
            Some(TokenKind::If)
        } else if n == 4 && c[0] == 't' && c[1] == 'h' && c[2] == 'e' && c[3] == 'n' {
            Some(TokenKind::Then)
        } else if n == 4 && c[0] == 'e' && c[1] == 'l' && c[2] == 'i' && c[3] == 'f' {
            Some(TokenKind::Elif)
        } else if n == 4 && c[0] == 'e' && c[1] == 'l' && c[2] == 's' && c[3] == 'e' {
            Some(TokenKind::Else)
        } else if n == 4 && c[0] == 't' && c[1] == 'r' && c[2] == 'u' && c[3] == 'e' {
            Some(TokenKind::True)
        } else if n == 5 && c[0] == 'f' && c[1] == 'a' && c[2] == 'l' && c[3] == 's' && c[4] == 'e' {
            Some(TokenKind::False)
        } else if n == 4 && c[0] == 'n' && c[1] == 'u' && c[2] == 'l' && c[3] == 'l' {
            Some(TokenKind::Null)
        } else if n == 3 && c[0] == 'u' && c[1] == 's' && c[2] == 'e' {
            Some(TokenKind::Use)
        } else {
            None
        };
        proof {
            let s = c@;
            assert(s == w@);
            if n == 2 && s[0] == 'i' && s[1] == 'f' { assert(s =~= seq!['i', 'f']); }
            if n == 4 && s[0] == 't' && s[1] == 'h' && s[2] == 'e' && s[3] == 'n' { assert(s =~= seq!['t', 'h', 'e', 'n']); }
            if n == 4 && s[0] == 'e' && s[1] == 'l' && s[2] == 'i' && s[3] == 'f' { assert(s =~= seq!['e', 'l', 'i', 'f']); }
            if n == 4 && s[0] == 'e' && s[1] == 'l' && s[2] == 's' && s[3] == 'e' { assert(s =~= seq!['e', 'l', 's', 'e']); }
            if n == 4 && s[0] == 't' && s[1] == 'r' && s[2] == 'u' && s[3] == 'e' { assert(s =~= seq!['t', 'r', 'u', 'e']); }
            if n == 5 && s[0] == 'f' && s[1] == 'a' && s[2] == 'l' && s[3] == 's' && s[4] == 'e' { assert(s =~= seq!['f', 'a', 'l', 's', 'e']); }
            if n == 4 && s[0] == 'n' && s[1] == 'u' && s[2] == 'l' && s[3] == 'l' { assert(s =~= seq!['n', 'u', 'l', 'l']); }
            if n == 3 && s[0] == 'u' && s[1] == 's' && s[2] == 'e' { assert(s =~= seq!['u', 's', 'e']); }
        }
        r
    }
}

/// A comment ends after where its scan starts, and within the text.
proof fn lemma_comment_end_bounds(s: Seq<char>, i: nat, depth: nat)
    requires
        i <= s.len(),
    ensures
        i <= comment_end(s, i, depth) <= s.len(),
    decreases s.len() - i,
{
    if i < s.len() {
        if s[i as int] == '{' && char_is(s, i + 1, '-') {
            lemma_comment_end_bounds(s, i + 2, depth + 1);
        } else if s[i as int] == '-' && char_is(s, i + 1, '}') {
            if depth > 1 {
                lemma_comment_end_bounds(s, i + 2, (depth - 1) as nat);
            }
        } else {
            lemma_comment_end_bounds(s, i + 1, depth);
        }
    }
}

/// Once a prefix of a digit run exceeds `i128`, so does every longer one.
proof fn lemma_digits_grow(d: Seq<char>, k: nat)
    requires
        k <= d.len(),
        forall|j: int| 0 <= j < d.len() ==> is_digit(#[trigger] d[j]),
    ensures
        digits_value(d.subrange(0, k as int)) <= digits_value(d),
        digits_value(d.subrange(0, k as int)) >= 0,
    decreases d.len() - k,
{
    lemma_digits_nonnegative(d.subrange(0, k as int));
    if k < d.len() {
        lemma_digits_grow(d, k + 1);
        let p = d.subrange(0, (k + 1) as int);
        assert(p.drop_last() =~= d.subrange(0, k as int));
    } else {
        assert(d.subrange(0, k as int) =~= d);
    }
}

proof fn lemma_digits_nonnegative(d: Seq<char>)
    requires
        forall|j: int| 0 <= j < d.len() ==> is_digit(#[trigger] d[j]),
    ensures
        digits_value(d) >= 0,
    decreases d.len(),
{
    if d.len() > 0 {
        lemma_digits_nonnegative(d.drop_last());
    }
}

} // verus!
