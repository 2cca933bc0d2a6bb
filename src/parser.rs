use crate::error::{Error, ErrorKind};
use crate::expression::{Expression, Statement, StatementModel};
use crate::location::{Located, Location};
use crate::operators::fail_with;
use crate::precedence::{Precedence, level, precedence_of};
use crate::token::{Token, TokenKind, operator_kind, primary_kind, starts_expression};
use vstd::prelude::*;

verus! {

pub const PAREN_HELP: &'static str = "Expected a closing parenthesis";

pub const UNEXPECTED_HELP: &'static str = "Unexpected token in expression.";

pub const THEN_HELP: &'static str = "Expected `then` after the condition";

pub const ELSE_HELP: &'static str = "Expected `else` to complete the conditional";

pub const LAMBDA_HELP: &'static str = "Expected `$` after the lambda's parameters";

pub const DECLARATION_HELP: &'static str = "This should be an identifier.";

pub const PARAMETER_HELP: &'static str = "Expected at least one parameter in a function definition.";

pub const SEPARATOR_HELP: &'static str = "Expected a newline or semicolon.";

/// The error for input that ends where more was needed.
pub open spec fn end_of_file() -> Error {
    Error { kind: ErrorKind::UnexpectedEndOfFile, location: None, help: None }
}

pub open spec fn is_at(t: Seq<Located<Token>>, i: nat, k: TokenKind) -> bool {
    i < t.len() && t[i as int].node.kind == k
}

/// An expression stops at a newline, a semicolon or the end of the input.
pub open spec fn at_end_of_expression(t: Seq<Located<Token>>, i: nat) -> bool {
    i >= t.len() || is_at(t, i, TokenKind::Newline) || is_at(t, i, TokenKind::Semicolon)
}

/// The end of the run of identifier tokens that starts at `i`.
pub open spec fn identifier_run_end(t: Seq<Located<Token>>, i: nat) -> nat
    decreases t.len() - i,
{
    if i < t.len() && t[i as int].node.kind == TokenKind::Identifier {
        identifier_run_end(t, i + 1)
    } else {
        i
    }
}

/// The end of the run of primary tokens (identifiers, literals, `_`) at `i`.
pub open spec fn primary_run_end(t: Seq<Located<Token>>, i: nat) -> nat
    decreases t.len() - i,
{
    if i < t.len() && primary_kind(t[i as int].node.kind) {
        primary_run_end(t, i + 1)
    } else {
        i
    }
}

/// The end of the run of type names (identifiers and `_`) at `i`.
pub open spec fn type_run_end(t: Seq<Located<Token>>, i: nat) -> nat
    decreases t.len() - i,
{
    if i < t.len() && (t[i as int].node.kind == TokenKind::Identifier || t[i as int].node.kind
        == TokenKind::Underscore) {
        type_run_end(t, i + 1)
    } else {
        i
    }
}

/// Identifiers followed by `$` start a lambda.
pub open spec fn lambda_ahead(t: Seq<Located<Token>>, i: nat) -> bool {
    is_at(t, identifier_run_end(t, i), TokenKind::Dollar)
}

/// Primary tokens followed by `=` make a definition.
pub open spec fn definition_ahead(t: Seq<Located<Token>>, i: nat) -> bool {
    is_at(t, primary_run_end(t, i), TokenKind::Equal)
}

/// Currying: `a b ... $ body` is `a $ (b $ (... body))`, each lambda at `at`.
pub open spec fn curried(params: Seq<Located<Token>>, body: Located<Expression>, at: Location) -> Located<
    Expression,
>
    decreases params.len(),
{
    if params.len() == 0 {
        body
    } else {
        Located {
            node: Expression::Lambda {
                parameter: params[0],
                body: Box::new(curried(params.drop_first(), body, at)),
            },
            location: at,
        }
    }
}

/// An expression whose operators all bind tighter than `prec`, from `pos`:
/// the tree and the position after it.
pub open spec fn p_expression(t: Seq<Located<Token>>, pos: nat, prec: Precedence) -> Result<
    (Located<Expression>, nat),
    Error,
>
    decreases t.len() - pos, 4nat,
{
    if pos > t.len() {
        Err(end_of_file())
    } else {
        match p_prefix(t, pos) {
            Err(x) => Err(x),
            Ok((left, p)) => if pos < p <= t.len() {
                p_loop(t, p, prec, left)
            } else {
                Ok((left, p))
            },
        }
    }
}

/// Precedence climbing: after `left`, take conditionals, infix operators
/// binding tighter than `prec`, and arguments by juxtaposition.
pub open spec fn p_loop(
    t: Seq<Located<Token>>,
    pos: nat,
    prec: Precedence,
    left: Located<Expression>,
) -> Result<(Located<Expression>, nat), Error>
    decreases t.len() - pos, 3nat,
{
    if pos > t.len() {
        Err(end_of_file())
    } else if at_end_of_expression(t, pos) {
        Ok((left, pos))
    } else {
        let k = t[pos as int].node.kind;
        if k == TokenKind::If && level(Precedence::Conditional) > level(prec) {
            match p_if(t, pos + 1) {
                Err(x) => Err(x),
                Ok((e, p)) => if pos < p <= t.len() {
                    p_loop(t, p, prec, e)
                } else {
                    Ok((e, p))
                },
            }
        } else if level(precedence_of(k)) > level(prec) {
            match p_infix(t, pos, left, precedence_of(k)) {
                Err(x) => Err(x),
                Ok((e, p)) => if pos < p <= t.len() {
                    p_loop(t, p, prec, e)
                } else {
                    Ok((e, p))
                },
            }
        } else if starts_expression(k) && !operator_kind(k) && level(Precedence::Application) > level(
            prec,
        ) {
            match p_prefix(t, pos) {
                Err(x) => Err(x),
                Ok((argument, p)) => {
                    let call = Located {
                        node: Expression::Call { function: Box::new(left), argument: Box::new(argument) },
                        location: left.location,
                    };
                    if pos < p <= t.len() {
                        p_loop(t, p, prec, call)
                    } else {
                        Ok((call, p))
                    }
                },
            }
        } else {
            Ok((left, pos))
        }
    }
}

/// The operator at `pos` and its right operand, at the operator's precedence.
pub open spec fn p_infix(
    t: Seq<Located<Token>>,
    pos: nat,
    left: Located<Expression>,
    prec: Precedence,
) -> Result<(Located<Expression>, nat), Error>
    decreases t.len() - pos, 2nat,
{
    if pos >= t.len() {
        Err(end_of_file())
    } else {
        let operator = t[pos as int];
        match p_expression(t, pos + 1, prec) {
            Err(x) => Err(x),
            Ok((right, p)) => Ok(
                (
                    Located {
                        node: Expression::Binary {
                            left: Box::new(left),
                            operator,
                            right: Box::new(right),
                        },
                        location: operator.location,
                    },
                    p,
                ),
            ),
        }
    }
}

/// A prefix form: a unary operator, a lambda, an identifier, a parenthesised
/// expression, a literal or a conditional.
pub open spec fn p_prefix(t: Seq<Located<Token>>, pos: nat) -> Result<(Located<Expression>, nat), Error>
    decreases t.len() - pos, 1nat,
{
    if pos >= t.len() {
        Err(end_of_file())
    } else {
        let token = t[pos as int];
        let at = token.location;
        match token.node.kind {
            TokenKind::Bang | TokenKind::Minus => match p_expression(t, pos + 1, Precedence::Prefix) {
                Err(x) => Err(x),
                Ok((e, p)) => Ok(
                    (
                        Located {
                            node: Expression::Unary { operator: token, expression: Box::new(e) },
                            location: at,
                        },
                        p,
                    ),
                ),
            },
            TokenKind::Identifier => if lambda_ahead(t, pos) {
                p_lambda(t, pos)
            } else {
                Ok((Located { node: Expression::Identifier { token }, location: at }, pos + 1))
            },
            TokenKind::LeftParenthesis => match p_expression(t, pos + 1, Precedence::Lowest) {
                Err(x) => Err(x),
                Ok((e, p)) => if is_at(t, p, TokenKind::RightParenthesis) {
                    Ok((e, p + 1))
                } else {
                    Err(fail_with(ErrorKind::MissingClosingParenthesis, at, PAREN_HELP))
                },
            },
            TokenKind::True | TokenKind::False | TokenKind::Null | TokenKind::Float
            | TokenKind::Integer | TokenKind::String | TokenKind::Underscore => Ok(
                (Located { node: Expression::Literal { token }, location: at }, pos + 1),
            ),
            TokenKind::If => p_if(t, pos + 1),
            _ => Err(fail_with(ErrorKind::ExpectedExpression, at, UNEXPECTED_HELP)),
        }
    }
}

/// `a b ... $ body`, curried, each lambda located at the last parameter.
pub open spec fn p_lambda(t: Seq<Located<Token>>, pos: nat) -> Result<(Located<Expression>, nat), Error>
    decreases t.len() - pos, 0nat,
{
    let e = identifier_run_end(t, pos);
    if pos < e && e < t.len() && t[e as int].node.kind == TokenKind::Dollar {
        match p_expression(t, e + 1, Precedence::Lowest) {
            Err(x) => Err(x),
            Ok((body, p)) => Ok((curried(t.subrange(pos as int, e as int), body, t[e - 1].location), p)),
        }
    } else {
        Err(end_of_file())
    }
}

/// `<cond> then <body> (elif <cond> then <body>)* else <otherwise>`, after the
/// `if`. Each `elif` is an `If` in the `otherwise` place of the one before;
/// all are located at the first condition.
pub open spec fn p_if(t: Seq<Located<Token>>, pos: nat) -> Result<(Located<Expression>, nat), Error>
    decreases t.len() - pos, 6nat,
{
    if pos >= t.len() {
        Err(end_of_file())
    } else {
        let at = t[pos as int].location;
        p_branch(t, pos, at)
    }
}

/// One condition and body, then the rest of the conditional.
pub open spec fn p_branch(t: Seq<Located<Token>>, pos: nat, at: Location) -> Result<
    (Located<Expression>, nat),
    Error,
>
    decreases t.len() - pos, 5nat,
{
    if pos > t.len() {
        Err(end_of_file())
    } else {
        match p_expression(t, pos, Precedence::Lowest) {
            Err(x) => Err(x),
            Ok((c, after_condition)) => if !(pos < after_condition <= t.len()) {
                Err(end_of_file())
            } else if !is_at(t, after_condition, TokenKind::Then) {
                Err(fail_with(ErrorKind::IncompleteIf, at, THEN_HELP))
            } else {
                match p_expression(t, after_condition + 1, Precedence::Lowest) {
                    Err(x) => Err(x),
                    Ok((b, after_body)) => if !(after_condition < after_body <= t.len()) {
                        Err(end_of_file())
                    } else {
                        match p_if_tail(t, after_body, at) {
                            Err(x) => Err(x),
                            Ok((o, after_rest)) => Ok(
                                (
                                    Located {
                                        node: Expression::If {
                                            condition: Box::new(c),
                                            body: Box::new(b),
                                            otherwise: Box::new(o),
                                        },
                                        location: at,
                                    },
                                    after_rest,
                                ),
                            ),
                        }
                    },
                }
            },
        }
    }
}

/// After a branch: `elif` and another branch, or `else` and the otherwise.
pub open spec fn p_if_tail(t: Seq<Located<Token>>, pos: nat, at: Location) -> Result<
    (Located<Expression>, nat),
    Error,
>
    decreases t.len() - pos, 5nat,
{
    if pos > t.len() {
        Err(end_of_file())
    } else if is_at(t, pos, TokenKind::Elif) {
        p_branch(t, pos + 1, at)
    } else if is_at(t, pos, TokenKind::Else) {
        p_expression(t, pos + 1, Precedence::Lowest)
    } else {
        Err(fail_with(ErrorKind::IncompleteIf, at, ELSE_HELP))
    }
}

/// One statement from `pos`, classified by looking ahead: `name :` starts a
/// declaration, a run of primary tokens then `=` a definition, anything
/// else is an expression.
pub open spec fn p_statement(t: Seq<Located<Token>>, pos: nat) -> Result<
    ((StatementModel, Location), nat),
    Error,
> {
    if pos >= t.len() {
        Err(end_of_file())
    } else if is_at(t, pos + 1, TokenKind::Colon) {
        let name = t[pos as int];
        if name.node.kind == TokenKind::Identifier {
            let e = type_run_end(t, pos + 2);
            Ok(
                (
                    (
                        StatementModel::Declaration {
                            name,
                            types: t.subrange(pos + 2 as int, e as int),
                        },
                        name.location,
                    ),
                    e,
                ),
            )
        } else {
            Err(fail_with(ErrorKind::ExpectedExpression, name.location, DECLARATION_HELP))
        }
    } else if is_at(t, pos, TokenKind::Identifier) && definition_ahead(t, pos) {
        let name = t[pos as int];
        let e = primary_run_end(t, pos);
        if e <= pos + 1 {
            Err(fail_with(ErrorKind::MissingParameter, name.location, PARAMETER_HELP))
        } else {
            match p_expression(t, e + 1, Precedence::Lowest) {
                Err(x) => Err(x),
                Ok((body, p)) => {
                    let params = t.subrange(pos + 1 as int, e as int);
                    Ok(
                        (
                            (
                                StatementModel::Definition {
                                    name,
                                    parameter: params[0],
                                    body: curried(params.drop_first(), body, body.location),
                                },
                                body.location,
                            ),
                            p,
                        ),
                    )
                },
            }
        }
    } else {
        match p_expression(t, pos, Precedence::Lowest) {
            Err(x) => Err(x),
            Ok((e, p)) => Ok(((StatementModel::Expression { expression: e }, e.location), p)),
        }
    }
}

/// The statements from `pos` on, after those in `acc`. Blank lines are
/// skipped; each statement must end at a newline, a semicolon or the end.
pub open spec fn p_statements(
    t: Seq<Located<Token>>,
    pos: nat,
    acc: Seq<(StatementModel, Location)>,
) -> Result<Seq<(StatementModel, Location)>, Error>
    decreases t.len() - pos,
{
    if pos >= t.len() {
        Ok(acc)
    } else if is_at(t, pos, TokenKind::Newline) {
        p_statements(t, pos + 1, acc)
    } else {
        match p_statement(t, pos) {
            Err(x) => Err(x),
            Ok((s, p)) => if !(pos < p <= t.len()) {
                Err(end_of_file())
            } else if p < t.len() && !is_at(t, p, TokenKind::Newline) && !is_at(
                t,
                p,
                TokenKind::Semicolon,
            ) {
                Err(fail_with(ErrorKind::UnexpectedToken, t[p as int].location, SEPARATOR_HELP))
            } else {
                p_statements(
                    t,
                    if p < t.len() {
                        p + 1
                    } else {
                        p
                    },
                    acc.push(s),
                )
            },
        }
    }
}

/// The program that a token sequence denotes.
pub open spec fn parse_program(t: Seq<Located<Token>>) -> Result<Seq<(StatementModel, Location)>, Error> {
    p_statements(t, 0, Seq::empty())
}

/// The statements as the contracts see them.
pub open spec fn statements_view(v: Seq<Located<Statement>>) -> Seq<(StatementModel, Location)> {
    v.map_values(|s: Located<Statement>| (s.node@, s.location))
}

pub open spec fn parsed(r: Result<(Located<Expression>, usize), Error>) -> Result<
    (Located<Expression>, nat),
    Error,
> {
    match r {
        Ok((e, p)) => Ok((e, p as nat)),
        Err(x) => Err(x),
    }
}

pub open spec fn advanced(r: Result<(Located<Expression>, usize), Error>, pos: nat, len: nat) -> bool {
    r matches Ok((_, p)) ==> pos < p <= len
}

/// Builds statements from tokens.
pub struct Parser {
    tokens: Vec<Located<Token>>,
    index: usize,
}

impl Parser {
    /// The number of tokens the parser holds.
    pub closed spec fn token_count(&self) -> nat {
        self.tokens@.len()
    }

    /// A parser with no tokens yet.
    pub fn new() -> (r: Parser)
        ensures
            r.token_count() == 0,
    {
        Parser { tokens: Vec::new(), index: 0 }
    }

    /// Parses a whole token sequence; the first syntax error aborts it.
    pub fn parse(&mut self, tokens: Vec<Located<Token>>) -> (r: Result<Vec<Located<Statement>>, Error>)
        ensures
            match r {
                Ok(v) => parse_program(tokens@) == Ok::<Seq<(StatementModel, Location)>, Error>(
                    statements_view(v@),
                ),
                Err(x) => parse_program(tokens@) == Err::<Seq<(StatementModel, Location)>, Error>(x),
            },
    {
        self.tokens = tokens;
        self.index = 0;
        let mut statements: Vec<Located<Statement>> = Vec::new();
        let ghost t = self.tokens@;
        proof {
            assert(statements_view(statements@) =~= Seq::<(StatementModel, Location)>::empty());
        }
        while self.index < self.tokens.len()
            invariant
                self.tokens@ == t,
                t == tokens@,
                self.index <= t.len(),
                p_statements(t, self.index as nat, statements_view(statements@)) == parse_program(t),
            decreases t.len() - self.index,
        {
            let pos = self.index;
            if self.is_at(pos, TokenKind::Newline) {
                self.index = pos + 1;
                continue;
            }
            let (statement, p) = self.parse_statement(pos)?;
            if p < self.tokens.len() && !self.is_at(p, TokenKind::Newline) && !self.is_at(
                p,
                TokenKind::Semicolon,
            ) {
                return Err(
                    Error::with_help(
                        ErrorKind::UnexpectedToken,
                        self.tokens[p].location,
                        SEPARATOR_HELP,
                    ),
                );
            }
            let ghost before = statements@;
            statements.push(statement);
            proof {
                assert(statements_view(statements@) =~= statements_view(before).push(
                    (statement.node@, statement.location),
                ));
            }
            self.index = if p < self.tokens.len() {
                p + 1
            } else {
                p
            };
        }
        Ok(statements)
    }

    fn is_at(&self, pos: usize, kind: TokenKind) -> (r: bool)
        ensures
            r == is_at(self.tokens@, pos as nat, kind),
    {
        pos < self.tokens.len() && self.tokens[pos].node.kind == kind
    }

    fn is_end_of_expression(&self, pos: usize) -> (r: bool)
        ensures
            r == at_end_of_expression(self.tokens@, pos as nat),
    {
        pos >= self.tokens.len() || self.is_at(pos, TokenKind::Newline) || self.is_at(
            pos,
            TokenKind::Semicolon,
        )
    }

    fn identifier_run_end(&self, pos: usize) -> (r: usize)
        requires
            pos <= self.tokens.len(),
        ensures
            r == identifier_run_end(self.tokens@, pos as nat),
            pos <= r <= self.tokens.len(),
    {
        let mut e = pos;
        while e < self.tokens.len() && self.tokens[e].node.kind == TokenKind::Identifier
            invariant
                pos <= e <= self.tokens.len(),
                identifier_run_end(self.tokens@, e as nat) == identifier_run_end(self.tokens@, pos as nat),
            decreases self.tokens.len() - e,
        {
            e = e + 1;
        }
        e
    }

    fn primary_run_end(&self, pos: usize) -> (r: usize)
        requires
            pos <= self.tokens.len(),
        ensures
            r == primary_run_end(self.tokens@, pos as nat),
            pos <= r <= self.tokens.len(),
    {
        let mut e = pos;
        while e < self.tokens.len() && self.tokens[e].node.kind.is_primary()
            invariant
                pos <= e <= self.tokens.len(),
                primary_run_end(self.tokens@, e as nat) == primary_run_end(self.tokens@, pos as nat),
            decreases self.tokens.len() - e,
        {
            e = e + 1;
        }
        e
    }

    fn type_run_end(&self, pos: usize) -> (r: usize)
        requires
            pos <= self.tokens.len(),
        ensures
            r == type_run_end(self.tokens@, pos as nat),
            pos <= r <= self.tokens.len(),
    {
        let mut e = pos;
        while e < self.tokens.len() && (self.tokens[e].node.kind == TokenKind::Identifier
            || self.tokens[e].node.kind == TokenKind::Underscore)
            invariant
                pos <= e <= self.tokens.len(),
                type_run_end(self.tokens@, e as nat) == type_run_end(self.tokens@, pos as nat),
            decreases self.tokens.len() - e,
        {
            e = e + 1;
        }
        e
    }

    /// The tokens `from..to`, cloned.
    fn slice(&self, from: usize, to: usize) -> (r: Vec<Located<Token>>)
        requires
            from <= to <= self.tokens.len(),
        ensures
            r@ == self.tokens@.subrange(from as int, to as int),
    {
        let mut r: Vec<Located<Token>> = Vec::new();
        let mut i = from;
        while i < to
            invariant
                from <= i <= to <= self.tokens.len(),
                r@ == self.tokens@.subrange(from as int, i as int),
            decreases to - i,
        {
            r.push(self.tokens[i].clone());
            i = i + 1;
            proof {
                assert(r@ =~= self.tokens@.subrange(from as int, i as int));
            }
        }
        r
    }

    /// Nests `body` in one lambda per parameter of `from..to`, the first
    /// outermost.
    fn curry(&self, from: usize, to: usize, body: Located<Expression>, at: Location) -> (r: Located<
        Expression,
    >)
        requires
            from <= to <= self.tokens.len(),
        ensures
            r == curried(self.tokens@.subrange(from as int, to as int), body, at),
    {
        let mut acc = body;
        let mut i = to;
        proof {
            assert(self.tokens@.subrange(to as int, to as int) =~= Seq::<Located<Token>>::empty());
        }
        while i > from
            invariant
                from <= i <= to <= self.tokens.len(),
                acc == curried(self.tokens@.subrange(i as int, to as int), body, at),
            decreases i - from,
        {
            i = i - 1;
            let ghost rest = self.tokens@.subrange(i + 1, to as int);
            proof {
                assert(self.tokens@.subrange(i as int, to as int).drop_first() =~= rest);
            }
            acc = Located {
                node: Expression::Lambda { parameter: self.tokens[i].clone(), body: Box::new(acc) },
                location: at,
            };
        }
        acc
    }

    fn parse_expression(&self, pos: usize, precedence: Precedence) -> (r: Result<
        (Located<Expression>, usize),
        Error,
    >)
        requires
            pos <= self.tokens.len(),
        ensures
            parsed(r) == p_expression(self.tokens@, pos as nat, precedence),
            advanced(r, pos as nat, self.tokens.len() as nat),
        decreases self.tokens.len() - pos, 4nat,
    {
        let (left, p) = self.parse_prefix(pos)?;
        self.parse_loop(p, precedence, left)
    }

    fn parse_loop(&self, pos: usize, precedence: Precedence, left: Located<Expression>) -> (r: Result<
        (Located<Expression>, usize),
        Error,
    >)
        requires
            pos <= self.tokens.len(),
        ensures
            parsed(r) == p_loop(self.tokens@, pos as nat, precedence, left),
            r matches Ok((_, p)) ==> pos <= p <= self.tokens.len(),
        decreases self.tokens.len() - pos, 3nat,
    {
        if self.is_end_of_expression(pos) {
            return Ok((left, pos));
        }
        let kind = self.tokens[pos].node.kind;
        if kind == TokenKind::If && Precedence::Conditional.binds_tighter(precedence) {
            let (e, p) = self.parse_if(pos + 1)?;
            return self.parse_loop(p, precedence, e);
        }
        let current = Precedence::from(kind);
        if current.binds_tighter(precedence) {
            let (e, p) = self.parse_infix(pos, left, current)?;
            return self.parse_loop(p, precedence, e);
        }
        if kind.can_start_expression() && !kind.is_operator() && Precedence::Application.binds_tighter(
            precedence,
        ) {
            let location = left.location;
            let (argument, p) = self.parse_prefix(pos)?;
            let call = Located {
                node: Expression::Call { function: Box::new(left), argument: Box::new(argument) },
                location,
            };
            return self.parse_loop(p, precedence, call);
        }
        Ok((left, pos))
    }

    fn parse_infix(&self, pos: usize, left: Located<Expression>, precedence: Precedence) -> (r: Result<
        (Located<Expression>, usize),
        Error,
    >)
        requires
            pos < self.tokens.len(),
        ensures
            parsed(r) == p_infix(self.tokens@, pos as nat, left, precedence),
            advanced(r, pos as nat, self.tokens.len() as nat),
        decreases self.tokens.len() - pos, 2nat,
    {
        let operator = self.tokens[pos].clone();
        let (right, p) = self.parse_expression(pos + 1, precedence)?;
        let location = operator.location;
        Ok(
            (
                Located {
                    node: Expression::Binary { left: Box::new(left), operator, right: Box::new(right) },
                    location,
                },
                p,
            ),
        )
    }

    fn parse_prefix(&self, pos: usize) -> (r: Result<(Located<Expression>, usize), Error>)
        requires
            pos <= self.tokens.len(),
        ensures
            parsed(r) == p_prefix(self.tokens@, pos as nat),
            advanced(r, pos as nat, self.tokens.len() as nat),
        decreases self.tokens.len() - pos, 1nat,
    {
        if pos >= self.tokens.len() {
            return Err(Error::from(ErrorKind::UnexpectedEndOfFile));
        }
        let token = self.tokens[pos].clone();
        let at = token.location;
        match token.node.kind {
            TokenKind::Bang | TokenKind::Minus => {
                let (e, p) = self.parse_expression(pos + 1, Precedence::Prefix)?;
                Ok(
                    (
                        Located {
                            node: Expression::Unary { operator: token, expression: Box::new(e) },
                            location: at,
                        },
                        p,
                    ),
                )
            },
            TokenKind::Identifier => {
                let e = self.identifier_run_end(pos);
                if self.is_at(e, TokenKind::Dollar) {
                    self.parse_lambda(pos)
                } else {
                    Ok((Located { node: Expression::Identifier { token }, location: at }, pos + 1))
                }
            },
            TokenKind::LeftParenthesis => {
                let (e, p) = self.parse_expression(pos + 1, Precedence::Lowest)?;
                if self.is_at(p, TokenKind::RightParenthesis) {
                    Ok((e, p + 1))
                } else {
                    Err(Error::with_help(ErrorKind::MissingClosingParenthesis, at, PAREN_HELP))
                }
            },
            TokenKind::True | TokenKind::False | TokenKind::Null | TokenKind::Float
            | TokenKind::Integer | TokenKind::String | TokenKind::Underscore => {
                Ok((Located { node: Expression::Literal { token }, location: at }, pos + 1))
            },
            TokenKind::If => self.parse_if(pos + 1),
            _ => Err(Error::with_help(ErrorKind::ExpectedExpression, at, UNEXPECTED_HELP)),
        }
    }

    fn parse_lambda(&self, pos: usize) -> (r: Result<(Located<Expression>, usize), Error>)
        requires
            pos <= self.tokens.len(),
        ensures
            parsed(r) == p_lambda(self.tokens@, pos as nat),
            advanced(r, pos as nat, self.tokens.len() as nat),
        decreases self.tokens.len() - pos, 0nat,
    {
        let e = self.identifier_run_end(pos);
        if pos < e && self.is_at(e, TokenKind::Dollar) {
            let (body, p) = self.parse_expression(e + 1, Precedence::Lowest)?;
            let at = self.tokens[e - 1].location;
            Ok((self.curry(pos, e, body, at), p))
        } else {
            Err(Error::from(ErrorKind::UnexpectedEndOfFile))
        }
    }

    fn parse_if(&self, pos: usize) -> (r: Result<(Located<Expression>, usize), Error>)
        requires
            pos <= self.tokens.len(),
        ensures
            parsed(r) == p_if(self.tokens@, pos as nat),
            advanced(r, pos as nat, self.tokens.len() as nat),
        decreases self.tokens.len() - pos, 6nat,
    {
        if pos >= self.tokens.len() {
            return Err(Error::from(ErrorKind::UnexpectedEndOfFile));
        }
        let at = self.tokens[pos].location;
        self.parse_branch(pos, at)
    }

    fn parse_branch(&self, pos: usize, at: Location) -> (r: Result<(Located<Expression>, usize), Error>)
        requires
            pos <= self.tokens.len(),
        ensures
            parsed(r) == p_branch(self.tokens@, pos as nat, at),
            advanced(r, pos as nat, self.tokens.len() as nat),
        decreases self.tokens.len() - pos, 5nat,
    {
        let (c, after_condition) = self.parse_expression(pos, Precedence::Lowest)?;
        if !self.is_at(after_condition, TokenKind::Then) {
            return Err(Error::with_help(ErrorKind::IncompleteIf, at, THEN_HELP));
        }
        let (b, after_body) = self.parse_expression(after_condition + 1, Precedence::Lowest)?;
        let (o, after_rest) = self.parse_if_tail(after_body, at)?;
        Ok(
            (
                Located {
                    node: Expression::If {
                        condition: Box::new(c),
                        body: Box::new(b),
                        otherwise: Box::new(o),
                    },
                    location: at,
                },
                after_rest,
            ),
        )
    }

    fn parse_if_tail(&self, pos: usize, at: Location) -> (r: Result<(Located<Expression>, usize), Error>)
        requires
            pos <= self.tokens.len(),
        ensures
            parsed(r) == p_if_tail(self.tokens@, pos as nat, at),
            advanced(r, pos as nat, self.tokens.len() as nat),
        decreases self.tokens.len() - pos, 5nat,
    {
        if self.is_at(pos, TokenKind::Elif) {
            self.parse_branch(pos + 1, at)
        } else if self.is_at(pos, TokenKind::Else) {
            self.parse_expression(pos + 1, Precedence::Lowest)
        } else {
            Err(Error::with_help(ErrorKind::IncompleteIf, at, ELSE_HELP))
        }
    }

    fn parse_statement(&self, pos: usize) -> (r: Result<(Located<Statement>, usize), Error>)
        requires
            pos < self.tokens.len(),
        ensures
            match r {
                Ok((s, p)) => p_statement(self.tokens@, pos as nat) == Ok::<
                    ((StatementModel, Location), nat),
                    Error,
                >(((s.node@, s.location), p as nat)) && pos < p <= self.tokens.len(),
                Err(x) => p_statement(self.tokens@, pos as nat) == Err::<
                    ((StatementModel, Location), nat),
                    Error,
                >(x),
            },
    {
        if self.is_at(pos + 1, TokenKind::Colon) {
            let name = self.tokens[pos].clone();
            if name.node.kind == TokenKind::Identifier {
                let e = self.type_run_end(pos + 2);
                let types = self.slice(pos + 2, e);
                let location = name.location;
                return Ok((Located { node: Statement::Declaration { name, types }, location }, e));
            }
            return Err(Error::with_help(ErrorKind::ExpectedExpression, name.location, DECLARATION_HELP));
        }
        if self.is_at(pos, TokenKind::Identifier) {
            let e = self.primary_run_end(pos);
            if self.is_at(e, TokenKind::Equal) {
                let name = self.tokens[pos].clone();
                if e <= pos + 1 {
                    return Err(
                        Error::with_help(ErrorKind::MissingParameter, name.location, PARAMETER_HELP),
                    );
                }
                let (body, p) = self.parse_expression(e + 1, Precedence::Lowest)?;
                let location = body.location;
                let parameter = self.tokens[pos + 1].clone();
                proof {
                    let params = self.tokens@.subrange(pos + 1, e as int);
                    assert(params.drop_first() =~= self.tokens@.subrange(pos + 2, e as int));
                }
                let body = self.curry(pos + 2, e, body, location);
                return Ok(
                    (Located { node: Statement::Definition { name, parameter, body }, location }, p),
                );
            }
        }
        let (expression, p) = self.parse_expression(pos, Precedence::Lowest)?;
        let location = expression.location;
        Ok((Located { node: Statement::Expression { expression }, location }, p))
    }
}

} // verus!
