use crate::location::{Located, LocatedExt, Location};
use crate::token::Token;
use vstd::prelude::*;

verus! {

/// An expression tree, built once by the parser and only read afterwards.
///
/// Functions take one parameter: a function of several parameters is a chain
/// of nested `Lambda`s, and a call with several arguments a chain of nested
/// `Call`s. An `elif` chain is an `If` whose `otherwise` is the next `If`.
#[derive(Debug)]
pub enum Expression {
    Unary { operator: Located<Token>, expression: Box<Located<Expression>> },
    Binary {
        left: Box<Located<Expression>>,
        operator: Located<Token>,
        right: Box<Located<Expression>>,
    },
    Call { function: Box<Located<Expression>>, argument: Box<Located<Expression>> },
    Identifier { token: Located<Token> },
    If {
        condition: Box<Located<Expression>>,
        body: Box<Located<Expression>>,
        otherwise: Box<Located<Expression>>,
    },
    Lambda { parameter: Located<Token>, body: Box<Located<Expression>> },
    Literal { token: Located<Token> },
}

impl Clone for Located<Expression> {
    fn clone(&self) -> (r: Self)
        ensures
            r == *self,
        decreases self,
    {
        let node = match &self.node {
            Expression::Unary { operator, expression } => Expression::Unary {
                operator: operator.clone(),
                expression: Box::new((**expression).clone()),
            },
            Expression::Binary { left, operator, right } => Expression::Binary {
                left: Box::new((**left).clone()),
                operator: operator.clone(),
                right: Box::new((**right).clone()),
            },
            Expression::Call { function, argument } => Expression::Call {
                function: Box::new((**function).clone()),
                argument: Box::new((**argument).clone()),
            },
            Expression::Identifier { token } => Expression::Identifier { token: token.clone() },
            Expression::If { condition, body, otherwise } => Expression::If {
                condition: Box::new((**condition).clone()),
                body: Box::new((**body).clone()),
                otherwise: Box::new((**otherwise).clone()),
            },
            Expression::Lambda { parameter, body } => Expression::Lambda {
                parameter: parameter.clone(),
                body: Box::new((**body).clone()),
            },
            Expression::Literal { token } => Expression::Literal { token: token.clone() },
        };
        Located { node, location: self.location }
    }
}

impl LocatedExt for Expression {
    fn at(self, location: Location) -> (r: Located<Expression>) {
        Located { node: self, location }
    }
}

/// A statement of a program.
#[derive(Debug)]
pub enum Statement {
    /// `name : T1 T2 ...`: parsed, with no effect when run.
    Declaration { name: Located<Token>, types: Vec<Located<Token>> },
    /// `name a b ... = body`, curried: `parameter` is `a`, and `body` holds the
    /// lambdas of `b ...`.
    Definition { name: Located<Token>, parameter: Located<Token>, body: Located<Expression> },
    Expression { expression: Located<Expression> },
    /// `use a.b.c`: runs another source file.
    Use { path: Vec<Located<Token>> },
    /// An eagerly evaluated binding.
    Variable { name: Located<Token>, body: Located<Expression> },
}

/// A statement with its lists as sequences.
pub ghost enum StatementModel {
    Declaration { name: Located<Token>, types: Seq<Located<Token>> },
    Definition { name: Located<Token>, parameter: Located<Token>, body: Located<Expression> },
    Expression { expression: Located<Expression> },
    Use { path: Seq<Located<Token>> },
    Variable { name: Located<Token>, body: Located<Expression> },
}

impl View for Statement {
    type V = StatementModel;

    open spec fn view(&self) -> StatementModel {
        match self {
            Statement::Declaration { name, types } => StatementModel::Declaration {
                name: *name,
                types: types@,
            },
            Statement::Definition { name, parameter, body } => StatementModel::Definition {
                name: *name,
                parameter: *parameter,
                body: *body,
            },
            Statement::Expression { expression } => StatementModel::Expression {
                expression: *expression,
            },
            Statement::Use { path } => StatementModel::Use { path: path@ },
            Statement::Variable { name, body } => StatementModel::Variable {
                name: *name,
                body: *body,
            },
        }
    }
}

impl LocatedExt for Statement {
    fn at(self, location: Location) -> (r: Located<Statement>) {
        Located { node: self, location }
    }
}

} // verus!
