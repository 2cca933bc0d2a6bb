use crate::expression::Expression;
use crate::location::Located;
use crate::token::Token;
use vstd::prelude::*;

verus! {

/// The native functions of the language.
#[derive(Clone, Copy, Debug, PartialEq, Eq, Structural)]
pub enum Builtin {
    /// Prints its argument and returns it.
    Println,
}

/// A runtime value. Functions and thunks name the scope they captured by
/// its index in the interpreter's `Environment`.
#[derive(Debug)]
pub enum Value {
    Boolean(bool),
    /// A float literal's decimal text; the language computes nothing on floats.
    Float(String),
    Integer(i128),
    Null,
    String(String),
    /// A closure of one parameter.
    Function { parameter: Located<Token>, body: Box<Located<Expression>>, environment: usize },
    BuiltinFunction { function: Builtin },
    /// An argument not evaluated yet, with the scope it must be evaluated in.
    Thunk { expression: Box<Located<Expression>>, environment: usize },
}

/// A value with its strings as character sequences.
pub ghost enum ValueModel {
    Boolean(bool),
    Float(Seq<char>),
    Integer(i128),
    Null,
    Str(Seq<char>),
    Function { parameter: Located<Token>, body: Located<Expression>, environment: nat },
    BuiltinFunction { function: Builtin },
    Thunk { expression: Located<Expression>, environment: nat },
}

impl View for Value {
    type V = ValueModel;

    open spec fn view(&self) -> ValueModel {
        match self {
            Value::Boolean(b) => ValueModel::Boolean(*b),
            Value::Float(s) => ValueModel::Float(s@),
            Value::Integer(i) => ValueModel::Integer(*i),
            Value::Null => ValueModel::Null,
            Value::String(s) => ValueModel::Str(s@),
            Value::Function { parameter, body, environment } => ValueModel::Function {
                parameter: *parameter,
                body: **body,
                environment: *environment as nat,
            },
            Value::BuiltinFunction { function } => ValueModel::BuiltinFunction {
                function: *function,
            },
            Value::Thunk { expression, environment } => ValueModel::Thunk {
                expression: **expression,
                environment: *environment as nat,
            },
        }
    }
}

impl Clone for Value {
    fn clone(&self) -> (r: Self)
        ensures
            r == *self,
    {
        match self {
            Value::Boolean(b) => Value::Boolean(*b),
            Value::Float(s) => Value::Float(s.clone()),
            Value::Integer(i) => Value::Integer(*i),
            Value::Null => Value::Null,
            Value::String(s) => Value::String(s.clone()),
            Value::Function { parameter, body, environment } => Value::Function {
                parameter: parameter.clone(),
                body: Box::new((**body).clone()),
                environment: *environment,
            },
            Value::BuiltinFunction { function } => Value::BuiltinFunction { function: *function },
            Value::Thunk { expression, environment } => Value::Thunk {
                expression: Box::new((**expression).clone()),
                environment: *environment,
            },
        }
    }
}

/// The view of an evaluation result.
pub open spec fn result_view(r: Result<Value, crate::error::Error>) -> Result<
    ValueModel,
    crate::error::Error,
> {
    match r {
        Ok(v) => Ok(v@),
        Err(e) => Err(e),
    }
}

} // verus!
