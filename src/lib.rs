//! A small lazy functional language: tokens are assembled into statements by a
//! precedence-climbing parser, and statements are run by a call-by-need
//! evaluator over an arena of lexical scopes.
pub mod error;
pub mod text;
pub mod location;
pub mod token;
pub mod expression;
pub mod value;
pub mod environment;
pub mod operators;
pub mod precedence;
pub mod interpreter;
pub mod parser;
pub mod lexer;
pub mod program;
pub mod laws;

pub use environment::Environment;
pub use error::{Error, ErrorKind};
pub use expression::{Expression, Statement};
pub use interpreter::{Interpreter, Output, Progress};
pub use lexer::Lexer;
pub use location::{Located, Location};
pub use parser::Parser;
pub use precedence::Precedence;
pub use program::{parse_source, run};
pub use token::{Token, TokenKind, TokenValue};
pub use value::{Builtin, Value};
