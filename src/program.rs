use crate::error::Error;
use crate::expression::Statement;
use crate::interpreter::{Interpreter, Progress, progress_view, run_statements};
use crate::lexer::{Lexer, lex_text, tokens_view};
use crate::location::Located;
use crate::parser::{Parser, parse_program, statements_view};
use crate::token::Token;
use vstd::prelude::*;

verus! {

/// `statements` is what the source text `text` parses to.
pub open spec fn parses_to(text: Seq<char>, statements: Seq<Located<Statement>>) -> bool {
    exists|tokens: Seq<Located<Token>>|
        lex_text(text) == Ok::<_, Error>(tokens_view(tokens)) && #[trigger] parse_program(tokens)
            == Ok::<_, Error>(statements_view(statements))
}

/// `text` fails to tokenize, or to parse, with `x`.
pub open spec fn fails_to_parse(text: Seq<char>, x: Error) -> bool {
    lex_text(text) == Err::<Seq<crate::lexer::TokenModel>, Error>(x) || exists|tokens: Seq<Located<Token>>|
        lex_text(text) == Ok::<_, Error>(tokens_view(tokens)) && #[trigger] parse_program(tokens)
            == Err::<Seq<(crate::expression::StatementModel, crate::location::Location)>, Error>(x)
}

/// The statements of a source text: tokenized, then parsed.
pub fn parse_source(source: &str) -> (r: Result<Vec<Located<Statement>>, Error>)
    ensures
        match r {
            Ok(v) => parses_to(source@, v@),
            Err(x) => fails_to_parse(source@, x),
        },
{
    let mut lexer = Lexer::new();
    let tokens = lexer.lex(source)?;
    let ghost t = tokens@;
    let mut parser = Parser::new();
    let r = parser.parse(tokens);
    proof {
        match &r {
            Ok(v) => {
                assert(lex_text(source@) == Ok::<_, Error>(tokens_view(t)) && parse_program(t)
                    == Ok::<_, Error>(statements_view(v@)));
            },
            Err(x) => {
                assert(lex_text(source@) == Ok::<_, Error>(tokens_view(t)) && parse_program(t)
                    == Err::<Seq<(crate::expression::StatementModel, crate::location::Location)>, Error>(*x));
            },
        }
    }
    r
}

/// Runs the source text `source` on `interpreter`, up to its end or its first
/// `use`. On success it returns the statements and where they stopped: after
/// an import the caller runs the named file and resumes with
/// `Interpreter::interpret(&statements, next)`. A syntax error runs nothing.
pub fn run(source: &str, interpreter: &mut Interpreter) -> (r: Result<
    (Vec<Located<Statement>>, Progress),
    Error,
>)
    ensures
        final(interpreter).depth == old(interpreter).depth,
        match r {
            Ok((v, p)) => parses_to(source@, v@) && (final(interpreter)@, progress_view(Ok(p)))
                == run_statements(old(interpreter)@, v@, 0, old(interpreter).depth as nat),
            Err(x) => (fails_to_parse(source@, x) && final(interpreter)@ == old(interpreter)@) || exists|
                v: Seq<Located<Statement>>,
            |
                parses_to(source@, v) && #[trigger] run_statements(
                    old(interpreter)@,
                    v,
                    0,
                    old(interpreter).depth as nat,
                ) == (final(interpreter)@, Err::<Option<(Seq<char>, nat)>, Error>(x)),
        },
{
    let statements = parse_source(source)?;
    match interpreter.interpret(&statements, 0) {
        Ok(p) => Ok((statements, p)),
        Err(x) => {
            proof {
                assert(parses_to(source@, statements@) && run_statements(
                    old(interpreter)@,
                    statements@,
                    0,
                    old(interpreter).depth as nat,
                ) == (interpreter@, Err::<Option<(Seq<char>, nat)>, Error>(x)));
            }
            Err(x)
        },
    }
}

} // verus!
