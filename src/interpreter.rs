use crate::environment::{Environment, FrameModel, bind, lookup, new_scope};
use crate::error::{Error, ErrorKind};
use crate::expression::{Expression, Statement, StatementModel};
use crate::location::{Located, Location};
use crate::operators::{apply_binary, apply_unary, binary_op, fail, fail_with, unary_op};
use crate::token::{Token, TokenKind, TokenValue, identifier_name};
use crate::value::{Builtin, Value, ValueModel, result_view};
use vstd::prelude::*;

verus! {

pub const CALL_HELP: &'static str = "Tried to invoke a non-function type";

pub const LAMBDA_HELP: &'static str = "Expected an identifier";

pub const NAME_HELP: &'static str = "Function name must be an identifier";

pub const IMPORT_HELP: &'static str = "Import path must be identifiers";

/// The extension of source files, appended to an import path.
pub const SOURCE_EXTENSION: &'static str = ".icy";

pub const LITERAL_HELP: &'static str = "Token could not be converted into a value.";

/// How deeply evaluation may nest before it stops with `RecursionLimit`:
/// by default no bound short of the machine's own stack.
pub const DEFAULT_DEPTH: u64 = u64::MAX;

/// What a program has shown: the value of each expression statement, and
/// what the `println` builtin printed.
#[derive(Debug)]
pub enum Output {
    Value(Value),
    Line(Value),
}

pub ghost enum OutputModel {
    Value(ValueModel),
    Line(ValueModel),
}

impl View for Output {
    type V = OutputModel;

    open spec fn view(&self) -> OutputModel {
        match self {
            Output::Value(v) => OutputModel::Value(v@),
            Output::Line(v) => OutputModel::Line(v@),
        }
    }
}

/// The `println` builtin: records its argument as a printed line and
/// returns it.
pub fn println(output: &mut Vec<Output>, arg: Value) -> (r: Value)
    ensures
        r == arg,
        final(output)@ == old(output)@.push(Output::Line(arg)),
{
    output.push(Output::Line(arg.clone()));
    arg
}

/// The interpreter's state as the contracts see it.
pub ghost struct Machine {
    pub frames: Seq<FrameModel>,
    pub output: Seq<OutputModel>,
}

/// Runs programs against one arena of scopes, scope 0 being the top level.
pub struct Interpreter {
    pub environment: Environment,
    pub output: Vec<Output>,
    /// How deeply evaluation may nest.
    pub depth: u64,
    /// The file being run, if any: `use` paths are relative to it.
    pub current_file: Option<String>,
}

impl View for Interpreter {
    type V = Machine;

    open spec fn view(&self) -> Machine {
        Machine { frames: self.environment@, output: self.output@.map_values(|o: Output| o@) }
    }
}

pub open spec fn with_frames(m: Machine, frames: Seq<FrameModel>) -> Machine {
    Machine { frames, output: m.output }
}

/// The value a literal token denotes.
pub open spec fn literal_value(token: Located<Token>) -> Result<ValueModel, Error> {
    match token.node.value {
        TokenValue::Boolean(b) => Ok(ValueModel::Boolean(b)),
        TokenValue::Float(s) => Ok(ValueModel::Float(s@)),
        TokenValue::Integer(i) => Ok(ValueModel::Integer(i)),
        TokenValue::Empty => Ok(ValueModel::Null),
        TokenValue::String(s) => Ok(ValueModel::Str(s@)),
        _ => Err(fail_with(ErrorKind::InvalidToken, token.location, LITERAL_HELP)),
    }
}

/// Evaluating `e` in scope `env` with `fuel` levels of nesting left: the new
/// state and the result. Identifiers are forced when read; function
/// arguments are passed unevaluated, as thunks over the caller's scope.
pub open spec fn eval(m: Machine, env: nat, e: Located<Expression>, fuel: nat) -> (
    Machine,
    Result<ValueModel, Error>,
)
    decreases fuel, 0nat,
{
    if fuel == 0 {
        (m, Err(fail(ErrorKind::RecursionLimit, e.location)))
    } else {
        let d = (fuel - 1) as nat;
        match e.node {
            Expression::Unary { operator, expression } => eval_unary(m, env, operator, *expression, d),
            Expression::Binary { left, operator, right } => eval_binary(
                m,
                env,
                *left,
                operator,
                *right,
                d,
            ),
            Expression::Call { function, argument } => eval_call(m, env, *function, *argument, d),
            Expression::Identifier { token } => eval_identifier(m, env, token, d),
            Expression::If { condition, body, otherwise } => eval_if(
                m,
                env,
                *condition,
                *body,
                *otherwise,
                d,
            ),
            Expression::Lambda { parameter, body } => eval_lambda(m, env, parameter, *body),
            Expression::Literal { token } => (m, literal_value(token)),
        }
    }
}

/// Forcing: a thunk is evaluated in its own scope, and the result forced in
/// turn; any other value is already forced.
pub open spec fn force(m: Machine, v: ValueModel, fuel: nat) -> (Machine, Result<ValueModel, Error>)
    decreases fuel, 0nat,
{
    match v {
        ValueModel::Thunk { expression, environment } => if fuel == 0 {
            (m, Err(fail(ErrorKind::RecursionLimit, expression.location)))
        } else {
            let (m1, r1) = eval(m, environment, expression, (fuel - 1) as nat);
            match r1 {
                Ok(w) => force(m1, w, (fuel - 1) as nat),
                Err(x) => (m1, Err(x)),
            }
        },
        _ => (m, Ok(v)),
    }
}

/// Evaluating `e` and forcing its value.
pub open spec fn eval_forced(m: Machine, env: nat, e: Located<Expression>, fuel: nat) -> (
    Machine,
    Result<ValueModel, Error>,
)
    decreases fuel, 1nat,
{
    let (m1, r1) = eval(m, env, e, fuel);
    match r1 {
        Ok(v) => force(m1, v, fuel),
        Err(x) => (m1, Err(x)),
    }
}

pub open spec fn eval_unary(
    m: Machine,
    env: nat,
    operator: Located<Token>,
    operand: Located<Expression>,
    fuel: nat,
) -> (Machine, Result<ValueModel, Error>)
    decreases fuel, 2nat,
{
    match operator.node.kind {
        TokenKind::Bang | TokenKind::Minus => {
            let (m1, r1) = eval_forced(m, env, operand, fuel);
            match r1 {
                Ok(v) => (m1, unary_op(operator, v)),
                Err(x) => (m1, Err(x)),
            }
        },
        _ => (m, unary_op(operator, ValueModel::Null)),
    }
}

/// Both operands are evaluated, left first, then both are forced: there is
/// no short-circuit.
pub open spec fn eval_binary(
    m: Machine,
    env: nat,
    left: Located<Expression>,
    operator: Located<Token>,
    right: Located<Expression>,
    fuel: nat,
) -> (Machine, Result<ValueModel, Error>)
    decreases fuel, 2nat,
{
    let (m1, r1) = eval(m, env, left, fuel);
    match r1 {
        Err(x) => (m1, Err(x)),
        Ok(lv) => {
            let (m2, r2) = eval(m1, env, right, fuel);
            match r2 {
                Err(x) => (m2, Err(x)),
                Ok(rv) => {
                    let (m3, r3) = force(m2, lv, fuel);
                    match r3 {
                        Err(x) => (m3, Err(x)),
                        Ok(l) => {
                            let (m4, r4) = force(m3, rv, fuel);
                            match r4 {
                                Err(x) => (m4, Err(x)),
                                Ok(r) => (m4, binary_op(operator, l, r)),
                            }
                        },
                    }
                },
            }
        },
    }
}

/// A call. A closure runs its body in a new child of the scope it captured,
/// with its parameter bound to a thunk of the argument over the caller's
/// scope. A builtin takes its argument evaluated.
pub open spec fn eval_call(
    m: Machine,
    env: nat,
    function: Located<Expression>,
    argument: Located<Expression>,
    fuel: nat,
) -> (Machine, Result<ValueModel, Error>)
    decreases fuel, 2nat,
{
    let (m1, r1) = eval_forced(m, env, function, fuel);
    match r1 {
        Err(x) => (m1, Err(x)),
        Ok(ValueModel::Function { parameter, body, environment }) => match identifier_name(
            parameter.node,
        ) {
            None => (m1, Err(fail(ErrorKind::InvalidToken, parameter.location))),
            Some(name) => {
                let scope = m1.frames.len();
                let frames = bind(
                    new_scope(m1.frames, environment),
                    scope,
                    name,
                    ValueModel::Thunk { expression: argument, environment: env },
                );
                eval(with_frames(m1, frames), scope, body, fuel)
            },
        },
        Ok(ValueModel::BuiltinFunction { function: b }) => {
            let (m2, r2) = eval(m1, env, argument, fuel);
            match r2 {
                Err(x) => (m2, Err(x)),
                Ok(a) => match b {
                    Builtin::Println => (
                        Machine { frames: m2.frames, output: m2.output.push(OutputModel::Line(a)) },
                        Ok(a),
                    ),
                },
            }
        },
        Ok(_) => (m1, Err(fail_with(ErrorKind::ExpectedExpression, function.location, CALL_HELP))),
    }
}

pub open spec fn eval_identifier(m: Machine, env: nat, token: Located<Token>, fuel: nat) -> (
    Machine,
    Result<ValueModel, Error>,
)
    decreases fuel, 2nat,
{
    match identifier_name(token.node) {
        Some(name) => match lookup(m.frames, env, name) {
            Some(v) => force(m, v, fuel),
            None => (m, Err(fail(ErrorKind::InvalidIdentifier, token.location))),
        },
        None => (m, Err(fail(ErrorKind::UnsupportedExpression, token.location))),
    }
}

/// The condition is forced; only the branch it selects is evaluated.
pub open spec fn eval_if(
    m: Machine,
    env: nat,
    condition: Located<Expression>,
    body: Located<Expression>,
    otherwise: Located<Expression>,
    fuel: nat,
) -> (Machine, Result<ValueModel, Error>)
    decreases fuel, 2nat,
{
    let (m1, r1) = eval_forced(m, env, condition, fuel);
    match r1 {
        Err(x) => (m1, Err(x)),
        Ok(ValueModel::Boolean(true)) => eval(m1, env, body, fuel),
        Ok(_) => eval(m1, env, otherwise, fuel),
    }
}

/// A lambda captures a new child of the current scope.
pub open spec fn eval_lambda(
    m: Machine,
    env: nat,
    parameter: Located<Token>,
    body: Located<Expression>,
) -> (Machine, Result<ValueModel, Error>) {
    if parameter.node.kind == TokenKind::Identifier {
        (
            with_frames(m, new_scope(m.frames, env)),
            Ok(ValueModel::Function { parameter, body, environment: m.frames.len() }),
        )
    } else {
        (m, Err(fail_with(ErrorKind::InvalidToken, parameter.location, LAMBDA_HELP)))
    }
}

/// Where the first `n` parts of a `use` path lead: the names joined by `/`.
pub open spec fn joined_path(path: Seq<Located<Token>>, n: nat) -> Result<Seq<char>, Error>
    decreases n,
{
    if n == 0 || n > path.len() {
        Ok(Seq::empty())
    } else {
        match joined_path(path, (n - 1) as nat) {
            Err(x) => Err(x),
            Ok(prefix) => match identifier_name(path[n - 1].node) {
                Some(name) => Ok(
                    if n == 1 {
                        name
                    } else {
                        prefix + "/"@ + name
                    },
                ),
                None => Err(fail_with(ErrorKind::InvalidArguments, path[n - 1].location, IMPORT_HELP)),
            },
        }
    }
}

/// The file, relative to the importing one, that `use` names: `a.b.c` is
/// `a/b/c.icy`.
pub open spec fn import_path(path: Seq<Located<Token>>) -> Result<Seq<char>, Error> {
    match joined_path(path, path.len()) {
        Ok(p) => Ok(p + SOURCE_EXTENSION@),
        Err(x) => Err(x),
    }
}

/// Running one statement in the top-level scope 0: the new state, and for a
/// `use` the file to run next.
pub open spec fn exec_statement(m: Machine, s: StatementModel, at: Location, fuel: nat) -> (
    Machine,
    Result<Option<Seq<char>>, Error>,
) {
    match s {
        StatementModel::Declaration { .. } => (m, Ok(None)),
        StatementModel::Definition { name, parameter, body } => match identifier_name(name.node) {
            None => (m, Err(fail_with(ErrorKind::InvalidToken, at, NAME_HELP))),
            Some(n) => {
                let scope = m.frames.len();
                let frames = bind(
                    new_scope(m.frames, 0),
                    0,
                    n,
                    ValueModel::Function { parameter, body, environment: scope },
                );
                (with_frames(m, frames), Ok(None))
            },
        },
        StatementModel::Expression { expression } => {
            let (m1, r1) = eval_forced(m, 0, expression, fuel);
            match r1 {
                Ok(v) => (
                    Machine { frames: m1.frames, output: m1.output.push(OutputModel::Value(v)) },
                    Ok(None),
                ),
                Err(x) => (m1, Err(x)),
            }
        },
        StatementModel::Use { path } => match import_path(path) {
            Ok(p) => (m, Ok(Some(p))),
            Err(x) => (m, Err(x)),
        },
        StatementModel::Variable { name, body } => match identifier_name(name.node) {
            None => (m, Err(fail_with(ErrorKind::InvalidToken, at, NAME_HELP))),
            Some(n) => {
                let (m1, r1) = eval(m, 0, body, fuel);
                match r1 {
                    Ok(v) => (with_frames(m1, bind(m1.frames, 0, n, v)), Ok(None)),
                    Err(x) => (m1, Err(x)),
                }
            },
        },
    }
}

/// Running `statements` from index `i` on, until the end, the first error,
/// or the first `use` (which yields its file and the index to resume at).
pub open spec fn run_statements(m: Machine, statements: Seq<Located<Statement>>, i: nat, fuel: nat) -> (
    Machine,
    Result<Option<(Seq<char>, nat)>, Error>,
)
    decreases statements.len() - i,
{
    if i >= statements.len() {
        (m, Ok(None))
    } else {
        let s = statements[i as int];
        let (m1, r1) = exec_statement(m, s.node@, s.location, fuel);
        match r1 {
            Err(x) => (m1, Err(x)),
            Ok(Some(p)) => (m1, Ok(Some((p, i + 1)))),
            Ok(None) => run_statements(m1, statements, i + 1, fuel),
        }
    }
}

/// Where running a list of statements stopped.
#[derive(Debug)]
pub enum Progress {
    /// Every statement ran.
    Finished,
    /// A `use` statement asks for the file at `path` (relative to the
    /// importing file) to be run; the rest resumes at `next`.
    Import { path: String, next: usize },
}

pub open spec fn progress_view(r: Result<Progress, Error>) -> Result<Option<(Seq<char>, nat)>, Error> {
    match r {
        Ok(Progress::Finished) => Ok(None),
        Ok(Progress::Import { path, next }) => Ok(Some((path@, next as nat))),
        Err(x) => Err(x),
    }
}

impl Interpreter {
    /// An interpreter over `environment`, with the default depth budget.
    pub fn new(environment: Environment) -> (r: Interpreter)
        ensures
            r@ == (Machine { frames: environment@, output: Seq::empty() }),
            r.depth == DEFAULT_DEPTH,
            r.current_file is None,
    {
        let r = Interpreter { environment, output: Vec::new(), depth: DEFAULT_DEPTH, current_file: None };
        proof {
            assert(r@.output =~= Seq::<OutputModel>::empty());
        }
        r
    }

    /// An interpreter over `environment` running the file `file`.
    pub fn with_file(environment: Environment, file: Option<String>) -> (r: Interpreter)
        ensures
            r@ == (Machine { frames: environment@, output: Seq::empty() }),
            r.depth == DEFAULT_DEPTH,
            r.current_file == file,
    {
        let r = Interpreter { environment, output: Vec::new(), depth: DEFAULT_DEPTH, current_file: file };
        proof {
            assert(r@.output =~= Seq::<OutputModel>::empty());
        }
        r
    }

    /// The relative file that a `use` path names.
    pub fn import_path(path: &Vec<Located<Token>>) -> (r: Result<String, Error>)
        ensures
            match r {
                Ok(p) => import_path(path@) == Ok::<Seq<char>, Error>(p@),
                Err(x) => import_path(path@) == Err::<Seq<char>, Error>(x),
            },
    {
        let mut joined = String::new();
        let mut i: usize = 0;
        while i < path.len()
            invariant
                i <= path.len(),
                joined_path(path@, i as nat) == Ok::<Seq<char>, Error>(joined@),
            decreases path.len() - i,
        {
            match path[i].node.get_identifier_name() {
                Some(name) => {
                    if i > 0 {
                        joined.append("/");
                    }
                    joined.append(name.as_str());
                    proof {
                        reveal_strlit("/");
                        if i == 0 {
                            assert(joined@ =~= Seq::<char>::empty() + name@);
                        }
                    }
                },
                None => {
                    proof {
                        assert(joined_path(path@, (i + 1) as nat) == Err::<Seq<char>, Error>(
                            fail_with(ErrorKind::InvalidArguments, path@[i as int].location, IMPORT_HELP),
                        ));
                        lemma_joined_path_error(path@, (i + 1) as nat, path.len() as nat);
                    }
                    return Err(
                        Error::with_help(ErrorKind::InvalidArguments, path[i].location, IMPORT_HELP),
                    );
                },
            }
            i = i + 1;
        }
        joined.append(SOURCE_EXTENSION);
        Ok(joined)
    }

    /// Runs one statement in the top-level scope; for a `use` statement,
    /// returns the file it names instead of running it.
    pub fn execute(&mut self, statement: &Located<Statement>) -> (r: Result<Option<String>, Error>)
        ensures
            (final(self)@, match r {
                Ok(Some(p)) => Ok(Some(p@)),
                Ok(None) => Ok(None),
                Err(x) => Err(x),
            }) == exec_statement(old(self)@, statement.node@, statement.location, old(self).depth as nat),
            final(self).depth == old(self).depth,
    {
        match &statement.node {
            Statement::Declaration { .. } => Ok(None),
            Statement::Definition { name, parameter, body } => match name.node.get_identifier_name() {
                None => Err(Error::with_help(ErrorKind::InvalidToken, statement.location, NAME_HELP)),
                Some(n) => {
                    let scope = self.environment.with_parent(0);
                    let f = Value::Function {
                        parameter: parameter.clone(),
                        body: Box::new(body.clone()),
                        environment: scope,
                    };
                    self.environment.set(0, n, f);
                    Ok(None)
                },
            },
            Statement::Expression { expression } => {
                let v = self.evaluate_forced(expression, 0, self.depth)?;
                let ghost before = self@;
                self.output.push(Output::Value(v));
                proof {
                    assert(self@.output =~= before.output.push(OutputModel::Value(v@)));
                }
                Ok(None)
            },
            Statement::Use { path } => match Self::import_path(path) {
                Ok(p) => Ok(Some(p)),
                Err(x) => Err(x),
            },
            Statement::Variable { name, body } => match name.node.get_identifier_name() {
                None => Err(Error::with_help(ErrorKind::InvalidToken, statement.location, NAME_HELP)),
                Some(n) => {
                    let v = self.evaluate(body, 0, self.depth)?;
                    self.environment.set(0, n, v);
                    Ok(None)
                },
            },
        }
    }

    /// Runs `statements` from index `start` on; see `Progress` for where it
    /// stops. The first error ends the run.
    pub fn interpret(&mut self, statements: &Vec<Located<Statement>>, start: usize) -> (r: Result<
        Progress,
        Error,
    >)
        ensures
            (final(self)@, progress_view(r)) == run_statements(old(self)@, statements@, start as nat, old(self).depth as nat),
            final(self).depth == old(self).depth,
    {
        let mut i = start;
        proof {
            if i >= statements.len() {
                assert(run_statements(self@, statements@, i as nat, self.depth as nat).1 == Ok::<Option<(Seq<char>, nat)>, Error>(None));
            }
        }
        while i < statements.len()
            invariant
                self.depth == old(self).depth,
                i >= start,
                run_statements(old(self)@, statements@, start as nat, self.depth as nat) == run_statements(self@, statements@, i as nat, self.depth as nat),
            decreases statements.len() - i,
        {
            match self.execute(&statements[i]) {
                Err(x) => {
                    return Err(x);
                },
                Ok(Some(path)) => {
                    return Ok(Progress::Import { path, next: i + 1 });
                },
                Ok(None) => {},
            }
            i = i + 1;
        }
        Ok(Progress::Finished)
    }

    fn literal(token: &Located<Token>) -> (r: Result<Value, Error>)
        ensures
            result_view(r) == literal_value(*token),
    {
        match &token.node.value {
            TokenValue::Boolean(b) => Ok(Value::Boolean(*b)),
            TokenValue::Float(s) => Ok(Value::Float(s.clone())),
            TokenValue::Integer(i) => Ok(Value::Integer(*i)),
            TokenValue::Empty => Ok(Value::Null),
            TokenValue::String(s) => Ok(Value::String(s.clone())),
            _ => Err(Error::with_help(ErrorKind::InvalidToken, token.location, LITERAL_HELP)),
        }
    }

    /// Evaluates `expression` in scope `env`.
    pub fn evaluate(&mut self, expression: &Located<Expression>, env: usize, fuel: u64) -> (r: Result<
        Value,
        Error,
    >)
        ensures
            (final(self)@, result_view(r)) == eval(old(self)@, env as nat, *expression, fuel as nat),
            final(self).depth == old(self).depth,
        decreases fuel, 0nat,
    {
        if fuel == 0 {
            return Err(Error::new(ErrorKind::RecursionLimit, expression.location));
        }
        let d = fuel - 1;
        match &expression.node {
            Expression::Unary { operator, expression } => self.evaluate_unary(operator, expression, env, d),
            Expression::Binary { left, operator, right } => self.evaluate_binary(
                left,
                operator,
                right,
                env,
                d,
            ),
            Expression::Call { function, argument } => self.evaluate_call(function, argument, env, d),
            Expression::Identifier { token } => self.evaluate_identifier(token, env, d),
            Expression::If { condition, body, otherwise } => self.evaluate_if(
                condition,
                body,
                otherwise,
                env,
                d,
            ),
            Expression::Lambda { parameter, body } => self.evaluate_lambda(parameter, body, env),
            Expression::Literal { token } => Self::literal(token),
        }
    }

    /// Resolves a thunk into a value, and the result again while it is a
    /// thunk; any other value is returned as it is.
    pub fn force(&mut self, value: Value, fuel: u64) -> (r: Result<Value, Error>)
        ensures
            (final(self)@, result_view(r)) == force(old(self)@, value@, fuel as nat),
            final(self).depth == old(self).depth,
        decreases fuel, 0nat,
    {
        let mut current = value;
        let mut f = fuel;
        loop
            invariant
                f <= fuel,
                self.depth == old(self).depth,
                force(old(self)@, value@, fuel as nat) == force(self@, current@, f as nat),
            decreases f,
        {
            match current {
                Value::Thunk { expression, environment } => {
                    if f == 0 {
                        return Err(Error::new(ErrorKind::RecursionLimit, expression.location));
                    }
                    current = self.evaluate(&expression, environment, f - 1)?;
                    f = f - 1;
                },
                other => {
                    return Ok(other);
                },
            }
        }
    }

    fn evaluate_forced(&mut self, expression: &Located<Expression>, env: usize, fuel: u64) -> (r:
        Result<Value, Error>)
        ensures
            (final(self)@, result_view(r)) == eval_forced(old(self)@, env as nat, *expression, fuel as nat),
            final(self).depth == old(self).depth,
        decreases fuel, 1nat,
    {
        let v = self.evaluate(expression, env, fuel)?;
        self.force(v, fuel)
    }

    fn evaluate_unary(
        &mut self,
        operator: &Located<Token>,
        operand: &Located<Expression>,
        env: usize,
        fuel: u64,
    ) -> (r: Result<Value, Error>)
        ensures
            (final(self)@, result_view(r)) == eval_unary(old(self)@, env as nat, *operator, *operand, fuel as nat),
            final(self).depth == old(self).depth,
        decreases fuel, 2nat,
    {
        match operator.node.kind {
            TokenKind::Bang | TokenKind::Minus => {
                let v = self.evaluate_forced(operand, env, fuel)?;
                apply_unary(operator, v)
            },
            _ => apply_unary(operator, Value::Null),
        }
    }

    fn evaluate_binary(
        &mut self,
        left: &Located<Expression>,
        operator: &Located<Token>,
        right: &Located<Expression>,
        env: usize,
        fuel: u64,
    ) -> (r: Result<Value, Error>)
        ensures
            (final(self)@, result_view(r)) == eval_binary(
                old(self)@,
                env as nat,
                *left,
                *operator,
                *right,
                fuel as nat,
            ),
            final(self).depth == old(self).depth,
        decreases fuel, 2nat,
    {
        let lv = self.evaluate(left, env, fuel)?;
        let rv = self.evaluate(right, env, fuel)?;
        let l = self.force(lv, fuel)?;
        let r = self.force(rv, fuel)?;
        apply_binary(operator, l, r)
    }

    fn evaluate_call(
        &mut self,
        function: &Located<Expression>,
        argument: &Located<Expression>,
        env: usize,
        fuel: u64,
    ) -> (r: Result<Value, Error>)
        ensures
            (final(self)@, result_view(r)) == eval_call(old(self)@, env as nat, *function, *argument, fuel as nat),
            final(self).depth == old(self).depth,
        decreases fuel, 2nat,
    {
        let callee = self.evaluate_forced(function, env, fuel)?;
        match callee {
            Value::Function { parameter, body, environment } => {
                match parameter.node.get_identifier_name() {
                    None => Err(Error::new(ErrorKind::InvalidToken, parameter.location)),
                    Some(name) => {
                        let scope = self.environment.with_parent(environment);
                        let thunk = Value::Thunk {
                            expression: Box::new(argument.clone()),
                            environment: env,
                        };
                        self.environment.set(scope, name, thunk);
                        self.evaluate(&body, scope, fuel)
                    },
                }
            },
            Value::BuiltinFunction { function: b } => {
                let a = self.evaluate(argument, env, fuel)?;
                match b {
                    Builtin::Println => {
                        let ghost before = self@;
                        let r = println(&mut self.output, a);
                        proof {
                            assert(self@.output =~= before.output.push(OutputModel::Line(r@)));
                        }
                        Ok(r)
                    },
                }
            },
            _ => Err(Error::with_help(ErrorKind::ExpectedExpression, function.location, CALL_HELP)),
        }
    }

    fn evaluate_identifier(&mut self, token: &Located<Token>, env: usize, fuel: u64) -> (r: Result<
        Value,
        Error,
    >)
        ensures
            (final(self)@, result_view(r)) == eval_identifier(old(self)@, env as nat, *token, fuel as nat),
            final(self).depth == old(self).depth,
        decreases fuel, 2nat,
    {
        match &token.node.value {
            TokenValue::Identifier(name) => match self.environment.get(env, name) {
                Some(v) => self.force(v, fuel),
                None => Err(Error::new(ErrorKind::InvalidIdentifier, token.location)),
            },
            _ => Err(Error::new(ErrorKind::UnsupportedExpression, token.location)),
        }
    }

    fn evaluate_if(
        &mut self,
        condition: &Located<Expression>,
        body: &Located<Expression>,
        otherwise: &Located<Expression>,
        env: usize,
        fuel: u64,
    ) -> (r: Result<Value, Error>)
        ensures
            (final(self)@, result_view(r)) == eval_if(
                old(self)@,
                env as nat,
                *condition,
                *body,
                *otherwise,
                fuel as nat,
            ),
            final(self).depth == old(self).depth,
        decreases fuel, 2nat,
    {
        match self.evaluate_forced(condition, env, fuel)? {
            Value::Boolean(true) => self.evaluate(body, env, fuel),
            _ => self.evaluate(otherwise, env, fuel),
        }
    }

    fn evaluate_lambda(
        &mut self,
        parameter: &Located<Token>,
        body: &Located<Expression>,
        env: usize,
    ) -> (r: Result<Value, Error>)
        ensures
            (final(self)@, result_view(r)) == eval_lambda(old(self)@, env as nat, *parameter, *body),
            final(self).depth == old(self).depth,
    {
        if parameter.node.kind == TokenKind::Identifier {
            let scope = self.environment.with_parent(env);
            Ok(
                Value::Function {
                    parameter: parameter.clone(),
                    body: Box::new(body.clone()),
                    environment: scope,
                },
            )
        } else {
            Err(Error::with_help(ErrorKind::InvalidToken, parameter.location, LAMBDA_HELP))
        }
    }
}

/// Once a part of a `use` path fails, every longer prefix fails the same way.
proof fn lemma_joined_path_error(path: Seq<Located<Token>>, n: nat, m: nat)
    requires
        0 < n <= m <= path.len(),
        joined_path(path, n) is Err,
    ensures
        joined_path(path, m) == joined_path(path, n),
    decreases m - n,
{
    if n < m {
        lemma_joined_path_error(path, n, (m - 1) as nat);
    }
}

} // verus!
