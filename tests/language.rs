use icy::{run, Environment, Error, ErrorKind, Interpreter, Output, Progress, Value};

/// Runs a program in a fresh interpreter.
fn execute(source: &str) -> (Interpreter, Result<Progress, Error>) {
    let mut interpreter = Interpreter::new(Environment::new());
    let result = run(source, &mut interpreter).map(|(_, progress)| progress);
    (interpreter, result)
}

/// The value of the last expression statement of a program that must succeed.
fn value_of(source: &str) -> Value {
    let (interpreter, result) = execute(source);
    assert!(matches!(result, Ok(Progress::Finished)), "{:?}", result);
    match interpreter.output.last() {
        Some(Output::Value(v)) => v.clone(),
        other => panic!("no value shown: {:?}", other),
    }
}

fn integer_of(source: &str) -> i128 {
    match value_of(source) {
        Value::Integer(i) => i,
        other => panic!("not an integer: {:?}", other),
    }
}

fn boolean_of(source: &str) -> bool {
    match value_of(source) {
        Value::Boolean(b) => b,
        other => panic!("not a boolean: {:?}", other),
    }
}

fn error_of(source: &str) -> Error {
    match execute(source).1 {
        Err(e) => e,
        Ok(p) => panic!("expected an error, got {:?}", p),
    }
}

#[test]
fn multiplication_binds_tighter_than_addition() {
    assert_eq!(integer_of("3 + 4 * 2"), 11);
}

#[test]
fn exponentiation_groups_to_the_left() {
    // The right operand is parsed at the operator's own precedence, so a
    // second `**` ends it: (2 ** 3) ** 2.
    assert_eq!(integer_of("2 ** 3 ** 2"), 64);
}

#[test]
fn parentheses_override_precedence() {
    assert_eq!(integer_of("(3 + 4) * 2"), 14);
    assert_eq!(integer_of("2 ** (3 ** 2)"), 512);
}

#[test]
fn curried_definition_applies_all_arguments() {
    assert_eq!(integer_of("add a b = a + b\nadd 2 3"), 5);
}

#[test]
fn partial_application_is_a_function() {
    assert!(matches!(value_of("add a b = a + b\nadd 2"), Value::Function { .. }));
    assert_eq!(integer_of("add a b = a + b\nadd2 x = add 2 x\nadd2 40"), 42);
}

#[test]
fn division_by_zero_fails() {
    assert_eq!(error_of("5 / 0").kind, ErrorKind::DivisionByZero);
}

#[test]
fn remainder_by_zero_fails() {
    assert_eq!(error_of("5 % 0").kind, ErrorKind::DivisionByZero);
}

#[test]
fn addition_past_the_largest_integer_overflows() {
    let e = error_of("170141183460469231731687303715884105727 + 1");
    assert_eq!(e.kind, ErrorKind::Overflow);
    assert_eq!(integer_of("170141183460469231731687303715884105726 + 1"), i128::MAX);
}

#[test]
fn other_arithmetic_overflows() {
    assert_eq!(error_of("2 ** 127").kind, ErrorKind::Overflow);
    assert_eq!(integer_of("2 ** 126"), 1i128 << 126);
    assert_eq!(error_of("0 - 170141183460469231731687303715884105727 - 2").kind, ErrorKind::Overflow);
    assert_eq!(error_of("170141183460469231731687303715884105727 * 2").kind, ErrorKind::Overflow);
    assert_eq!(error_of("2 ** 4294967296").kind, ErrorKind::Overflow);
}

#[test]
fn unused_argument_is_never_evaluated() {
    assert_eq!(integer_of("(x y $ x) 1 (1 / 0)"), 1);
}

#[test]
fn used_argument_is_evaluated() {
    assert_eq!(error_of("(x y $ y) 1 (1 / 0)").kind, ErrorKind::DivisionByZero);
}

#[test]
fn only_the_selected_branch_runs() {
    assert_eq!(integer_of("if false then (1/0) elif true then 2 else (1/0)"), 2);
    assert_eq!(integer_of("if false then 1 elif false then 2 else 3"), 3);
    assert_eq!(error_of("if (1/0) then 1 else 2").kind, ErrorKind::DivisionByZero);
}

#[test]
fn free_names_resolve_where_the_function_was_defined() {
    // `f` sees the top-level `x`, not the parameter `x` of its caller `g`.
    let program = "x u = 1\nf a = x 0\ng x = f 0\ng (y $ 2)";
    assert_eq!(integer_of(program), 1);
}

#[test]
fn lambda_keeps_its_defining_scope() {
    let program = "make n = (k $ n + k)\nadd5 u = make 5 u\nadd5 10";
    assert_eq!(integer_of(program), 15);
}

#[test]
fn closure_sees_later_definitions_in_its_scope() {
    // A closure holds its defining scope itself, so a later definition in
    // that scope is seen through it.
    let program = "f a = y 0\ny u = 1\nf 0\ny u = 2\nf 0";
    let (interpreter, result) = execute(program);
    assert!(matches!(result, Ok(Progress::Finished)));
    let values: Vec<i128> = interpreter
        .output
        .iter()
        .map(|o| match o {
            Output::Value(Value::Integer(i)) => *i,
            other => panic!("{:?}", other),
        })
        .collect();
    assert_eq!(values, vec![1, 2]);
}

#[test]
fn literals_evaluate_to_themselves() {
    assert_eq!(integer_of("42"), 42);
    assert!(matches!(value_of("3.14"), Value::Float(s) if s == "3.14"));
    assert!(matches!(value_of("\"hi\""), Value::String(s) if s == "hi"));
    assert!(boolean_of("true"));
    assert!(!boolean_of("false"));
    assert!(matches!(value_of("null"), Value::Null));
}

#[test]
fn strings_concatenate() {
    assert!(matches!(value_of("\"ab\" + \"cd\""), Value::String(s) if s == "abcd"));
    assert_eq!(error_of("\"ab\" - \"cd\"").kind, ErrorKind::InvalidArguments);
}

#[test]
fn comparisons_and_bitwise_operators() {
    assert!(boolean_of("3 < 4"));
    assert!(!boolean_of("3 <= 2"));
    assert!(boolean_of("3 >= 3"));
    assert!(boolean_of("4 > 3"));
    assert!(boolean_of("3 == 3"));
    assert!(boolean_of("3 != 4"));
    assert!(boolean_of("true > false"));
    assert!(!boolean_of("true < false"));
    assert!(boolean_of("false <= false"));
    assert_eq!(integer_of("6 & 3"), 2);
    assert_eq!(integer_of("6 | 3"), 7);
    assert_eq!(integer_of("6 ^ 3"), 5);
    assert!(!boolean_of("true ^ true"));
    assert!(boolean_of("true | false"));
    assert!(!boolean_of("true & false"));
}

#[test]
fn division_truncates_toward_zero() {
    assert_eq!(integer_of("-7 / 2"), -3);
    assert_eq!(integer_of("-7 % 2"), -1);
    assert_eq!(integer_of("7 % -2"), 1);
    assert_eq!(integer_of("7 / -2"), -3);
}

#[test]
fn exponent_edge_cases() {
    assert_eq!(integer_of("0 ** 0"), 1);
    assert_eq!(integer_of("-1 ** 3"), -1);
    assert_eq!(integer_of("1 ** -5"), 1);
    assert_eq!(integer_of("1 ** 4294967296"), 1);
    assert_eq!(error_of("2 ** -1").kind, ErrorKind::InvalidArguments);
}

#[test]
fn unary_operators() {
    assert!(!boolean_of("!true"));
    assert_eq!(integer_of("-(2 + 3)"), -5);
    assert_eq!(error_of("!1").kind, ErrorKind::InvalidArguments);
    assert_eq!(error_of("-true").kind, ErrorKind::InvalidArguments);
}

#[test]
fn recursion_through_definitions() {
    let program = "fact n = if n == 0 then 1 else n * fact (n - 1)\nfact 10";
    assert_eq!(integer_of(program), 3628800);
}

#[test]
fn unbounded_recursion_stops_at_the_depth_budget() {
    let mut interpreter = Interpreter::new(Environment::new());
    interpreter.depth = 1000;
    let e = run("spin n = spin n\nspin 1", &mut interpreter).unwrap_err();
    assert_eq!(e.kind, ErrorKind::RecursionLimit);
}

#[test]
fn deep_recursion_runs_within_the_default_budget() {
    let program = "count n = if n == 0 then 0 else 1 + count (n - 1)\ncount 300";
    assert_eq!(integer_of(program), 300);
}

#[test]
fn statements_separated_by_semicolons_and_blank_lines() {
    let (interpreter, result) = execute("\n\n1; 2\n\n3\n");
    assert!(matches!(result, Ok(Progress::Finished)));
    assert_eq!(interpreter.output.len(), 3);
}

#[test]
fn empty_program_shows_nothing() {
    let (interpreter, result) = execute("");
    assert!(matches!(result, Ok(Progress::Finished)));
    assert!(interpreter.output.is_empty());
}

#[test]
fn nested_block_comments_are_skipped() {
    assert_eq!(integer_of("{- one {- two -} still one -} 1 + 1"), 2);
}

#[test]
fn unknown_identifier_fails() {
    let e = error_of("1\nnope");
    assert_eq!(e.kind, ErrorKind::InvalidIdentifier);
    let at = e.location.unwrap();
    assert_eq!((at.row, at.column), (1, 0));
}

#[test]
fn calling_a_non_function_fails() {
    assert_eq!(error_of("1 2").kind, ErrorKind::ExpectedExpression);
}

#[test]
fn syntax_errors_are_reported() {
    assert_eq!(error_of("(1 + 2").kind, ErrorKind::MissingClosingParenthesis);
    assert_eq!(error_of("if true then 1").kind, ErrorKind::IncompleteIf);
    assert_eq!(error_of("if true 1 else 2").kind, ErrorKind::IncompleteIf);
    assert_eq!(error_of("f = 3").kind, ErrorKind::MissingParameter);
    assert_eq!(error_of("1 )").kind, ErrorKind::UnexpectedToken);
    assert_eq!(error_of("+ 1").kind, ErrorKind::ExpectedExpression);
    let eof = error_of("1 +");
    assert_eq!(eof.kind, ErrorKind::UnexpectedEndOfFile);
    assert!(eof.location.is_none());
}

#[test]
fn syntax_error_runs_nothing() {
    let (interpreter, result) = execute("1\n(2");
    assert!(result.is_err());
    assert!(interpreter.output.is_empty());
}

#[test]
fn first_runtime_error_stops_the_program() {
    let (interpreter, result) = execute("1\n1 / 0\n3");
    assert_eq!(result.unwrap_err().kind, ErrorKind::DivisionByZero);
    assert_eq!(interpreter.output.len(), 1);
}

#[test]
fn lexical_errors_are_reported() {
    assert_eq!(error_of("\"open").kind, ErrorKind::UnterminatedString);
    assert_eq!(error_of("1701411834604692317316873037158841057280").kind, ErrorKind::NotANumber);
}

#[test]
fn declarations_parse_and_do_nothing() {
    let (interpreter, result) = execute("x : Int _ Int\n1");
    assert!(matches!(result, Ok(Progress::Finished)));
    assert_eq!(interpreter.output.len(), 1);
}

#[test]
fn println_builtin_prints_and_returns_its_argument() {
    let mut environment = Environment::new();
    environment.set(0, "println".to_string(), Value::BuiltinFunction { function: icy::Builtin::Println });
    let mut interpreter = Interpreter::new(environment);
    let result = run("println (1 + 1)", &mut interpreter);
    assert!(result.is_ok());
    assert!(matches!(interpreter.output[0], Output::Line(Value::Integer(2))));
    assert!(matches!(interpreter.output[1], Output::Value(Value::Integer(2))));
}
