use icy::{
    parse_source, Environment, Error, ErrorKind, Expression, Interpreter, Lexer, Located, Location,
    Parser, Precedence, Progress, Statement, Token, TokenKind, TokenValue, Value,
};

fn tokens(source: &str) -> Vec<Located<Token>> {
    Lexer::new().lex(source).unwrap()
}

fn kinds(source: &str) -> Vec<TokenKind> {
    tokens(source).iter().map(|t| t.node.kind).collect()
}

fn only_expression(source: &str) -> Located<Expression> {
    let mut statements = parse_source(source).unwrap();
    assert_eq!(statements.len(), 1);
    match statements.remove(0).node {
        Statement::Expression { expression } => expression,
        other => panic!("not an expression statement: {:?}", other),
    }
}

#[test]
fn literal_tokens_parse_to_literal_expressions() {
    for (source, kind) in [
        ("42", TokenKind::Integer),
        ("3.14", TokenKind::Float),
        ("\"hi\"", TokenKind::String),
        ("true", TokenKind::True),
        ("null", TokenKind::Null),
    ] {
        match only_expression(source).node {
            Expression::Literal { token } => assert_eq!(token.node.kind, kind),
            other => panic!("{:?}", other),
        }
    }
    match only_expression("3.14").node {
        Expression::Literal { token } => {
            assert!(matches!(token.node.value, TokenValue::Float(ref s) if s == "3.14"))
        }
        other => panic!("{:?}", other),
    }
}

#[test]
fn operators_and_keywords_are_tokenized() {
    assert_eq!(
        kinds("a != b ** c == d <= e >= f"),
        vec![
            TokenKind::Identifier,
            TokenKind::BangEqual,
            TokenKind::Identifier,
            TokenKind::StarStar,
            TokenKind::Identifier,
            TokenKind::EqualEqual,
            TokenKind::Identifier,
            TokenKind::LessEqual,
            TokenKind::Identifier,
            TokenKind::GreaterEqual,
            TokenKind::Identifier,
        ]
    );
    assert_eq!(
        kinds("if then elif else true false null use"),
        vec![
            TokenKind::If,
            TokenKind::Then,
            TokenKind::Elif,
            TokenKind::Else,
            TokenKind::True,
            TokenKind::False,
            TokenKind::Null,
            TokenKind::Use,
        ]
    );
}

#[test]
fn white_space_other_than_newlines_is_dropped() {
    assert_eq!(kinds("\t a \r\n b"), vec![TokenKind::Identifier, TokenKind::Newline, TokenKind::Identifier]);
}

#[test]
fn identifiers_keep_their_text() {
    let t = tokens("été_2 x");
    assert_eq!(t.len(), 2);
    assert!(matches!(t[0].node.value, TokenValue::Identifier(ref s) if s == "été_2"));
    assert!(matches!(t[1].node.value, TokenValue::Identifier(ref s) if s == "x"));
}

#[test]
fn tokens_are_located_at_their_first_character() {
    let t = tokens("ab\n  cd");
    assert_eq!(t[0].location, Location { row: 0, column: 0 });
    assert_eq!(t[1].location, Location { row: 0, column: 2 });
    assert_eq!(t[2].location, Location { row: 1, column: 2 });
}

#[test]
fn rows_count_newlines_inside_comments() {
    let t = tokens("{- a\nb -} x");
    assert_eq!(t.len(), 1);
    assert_eq!(t[0].location, Location { row: 1, column: 5 });
}

#[test]
fn a_dot_without_digits_ends_an_integer() {
    assert_eq!(kinds("1.x"), vec![TokenKind::Integer, TokenKind::Dot, TokenKind::Identifier]);
}

#[test]
fn unknown_characters_become_unknown_tokens() {
    let t = tokens("~");
    assert_eq!(t[0].node.kind, TokenKind::Unknown);
    assert!(matches!(t[0].node.value, TokenValue::Unknown('~')));
}

#[test]
fn definitions_are_curried() {
    let statements = parse_source("add a b c = a").unwrap();
    match &statements[0].node {
        Statement::Definition { name, parameter, body } => {
            assert!(matches!(name.node.value, TokenValue::Identifier(ref s) if s == "add"));
            assert!(matches!(parameter.node.value, TokenValue::Identifier(ref s) if s == "a"));
            match &body.node {
                Expression::Lambda { parameter, body } => {
                    assert!(matches!(parameter.node.value, TokenValue::Identifier(ref s) if s == "b"));
                    assert!(matches!(body.node, Expression::Lambda { .. }));
                }
                other => panic!("{:?}", other),
            }
        }
        other => panic!("{:?}", other),
    }
}

#[test]
fn juxtaposition_calls_nest_to_the_left() {
    match only_expression("f x y").node {
        Expression::Call { function, argument } => {
            assert!(matches!(argument.node, Expression::Identifier { .. }));
            assert!(matches!(function.node, Expression::Call { .. }));
        }
        other => panic!("{:?}", other),
    }
}

#[test]
fn application_binds_tighter_than_operators() {
    match only_expression("f 1 + 2").node {
        Expression::Binary { left, operator, .. } => {
            assert_eq!(operator.node.kind, TokenKind::Plus);
            assert!(matches!(left.node, Expression::Call { .. }));
        }
        other => panic!("{:?}", other),
    }
}

#[test]
fn elif_chains_nest_in_the_otherwise_place() {
    match only_expression("if a then 1 elif b then 2 else 3").node {
        Expression::If { otherwise, .. } => {
            assert!(matches!(otherwise.node, Expression::If { .. }))
        }
        other => panic!("{:?}", other),
    }
}

#[test]
fn declarations_collect_their_types() {
    let statements = parse_source("x : Int _ Bool").unwrap();
    match &statements[0].node {
        Statement::Declaration { types, .. } => assert_eq!(types.len(), 3),
        other => panic!("{:?}", other),
    }
}

#[test]
fn parser_reports_the_separator_error_location() {
    let mut parser = Parser::new();
    let e = parser.parse(tokens("1 )")).unwrap_err();
    assert_eq!(e.kind, ErrorKind::UnexpectedToken);
    assert_eq!(e.location, Some(Location { row: 0, column: 2 }));
}

#[test]
fn precedence_table() {
    assert!(Precedence::from(TokenKind::Star).binds_tighter(Precedence::from(TokenKind::Plus)));
    assert!(Precedence::from(TokenKind::Ampersand).binds_tighter(Precedence::from(TokenKind::Pipe)));
    assert!(Precedence::from(TokenKind::StarStar).binds_tighter(Precedence::from(TokenKind::Percent)));
    assert_eq!(Precedence::from(TokenKind::Comma), Precedence::Lowest);
    assert_eq!(Precedence::Application.level(), 11);
}

#[test]
fn token_kind_classes() {
    assert!(TokenKind::Identifier.is_primary());
    assert!(TokenKind::Underscore.is_primary());
    assert!(!TokenKind::LeftParenthesis.is_primary());
    assert!(TokenKind::Plus.is_operator());
    assert!(!TokenKind::Bang.is_operator());
    assert!(TokenKind::If.can_start_expression());
    assert!(!TokenKind::Then.can_start_expression());
}

#[test]
fn use_statements_name_a_relative_file() {
    let path = tokens("a.b.c").into_iter().filter(|t| t.node.kind == TokenKind::Identifier).collect::<Vec<_>>();
    let location = path[0].location;
    let statements = vec![Located { node: Statement::Use { path }, location }];
    let mut interpreter = Interpreter::new(Environment::new());
    match interpreter.interpret(&statements, 0) {
        Ok(Progress::Import { path, next }) => {
            assert_eq!(path, "a/b/c.icy");
            assert_eq!(next, 1);
        }
        other => panic!("{:?}", other),
    }
}

#[test]
fn use_paths_must_be_identifiers() {
    let path = tokens("a 1");
    let location = path[0].location;
    let statements = vec![Located { node: Statement::Use { path }, location }];
    let mut interpreter = Interpreter::new(Environment::new());
    let e = interpreter.interpret(&statements, 0).unwrap_err();
    assert_eq!(e.kind, ErrorKind::InvalidArguments);
}

#[test]
fn environment_lookup_walks_outward_and_set_is_local() {
    let mut environment = Environment::new();
    environment.set(0, "x".to_string(), Value::Integer(1));
    let child = environment.with_parent(0);
    assert!(matches!(environment.get(child, &"x".to_string()), Some(Value::Integer(1))));
    environment.set(child, "x".to_string(), Value::Integer(2));
    assert!(matches!(environment.get(child, &"x".to_string()), Some(Value::Integer(2))));
    assert!(matches!(environment.get(0, &"x".to_string()), Some(Value::Integer(1))));
    assert!(environment.get(0, &"y".to_string()).is_none());
    assert!(environment.get(7, &"x".to_string()).is_none());
}

#[test]
fn error_constructors_and_kind_names() {
    let at = Location { row: 2, column: 3 };
    let e = Error::new(ErrorKind::Overflow, at);
    assert_eq!(e.location, Some(at));
    assert!(e.help.is_none());
    let h = Error::with_help(ErrorKind::IncompleteIf, at, "add else");
    assert_eq!(h.help, Some("add else"));
    let bare: Error = ErrorKind::UnexpectedEndOfFile.into();
    assert!(bare.location.is_none());
    assert_eq!(ErrorKind::DivisionByZero.message(), "Division by zero");
    assert_eq!(ErrorKind::UnsupportedExpression.message(), "Unsupported Expression");
}

#[test]
fn forcing_resolves_thunks() {
    let mut interpreter = Interpreter::new(Environment::new());
    let expression = only_expression("1 + 2");
    let thunk = Value::Thunk { expression: Box::new(expression), environment: 0 };
    let forced = interpreter.force(thunk, 10).unwrap();
    assert!(matches!(forced, Value::Integer(3)));
    let again = interpreter.force(forced, 10).unwrap();
    assert!(matches!(again, Value::Integer(3)));
}

#[test]
fn errors_render_with_one_based_location_and_hint() {
    let e = Error::with_help(ErrorKind::IncompleteIf, Location { row: 2, column: 3 }, "add else");
    assert_eq!(e.render(), "Incomplete if at 3:4\nHelp: add else");
    let e = Error::new(ErrorKind::Overflow, Location { row: 9, column: 119 });
    assert_eq!(e.render(), "Overflow at 10:120");
    let bare: Error = ErrorKind::UnexpectedEndOfFile.into();
    assert_eq!(bare.render(), "Unexpected end of file at unknown location (probably end of file)");
}

#[test]
fn println_records_a_line() {
    let mut output = Vec::new();
    let v = icy::interpreter::println(&mut output, Value::Integer(5));
    assert!(matches!(v, Value::Integer(5)));
    assert_eq!(output.len(), 1);
    assert!(matches!(output[0], icy::Output::Line(Value::Integer(5))));
}

#[test]
fn interpreter_remembers_its_file() {
    let interpreter = Interpreter::with_file(Environment::new(), Some("dir/main.icy".to_string()));
    assert_eq!(interpreter.current_file.as_deref(), Some("dir/main.icy"));
    assert!(interpreter.output.is_empty());
    assert_eq!(interpreter.depth, icy::interpreter::DEFAULT_DEPTH);
}

#[test]
fn variable_statements_bind_eagerly() {
    let name = tokens("x").remove(0);
    let location = name.location;
    let bind = Located {
        node: Statement::Variable { name: name.clone(), body: only_expression("1 + 2") },
        location,
    };
    let read = Located { node: Statement::Expression { expression: only_expression("x * 10") }, location };
    let mut interpreter = Interpreter::new(Environment::new());
    assert!(matches!(interpreter.interpret(&vec![bind, read], 0), Ok(Progress::Finished)));
    assert!(matches!(interpreter.output[0], icy::Output::Value(Value::Integer(30))));

    let failing = Located {
        node: Statement::Variable { name, body: only_expression("1 / 0") },
        location,
    };
    let mut interpreter = Interpreter::new(Environment::new());
    let e = interpreter.interpret(&vec![failing], 0).unwrap_err();
    assert_eq!(e.kind, ErrorKind::DivisionByZero);
}

#[test]
fn literal_parameters_cannot_be_bound() {
    // `1` is a primary token, so this is a definition; its parameter is no
    // identifier, which the call finds out.
    let mut interpreter = Interpreter::new(Environment::new());
    let e = icy::run("f 1 = 2\nf 3", &mut interpreter).unwrap_err();
    assert_eq!(e.kind, ErrorKind::InvalidToken);
}

#[test]
fn unsupported_unary_operator() {
    let plus = tokens("+").remove(0);
    let location = plus.location;
    let operand = Box::new(only_expression("1"));
    let expression = Located { node: Expression::Unary { operator: plus, expression: operand }, location };
    let mut interpreter = Interpreter::new(Environment::new());
    let e = interpreter.evaluate(&expression, 0, 10).unwrap_err();
    assert_eq!(e.kind, ErrorKind::UnsupportedExpression);
}

#[test]
fn underscore_is_passed_by_juxtaposition() {
    match only_expression("f _").node {
        Expression::Call { argument, .. } => match argument.node {
            Expression::Literal { token } => assert_eq!(token.node.kind, TokenKind::Underscore),
            other => panic!("{:?}", other),
        },
        other => panic!("{:?}", other),
    }
    let mut interpreter = Interpreter::new(Environment::new());
    assert!(icy::run("(x $ 1) _", &mut interpreter).is_ok());
    assert!(matches!(interpreter.output[0], icy::Output::Value(Value::Integer(1))));
}

#[test]
fn unicode_white_space_separates_tokens() {
    assert_eq!(
        kinds("a\u{3000}b\u{a0}c\u{2009}d\u{85}e"),
        vec![TokenKind::Identifier; 5]
    );
    assert!(icy::text::is_whitespace('\u{2028}'));
    assert!(!icy::text::is_whitespace('\u{200b}'));
    assert!(!icy::text::is_whitespace('x'));
}
