use cacau::{
    parse_input, parse_number, parse_tokens, BinaryOperator, CacauError, Expression, ParseError,
    Spanned, Statement, Tok, UnaryOperator, Value,
};

fn number(n: i32) -> Expression {
    Expression::Literal(Value::Number(n))
}

fn variable(name: &str) -> Expression {
    Expression::Variable(name.to_string())
}

fn binary(lhs: Expression, op: BinaryOperator, rhs: Expression) -> Expression {
    Expression::BinaryOp(Box::new(lhs), op, Box::new(rhs))
}

fn unary(op: UnaryOperator, operand: Expression) -> Expression {
    Expression::UnaryOp(op, Box::new(operand))
}

fn shape(source: &str) -> String {
    format!("{:?}", parse_input(source).expect("the source is a program"))
}

fn shape_of(statements: Vec<Statement>) -> String {
    format!("{:?}", statements)
}

fn expression_statement(expression: Expression) -> String {
    shape_of(vec![Statement::Expression(expression)])
}

#[test]
fn an_empty_text_is_an_empty_program() {
    assert_eq!(shape(""), shape_of(vec![]));
    assert_eq!(shape("  // nothing\n"), shape_of(vec![]));
}

#[test]
fn each_kind_of_statement_parses() {
    assert_eq!(shape(";"), shape_of(vec![Statement::Empty]));
    assert_eq!(
        shape("let x = 10;"),
        shape_of(vec![Statement::Assignment("x".to_string(), number(10))])
    );
    assert_eq!(shape("x;"), shape_of(vec![Statement::Expression(variable("x"))]));
    assert_eq!(shape("return;"), shape_of(vec![Statement::Return(None)]));
    assert_eq!(shape("return 1;"), shape_of(vec![Statement::Return(Some(number(1)))]));
    assert_eq!(
        shape("fn double(x) { return x * 2; }"),
        shape_of(vec![Statement::FunctionDeclaration(
            "double".to_string(),
            "x".to_string(),
            vec![Statement::Return(Some(binary(
                variable("x"),
                BinaryOperator::Mul,
                number(2)
            )))],
        )])
    );
    assert_eq!(
        shape("fn nothing(unused) { }"),
        shape_of(vec![Statement::FunctionDeclaration(
            "nothing".to_string(),
            "unused".to_string(),
            vec![],
        )])
    );
}

#[test]
fn statements_come_in_order() {
    assert_eq!(
        shape("let a = 1; ; a; fn f(x) { ; let b = x; } f(a);"),
        shape_of(vec![
            Statement::Assignment("a".to_string(), number(1)),
            Statement::Empty,
            Statement::Expression(variable("a")),
            Statement::FunctionDeclaration(
                "f".to_string(),
                "x".to_string(),
                vec![Statement::Empty, Statement::Assignment("b".to_string(), variable("x"))],
            ),
            Statement::Expression(Expression::FunctionCall(
                "f".to_string(),
                vec![variable("a")]
            )),
        ])
    );
}

#[test]
fn literals_parse() {
    assert_eq!(shape("0;"), expression_statement(number(0)));
    assert_eq!(shape("1_000;"), expression_statement(number(1000)));
    assert_eq!(shape("2147483647;"), expression_statement(number(i32::MAX)));
    assert_eq!(shape("true;"), expression_statement(Expression::Literal(Value::Bool(true))));
    assert_eq!(shape("false;"), expression_statement(Expression::Literal(Value::Bool(false))));
}

#[test]
fn multiplication_binds_tighter_than_addition() {
    assert_eq!(
        shape("1 + 2 * 3;"),
        expression_statement(binary(
            number(1),
            BinaryOperator::Add,
            binary(number(2), BinaryOperator::Mul, number(3))
        ))
    );
    assert_eq!(
        shape("1 * 2 + 3;"),
        expression_statement(binary(
            binary(number(1), BinaryOperator::Mul, number(2)),
            BinaryOperator::Add,
            number(3)
        ))
    );
    assert_eq!(
        shape("8 / 2 - 1;"),
        expression_statement(binary(
            binary(number(8), BinaryOperator::Div, number(2)),
            BinaryOperator::Sub,
            number(1)
        ))
    );
}

#[test]
fn addition_binds_tighter_than_comparison() {
    assert_eq!(
        shape("1 + 2 < 3 + 4;"),
        expression_statement(binary(
            binary(number(1), BinaryOperator::Add, number(2)),
            BinaryOperator::Less,
            binary(number(3), BinaryOperator::Add, number(4))
        ))
    );
    assert_eq!(
        shape("a == b * 2;"),
        expression_statement(binary(
            variable("a"),
            BinaryOperator::Equals,
            binary(variable("b"), BinaryOperator::Mul, number(2))
        ))
    );
}

#[test]
fn operators_of_one_level_group_from_the_left() {
    assert_eq!(
        shape("1 - 2 - 3;"),
        expression_statement(binary(
            binary(number(1), BinaryOperator::Sub, number(2)),
            BinaryOperator::Sub,
            number(3)
        ))
    );
    assert_eq!(
        shape("8 / 4 * 2;"),
        expression_statement(binary(
            binary(number(8), BinaryOperator::Div, number(4)),
            BinaryOperator::Mul,
            number(2)
        ))
    );
    assert_eq!(
        shape("1 < 2 == true;"),
        expression_statement(binary(
            binary(number(1), BinaryOperator::Less, number(2)),
            BinaryOperator::Equals,
            Expression::Literal(Value::Bool(true))
        ))
    );
    assert_eq!(
        shape("1 <= 2 != 3 >= 4 > 5;"),
        expression_statement(binary(
            binary(
                binary(
                    binary(number(1), BinaryOperator::LessOrEqual, number(2)),
                    BinaryOperator::NotEquals,
                    number(3)
                ),
                BinaryOperator::GreaterOrEqual,
                number(4)
            ),
            BinaryOperator::Greater,
            number(5)
        ))
    );
}

#[test]
fn unary_operators_bind_tightest() {
    assert_eq!(
        shape("-1 * 2;"),
        expression_statement(binary(
            unary(UnaryOperator::Minus, number(1)),
            BinaryOperator::Mul,
            number(2)
        ))
    );
    assert_eq!(
        shape("not a == b;"),
        expression_statement(binary(
            unary(UnaryOperator::Not, variable("a")),
            BinaryOperator::Equals,
            variable("b")
        ))
    );
    assert_eq!(
        shape("not not -x;"),
        expression_statement(unary(
            UnaryOperator::Not,
            unary(UnaryOperator::Not, unary(UnaryOperator::Minus, variable("x")))
        ))
    );
    assert_eq!(
        shape("1 - -2;"),
        expression_statement(binary(
            number(1),
            BinaryOperator::Sub,
            unary(UnaryOperator::Minus, number(2))
        ))
    );
}

#[test]
fn parentheses_group() {
    assert_eq!(
        shape("2 * (3 + 4);"),
        expression_statement(binary(
            number(2),
            BinaryOperator::Mul,
            binary(number(3), BinaryOperator::Add, number(4))
        ))
    );
    assert_eq!(shape("((x));"), expression_statement(variable("x")));
    assert_eq!(
        shape("-(1 + 2);"),
        expression_statement(unary(
            UnaryOperator::Minus,
            binary(number(1), BinaryOperator::Add, number(2))
        ))
    );
}

#[test]
fn calls_take_any_number_of_arguments() {
    assert_eq!(
        shape("f();"),
        expression_statement(Expression::FunctionCall("f".to_string(), vec![]))
    );
    assert_eq!(
        shape("f(1);"),
        expression_statement(Expression::FunctionCall("f".to_string(), vec![number(1)]))
    );
    assert_eq!(
        shape("f(1, x + 2, g(3));"),
        expression_statement(Expression::FunctionCall(
            "f".to_string(),
            vec![
                number(1),
                binary(variable("x"), BinaryOperator::Add, number(2)),
                Expression::FunctionCall("g".to_string(), vec![number(3)]),
            ]
        ))
    );
}

#[test]
fn an_unrecognized_byte_is_an_unexpected_token() {
    assert_eq!(
        parse_input("let x = @;").unwrap_err(),
        ParseError::User { error: CacauError::UnexpectedToken(Spanned((), 8..9)) }
    );
    assert_eq!(
        parse_input("@").unwrap_err(),
        ParseError::User { error: CacauError::UnexpectedToken(Spanned((), 0..1)) }
    );
    assert_eq!(
        parse_input("1;\n  $").unwrap_err(),
        ParseError::User { error: CacauError::UnexpectedToken(Spanned((), 5..6)) }
    );
    assert_eq!(
        parse_input("let x = @;").unwrap_err().into_error(),
        CacauError::UnexpectedToken(Spanned((), 8..9))
    );
}

#[test]
fn the_first_token_out_of_place_is_reported() {
    assert_eq!(
        parse_input("1 2;").unwrap_err(),
        ParseError::UnrecognizedToken { token: (2, Tok::Number("2"), 3) }
    );
    assert_eq!(
        parse_input("let = 3;").unwrap_err(),
        ParseError::UnrecognizedToken { token: (4, Tok::SingleEquals, 5) }
    );
    assert_eq!(
        parse_input("let x 3;").unwrap_err(),
        ParseError::UnrecognizedToken { token: (6, Tok::Number("3"), 7) }
    );
    assert_eq!(
        parse_input("1 + ;").unwrap_err(),
        ParseError::UnrecognizedToken { token: (4, Tok::SemiColon, 5) }
    );
    assert_eq!(
        parse_input("(1 + 2;").unwrap_err(),
        ParseError::UnrecognizedToken { token: (6, Tok::SemiColon, 7) }
    );
    assert_eq!(
        parse_input("f(1 2);").unwrap_err(),
        ParseError::UnrecognizedToken { token: (4, Tok::Number("2"), 5) }
    );
    assert_eq!(
        parse_input("f(1,);").unwrap_err(),
        ParseError::UnrecognizedToken { token: (4, Tok::CloseParen, 5) }
    );
    assert_eq!(
        parse_input("fn f(x, y) { }").unwrap_err(),
        ParseError::UnrecognizedToken { token: (6, Tok::Comma, 7) }
    );
    assert_eq!(
        parse_input("fn f() { }").unwrap_err(),
        ParseError::UnrecognizedToken { token: (5, Tok::CloseParen, 6) }
    );
    assert_eq!(
        parse_input("fn (x) { }").unwrap_err(),
        ParseError::UnrecognizedToken { token: (3, Tok::OpenParen, 4) }
    );
    assert_eq!(
        parse_input("fn f(x) return x;").unwrap_err(),
        ParseError::UnrecognizedToken { token: (8, Tok::Return, 14) }
    );
    assert_eq!(
        parse_input("}").unwrap_err(),
        ParseError::UnrecognizedToken { token: (0, Tok::CloseBracket, 1) }
    );
    assert_eq!(
        parse_input("1; let;").unwrap_err(),
        ParseError::UnrecognizedToken { token: (6, Tok::SemiColon, 7) }
    );
    assert_eq!(
        parse_input("1 2 @").unwrap_err(),
        ParseError::UnrecognizedToken { token: (2, Tok::Number("2"), 3) }
    );
    assert_eq!(
        parse_input("1 2;").unwrap_err().into_error(),
        CacauError::UnexpectedToken(Spanned((), 2..3))
    );
}

#[test]
fn a_text_that_ends_too_early_is_reported() {
    assert_eq!(parse_input("1 +").unwrap_err(), ParseError::UnrecognizedEOF { location: 3 });
    assert_eq!(parse_input("1").unwrap_err(), ParseError::UnrecognizedEOF { location: 1 });
    assert_eq!(parse_input("let x = 1  ").unwrap_err(), ParseError::UnrecognizedEOF {
        location: 9
    });
    assert_eq!(parse_input("fn f(x) { 1;").unwrap_err(), ParseError::UnrecognizedEOF {
        location: 12
    });
    assert_eq!(parse_input("f(").unwrap_err(), ParseError::UnrecognizedEOF { location: 2 });
    assert_eq!(
        parse_input("f(").unwrap_err().into_error(),
        CacauError::UnexpectedToken(Spanned((), 2..2))
    );
}

#[test]
fn a_number_too_large_is_out_of_place() {
    assert_eq!(
        parse_input("2147483648;").unwrap_err(),
        ParseError::UnrecognizedToken { token: (0, Tok::Number("2147483648"), 10) }
    );
    assert_eq!(
        parse_input("1 + 99999999999999999999;").unwrap_err(),
        ParseError::UnrecognizedToken { token: (4, Tok::Number("99999999999999999999"), 24) }
    );
}

#[test]
fn number_literals_have_a_value() {
    assert_eq!(parse_number("0"), Some(0));
    assert_eq!(parse_number("42"), Some(42));
    assert_eq!(parse_number("007"), Some(7));
    assert_eq!(parse_number("1_000_000"), Some(1000000));
    assert_eq!(parse_number("1__2_"), Some(12));
    assert_eq!(parse_number("2147483647"), Some(2147483647));
    assert_eq!(parse_number("2147483648"), None);
    assert_eq!(parse_number("2147483650"), None);
    assert_eq!(parse_number("4294967296"), None);
    assert_eq!(parse_number("4294967297"), None);
    assert_eq!(parse_number("00000000000000000000001"), Some(1));
    assert_eq!(parse_number("12a"), None);
    assert_eq!(parse_number("-1"), None);
    assert_eq!(parse_number("1\u{e9}"), None);
}

#[test]
fn tokens_parse_without_a_source() {
    let tokens = vec![(0, Tok::Identifier("x"), 1), (1, Tok::SemiColon, 2)];
    assert_eq!(
        format!("{:?}", parse_tokens(&tokens, None)),
        format!("{:?}", Ok::<_, ParseError>(vec![Statement::Expression(variable("x"))]))
    );
    let failure = CacauError::UnexpectedToken(Spanned((), 3..4));
    assert_eq!(
        parse_tokens(&tokens, Some(failure)).unwrap_err(),
        ParseError::User { error: CacauError::UnexpectedToken(Spanned((), 3..4)) }
    );
    assert_eq!(parse_tokens(&tokens[..1], None).unwrap_err(), ParseError::UnrecognizedEOF {
        location: 1
    });
    assert_eq!(parse_tokens(&[], None).map(|program| program.len()), Ok(0));
}
