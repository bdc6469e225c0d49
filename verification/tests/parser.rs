use myst::enums::{Expr, MType, Operator, Token};
use myst::grammar::ParseError;
use myst::parser::Parser;
use myst::tokenizer::tokenize;

fn parse_source(source: &str) -> Result<Vec<Expr>, ParseError> {
    let tokens = tokenize(source.to_string()).unwrap();
    Parser::new(tokens).parse()
}

fn ident(name: &str) -> Expr {
    Expr::Identifier(name.to_string())
}

fn binop(operator: Operator, left: Expr, right: Expr) -> Expr {
    Expr::BinOp(operator, Box::new(left), Box::new(right))
}

fn call_of(name: &str, args: Vec<Expr>) -> Expr {
    Expr::CallFunc(Box::new(ident(name)), Box::new(args))
}

#[test]
fn no_tokens_parse_to_no_statements() {
    assert_eq!(Parser::new(vec![]).parse(), Ok(vec![]));
}

#[test]
fn parses_a_declaration_without_annotation() {
    assert_eq!(
        parse_source("let x = 2 + 3;"),
        Ok(vec![binop(
            Operator::Declare(MType::Undefined),
            ident("x"),
            binop(Operator::Add, Expr::Number(2), Expr::Number(3)),
        )])
    );
}

#[test]
fn parses_the_annotations_of_declarations() {
    let cases = vec![
        ("Number", MType::Number),
        ("String", MType::String),
        ("Function", MType::Function),
        ("Class", MType::Class),
        ("Struct", MType::Struct),
        ("Unknown", MType::Undefined),
    ];
    for (name, annotation) in cases {
        assert_eq!(
            parse_source(&format!("let x: {} = 1;", name)),
            Ok(vec![binop(
                Operator::Declare(annotation),
                ident("x"),
                Expr::Number(1),
            )])
        );
    }
}

#[test]
fn an_annotation_that_names_no_type_is_refused() {
    assert_eq!(parse_source("let x: Float = 1;"), Err(ParseError::UnknownType));
}

#[test]
fn a_declaration_needs_a_name() {
    assert_eq!(parse_source("let 5 = 1;"), Err(ParseError::ExpectedIdentifier));
}

#[test]
fn an_assignment_withdraws_the_name_before_it() {
    assert_eq!(
        parse_source("x = 5;"),
        Ok(vec![binop(Operator::Assign, ident("x"), Expr::Number(5))])
    );
    assert_eq!(
        parse_source("let y = 1; x = y + 2;"),
        Ok(vec![
            binop(Operator::Declare(MType::Undefined), ident("y"), Expr::Number(1)),
            binop(
                Operator::Assign,
                ident("x"),
                binop(Operator::Add, ident("y"), Expr::Number(2)),
            ),
        ])
    );
}

#[test]
fn an_assignment_with_nothing_before_it_is_refused() {
    assert_eq!(
        Parser::new(vec![Token::Equal, Token::Number(5)]).parse(),
        Err(ParseError::NothingBefore)
    );
    assert_eq!(
        parse_source("while a { x = 1; }"),
        Err(ParseError::NothingBefore)
    );
}

#[test]
fn an_assignment_to_something_else_than_a_name_is_refused() {
    assert_eq!(parse_source("5 = 1;"), Err(ParseError::ExpectedIdentifier));
}

#[test]
fn parses_shorthand_assignments() {
    assert_eq!(
        parse_source("x += 1;"),
        Ok(vec![binop(
            Operator::Assign,
            ident("x"),
            binop(Operator::Add, ident("x"), Expr::Number(1)),
        )])
    );
    assert_eq!(
        parse_source("x -= y;"),
        Ok(vec![binop(
            Operator::Assign,
            ident("x"),
            binop(Operator::Subtract, ident("x"), ident("y")),
        )])
    );
}

#[test]
fn a_sign_at_the_start_has_no_name_before_it() {
    assert_eq!(
        Parser::new(vec![Token::Plus, Token::Equal, Token::Number(1)]).parse(),
        Err(ParseError::NothingBefore)
    );
}

#[test]
fn operations_group_from_the_left() {
    assert_eq!(
        parse_source("return 1 + 2 * 3;"),
        Ok(vec![Expr::Return(Box::new(binop(
            Operator::Multiply,
            binop(Operator::Add, Expr::Number(1), Expr::Number(2)),
            Expr::Number(3),
        )))])
    );
    assert_eq!(
        parse_source("return 8 / 2 - 1;"),
        Ok(vec![Expr::Return(Box::new(binop(
            Operator::Subtract,
            binop(Operator::Divide, Expr::Number(8), Expr::Number(2)),
            Expr::Number(1),
        )))])
    );
}

#[test]
fn parses_a_conditional_with_both_branches() {
    assert_eq!(
        parse_source("if 1 < 2 { return 69; } else { return 0; }"),
        Ok(vec![Expr::If(
            Box::new(binop(Operator::Lesser, Expr::Number(1), Expr::Number(2))),
            Box::new(vec![Expr::Return(Box::new(Expr::Number(69)))]),
            Box::new(vec![Expr::Return(Box::new(Expr::Number(0)))]),
        )])
    );
}

#[test]
fn a_conditional_without_else_has_an_empty_second_branch() {
    assert_eq!(
        parse_source("if x { pass; }"),
        Ok(vec![Expr::If(
            Box::new(ident("x")),
            Box::new(vec![Expr::Pass]),
            Box::new(vec![]),
        )])
    );
}

#[test]
fn else_if_nests_in_the_second_branch() {
    assert_eq!(
        parse_source("if a == 1 { pass; } else if a == 2 { pass; } else { return a; }"),
        Ok(vec![Expr::If(
            Box::new(binop(Operator::Equality, ident("a"), Expr::Number(1))),
            Box::new(vec![Expr::Pass]),
            Box::new(vec![Expr::If(
                Box::new(binop(Operator::Equality, ident("a"), Expr::Number(2))),
                Box::new(vec![Expr::Pass]),
                Box::new(vec![Expr::Return(Box::new(ident("a")))]),
            )]),
        )])
    );
}

#[test]
fn parses_every_comparison() {
    let cases = vec![
        (vec![Token::Equality], Operator::Equality),
        (vec![Token::Not, Token::Equal], Operator::NotEqual),
        (vec![Token::LArrow], Operator::Lesser),
        (vec![Token::LArrow, Token::Equal], Operator::LesserEqual),
        (vec![Token::RArrow], Operator::Greater),
        (vec![Token::RArrow, Token::Equal], Operator::GreaterEqual),
    ];
    for (sign, operator) in cases {
        let mut tokens = vec![Token::While, Token::Identifier("a".to_string())];
        tokens.extend(sign);
        tokens.extend(vec![Token::Number(3), Token::LCurly, Token::RCurly]);
        assert_eq!(
            Parser::new(tokens).parse(),
            Ok(vec![Expr::While(
                Box::new(binop(operator, ident("a"), Expr::Number(3))),
                Box::new(vec![]),
            )])
        );
    }
}

#[test]
fn a_not_without_an_equals_sign_is_refused() {
    assert_eq!(
        Parser::new(vec![
            Token::If,
            Token::Identifier("a".to_string()),
            Token::Not,
            Token::Number(1),
        ])
        .parse(),
        Err(ParseError::UnexpectedToken)
    );
}

#[test]
fn a_condition_needs_an_operand() {
    assert_eq!(parse_source("if { pass; }"), Err(ParseError::ExpectedOperand));
    assert_eq!(parse_source("while ( x ) { }"), Err(ParseError::ExpectedOperand));
}

#[test]
fn parses_a_while_loop() {
    assert_eq!(
        parse_source("while i < 3 { i += 1; }"),
        Ok(vec![Expr::While(
            Box::new(binop(Operator::Lesser, ident("i"), Expr::Number(3))),
            Box::new(vec![binop(
                Operator::Assign,
                ident("i"),
                binop(Operator::Add, ident("i"), Expr::Number(1)),
            )]),
        )])
    );
}

#[test]
fn parses_a_for_loop() {
    assert_eq!(
        parse_source("for item of list { pass; }"),
        Ok(vec![Expr::For(
            "item".to_string(),
            Box::new(ident("list")),
            Box::new(vec![Expr::Pass]),
        )])
    );
}

#[test]
fn parses_a_function_declaration() {
    assert_eq!(
        parse_source("fn add(a, b) { return a + b; }"),
        Ok(vec![Expr::DecFunc(
            "add".to_string(),
            vec![
                Expr::Parameter("a".to_string(), MType::Undefined),
                Expr::Parameter("b".to_string(), MType::Undefined),
            ],
            Box::new(vec![Expr::Return(Box::new(binop(
                Operator::Add,
                ident("a"),
                ident("b"),
            )))]),
            MType::Undefined,
        )])
    );
}

#[test]
fn a_function_needs_a_name_and_plain_parameters() {
    assert_eq!(parse_source("fn (a) { }"), Err(ParseError::ExpectedIdentifier));
    assert_eq!(parse_source("fn f(1) { }"), Err(ParseError::UnexpectedToken));
}

#[test]
fn parses_a_call() {
    assert_eq!(
        parse_source("f(1, x, \"s\");"),
        Ok(vec![call_of(
            "f",
            vec![Expr::Number(1), ident("x"), Expr::String("s".to_string())],
        )])
    );
    assert_eq!(parse_source("f();"), Ok(vec![call_of("f", vec![])]));
}

#[test]
fn a_parenthesis_among_arguments_begins_a_function_without_a_name() {
    assert_eq!(
        parse_source("each(list, (x) { pass; });"),
        Ok(vec![call_of(
            "each",
            vec![
                ident("list"),
                Expr::DecFunc(
                    "anonymous".to_string(),
                    vec![Expr::Parameter("x".to_string(), MType::Undefined)],
                    Box::new(vec![Expr::Pass]),
                    MType::Undefined,
                ),
            ],
        )])
    );
}

#[test]
fn parses_a_property_call() {
    assert_eq!(
        parse_source("io.println(\"hi\");"),
        Ok(vec![Expr::PropertyAccess(
            Box::new(ident("io")),
            Box::new(call_of("println", vec![Expr::String("hi".to_string())])),
        )])
    );
}

#[test]
fn parses_a_plain_property() {
    assert_eq!(
        parse_source("return point.x;"),
        Ok(vec![Expr::Return(Box::new(Expr::PropertyAccess(
            Box::new(ident("point")),
            Box::new(ident("x")),
        )))])
    );
}

#[test]
fn parses_arrays_and_array_accesses() {
    assert_eq!(
        parse_source("let a = [1, 2, 3]; return a[1];"),
        Ok(vec![
            binop(
                Operator::Declare(MType::Undefined),
                ident("a"),
                Expr::Array(Box::new(vec![
                    Expr::Number(1),
                    Expr::Number(2),
                    Expr::Number(3),
                ])),
            ),
            Expr::Return(Box::new(Expr::ArrayAccess(
                "a".to_string(),
                Box::new(Expr::Number(1)),
            ))),
        ])
    );
    assert_eq!(
        parse_source("let e = [];"),
        Ok(vec![binop(
            Operator::Declare(MType::Undefined),
            ident("e"),
            Expr::Array(Box::new(vec![])),
        )])
    );
}

#[test]
fn parses_imports_and_classes() {
    assert_eq!(
        parse_source("import \"io.rbb\";"),
        Ok(vec![Expr::Import("io.rbb".to_string())])
    );
    assert_eq!(parse_source("import io;"), Err(ParseError::ExpectedString));
    assert_eq!(
        parse_source("class Point { pass; }"),
        Ok(vec![Expr::DecClass(
            "Point".to_string(),
            Box::new(vec![Expr::Pass]),
        )])
    );
    assert_eq!(parse_source("class { }"), Err(ParseError::ExpectedIdentifier));
}

#[test]
fn parses_literals_as_statements() {
    assert_eq!(
        Parser::new(vec![
            Token::Number(7),
            Token::String("s".to_string()),
            Token::Identifier("pass".to_string()),
        ])
        .parse(),
        Ok(vec![Expr::Number(7), Expr::String("s".to_string()), Expr::Pass])
    );
}

#[test]
fn a_token_that_begins_nothing_is_refused() {
    assert_eq!(parse_source("}"), Err(ParseError::UnexpectedToken));
    assert_eq!(parse_source("while x {"), Err(ParseError::UnexpectedToken));
    assert_eq!(
        Parser::new(vec![Token::Else]).parse(),
        Err(ParseError::UnexpectedToken)
    );
}

#[test]
fn an_expression_needs_an_operand() {
    assert_eq!(parse_source("return ;"), Err(ParseError::ExpectedOperand));
    assert_eq!(
        Parser::new(vec![Token::Star, Token::Number(2)]).parse(),
        Err(ParseError::ExpectedOperand)
    );
}

#[test]
fn a_small_budget_ends_in_too_deep() {
    let tokens = tokenize("if a { if b { return 1 + 2 + 3; } }".to_string()).unwrap();
    assert_eq!(
        Parser::with_budget(tokens, 4).parse(),
        Err(ParseError::TooDeep)
    );
    let tokens = tokenize("if a { if b { return 1 + 2 + 3; } }".to_string()).unwrap();
    assert!(Parser::with_budget(tokens, 64).parse().is_ok());
    let tokens = tokenize("pass; pass; pass;".to_string()).unwrap();
    assert_eq!(
        Parser::with_budget(tokens, 0).parse(),
        Err(ParseError::TooDeep)
    );
    assert_eq!(Parser::with_budget(vec![], 0).parse(), Ok(vec![]));
}

#[test]
fn a_budget_that_suffices_changes_nothing() {
    let source = "fn f(a) { if a < 3 { return [a, a + 1]; } else { return g(a, 2); } } f(1);";
    let whole = Parser::new(tokenize(source.to_string()).unwrap()).parse().unwrap();
    let mut least = 0;
    for budget in 0..64 {
        let tokens = tokenize(source.to_string()).unwrap();
        match Parser::with_budget(tokens, budget).parse() {
            Ok(parsed) => assert_eq!(parsed, whole),
            Err(error) => {
                assert_eq!(error, ParseError::TooDeep);
                least = budget + 1;
            }
        }
    }
    assert!(least > 0 && least < 64);
}

#[test]
fn parsing_again_gives_the_same_statements() {
    let tokens = tokenize("let x = 1; return x;".to_string()).unwrap();
    let mut parser = Parser::new(tokens);
    let first = parser.parse().unwrap();
    let second = parser.parse().unwrap();
    assert_eq!(first.len(), 2);
    assert_eq!(first, second);
}

#[test]
fn a_run_that_ends_early_is_read_as_far_as_it_goes() {
    assert_eq!(parse_source("x"), Ok(vec![ident("x")]));
    assert_eq!(parse_source("f("), Ok(vec![call_of("f", vec![])]));
    assert_eq!(parse_source("f(1"), Ok(vec![call_of("f", vec![Expr::Number(1)])]));
}

#[test]
fn an_operand_is_missed_past_the_last_token() {
    assert_eq!(parse_source("return "), Err(ParseError::ExpectedOperand));
    assert_eq!(parse_source("x +"), Err(ParseError::ExpectedOperand));
    assert_eq!(parse_source("x +="), Err(ParseError::ExpectedOperand));
}
