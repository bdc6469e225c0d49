use myst::enums::{duplicate_all, Expr, MType, Operator, Token};

#[test]
fn annotations_print_their_names() {
    assert_eq!(MType::Number.stringify(), "number");
    assert_eq!(MType::String.stringify(), "string");
    assert_eq!(MType::Function.stringify(), "function");
    assert_eq!(MType::Class.stringify(), "class");
    assert_eq!(MType::Struct.stringify(), "struct");
    assert_eq!(MType::Null.stringify(), "null");
    assert_eq!(MType::Undefined.stringify(), "undefined");
}

#[test]
fn punctuation_prints_its_spelling() {
    assert_eq!(Token::LParen.stringify(), "(");
    assert_eq!(Token::RParen.stringify(), ")");
    assert_eq!(Token::LCurly.stringify(), "{");
    assert_eq!(Token::RCurly.stringify(), "}");
    assert_eq!(Token::LBracket.stringify(), "[");
    assert_eq!(Token::RBracket.stringify(), "]");
    assert_eq!(Token::LArrow.stringify(), "<");
    assert_eq!(Token::RArrow.stringify(), ">");
    assert_eq!(Token::Plus.stringify(), "+");
    assert_eq!(Token::Minus.stringify(), "-");
    assert_eq!(Token::Star.stringify(), "*");
    assert_eq!(Token::Slash.stringify(), "/");
    assert_eq!(Token::Semicolon.stringify(), ";");
    assert_eq!(Token::Comma.stringify(), ",");
    assert_eq!(Token::Dot.stringify(), ".");
    assert_eq!(Token::Colon.stringify(), ":");
    assert_eq!(Token::Equal.stringify(), "=");
    assert_eq!(Token::Equality.stringify(), "==");
}

#[test]
fn literals_and_identifiers_print_their_content() {
    assert_eq!(Token::String("hello".to_string()).stringify(), "hello");
    assert_eq!(Token::Identifier("name".to_string()).stringify(), "name");
    assert_eq!(Token::String(String::new()).stringify(), "");
}

#[test]
fn numbers_print_in_decimal() {
    assert_eq!(Token::Number(0).stringify(), "0");
    assert_eq!(Token::Number(7).stringify(), "7");
    assert_eq!(Token::Number(42).stringify(), "42");
    assert_eq!(Token::Number(-42).stringify(), "-42");
    assert_eq!(Token::Number(1000).stringify(), "1000");
    assert_eq!(Token::Number(i64::MAX).stringify(), "9223372036854775807");
    assert_eq!(Token::Number(i64::MIN).stringify(), "-9223372036854775808");
}

#[test]
fn copies_are_equal_to_their_originals() {
    let nested = MType::Nested(Box::new(MType::Function), Box::new(MType::Number));
    assert_eq!(nested.duplicate(), nested);
    assert_eq!(nested.clone(), nested);
    let declare = Operator::Declare(MType::Struct);
    assert_eq!(declare.clone(), declare);
    let token = Token::Identifier("x".to_string());
    assert_eq!(token.clone(), token);
    let tree = Expr::If(
        Box::new(Expr::BinOp(
            Operator::Lesser,
            Box::new(Expr::Identifier("i".to_string())),
            Box::new(Expr::Number(3)),
        )),
        Box::new(vec![Expr::Return(Box::new(Expr::String("yes".to_string())))]),
        Box::new(vec![
            Expr::CallFunc(
                Box::new(Expr::Identifier("f".to_string())),
                Box::new(vec![Expr::Array(Box::new(vec![Expr::Number(1), Expr::Pass]))]),
            ),
            Expr::DecFunc(
                "g".to_string(),
                vec![Expr::Parameter("p".to_string(), MType::Number)],
                Box::new(vec![Expr::Import("io.rbb".to_string())]),
                MType::Null,
            ),
        ]),
    );
    assert_eq!(tree.clone(), tree);
    assert_eq!(tree.duplicate(), tree);
    let list = vec![tree, Expr::EOF, Expr::Include("x".to_string())];
    assert_eq!(duplicate_all(&list), list);
}

#[test]
fn only_some_annotations_and_tokens_can_be_printed() {
    assert!(MType::Number.can_stringify());
    assert!(MType::Undefined.can_stringify());
    assert!(!MType::I64.can_stringify());
    assert!(!MType::F16.can_stringify());
    assert!(!MType::Nested(Box::new(MType::Function), Box::new(MType::Number)).can_stringify());
    assert!(Token::Equality.can_stringify());
    assert!(Token::Number(1).can_stringify());
    assert!(Token::Identifier("x".to_string()).can_stringify());
    assert!(!Token::Not.can_stringify());
    assert!(!Token::Let.can_stringify());
    assert!(!Token::Return.can_stringify());
    assert!(!Token::EOF.can_stringify());
}
