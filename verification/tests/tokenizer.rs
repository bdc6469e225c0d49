use myst::enums::Token;
use myst::tokenizer::{lengthen, tokenize, TokenizeError};

fn lex(source: &str) -> Vec<Token> {
    tokenize(source.to_string()).unwrap()
}

fn word(text: &str) -> Token {
    Token::Identifier(text.to_string())
}

#[test]
fn tokenizes_a_declaration() {
    assert_eq!(
        lex("let x = 2 + 3;"),
        vec![
            Token::Let,
            word("x"),
            Token::Equal,
            Token::Number(2),
            Token::Plus,
            Token::Number(3),
            Token::Semicolon,
        ]
    );
}

#[test]
fn empty_source_has_no_tokens() {
    assert_eq!(lex(""), Vec::<Token>::new());
    assert_eq!(lex("\n\n"), Vec::<Token>::new());
    assert_eq!(lex("   "), Vec::<Token>::new());
}

#[test]
fn digits_extend_the_number() {
    assert_eq!(lex("69"), vec![Token::Number(69)]);
    assert_eq!(lex("1234567890"), vec![Token::Number(1234567890)]);
    assert_eq!(lex("9223372036854775807"), vec![Token::Number(i64::MAX)]);
}

#[test]
fn underscores_inside_numbers_are_passed_over() {
    assert_eq!(lex("1_000_000"), vec![Token::Number(1000000)]);
}

#[test]
fn a_number_that_does_not_fit_is_refused() {
    assert_eq!(
        tokenize("9223372036854775808".to_string()),
        Err(TokenizeError::NumberOutOfRange)
    );
    assert_eq!(
        tokenize("x = -9223372036854775809".to_string()),
        Err(TokenizeError::NumberOutOfRange)
    );
}

#[test]
fn a_minus_after_an_operator_makes_a_negative_number() {
    assert_eq!(
        lex("x = -5"),
        vec![word("x"), Token::Equal, Token::Number(-5)]
    );
    assert_eq!(
        lex("x + -12"),
        vec![word("x"), Token::Plus, Token::Number(-12)]
    );
    assert_eq!(
        lex("x - -3"),
        vec![word("x"), Token::Minus, Token::Number(-3)]
    );
    assert_eq!(
        lex("x = -9223372036854775808"),
        vec![word("x"), Token::Equal, Token::Number(i64::MIN)]
    );
}

#[test]
fn a_minus_after_an_operand_stays_a_minus() {
    assert_eq!(
        lex("x -5"),
        vec![word("x"), Token::Minus, Token::Number(5)]
    );
    assert_eq!(
        lex("7-5"),
        vec![Token::Number(7), Token::Minus, Token::Number(5)]
    );
}

#[test]
fn a_digit_after_a_leading_minus_has_nothing_before() {
    assert_eq!(tokenize("-5".to_string()), Err(TokenizeError::NothingBefore));
}

#[test]
fn a_semicolon_at_the_start_has_nothing_before() {
    assert_eq!(tokenize(";".to_string()), Err(TokenizeError::NothingBefore));
}

#[test]
fn an_underscore_at_the_start_is_unexpected() {
    assert_eq!(
        tokenize("_x".to_string()),
        Err(TokenizeError::UnexpectedCharacter)
    );
}

#[test]
fn identifiers_take_letters_digits_and_underscores() {
    assert_eq!(lex("abc"), vec![word("abc")]);
    assert_eq!(lex("a1b2"), vec![word("a1b2")]);
    assert_eq!(lex("snake_case"), vec![word("snake_case")]);
    assert_eq!(lex("x _y"), vec![word("x_y")]);
    assert_eq!(lex("( _"), vec![Token::LParen, word("_")]);
}

#[test]
fn alphabetic_characters_of_any_script_extend_an_identifier() {
    assert_eq!(lex("naïve"), vec![word("naïve")]);
    assert_eq!(lex("длина"), vec![word("длина")]);
}

#[test]
fn a_character_that_is_not_alphabetic_cannot_follow_an_identifier() {
    assert_eq!(
        tokenize("ab$".to_string()),
        Err(TokenizeError::MalformedIdentifier)
    );
    assert_eq!(
        tokenize("x!".to_string()),
        Err(TokenizeError::MalformedIdentifier)
    );
    assert_eq!(
        tokenize("x\ty".to_string()),
        Err(TokenizeError::MalformedIdentifier)
    );
}

#[test]
fn other_characters_start_identifiers() {
    assert_eq!(lex("!"), vec![word("!")]);
    assert_eq!(lex("1 $"), vec![Token::Number(1), word("$")]);
}

#[test]
fn keywords_are_recognised_at_a_space() {
    assert_eq!(
        lex("let if else while of fn import include class return "),
        vec![
            Token::Let,
            Token::If,
            Token::Else,
            Token::While,
            Token::Of,
            Token::Func,
            Token::Import,
            Token::Include,
            Token::Class,
            Token::Return,
        ]
    );
}

#[test]
fn a_keyword_without_a_space_after_it_stays_an_identifier() {
    assert_eq!(lex("let"), vec![word("let")]);
    assert_eq!(lex("if("), vec![word("if"), Token::LParen]);
}

#[test]
fn return_before_a_semicolon_is_the_keyword() {
    assert_eq!(lex("return;"), vec![Token::Return, Token::Semicolon]);
    assert_eq!(lex("returns;"), vec![word("returns"), Token::Semicolon]);
}

#[test]
fn a_space_does_not_end_an_identifier() {
    assert_eq!(lex("item of list"), vec![word("itemoflist")]);
    assert_eq!(lex("x y"), vec![word("xy")]);
}

#[test]
fn the_iterator_of_a_for_is_kept_apart_from_the_word_after_it() {
    assert_eq!(
        lex("for item of list {"),
        vec![
            Token::For,
            word("item"),
            Token::Of,
            word("list"),
            Token::LCurly,
        ]
    );
    assert_eq!(
        lex("for item "),
        vec![Token::For, word("item"), word("")]
    );
}

#[test]
fn an_opening_brace_ends_the_wait_for_an_iterator() {
    assert_eq!(
        lex("for { x "),
        vec![Token::For, Token::LCurly, word("x")]
    );
}

#[test]
fn punctuation_is_one_token_each() {
    assert_eq!(
        lex("( ) { } [ ] < > + * , . :"),
        vec![
            Token::LParen,
            Token::RParen,
            Token::LCurly,
            Token::RCurly,
            Token::LBracket,
            Token::RBracket,
            Token::LArrow,
            Token::RArrow,
            Token::Plus,
            Token::Star,
            Token::Comma,
            Token::Dot,
            Token::Colon,
        ]
    );
}

#[test]
fn two_equals_signs_are_an_equality() {
    assert_eq!(lex("="), vec![Token::Equal]);
    assert_eq!(lex("=="), vec![Token::Equality]);
    assert_eq!(
        lex("a == b"),
        vec![word("a"), Token::Equality, word("b")]
    );
    assert_eq!(lex("==="), vec![Token::Equality, Token::Equal]);
}

#[test]
fn strings_keep_their_characters() {
    assert_eq!(
        lex("\"hello world\""),
        vec![Token::String("hello world".to_string())]
    );
    assert_eq!(lex("\"\""), vec![Token::String(String::new())]);
    assert_eq!(
        lex("\"a + b; 12 // x\""),
        vec![Token::String("a + b; 12 // x".to_string())]
    );
}

#[test]
fn a_string_goes_on_over_a_line_end_without_it() {
    assert_eq!(lex("\"ab\ncd\""), vec![Token::String("abcd".to_string())]);
}

#[test]
fn a_digit_after_a_closed_string_joins_the_string() {
    assert_eq!(lex("\"ab\"1"), vec![Token::String("ab1".to_string())]);
}

#[test]
fn a_comma_before_string_characters_starts_a_new_string() {
    assert_eq!(
        lex("f(\"a\", \"b\")"),
        vec![
            word("f"),
            Token::LParen,
            Token::String("a".to_string()),
            Token::Comma,
            Token::String("b".to_string()),
            Token::RParen,
        ]
    );
}

#[test]
fn a_line_comment_ends_with_its_line() {
    assert_eq!(
        lex("x = 1; // the rest\ny = 2;"),
        vec![
            word("x"),
            Token::Equal,
            Token::Number(1),
            Token::Semicolon,
            word("y"),
            Token::Equal,
            Token::Number(2),
            Token::Semicolon,
        ]
    );
}

#[test]
fn a_division_is_a_single_slash() {
    assert_eq!(
        lex("6 / 2"),
        vec![Token::Number(6), Token::Slash, Token::Number(2)]
    );
}

#[test]
fn two_slashes_at_the_start_of_the_source_leave_one_slash() {
    assert_eq!(lex("//x"), vec![word("x")]);
    assert_eq!(lex("/"), Vec::<Token>::new());
}

#[test]
fn block_comments_are_dropped() {
    assert_eq!(
        lex("a /* b c */ d"),
        vec![word("a"), word("d")]
    );
    assert_eq!(
        lex("a /* b\nc */ d"),
        vec![word("a"), word("d")]
    );
}

#[test]
fn a_slash_or_star_that_ends_the_tokens_is_dropped() {
    assert_eq!(lex("a *"), vec![word("a")]);
    assert_eq!(lex("a /"), vec![word("a")]);
    assert_eq!(
        lex("a * b"),
        vec![word("a"), Token::Star, word("b")]
    );
}

#[test]
fn carriage_returns_before_line_feeds_belong_to_the_line_end() {
    assert_eq!(
        lex("x = 1;\r\ny = 2;\r\n"),
        lex("x = 1;\ny = 2;\n")
    );
    assert_eq!(
        tokenize("x\ry".to_string()),
        Err(TokenizeError::MalformedIdentifier)
    );
}

#[test]
fn tokenizes_a_call_with_a_property() {
    assert_eq!(
        lex("io.println(\"hi\");"),
        vec![
            word("io"),
            Token::Dot,
            word("println"),
            Token::LParen,
            Token::String("hi".to_string()),
            Token::RParen,
            Token::Semicolon,
        ]
    );
}

#[test]
fn an_identifier_is_lengthened_by_a_letter_only() {
    assert_eq!(lengthen("ab".to_string(), 'c', true), Ok("abc".to_string()));
    assert_eq!(lengthen(String::new(), 'é', true), Ok("é".to_string()));
    assert_eq!(
        lengthen("ab".to_string(), '$', false),
        Err(TokenizeError::MalformedIdentifier)
    );
}
