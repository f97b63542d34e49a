use nino::lexer::consume_whitespace;
use nino::lexer::parse_number;
use nino::lexer::parse_string;
use nino::lexer::text_chars;
use nino::lexer::tokenize;
use nino::token::Token;
use nino::token::TokenKind;

#[test]
fn lexer_test_parse_number() {
    let chars = text_chars("123 345");
    let (token, p) = parse_number(&chars, 0).unwrap();
    assert_eq!(token, Token { kind: TokenKind::Number(123.0f64.to_bits()), begin: 0, end: 2 });
    assert_eq!(p, 3);
    assert_eq!(chars[3], ' ');
    let q = consume_whitespace(&chars, p);
    assert_eq!(q, 4);
    let (token, _) = parse_number(&chars, q).unwrap();
    assert_eq!(token, Token { kind: TokenKind::Number(345.0f64.to_bits()), begin: 4, end: 6 });
}

#[test]
fn lexer_test_parse_float() {
    let chars = text_chars("123.456");
    let (token, _) = parse_number(&chars, 0).unwrap();
    assert_eq!(token, Token { kind: TokenKind::Number(123.456f64.to_bits()), begin: 0, end: 6 });
}

#[test]
fn lexer_test_consumes_whitespace() {
    let chars = text_chars("   123");
    let p = consume_whitespace(&chars, 0);
    assert_eq!(p, 3);
    assert_eq!(chars[p], '1');
}

#[test]
fn main_test_consumes_whitespace() {
    let chars = text_chars("   123");
    let p = consume_whitespace(&chars, 0);
    assert_eq!(chars[p], '1');
}

#[test]
fn lexer_test_parse_string() {
    let chars = text_chars("\"hello world\"");
    let (token, _) = parse_string(&chars, 0);
    assert_eq!(
        token,
        Token { kind: TokenKind::String("hello world".to_string()), begin: 0, end: 12 }
    );
}

#[test]
fn lexer_test_parse_expression() {
    let input = "let x:num = 3;";
    let tokens = tokenize(input).unwrap();

    assert_eq!(tokens.len(), 8);
    assert_eq!(tokens[0], Token { kind: TokenKind::Let, begin: 0, end: 2 });
    assert_eq!(tokens[1], Token { kind: TokenKind::Identifier("x".to_string()), begin: 4, end: 4 });
    assert_eq!(tokens[2], Token { kind: TokenKind::Colon, begin: 5, end: 5 });
    assert_eq!(tokens[3], Token { kind: TokenKind::Type("num".to_string()), begin: 6, end: 8 });
    assert_eq!(tokens[4], Token { kind: TokenKind::Assignment, begin: 10, end: 10 });
    assert_eq!(tokens[5], Token { kind: TokenKind::Number(3.0f64.to_bits()), begin: 12, end: 12 });
    assert_eq!(tokens[6], Token { kind: TokenKind::Semicolon, begin: 13, end: 13 });
    assert_eq!(tokens[7], Token { kind: TokenKind::EOF, begin: 13, end: 13 });
}

#[test]
fn lexer_test_parse_equalities() {
    let input = "1 == 2 != 3 > 4 < 5 >= 6 <= 7";
    let tokens = tokenize(input).unwrap();

    assert_eq!(tokens.len(), 14);
    assert_eq!(tokens[0], Token { kind: TokenKind::Number(1.0f64.to_bits()), begin: 0, end: 0 });
    assert_eq!(tokens[1], Token { kind: TokenKind::Equal, begin: 2, end: 3 });
    assert_eq!(tokens[2], Token { kind: TokenKind::Number(2.0f64.to_bits()), begin: 5, end: 5 });
    assert_eq!(tokens[3], Token { kind: TokenKind::NotEqual, begin: 7, end: 8 });
    assert_eq!(tokens[4], Token { kind: TokenKind::Number(3.0f64.to_bits()), begin: 10, end: 10 });
    assert_eq!(tokens[5], Token { kind: TokenKind::GreaterThan, begin: 12, end: 13 });
    assert_eq!(tokens[6], Token { kind: TokenKind::Number(4.0f64.to_bits()), begin: 14, end: 14 });
    assert_eq!(tokens[7], Token { kind: TokenKind::LessThan, begin: 16, end: 17 });
    assert_eq!(tokens[8], Token { kind: TokenKind::Number(5.0f64.to_bits()), begin: 18, end: 18 });
    assert_eq!(tokens[9], Token { kind: TokenKind::GreaterEqualThan, begin: 20, end: 22 });
    assert_eq!(tokens[10], Token { kind: TokenKind::Number(6.0f64.to_bits()), begin: 23, end: 23 });
    assert_eq!(tokens[11], Token { kind: TokenKind::LessEqualThan, begin: 25, end: 27 });
    assert_eq!(tokens[12], Token { kind: TokenKind::Number(7.0f64.to_bits()), begin: 28, end: 28 });
    assert_eq!(tokens[13], Token { kind: TokenKind::EOF, begin: 28, end: 28 });
}

#[test]
fn test_equality_expression() {
    let input = "let x:bool = 1+3>2 == 1;";
    let tokens: Vec<TokenKind> = tokenize(input).unwrap().into_iter().map(|t| t.kind).collect();
    assert_eq!(
        tokens,
        vec![
            TokenKind::Let,
            TokenKind::Identifier("x".to_string()),
            TokenKind::Colon,
            TokenKind::Type("bool".to_string()),
            TokenKind::Assignment,
            TokenKind::Number(1.0f64.to_bits()),
            TokenKind::Addition,
            TokenKind::Number(3.0f64.to_bits()),
            TokenKind::GreaterThan,
            TokenKind::Number(2.0f64.to_bits()),
            TokenKind::Equal,
            TokenKind::Number(1.0f64.to_bits()),
            TokenKind::Semicolon,
            TokenKind::EOF,
        ]
    );
}

#[test]
fn lexer_test_array() {
    let input = "let x:[num] = [1,2,3];";
    let tokens: Vec<TokenKind> = tokenize(input).unwrap().into_iter().map(|t| t.kind).collect();
    assert_eq!(
        tokens,
        vec![
            TokenKind::Let,
            TokenKind::Identifier("x".to_string()),
            TokenKind::Colon,
            TokenKind::Type("[num]".to_string()),
            TokenKind::Assignment,
            TokenKind::LeftBracket,
            TokenKind::Number(1.0f64.to_bits()),
            TokenKind::Comma,
            TokenKind::Number(2.0f64.to_bits()),
            TokenKind::Comma,
            TokenKind::Number(3.0f64.to_bits()),
            TokenKind::RightBracket,
            TokenKind::Semicolon,
            TokenKind::EOF,
        ]
    );
}

#[test]
fn test_comment() {
    let input = "let x:num = 1; # This is a comment
let y:num = 2; # This is another comment";
    let tokens: Vec<TokenKind> = tokenize(input).unwrap().into_iter().map(|t| t.kind).collect();
    assert_eq!(
        tokens,
        vec![
            TokenKind::Let,
            TokenKind::Identifier("x".to_string()),
            TokenKind::Colon,
            TokenKind::Type("num".to_string()),
            TokenKind::Assignment,
            TokenKind::Number(1.0f64.to_bits()),
            TokenKind::Semicolon,
            TokenKind::Let,
            TokenKind::Identifier("y".to_string()),
            TokenKind::Colon,
            TokenKind::Type("num".to_string()),
            TokenKind::Assignment,
            TokenKind::Number(2.0f64.to_bits()),
            TokenKind::Semicolon,
            TokenKind::EOF,
        ]
    );
}

#[test]
fn test_match_expression() {
    let input = "let x:num = 1 ? {
    1 => 2,
    2 => 3,
    4
};";
    let tokens: Vec<TokenKind> = tokenize(input).unwrap().into_iter().map(|t| t.kind).collect();
    assert_eq!(
        tokens,
        vec![
            TokenKind::Let,
            TokenKind::Identifier("x".to_string()),
            TokenKind::Colon,
            TokenKind::Type("num".to_string()),
            TokenKind::Assignment,
            TokenKind::Number(1.0f64.to_bits()),
            TokenKind::Question,
            TokenKind::LeftBrace,
            TokenKind::Number(1.0f64.to_bits()),
            TokenKind::Arrow,
            TokenKind::Number(2.0f64.to_bits()),
            TokenKind::Comma,
            TokenKind::Number(2.0f64.to_bits()),
            TokenKind::Arrow,
            TokenKind::Number(3.0f64.to_bits()),
            TokenKind::Comma,
            TokenKind::Number(4.0f64.to_bits()),
            TokenKind::RightBrace,
            TokenKind::Semicolon,
            TokenKind::EOF,
        ]
    );
}

#[test]
fn lexer_test_string() {
    let input = "let x:[char] = \"hello world\";";
    let tokens: Vec<TokenKind> = tokenize(input).unwrap().into_iter().map(|t| t.kind).collect();
    assert_eq!(
        tokens,
        vec![
            TokenKind::Let,
            TokenKind::Identifier("x".to_string()),
            TokenKind::Colon,
            TokenKind::Type("[char]".to_string()),
            TokenKind::Assignment,
            TokenKind::String("hello world".to_string()),
            TokenKind::Semicolon,
            TokenKind::EOF,
        ]
    );
}

#[test]
fn test_is_prime() {
    let input = "let is_prime:fn = (x:num):bool =>
    | let sqrt_x:f32 = sqrt(x);
    | let sqrt_x_int:num = floor(sqrt_x);
    => true ? {
        x==1 => false,
        x==2 => true,
        x mod 2 == 0 => false,
        true => is_prime_helper(x, 3, sqrt_x_int)
    };";
    let tokens: Vec<TokenKind> = tokenize(input).unwrap().into_iter().map(|t| t.kind).collect();
    assert_eq!(
        tokens,
        vec![
            TokenKind::Let,
            TokenKind::Identifier("is_prime".to_string()),
            TokenKind::Colon,
            TokenKind::Type("fn".to_string()),
            TokenKind::Assignment,
            TokenKind::LeftParen,
            TokenKind::Identifier("x".to_string()),
            TokenKind::Colon,
            TokenKind::Type("num".to_string()),
            TokenKind::RightParen,
            TokenKind::Colon,
            TokenKind::Type("bool".to_string()),
            TokenKind::Arrow,
            TokenKind::Pipe,
            TokenKind::Let,
            TokenKind::Identifier("sqrt_x".to_string()),
            TokenKind::Colon,
            TokenKind::Type("f32".to_string()),
            TokenKind::Assignment,
            TokenKind::Identifier("sqrt".to_string()),
            TokenKind::LeftParen,
            TokenKind::Identifier("x".to_string()),
            TokenKind::RightParen,
            TokenKind::Semicolon,
            TokenKind::Pipe,
            TokenKind::Let,
            TokenKind::Identifier("sqrt_x_int".to_string()),
            TokenKind::Colon,
            TokenKind::Type("num".to_string()),
            TokenKind::Assignment,
            TokenKind::Identifier("floor".to_string()),
            TokenKind::LeftParen,
            TokenKind::Identifier("sqrt_x".to_string()),
            TokenKind::RightParen,
            TokenKind::Semicolon,
            TokenKind::Arrow,
            TokenKind::Boolean(true),
            TokenKind::Question,
            TokenKind::LeftBrace,
            TokenKind::Identifier("x".to_string()),
            TokenKind::Equal,
            TokenKind::Number(1.0f64.to_bits()),
            TokenKind::Arrow,
            TokenKind::Boolean(false),
            TokenKind::Comma,
            TokenKind::Identifier("x".to_string()),
            TokenKind::Equal,
            TokenKind::Number(2.0f64.to_bits()),
            TokenKind::Arrow,
            TokenKind::Boolean(true),
            TokenKind::Comma,
            TokenKind::Identifier("x".to_string()),
            TokenKind::Modulus,
            TokenKind::Number(2.0f64.to_bits()),
            TokenKind::Equal,
            TokenKind::Number(0.0f64.to_bits()),
            TokenKind::Arrow,
            TokenKind::Boolean(false),
            TokenKind::Comma,
            TokenKind::Boolean(true),
            TokenKind::Arrow,
            TokenKind::Identifier("is_prime_helper".to_string()),
            TokenKind::LeftParen,
            TokenKind::Identifier("x".to_string()),
            TokenKind::Comma,
            TokenKind::Number(3.0f64.to_bits()),
            TokenKind::Comma,
            TokenKind::Identifier("sqrt_x_int".to_string()),
            TokenKind::RightParen,
            TokenKind::RightBrace,
            TokenKind::Semicolon,
            TokenKind::EOF,
        ]
    );
}
