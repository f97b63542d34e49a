use nino::lexer::tokenize;
use nino::parser::parse;
use nino::parser::parse_declaration;
use nino::parser::parse_equality;
use nino::parser::parse_expression;
use nino::parser::BinaryOperation;
use nino::parser::BinaryOperator;
use nino::parser::Declaration;
use nino::parser::Expression;
use nino::parser::FunctionCall;
use nino::parser::FunctionDeclaration;
use nino::parser::FunctionParameter;
use nino::parser::Item;
use nino::parser::Match;
use nino::parser::Type;
use nino::token::Token;
use nino::token::TokenKind;

/// Testing `1 == 1`
#[test]
fn test_equality() {
    let tokens = vec![
        Token::new(TokenKind::Number(1.0f64.to_bits()), 0, 0),
        Token::new(TokenKind::Equal, 2, 3),
        Token::new(TokenKind::Number(1.0f64.to_bits()), 5, 5),
    ];
    let (expression, _) = parse_equality(&tokens, 0);
    assert_eq!(
        expression,
        Ok(Expression::BinaryOperation(BinaryOperation {
            operator: BinaryOperator::Equal,
            left: Box::new(Expression::Number(1.0f64.to_bits())),
            right: Box::new(Expression::Number(1.0f64.to_bits())),
        }))
    );
}

/// Testing `print(1);`
#[test]
fn test_function_call() {
    let tokens = vec![
        Token::new(TokenKind::Identifier("print".to_string()), 0, 4),
        Token::new(TokenKind::LeftParen, 5, 5),
        Token::new(TokenKind::Number(1.0f64.to_bits()), 6, 6),
        Token::new(TokenKind::RightParen, 7, 7),
        Token::new(TokenKind::Semicolon, 8, 8),
    ];
    let (expression, _) = parse_expression(&tokens, 0);
    assert_eq!(
        expression,
        Ok(Expression::FunctionCall(FunctionCall {
            name: "print".to_string(),
            arguments: vec![Expression::Number(1.0f64.to_bits())],
        }))
    );
}

/// Testing `(1+1) ? {1 => 2, 2 => 3, 4 };`
#[test]
fn test_match_group() {
    let tokens = vec![
        Token::new(TokenKind::LeftParen, 0, 0),
        Token::new(TokenKind::Number(1.0f64.to_bits()), 1, 1),
        Token::new(TokenKind::Addition, 2, 2),
        Token::new(TokenKind::Number(1.0f64.to_bits()), 3, 3),
        Token::new(TokenKind::RightParen, 4, 4),
        Token::new(TokenKind::Question, 6, 6),
        Token::new(TokenKind::LeftBrace, 8, 8),
        Token::new(TokenKind::Number(1.0f64.to_bits()), 9, 9),
        Token::new(TokenKind::Arrow, 11, 12),
        Token::new(TokenKind::Number(2.0f64.to_bits()), 14, 14),
        Token::new(TokenKind::Comma, 16, 16),
        Token::new(TokenKind::Number(2.0f64.to_bits()), 18, 18),
        Token::new(TokenKind::Arrow, 20, 21),
        Token::new(TokenKind::Number(3.0f64.to_bits()), 23, 23),
        Token::new(TokenKind::Comma, 25, 25),
        Token::new(TokenKind::Number(4.0f64.to_bits()), 27, 27),
        Token::new(TokenKind::RightBrace, 28, 28),
        Token::new(TokenKind::Semicolon, 29, 29),
        Token::new(TokenKind::EOF, 30, 30),
    ];

    let items = parse(&tokens).unwrap();

    assert_eq!(
        items[0],
        Item::Expression(Expression::Match(Match {
            value: Box::new(Expression::BinaryOperation(BinaryOperation {
                operator: BinaryOperator::Add,
                left: Box::new(Expression::Number(1.0f64.to_bits())),
                right: Box::new(Expression::Number(1.0f64.to_bits())),
            })),
            patterns: vec![
                (
                    Expression::Number(1.0f64.to_bits()),
                    Expression::Number(2.0f64.to_bits()),
                ),
                (
                    Expression::Number(2.0f64.to_bits()),
                    Expression::Number(3.0f64.to_bits()),
                ),
            ],
            default: Some(Box::new(Expression::Number(4.0f64.to_bits()))),
        }))
    );
}

#[test]
fn test_group() {
    let tokens = vec![
        Token::new(TokenKind::LeftParen, 0, 0),
        Token::new(TokenKind::Number(1.0f64.to_bits()), 1, 1),
        Token::new(TokenKind::Addition, 3, 3),
        Token::new(TokenKind::Number(2.0f64.to_bits()), 5, 5),
        Token::new(TokenKind::RightParen, 6, 6),
        Token::new(TokenKind::EOF, 7, 7),
    ];

    let (expression, _) = parse_expression(&tokens, 0);
    assert_eq!(
        expression,
        Ok(Expression::BinaryOperation(BinaryOperation {
            operator: BinaryOperator::Add,
            left: Box::new(Expression::Number(1.0f64.to_bits())),
            right: Box::new(Expression::Number(2.0f64.to_bits())),
        }))
    );
}

#[test]
fn test_parse_declaration() {
    let tokens = tokenize("let x:num = 3;").unwrap();
    let (declaration, _) = parse_declaration(&tokens, 0);
    assert_eq!(
        declaration,
        Ok(Declaration {
            name: "x".to_string(),
            type_: Type::Number,
            expression: Box::new(Expression::Number(3.0f64.to_bits())),
        })
    );
}

#[test]
fn test_fail_parse_declaration() {
    let tokens = tokenize("let x: = 3.0;").unwrap();
    let (declaration, _) = parse_declaration(&tokens, 0);
    assert!(declaration.is_err());
}

#[test]
fn test_type_number() {
    let tokens = tokenize("let x:num = 3;").unwrap();
    let (declaration, _) = parse_declaration(&tokens, 0);
    assert_eq!(
        declaration,
        Ok(Declaration {
            name: "x".to_string(),
            type_: Type::Number,
            expression: Box::new(Expression::Number(3.0f64.to_bits())),
        })
    );
}

#[test]
fn test_type_number_float() {
    let tokens = tokenize("let x:num = 3.0;").unwrap();
    let (declaration, _) = parse_declaration(&tokens, 0);
    assert_eq!(
        declaration,
        Ok(Declaration {
            name: "x".to_string(),
            type_: Type::Number,
            expression: Box::new(Expression::Number(3.0f64.to_bits())),
        })
    );
}

#[test]
fn test_type_char() {
    let tokens = tokenize("let x:char = 'a';").unwrap();
    let (declaration, _) = parse_declaration(&tokens, 0);
    assert_eq!(
        declaration,
        Ok(Declaration {
            name: "x".to_string(),
            type_: Type::Char,
            expression: Box::new(Expression::Char('a' as u8)),
        })
    );
}

#[test]
fn test_type_bool() {
    let tokens = tokenize("let x:bool = true;").unwrap();
    let (declaration, _) = parse_declaration(&tokens, 0);
    assert_eq!(
        declaration,
        Ok(Declaration {
            name: "x".to_string(),
            type_: Type::Boolean,
            expression: Box::new(Expression::Bool(true)),
        })
    );
}

/// Testing type fn `let x:fn = (x:num, y:num):num => x+y;`
#[test]
fn test_type_fn() {
    let tokens = tokenize("let x:fn = (x:num, y:num):num => x+y;").unwrap();
    let (declaration, _) = parse_declaration(&tokens, 0);
    assert_eq!(
        declaration,
        Ok(Declaration {
            name: "x".to_string(),
            type_: Type::Function,
            expression: Box::new(Expression::FunctionDeclaration(FunctionDeclaration {
                parameters: vec![
                    FunctionParameter { name: "x".to_string(), type_: Type::Number },
                    FunctionParameter { name: "y".to_string(), type_: Type::Number },
                ],
                return_type: Type::Number,
                expression: Box::new(Expression::BinaryOperation(BinaryOperation {
                    operator: BinaryOperator::Add,
                    left: Box::new(Expression::Identifier("x".to_string())),
                    right: Box::new(Expression::Identifier("y".to_string())),
                })),
            }))
        })
    );
}

/// Testing type [num] `let x:[num] = [1, 2, 3];`
#[test]
fn test_type_array() {
    let tokens = tokenize("let x:[num] = [1, 2, 3];").unwrap();
    let (declaration, _) = parse_declaration(&tokens, 0);
    assert_eq!(
        declaration,
        Ok(Declaration {
            name: "x".to_string(),
            type_: Type::Array(Box::new(Type::Number)),
            expression: Box::new(Expression::Array(
                Type::Number,
                vec![
                    Expression::Number(1.0f64.to_bits()),
                    Expression::Number(2.0f64.to_bits()),
                    Expression::Number(3.0f64.to_bits()),
                ]
            ))
        })
    );
}

/// Testing `let add:fn = (x:num, y:num):num => x+y;`
#[test]
fn test_function_declaration() {
    let tokens = tokenize("let add:fn = (x:num, y:num):num => x+y;").unwrap();
    let items = parse(&tokens).unwrap();
    assert_eq!(
        items[0],
        Item::Declaration(Declaration {
            name: "add".to_string(),
            type_: Type::Function,
            expression: Box::new(Expression::FunctionDeclaration(FunctionDeclaration {
                parameters: vec![
                    FunctionParameter { name: "x".to_string(), type_: Type::Number },
                    FunctionParameter { name: "y".to_string(), type_: Type::Number },
                ],
                return_type: Type::Number,
                expression: Box::new(Expression::BinaryOperation(BinaryOperation {
                    operator: BinaryOperator::Add,
                    left: Box::new(Expression::Identifier("x".to_string())),
                    right: Box::new(Expression::Identifier("y".to_string())),
                })),
            }))
        })
    );
}

/// Testing `let x:num = 1 ? {1 => 2, 2 => 3, 4 };`
#[test]
fn test_match() {
    let tokens = tokenize("let x:num = 1 ? {1 => 2, 2 => 3, 4 };").unwrap();
    let items = parse(&tokens).unwrap();

    assert_eq!(
        items[0],
        Item::Declaration(Declaration {
            name: "x".to_string(),
            type_: Type::Number,
            expression: Box::new(Expression::Match(Match {
                value: Box::new(Expression::Number(1.0f64.to_bits())),
                patterns: vec![
                    (
                        Expression::Number(1.0f64.to_bits()),
                        Expression::Number(2.0f64.to_bits()),
                    ),
                    (
                        Expression::Number(2.0f64.to_bits()),
                        Expression::Number(3.0f64.to_bits()),
                    ),
                ],
                default: Some(Box::new(Expression::Number(4.0f64.to_bits()))),
            }))
        })
    );
}

/// Testing `let x:[num] = [1, 2, 3];`
#[test]
fn lexer_parser_test_array() {
    let tokens = tokenize("let x:[num] = [1, 2, 3];").unwrap();
    let items = parse(&tokens).unwrap();

    assert_eq!(
        items[0],
        Item::Declaration(Declaration {
            name: "x".to_string(),
            type_: Type::Array(Box::new(Type::Number)),
            expression: Box::new(Expression::Array(
                Type::Number,
                vec![
                    Expression::Number(1.0f64.to_bits()),
                    Expression::Number(2.0f64.to_bits()),
                    Expression::Number(3.0f64.to_bits()),
                ]
            ))
        })
    );
}

/// Testing `let x:[char] = "nino";`
#[test]
fn lexer_parser_test_string() {
    let tokens = tokenize("let x:[char] = \"nino\";").unwrap();
    let items = parse(&tokens).unwrap();

    assert_eq!(
        items[0],
        Item::Declaration(Declaration {
            name: "x".to_string(),
            type_: Type::Array(Box::new(Type::Char)),
            expression: Box::new(Expression::Array(
                Type::Char,
                vec![
                    Expression::Char('n' as u8),
                    Expression::Char('i' as u8),
                    Expression::Char('n' as u8),
                    Expression::Char('o' as u8),
                ]
            ))
        })
    );
}

/// Testing `let x:bool = 1+3>2 == 1;`
#[test]
fn test_parser() {
    let tokens = tokenize("let x:bool = 1+3>2 == 1;").unwrap();
    let items = parse(&tokens).unwrap();
    assert_eq!(
        items[0],
        Item::Declaration(Declaration {
            name: "x".to_string(),
            type_: Type::Boolean,
            expression: Box::new(Expression::BinaryOperation(BinaryOperation {
                operator: BinaryOperator::Equal,
                left: Box::new(Expression::BinaryOperation(BinaryOperation {
                    operator: BinaryOperator::GreaterThan,
                    left: Box::new(Expression::BinaryOperation(BinaryOperation {
                        operator: BinaryOperator::Add,
                        left: Box::new(Expression::Number(1.0f64.to_bits())),
                        right: Box::new(Expression::Number(3.0f64.to_bits())),
                    })),
                    right: Box::new(Expression::Number(2.0f64.to_bits())),
                })),
                right: Box::new(Expression::Number(1.0f64.to_bits())),
            })),
        })
    );
}
