//! A recursive-descent parser over the token stream.
//!
//! The grammar, precedence low to high: equality, comparison, term (`+`,
//! `-`), factor (`*`, `/`, `%`), unary, primary. Each level is
//! left-associative. A primary starting with `(` is ambiguous between a
//! parenthesized group and the parameter list of a function literal; the
//! parser first tries the stream as a group from a rewindable position, and
//! falls back to a function literal when that fails.
//!
//! Every parsing function is mirrored, step for step, by a spec function
//! over the views of the tokens, and proved to return exactly what its
//! mirror says; the mirrors are the grammar written down as mathematics.

use vstd::prelude::*;

pub use crate::ast::BinaryOperation;
pub use crate::ast::BinaryOperator;
pub use crate::ast::Declaration;
pub use crate::ast::Expression;
pub use crate::ast::FunctionCall;
pub use crate::ast::FunctionDeclaration;
pub use crate::ast::FunctionParameter;
pub use crate::ast::Item;
pub use crate::ast::Match;
pub use crate::ast::ParserError;
pub use crate::ast::Type;

use crate::ast::lemma_view_arms_push;
use crate::ast::lemma_view_exprs_push;
use crate::ast::lemma_view_exprs_props;
use crate::ast::lemma_view_items_push;
use crate::ast::lemma_view_items_props;
use crate::ast::lemma_view_params_push;
use crate::ast::view_arms;
use crate::ast::view_expr;
use crate::ast::view_exprs;
use crate::ast::view_items;
use crate::ast::view_params;
use crate::token::lemma_view_tokens_len;
use crate::token::view_tokens;
use crate::ast::SpecDeclaration;
use crate::ast::SpecExpression;
use crate::ast::SpecFunctionCall;
use crate::ast::SpecFunctionDeclaration;
use crate::ast::SpecFunctionParameter;
use crate::ast::SpecItem;
use crate::ast::SpecMatch;
use crate::ast::SpecBinaryOperation;
use crate::ast::SpecParserError;
use crate::token::SpecToken;
use crate::token::SpecTokenKind;
use crate::token::Token;
use crate::token::TokenKind;

verus! {

/// What a parsing step yields: a parsed value and the position of the next
/// unread token, or a parse failure.
pub enum Parsed<T> {
    Done(T, nat),
    Fail(SpecParserError),
}

/// A parse failure with the given message, at the given token.
pub open spec fn sp_err(message: Seq<char>, token: Option<SpecToken>) -> SpecParserError {
    SpecParserError { message, token }
}

/// The failure for a token stream that ends where more input is owed.
pub open spec fn sp_err_eof() -> SpecParserError {
    sp_err("Unexpected end of input"@, None)
}

/// The failure for a sub-parse that came back without having consumed a
/// token; no production of the grammar does that, so no run reaches it.
pub open spec fn sp_err_stuck() -> SpecParserError {
    sp_err("Parser made no progress"@, None)
}

/// Tokens not yet read, from `pos` on.
pub open spec fn remaining(toks: Seq<SpecToken>, pos: nat) -> nat {
    if pos <= toks.len() {
        (toks.len() - pos) as nat
    } else {
        0
    }
}

/// The declared type that a type name denotes, if any.
pub open spec fn spec_type_of(s: Seq<char>) -> Option<Type> {
    if s == "num"@ {
        Some(Type::Number)
    } else if s == "char"@ {
        Some(Type::Char)
    } else if s == "bool"@ {
        Some(Type::Boolean)
    } else if s == "fn"@ {
        Some(Type::Function)
    } else if s == "[num]"@ {
        Some(Type::Array(Box::new(Type::Number)))
    } else if s == "[bool]"@ {
        Some(Type::Array(Box::new(Type::Boolean)))
    } else if s == "[char]"@ {
        Some(Type::Array(Box::new(Type::Char)))
    } else if s == "[fn]"@ {
        Some(Type::Array(Box::new(Type::Function)))
    } else {
        None
    }
}

/// A string literal desugared: one character expression per character.
pub open spec fn spec_chars_exprs(s: Seq<char>) -> Seq<SpecExpression> {
    Seq::new(s.len(), |i: int| SpecExpression::Char(s[i] as u8))
}

/// A parenthesized group, entered after its `(`: an expression, then `)`.
pub open spec fn spec_parse_group(toks: Seq<SpecToken>, pos: nat) -> Parsed<SpecExpression>
    decreases remaining(toks, pos), 15int,
{
    match spec_parse_expression(toks, pos) {
        Parsed::Fail(e) => Parsed::Fail(e),
        Parsed::Done(e, p) => if p >= toks.len() {
            Parsed::Fail(sp_err_eof())
        } else if toks[p as int].kind is RightParen {
            Parsed::Done(e, (p + 1) as nat)
        } else {
            Parsed::Fail(sp_err("Expected right parenthesis"@, Some(toks[p as int])))
        },
    }
}

/// The parameter list of a function literal, entered after its `(`:
/// name `:` type groups, commas skipped, closed by `)`.
pub open spec fn spec_parse_params(toks: Seq<SpecToken>, pos: nat, acc: Seq<SpecFunctionParameter>) -> Parsed<
    Seq<SpecFunctionParameter>,
>
    decreases remaining(toks, pos), 14int,
{
    if pos >= toks.len() {
        Parsed::Fail(sp_err_eof())
    } else {
        match toks[pos as int].kind {
            SpecTokenKind::RightParen => Parsed::Done(acc, (pos + 1) as nat),
            SpecTokenKind::Comma => spec_parse_params(toks, (pos + 1) as nat, acc),
            SpecTokenKind::Identifier(name) => if pos + 1 >= toks.len() {
                Parsed::Fail(sp_err_eof())
            } else if !(toks[pos as int + 1].kind is Colon) {
                Parsed::Fail(sp_err("Expected colon"@, Some(toks[pos as int + 1])))
            } else if pos + 2 >= toks.len() {
                Parsed::Fail(sp_err_eof())
            } else {
                match toks[pos as int + 2].kind {
                    SpecTokenKind::Type(t) => match spec_type_of(t) {
                        Some(ty) => spec_parse_params(
                            toks,
                            (pos + 3) as nat,
                            acc.push(SpecFunctionParameter { name, type_: ty }),
                        ),
                        None => Parsed::Fail(sp_err("Unknown type"@, Some(toks[pos as int + 2]))),
                    },
                    _ => Parsed::Fail(sp_err("Expected type"@, Some(toks[pos as int + 2]))),
                }
            },
            _ => Parsed::Fail(sp_err("Expected identifier"@, Some(toks[pos as int]))),
        }
    }
}

/// A function literal, entered after its `(`: parameters, `:`, the return
/// type, `=>`, and the body expression.
pub open spec fn spec_parse_function_declaration(toks: Seq<SpecToken>, pos: nat) -> Parsed<
    SpecExpression,
>
    decreases remaining(toks, pos), 15int,
{
    match spec_parse_params(toks, pos, Seq::empty()) {
        Parsed::Fail(e) => Parsed::Fail(e),
        Parsed::Done(params, p) => if p <= pos {
            Parsed::Fail(sp_err_stuck())
        } else if p >= toks.len() {
            Parsed::Fail(sp_err_eof())
        } else if !(toks[p as int].kind is Colon) {
            Parsed::Fail(sp_err("Expected colon"@, Some(toks[p as int])))
        } else if p + 1 >= toks.len() {
            Parsed::Fail(sp_err_eof())
        } else {
            match toks[p as int + 1].kind {
                SpecTokenKind::Type(t) => match spec_type_of(t) {
                    Some(ty) => if p + 2 >= toks.len() {
                        Parsed::Fail(sp_err_eof())
                    } else if !(toks[p as int + 2].kind is Arrow) {
                        Parsed::Fail(sp_err("Expected arrow"@, Some(toks[p as int + 2])))
                    } else {
                        match spec_parse_expression(toks, (p + 3) as nat) {
                            Parsed::Fail(e) => Parsed::Fail(e),
                            Parsed::Done(body, p2) => Parsed::Done(
                                SpecExpression::FunctionDeclaration(
                                    SpecFunctionDeclaration {
                                        parameters: params,
                                        return_type: ty,
                                        expression: Box::new(body),
                                    },
                                ),
                                p2,
                            ),
                        }
                    },
                    None => Parsed::Fail(sp_err("Unknown type"@, Some(toks[p as int + 1]))),
                },
                _ => Parsed::Fail(sp_err("Expected type"@, Some(toks[p as int + 1]))),
            }
        },
    }
}

/// The argument list of a call, entered after its `(`: expressions, commas
/// skipped, closed by `)`.
pub open spec fn spec_parse_args(toks: Seq<SpecToken>, pos: nat, acc: Seq<SpecExpression>) -> Parsed<
    Seq<SpecExpression>,
>
    decreases remaining(toks, pos), 14int,
{
    if pos >= toks.len() {
        Parsed::Fail(sp_err_eof())
    } else {
        match toks[pos as int].kind {
            SpecTokenKind::RightParen => Parsed::Done(acc, (pos + 1) as nat),
            SpecTokenKind::Comma => spec_parse_args(toks, (pos + 1) as nat, acc),
            _ => match spec_parse_expression(toks, pos) {
                Parsed::Fail(e) => Parsed::Fail(e),
                Parsed::Done(e, p) => if p <= pos {
                    Parsed::Fail(sp_err_stuck())
                } else {
                    spec_parse_args(toks, p, acc.push(e))
                },
            },
        }
    }
}

/// The element list of an array literal, entered after its `[`: expressions,
/// commas skipped, closed by `]`.
pub open spec fn spec_parse_elements(toks: Seq<SpecToken>, pos: nat, acc: Seq<SpecExpression>) -> Parsed<
    Seq<SpecExpression>,
>
    decreases remaining(toks, pos), 14int,
{
    if pos >= toks.len() {
        Parsed::Fail(sp_err_eof())
    } else {
        match toks[pos as int].kind {
            SpecTokenKind::RightBracket => Parsed::Done(acc, (pos + 1) as nat),
            SpecTokenKind::Comma => spec_parse_elements(toks, (pos + 1) as nat, acc),
            _ => match spec_parse_expression(toks, pos) {
                Parsed::Fail(e) => Parsed::Fail(e),
                Parsed::Done(e, p) => if p <= pos {
                    Parsed::Fail(sp_err_stuck())
                } else {
                    spec_parse_elements(toks, p, acc.push(e))
                },
            },
        }
    }
}

/// The arms of a match, entered after its `{`. An arm is a candidate, `=>`,
/// and a result; a candidate followed directly by `}` is the default
/// instead. Commas are skipped; `}` closes the match.
pub open spec fn spec_parse_arms(
    toks: Seq<SpecToken>,
    pos: nat,
    value: SpecExpression,
    patterns: Seq<(SpecExpression, SpecExpression)>,
    default: Option<Box<SpecExpression>>,
) -> Parsed<SpecExpression>
    decreases remaining(toks, pos), 14int,
{
    if pos >= toks.len() {
        Parsed::Fail(sp_err_eof())
    } else {
        match toks[pos as int].kind {
            SpecTokenKind::RightBrace => Parsed::Done(
                SpecExpression::Match(SpecMatch { value: Box::new(value), patterns, default }),
                (pos + 1) as nat,
            ),
            SpecTokenKind::Comma => spec_parse_arms(toks, (pos + 1) as nat, value, patterns, default),
            _ => match spec_parse_expression(toks, pos) {
                Parsed::Fail(e) => Parsed::Fail(e),
                Parsed::Done(cand, p) => if p <= pos {
                    Parsed::Fail(sp_err_stuck())
                } else if p >= toks.len() {
                    Parsed::Fail(sp_err_eof())
                } else if toks[p as int].kind is RightBrace {
                    spec_parse_arms(toks, p, value, patterns, Some(Box::new(cand)))
                } else if toks[p as int].kind is Arrow {
                    match spec_parse_expression(toks, (p + 1) as nat) {
                        Parsed::Fail(e) => Parsed::Fail(e),
                        Parsed::Done(result, p2) => if p2 <= p {
                            Parsed::Fail(sp_err_stuck())
                        } else {
                            spec_parse_arms(toks, p2, value, patterns.push((cand, result)), default)
                        },
                    }
                } else {
                    Parsed::Fail(sp_err("Expected arrow or default"@, Some(toks[p as int])))
                },
            },
        }
    }
}

/// The optional match suffix after a primary expression ending at `pos`:
/// with a `?` ahead, a `{`-enclosed arm list turns the primary into the
/// scrutinee of a match; without one, the primary stands alone.
pub open spec fn spec_parse_suffix(toks: Seq<SpecToken>, pos: nat, base: SpecExpression) -> Parsed<
    SpecExpression,
>
    decreases remaining(toks, pos), 15int,
{
    if pos < toks.len() && toks[pos as int].kind is Question {
        if pos + 1 >= toks.len() {
            Parsed::Fail(sp_err_eof())
        } else if toks[pos as int + 1].kind is LeftBrace {
            spec_parse_arms(toks, (pos + 2) as nat, base, Seq::empty(), None)
        } else {
            Parsed::Fail(sp_err("Expected left brace"@, Some(toks[pos as int + 1])))
        }
    } else {
        Parsed::Done(base, pos)
    }
}

/// A primary expression: a literal, an identifier, a call, an array literal,
/// a parenthesized group, or a function literal; then the match suffix.
pub open spec fn spec_parse_primary(toks: Seq<SpecToken>, pos: nat) -> Parsed<SpecExpression>
    decreases remaining(toks, pos), 3int,
{
    if pos >= toks.len() {
        Parsed::Fail(sp_err_eof())
    } else {
        match toks[pos as int].kind {
            SpecTokenKind::Identifier(name) => if pos + 1 >= toks.len() {
                Parsed::Fail(sp_err_eof())
            } else if toks[pos as int + 1].kind is LeftParen {
                match spec_parse_args(toks, (pos + 2) as nat, Seq::empty()) {
                    Parsed::Fail(e) => Parsed::Fail(e),
                    Parsed::Done(args, p) => if p <= pos {
                        Parsed::Fail(sp_err_stuck())
                    } else {
                        spec_parse_suffix(
                            toks,
                            p,
                            SpecExpression::FunctionCall(
                                SpecFunctionCall { name, arguments: args },
                            ),
                        )
                    },
                }
            } else {
                spec_parse_suffix(toks, (pos + 1) as nat, SpecExpression::Identifier(name))
            },
            SpecTokenKind::LeftParen => {
                let attempt = spec_parse_group(toks, (pos + 1) as nat);
                match attempt {
                    Parsed::Done(e, p) => if p <= pos {
                        Parsed::Fail(sp_err_stuck())
                    } else {
                        spec_parse_suffix(toks, p, e)
                    },
                    Parsed::Fail(_) => match spec_parse_function_declaration(
                        toks,
                        (pos + 1) as nat,
                    ) {
                        Parsed::Fail(e) => Parsed::Fail(e),
                        Parsed::Done(f, p) => if p <= pos {
                            Parsed::Fail(sp_err_stuck())
                        } else {
                            spec_parse_suffix(toks, p, f)
                        },
                    },
                }
            },
            SpecTokenKind::Number(v) => spec_parse_suffix(
                toks,
                (pos + 1) as nat,
                SpecExpression::Number(v),
            ),
            SpecTokenKind::Character(c) => spec_parse_suffix(
                toks,
                (pos + 1) as nat,
                SpecExpression::Char(c),
            ),
            SpecTokenKind::Boolean(b) => spec_parse_suffix(
                toks,
                (pos + 1) as nat,
                SpecExpression::Bool(b),
            ),
            SpecTokenKind::String(s) => spec_parse_suffix(
                toks,
                (pos + 1) as nat,
                SpecExpression::Array(Type::Char, spec_chars_exprs(s)),
            ),
            SpecTokenKind::LeftBracket => match spec_parse_elements(
                toks,
                (pos + 1) as nat,
                Seq::empty(),
            ) {
                Parsed::Fail(e) => Parsed::Fail(e),
                Parsed::Done(elems, p) => if p <= pos {
                    Parsed::Fail(sp_err_stuck())
                } else {
                    spec_parse_suffix(
                        toks,
                        p,
                        SpecExpression::Array(Type::Number, elems),
                    )
                },
            },
            _ => Parsed::Fail(sp_err("Unexpected token"@, Some(toks[pos as int]))),
        }
    }
}

/// A unary expression; the grammar has no unary operators, so this is a
/// primary.
pub open spec fn spec_parse_unary(toks: Seq<SpecToken>, pos: nat) -> Parsed<SpecExpression>
    decreases remaining(toks, pos), 4int,
{
    spec_parse_primary(toks, pos)
}

/// The operator, if any, that continues a factor at `pos`.
pub open spec fn spec_factor_op(k: SpecTokenKind) -> Option<BinaryOperator> {
    match k {
        SpecTokenKind::Multiplication => Some(BinaryOperator::Multiply),
        SpecTokenKind::Division => Some(BinaryOperator::Divide),
        SpecTokenKind::Modulus => Some(BinaryOperator::Modulo),
        _ => None,
    }
}

/// The operator, if any, that continues a term at `pos`.
pub open spec fn spec_term_op(k: SpecTokenKind) -> Option<BinaryOperator> {
    match k {
        SpecTokenKind::Addition => Some(BinaryOperator::Add),
        SpecTokenKind::Subtraction => Some(BinaryOperator::Subtract),
        _ => None,
    }
}

/// The operator, if any, that continues a comparison at `pos`.
pub open spec fn spec_comparison_op(k: SpecTokenKind) -> Option<BinaryOperator> {
    match k {
        SpecTokenKind::LessThan => Some(BinaryOperator::LessThan),
        SpecTokenKind::LessEqualThan => Some(BinaryOperator::LessEqualThan),
        SpecTokenKind::GreaterThan => Some(BinaryOperator::GreaterThan),
        SpecTokenKind::GreaterEqualThan => Some(BinaryOperator::GreaterEqualThan),
        _ => None,
    }
}

/// The operator, if any, that continues an equality at `pos`.
pub open spec fn spec_equality_op(k: SpecTokenKind) -> Option<BinaryOperator> {
    match k {
        SpecTokenKind::Equal => Some(BinaryOperator::Equal),
        SpecTokenKind::NotEqual => Some(BinaryOperator::NotEqual),
        _ => None,
    }
}

/// Folds `left op right` into a left-leaning binary operation.
pub open spec fn sp_binop(op: BinaryOperator, left: SpecExpression, right: SpecExpression) -> SpecExpression {
    SpecExpression::BinaryOperation(
        SpecBinaryOperation { operator: op, left: Box::new(left), right: Box::new(right) },
    )
}

/// While a factor operator is ahead, folds further unary operands into the
/// left-leaning factor built so far.
pub open spec fn spec_parse_factor_tail(toks: Seq<SpecToken>, pos: nat, acc: SpecExpression) -> Parsed<
    SpecExpression,
>
    decreases remaining(toks, pos), 5int,
{
    if pos < toks.len() && spec_factor_op(toks[pos as int].kind) is Some {
        let op = spec_factor_op(toks[pos as int].kind)->Some_0;
        match spec_parse_unary(toks, (pos + 1) as nat) {
            Parsed::Fail(e) => Parsed::Fail(e),
            Parsed::Done(right, p) => if p <= pos {
                Parsed::Fail(sp_err_stuck())
            } else {
                spec_parse_factor_tail(toks, p, sp_binop(op, acc, right))
            },
        }
    } else {
        Parsed::Done(acc, pos)
    }
}

/// A factor: unary expressions joined by `*`, `/` and `%`.
pub open spec fn spec_parse_factor(toks: Seq<SpecToken>, pos: nat) -> Parsed<SpecExpression>
    decreases remaining(toks, pos), 6int,
{
    match spec_parse_unary(toks, pos) {
        Parsed::Fail(e) => Parsed::Fail(e),
        Parsed::Done(e, p) => if p < pos {
            Parsed::Fail(sp_err_stuck())
        } else {
            spec_parse_factor_tail(toks, p, e)
        },
    }
}

/// While a term operator is ahead, folds further factor operands into the
/// left-leaning term built so far.
pub open spec fn spec_parse_term_tail(toks: Seq<SpecToken>, pos: nat, acc: SpecExpression) -> Parsed<
    SpecExpression,
>
    decreases remaining(toks, pos), 7int,
{
    if pos < toks.len() && spec_term_op(toks[pos as int].kind) is Some {
        let op = spec_term_op(toks[pos as int].kind)->Some_0;
        match spec_parse_factor(toks, (pos + 1) as nat) {
            Parsed::Fail(e) => Parsed::Fail(e),
            Parsed::Done(right, p) => if p <= pos {
                Parsed::Fail(sp_err_stuck())
            } else {
                spec_parse_term_tail(toks, p, sp_binop(op, acc, right))
            },
        }
    } else {
        Parsed::Done(acc, pos)
    }
}

/// A term: factors joined by `+` and `-`.
pub open spec fn spec_parse_term(toks: Seq<SpecToken>, pos: nat) -> Parsed<SpecExpression>
    decreases remaining(toks, pos), 8int,
{
    match spec_parse_factor(toks, pos) {
        Parsed::Fail(e) => Parsed::Fail(e),
        Parsed::Done(e, p) => if p < pos {
            Parsed::Fail(sp_err_stuck())
        } else {
            spec_parse_term_tail(toks, p, e)
        },
    }
}

/// While a comparison operator is ahead, folds further term operands into
/// the left-leaning comparison built so far.
pub open spec fn spec_parse_comparison_tail(toks: Seq<SpecToken>, pos: nat, acc: SpecExpression) -> Parsed<
    SpecExpression,
>
    decreases remaining(toks, pos), 9int,
{
    if pos < toks.len() && spec_comparison_op(toks[pos as int].kind) is Some {
        let op = spec_comparison_op(toks[pos as int].kind)->Some_0;
        match spec_parse_term(toks, (pos + 1) as nat) {
            Parsed::Fail(e) => Parsed::Fail(e),
            Parsed::Done(right, p) => if p <= pos {
                Parsed::Fail(sp_err_stuck())
            } else {
                spec_parse_comparison_tail(toks, p, sp_binop(op, acc, right))
            },
        }
    } else {
        Parsed::Done(acc, pos)
    }
}

/// A comparison: terms joined by `<`, `<=`, `>` and `>=`.
pub open spec fn spec_parse_comparison(toks: Seq<SpecToken>, pos: nat) -> Parsed<SpecExpression>
    decreases remaining(toks, pos), 10int,
{
    match spec_parse_term(toks, pos) {
        Parsed::Fail(e) => Parsed::Fail(e),
        Parsed::Done(e, p) => if p < pos {
            Parsed::Fail(sp_err_stuck())
        } else {
            spec_parse_comparison_tail(toks, p, e)
        },
    }
}

/// While an equality operator is ahead, folds further comparison operands
/// into the left-leaning equality built so far.
pub open spec fn spec_parse_equality_tail(toks: Seq<SpecToken>, pos: nat, acc: SpecExpression) -> Parsed<
    SpecExpression,
>
    decreases remaining(toks, pos), 11int,
{
    if pos < toks.len() && spec_equality_op(toks[pos as int].kind) is Some {
        let op = spec_equality_op(toks[pos as int].kind)->Some_0;
        match spec_parse_comparison(toks, (pos + 1) as nat) {
            Parsed::Fail(e) => Parsed::Fail(e),
            Parsed::Done(right, p) => if p <= pos {
                Parsed::Fail(sp_err_stuck())
            } else {
                spec_parse_equality_tail(toks, p, sp_binop(op, acc, right))
            },
        }
    } else {
        Parsed::Done(acc, pos)
    }
}

/// An equality: comparisons joined by `==` and `!=`.
pub open spec fn spec_parse_equality(toks: Seq<SpecToken>, pos: nat) -> Parsed<SpecExpression>
    decreases remaining(toks, pos), 12int,
{
    match spec_parse_comparison(toks, pos) {
        Parsed::Fail(e) => Parsed::Fail(e),
        Parsed::Done(e, p) => if p < pos {
            Parsed::Fail(sp_err_stuck())
        } else {
            spec_parse_equality_tail(toks, p, e)
        },
    }
}

/// A full expression: the lowest-precedence level, an equality.
pub open spec fn spec_parse_expression(toks: Seq<SpecToken>, pos: nat) -> Parsed<SpecExpression>
    decreases remaining(toks, pos), 13int,
{
    spec_parse_equality(toks, pos)
}

/// A declaration: `let` name `:` type `=` expression `;`.
pub open spec fn spec_parse_declaration(toks: Seq<SpecToken>, pos: nat) -> Parsed<SpecDeclaration>
    decreases remaining(toks, pos), 16int,
{
    if pos >= toks.len() {
        Parsed::Fail(sp_err_eof())
    } else if !(toks[pos as int].kind is Let) {
        Parsed::Fail(sp_err("Expected let"@, Some(toks[pos as int])))
    } else if pos + 1 >= toks.len() {
        Parsed::Fail(sp_err_eof())
    } else {
        match toks[pos as int + 1].kind {
            SpecTokenKind::Identifier(name) => if pos + 2 >= toks.len() {
                Parsed::Fail(sp_err_eof())
            } else if !(toks[pos as int + 2].kind is Colon) {
                Parsed::Fail(sp_err("Expected colon"@, Some(toks[pos as int + 2])))
            } else if pos + 3 >= toks.len() {
                Parsed::Fail(sp_err_eof())
            } else {
                match toks[pos as int + 3].kind {
                    SpecTokenKind::Type(t) => match spec_type_of(t) {
                        Some(ty) => if pos + 4 >= toks.len() {
                            Parsed::Fail(sp_err_eof())
                        } else if !(toks[pos as int + 4].kind is Assignment) {
                            Parsed::Fail(sp_err("Expected assignment"@, Some(toks[pos as int + 4])))
                        } else {
                            match spec_parse_expression(toks, (pos + 5) as nat) {
                                Parsed::Fail(e) => Parsed::Fail(e),
                                Parsed::Done(e, p) => if p >= toks.len() {
                                    Parsed::Fail(sp_err_eof())
                                } else if !(toks[p as int].kind is Semicolon) {
                                    Parsed::Fail(sp_err("Expected semicolon"@, Some(toks[p as int])))
                                } else {
                                    Parsed::Done(
                                        SpecDeclaration {
                                            name,
                                            type_: ty,
                                            expression: Box::new(e),
                                        },
                                        (p + 1) as nat,
                                    )
                                },
                            }
                        },
                        None => Parsed::Fail(sp_err("Unknown type"@, Some(toks[pos as int + 3]))),
                    },
                    _ => Parsed::Fail(sp_err("Expected type"@, Some(toks[pos as int + 3]))),
                }
            },
            _ => Parsed::Fail(sp_err("Expected identifier"@, Some(toks[pos as int + 1]))),
        }
    }
}

/// The top level: declarations and bare `;`-terminated expressions, one
/// after the other, until the end-of-input token or the end of the stream.
pub open spec fn spec_parse_items(toks: Seq<SpecToken>, pos: nat, acc: Seq<SpecItem>) -> Parsed<
    Seq<SpecItem>,
>
    decreases remaining(toks, pos), 17int,
{
    if pos >= toks.len() {
        Parsed::Done(acc, pos)
    } else if toks[pos as int].kind is EOF {
        Parsed::Done(acc, pos)
    } else if toks[pos as int].kind is Let {
        match spec_parse_declaration(toks, pos) {
            Parsed::Fail(e) => Parsed::Fail(e),
            Parsed::Done(d, p) => if p <= pos {
                Parsed::Fail(sp_err_stuck())
            } else {
                spec_parse_items(toks, p, acc.push(SpecItem::Declaration(d)))
            },
        }
    } else {
        match spec_parse_expression(toks, pos) {
            Parsed::Fail(e) => Parsed::Fail(e),
            Parsed::Done(e, p) => if p <= pos {
                Parsed::Fail(sp_err_stuck())
            } else if p >= toks.len() {
                Parsed::Fail(sp_err_eof())
            } else if !(toks[p as int].kind is Semicolon) {
                Parsed::Fail(sp_err("Expected semicolon"@, Some(toks[p as int])))
            } else {
                spec_parse_items(toks, (p + 1) as nat, acc.push(SpecItem::Expression(e)))
            },
        }
    }
}

/// A whole program: the items of the token stream, parsed from its start.
pub open spec fn spec_parse(toks: Seq<SpecToken>) -> Parsed<Seq<SpecItem>> {
    spec_parse_items(toks, 0, Seq::empty())
}


/// How an execution-level result relates to what a spec mirror yields.
pub open spec fn parsed_expr_matches(p: Parsed<SpecExpression>, r: (Result<Expression, ParserError>, usize)) -> bool {
    match p {
        Parsed::Done(e, np) => match r.0 {
            Ok(v) => v@ == e && r.1 as nat == np,
            Err(_) => false,
        },
        Parsed::Fail(err) => match r.0 {
            Ok(_) => false,
            Err(v) => v@ == err,
        },
    }
}

/// How a parsed declaration relates to what the spec mirror yields.
pub open spec fn parsed_decl_matches(p: Parsed<SpecDeclaration>, r: (Result<Declaration, ParserError>, usize)) -> bool {
    match p {
        Parsed::Done(d, np) => match r.0 {
            Ok(v) => v@ == d && r.1 as nat == np,
            Err(_) => false,
        },
        Parsed::Fail(err) => match r.0 {
            Ok(_) => false,
            Err(v) => v@ == err,
        },
    }
}

/// How a parsed parameter list relates to what the spec mirror yields.
pub open spec fn parsed_params_matches(p: Parsed<Seq<SpecFunctionParameter>>, r: (Result<Vec<FunctionParameter>, ParserError>, usize)) -> bool {
    match p {
        Parsed::Done(d, np) => match r.0 {
            Ok(v) => view_params(v@) == d && r.1 as nat == np,
            Err(_) => false,
        },
        Parsed::Fail(err) => match r.0 {
            Ok(_) => false,
            Err(v) => v@ == err,
        },
    }
}

/// How a parsed expression list relates to what the spec mirror yields.
pub open spec fn parsed_exprs_matches(p: Parsed<Seq<SpecExpression>>, r: (Result<Vec<Expression>, ParserError>, usize)) -> bool {
    match p {
        Parsed::Done(d, np) => match r.0 {
            Ok(v) => view_exprs(v@) == d && r.1 as nat == np,
            Err(_) => false,
        },
        Parsed::Fail(err) => match r.0 {
            Ok(_) => false,
            Err(v) => v@ == err,
        },
    }
}

/// How a parsed item list relates to what the spec mirror yields.
pub open spec fn parsed_items_matches(p: Parsed<Seq<SpecItem>>, r: (Result<Vec<Item>, ParserError>, usize)) -> bool {
    match p {
        Parsed::Done(d, np) => match r.0 {
            Ok(v) => view_items(v@) == d && r.1 as nat == np,
            Err(_) => false,
        },
        Parsed::Fail(err) => match r.0 {
            Ok(_) => false,
            Err(v) => v@ == err,
        },
    }
}

/// The view of an optional boxed default expression.
pub open spec fn view_default(d: Option<Box<Expression>>) -> Option<Box<SpecExpression>> {
    match d {
        Some(b) => Some(Box::new(view_expr(*b))),
        None => None,
    }
}

/// A parse failure with the given message and offending token.
fn make_error(message: &str, token: Option<Token>) -> (r: ParserError)
    ensures
        r@ == sp_err(
            message@,
            match token {
                Some(t) => Some(t@),
                None => None,
            },
        ),
{
    ParserError { message: message.to_owned(), token }
}

/// The failure for a token stream that ends where more input is owed.
fn make_error_eof() -> (r: ParserError)
    ensures
        r@ == sp_err_eof(),
{
    ParserError { message: "Unexpected end of input".to_owned(), token: None }
}

/// The failure for a sub-parse that consumed nothing; unreachable in runs.
fn make_error_stuck() -> (r: ParserError)
    ensures
        r@ == sp_err_stuck(),
{
    ParserError { message: "Parser made no progress".to_owned(), token: None }
}

/// The declared type that a type name token denotes, if any.
fn type_of_name(s: &str) -> (r: Option<Type>)
    ensures
        r == spec_type_of(s@),
{
    let owned = s.to_owned();
    if owned == "num".to_owned() {
        Some(Type::Number)
    } else if owned == "char".to_owned() {
        Some(Type::Char)
    } else if owned == "bool".to_owned() {
        Some(Type::Boolean)
    } else if owned == "fn".to_owned() {
        Some(Type::Function)
    } else if owned == "[num]".to_owned() {
        Some(Type::Array(Box::new(Type::Number)))
    } else if owned == "[bool]".to_owned() {
        Some(Type::Array(Box::new(Type::Boolean)))
    } else if owned == "[char]".to_owned() {
        Some(Type::Array(Box::new(Type::Char)))
    } else if owned == "[fn]".to_owned() {
        Some(Type::Array(Box::new(Type::Function)))
    } else {
        None
    }
}

/// A string literal desugared into character expressions.
fn chars_exprs(s: &String) -> (r: Vec<Expression>)
    ensures
        view_exprs(r@) == spec_chars_exprs(s@),
{
    let mut out: Vec<Expression> = Vec::new();
    let n = s.as_str().unicode_len();
    let mut i: usize = 0;
    #[verifier::loop_isolation(false)]
    while i < n
        invariant
            n == s@.len(),
            i <= n,
            view_exprs(out@) =~= spec_chars_exprs(s@).take(i as int),
        decreases n - i,
    {
        let c = s.as_str().get_char(i);
        proof {
            lemma_view_exprs_push(out@, Expression::Char(c as u8));
            assert(spec_chars_exprs(s@).take(i as int).push(SpecExpression::Char(s@[i as int] as u8))
                =~= spec_chars_exprs(s@).take(i + 1));
        }
        out.push(Expression::Char(c as u8));
        i = i + 1;
    }
    proof {
        assert(spec_chars_exprs(s@).take(n as int) =~= spec_chars_exprs(s@));
    }
    out
}

/// Parses a parenthesized group, entered after its `(`.
fn parse_group(tokens: &Vec<Token>, pos: usize) -> (r: (Result<Expression, ParserError>, usize))
    ensures
        parsed_expr_matches(spec_parse_group(view_tokens(tokens@), pos as nat), r),
    decreases remaining(view_tokens(tokens@), pos as nat), 15int,
{
    proof {
        lemma_view_tokens_len(tokens@);
    }
    let (r0, p) = parse_expression(tokens, pos);
    match r0 {
        Err(e) => (Err(e), p),
        Ok(e) => if p >= tokens.len() {
            (Err(make_error_eof()), p)
        } else if matches!(&tokens[p].kind, TokenKind::RightParen) {
            (Ok(e), p + 1)
        } else {
            (Err(make_error("Expected right parenthesis", Some(tokens[p].clone()))), p)
        },
    }
}

/// Parses the parameter list of a function literal, entered after its `(`.
fn parse_params(tokens: &Vec<Token>, pos: usize, acc: Vec<FunctionParameter>) -> (r: (Result<
    Vec<FunctionParameter>,
    ParserError,
>, usize))
    ensures
        parsed_params_matches(
            spec_parse_params(view_tokens(tokens@), pos as nat, view_params(acc@)),
            r,
        ),
    decreases remaining(view_tokens(tokens@), pos as nat), 14int,
{
    proof {
        lemma_view_tokens_len(tokens@);
    }
    if pos >= tokens.len() {
        (Err(make_error_eof()), pos)
    } else {
        match &tokens[pos].kind {
            TokenKind::RightParen => (Ok(acc), pos + 1),
            TokenKind::Comma => parse_params(tokens, pos + 1, acc),
            TokenKind::Identifier(name) => if pos + 1 >= tokens.len() {
                (Err(make_error_eof()), pos)
            } else if !matches!(&tokens[pos + 1].kind, TokenKind::Colon) {
                (Err(make_error("Expected colon", Some(tokens[pos + 1].clone()))), pos)
            } else if pos + 2 >= tokens.len() {
                (Err(make_error_eof()), pos)
            } else {
                match &tokens[pos + 2].kind {
                    TokenKind::Type(t) => match type_of_name(t.as_str()) {
                        Some(ty) => {
                            let param = FunctionParameter { name: name.clone(), type_: ty };
                            let ghost old_acc = acc@;
                            let mut acc = acc;
                            proof {
                                lemma_view_params_push(old_acc, param);
                            }
                            acc.push(param);
                            parse_params(tokens, pos + 3, acc)
                        },
                        None => (
                            Err(make_error("Unknown type", Some(tokens[pos + 2].clone()))),
                            pos,
                        ),
                    },
                    _ => (Err(make_error("Expected type", Some(tokens[pos + 2].clone()))), pos),
                }
            },
            _ => (Err(make_error("Expected identifier", Some(tokens[pos].clone()))), pos),
        }
    }
}

/// Parses a function literal, entered after its `(`.
fn parse_function_declaration(tokens: &Vec<Token>, pos: usize) -> (r: (Result<
    Expression,
    ParserError,
>, usize))
    ensures
        parsed_expr_matches(spec_parse_function_declaration(view_tokens(tokens@), pos as nat), r),
    decreases remaining(view_tokens(tokens@), pos as nat), 15int,
{
    proof {
        lemma_view_tokens_len(tokens@);
    }
    let (r0, p) = parse_params(tokens, pos, Vec::new());
    match r0 {
        Err(e) => (Err(e), p),
        Ok(params) => if p <= pos {
            (Err(make_error_stuck()), p)
        } else if p >= tokens.len() {
            (Err(make_error_eof()), p)
        } else if !matches!(&tokens[p].kind, TokenKind::Colon) {
            (Err(make_error("Expected colon", Some(tokens[p].clone()))), p)
        } else if p + 1 >= tokens.len() {
            (Err(make_error_eof()), p)
        } else {
            match &tokens[p + 1].kind {
                TokenKind::Type(t) => match type_of_name(t.as_str()) {
                    Some(ty) => if p + 2 >= tokens.len() {
                        (Err(make_error_eof()), p)
                    } else if !matches!(&tokens[p + 2].kind, TokenKind::Arrow) {
                        (Err(make_error("Expected arrow", Some(tokens[p + 2].clone()))), p)
                    } else {
                        let (r1, p2) = parse_expression(tokens, p + 3);
                        match r1 {
                            Err(e) => (Err(e), p2),
                            Ok(body) => (
                                Ok(
                                    Expression::FunctionDeclaration(
                                        FunctionDeclaration {
                                            parameters: params,
                                            return_type: ty,
                                            expression: Box::new(body),
                                        },
                                    ),
                                ),
                                p2,
                            ),
                        }
                    },
                    None => (Err(make_error("Unknown type", Some(tokens[p + 1].clone()))), p),
                },
                _ => (Err(make_error("Expected type", Some(tokens[p + 1].clone()))), p),
            }
        },
    }
}

/// Parses the argument list of a call, entered after its `(`.
fn parse_args(tokens: &Vec<Token>, pos: usize, acc: Vec<Expression>) -> (r: (Result<
    Vec<Expression>,
    ParserError,
>, usize))
    ensures
        parsed_exprs_matches(
            spec_parse_args(view_tokens(tokens@), pos as nat, view_exprs(acc@)),
            r,
        ),
    decreases remaining(view_tokens(tokens@), pos as nat), 14int,
{
    proof {
        lemma_view_tokens_len(tokens@);
    }
    if pos >= tokens.len() {
        (Err(make_error_eof()), pos)
    } else {
        match &tokens[pos].kind {
            TokenKind::RightParen => (Ok(acc), pos + 1),
            TokenKind::Comma => parse_args(tokens, pos + 1, acc),
            _ => {
                let (r0, p) = parse_expression(tokens, pos);
                match r0 {
                    Err(e) => (Err(e), p),
                    Ok(e) => if p <= pos {
                        (Err(make_error_stuck()), p)
                    } else {
                        let ghost old_acc = acc@;
                        let mut acc = acc;
                        proof {
                            lemma_view_exprs_push(old_acc, e);
                        }
                        acc.push(e);
                        parse_args(tokens, p, acc)
                    },
                }
            },
        }
    }
}

/// Parses the element list of an array literal, entered after its `[`.
fn parse_elements(tokens: &Vec<Token>, pos: usize, acc: Vec<Expression>) -> (r: (Result<
    Vec<Expression>,
    ParserError,
>, usize))
    ensures
        parsed_exprs_matches(
            spec_parse_elements(view_tokens(tokens@), pos as nat, view_exprs(acc@)),
            r,
        ),
    decreases remaining(view_tokens(tokens@), pos as nat), 14int,
{
    proof {
        lemma_view_tokens_len(tokens@);
    }
    if pos >= tokens.len() {
        (Err(make_error_eof()), pos)
    } else {
        match &tokens[pos].kind {
            TokenKind::RightBracket => (Ok(acc), pos + 1),
            TokenKind::Comma => parse_elements(tokens, pos + 1, acc),
            _ => {
                let (r0, p) = parse_expression(tokens, pos);
                match r0 {
                    Err(e) => (Err(e), p),
                    Ok(e) => if p <= pos {
                        (Err(make_error_stuck()), p)
                    } else {
                        let ghost old_acc = acc@;
                        let mut acc = acc;
                        proof {
                            lemma_view_exprs_push(old_acc, e);
                        }
                        acc.push(e);
                        parse_elements(tokens, p, acc)
                    },
                }
            },
        }
    }
}

/// Parses the arms of a match, entered after its `{`.
#[verifier::spinoff_prover]
#[verifier::rlimit(60)]
fn parse_arms(
    tokens: &Vec<Token>,
    pos: usize,
    value: Expression,
    patterns: Vec<(Expression, Expression)>,
    default: Option<Box<Expression>>,
) -> (r: (Result<Expression, ParserError>, usize))
    ensures
        parsed_expr_matches(
            spec_parse_arms(
                view_tokens(tokens@),
                pos as nat,
                value@,
                view_arms(patterns@),
                view_default(default),
            ),
            r,
        ),
    decreases remaining(view_tokens(tokens@), pos as nat), 14int,
{
    proof {
        lemma_view_tokens_len(tokens@);
    }
    if pos >= tokens.len() {
        (Err(make_error_eof()), pos)
    } else {
        match &tokens[pos].kind {
            TokenKind::RightBrace => (
                Ok(Expression::Match(Match { value: Box::new(value), patterns, default })),
                pos + 1,
            ),
            TokenKind::Comma => parse_arms(tokens, pos + 1, value, patterns, default),
            _ => {
                let (r0, p) = parse_expression(tokens, pos);
                match r0 {
                    Err(e) => (Err(e), p),
                    Ok(cand) => if p <= pos {
                        (Err(make_error_stuck()), p)
                    } else if p >= tokens.len() {
                        (Err(make_error_eof()), p)
                    } else if matches!(&tokens[p].kind, TokenKind::RightBrace) {
                        parse_arms(tokens, p, value, patterns, Some(Box::new(cand)))
                    } else if matches!(&tokens[p].kind, TokenKind::Arrow) {
                        let (r1, p2) = parse_expression(tokens, p + 1);
                        match r1 {
                            Err(e) => (Err(e), p2),
                            Ok(result) => if p2 <= p {
                                (Err(make_error_stuck()), p2)
                            } else {
                                let arm = (cand, result);
                                let ghost old_patterns = patterns@;
                                let mut patterns = patterns;
                                proof {
                                    lemma_view_arms_push(old_patterns, arm);
                                }
                                patterns.push(arm);
                                parse_arms(tokens, p2, value, patterns, default)
                            },
                        }
                    } else {
                        (Err(make_error("Expected arrow or default", Some(tokens[p].clone()))), p)
                    },
                }
            },
        }
    }
}

/// Parses the optional match suffix after a primary ending at `pos`.
fn parse_suffix(tokens: &Vec<Token>, pos: usize, base: Expression) -> (r: (Result<
    Expression,
    ParserError,
>, usize))
    ensures
        parsed_expr_matches(spec_parse_suffix(view_tokens(tokens@), pos as nat, base@), r),
    decreases remaining(view_tokens(tokens@), pos as nat), 15int,
{
    proof {
        lemma_view_tokens_len(tokens@);
    }
    if pos < tokens.len() && matches!(&tokens[pos].kind, TokenKind::Question) {
        if pos + 1 >= tokens.len() {
            (Err(make_error_eof()), pos)
        } else if matches!(&tokens[pos + 1].kind, TokenKind::LeftBrace) {
            parse_arms(tokens, pos + 2, base, Vec::new(), None)
        } else {
            (Err(make_error("Expected left brace", Some(tokens[pos + 1].clone()))), pos)
        }
    } else {
        (Ok(base), pos)
    }
}

/// Parses a primary expression and its optional match suffix.
pub fn parse_primary(tokens: &Vec<Token>, pos: usize) -> (r: (Result<Expression, ParserError>, usize))
    ensures
        parsed_expr_matches(spec_parse_primary(view_tokens(tokens@), pos as nat), r),
    decreases remaining(view_tokens(tokens@), pos as nat), 3int,
{
    proof {
        lemma_view_tokens_len(tokens@);
    }
    if pos >= tokens.len() {
        (Err(make_error_eof()), pos)
    } else {
        match &tokens[pos].kind {
            TokenKind::Identifier(name) => if pos + 1 >= tokens.len() {
                (Err(make_error_eof()), pos)
            } else if matches!(&tokens[pos + 1].kind, TokenKind::LeftParen) {
                let (r0, p) = parse_args(tokens, pos + 2, Vec::new());
                match r0 {
                    Err(e) => (Err(e), p),
                    Ok(args) => if p <= pos {
                        (Err(make_error_stuck()), p)
                    } else {
                        parse_suffix(
                            tokens,
                            p,
                            Expression::FunctionCall(
                                FunctionCall { name: name.clone(), arguments: args },
                            ),
                        )
                    },
                }
            } else {
                parse_suffix(tokens, pos + 1, Expression::Identifier(name.clone()))
            },
            TokenKind::LeftParen => {
                let (r0, p) = parse_group(tokens, pos + 1);
                match r0 {
                    Ok(e) => if p <= pos {
                        (Err(make_error_stuck()), p)
                    } else {
                        parse_suffix(tokens, p, e)
                    },
                    Err(_) => {
                        let (r1, p2) = parse_function_declaration(tokens, pos + 1);
                        match r1 {
                            Err(e) => (Err(e), p2),
                            Ok(f) => if p2 <= pos {
                                (Err(make_error_stuck()), p2)
                            } else {
                                parse_suffix(tokens, p2, f)
                            },
                        }
                    },
                }
            },
            TokenKind::Number(v) => parse_suffix(tokens, pos + 1, Expression::Number(*v)),
            TokenKind::Character(c) => parse_suffix(tokens, pos + 1, Expression::Char(*c)),
            TokenKind::Boolean(b) => parse_suffix(tokens, pos + 1, Expression::Bool(*b)),
            TokenKind::String(s) => {
                let elems = chars_exprs(s);
                parse_suffix(tokens, pos + 1, Expression::Array(Type::Char, elems))
            },
            TokenKind::LeftBracket => {
                let (r0, p) = parse_elements(tokens, pos + 1, Vec::new());
                match r0 {
                    Err(e) => (Err(e), p),
                    Ok(elems) => if p <= pos {
                        (Err(make_error_stuck()), p)
                    } else {
                        parse_suffix(tokens, p, Expression::Array(Type::Number, elems))
                    },
                }
            },
            _ => (Err(make_error("Unexpected token", Some(tokens[pos].clone()))), pos),
        }
    }
}

/// Parses a unary expression; the grammar has no unary operators.
pub fn parse_unary(tokens: &Vec<Token>, pos: usize) -> (r: (Result<Expression, ParserError>, usize))
    ensures
        parsed_expr_matches(spec_parse_unary(view_tokens(tokens@), pos as nat), r),
    decreases remaining(view_tokens(tokens@), pos as nat), 4int,
{
    parse_primary(tokens, pos)
}


/// Folds `left op right` into a left-leaning binary operation.
fn binop(op: BinaryOperator, left: Expression, right: Expression) -> (r: Expression)
    ensures
        r@ == sp_binop(op, left@, right@),
{
    Expression::BinaryOperation(
        BinaryOperation { operator: op, left: Box::new(left), right: Box::new(right) },
    )
}

/// The factor operator ahead at `pos`, if any.
fn factor_op(k: &TokenKind) -> (r: Option<BinaryOperator>)
    ensures
        r == spec_factor_op(k@),
{
    match k {
        TokenKind::Multiplication => Some(BinaryOperator::Multiply),
        TokenKind::Division => Some(BinaryOperator::Divide),
        TokenKind::Modulus => Some(BinaryOperator::Modulo),
        _ => None,
    }
}

/// The term operator ahead at `pos`, if any.
fn term_op(k: &TokenKind) -> (r: Option<BinaryOperator>)
    ensures
        r == spec_term_op(k@),
{
    match k {
        TokenKind::Addition => Some(BinaryOperator::Add),
        TokenKind::Subtraction => Some(BinaryOperator::Subtract),
        _ => None,
    }
}

/// The comparison operator ahead at `pos`, if any.
fn comparison_op(k: &TokenKind) -> (r: Option<BinaryOperator>)
    ensures
        r == spec_comparison_op(k@),
{
    match k {
        TokenKind::LessThan => Some(BinaryOperator::LessThan),
        TokenKind::LessEqualThan => Some(BinaryOperator::LessEqualThan),
        TokenKind::GreaterThan => Some(BinaryOperator::GreaterThan),
        TokenKind::GreaterEqualThan => Some(BinaryOperator::GreaterEqualThan),
        _ => None,
    }
}

/// The equality operator ahead at `pos`, if any.
fn equality_op(k: &TokenKind) -> (r: Option<BinaryOperator>)
    ensures
        r == spec_equality_op(k@),
{
    match k {
        TokenKind::Equal => Some(BinaryOperator::Equal),
        TokenKind::NotEqual => Some(BinaryOperator::NotEqual),
        _ => None,
    }
}

/// Folds further unary operands into the factor built so far.
fn parse_factor_tail(tokens: &Vec<Token>, pos: usize, acc: Expression) -> (r: (Result<
    Expression,
    ParserError,
>, usize))
    ensures
        parsed_expr_matches(spec_parse_factor_tail(view_tokens(tokens@), pos as nat, acc@), r),
    decreases remaining(view_tokens(tokens@), pos as nat), 5int,
{
    proof {
        lemma_view_tokens_len(tokens@);
    }
    if pos < tokens.len() {
        let op = factor_op(&tokens[pos].kind);
        match op {
            Some(op) => {
                let (r0, p) = parse_unary(tokens, pos + 1);
                match r0 {
                    Err(e) => (Err(e), p),
                    Ok(right) => if p <= pos {
                        (Err(make_error_stuck()), p)
                    } else {
                        parse_factor_tail(tokens, p, binop(op, acc, right))
                    },
                }
            },
            None => (Ok(acc), pos),
        }
    } else {
        (Ok(acc), pos)
    }
}

/// Parses a factor: unary expressions joined by `*`, `/` and `%`.
pub fn parse_factor(tokens: &Vec<Token>, pos: usize) -> (r: (Result<Expression, ParserError>, usize))
    ensures
        parsed_expr_matches(spec_parse_factor(view_tokens(tokens@), pos as nat), r),
    decreases remaining(view_tokens(tokens@), pos as nat), 6int,
{
    let (r0, p) = parse_unary(tokens, pos);
    match r0 {
        Err(e) => (Err(e), p),
        Ok(e) => if p < pos {
            (Err(make_error_stuck()), p)
        } else {
            parse_factor_tail(tokens, p, e)
        },
    }
}

/// Folds further factor operands into the term built so far.
fn parse_term_tail(tokens: &Vec<Token>, pos: usize, acc: Expression) -> (r: (Result<
    Expression,
    ParserError,
>, usize))
    ensures
        parsed_expr_matches(spec_parse_term_tail(view_tokens(tokens@), pos as nat, acc@), r),
    decreases remaining(view_tokens(tokens@), pos as nat), 7int,
{
    proof {
        lemma_view_tokens_len(tokens@);
    }
    if pos < tokens.len() {
        let op = term_op(&tokens[pos].kind);
        match op {
            Some(op) => {
                let (r0, p) = parse_factor(tokens, pos + 1);
                match r0 {
                    Err(e) => (Err(e), p),
                    Ok(right) => if p <= pos {
                        (Err(make_error_stuck()), p)
                    } else {
                        parse_term_tail(tokens, p, binop(op, acc, right))
                    },
                }
            },
            None => (Ok(acc), pos),
        }
    } else {
        (Ok(acc), pos)
    }
}

/// Parses a term: factors joined by `+` and `-`.
pub fn parse_term(tokens: &Vec<Token>, pos: usize) -> (r: (Result<Expression, ParserError>, usize))
    ensures
        parsed_expr_matches(spec_parse_term(view_tokens(tokens@), pos as nat), r),
    decreases remaining(view_tokens(tokens@), pos as nat), 8int,
{
    let (r0, p) = parse_factor(tokens, pos);
    match r0 {
        Err(e) => (Err(e), p),
        Ok(e) => if p < pos {
            (Err(make_error_stuck()), p)
        } else {
            parse_term_tail(tokens, p, e)
        },
    }
}

/// Folds further term operands into the comparison built so far.
fn parse_comparison_tail(tokens: &Vec<Token>, pos: usize, acc: Expression) -> (r: (Result<
    Expression,
    ParserError,
>, usize))
    ensures
        parsed_expr_matches(spec_parse_comparison_tail(view_tokens(tokens@), pos as nat, acc@), r),
    decreases remaining(view_tokens(tokens@), pos as nat), 9int,
{
    proof {
        lemma_view_tokens_len(tokens@);
    }
    if pos < tokens.len() {
        let op = comparison_op(&tokens[pos].kind);
        match op {
            Some(op) => {
                let (r0, p) = parse_term(tokens, pos + 1);
                match r0 {
                    Err(e) => (Err(e), p),
                    Ok(right) => if p <= pos {
                        (Err(make_error_stuck()), p)
                    } else {
                        parse_comparison_tail(tokens, p, binop(op, acc, right))
                    },
                }
            },
            None => (Ok(acc), pos),
        }
    } else {
        (Ok(acc), pos)
    }
}

/// Parses a comparison: terms joined by `<`, `<=`, `>` and `>=`.
pub fn parse_comparison(tokens: &Vec<Token>, pos: usize) -> (r: (Result<
    Expression,
    ParserError,
>, usize))
    ensures
        parsed_expr_matches(spec_parse_comparison(view_tokens(tokens@), pos as nat), r),
    decreases remaining(view_tokens(tokens@), pos as nat), 10int,
{
    let (r0, p) = parse_term(tokens, pos);
    match r0 {
        Err(e) => (Err(e), p),
        Ok(e) => if p < pos {
            (Err(make_error_stuck()), p)
        } else {
            parse_comparison_tail(tokens, p, e)
        },
    }
}

/// Folds further comparison operands into the equality built so far.
fn parse_equality_tail(tokens: &Vec<Token>, pos: usize, acc: Expression) -> (r: (Result<
    Expression,
    ParserError,
>, usize))
    ensures
        parsed_expr_matches(spec_parse_equality_tail(view_tokens(tokens@), pos as nat, acc@), r),
    decreases remaining(view_tokens(tokens@), pos as nat), 11int,
{
    proof {
        lemma_view_tokens_len(tokens@);
    }
    if pos < tokens.len() {
        let op = equality_op(&tokens[pos].kind);
        match op {
            Some(op) => {
                let (r0, p) = parse_comparison(tokens, pos + 1);
                match r0 {
                    Err(e) => (Err(e), p),
                    Ok(right) => if p <= pos {
                        (Err(make_error_stuck()), p)
                    } else {
                        parse_equality_tail(tokens, p, binop(op, acc, right))
                    },
                }
            },
            None => (Ok(acc), pos),
        }
    } else {
        (Ok(acc), pos)
    }
}

/// Parses an equality: comparisons joined by `==` and `!=`.
pub fn parse_equality(tokens: &Vec<Token>, pos: usize) -> (r: (Result<Expression, ParserError>, usize))
    ensures
        parsed_expr_matches(spec_parse_equality(view_tokens(tokens@), pos as nat), r),
    decreases remaining(view_tokens(tokens@), pos as nat), 12int,
{
    let (r0, p) = parse_comparison(tokens, pos);
    match r0 {
        Err(e) => (Err(e), p),
        Ok(e) => if p < pos {
            (Err(make_error_stuck()), p)
        } else {
            parse_equality_tail(tokens, p, e)
        },
    }
}

/// Parses a full expression: the lowest-precedence level, an equality.
pub fn parse_expression(tokens: &Vec<Token>, pos: usize) -> (r: (Result<
    Expression,
    ParserError,
>, usize))
    ensures
        parsed_expr_matches(spec_parse_expression(view_tokens(tokens@), pos as nat), r),
    decreases remaining(view_tokens(tokens@), pos as nat), 13int,
{
    parse_equality(tokens, pos)
}

/// Parses a declaration: `let` name `:` type `=` expression `;`.
pub fn parse_declaration(tokens: &Vec<Token>, pos: usize) -> (r: (Result<
    Declaration,
    ParserError,
>, usize))
    ensures
        parsed_decl_matches(spec_parse_declaration(view_tokens(tokens@), pos as nat), r),
    decreases remaining(view_tokens(tokens@), pos as nat), 16int,
{
    proof {
        lemma_view_tokens_len(tokens@);
    }
    if pos >= tokens.len() {
        (Err(make_error_eof()), pos)
    } else if !matches!(&tokens[pos].kind, TokenKind::Let) {
        (Err(make_error("Expected let", Some(tokens[pos].clone()))), pos)
    } else if pos + 1 >= tokens.len() {
        (Err(make_error_eof()), pos)
    } else {
        match &tokens[pos + 1].kind {
            TokenKind::Identifier(name) => if pos + 2 >= tokens.len() {
                (Err(make_error_eof()), pos)
            } else if !matches!(&tokens[pos + 2].kind, TokenKind::Colon) {
                (Err(make_error("Expected colon", Some(tokens[pos + 2].clone()))), pos)
            } else if pos + 3 >= tokens.len() {
                (Err(make_error_eof()), pos)
            } else {
                match &tokens[pos + 3].kind {
                    TokenKind::Type(t) => match type_of_name(t.as_str()) {
                        Some(ty) => if pos + 4 >= tokens.len() {
                            (Err(make_error_eof()), pos)
                        } else if !matches!(&tokens[pos + 4].kind, TokenKind::Assignment) {
                            (Err(make_error("Expected assignment", Some(tokens[pos + 4].clone()))), pos)
                        } else {
                            let (r0, p) = parse_expression(tokens, pos + 5);
                            match r0 {
                                Err(e) => (Err(e), p),
                                Ok(e) => if p >= tokens.len() {
                                    (Err(make_error_eof()), p)
                                } else if !matches!(&tokens[p].kind, TokenKind::Semicolon) {
                                    (Err(make_error("Expected semicolon", Some(tokens[p].clone()))), p)
                                } else {
                                    (
                                        Ok(
                                            Declaration {
                                                name: name.clone(),
                                                type_: ty,
                                                expression: Box::new(e),
                                            },
                                        ),
                                        p + 1,
                                    )
                                },
                            }
                        },
                        None => (Err(make_error("Unknown type", Some(tokens[pos + 3].clone()))), pos),
                    },
                    _ => (Err(make_error("Expected type", Some(tokens[pos + 3].clone()))), pos),
                }
            },
            _ => (Err(make_error("Expected identifier", Some(tokens[pos + 1].clone()))), pos),
        }
    }
}

/// Parses items until the end-of-input token or the end of the stream.
#[verifier::spinoff_prover]
#[verifier::rlimit(60)]
fn parse_items(tokens: &Vec<Token>, pos: usize, acc: Vec<Item>) -> (r: (Result<
    Vec<Item>,
    ParserError,
>, usize))
    ensures
        parsed_items_matches(
            spec_parse_items(view_tokens(tokens@), pos as nat, view_items(acc@)),
            r,
        ),
    decreases remaining(view_tokens(tokens@), pos as nat), 17int,
{
    proof {
        lemma_view_tokens_len(tokens@);
    }
    if pos >= tokens.len() {
        (Ok(acc), pos)
    } else if matches!(&tokens[pos].kind, TokenKind::EOF) {
        (Ok(acc), pos)
    } else if matches!(&tokens[pos].kind, TokenKind::Let) {
        let (r0, p) = parse_declaration(tokens, pos);
        match r0 {
            Err(e) => (Err(e), p),
            Ok(d) => if p <= pos {
                (Err(make_error_stuck()), p)
            } else {
                let item = Item::Declaration(d);
                let ghost old_acc = acc@;
                let mut acc = acc;
                proof {
                    lemma_view_items_push(old_acc, item);
                }
                acc.push(item);
                parse_items(tokens, p, acc)
            },
        }
    } else {
        let (r0, p) = parse_expression(tokens, pos);
        match r0 {
            Err(e) => (Err(e), p),
            Ok(e) => if p <= pos {
                (Err(make_error_stuck()), p)
            } else if p >= tokens.len() {
                (Err(make_error_eof()), p)
            } else if !matches!(&tokens[p].kind, TokenKind::Semicolon) {
                (Err(make_error("Expected semicolon", Some(tokens[p].clone()))), p)
            } else {
                let item = Item::Expression(e);
                let ghost old_acc = acc@;
                let mut acc = acc;
                proof {
                    lemma_view_items_push(old_acc, item);
                }
                acc.push(item);
                parse_items(tokens, p + 1, acc)
            },
        }
    }
}

/// Parses a whole program: its items, from the start of the token stream.
pub fn parse(tokens: &Vec<Token>) -> (r: Result<Vec<Item>, ParserError>)
    ensures
        match spec_parse(view_tokens(tokens@)) {
            Parsed::Done(items, _) => match r {
                Ok(v) => view_items(v@) == items,
                Err(_) => false,
            },
            Parsed::Fail(err) => match r {
                Ok(_) => false,
                Err(v) => v@ == err,
            },
        },
{
    let (r0, _p) = parse_items(tokens, 0, Vec::new());
    r0
}

} // verus!
