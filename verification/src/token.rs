use vstd::prelude::*;

verus! {

/// The kind of a token handed to the parser by the tokenizer.
///
/// A number literal is carried as the bit pattern of the IEEE 754 binary64
/// value it denotes, so that the token stream holds plain values only.
#[derive(Debug, PartialEq)]
pub enum TokenKind {
    // keywords
    Let,
    // types and values
    Type(String),
    Character(u8),
    Number(u64),
    String(String),
    Boolean(bool),
    Function,
    // separators
    LeftParen,
    RightParen,
    LeftBracket,
    RightBracket,
    LeftBrace,
    RightBrace,
    Comma,
    Colon,
    Semicolon,
    Pipe,
    // identifiers
    Identifier(String),
    // operators
    Addition,
    Subtraction,
    Multiplication,
    Division,
    Not,
    Modulus,
    // assignment, function arrow, match introduction
    Assignment,
    Arrow,
    Question,
    // equality and comparison
    Equal,
    NotEqual,
    GreaterThan,
    LessThan,
    GreaterEqualThan,
    LessEqualThan,
    // end of input
    EOF,
}

/// Mathematical model of a token kind: text payloads become character sequences.
pub enum SpecTokenKind {
    Let,
    Type(Seq<char>),
    Character(u8),
    Number(u64),
    String(Seq<char>),
    Boolean(bool),
    Function,
    LeftParen,
    RightParen,
    LeftBracket,
    RightBracket,
    LeftBrace,
    RightBrace,
    Comma,
    Colon,
    Semicolon,
    Pipe,
    Identifier(Seq<char>),
    Addition,
    Subtraction,
    Multiplication,
    Division,
    Not,
    Modulus,
    Assignment,
    Arrow,
    Question,
    Equal,
    NotEqual,
    GreaterThan,
    LessThan,
    GreaterEqualThan,
    LessEqualThan,
    EOF,
}

impl View for TokenKind {
    type V = SpecTokenKind;

    open spec fn view(&self) -> SpecTokenKind {
        match self {
            TokenKind::Let => SpecTokenKind::Let,
            TokenKind::Type(s) => SpecTokenKind::Type(s@),
            TokenKind::Character(c) => SpecTokenKind::Character(*c),
            TokenKind::Number(n) => SpecTokenKind::Number(*n),
            TokenKind::String(s) => SpecTokenKind::String(s@),
            TokenKind::Boolean(b) => SpecTokenKind::Boolean(*b),
            TokenKind::Function => SpecTokenKind::Function,
            TokenKind::LeftParen => SpecTokenKind::LeftParen,
            TokenKind::RightParen => SpecTokenKind::RightParen,
            TokenKind::LeftBracket => SpecTokenKind::LeftBracket,
            TokenKind::RightBracket => SpecTokenKind::RightBracket,
            TokenKind::LeftBrace => SpecTokenKind::LeftBrace,
            TokenKind::RightBrace => SpecTokenKind::RightBrace,
            TokenKind::Comma => SpecTokenKind::Comma,
            TokenKind::Colon => SpecTokenKind::Colon,
            TokenKind::Semicolon => SpecTokenKind::Semicolon,
            TokenKind::Pipe => SpecTokenKind::Pipe,
            TokenKind::Identifier(s) => SpecTokenKind::Identifier(s@),
            TokenKind::Addition => SpecTokenKind::Addition,
            TokenKind::Subtraction => SpecTokenKind::Subtraction,
            TokenKind::Multiplication => SpecTokenKind::Multiplication,
            TokenKind::Division => SpecTokenKind::Division,
            TokenKind::Not => SpecTokenKind::Not,
            TokenKind::Modulus => SpecTokenKind::Modulus,
            TokenKind::Assignment => SpecTokenKind::Assignment,
            TokenKind::Arrow => SpecTokenKind::Arrow,
            TokenKind::Question => SpecTokenKind::Question,
            TokenKind::Equal => SpecTokenKind::Equal,
            TokenKind::NotEqual => SpecTokenKind::NotEqual,
            TokenKind::GreaterThan => SpecTokenKind::GreaterThan,
            TokenKind::LessThan => SpecTokenKind::LessThan,
            TokenKind::GreaterEqualThan => SpecTokenKind::GreaterEqualThan,
            TokenKind::LessEqualThan => SpecTokenKind::LessEqualThan,
            TokenKind::EOF => SpecTokenKind::EOF,
        }
    }
}

impl Clone for TokenKind {
    fn clone(&self) -> (r: Self)
        ensures
            r@ == self@,
    {
        match self {
            TokenKind::Let => TokenKind::Let,
            TokenKind::Type(s) => TokenKind::Type(s.clone()),
            TokenKind::Character(c) => TokenKind::Character(*c),
            TokenKind::Number(n) => TokenKind::Number(*n),
            TokenKind::String(s) => TokenKind::String(s.clone()),
            TokenKind::Boolean(b) => TokenKind::Boolean(*b),
            TokenKind::Function => TokenKind::Function,
            TokenKind::LeftParen => TokenKind::LeftParen,
            TokenKind::RightParen => TokenKind::RightParen,
            TokenKind::LeftBracket => TokenKind::LeftBracket,
            TokenKind::RightBracket => TokenKind::RightBracket,
            TokenKind::LeftBrace => TokenKind::LeftBrace,
            TokenKind::RightBrace => TokenKind::RightBrace,
            TokenKind::Comma => TokenKind::Comma,
            TokenKind::Colon => TokenKind::Colon,
            TokenKind::Semicolon => TokenKind::Semicolon,
            TokenKind::Pipe => TokenKind::Pipe,
            TokenKind::Identifier(s) => TokenKind::Identifier(s.clone()),
            TokenKind::Addition => TokenKind::Addition,
            TokenKind::Subtraction => TokenKind::Subtraction,
            TokenKind::Multiplication => TokenKind::Multiplication,
            TokenKind::Division => TokenKind::Division,
            TokenKind::Not => TokenKind::Not,
            TokenKind::Modulus => TokenKind::Modulus,
            TokenKind::Assignment => TokenKind::Assignment,
            TokenKind::Arrow => TokenKind::Arrow,
            TokenKind::Question => TokenKind::Question,
            TokenKind::Equal => TokenKind::Equal,
            TokenKind::NotEqual => TokenKind::NotEqual,
            TokenKind::GreaterThan => TokenKind::GreaterThan,
            TokenKind::LessThan => TokenKind::LessThan,
            TokenKind::GreaterEqualThan => TokenKind::GreaterEqualThan,
            TokenKind::LessEqualThan => TokenKind::LessEqualThan,
            TokenKind::EOF => TokenKind::EOF,
        }
    }
}

/// A token with its source span. `begin` and `end` are inclusive character
/// offsets into the source text, used only for diagnostics.
#[derive(Debug, PartialEq)]
pub struct Token {
    pub kind: TokenKind,
    pub begin: usize,
    pub end: usize,
}

/// Mathematical model of a token.
pub struct SpecToken {
    pub kind: SpecTokenKind,
    pub begin: nat,
    pub end: nat,
}

impl View for Token {
    type V = SpecToken;

    open spec fn view(&self) -> SpecToken {
        SpecToken { kind: self.kind@, begin: self.begin as nat, end: self.end as nat }
    }
}

impl Clone for Token {
    fn clone(&self) -> (r: Self)
        ensures
            r@ == self@,
    {
        Token { kind: self.kind.clone(), begin: self.begin, end: self.end }
    }
}

impl Token {
    pub fn new(kind: TokenKind, begin: usize, end: usize) -> (r: Token)
        ensures
            r@.kind == kind@,
            r@.begin == begin as nat,
            r@.end == end as nat,
    {
        Token { kind, begin, end }
    }
}

/// Whether `s` reads as `lit`.
pub fn str_eq(s: &String, lit: &str) -> (r: bool)
    ensures
        r == (s@ == lit@),
{
    let other = lit.to_owned();
    *s == other
}

/// Relies on String::push: the string with one character appended.
#[verifier::external_body]
pub fn push_char(s: &mut String, c: char)
    ensures
        final(s)@ == old(s)@.push(c),
{
    s.push(c);
}

/// The views of a sequence of tokens, in order.
pub open spec fn view_tokens(s: Seq<Token>) -> Seq<SpecToken>
    decreases s,
{
    if s.len() == 0 {
        Seq::empty()
    } else {
        seq![s[0]@] + view_tokens(s.drop_first())
    }
}

pub proof fn lemma_view_tokens_len(s: Seq<Token>)
    ensures
        view_tokens(s).len() == s.len(),
        forall|i: int| 0 <= i < s.len() ==> view_tokens(s)[i] == s[i]@,
    decreases s,
{
    if s.len() > 0 {
        lemma_view_tokens_len(s.drop_first());
    }
}

pub proof fn lemma_view_tokens_push(s: Seq<Token>, t: Token)
    ensures
        view_tokens(s.push(t)) =~= view_tokens(s).push(t@),
    decreases s,
{
    lemma_view_tokens_len(s);
    lemma_view_tokens_len(s.push(t));
    assert forall|i: int| 0 <= i < s.len() + 1 implies view_tokens(s.push(t))[i]
        == view_tokens(s).push(t@)[i] by {
        if i < s.len() {
            assert(s.push(t)[i] == s[i]);
        } else {
            assert(s.push(t)[i] == t);
        }
    }
}

} // verus!
