//! The tokenizer: turns source text into the ordered token sequence the
//! parser consumes. Each token carries its inclusive character span for
//! diagnostics. The stream always ends with the end-of-input token.

use vstd::prelude::*;

pub use crate::token::Token;
pub use crate::token::TokenKind;

use crate::num::literal_to_bits;
use crate::num::num_of_literal;
use crate::token::view_tokens;
use crate::token::SpecToken;
use crate::token::SpecTokenKind;

verus! {

/// A tokenizing failure: a message and the character position it points at.
#[derive(Debug, PartialEq)]
pub struct LexerError {
    pub message: String,
    pub position: usize,
}

/// The whitespace characters the tokenizer skips.
pub open spec fn spec_is_ws(c: char) -> bool {
    c == ' ' || c == '\t' || c == '\n' || c == '\r'
}

/// A decimal digit.
pub open spec fn spec_is_digit(c: char) -> bool {
    '0' <= c && c <= '9'
}

/// A character of a number literal: a digit or the decimal dot.
pub open spec fn spec_is_num_char(c: char) -> bool {
    spec_is_digit(c) || c == '.'
}

/// A character of a word: a letter, a digit or an underscore.
pub open spec fn spec_is_word_char(c: char) -> bool {
    ('a' <= c && c <= 'z') || ('A' <= c && c <= 'Z') || spec_is_digit(c) || c == '_'
}

/// A character of a type name, bracket forms included.
pub open spec fn spec_is_type_char(c: char) -> bool {
    ('a' <= c && c <= 'z') || spec_is_digit(c) || c == '_' || c == '[' || c == ']'
}

/// The first position at or after `pos` that holds no whitespace.
pub open spec fn ws_end(s: Seq<char>, pos: int) -> int
    decreases s.len() - pos,
{
    if 0 <= pos < s.len() && spec_is_ws(s[pos]) {
        ws_end(s, pos + 1)
    } else {
        pos
    }
}

/// The first position at or after `pos` outside the number-literal run.
pub open spec fn num_end(s: Seq<char>, pos: int) -> int
    decreases s.len() - pos,
{
    if 0 <= pos < s.len() && spec_is_num_char(s[pos]) {
        num_end(s, pos + 1)
    } else {
        pos
    }
}

/// The first position at or after `pos` outside the word run.
pub open spec fn word_end(s: Seq<char>, pos: int) -> int
    decreases s.len() - pos,
{
    if 0 <= pos < s.len() && spec_is_word_char(s[pos]) {
        word_end(s, pos + 1)
    } else {
        pos
    }
}

/// The first position at or after `pos` outside the type-name run.
pub open spec fn type_end(s: Seq<char>, pos: int) -> int
    decreases s.len() - pos,
{
    if 0 <= pos < s.len() && spec_is_type_char(s[pos]) {
        type_end(s, pos + 1)
    } else {
        pos
    }
}

/// The token kind a bare word denotes: a keyword, a boolean literal, the
/// word operator `mod`, or an identifier.
pub open spec fn spec_word_kind(s: Seq<char>) -> SpecTokenKind {
    if s == "let"@ {
        SpecTokenKind::Let
    } else if s == "fn"@ {
        SpecTokenKind::Function
    } else if s == "mod"@ {
        SpecTokenKind::Modulus
    } else if s == "true"@ {
        SpecTokenKind::Boolean(true)
    } else if s == "false"@ {
        SpecTokenKind::Boolean(false)
    } else {
        SpecTokenKind::Identifier(s)
    }
}

/// Whether `c` belongs to a number literal.
pub fn is_num_char(c: char) -> (r: bool)
    ensures
        r == spec_is_num_char(c),
{
    ('0' <= c && c <= '9') || c == '.'
}

/// Whether `c` belongs to a word.
pub fn is_word_char(c: char) -> (r: bool)
    ensures
        r == spec_is_word_char(c),
{
    ('a' <= c && c <= 'z') || ('A' <= c && c <= 'Z') || ('0' <= c && c <= '9') || c == '_'
}

/// Whether `c` belongs to a type name.
pub fn is_type_char(c: char) -> (r: bool)
    ensures
        r == spec_is_type_char(c),
{
    ('a' <= c && c <= 'z') || ('0' <= c && c <= '9') || c == '_' || c == '[' || c == ']'
}

/// Whether `c` is whitespace the tokenizer skips.
pub fn is_ws_char(c: char) -> (r: bool)
    ensures
        r == spec_is_ws(c),
{
    c == ' ' || c == '\t' || c == '\n' || c == '\r'
}

/// Skips whitespace: the position of the first non-whitespace character at
/// or after `pos`, or the text's end.
pub fn consume_whitespace(chars: &Vec<char>, pos: usize) -> (r: usize)
    requires
        pos <= chars@.len(),
    ensures
        r == ws_end(chars@, pos as int),
        pos <= r <= chars@.len(),
    decreases chars@.len() - pos,
{
    if pos < chars.len() && is_ws_char(chars[pos]) {
        consume_whitespace(chars, pos + 1)
    } else {
        pos
    }
}

/// The text's characters, in order.
pub fn text_chars(input: &str) -> (r: Vec<char>)
    ensures
        r@ == input@,
{
    let n = input.unicode_len();
    let mut out: Vec<char> = Vec::new();
    let mut i: usize = 0;
    #[verifier::loop_isolation(false)]
    while i < n
        invariant
            i <= n,
            n == input@.len(),
            out@ =~= input@.take(i as int),
        decreases n - i,
    {
        let c = input.get_char(i);
        out.push(c);
        proof {
            assert(out@ =~= input@.take(i + 1));
        }
        i = i + 1;
    }
    proof {
        assert(input@.take(n as int) =~= input@);
    }
    out
}

/// The given character run as a string.
fn collect_chars(chars: &Vec<char>, from: usize, to: usize) -> (r: String)
    requires
        from <= to <= chars@.len(),
    ensures
        r@ == chars@.subrange(from as int, to as int),
{
    let mut out = String::new();
    let mut i = from;
    #[verifier::loop_isolation(false)]
    while i < to
        invariant
            from <= i <= to,
            out@ =~= chars@.subrange(from as int, i as int),
        decreases to - i,
    {
        crate::token::push_char(&mut out, chars[i]);
        proof {
            assert(out@ =~= chars@.subrange(from as int, i + 1));
        }
        i = i + 1;
    }
    out
}

/// Reads a number literal beginning at `pos`: the run of digits and dots,
/// read as a binary64 value. A run that is no valid literal (say, one with
/// two dots) is a tokenizing failure.
pub fn parse_number(chars: &Vec<char>, pos: usize) -> (r: Result<(Token, usize), LexerError>)
    requires
        pos < chars@.len(),
        spec_is_num_char(chars@[pos as int]),
    ensures
        match r {
            Ok((t, p)) => {
                &&& p == num_end(chars@, pos as int)
                &&& t@.kind == SpecTokenKind::Number(
                    num_of_literal(chars@.subrange(pos as int, p as int))->Some_0,
                )
                &&& num_of_literal(chars@.subrange(pos as int, p as int)) is Some
                &&& t@.begin == pos as nat
                &&& t@.end == (p - 1) as nat
                &&& pos < p <= chars@.len()
            },
            Err(e) => e@ == SpecLexerError {
                message: "Invalid number literal"@,
                position: pos as nat,
            } && num_of_literal(
                chars@.subrange(pos as int, num_end(chars@, pos as int)),
            ) is None && pos < num_end(chars@, pos as int) <= chars@.len(),
        },
    decreases chars@.len() - pos,
{
    let n = chars.len();
    let mut end = pos + 1;
    #[verifier::loop_isolation(false)]
    while end < n && is_num_char(chars[end])
        invariant
            pos + 1 <= end <= chars@.len(),
            num_end(chars@, pos as int) == num_end(chars@, end as int),
        decreases chars@.len() - end,
    {
        end = end + 1;
    }
    let text = collect_chars(chars, pos, end);
    let bits = literal_to_bits(text.as_str());
    match bits {
        Some(b) => Ok((Token { kind: TokenKind::Number(b), begin: pos, end: end - 1 }, end)),
        None => Err(
            LexerError { message: "Invalid number literal".to_owned(), position: pos },
        ),
    }
}

/// Reads a word beginning at `pos` and names its kind: a keyword, a
/// boolean, `mod`, or an identifier.
pub fn parse_word(chars: &Vec<char>, pos: usize) -> (r: (Token, usize))
    requires
        pos < chars@.len(),
        spec_is_word_char(chars@[pos as int]),
    ensures
        r.1 == word_end(chars@, pos as int),
        r.0@.kind == spec_word_kind(chars@.subrange(pos as int, r.1 as int)),
        r.0@.begin == pos as nat,
        r.0@.end == (r.1 - 1) as nat,
        pos < r.1 <= chars@.len(),
{
    let n = chars.len();
    let mut end = pos + 1;
    #[verifier::loop_isolation(false)]
    while end < n && is_word_char(chars[end])
        invariant
            pos + 1 <= end <= chars@.len(),
            word_end(chars@, pos as int) == word_end(chars@, end as int),
        decreases chars@.len() - end,
    {
        end = end + 1;
    }
    let text = collect_chars(chars, pos, end);
    let kind = if crate::token::str_eq(&text, "let") {
        TokenKind::Let
    } else if crate::token::str_eq(&text, "fn") {
        TokenKind::Function
    } else if crate::token::str_eq(&text, "mod") {
        TokenKind::Modulus
    } else if crate::token::str_eq(&text, "true") {
        TokenKind::Boolean(true)
    } else if crate::token::str_eq(&text, "false") {
        TokenKind::Boolean(false)
    } else {
        TokenKind::Identifier(text)
    };
    (Token { kind, begin: pos, end: end - 1 }, end)
}

/// Reads a type name beginning at `pos`: the run of lower-case letters,
/// digits, underscores and brackets, possibly empty.
pub fn parse_type(chars: &Vec<char>, pos: usize) -> (r: (Token, usize))
    requires
        pos <= chars@.len(),
    ensures
        r.1 == type_end(chars@, pos as int),
        r.0@.kind == SpecTokenKind::Type(chars@.subrange(pos as int, r.1 as int)),
        r.0@.begin == pos as nat,
        r.0@.end == if r.1 > pos {
            (r.1 - 1) as nat
        } else {
            pos as nat
        },
        pos <= r.1 <= chars@.len(),
{
    let mut end = pos;
    #[verifier::loop_isolation(false)]
    while end < chars.len() && is_type_char(chars[end])
        invariant
            pos <= end <= chars@.len(),
            type_end(chars@, pos as int) == type_end(chars@, end as int),
        decreases chars@.len() - end,
    {
        end = end + 1;
    }
    let text = collect_chars(chars, pos, end);
    let last = if end > pos {
        end - 1
    } else {
        pos
    };
    (Token { kind: TokenKind::Type(text), begin: pos, end: last }, end)
}

/// The position of the closing quote of a string opened before `pos`, if
/// one follows.
pub open spec fn quote_end(s: Seq<char>, pos: int) -> int
    decreases s.len() - pos,
{
    if 0 <= pos < s.len() {
        if s[pos] == '"' {
            pos
        } else {
            quote_end(s, pos + 1)
        }
    } else {
        pos
    }
}

/// Reads a string literal whose opening quote stands at `pos`: the
/// characters up to the next quote. Without a closing quote the rest of
/// the text is taken and the span stays at the opening quote, as a
/// stream that simply ends there.
pub fn parse_string(chars: &Vec<char>, pos: usize) -> (r: (Token, usize))
    requires
        pos < chars@.len(),
        chars@[pos as int] == '"',
    ensures
        ({
            let close = quote_end(chars@, pos as int + 1);
            if close < chars@.len() {
                r.0@.kind == SpecTokenKind::String(
                    chars@.subrange(pos as int + 1, close),
                ) && r.0@.begin == pos as nat && r.0@.end == close as nat && r.1 == close + 1
            } else {
                r.0@.kind == SpecTokenKind::String(
                    chars@.subrange(pos as int + 1, chars@.len() as int),
                ) && r.0@.begin == pos as nat && r.0@.end == pos as nat && r.1 == chars@.len()
            }
        }),
        pos < r.1 <= chars@.len(),
        pos + 1 <= quote_end(chars@, pos as int + 1) <= chars@.len(),
{
    let n = chars.len();
    let mut end = pos + 1;
    #[verifier::loop_isolation(false)]
    while end < n && chars[end] != '"'
        invariant
            n == chars@.len(),
            pos + 1 <= end <= chars@.len(),
            quote_end(chars@, pos as int + 1) == quote_end(chars@, end as int),
        decreases chars@.len() - end,
    {
        end = end + 1;
    }
    let text = collect_chars(chars, pos + 1, end);
    if end < chars.len() {
        (Token { kind: TokenKind::String(text), begin: pos, end }, end + 1)
    } else {
        (Token { kind: TokenKind::String(text), begin: pos, end: pos }, end)
    }
}

/// No token of the sequence is the end-of-input token.
pub open spec fn no_eof(s: Seq<Token>) -> bool {
    forall|i: int| 0 <= i < view_tokens(s).len() ==> !(view_tokens(s)[i].kind is EOF)
}

/// Appends one ordinary token, keeping the stream free of end-of-input
/// tokens.
fn push_token(tokens: &mut Vec<Token>, t: Token)
    requires
        !(t@.kind is EOF),
    ensures
        final(tokens)@ == old(tokens)@.push(t),
        view_tokens(final(tokens)@) == view_tokens(old(tokens)@).push(t@),
        no_eof(old(tokens)@) ==> no_eof(final(tokens)@),
{
    let ghost before = tokens@;
    let ghost tv = t;
    tokens.push(t);
    proof {
        crate::token::lemma_view_tokens_push(before, tv);
        crate::token::lemma_view_tokens_len(before);
        crate::token::lemma_view_tokens_len(tokens@);
    }
}


/// Mathematical model of a tokenizing failure.
pub struct SpecLexerError {
    pub message: Seq<char>,
    pub position: nat,
}

impl View for LexerError {
    type V = SpecLexerError;

    open spec fn view(&self) -> SpecLexerError {
        SpecLexerError { message: self.message@, position: self.position as nat }
    }
}

/// What tokenizing yields: the token stream, or the first failure.
pub enum Tokenized {
    Done(Seq<SpecToken>),
    Fail(SpecLexerError),
}

/// The kind a single-character token denotes, if the character opens one.
pub open spec fn spec_single_kind(c: char) -> Option<SpecTokenKind> {
    if c == '(' {
        Some(SpecTokenKind::LeftParen)
    } else if c == ')' {
        Some(SpecTokenKind::RightParen)
    } else if c == '[' {
        Some(SpecTokenKind::LeftBracket)
    } else if c == ']' {
        Some(SpecTokenKind::RightBracket)
    } else if c == '{' {
        Some(SpecTokenKind::LeftBrace)
    } else if c == '}' {
        Some(SpecTokenKind::RightBrace)
    } else if c == ',' {
        Some(SpecTokenKind::Comma)
    } else if c == ';' {
        Some(SpecTokenKind::Semicolon)
    } else if c == '|' {
        Some(SpecTokenKind::Pipe)
    } else if c == '+' {
        Some(SpecTokenKind::Addition)
    } else if c == '-' {
        Some(SpecTokenKind::Subtraction)
    } else if c == '*' {
        Some(SpecTokenKind::Multiplication)
    } else if c == '/' {
        Some(SpecTokenKind::Division)
    } else if c == '%' {
        Some(SpecTokenKind::Modulus)
    } else if c == '?' {
        Some(SpecTokenKind::Question)
    } else {
        None
    }
}

/// The position of the line break that ends a comment opened before `i`,
/// or the text's end.
pub open spec fn comment_end(s: Seq<char>, i: int) -> int
    decreases s.len() - i,
{
    if 0 <= i < s.len() && s[i] != '\n' {
        comment_end(s, i + 1)
    } else {
        i
    }
}

/// The end-of-input token of a text.
pub open spec fn spec_eof_token(s: Seq<char>) -> SpecToken {
    let at = if s.len() > 0 {
        (s.len() - 1) as nat
    } else {
        0
    };
    SpecToken { kind: SpecTokenKind::EOF, begin: at, end: at }
}

/// A token over a span.
pub open spec fn sp_token(kind: SpecTokenKind, begin: int, end: int) -> SpecToken {
    SpecToken { kind, begin: begin as nat, end: end as nat }
}

/// The failure for a scan that came back without having consumed a
/// character; no scan of the tokenizer does that, so no run reaches it.
pub open spec fn sp_lex_stuck() -> SpecLexerError {
    SpecLexerError { message: "Tokenizer made no progress"@, position: 0 }
}

/// Tokenizing from `pos` on, with the tokens read so far: the grammar of
/// the token surface written down as one function. Whitespace is skipped;
/// words, numbers, strings, character literals, the `:`-introduced type
/// name, the one- and two-character operators and the comment each take
/// their run; an unreadable character is the first failure. The stream is
/// closed by the end-of-input token.
pub open spec fn spec_tokenize_from(s: Seq<char>, pos: int, acc: Seq<SpecToken>) -> Tokenized
    decreases s.len() - pos,
{
    if pos >= s.len() {
        Tokenized::Done(acc.push(spec_eof_token(s)))
    } else {
        let p = ws_end(s, pos);
        if p < pos {
            Tokenized::Fail(sp_lex_stuck())
        } else if p >= s.len() {
            Tokenized::Done(acc.push(spec_eof_token(s)))
        } else {
            let c = s[p];
            if spec_is_word_char(c) && !spec_is_digit(c) {
                let e = word_end(s, p);
                if e <= p || e > s.len() {
                    Tokenized::Fail(sp_lex_stuck())
                } else {
                    spec_tokenize_from(
                        s,
                        e,
                        acc.push(sp_token(spec_word_kind(s.subrange(p, e)), p, e - 1)),
                    )
                }
            } else if spec_is_num_char(c) {
                let e = num_end(s, p);
                if e <= p || e > s.len() {
                    Tokenized::Fail(sp_lex_stuck())
                } else {
                    match num_of_literal(s.subrange(p, e)) {
                        Some(b) => spec_tokenize_from(
                            s,
                            e,
                            acc.push(sp_token(SpecTokenKind::Number(b), p, e - 1)),
                        ),
                        None => Tokenized::Fail(
                            SpecLexerError {
                                message: "Invalid number literal"@,
                                position: p as nat,
                            },
                        ),
                    }
                }
            } else if c == '"' {
                let q = quote_end(s, p + 1);
                if q < p + 1 || q > s.len() {
                    Tokenized::Fail(sp_lex_stuck())
                } else if q < s.len() {
                    spec_tokenize_from(
                        s,
                        q + 1,
                        acc.push(sp_token(SpecTokenKind::String(s.subrange(p + 1, q)), p, q)),
                    )
                } else {
                    spec_tokenize_from(
                        s,
                        s.len() as int,
                        acc.push(
                            sp_token(
                                SpecTokenKind::String(s.subrange(p + 1, s.len() as int)),
                                p,
                                p,
                            ),
                        ),
                    )
                }
            } else if c == '\'' {
                if p + 2 < s.len() && s[p + 2] == '\'' {
                    spec_tokenize_from(
                        s,
                        p + 3,
                        acc.push(
                            sp_token(SpecTokenKind::Character(s[p + 1] as u8), p, p + 2),
                        ),
                    )
                } else {
                    Tokenized::Fail(
                        SpecLexerError {
                            message: "Unterminated character literal"@,
                            position: p as nat,
                        },
                    )
                }
            } else if c == ':' {
                let a = ws_end(s, p + 1);
                if a < p + 1 {
                    Tokenized::Fail(sp_lex_stuck())
                } else {
                    let e = type_end(s, a);
                    if e < a || e > s.len() {
                        Tokenized::Fail(sp_lex_stuck())
                    } else {
                        let last = if e > a {
                            e - 1
                        } else {
                            a
                        };
                        spec_tokenize_from(
                            s,
                            if e > p {
                                e
                            } else {
                                p + 1
                            },
                            acc.push(sp_token(SpecTokenKind::Colon, p, p)).push(
                                sp_token(SpecTokenKind::Type(s.subrange(a, e)), a, last),
                            ),
                        )
                    }
                }
            } else if c == '!' {
                if p + 1 < s.len() && s[p + 1] == '=' {
                    spec_tokenize_from(
                        s,
                        p + 2,
                        acc.push(sp_token(SpecTokenKind::NotEqual, p, p + 1)),
                    )
                } else {
                    spec_tokenize_from(s, p + 1, acc.push(sp_token(SpecTokenKind::Not, p, p)))
                }
            } else if c == '=' {
                if p + 1 < s.len() && s[p + 1] == '=' {
                    spec_tokenize_from(
                        s,
                        p + 2,
                        acc.push(sp_token(SpecTokenKind::Equal, p, p + 1)),
                    )
                } else if p + 1 < s.len() && s[p + 1] == '>' {
                    spec_tokenize_from(
                        s,
                        p + 2,
                        acc.push(sp_token(SpecTokenKind::Arrow, p, p + 1)),
                    )
                } else {
                    spec_tokenize_from(
                        s,
                        p + 1,
                        acc.push(sp_token(SpecTokenKind::Assignment, p, p)),
                    )
                }
            } else if c == '<' {
                if p + 1 < s.len() && s[p + 1] == '=' {
                    spec_tokenize_from(
                        s,
                        p + 2,
                        acc.push(sp_token(SpecTokenKind::LessEqualThan, p, p + 2)),
                    )
                } else {
                    spec_tokenize_from(
                        s,
                        p + 1,
                        acc.push(sp_token(SpecTokenKind::LessThan, p, p + 1)),
                    )
                }
            } else if c == '>' {
                if p + 1 < s.len() && s[p + 1] == '=' {
                    spec_tokenize_from(
                        s,
                        p + 2,
                        acc.push(sp_token(SpecTokenKind::GreaterEqualThan, p, p + 2)),
                    )
                } else {
                    spec_tokenize_from(
                        s,
                        p + 1,
                        acc.push(sp_token(SpecTokenKind::GreaterThan, p, p + 1)),
                    )
                }
            } else if c == '#' {
                let e = comment_end(s, p + 1);
                if e <= p || e > s.len() {
                    Tokenized::Fail(sp_lex_stuck())
                } else {
                    spec_tokenize_from(s, e, acc)
                }
            } else {
                match spec_single_kind(c) {
                    Some(k) => spec_tokenize_from(s, p + 1, acc.push(sp_token(k, p, p))),
                    None => Tokenized::Fail(
                        SpecLexerError { message: "Unexpected character"@, position: p as nat },
                    ),
                }
            }
        }
    }
}

/// Tokenizing a whole text.
pub open spec fn spec_tokenize(s: Seq<char>) -> Tokenized {
    spec_tokenize_from(s, 0, Seq::empty())
}

/// How a tokenizing result relates to what the spec tokenizer yields.
pub open spec fn tokenized_matches(t: Tokenized, r: Result<Vec<Token>, LexerError>) -> bool {
    match t {
        Tokenized::Done(ts) => match r {
            Ok(toks) => view_tokens(toks@) == ts,
            Err(_) => false,
        },
        Tokenized::Fail(e) => match r {
            Ok(_) => false,
            Err(err) => err@ == e,
        },
    }
}

/// The tokenizer: text in, token stream out.
pub struct Lexer {
    chars: Vec<char>,
    pos: usize,
}

impl Lexer {
    /// The text still to be read.
    pub closed spec fn text(&self) -> Seq<char> {
        self.chars@
    }

    /// The reading position.
    pub closed spec fn position(&self) -> nat {
        self.pos as nat
    }

    /// A tokenizer over the given text, at its start.
    pub fn new(input: &str) -> (r: Lexer)
        ensures
            r.text() == input@,
            r.position() == 0,
    {
        Lexer { chars: text_chars(input), pos: 0 }
    }

    /// Tokenizes the whole text: the tokens in reading order, closed by the
    /// end-of-input token, or the first tokenizing failure.
    pub fn tokenize(&mut self) -> (r: Result<Vec<Token>, LexerError>)
        requires
            old(self).position() <= old(self).text().len(),
        ensures
            final(self).text() == old(self).text(),
            tokenized_matches(
                spec_tokenize_from(old(self).text(), old(self).position() as int, Seq::empty()),
                r,
            ),
            r matches Ok(toks) ==> view_tokens(toks@).len() >= 1 && view_tokens(
                toks@,
            ).last().kind is EOF && no_eof(toks@.drop_last()),
    {
        let ghost s = self.chars@;
        let ghost pos0 = self.pos as int;
        let mut tokens: Vec<Token> = Vec::new();
        #[verifier::spinoff_prover]
        while self.pos < self.chars.len()
            invariant_except_break
                spec_tokenize_from(s, pos0, Seq::empty()) == spec_tokenize_from(
                    s,
                    self.pos as int,
                    view_tokens(tokens@),
                ),
            invariant
                self.pos <= self.chars@.len(),
                s == self.chars@,
                s == old(self).text(),
                pos0 == old(self).position() as int,
                no_eof(tokens@),
            ensures
                self.pos <= self.chars@.len(),
                s == self.chars@,
                no_eof(tokens@),
                spec_tokenize_from(s, pos0, Seq::empty()) == Tokenized::Done(
                    view_tokens(tokens@).push(spec_eof_token(s)),
                ),
            decreases self.chars@.len() - self.pos,
        {
            let ghost prev_pos = self.pos as int;
            let ghost prev_acc = view_tokens(tokens@);
            self.pos = consume_whitespace(&self.chars, self.pos);
            if self.pos >= self.chars.len() {
                proof {
                    assert(spec_tokenize_from(s, prev_pos, prev_acc) == Tokenized::Done(
                        prev_acc.push(spec_eof_token(s)),
                    ));
                }
                break ;
            }
            let begin = self.pos;
            let ghost p = begin as int;
            let c = self.chars[begin];
            if ('a' <= c && c <= 'z') || ('A' <= c && c <= 'Z') || c == '_' {
                let (t, np) = parse_word(&self.chars, begin);
                proof {
                    assert(t@ == sp_token(
                        spec_word_kind(s.subrange(p, np as int)),
                        p,
                        np as int - 1,
                    ));
                }
                push_token(&mut tokens, t);
                self.pos = np;
                proof {
                    assert(spec_tokenize_from(s, prev_pos, prev_acc) == spec_tokenize_from(
                        s,
                        self.pos as int,
                        view_tokens(tokens@),
                    ));
                }
            } else if ('0' <= c && c <= '9') || c == '.' {
                let num = parse_number(&self.chars, begin);
                match num {
                    Ok((t, np)) => {
                        proof {
                            assert(t@ == sp_token(
                                SpecTokenKind::Number(
                                    num_of_literal(s.subrange(p, np as int))->Some_0,
                                ),
                                p,
                                np as int - 1,
                            ));
                        }
                        push_token(&mut tokens, t);
                        self.pos = np;
                        proof {
                            assert(spec_tokenize_from(s, prev_pos, prev_acc)
                                == spec_tokenize_from(
                                s,
                                self.pos as int,
                                view_tokens(tokens@),
                            ));
                        }
                    },
                    Err(e) => {
                        proof {
                            assert(spec_tokenize_from(s, prev_pos, prev_acc) == Tokenized::Fail(
                                e@,
                            ));
                        }
                        return Err(e);
                    },
                }
            } else if c == '"' {
                let (t, np) = parse_string(&self.chars, begin);
                proof {
                    let close = quote_end(s, p + 1);
                    if close < s.len() {
                        assert(t@ == sp_token(
                            SpecTokenKind::String(s.subrange(p + 1, close)),
                            p,
                            close,
                        ));
                    } else {
                        assert(t@ == sp_token(
                            SpecTokenKind::String(s.subrange(p + 1, s.len() as int)),
                            p,
                            p,
                        ));
                    }
                }
                push_token(&mut tokens, t);
                self.pos = np;
                proof {
                    assert(spec_tokenize_from(s, prev_pos, prev_acc) == spec_tokenize_from(
                        s,
                        self.pos as int,
                        view_tokens(tokens@),
                    ));
                }
            } else if c == '\'' {
                if self.chars.len() - begin > 2 && self.chars[begin + 2] == '\'' {
                    let inner = self.chars[begin + 1];
                    push_token(
                        &mut tokens,
                        Token { kind: TokenKind::Character(inner as u8), begin, end: begin + 2 },
                    );
                    self.pos = begin + 3;
                    proof {
                        assert(spec_tokenize_from(s, prev_pos, prev_acc) == spec_tokenize_from(
                            s,
                            self.pos as int,
                            view_tokens(tokens@),
                        ));
                    }
                } else {
                    let e = LexerError {
                        message: "Unterminated character literal".to_owned(),
                        position: begin,
                    };
                    proof {
                        assert(spec_tokenize_from(s, prev_pos, prev_acc) == Tokenized::Fail(e@));
                    }
                    return Err(e);
                }
            } else if c == ':' {
                push_token(&mut tokens, Token { kind: TokenKind::Colon, begin, end: begin });
                let after = consume_whitespace(&self.chars, begin + 1);
                let (t, np) = parse_type(&self.chars, after);
                push_token(&mut tokens, t);
                self.pos = if np > begin {
                    np
                } else {
                    begin + 1
                };
                proof {
                    assert(spec_tokenize_from(s, prev_pos, prev_acc) == spec_tokenize_from(
                        s,
                        self.pos as int,
                        view_tokens(tokens@),
                    ));
                }
            } else if c == '!' {
                if begin + 1 < self.chars.len() && self.chars[begin + 1] == '=' {
                    push_token(
                        &mut tokens,
                        Token { kind: TokenKind::NotEqual, begin, end: begin + 1 },
                    );
                    self.pos = begin + 2;
                } else {
                    push_token(&mut tokens, Token { kind: TokenKind::Not, begin, end: begin });
                    self.pos = begin + 1;
                }
                proof {
                    assert(spec_tokenize_from(s, prev_pos, prev_acc) == spec_tokenize_from(
                        s,
                        self.pos as int,
                        view_tokens(tokens@),
                    ));
                }
            } else if c == '=' {
                if begin + 1 < self.chars.len() && self.chars[begin + 1] == '=' {
                    push_token(
                        &mut tokens,
                        Token { kind: TokenKind::Equal, begin, end: begin + 1 },
                    );
                    self.pos = begin + 2;
                } else if begin + 1 < self.chars.len() && self.chars[begin + 1] == '>' {
                    push_token(
                        &mut tokens,
                        Token { kind: TokenKind::Arrow, begin, end: begin + 1 },
                    );
                    self.pos = begin + 2;
                } else {
                    push_token(
                        &mut tokens,
                        Token { kind: TokenKind::Assignment, begin, end: begin },
                    );
                    self.pos = begin + 1;
                }
                proof {
                    assert(spec_tokenize_from(s, prev_pos, prev_acc) == spec_tokenize_from(
                        s,
                        self.pos as int,
                        view_tokens(tokens@),
                    ));
                }
            } else if c == '<' {
                if begin + 1 < self.chars.len() && self.chars[begin + 1] == '=' {
                    push_token(
                        &mut tokens,
                        Token { kind: TokenKind::LessEqualThan, begin, end: begin + 2 },
                    );
                    self.pos = begin + 2;
                } else {
                    push_token(
                        &mut tokens,
                        Token { kind: TokenKind::LessThan, begin, end: begin + 1 },
                    );
                    self.pos = begin + 1;
                }
                proof {
                    assert(spec_tokenize_from(s, prev_pos, prev_acc) == spec_tokenize_from(
                        s,
                        self.pos as int,
                        view_tokens(tokens@),
                    ));
                }
            } else if c == '>' {
                if begin + 1 < self.chars.len() && self.chars[begin + 1] == '=' {
                    push_token(
                        &mut tokens,
                        Token { kind: TokenKind::GreaterEqualThan, begin, end: begin + 2 },
                    );
                    self.pos = begin + 2;
                } else {
                    push_token(
                        &mut tokens,
                        Token { kind: TokenKind::GreaterThan, begin, end: begin + 1 },
                    );
                    self.pos = begin + 1;
                }
                proof {
                    assert(spec_tokenize_from(s, prev_pos, prev_acc) == spec_tokenize_from(
                        s,
                        self.pos as int,
                        view_tokens(tokens@),
                    ));
                }
            } else if c == '#' {
                let mut np = begin + 1;
                #[verifier::loop_isolation(false)]
                while np < self.chars.len() && self.chars[np] != '\n'
                    invariant
                        begin + 1 <= np <= self.chars@.len(),
                        comment_end(s, p + 1) == comment_end(s, np as int),
                    decreases self.chars@.len() - np,
                {
                    np = np + 1;
                }
                self.pos = np;
                proof {
                    assert(spec_tokenize_from(s, prev_pos, prev_acc) == spec_tokenize_from(
                        s,
                        self.pos as int,
                        view_tokens(tokens@),
                    ));
                }
            } else {
                let kind = match c {
                    '(' => Some(TokenKind::LeftParen),
                    ')' => Some(TokenKind::RightParen),
                    '[' => Some(TokenKind::LeftBracket),
                    ']' => Some(TokenKind::RightBracket),
                    '{' => Some(TokenKind::LeftBrace),
                    '}' => Some(TokenKind::RightBrace),
                    ',' => Some(TokenKind::Comma),
                    ';' => Some(TokenKind::Semicolon),
                    '|' => Some(TokenKind::Pipe),
                    '+' => Some(TokenKind::Addition),
                    '-' => Some(TokenKind::Subtraction),
                    '*' => Some(TokenKind::Multiplication),
                    '/' => Some(TokenKind::Division),
                    '%' => Some(TokenKind::Modulus),
                    '?' => Some(TokenKind::Question),
                    _ => None,
                };
                match kind {
                    Some(k) => {
                        proof {
                            assert(spec_single_kind(c) == Some(k@));
                        }
                        push_token(&mut tokens, Token { kind: k, begin, end: begin });
                        self.pos = begin + 1;
                        proof {
                            assert(spec_tokenize_from(s, prev_pos, prev_acc)
                                == spec_tokenize_from(
                                s,
                                self.pos as int,
                                view_tokens(tokens@),
                            ));
                        }
                    },
                    None => {
                        let e = LexerError {
                            message: "Unexpected character".to_owned(),
                            position: begin,
                        };
                        proof {
                            assert(spec_single_kind(c) is None);
                            assert(spec_tokenize_from(s, prev_pos, prev_acc) == Tokenized::Fail(
                                e@,
                            ));
                        }
                        return Err(e);
                    },
                }
            }
        }
        let at = if self.chars.len() > 0 {
            self.chars.len() - 1
        } else {
            0
        };
        let eof_token = Token { kind: TokenKind::EOF, begin: at, end: at };
        let ghost toks_before = tokens@;
        let ghost eof_value = eof_token;
        tokens.push(eof_token);
        proof {
            crate::token::lemma_view_tokens_push(toks_before, eof_value);
            crate::token::lemma_view_tokens_len(tokens@);
            assert(tokens@.drop_last() =~= toks_before);
            assert(eof_value@ == spec_eof_token(s));
        }
        Ok(tokens)
    }
}

/// Tokenizes a whole text: the tokens in reading order, closed by the
/// end-of-input token, or the first tokenizing failure.
pub fn tokenize(input: &str) -> (r: Result<Vec<Token>, LexerError>)
    ensures
        r matches Ok(toks) ==> view_tokens(toks@).len() >= 1 && view_tokens(
            toks@,
        ).last().kind is EOF,
{
    let mut lexer = Lexer::new(input);
    lexer.tokenize()
}

} // verus!
