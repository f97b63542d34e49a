//! Caret diagnostics: renders the source line a token stands on, with a
//! pointer line of `^` marks under the token's span, for a front end to
//! print beside a parse error.

use vstd::prelude::*;

use crate::token::push_char;
use crate::token::Token;

verus! {

/// The position the offending line starts at: walking back from `i`, the
/// first line break or the text's start.
pub open spec fn line_start_from(s: Seq<char>, i: int) -> int
    decreases i,
{
    if 0 < i < s.len() && s[i] != '\n' {
        line_start_from(s, i - 1)
    } else {
        i
    }
}

/// The position the offending line ends at: walking forward from `i`, the
/// first line break or the text's end.
pub open spec fn line_end_from(s: Seq<char>, i: int) -> int
    decreases s.len() - i,
{
    if 0 <= i < s.len() && s[i] != '\n' {
        line_end_from(s, i + 1)
    } else {
        i
    }
}

/// `n` copies of one character.
pub open spec fn repeat_char(c: char, n: int) -> Seq<char> {
    Seq::new(n as nat, |i: int| c)
}

/// The rendering: the token's source line, a line break, and a pointer
/// line carrying one `^` per character of the token's span.
pub open spec fn spec_location_display(s: Seq<char>, begin: int, end: int) -> Seq<char> {
    let ls = line_start_from(s, begin);
    let le = line_end_from(s, end);
    let pad = if begin - ls >= 2 {
        begin - ls - 2
    } else {
        0
    };
    s.subrange(ls, le) + seq!['\n'] + repeat_char(' ', pad) + repeat_char('^', end + 1 - begin)
}

/// Renders the line an offending token stands on, with a caret pointer
/// under the token's span.
pub fn generate_error_location_display(input: &str, token: &Token) -> (r: String)
    requires
        token.begin <= token.end < input@.len(),
    ensures
        r@ == spec_location_display(input@, token.begin as int, token.end as int),
{
    let chars = crate::lexer::text_chars(input);
    let n = chars.len();
    let mut line_start = token.begin;
    #[verifier::loop_isolation(false)]
    while line_start > 0 && chars[line_start] != '\n'
        invariant
            0 <= line_start <= token.begin,
            line_start_from(chars@, token.begin as int) == line_start_from(
                chars@,
                line_start as int,
            ),
        decreases line_start,
    {
        line_start = line_start - 1;
    }
    let mut line_end = token.end;
    #[verifier::loop_isolation(false)]
    while line_end < n && chars[line_end] != '\n'
        invariant
            token.end <= line_end <= chars@.len(),
            line_end_from(chars@, token.end as int) == line_end_from(chars@, line_end as int),
        decreases n - line_end,
    {
        line_end = line_end + 1;
    }
    let mut out = String::new();
    let mut i = line_start;
    #[verifier::loop_isolation(false)]
    while i < line_end
        invariant
            line_start <= i <= line_end,
            line_end <= chars@.len(),
            out@ =~= chars@.subrange(line_start as int, i as int),
        decreases line_end - i,
    {
        push_char(&mut out, chars[i]);
        proof {
            assert(out@ =~= chars@.subrange(line_start as int, i + 1));
        }
        i = i + 1;
    }
    push_char(&mut out, '\n');
    let pad = if token.begin - line_start >= 2 {
        token.begin - line_start - 2
    } else {
        0
    };
    let ghost mid = out@;
    let mut j: usize = 0;
    #[verifier::loop_isolation(false)]
    while j < pad
        invariant
            j <= pad,
            out@ =~= mid + repeat_char(' ', j as int),
        decreases pad - j,
    {
        push_char(&mut out, ' ');
        proof {
            assert(out@ =~= mid + repeat_char(' ', j + 1));
        }
        j = j + 1;
    }
    let ghost mid2 = out@;
    let carets = token.end + 1 - token.begin;
    let mut k: usize = 0;
    #[verifier::loop_isolation(false)]
    while k < carets
        invariant
            k <= carets,
            out@ =~= mid2 + repeat_char('^', k as int),
        decreases carets - k,
    {
        push_char(&mut out, '^');
        proof {
            assert(out@ =~= mid2 + repeat_char('^', k + 1));
        }
        k = k + 1;
    }
    proof {
        assert(out@ =~= spec_location_display(input@, token.begin as int, token.end as int));
    }
    out
}

} // verus!
