//! The evaluator's fixed builtin library: `print` and `debug_print`,
//! `time`, `sqrt`, and the array functions `head`, `tail`, `last` and
//! `len`. What each returns is stated against the spec interpreter's
//! [`spec_builtin_eval`] and [`spec_format`].

use std::io::Write;
use vstd::prelude::*;

use crate::ast::lemma_view_exprs_props;
use crate::ast::view_exprs;
use crate::ast::Expression;
use crate::ast::Type;
use crate::num::text_of_bits;
use crate::num::u64_to_bits;
use crate::virtual_machine::spec_format;
use crate::virtual_machine::spec_format_items;
use crate::virtual_machine::RuntimeError;

verus! {

/// Relies on std::io::Write for standard output: writes the text out.
#[verifier::external_body]
fn emit(s: &str) {
    let mut out = std::io::stdout();
    let _ = std::io::Write::write_all(&mut out, s.as_bytes());
}

/// Relies on the derived Debug rendering and std::io::Write: writes the
/// expression's debug rendering and a line break to standard output.
#[verifier::external_body]
fn emit_debug(e: &Expression) {
    let mut out = std::io::stdout();
    let _ = writeln!(out, "{:#?}", e);
}

/// A string of one character.
#[verifier::external_body]
fn char_to_string(c: char) -> (r: String)
    ensures
        r@ == seq![c],
{
    c.to_string()
}

/// Renders a value as `print` writes it, or fails on a form that has no
/// rendering. The declared element type of an array decides its shape: a
/// `Char` array prints as a contiguous string, every other array bracketed
/// and comma-separated.
pub fn format_value(e: &Expression) -> (r: Result<String, RuntimeError>)
    ensures
        match spec_format(e@) {
            Some(s) => r is Ok && (r matches Ok(v) ==> v@ == s),
            None => r == Result::<String, RuntimeError>::Err(RuntimeError::FormatError),
        },
    decreases *e, 0int,
{
    match e {
        Expression::Char(c) => Ok(char_to_string(*c as char)),
        Expression::Number(n) => Ok(text_of_bits(*n)),
        Expression::Bool(b) => Ok(
            if *b {
                "true".to_owned()
            } else {
                "false".to_owned()
            },
        ),
        Expression::Array(t, elems) => {
            proof {
                assert(*e == Expression::Array(*t, *elems));
                assert(decreases_to!(*e => *elems));
                assert(decreases_to!(*elems => elems@));
            }
            let is_string = crate::ast::type_eq(t, &Type::Char);
            proof {
                assert(view_exprs(elems@).skip(0) =~= view_exprs(elems@));
            }
            let inner = format_items(elems, 0, !is_string);
            match inner {
                Ok(s) => if is_string {
                    Ok(s)
                } else {
                    let mut out = "[".to_owned();
                    out.append(s.as_str());
                    out.append("]");
                    Ok(out)
                },
                Err(err) => Err(err),
            }
        },
        _ => Err(RuntimeError::FormatError),
    }
}

/// Renders the elements from index `i` on, `", "` between them where
/// `separate` holds.
fn format_items(elems: &Vec<Expression>, i: usize, separate: bool) -> (r: Result<
    String,
    RuntimeError,
>)
    requires
        i <= elems@.len(),
    ensures
        match spec_format_items(view_exprs(elems@).skip(i as int), separate) {
            Some(s) => r is Ok && (r matches Ok(v) ==> v@ == s),
            None => r == Result::<String, RuntimeError>::Err(RuntimeError::FormatError),
        },
    decreases elems@, elems@.len() - i,
{
    proof {
        lemma_view_exprs_props(elems@);
    }
    if i >= elems.len() {
        proof {
            assert(view_exprs(elems@).skip(i as int) =~= Seq::<
                crate::ast::SpecExpression,
            >::empty());
        }
        Ok(String::new())
    } else {
        proof {
            assert(decreases_to!(elems@ => elems@[i as int]));
            assert(view_exprs(elems@).skip(i as int)[0] == view_exprs(elems@)[i as int]);
            assert(view_exprs(elems@).skip(i as int).drop_first() =~= view_exprs(elems@).skip(
                i as int + 1,
            ));
        }
        let head_r = format_value(&elems[i]);
        match head_r {
            Err(err) => Err(err),
            Ok(head_s) => if i + 1 >= elems.len() {
                proof {
                    assert(view_exprs(elems@).skip(i as int).len() == 1);
                    assert(view_exprs(elems@).skip(i as int).drop_first() =~= Seq::<
                        crate::ast::SpecExpression,
                    >::empty());
                    assert(spec_format_items(
                        view_exprs(elems@).skip(i as int).drop_first(),
                        separate,
                    ) == Some(Seq::<char>::empty()));
                }
                Ok(head_s)
            } else {
                let rest_r = format_items(elems, i + 1, separate);
                match rest_r {
                    Err(err) => Err(err),
                    Ok(rest_s) => {
                        let mut out = head_s;
                        if separate {
                            out.append(", ");
                        }
                        out.append(rest_s.as_str());
                        Ok(out)
                    },
                }
            },
        }
    }
}

/// Writes the rendering of an evaluated value and the given line end to
/// standard output, handing the value back; a value without a rendering is
/// a format error.
pub fn print(expression: Expression, end: &str) -> (r: Result<Expression, RuntimeError>)
    ensures
        match spec_format(expression@) {
            Some(_) => r is Ok && (r matches Ok(v) ==> v == expression),
            None => r == Result::<Expression, RuntimeError>::Err(RuntimeError::FormatError),
        },
{
    let text = format_value(&expression);
    match text {
        Ok(s) => {
            emit(s.as_str());
            emit(end);
            Ok(expression)
        },
        Err(err) => Err(err),
    }
}

/// Writes the debug rendering of a value to standard output and hands the
/// value back unchanged.
pub fn debug_print(expression: Expression) -> (r: Expression)
    ensures
        r == expression,
{
    emit_debug(&expression);
    expression
}

/// Relies on std::time::SystemTime: milliseconds since the Unix epoch,
/// truncated to u64; nothing is promised of the value.
#[verifier::external_body]
fn millis_now() -> u64 {
    match std::time::SystemTime::now().duration_since(std::time::SystemTime::UNIX_EPOCH) {
        Ok(d) => d.as_millis() as u64,
        Err(_) => 0,
    }
}

/// The milliseconds since the Unix epoch, as a number value. The clock
/// decides the integer; the conversion to a number value is exact in it.
pub fn time() -> (r: Expression)
    ensures
        exists|m: u64| r == Expression::Number(crate::num::num_of_u64(m)),
{
    let ms = millis_now();
    let bits = u64_to_bits(ms);
    proof {
        assert(Expression::Number(bits) == Expression::Number(crate::num::num_of_u64(ms)));
    }
    Expression::Number(bits)
}

/// The first element of an array, or `false` for an empty one; anything but
/// an array is a type mismatch.
pub fn head(expression: &Expression) -> (r: Result<Expression, RuntimeError>)
    ensures
        match expression@ {
            crate::ast::SpecExpression::Array(_, _) => r is Ok && (r matches Ok(v) ==> v@
                == crate::virtual_machine::spec_head(expression@)),
            _ => r == Result::<Expression, RuntimeError>::Err(RuntimeError::TypeMismatch),
        },
{
    match expression {
        Expression::Array(_, elems) => {
            proof {
                lemma_view_exprs_props(elems@);
            }
            if elems.len() == 0 {
                Ok(Expression::Bool(false))
            } else {
                Ok(elems[0].clone())
            }
        },
        _ => Err(RuntimeError::TypeMismatch),
    }
}

/// The last element of an array, or `false` for an empty one; anything but
/// an array is a type mismatch.
pub fn last(expression: &Expression) -> (r: Result<Expression, RuntimeError>)
    ensures
        match expression@ {
            crate::ast::SpecExpression::Array(_, _) => r is Ok && (r matches Ok(v) ==> v@
                == crate::virtual_machine::spec_last(expression@)),
            _ => r == Result::<Expression, RuntimeError>::Err(RuntimeError::TypeMismatch),
        },
{
    match expression {
        Expression::Array(_, elems) => {
            proof {
                lemma_view_exprs_props(elems@);
            }
            if elems.len() == 0 {
                Ok(Expression::Bool(false))
            } else {
                proof {
                    assert(view_exprs(elems@).last() == view_exprs(elems@)[elems@.len() - 1]);
                }
                Ok(elems[elems.len() - 1].clone())
            }
        },
        _ => Err(RuntimeError::TypeMismatch),
    }
}

/// The array without its first element (an empty array stays itself),
/// keeping the element-type tag; anything but an array is a type mismatch.
pub fn tail(expression: &Expression) -> (r: Result<Expression, RuntimeError>)
    ensures
        match expression@ {
            crate::ast::SpecExpression::Array(_, _) => r is Ok && (r matches Ok(v) ==> v@
                == crate::virtual_machine::spec_tail(expression@)),
            _ => r == Result::<Expression, RuntimeError>::Err(RuntimeError::TypeMismatch),
        },
{
    match expression {
        Expression::Array(t, elems) => {
            proof {
                lemma_view_exprs_props(elems@);
                assert(*expression == Expression::Array(*t, *elems));
            }
            if elems.len() == 0 {
                proof {
                    assert(view_exprs(Seq::<Expression>::empty()) =~= Seq::<
                        crate::ast::SpecExpression,
                    >::empty());
                }
                Ok(Expression::Array(t.clone(), Vec::new()))
            } else {
                let mut rest: Vec<Expression> = Vec::new();
                let mut i: usize = 1;
                #[verifier::loop_isolation(false)]
                while i < elems.len()
                    invariant
                        1 <= i <= elems@.len(),
                        view_exprs(rest@) =~= view_exprs(elems@).subrange(1, i as int),
                    decreases elems@.len() - i,
                {
                    let x = elems[i].clone();
                    proof {
                        crate::ast::lemma_view_exprs_push(rest@, x);
                        assert(view_exprs(elems@).subrange(1, i as int).push(
                            view_exprs(elems@)[i as int],
                        ) =~= view_exprs(elems@).subrange(1, i as int + 1));
                    }
                    rest.push(x);
                    i = i + 1;
                }
                proof {
                    assert(view_exprs(elems@).subrange(1, elems@.len() as int) =~= view_exprs(
                        elems@,
                    ).drop_first());
                }
                Ok(Expression::Array(t.clone(), rest))
            }
        },
        _ => Err(RuntimeError::TypeMismatch),
    }
}

/// The element count of an array as a number value; anything but an array
/// is a type mismatch.
pub fn len(expression: &Expression) -> (r: Result<Expression, RuntimeError>)
    ensures
        match expression@ {
            crate::ast::SpecExpression::Array(_, _) => r is Ok && (r matches Ok(v) ==> v@
                == crate::virtual_machine::spec_len(expression@)),
            _ => r == Result::<Expression, RuntimeError>::Err(RuntimeError::TypeMismatch),
        },
{
    match expression {
        Expression::Array(_, elems) => {
            proof {
                lemma_view_exprs_props(elems@);
            }
            let n = elems.len();
            Ok(Expression::Number(u64_to_bits(n as u64)))
        },
        _ => Err(RuntimeError::TypeMismatch),
    }
}

} // verus!
