//! The evaluator: reduces expressions to value forms against a scope chain.
//!
//! The evaluator is iterative. It keeps a current expression and loops:
//! positions whose value becomes the whole result (an identifier's stored
//! expression, a called function's body, a match default) replace the
//! current expression and continue the loop, so logical tail calls use no
//! native stack; sub-evaluations that must be combined (binary operands,
//! call arguments, match patterns and selected results) recurse, spending
//! one unit of the explicit depth budget per native frame.
//!
//! The meaning of evaluation is the fueled spec interpreter [`spec_eval`]:
//! `steps` bounds the number of reduction steps considered and `depth` the
//! recursion depth, and tail steps spend no depth. [`evaluate`] is proved to
//! return exactly what the spec interpreter resolves to at its depth, for
//! some step budget; by [`lemma_spec_eval_mono`] that outcome is the only
//! one any large enough step budget yields.

use vstd::prelude::*;

use crate::ast::view_arms;
use crate::ast::view_expr;
use crate::ast::view_exprs;
use crate::ast::view_items;
use crate::ast::view_params;
use crate::ast::BinaryOperator;
use crate::ast::Declaration;
use crate::ast::Expression;
use crate::ast::Item;
use crate::ast::SpecDeclaration;
use crate::ast::SpecExpression;
use crate::ast::SpecFunctionParameter;
use crate::ast::SpecItem;
use crate::ast::Type;
use crate::scoped_symbols::spec_lookup;
use crate::scoped_symbols::ScopedSymbols;
use crate::scoped_symbols::SpecEnv;
use crate::num::num_add;
use crate::num::num_cmp;
use crate::num::num_div;
use crate::num::num_eq;
use crate::num::num_mul;
use crate::num::num_of_u64;
use crate::num::num_rem;
use crate::num::num_sqrt;
use crate::num::num_sub;
use crate::num::NumOrder;

verus! {

/// A failure of evaluation. Evaluation never panics: every fatal condition
/// of the language comes back as one of these.
#[derive(Debug, PartialEq)]
pub enum RuntimeError {
    /// An identifier that no frame of the scope chain binds.
    UnboundIdentifier(String),
    /// A call of a name whose stored expression is no function literal.
    NotAFunction(String),
    /// A call whose argument count differs from the parameter count.
    ArityMismatch(String),
    /// Operand or scrutinee types that the operation is not defined for.
    TypeMismatch,
    /// An operator with no evaluation rule for the matched operand types.
    InvalidOperation,
    /// A match that no arm took, with no default to fall back on.
    MissingDefault,
    /// A print of a value that has no rendering.
    FormatError,
    /// The recursion depth budget ran out.
    DepthExceeded,
    /// The step budget ran out.
    StepsExceeded,
}

/// Mathematical model of a failure of evaluation.
pub enum SpecRuntimeError {
    UnboundIdentifier(Seq<char>),
    NotAFunction(Seq<char>),
    ArityMismatch(Seq<char>),
    TypeMismatch,
    InvalidOperation,
    MissingDefault,
    FormatError,
    DepthExceeded,
    StepsExceeded,
}

impl View for RuntimeError {
    type V = SpecRuntimeError;

    open spec fn view(&self) -> SpecRuntimeError {
        match self {
            RuntimeError::UnboundIdentifier(s) => SpecRuntimeError::UnboundIdentifier(s@),
            RuntimeError::NotAFunction(s) => SpecRuntimeError::NotAFunction(s@),
            RuntimeError::ArityMismatch(s) => SpecRuntimeError::ArityMismatch(s@),
            RuntimeError::TypeMismatch => SpecRuntimeError::TypeMismatch,
            RuntimeError::InvalidOperation => SpecRuntimeError::InvalidOperation,
            RuntimeError::MissingDefault => SpecRuntimeError::MissingDefault,
            RuntimeError::FormatError => SpecRuntimeError::FormatError,
            RuntimeError::DepthExceeded => SpecRuntimeError::DepthExceeded,
            RuntimeError::StepsExceeded => SpecRuntimeError::StepsExceeded,
        }
    }
}

/// What evaluating one expression resolves to. `OutOfSteps` only reports
/// that the step budget ended first; `TimeDependent` marks an evaluation
/// that consulted the clock, whose value no function of the inputs gives.
pub enum EvalOutcome {
    Value(SpecExpression),
    Fail(SpecRuntimeError),
    OutOfSteps,
    TimeDependent,
}

/// What evaluating an argument list resolves to.
pub enum ListOutcome {
    Values(Seq<SpecExpression>),
    Fail(SpecRuntimeError),
    OutOfSteps,
    TimeDependent,
}

/// What walking the arms of a match resolves to: the value of a taken arm's
/// result, a failure, or the word that no arm matched.
pub enum ArmsOutcome {
    Val(SpecExpression),
    Fail(SpecRuntimeError),
    OutOfSteps,
    TimeDependent,
    NoMatch,
}

/// A value form: an expression that evaluation returns as it stands.
pub open spec fn is_value_form(e: SpecExpression) -> bool {
    match e {
        SpecExpression::Number(_) => true,
        SpecExpression::Char(_) => true,
        SpecExpression::Bool(_) => true,
        SpecExpression::Array(_, _) => true,
        SpecExpression::FunctionDeclaration(_) => true,
        _ => false,
    }
}

/// Whether two expressions are of the same variant, as a match compares its
/// scrutinee against each arm's candidate before comparing values.
pub open spec fn same_variant(a: SpecExpression, b: SpecExpression) -> bool {
    match (a, b) {
        (SpecExpression::Identifier(_), SpecExpression::Identifier(_)) => true,
        (SpecExpression::Number(_), SpecExpression::Number(_)) => true,
        (SpecExpression::Char(_), SpecExpression::Char(_)) => true,
        (SpecExpression::Bool(_), SpecExpression::Bool(_)) => true,
        (SpecExpression::Array(_, _), SpecExpression::Array(_, _)) => true,
        (SpecExpression::FunctionDeclaration(_), SpecExpression::FunctionDeclaration(_)) => true,
        (SpecExpression::FunctionCall(_), SpecExpression::FunctionCall(_)) => true,
        (SpecExpression::Match(_), SpecExpression::Match(_)) => true,
        (SpecExpression::BinaryOperation(_), SpecExpression::BinaryOperation(_)) => true,
        _ => false,
    }
}

/// Structural equality of two expressions, with number leaves compared by
/// IEEE 754 equality, as the language's `==` and match arms compare values.
pub open spec fn spec_expr_eq(a: SpecExpression, b: SpecExpression) -> bool
    decreases a,
{
    match (a, b) {
        (SpecExpression::Identifier(x), SpecExpression::Identifier(y)) => x == y,
        (SpecExpression::Number(x), SpecExpression::Number(y)) => num_eq(x, y),
        (SpecExpression::Char(x), SpecExpression::Char(y)) => x == y,
        (SpecExpression::Bool(x), SpecExpression::Bool(y)) => x == y,
        (SpecExpression::Array(t1, v1), SpecExpression::Array(t2, v2)) => t1 == t2
            && spec_exprs_eq(v1, v2),
        (
            SpecExpression::FunctionDeclaration(f1),
            SpecExpression::FunctionDeclaration(f2),
        ) => f1.parameters == f2.parameters && f1.return_type == f2.return_type && spec_expr_eq(
            *f1.expression,
            *f2.expression,
        ),
        (SpecExpression::FunctionCall(c1), SpecExpression::FunctionCall(c2)) => c1.name == c2.name
            && spec_exprs_eq(c1.arguments, c2.arguments),
        (SpecExpression::Match(m1), SpecExpression::Match(m2)) => spec_expr_eq(
            *m1.value,
            *m2.value,
        ) && spec_arms_eq(m1.patterns, m2.patterns) && match (m1.default, m2.default) {
            (None, None) => true,
            (Some(d1), Some(d2)) => spec_expr_eq(*d1, *d2),
            _ => false,
        },
        (SpecExpression::BinaryOperation(b1), SpecExpression::BinaryOperation(b2)) => b1.operator
            == b2.operator && spec_expr_eq(*b1.left, *b2.left) && spec_expr_eq(
            *b1.right,
            *b2.right,
        ),
        _ => false,
    }
}

/// Elementwise [`spec_expr_eq`] over two expression sequences.
pub open spec fn spec_exprs_eq(a: Seq<SpecExpression>, b: Seq<SpecExpression>) -> bool
    decreases a,
{
    if a.len() != b.len() {
        false
    } else if a.len() == 0 {
        true
    } else {
        spec_expr_eq(a[0], b[0]) && spec_exprs_eq(a.drop_first(), b.drop_first())
    }
}

/// Pairwise [`spec_expr_eq`] over two arm sequences.
pub open spec fn spec_arms_eq(
    a: Seq<(SpecExpression, SpecExpression)>,
    b: Seq<(SpecExpression, SpecExpression)>,
) -> bool
    decreases a,
{
    if a.len() != b.len() {
        false
    } else if a.len() == 0 {
        true
    } else {
        spec_expr_eq(a[0].0, b[0].0) && spec_expr_eq(a[0].1, b[0].1) && spec_arms_eq(
            a.drop_first(),
            b.drop_first(),
        )
    }
}

/// What a binary operation yields on two already evaluated operands.
///
/// Numbers meet every operator but the reserved `And` and `Or`; arrays meet
/// `==` (elementwise, ignoring the element-type tags) and `+` (concatenation,
/// requiring equal tags, keeping the left one); nothing else is defined.
pub open spec fn spec_binop_eval(op: BinaryOperator, l: SpecExpression, r: SpecExpression) -> EvalOutcome {
    match (l, r) {
        (SpecExpression::Number(a), SpecExpression::Number(b)) => match op {
            BinaryOperator::Add => EvalOutcome::Value(SpecExpression::Number(num_add(a, b))),
            BinaryOperator::Subtract => EvalOutcome::Value(SpecExpression::Number(num_sub(a, b))),
            BinaryOperator::Multiply => EvalOutcome::Value(SpecExpression::Number(num_mul(a, b))),
            BinaryOperator::Divide => EvalOutcome::Value(SpecExpression::Number(num_div(a, b))),
            BinaryOperator::Modulo => EvalOutcome::Value(SpecExpression::Number(num_rem(a, b))),
            BinaryOperator::Equal => EvalOutcome::Value(SpecExpression::Bool(num_eq(a, b))),
            BinaryOperator::NotEqual => EvalOutcome::Value(SpecExpression::Bool(!num_eq(a, b))),
            BinaryOperator::LessThan => EvalOutcome::Value(
                SpecExpression::Bool(num_cmp(a, b) == Some(NumOrder::Less)),
            ),
            BinaryOperator::LessEqualThan => EvalOutcome::Value(
                SpecExpression::Bool(
                    num_cmp(a, b) == Some(NumOrder::Less) || num_cmp(a, b) == Some(
                        NumOrder::Equal,
                    ),
                ),
            ),
            BinaryOperator::GreaterThan => EvalOutcome::Value(
                SpecExpression::Bool(num_cmp(a, b) == Some(NumOrder::Greater)),
            ),
            BinaryOperator::GreaterEqualThan => EvalOutcome::Value(
                SpecExpression::Bool(
                    num_cmp(a, b) == Some(NumOrder::Greater) || num_cmp(a, b) == Some(
                        NumOrder::Equal,
                    ),
                ),
            ),
            _ => EvalOutcome::Fail(SpecRuntimeError::InvalidOperation),
        },
        (SpecExpression::Array(t1, v1), SpecExpression::Array(t2, v2)) => match op {
            BinaryOperator::Equal => EvalOutcome::Value(SpecExpression::Bool(spec_exprs_eq(v1, v2))),
            BinaryOperator::Add => if t1 == t2 {
                EvalOutcome::Value(SpecExpression::Array(t1, v1 + v2))
            } else {
                EvalOutcome::Fail(SpecRuntimeError::TypeMismatch)
            },
            _ => EvalOutcome::Fail(SpecRuntimeError::InvalidOperation),
        },
        _ => EvalOutcome::Fail(SpecRuntimeError::TypeMismatch),
    }
}

/// The names the evaluator dispatches itself, before any user function.
pub open spec fn is_builtin(name: Seq<char>) -> bool {
    name == "print"@ || name == "debug_print"@ || name == "time"@ || name == "sqrt"@ || name
        == "head"@ || name == "tail"@ || name == "last"@ || name == "len"@
}

/// The first element of an array value, or `false` for an empty one.
pub open spec fn spec_head(e: SpecExpression) -> SpecExpression {
    match e {
        SpecExpression::Array(_, elems) => if elems.len() == 0 {
            SpecExpression::Bool(false)
        } else {
            elems[0]
        },
        _ => e,
    }
}

/// The last element of an array value, or `false` for an empty one.
pub open spec fn spec_last(e: SpecExpression) -> SpecExpression {
    match e {
        SpecExpression::Array(_, elems) => if elems.len() == 0 {
            SpecExpression::Bool(false)
        } else {
            elems.last()
        },
        _ => e,
    }
}

/// An array value without its first element, keeping its tag; an empty one
/// stays itself.
pub open spec fn spec_tail(e: SpecExpression) -> SpecExpression {
    match e {
        SpecExpression::Array(t, elems) => if elems.len() == 0 {
            SpecExpression::Array(t, elems)
        } else {
            SpecExpression::Array(t, elems.drop_first())
        },
        _ => e,
    }
}

/// The element count of an array value, as a number value.
pub open spec fn spec_len(e: SpecExpression) -> SpecExpression {
    match e {
        SpecExpression::Array(_, elems) => SpecExpression::Number(num_of_u64(elems.len() as u64)),
        _ => e,
    }
}

/// What a one-argument builtin yields on its evaluated argument.
pub open spec fn spec_builtin_eval(name: Seq<char>, v: SpecExpression) -> EvalOutcome {
    if name == "print"@ {
        match spec_format(v) {
            Some(_) => EvalOutcome::Value(v),
            None => EvalOutcome::Fail(SpecRuntimeError::FormatError),
        }
    } else if name == "debug_print"@ {
        EvalOutcome::Value(v)
    } else if name == "sqrt"@ {
        match v {
            SpecExpression::Number(n) => EvalOutcome::Value(SpecExpression::Number(num_sqrt(n))),
            _ => EvalOutcome::Fail(SpecRuntimeError::TypeMismatch),
        }
    } else if name == "head"@ {
        match v {
            SpecExpression::Array(_, _) => EvalOutcome::Value(spec_head(v)),
            _ => EvalOutcome::Fail(SpecRuntimeError::TypeMismatch),
        }
    } else if name == "last"@ {
        match v {
            SpecExpression::Array(_, _) => EvalOutcome::Value(spec_last(v)),
            _ => EvalOutcome::Fail(SpecRuntimeError::TypeMismatch),
        }
    } else if name == "tail"@ {
        match v {
            SpecExpression::Array(_, _) => EvalOutcome::Value(spec_tail(v)),
            _ => EvalOutcome::Fail(SpecRuntimeError::TypeMismatch),
        }
    } else if name == "len"@ {
        match v {
            SpecExpression::Array(_, _) => EvalOutcome::Value(spec_len(v)),
            _ => EvalOutcome::Fail(SpecRuntimeError::TypeMismatch),
        }
    } else {
        EvalOutcome::Fail(SpecRuntimeError::TypeMismatch)
    }
}

/// The rendering of a value, as `print` writes it: a char as itself, a
/// number decimally, a boolean as `true` or `false`; an array of declared
/// element type `Char` as its renderings run together, any other array
/// bracketed and comma-separated. Forms outside these have none.
pub open spec fn spec_format(e: SpecExpression) -> Option<Seq<char>>
    decreases e,
{
    match e {
        SpecExpression::Char(c) => Some(seq![c as char]),
        SpecExpression::Number(n) => Some(crate::num::num_text(n)),
        SpecExpression::Bool(b) => Some(
            if b {
                "true"@
            } else {
                "false"@
            },
        ),
        SpecExpression::Array(t, elems) => {
            let inner = spec_format_items(elems, !(t == Type::Char));
            match inner {
                Some(s) => if t == Type::Char {
                    Some(s)
                } else {
                    Some("["@ + s + "]"@)
                },
                None => None,
            }
        },
        _ => None,
    }
}

/// The renderings of the elements, run together, with `", "` between them
/// where `separate` holds.
pub open spec fn spec_format_items(elems: Seq<SpecExpression>, separate: bool) -> Option<Seq<char>>
    decreases elems,
{
    if elems.len() == 0 {
        Some(Seq::empty())
    } else {
        match spec_format(elems[0]) {
            None => None,
            Some(head) => match spec_format_items(elems.drop_first(), separate) {
                None => None,
                Some(rest) => if elems.len() == 1 {
                    Some(head)
                } else if separate {
                    Some(head + ", "@ + rest)
                } else {
                    Some(head + rest)
                },
            },
        }
    }
}

/// One less, stopping at zero.
pub open spec fn sub1(d: nat) -> nat {
    if d > 0 {
        (d - 1) as nat
    } else {
        0
    }
}

/// The parameters bound to their argument values, newest last, over the
/// bindings `m` already in the frame.
pub open spec fn spec_bind(
    m: Map<Seq<char>, SpecDeclaration>,
    params: Seq<SpecFunctionParameter>,
    vs: Seq<SpecExpression>,
) -> Map<Seq<char>, SpecDeclaration>
    decreases params,
{
    if params.len() == 0 || vs.len() == 0 {
        m
    } else {
        spec_bind(m, params.drop_last(), vs.drop_last()).insert(
            params.last().name,
            SpecDeclaration {
                name: params.last().name,
                type_: params.last().type_,
                expression: Box::new(vs.last()),
            },
        )
    }
}

/// The environment with its newest frame extended by the parameter bindings.
pub open spec fn bind_env(env: SpecEnv, params: Seq<SpecFunctionParameter>, vs: Seq<SpecExpression>) -> SpecEnv {
    env.update(env.len() - 1, spec_bind(env.last(), params, vs))
}

/// Evaluation of one expression as the evaluator's loop performs it: value
/// forms are final; an identifier, a called function's body and a match
/// default replace the current expression without spending depth; operands,
/// arguments, patterns and selected results are evaluated through
/// [`spec_call`] at one depth less, as the evaluator recurses for them.
pub open spec fn spec_eval(e: SpecExpression, env: SpecEnv, depth: nat, steps: nat) -> EvalOutcome
    decreases steps, 1int, 0int,
{
    if steps == 0 {
        EvalOutcome::OutOfSteps
    } else if is_value_form(e) {
        EvalOutcome::Value(e)
    } else {
        match e {
            SpecExpression::Identifier(name) => match spec_lookup(env, name) {
                None => EvalOutcome::Fail(SpecRuntimeError::UnboundIdentifier(name)),
                Some(decl) => spec_eval(*decl.expression, env, depth, (steps - 1) as nat),
            },
            SpecExpression::FunctionCall(call) => if is_builtin(call.name) {
                if call.name == "time"@ {
                    EvalOutcome::TimeDependent
                } else if call.arguments.len() == 0 {
                    EvalOutcome::Fail(SpecRuntimeError::ArityMismatch(call.name))
                } else {
                    match spec_call(call.arguments[0], env, sub1(depth), (steps - 1) as nat) {
                        EvalOutcome::Value(v) => spec_builtin_eval(call.name, v),
                        EvalOutcome::Fail(f) => EvalOutcome::Fail(f),
                        EvalOutcome::OutOfSteps => EvalOutcome::OutOfSteps,
                        EvalOutcome::TimeDependent => EvalOutcome::TimeDependent,
                    }
                }
            } else {
                match spec_lookup(env, call.name) {
                    None => EvalOutcome::Fail(SpecRuntimeError::UnboundIdentifier(call.name)),
                    Some(decl) => match *decl.expression {
                        SpecExpression::FunctionDeclaration(f) => if f.parameters.len()
                            != call.arguments.len() {
                            EvalOutcome::Fail(SpecRuntimeError::ArityMismatch(call.name))
                        } else {
                            match spec_eval_list(
                                call.arguments,
                                env,
                                sub1(depth),
                                (steps - 1) as nat,
                            ) {
                                ListOutcome::Values(vs) => spec_eval(
                                    *f.expression,
                                    bind_env(env, f.parameters, vs),
                                    depth,
                                    (steps - 1) as nat,
                                ),
                                ListOutcome::Fail(f2) => EvalOutcome::Fail(f2),
                                ListOutcome::OutOfSteps => EvalOutcome::OutOfSteps,
                                ListOutcome::TimeDependent => EvalOutcome::TimeDependent,
                            }
                        },
                        _ => EvalOutcome::Fail(SpecRuntimeError::NotAFunction(call.name)),
                    },
                }
            },
            SpecExpression::BinaryOperation(b) => match spec_call(
                *b.left,
                env,
                sub1(depth),
                (steps - 1) as nat,
            ) {
                EvalOutcome::Value(lv) => match spec_call(
                    *b.right,
                    env,
                    sub1(depth),
                    (steps - 1) as nat,
                ) {
                    EvalOutcome::Value(rv) => spec_binop_eval(b.operator, lv, rv),
                    EvalOutcome::Fail(f) => EvalOutcome::Fail(f),
                    EvalOutcome::OutOfSteps => EvalOutcome::OutOfSteps,
                    EvalOutcome::TimeDependent => EvalOutcome::TimeDependent,
                },
                EvalOutcome::Fail(f) => EvalOutcome::Fail(f),
                EvalOutcome::OutOfSteps => EvalOutcome::OutOfSteps,
                EvalOutcome::TimeDependent => EvalOutcome::TimeDependent,
            },
            SpecExpression::Match(m) => match spec_call(
                *m.value,
                env,
                sub1(depth),
                (steps - 1) as nat,
            ) {
                EvalOutcome::Value(sv) => match spec_eval_arms(
                    sv,
                    m.patterns,
                    env,
                    depth,
                    (steps - 1) as nat,
                ) {
                    ArmsOutcome::Val(v) => EvalOutcome::Value(v),
                    ArmsOutcome::Fail(f) => EvalOutcome::Fail(f),
                    ArmsOutcome::OutOfSteps => EvalOutcome::OutOfSteps,
                    ArmsOutcome::TimeDependent => EvalOutcome::TimeDependent,
                    ArmsOutcome::NoMatch => match m.default {
                        Some(d) => spec_eval(*d, env, depth, (steps - 1) as nat),
                        None => EvalOutcome::Fail(SpecRuntimeError::MissingDefault),
                    },
                },
                EvalOutcome::Fail(f) => EvalOutcome::Fail(f),
                EvalOutcome::OutOfSteps => EvalOutcome::OutOfSteps,
                EvalOutcome::TimeDependent => EvalOutcome::TimeDependent,
            },
            _ => EvalOutcome::Fail(SpecRuntimeError::TypeMismatch),
        }
    }
}

/// Evaluation as one fresh call of the evaluator performs it: spend one
/// native frame, fail when none is left, and work in a fresh scope frame
/// over the given environment.
pub open spec fn spec_call(e: SpecExpression, env: SpecEnv, depth: nat, steps: nat) -> EvalOutcome
    decreases steps, 2int, 0int,
{
    if depth == 0 {
        EvalOutcome::Fail(SpecRuntimeError::DepthExceeded)
    } else {
        spec_eval(e, env.push(Map::empty()), depth, steps)
    }
}

/// Evaluation of an argument list, left to right, each argument as one
/// fresh call at the given depth.
pub open spec fn spec_eval_list(args: Seq<SpecExpression>, env: SpecEnv, depth: nat, steps: nat) -> ListOutcome
    decreases steps, 0int, args.len(),
{
    if args.len() == 0 {
        ListOutcome::Values(Seq::empty())
    } else if steps == 0 {
        ListOutcome::OutOfSteps
    } else {
        match spec_call(args[0], env, depth, (steps - 1) as nat) {
            EvalOutcome::Value(v) => match spec_eval_list(
                args.drop_first(),
                env,
                depth,
                steps,
            ) {
                ListOutcome::Values(vs) => ListOutcome::Values(seq![v] + vs),
                ListOutcome::Fail(f) => ListOutcome::Fail(f),
                ListOutcome::OutOfSteps => ListOutcome::OutOfSteps,
                ListOutcome::TimeDependent => ListOutcome::TimeDependent,
            },
            EvalOutcome::Fail(f) => ListOutcome::Fail(f),
            EvalOutcome::OutOfSteps => ListOutcome::OutOfSteps,
            EvalOutcome::TimeDependent => ListOutcome::TimeDependent,
        }
    }
}

/// The walk over a match's arms against an evaluated scrutinee: each arm's
/// candidate is evaluated; a candidate of another variant than the
/// scrutinee is a type mismatch; an equal value takes the arm, and its
/// result, evaluated as a fresh call, is the match's value.
pub open spec fn spec_eval_arms(
    scrutinee: SpecExpression,
    arms: Seq<(SpecExpression, SpecExpression)>,
    env: SpecEnv,
    depth: nat,
    steps: nat,
) -> ArmsOutcome
    decreases steps, 0int, arms.len(),
{
    if arms.len() == 0 {
        ArmsOutcome::NoMatch
    } else if steps == 0 {
        ArmsOutcome::OutOfSteps
    } else {
        match spec_call(arms[0].0, env, sub1(depth), (steps - 1) as nat) {
            EvalOutcome::Value(pv) => if !same_variant(scrutinee, pv) {
                ArmsOutcome::Fail(SpecRuntimeError::TypeMismatch)
            } else if spec_expr_eq(scrutinee, pv) {
                match spec_call(arms[0].1, env, sub1(depth), (steps - 1) as nat) {
                    EvalOutcome::Value(v) => ArmsOutcome::Val(v),
                    EvalOutcome::Fail(f) => ArmsOutcome::Fail(f),
                    EvalOutcome::OutOfSteps => ArmsOutcome::OutOfSteps,
                    EvalOutcome::TimeDependent => ArmsOutcome::TimeDependent,
                }
            } else {
                spec_eval_arms(scrutinee, arms.drop_first(), env, depth, steps)
            },
            EvalOutcome::Fail(f) => ArmsOutcome::Fail(f),
            EvalOutcome::OutOfSteps => ArmsOutcome::OutOfSteps,
            EvalOutcome::TimeDependent => ArmsOutcome::TimeDependent,
        }
    }
}


/// A resolved outcome is settled: every at least as large step budget
/// yields it again. So the step budget never picks the answer; it only
/// says how far the interpreter looked.
pub proof fn lemma_spec_eval_mono(e: SpecExpression, env: SpecEnv, depth: nat, s1: nat, s2: nat)
    requires
        s1 <= s2,
        !(spec_eval(e, env, depth, s1) is OutOfSteps),
    ensures
        spec_eval(e, env, depth, s2) == spec_eval(e, env, depth, s1),
    decreases s1, 1int, 0int,
{
    if s1 == 0 {
        // spec_eval(_, _, _, 0) is OutOfSteps, against the premise.
    } else if is_value_form(e) {
    } else {
        match e {
            SpecExpression::Identifier(name) => {
                match spec_lookup(env, name) {
                    None => {},
                    Some(decl) => {
                        lemma_spec_eval_mono(
                            *decl.expression,
                            env,
                            depth,
                            (s1 - 1) as nat,
                            (s2 - 1) as nat,
                        );
                    },
                }
            },
            SpecExpression::FunctionCall(call) => {
                if is_builtin(call.name) {
                    if call.name == "time"@ || call.arguments.len() == 0 {
                    } else {
                        lemma_spec_call_mono(
                            call.arguments[0],
                            env,
                            sub1(depth),
                            (s1 - 1) as nat,
                            (s2 - 1) as nat,
                        );
                    }
                } else {
                    match spec_lookup(env, call.name) {
                        None => {},
                        Some(decl) => match *decl.expression {
                            SpecExpression::FunctionDeclaration(f) => {
                                if f.parameters.len() != call.arguments.len() {
                                } else {
                                    lemma_spec_eval_list_mono(
                                        call.arguments,
                                        env,
                                        sub1(depth),
                                        (s1 - 1) as nat,
                                        (s2 - 1) as nat,
                                    );
                                    match spec_eval_list(
                                        call.arguments,
                                        env,
                                        sub1(depth),
                                        (s1 - 1) as nat,
                                    ) {
                                        ListOutcome::Values(vs) => {
                                            lemma_spec_eval_mono(
                                                *f.expression,
                                                bind_env(env, f.parameters, vs),
                                                depth,
                                                (s1 - 1) as nat,
                                                (s2 - 1) as nat,
                                            );
                                        },
                                        _ => {},
                                    }
                                }
                            },
                            _ => {},
                        },
                    }
                }
            },
            SpecExpression::BinaryOperation(b) => {
                lemma_spec_call_mono(*b.left, env, sub1(depth), (s1 - 1) as nat, (s2 - 1) as nat);
                match spec_call(*b.left, env, sub1(depth), (s1 - 1) as nat) {
                    EvalOutcome::Value(lv) => {
                        lemma_spec_call_mono(
                            *b.right,
                            env,
                            sub1(depth),
                            (s1 - 1) as nat,
                            (s2 - 1) as nat,
                        );
                    },
                    _ => {},
                }
            },
            SpecExpression::Match(m) => {
                lemma_spec_call_mono(*m.value, env, sub1(depth), (s1 - 1) as nat, (s2 - 1) as nat);
                match spec_call(*m.value, env, sub1(depth), (s1 - 1) as nat) {
                    EvalOutcome::Value(sv) => {
                        lemma_spec_eval_arms_mono(
                            sv,
                            m.patterns,
                            env,
                            depth,
                            (s1 - 1) as nat,
                            (s2 - 1) as nat,
                        );
                        match spec_eval_arms(sv, m.patterns, env, depth, (s1 - 1) as nat) {
                            ArmsOutcome::NoMatch => match m.default {
                                Some(d) => {
                                    lemma_spec_eval_mono(
                                        *d,
                                        env,
                                        depth,
                                        (s1 - 1) as nat,
                                        (s2 - 1) as nat,
                                    );
                                },
                                None => {},
                            },
                            _ => {},
                        }
                    },
                    _ => {},
                }
            },
            _ => {},
        }
    }
}

/// As [`lemma_spec_eval_mono`], for one fresh call.
pub proof fn lemma_spec_call_mono(e: SpecExpression, env: SpecEnv, depth: nat, s1: nat, s2: nat)
    requires
        s1 <= s2,
        !(spec_call(e, env, depth, s1) is OutOfSteps),
    ensures
        spec_call(e, env, depth, s2) == spec_call(e, env, depth, s1),
    decreases s1, 2int, 0int,
{
    if depth == 0 {
    } else {
        lemma_spec_eval_mono(e, env.push(Map::empty()), depth, s1, s2);
    }
}

/// As [`lemma_spec_eval_mono`], for an argument list.
pub proof fn lemma_spec_eval_list_mono(
    args: Seq<SpecExpression>,
    env: SpecEnv,
    depth: nat,
    s1: nat,
    s2: nat,
)
    requires
        s1 <= s2,
        !(spec_eval_list(args, env, depth, s1) is OutOfSteps),
    ensures
        spec_eval_list(args, env, depth, s2) == spec_eval_list(args, env, depth, s1),
    decreases s1, 0int, args.len(),
{
    if args.len() == 0 {
    } else if s1 == 0 {
    } else {
        lemma_spec_call_mono(args[0], env, depth, (s1 - 1) as nat, (s2 - 1) as nat);
        match spec_call(args[0], env, depth, (s1 - 1) as nat) {
            EvalOutcome::Value(v) => {
                lemma_spec_eval_list_mono(args.drop_first(), env, depth, s1, s2);
            },
            _ => {},
        }
    }
}

/// As [`lemma_spec_eval_mono`], for the walk over a match's arms.
pub proof fn lemma_spec_eval_arms_mono(
    scrutinee: SpecExpression,
    arms: Seq<(SpecExpression, SpecExpression)>,
    env: SpecEnv,
    depth: nat,
    s1: nat,
    s2: nat,
)
    requires
        s1 <= s2,
        !(spec_eval_arms(scrutinee, arms, env, depth, s1) is OutOfSteps),
    ensures
        spec_eval_arms(scrutinee, arms, env, depth, s2) == spec_eval_arms(
            scrutinee,
            arms,
            env,
            depth,
            s1,
        ),
    decreases s1, 0int, arms.len(),
{
    if arms.len() == 0 {
    } else if s1 == 0 {
    } else {
        lemma_spec_call_mono(arms[0].0, env, sub1(depth), (s1 - 1) as nat, (s2 - 1) as nat);
        match spec_call(arms[0].0, env, sub1(depth), (s1 - 1) as nat) {
            EvalOutcome::Value(pv) => {
                if !same_variant(scrutinee, pv) {
                } else if spec_expr_eq(scrutinee, pv) {
                    lemma_spec_call_mono(
                        arms[0].1,
                        env,
                        sub1(depth),
                        (s1 - 1) as nat,
                        (s2 - 1) as nat,
                    );
                } else {
                    lemma_spec_eval_arms_mono(scrutinee, arms.drop_first(), env, depth, s1, s2);
                }
            },
            _ => {},
        }
    }
}


/// Two sequences are elementwise equal exactly when [`spec_exprs_eq`] holds.
pub proof fn lemma_spec_exprs_eq_iff(a: Seq<SpecExpression>, b: Seq<SpecExpression>)
    ensures
        spec_exprs_eq(a, b) <==> (a.len() == b.len() && forall|i: int|
            0 <= i < a.len() ==> spec_expr_eq(a[i], b[i])),
    decreases a,
{
    if a.len() == b.len() && a.len() > 0 {
        lemma_spec_exprs_eq_iff(a.drop_first(), b.drop_first());
        if spec_exprs_eq(a, b) {
            assert forall|i: int| 0 <= i < a.len() implies spec_expr_eq(a[i], b[i]) by {
                if i > 0 {
                    assert(a.drop_first()[i - 1] == a[i]);
                    assert(b.drop_first()[i - 1] == b[i]);
                    assert(spec_expr_eq(a.drop_first()[i - 1], b.drop_first()[i - 1]));
                }
            }
        }
        if forall|i: int| 0 <= i < a.len() ==> spec_expr_eq(a[i], b[i]) {
            assert forall|i: int|
                0 <= i < a.drop_first().len() implies spec_expr_eq(
                a.drop_first()[i],
                b.drop_first()[i],
            ) by {
                assert(a.drop_first()[i] == a[i + 1]);
                assert(b.drop_first()[i] == b[i + 1]);
            }
            assert(spec_expr_eq(a[0], b[0]));
            assert(spec_exprs_eq(a.drop_first(), b.drop_first()));
        }
    }
}

/// Two arm sequences are pairwise equal exactly when [`spec_arms_eq`] holds.
pub proof fn lemma_spec_arms_eq_iff(
    a: Seq<(SpecExpression, SpecExpression)>,
    b: Seq<(SpecExpression, SpecExpression)>,
)
    ensures
        spec_arms_eq(a, b) <==> (a.len() == b.len() && forall|i: int|
            0 <= i < a.len() ==> spec_expr_eq(a[i].0, b[i].0) && spec_expr_eq(a[i].1, b[i].1)),
    decreases a,
{
    if a.len() == b.len() && a.len() > 0 {
        lemma_spec_arms_eq_iff(a.drop_first(), b.drop_first());
        if spec_arms_eq(a, b) {
            assert forall|i: int|
                0 <= i < a.len() implies spec_expr_eq(a[i].0, b[i].0) && spec_expr_eq(
                a[i].1,
                b[i].1,
            ) by {
                if i > 0 {
                    assert(a.drop_first()[i - 1] == a[i]);
                    assert(b.drop_first()[i - 1] == b[i]);
                    assert(spec_expr_eq(a.drop_first()[i - 1].0, b.drop_first()[i - 1].0)
                        && spec_expr_eq(a.drop_first()[i - 1].1, b.drop_first()[i - 1].1));
                }
            }
        }
        if forall|i: int|
            0 <= i < a.len() ==> spec_expr_eq(a[i].0, b[i].0) && spec_expr_eq(a[i].1, b[i].1) {
            assert forall|i: int|
                0 <= i < a.drop_first().len() implies spec_expr_eq(
                a.drop_first()[i].0,
                b.drop_first()[i].0,
            ) && spec_expr_eq(a.drop_first()[i].1, b.drop_first()[i].1) by {
                assert(a.drop_first()[i] == a[i + 1]);
                assert(b.drop_first()[i] == b[i + 1]);
            }
            assert(spec_expr_eq(a[0].0, b[0].0) && spec_expr_eq(a[0].1, b[0].1));
            assert(spec_arms_eq(a.drop_first(), b.drop_first()));
        }
    }
}

/// Whether `name` reads as `lit`.
fn str_is(name: &String, lit: &str) -> (r: bool)
    ensures
        r == (name@ == lit@),
{
    let other = lit.to_owned();
    *name == other
}

/// Whether the evaluator dispatches this name itself.
fn is_builtin_name(name: &String) -> (r: bool)
    ensures
        r == is_builtin(name@),
{
    str_is(name, "print") || str_is(name, "debug_print") || str_is(name, "time") || str_is(
        name,
        "sqrt",
    ) || str_is(name, "head") || str_is(name, "tail") || str_is(name, "last") || str_is(
        name,
        "len",
    )
}

/// Whether the two expressions are of the same variant.
fn variant_eq(a: &Expression, b: &Expression) -> (r: bool)
    ensures
        r == same_variant(a@, b@),
{
    match (a, b) {
        (Expression::Identifier(_), Expression::Identifier(_)) => true,
        (Expression::Number(_), Expression::Number(_)) => true,
        (Expression::Char(_), Expression::Char(_)) => true,
        (Expression::Bool(_), Expression::Bool(_)) => true,
        (Expression::Array(_, _), Expression::Array(_, _)) => true,
        (Expression::FunctionDeclaration(_), Expression::FunctionDeclaration(_)) => true,
        (Expression::FunctionCall(_), Expression::FunctionCall(_)) => true,
        (Expression::Match(_), Expression::Match(_)) => true,
        (Expression::BinaryOperation(_), Expression::BinaryOperation(_)) => true,
        _ => false,
    }
}

/// Structural equality of two expressions, numbers compared by IEEE 754.
fn expr_eq(a: &Expression, b: &Expression) -> (r: bool)
    ensures
        r == spec_expr_eq(a@, b@),
    decreases a,
{
    match (a, b) {
        (Expression::Identifier(x), Expression::Identifier(y)) => *x == *y,
        (Expression::Number(x), Expression::Number(y)) => crate::num::eq_bits(*x, *y),
        (Expression::Char(x), Expression::Char(y)) => *x == *y,
        (Expression::Bool(x), Expression::Bool(y)) => *x == *y,
        (Expression::Array(t1, v1), Expression::Array(t2, v2)) => {
            proof {
                assert(*a == Expression::Array(*t1, *v1));
                assert(decreases_to!(*a => *v1));
            }
            crate::ast::type_eq(t1, t2) && exprs_eq(v1, v2)
        },
        (Expression::FunctionDeclaration(f1), Expression::FunctionDeclaration(f2)) => {
            proof {
                assert(*a == Expression::FunctionDeclaration(*f1));
                assert(decreases_to!(*a => *f1));
                assert(decreases_to!(*f1 => *f1.expression));
            }
            params_eq(&f1.parameters, &f2.parameters) && crate::ast::type_eq(
                &f1.return_type,
                &f2.return_type,
            ) && expr_eq(&f1.expression, &f2.expression)
        },
        (Expression::FunctionCall(c1), Expression::FunctionCall(c2)) => {
            proof {
                assert(*a == Expression::FunctionCall(*c1));
                assert(decreases_to!(*a => *c1));
                assert(decreases_to!(*c1 => c1.arguments));
                assert(decreases_to!(c1.arguments => c1.arguments@));
            }
            c1.name == c2.name && exprs_eq(&c1.arguments, &c2.arguments)
        },
        (Expression::Match(m1), Expression::Match(m2)) => {
            proof {
                assert(*a == Expression::Match(*m1));
                assert(decreases_to!(*a => *m1));
                assert(decreases_to!(*m1 => *m1.value));
                assert(decreases_to!(*m1 => m1.patterns));
                assert(decreases_to!(m1.patterns => m1.patterns@));
            }
            let defaults = match (&m1.default, &m2.default) {
                (Option::None, Option::None) => true,
                (Option::Some(d1), Option::Some(d2)) => {
                    proof {
                        assert(decreases_to!(*m1 => m1.default));
                        assert(m1.default == Some(*d1));
                        assert(decreases_to!(m1.default => **d1));
                    }
                    expr_eq(d1, d2)
                },
                _ => false,
            };
            defaults && expr_eq(&m1.value, &m2.value) && arms_eq(&m1.patterns, &m2.patterns)
        },
        (Expression::BinaryOperation(b1), Expression::BinaryOperation(b2)) => {
            proof {
                assert(*a == Expression::BinaryOperation(*b1));
                assert(decreases_to!(*a => *b1));
                assert(decreases_to!(*b1 => *b1.left));
                assert(decreases_to!(*b1 => *b1.right));
            }
            binary_operator_eq(b1.operator, b2.operator) && expr_eq(&b1.left, &b2.left) && expr_eq(
                &b1.right,
                &b2.right,
            )
        },
        _ => false,
    }
}

/// Whether the two operators are the same.
fn binary_operator_eq(a: BinaryOperator, b: BinaryOperator) -> (r: bool)
    ensures
        r == (a == b),
{
    a == b
}

/// Elementwise [`expr_eq`] over two expression vectors.
fn exprs_eq(a: &Vec<Expression>, b: &Vec<Expression>) -> (r: bool)
    ensures
        r == spec_exprs_eq(view_exprs(a@), view_exprs(b@)),
    decreases a@,
{
    proof {
        crate::ast::lemma_view_exprs_props(a@);
        crate::ast::lemma_view_exprs_props(b@);
        lemma_spec_exprs_eq_iff(view_exprs(a@), view_exprs(b@));
    }
    if a.len() != b.len() {
        false
    } else {
        let mut i: usize = 0;
        let mut same = true;
        #[verifier::loop_isolation(false)]
        while i < a.len()
            invariant
                i <= a@.len(),
                same == forall|j: int|
                    0 <= j < i ==> spec_expr_eq(view_exprs(a@)[j], view_exprs(b@)[j]),
            decreases a@.len() - i,
        {
            proof {
                assert(decreases_to!(a@ => a@[i as int]));
            }
            if same {
                let e = expr_eq(&a[i], &b[i]);
                proof {
                    assert(view_exprs(a@)[i as int] == view_expr(a@[i as int]));
                    assert(view_exprs(b@)[i as int] == view_expr(b@[i as int]));
                    if !e {
                        assert(!spec_expr_eq(view_exprs(a@)[i as int], view_exprs(b@)[i as int]));
                    }
                }
                same = same && e;
            }
            i = i + 1;
        }
        same
    }
}

/// Pairwise [`expr_eq`] over two arm vectors.
fn arms_eq(a: &Vec<(Expression, Expression)>, b: &Vec<(Expression, Expression)>) -> (r: bool)
    ensures
        r == spec_arms_eq(view_arms(a@), view_arms(b@)),
    decreases a@,
{
    proof {
        crate::ast::lemma_view_arms_props(a@);
        crate::ast::lemma_view_arms_props(b@);
        lemma_spec_arms_eq_iff(view_arms(a@), view_arms(b@));
    }
    if a.len() != b.len() {
        false
    } else {
        let mut i: usize = 0;
        let mut same = true;
        #[verifier::loop_isolation(false)]
        while i < a.len()
            invariant
                i <= a@.len(),
                same == forall|j: int|
                    0 <= j < i ==> spec_expr_eq(view_arms(a@)[j].0, view_arms(b@)[j].0)
                        && spec_expr_eq(view_arms(a@)[j].1, view_arms(b@)[j].1),
            decreases a@.len() - i,
        {
            proof {
                assert(decreases_to!(a@ => a@[i as int]));
                assert(decreases_to!(a@[i as int] => a@[i as int].0));
                assert(decreases_to!(a@[i as int] => a@[i as int].1));
            }
            if same {
                let e0 = expr_eq(&a[i].0, &b[i].0);
                let e1 = expr_eq(&a[i].1, &b[i].1);
                proof {
                    assert(view_arms(a@)[i as int] == (view_expr(a@[i as int].0), view_expr(
                        a@[i as int].1,
                    )));
                    assert(view_arms(b@)[i as int] == (view_expr(b@[i as int].0), view_expr(
                        b@[i as int].1,
                    )));
                }
                same = same && e0 && e1;
            }
            i = i + 1;
        }
        same
    }
}

/// Whether the two parameter vectors carry the same names and types.
fn params_eq(a: &Vec<crate::ast::FunctionParameter>, b: &Vec<crate::ast::FunctionParameter>) -> (r:
    bool)
    ensures
        r == (view_params(a@) == view_params(b@)),
{
    proof {
        crate::ast::lemma_view_params_props(a@);
        crate::ast::lemma_view_params_props(b@);
    }
    if a.len() != b.len() {
        proof {
            assert(view_params(a@).len() != view_params(b@).len());
        }
        false
    } else {
        let mut i: usize = 0;
        let mut same = true;
        #[verifier::loop_isolation(false)]
        while i < a.len()
            invariant
                i <= a@.len(),
                same == forall|j: int|
                    0 <= j < i ==> view_params(a@)[j] == view_params(b@)[j],
            decreases a@.len() - i,
        {
            if same {
                let e = a[i].name == b[i].name && crate::ast::type_eq(&a[i].type_, &b[i].type_);
                proof {
                    assert(view_params(a@)[i as int] == a@[i as int]@);
                    assert(view_params(b@)[i as int] == b@[i as int]@);
                }
                same = same && e;
            }
            i = i + 1;
        }
        if same {
            proof {
                assert(view_params(a@) =~= view_params(b@));
            }
        } else {
            proof {
                assert(view_params(a@) != view_params(b@));
            }
        }
        same
    }
}


/// How a result relates to an outcome that no clock touched.
pub open spec fn pure_outcome_matches(o: EvalOutcome, r: Result<Expression, RuntimeError>) -> bool {
    match o {
        EvalOutcome::Value(v) => match r {
            Ok(e) => e@ == v,
            Err(_) => false,
        },
        EvalOutcome::Fail(f) => match r {
            Ok(_) => false,
            Err(e) => e@ == f,
        },
        _ => false,
    }
}

/// Performs a binary operation on two evaluated operands.
fn eval_binary(op: BinaryOperator, l: Expression, r: Expression) -> (res: Result<
    Expression,
    RuntimeError,
>)
    ensures
        pure_outcome_matches(spec_binop_eval(op, l@, r@), res),
{
    match (l, r) {
        (Expression::Number(a), Expression::Number(b)) => match op {
            BinaryOperator::Add => Ok(Expression::Number(crate::num::add_bits(a, b))),
            BinaryOperator::Subtract => Ok(Expression::Number(crate::num::sub_bits(a, b))),
            BinaryOperator::Multiply => Ok(Expression::Number(crate::num::mul_bits(a, b))),
            BinaryOperator::Divide => Ok(Expression::Number(crate::num::div_bits(a, b))),
            BinaryOperator::Modulo => Ok(Expression::Number(crate::num::rem_bits(a, b))),
            BinaryOperator::Equal => Ok(Expression::Bool(crate::num::eq_bits(a, b))),
            BinaryOperator::NotEqual => Ok(Expression::Bool(!crate::num::eq_bits(a, b))),
            BinaryOperator::LessThan => Ok(
                Expression::Bool(
                    matches!(crate::num::cmp_bits(a, b), Some(NumOrder::Less)),
                ),
            ),
            BinaryOperator::LessEqualThan => Ok(
                Expression::Bool(
                    matches!(crate::num::cmp_bits(a, b), Some(NumOrder::Less | NumOrder::Equal)),
                ),
            ),
            BinaryOperator::GreaterThan => Ok(
                Expression::Bool(
                    matches!(crate::num::cmp_bits(a, b), Some(NumOrder::Greater)),
                ),
            ),
            BinaryOperator::GreaterEqualThan => Ok(
                Expression::Bool(
                    matches!(
                        crate::num::cmp_bits(a, b),
                        Some(NumOrder::Greater | NumOrder::Equal)
                    ),
                ),
            ),
            _ => Err(RuntimeError::InvalidOperation),
        },
        (Expression::Array(t1, v1), Expression::Array(t2, v2)) => match op {
            BinaryOperator::Equal => Ok(Expression::Bool(exprs_eq(&v1, &v2))),
            BinaryOperator::Add => if crate::ast::type_eq(&t1, &t2) {
                let mut out = v1;
                let ghost left_elems = out@;
                let mut i: usize = 0;
                #[verifier::loop_isolation(false)]
                while i < v2.len()
                    invariant
                        i <= v2@.len(),
                        out@.len() == left_elems.len() + i,
                        view_exprs(out@) =~= view_exprs(left_elems) + view_exprs(v2@.take(
                            i as int,
                        )),
                    decreases v2@.len() - i,
                {
                    let x = v2[i].clone();
                    proof {
                        crate::ast::lemma_view_exprs_push(out@, x);
                        crate::ast::lemma_view_exprs_push(v2@.take(i as int), v2@[i as int]);
                        crate::ast::lemma_view_exprs_props(v2@.take(i as int));
                        assert(v2@.take(i as int).push(v2@[i as int]) =~= v2@.take(i + 1));
                        assert((view_exprs(left_elems) + view_exprs(v2@.take(i as int))).push(
                            view_expr(v2@[i as int]),
                        ) =~= view_exprs(left_elems) + view_exprs(v2@.take(i as int)).push(
                            view_expr(v2@[i as int]),
                        ));
                    }
                    out.push(x);
                    i = i + 1;
                }
                proof {
                    assert(v2@.take(v2@.len() as int) =~= v2@);
                }
                Ok(Expression::Array(t1, out))
            } else {
                Err(RuntimeError::TypeMismatch)
            },
            _ => Err(RuntimeError::InvalidOperation),
        },
        _ => Err(RuntimeError::TypeMismatch),
    }
}

/// The builtin names name pairwise different character sequences.
pub proof fn lemma_builtin_names_distinct()
    ensures
        "print"@ != "debug_print"@,
        "print"@ != "time"@,
        "print"@ != "sqrt"@,
        "print"@ != "head"@,
        "print"@ != "tail"@,
        "print"@ != "last"@,
        "print"@ != "len"@,
        "debug_print"@ != "time"@,
        "debug_print"@ != "sqrt"@,
        "debug_print"@ != "head"@,
        "debug_print"@ != "tail"@,
        "debug_print"@ != "last"@,
        "debug_print"@ != "len"@,
        "time"@ != "sqrt"@,
        "time"@ != "head"@,
        "time"@ != "tail"@,
        "time"@ != "last"@,
        "time"@ != "len"@,
        "sqrt"@ != "head"@,
        "sqrt"@ != "tail"@,
        "sqrt"@ != "last"@,
        "sqrt"@ != "len"@,
        "head"@ != "tail"@,
        "head"@ != "last"@,
        "head"@ != "len"@,
        "tail"@ != "last"@,
        "tail"@ != "len"@,
        "last"@ != "len"@,
{
    reveal_strlit("print");
    reveal_strlit("debug_print");
    reveal_strlit("time");
    reveal_strlit("sqrt");
    reveal_strlit("head");
    reveal_strlit("tail");
    reveal_strlit("last");
    reveal_strlit("len");
    assert("head"@[0] != "tail"@[0]);
    assert("head"@[0] != "last"@[0]);
    assert("tail"@[0] != "last"@[0]);
    assert("time"@[1] != "sqrt"@[1]);
    assert("print"@[0] != "debug_print"@[0]);
    assert("print"@[0] != "len"@[0]);
    assert("debug_print"@[0] != "len"@[0]);
    assert("last"@[1] != "len"@[1]);
    assert("print"@.len() != "time"@.len());
    assert("print"@[0] != "sqrt"@[0]);
    assert("print"@[0] != "head"@[0]);
    assert("print"@[0] != "tail"@[0]);
    assert("print"@[0] != "last"@[0]);
    assert("debug_print"@[0] != "time"@[0]);
    assert("debug_print"@[0] != "sqrt"@[0]);
    assert("debug_print"@[0] != "head"@[0]);
    assert("debug_print"@[0] != "tail"@[0]);
    assert("debug_print"@[0] != "last"@[0]);
    assert("time"@[0] != "head"@[0]);
    assert("time"@[0] != "tail"@[1] || "time"@[1] != "tail"@[1]);
    assert("time"@[0] != "last"@[0]);
    assert("time"@[0] != "len"@[0]);
    assert("sqrt"@[0] != "head"@[0]);
    assert("sqrt"@[0] != "tail"@[0]);
    assert("sqrt"@[0] != "last"@[0]);
    assert("sqrt"@[0] != "len"@[0]);
    assert("head"@[0] != "len"@[0]);
    assert("tail"@[0] != "len"@[0]);
    assert("time"@[1] != "tail"@[1]);
}

/// Performs a one-argument builtin on its evaluated argument.
fn eval_builtin(name: &String, v: Expression) -> (res: Result<Expression, RuntimeError>)
    requires
        is_builtin(name@),
        name@ != "time"@,
    ensures
        pure_outcome_matches(spec_builtin_eval(name@, v@), res),
{
    let ghost vghost = v@;
    proof {
        lemma_builtin_names_distinct();
    }
    if str_is(name, "print") {
        let res = crate::builtins::print(v, "\n");
        proof {
            assert(pure_outcome_matches(spec_builtin_eval(name@, vghost), res));
        }
        res
    } else if str_is(name, "debug_print") {
        let res: Result<Expression, RuntimeError> = Ok(crate::builtins::debug_print(v));
        proof {
            assert(pure_outcome_matches(spec_builtin_eval(name@, vghost), res));
        }
        res
    } else if str_is(name, "sqrt") {
        let res: Result<Expression, RuntimeError> = match v {
            Expression::Number(n) => Ok(Expression::Number(crate::num::sqrt_bits(n))),
            _ => Err(RuntimeError::TypeMismatch),
        };
        proof {
            assert(pure_outcome_matches(spec_builtin_eval(name@, vghost), res));
        }
        res
    } else if str_is(name, "head") {
        let res = crate::builtins::head(&v);
        proof {
            assert(pure_outcome_matches(spec_builtin_eval(name@, vghost), res));
        }
        res
    } else if str_is(name, "tail") {
        let res = crate::builtins::tail(&v);
        proof {
            assert(pure_outcome_matches(spec_builtin_eval(name@, vghost), res));
        }
        res
    } else if str_is(name, "last") {
        let res = crate::builtins::last(&v);
        proof {
            assert(pure_outcome_matches(spec_builtin_eval(name@, vghost), res));
        }
        res
    } else {
        let res = crate::builtins::len(&v);
        proof {
            assert(pure_outcome_matches(spec_builtin_eval(name@, vghost), res));
        }
        res
    }
}


/// How a result relates to what evaluating an argument list resolves to.
/// A time-dependent outcome constrains nothing: the clock decided it.
pub open spec fn list_matches(o: ListOutcome, r: Result<Vec<Expression>, RuntimeError>) -> bool {
    match o {
        ListOutcome::Values(vs) => match r {
            Ok(v) => view_exprs(v@) == vs,
            Err(_) => false,
        },
        ListOutcome::Fail(f) => match r {
            Ok(_) => false,
            Err(e) => e@ == f,
        },
        ListOutcome::OutOfSteps => r == Result::<Vec<Expression>, RuntimeError>::Err(
            RuntimeError::StepsExceeded,
        ),
        ListOutcome::TimeDependent => true,
    }
}

/// How a result relates to what one fresh call resolves to. A
/// time-dependent outcome constrains nothing: the clock decided it.
pub open spec fn eval_matches(o: EvalOutcome, r: Result<Expression, RuntimeError>) -> bool {
    match o {
        EvalOutcome::Value(v) => match r {
            Ok(e) => e@ == v,
            Err(_) => false,
        },
        EvalOutcome::Fail(f) => match r {
            Ok(_) => false,
            Err(e) => e@ == f,
        },
        EvalOutcome::OutOfSteps => r == Result::<Expression, RuntimeError>::Err(
            RuntimeError::StepsExceeded,
        ),
        EvalOutcome::TimeDependent => true,
    }
}

/// What the walk over a match's arms came to: a taken arm's result or
/// failure, or the word that no arm matched.
enum ArmsEval {
    Finished(Result<Expression, RuntimeError>),
    NoMatch,
}

/// How an arms walk relates to what the spec walk resolves to.
spec fn arms_matches(o: ArmsOutcome, r: ArmsEval) -> bool {
    match o {
        ArmsOutcome::Val(v) => match r {
            ArmsEval::Finished(Ok(e)) => e@ == v,
            _ => false,
        },
        ArmsOutcome::Fail(f) => match r {
            ArmsEval::Finished(Err(e)) => e@ == f,
            _ => false,
        },
        ArmsOutcome::OutOfSteps => r == ArmsEval::Finished(
            Result::<Expression, RuntimeError>::Err(RuntimeError::StepsExceeded),
        ),
        ArmsOutcome::TimeDependent => true,
        ArmsOutcome::NoMatch => r == ArmsEval::NoMatch,
    }
}

/// Evaluates the arguments from index `i` on, left to right, each as one
/// fresh call at the given depth.
fn eval_args(
    args: &Vec<Expression>,
    i: usize,
    symbols: &mut ScopedSymbols,
    depth: u64,
    steps: u64,
) -> (r: Result<Vec<Expression>, RuntimeError>)
    requires
        i <= args@.len(),
        old(symbols).wf(),
    ensures
        final(symbols).wf(),
        final(symbols)@ == old(symbols)@,
        list_matches(
            spec_eval_list(
                view_exprs(args@).skip(i as int),
                old(symbols)@,
                depth as nat,
                steps as nat,
            ),
            r,
        ),
        r matches Ok(v) ==> v@.len() == args@.len() - i,
    decreases steps, 0int, args@.len() - i,
{
    proof {
        crate::ast::lemma_view_exprs_props(args@);
    }
    let ghost argsv = view_exprs(args@);
    let ghost env = symbols@;
    let ghost d = depth as nat;
    if i >= args.len() {
        proof {
            assert(argsv.skip(i as int) =~= Seq::<SpecExpression>::empty());
        }
        Ok(Vec::new())
    } else if steps == 0 {
        Err(RuntimeError::StepsExceeded)
    } else {
        proof {
            assert(argsv.skip(i as int)[0] == argsv[i as int]);
            assert(argsv.skip(i as int).drop_first() =~= argsv.skip(i as int + 1));
            assert(argsv.skip(i as int).len() == argsv.len() - i);
        }
        let first = evaluate(args[i].clone(), symbols, depth, steps - 1);
        match first {
            Err(e) => Err(e),
            Ok(v) => {
                let rest = eval_args(args, i + 1, symbols, depth, steps);
                match rest {
                    Err(e) => Err(e),
                    Ok(vs) => {
                        let ghost tail_elems = vs@;
                        let ghost vval = v@;
                        let mut out = vs;
                        out.insert(0, v);
                        proof {
                            assert(out@.drop_first() =~= tail_elems);
                            assert(out@[0]@ == vval);
                            crate::ast::lemma_view_exprs_props(out@);
                            crate::ast::lemma_view_exprs_props(tail_elems);
                            assert(view_exprs(out@) =~= seq![vval] + view_exprs(tail_elems));
                        }
                        Ok(out)
                    },
                }
            },
        }
    }
}

/// Walks the arms from index `i` on against the evaluated scrutinee.
fn eval_arms(
    scrutinee: &Expression,
    arms: &Vec<(Expression, Expression)>,
    i: usize,
    symbols: &mut ScopedSymbols,
    depth: u64,
    steps: u64,
) -> (r: ArmsEval)
    requires
        i <= arms@.len(),
        depth >= 1,
        old(symbols).wf(),
    ensures
        final(symbols).wf(),
        final(symbols)@ == old(symbols)@,
        arms_matches(
            spec_eval_arms(
                scrutinee@,
                view_arms(arms@).skip(i as int),
                old(symbols)@,
                depth as nat,
                steps as nat,
            ),
            r,
        ),
    decreases steps, 0int, arms@.len() - i,
{
    proof {
        crate::ast::lemma_view_arms_props(arms@);
    }
    let ghost armsv = view_arms(arms@);
    let ghost env = symbols@;
    let ghost d = depth as nat;
    if i >= arms.len() {
        proof {
            assert(armsv.skip(i as int) =~= Seq::<(SpecExpression, SpecExpression)>::empty());
        }
        ArmsEval::NoMatch
    } else if steps == 0 {
        ArmsEval::Finished(Err(RuntimeError::StepsExceeded))
    } else {
        proof {
            assert(armsv.skip(i as int)[0] == armsv[i as int]);
            assert(armsv.skip(i as int).drop_first() =~= armsv.skip(i as int + 1));
            assert(armsv.skip(i as int).len() == armsv.len() - i);
        }
        let pe = evaluate(arms[i].0.clone(), symbols, depth - 1, steps - 1);
        match pe {
            Err(e) => ArmsEval::Finished(Err(e)),
            Ok(pv) => if !variant_eq(scrutinee, &pv) {
                ArmsEval::Finished(Err(RuntimeError::TypeMismatch))
            } else if expr_eq(scrutinee, &pv) {
                let re = evaluate(arms[i].1.clone(), symbols, depth - 1, steps - 1);
                ArmsEval::Finished(re)
            } else {
                eval_arms(scrutinee, arms, i + 1, symbols, depth, steps)
            },
        }
    }
}


/// Evaluates one expression against the scope chain, as one fresh call
/// with the given depth and step budgets.
///
/// The result is exactly what the spec interpreter resolves to on the same
/// budgets, unless the clock was consulted. The scope chain comes back as
/// it was: nothing an evaluation binds leaks out of it. Logical tail calls
/// (identifier replacement, a called function's body, a match default) run
/// in the loop below and spend no depth, so their nesting is bounded by
/// `steps` alone; only combining sub-evaluations spend depth, one unit per
/// native frame.
#[verifier::spinoff_prover]
#[verifier::rlimit(100)]
pub fn evaluate(expression: Expression, symbols: &mut ScopedSymbols, depth: u64, steps: u64) -> (r:
    Result<Expression, RuntimeError>)
    requires
        old(symbols).wf(),
    ensures
        final(symbols).wf(),
        final(symbols)@ == old(symbols)@,
        eval_matches(
            spec_call(expression@, old(symbols)@, depth as nat, steps as nat),
            r,
        ),
    decreases steps, 1int, 0int,
{
    if depth == 0 {
        return Err(RuntimeError::DepthExceeded);
    }
    let ghost e0 = expression@;
    let ghost d = depth as nat;
    let ghost s0 = steps as nat;
    let ghost env_base = symbols@;
    symbols.push_frame();
    let ghost env0 = symbols@;
    proof {
        assert(env0 =~= env_base.push(Map::empty()));
        assert(spec_call(e0, env_base, d, s0) == spec_eval(e0, env0, d, s0));
    }
    let mut current = expression;
    let mut steps_cur = steps;
    let mut result: Result<Expression, RuntimeError> = Err(RuntimeError::StepsExceeded);
    loop
        invariant_except_break
            spec_eval(e0, env0, d, s0) == spec_eval(current@, symbols@, d, steps_cur as nat)
                || spec_eval(e0, env0, d, s0) == EvalOutcome::TimeDependent,
        invariant
            symbols.wf(),
            symbols@.len() == env0.len(),
            env0.len() == env_base.len() + 1,
            symbols@.drop_last() =~= env_base,
            steps_cur <= steps,
            depth >= 1,
            d == depth as nat,
            s0 == steps as nat,
        ensures
            symbols.wf(),
            symbols@.len() == env0.len(),
            env0.len() == env_base.len() + 1,
            symbols@.drop_last() =~= env_base,
            eval_matches(spec_eval(e0, env0, d, s0), result),
        decreases steps_cur,
    {
        let ghost prev = current@;
        let ghost env_prev = symbols@;
        let ghost sp = steps_cur as nat;
        if steps_cur == 0 {
            proof {
                assert(spec_eval(prev, env_prev, d, 0) == EvalOutcome::OutOfSteps);
            }
            result = Err(RuntimeError::StepsExceeded);
            break ;
        }
        steps_cur = steps_cur - 1;
        match current {
            Expression::Number(n) => {
                proof {
                    assert(spec_eval(prev, env_prev, d, sp) == EvalOutcome::Value(prev));
                }
                result = Ok(Expression::Number(n));
                break ;
            },
            Expression::Char(c) => {
                proof {
                    assert(spec_eval(prev, env_prev, d, sp) == EvalOutcome::Value(prev));
                }
                result = Ok(Expression::Char(c));
                break ;
            },
            Expression::Bool(b) => {
                proof {
                    assert(spec_eval(prev, env_prev, d, sp) == EvalOutcome::Value(prev));
                }
                result = Ok(Expression::Bool(b));
                break ;
            },
            Expression::Array(t, elems) => {
                proof {
                    assert(spec_eval(prev, env_prev, d, sp) == EvalOutcome::Value(prev));
                }
                result = Ok(Expression::Array(t, elems));
                break ;
            },
            Expression::FunctionDeclaration(f) => {
                proof {
                    assert(spec_eval(prev, env_prev, d, sp) == EvalOutcome::Value(prev));
                }
                result = Ok(Expression::FunctionDeclaration(f));
                break ;
            },
            Expression::Identifier(name) => {
                proof {
                    assert(prev == SpecExpression::Identifier(name@));
                }
                let got = symbols.get(name.as_str());
                match got {
                    None => {
                        proof {
                            assert(spec_eval(prev, env_prev, d, sp) == EvalOutcome::Fail(
                                SpecRuntimeError::UnboundIdentifier(name@),
                            ));
                        }
                        result = Err(RuntimeError::UnboundIdentifier(name));
                        break ;
                    },
                    Some(decl) => {
                        current = *decl.expression;
                        proof {
                            assert(current@ == *decl@.expression);
                            assert(spec_eval(prev, env_prev, d, sp) == spec_eval(
                                current@,
                                symbols@,
                                d,
                                steps_cur as nat,
                            ));
                        }
                    },
                }
            },
            Expression::FunctionCall(call) => {
                proof {
                    assert(prev == SpecExpression::FunctionCall(
                        crate::ast::SpecFunctionCall {
                            name: call.name@,
                            arguments: view_exprs(call.arguments@),
                        },
                    ));
                    crate::ast::lemma_view_exprs_props(call.arguments@);
                    assert(sub1(d) == (depth - 1) as nat);
                }
                if is_builtin_name(&call.name) {
                    if str_is(&call.name, "time") {
                        proof {
                            assert(spec_eval(prev, env_prev, d, sp)
                                == EvalOutcome::TimeDependent);
                        }
                        let t = crate::builtins::time();
                        result = Ok(t);
                        break ;
                    } else if call.arguments.len() == 0 {
                        proof {
                            assert(spec_eval(prev, env_prev, d, sp) == EvalOutcome::Fail(
                                SpecRuntimeError::ArityMismatch(call.name@),
                            ));
                        }
                        result = Err(RuntimeError::ArityMismatch(call.name));
                        break ;
                    } else {
                        let arg0 = call.arguments[0].clone();
                        let ghost a0 = view_exprs(call.arguments@)[0];
                        let sub = evaluate(arg0, symbols, depth - 1, steps_cur);
                        let ghost osub = spec_call(a0, env_prev, sub1(d), steps_cur as nat);
                        match sub {
                            Err(e) => {
                                proof {
                                    assert(eval_matches(osub, Result::<
                                        Expression,
                                        RuntimeError,
                                    >::Err(e)));
                                    match osub {
                                        EvalOutcome::Fail(f) => {
                                            assert(spec_eval(prev, env_prev, d, sp)
                                                == EvalOutcome::Fail(f));
                                        },
                                        EvalOutcome::OutOfSteps => {
                                            assert(spec_eval(prev, env_prev, d, sp)
                                                == EvalOutcome::OutOfSteps);
                                        },
                                        _ => {},
                                    }
                                }
                                result = Err(e);
                                break ;
                            },
                            Ok(v) => {
                                let ghost vv = v@;
                                let rb = eval_builtin(&call.name, v);
                                proof {
                                    match osub {
                                        EvalOutcome::Value(x) => {
                                            assert(x == vv);
                                            assert(spec_eval(prev, env_prev, d, sp)
                                                == spec_builtin_eval(call.name@, vv));
                                        },
                                        _ => {},
                                    }
                                }
                                result = rb;
                                break ;
                            },
                        }
                    }
                } else {
                    let got = symbols.get(call.name.as_str());
                    match got {
                        None => {
                            proof {
                                assert(spec_eval(prev, env_prev, d, sp) == EvalOutcome::Fail(
                                    SpecRuntimeError::UnboundIdentifier(call.name@),
                                ));
                            }
                            result = Err(RuntimeError::UnboundIdentifier(call.name));
                            break ;
                        },
                        Some(decl) => {
                            let stored = *decl.expression;
                            proof {
                                assert(stored@ == *decl@.expression);
                            }
                            match stored {
                                Expression::FunctionDeclaration(f) => {
                                    proof {
                                        assert(*decl@.expression
                                            == SpecExpression::FunctionDeclaration(f@));
                                        crate::ast::lemma_view_params_props(f.parameters@);
                                    }
                                    if f.parameters.len() != call.arguments.len() {
                                        proof {
                                            assert(spec_eval(prev, env_prev, d, sp)
                                                == EvalOutcome::Fail(
                                                SpecRuntimeError::ArityMismatch(call.name@),
                                            ));
                                        }
                                        result = Err(RuntimeError::ArityMismatch(call.name));
                                        break ;
                                    } else {
                                        let ghost argsv = view_exprs(call.arguments@);
                                        proof {
                                            assert(argsv.skip(0) =~= argsv);
                                        }
                                        let vals_r = eval_args(
                                            &call.arguments,
                                            0,
                                            symbols,
                                            depth - 1,
                                            steps_cur,
                                        );
                                        let ghost olist = spec_eval_list(
                                            argsv,
                                            env_prev,
                                            sub1(d),
                                            steps_cur as nat,
                                        );
                                        match vals_r {
                                            Err(e) => {
                                                proof {
                                                    match olist {
                                                        ListOutcome::Fail(f2) => {
                                                            assert(spec_eval(prev, env_prev, d, sp)
                                                                == EvalOutcome::Fail(f2));
                                                        },
                                                        ListOutcome::OutOfSteps => {
                                                            assert(spec_eval(prev, env_prev, d, sp)
                                                                == EvalOutcome::OutOfSteps);
                                                        },
                                                        _ => {},
                                                    }
                                                }
                                                result = Err(e);
                                                break ;
                                            },
                                            Ok(vals) => {
                                                let ghost vsv = view_exprs(vals@);
                                                let ghost env_call = symbols@;
                                                let ghost paramsv = view_params(f.parameters@);
                                                proof {
                                                    crate::ast::lemma_view_exprs_props(vals@);
                                                    assert(env_call == env_prev);
                                                    assert(paramsv.take(0) =~= Seq::<
                                                        SpecFunctionParameter,
                                                    >::empty());
                                                    assert(vsv.take(0) =~= Seq::<
                                                        SpecExpression,
                                                    >::empty());
                                                    assert(env_call.update(
                                                        env_call.len() - 1,
                                                        spec_bind(
                                                            env_call.last(),
                                                            paramsv.take(0),
                                                            vsv.take(0),
                                                        ),
                                                    ) =~= env_call);
                                                }
                                                let mut i: usize = 0;
                                                while i < f.parameters.len()
                                                    invariant
                                                        i <= f.parameters@.len(),
                                                        vals@.len() == f.parameters@.len(),
                                                        symbols.wf(),
                                                        env_call.len() > 0,
                                                        symbols@.len() == env_call.len(),
                                                        paramsv == view_params(f.parameters@),
                                                        vsv == view_exprs(vals@),
                                                        symbols@ =~= env_call.update(
                                                            env_call.len() - 1,
                                                            spec_bind(
                                                                env_call.last(),
                                                                paramsv.take(i as int),
                                                                vsv.take(i as int),
                                                            ),
                                                        ),
                                                    decreases f.parameters@.len() - i,
                                                {
                                                    proof {
                                                        crate::ast::lemma_view_params_props(
                                                            f.parameters@,
                                                        );
                                                        crate::ast::lemma_view_exprs_props(vals@);
                                                    }
                                                    let nm = f.parameters[i].name.clone();
                                                    let ty = f.parameters[i].type_.clone();
                                                    let bound = Declaration {
                                                        name: nm,
                                                        type_: ty,
                                                        expression: Box::new(vals[i].clone()),
                                                    };
                                                    let key = f.parameters[i].name.clone();
                                                    let ghost before = symbols@;
                                                    symbols.insert(key, bound);
                                                    proof {
                                                        assert(paramsv.take(i + 1).drop_last()
                                                            =~= paramsv.take(i as int));
                                                        assert(vsv.take(i + 1).drop_last()
                                                            =~= vsv.take(i as int));
                                                        assert(paramsv.take(i + 1).last()
                                                            == paramsv[i as int]);
                                                        assert(vsv.take(i + 1).last()
                                                            == vsv[i as int]);
                                                        assert(paramsv[i as int]
                                                            == f.parameters@[i as int]@);
                                                        assert(vsv[i as int]
                                                            == view_expr(vals@[i as int]));
                                                        assert(spec_bind(
                                                            env_call.last(),
                                                            paramsv.take(i + 1),
                                                            vsv.take(i + 1),
                                                        ) == spec_bind(
                                                            env_call.last(),
                                                            paramsv.take(i as int),
                                                            vsv.take(i as int),
                                                        ).insert(
                                                            paramsv[i as int].name,
                                                            SpecDeclaration {
                                                                name: paramsv[i as int].name,
                                                                type_: paramsv[i as int].type_,
                                                                expression: Box::new(
                                                                    vsv[i as int],
                                                                ),
                                                            },
                                                        ));
                                                        assert(symbols@ =~= env_call.update(
                                                            env_call.len() - 1,
                                                            spec_bind(
                                                                env_call.last(),
                                                                paramsv.take(i + 1),
                                                                vsv.take(i + 1),
                                                            ),
                                                        ));
                                                    }
                                                    i = i + 1;
                                                }
                                                current = *f.expression;
                                                proof {
                                                    assert(paramsv.take(paramsv.len() as int)
                                                        =~= paramsv);
                                                    assert(vsv.take(vsv.len() as int) =~= vsv);
                                                    assert(symbols@ =~= bind_env(
                                                        env_prev,
                                                        paramsv,
                                                        vsv,
                                                    ));
                                                    assert(current@ == *f@.expression);
                                                    match olist {
                                                        ListOutcome::Values(xs) => {
                                                            assert(xs == vsv);
                                                            assert(spec_eval(prev, env_prev, d, sp)
                                                                == spec_eval(
                                                                current@,
                                                                bind_env(env_prev, paramsv, vsv),
                                                                d,
                                                                steps_cur as nat,
                                                            ));
                                                            assert(spec_eval(prev, env_prev, d, sp)
                                                                == spec_eval(
                                                                current@,
                                                                symbols@,
                                                                d,
                                                                steps_cur as nat,
                                                            ));
                                                        },
                                                        ListOutcome::TimeDependent => {
                                                            assert(spec_eval(prev, env_prev, d, sp)
                                                                == EvalOutcome::TimeDependent);
                                                        },
                                                        _ => {},
                                                    }
                                                }
                                            },
                                        }
                                    }
                                },
                                _ => {
                                    proof {
                                        assert(!(*decl@.expression
                                            is FunctionDeclaration));
                                        assert(spec_eval(prev, env_prev, d, sp)
                                            == EvalOutcome::Fail(
                                            SpecRuntimeError::NotAFunction(call.name@),
                                        ));
                                    }
                                    result = Err(RuntimeError::NotAFunction(call.name));
                                    break ;
                                },
                            }
                        },
                    }
                }
            },
            Expression::BinaryOperation(b) => {
                proof {
                    assert(prev == SpecExpression::BinaryOperation(
                        crate::ast::SpecBinaryOperation {
                            operator: b.operator,
                            left: Box::new(view_expr(*b.left)),
                            right: Box::new(view_expr(*b.right)),
                        },
                    ));
                    assert(sub1(d) == (depth - 1) as nat);
                }
                let ghost lview = view_expr(*b.left);
                let ghost rview = view_expr(*b.right);
                let lsub = evaluate(*b.left, symbols, depth - 1, steps_cur);
                let ghost ol = spec_call(lview, env_prev, sub1(d), steps_cur as nat);
                match lsub {
                    Err(e) => {
                        proof {
                            match ol {
                                EvalOutcome::Fail(f2) => {
                                    assert(spec_eval(prev, env_prev, d, sp) == EvalOutcome::Fail(
                                        f2,
                                    ));
                                },
                                EvalOutcome::OutOfSteps => {
                                    assert(spec_eval(prev, env_prev, d, sp)
                                        == EvalOutcome::OutOfSteps);
                                },
                                _ => {},
                            }
                        }
                        result = Err(e);
                        break ;
                    },
                    Ok(lv) => {
                        let rsub = evaluate(*b.right, symbols, depth - 1, steps_cur);
                        let ghost or = spec_call(rview, env_prev, sub1(d), steps_cur as nat);
                        match rsub {
                            Err(e) => {
                                proof {
                                    match (ol, or) {
                                        (EvalOutcome::Value(_), EvalOutcome::Fail(f2)) => {
                                            assert(spec_eval(prev, env_prev, d, sp)
                                                == EvalOutcome::Fail(f2));
                                        },
                                        (EvalOutcome::Value(_), EvalOutcome::OutOfSteps) => {
                                            assert(spec_eval(prev, env_prev, d, sp)
                                                == EvalOutcome::OutOfSteps);
                                        },
                                        _ => {},
                                    }
                                }
                                result = Err(e);
                                break ;
                            },
                            Ok(rv) => {
                                let ghost lvv = lv@;
                                let ghost rvv = rv@;
                                let br = eval_binary(b.operator, lv, rv);
                                proof {
                                    match (ol, or) {
                                        (EvalOutcome::Value(x), EvalOutcome::Value(y)) => {
                                            assert(x == lvv && y == rvv);
                                            assert(spec_eval(prev, env_prev, d, sp)
                                                == spec_binop_eval(b.operator, lvv, rvv));
                                        },
                                        _ => {},
                                    }
                                }
                                result = br;
                                break ;
                            },
                        }
                    },
                }
            },
            Expression::Match(m) => {
                proof {
                    assert(prev == SpecExpression::Match(
                        crate::ast::SpecMatch {
                            value: Box::new(view_expr(*m.value)),
                            patterns: view_arms(m.patterns@),
                            default: crate::parser::view_default(m.default),
                        },
                    ));
                    assert(sub1(d) == (depth - 1) as nat);
                }
                let ghost vview = view_expr(*m.value);
                let ghost armsv = view_arms(m.patterns@);
                let sub = evaluate(*m.value, symbols, depth - 1, steps_cur);
                let ghost ov = spec_call(vview, env_prev, sub1(d), steps_cur as nat);
                match sub {
                    Err(e) => {
                        proof {
                            match ov {
                                EvalOutcome::Fail(f2) => {
                                    assert(spec_eval(prev, env_prev, d, sp) == EvalOutcome::Fail(
                                        f2,
                                    ));
                                },
                                EvalOutcome::OutOfSteps => {
                                    assert(spec_eval(prev, env_prev, d, sp)
                                        == EvalOutcome::OutOfSteps);
                                },
                                _ => {},
                            }
                        }
                        result = Err(e);
                        break ;
                    },
                    Ok(sv) => {
                        let ghost svv = sv@;
                        proof {
                            assert(armsv.skip(0) =~= armsv);
                        }
                        let ar = eval_arms(&sv, &m.patterns, 0, symbols, depth, steps_cur);
                        let ghost oarms = spec_eval_arms(
                            svv,
                            armsv,
                            env_prev,
                            d,
                            steps_cur as nat,
                        );
                        match ar {
                            ArmsEval::Finished(res) => {
                                proof {
                                    match (ov, oarms) {
                                        (EvalOutcome::Value(x), ArmsOutcome::Val(v2)) => {
                                            assert(x == svv);
                                            assert(spec_eval(prev, env_prev, d, sp)
                                                == EvalOutcome::Value(v2));
                                        },
                                        (EvalOutcome::Value(x), ArmsOutcome::Fail(f2)) => {
                                            assert(spec_eval(prev, env_prev, d, sp)
                                                == EvalOutcome::Fail(f2));
                                        },
                                        (EvalOutcome::Value(x), ArmsOutcome::OutOfSteps) => {
                                            assert(spec_eval(prev, env_prev, d, sp)
                                                == EvalOutcome::OutOfSteps);
                                        },
                                        _ => {},
                                    }
                                }
                                result = res;
                                break ;
                            },
                            ArmsEval::NoMatch => {
                                match m.default {
                                    Some(dd) => {
                                        current = *dd;
                                        proof {
                                            match (ov, oarms) {
                                                (
                                                    EvalOutcome::Value(x),
                                                    ArmsOutcome::NoMatch,
                                                ) => {
                                                    assert(spec_eval(prev, env_prev, d, sp)
                                                        == spec_eval(
                                                        current@,
                                                        symbols@,
                                                        d,
                                                        steps_cur as nat,
                                                    ));
                                                },
                                                _ => {
                                                    assert(spec_eval(prev, env_prev, d, sp)
                                                        == EvalOutcome::TimeDependent);
                                                },
                                            }
                                        }
                                    },
                                    None => {
                                        proof {
                                            match (ov, oarms) {
                                                (
                                                    EvalOutcome::Value(x),
                                                    ArmsOutcome::NoMatch,
                                                ) => {
                                                    assert(spec_eval(prev, env_prev, d, sp)
                                                        == EvalOutcome::Fail(
                                                        SpecRuntimeError::MissingDefault,
                                                    ));
                                                },
                                                _ => {
                                                    assert(spec_eval(prev, env_prev, d, sp)
                                                        == EvalOutcome::TimeDependent);
                                                },
                                            }
                                        }
                                        result = Err(RuntimeError::MissingDefault);
                                        break ;
                                    },
                                }
                            },
                        }
                    },
                }
            },
        }
    }
    proof {
        old(symbols).lemma_wf_nonempty();
        assert(env_base.len() == old(symbols)@.len());
    }
    symbols.pop_frame();
    proof {
        assert(symbols@ =~= env_base);
        assert(symbols@ == old(symbols)@);
    }
    result
}


/// The depth budget a virtual machine grants each evaluation: it bounds
/// native recursion, while logical tail recursion is not charged against it.
pub const DEPTH_LIMIT: u64 = 1000;

/// The step budget a virtual machine grants a program run; no terminating
/// run reaches it.
pub const STEP_LIMIT: u64 = u64::MAX;

/// The environment with `name` bound in its newest frame.
pub open spec fn env_insert(env: SpecEnv, name: Seq<char>, decl: SpecDeclaration) -> SpecEnv {
    env.update(env.len() - 1, env.last().insert(name, decl))
}

/// What running a program resolves to: the finished environment, or a
/// failure with the environment as it stood when the failing statement ran.
pub enum RunOutcome {
    Done(SpecEnv),
    Fail(SpecRuntimeError, SpecEnv),
    OutOfSteps,
    TimeDependent,
}

/// Running a program: each declaration of a function literal is stored
/// unevaluated, so the function can call itself by name; every other
/// declaration's expression is evaluated and the value stored; a bare
/// expression is evaluated for effect and its value discarded, leaving the
/// environment untouched. The first failure stops the run.
pub open spec fn spec_run(items: Seq<SpecItem>, env: SpecEnv, depth: nat, steps: nat) -> RunOutcome
    decreases steps, items.len(),
{
    if items.len() == 0 {
        RunOutcome::Done(env)
    } else if steps == 0 {
        RunOutcome::OutOfSteps
    } else {
        match items[0] {
            SpecItem::Declaration(decl) => if *decl.expression is FunctionDeclaration {
                spec_run(
                    items.drop_first(),
                    env_insert(env, decl.name, decl),
                    depth,
                    (steps - 1) as nat,
                )
            } else {
                match spec_call(*decl.expression, env, depth, (steps - 1) as nat) {
                    EvalOutcome::Value(v) => spec_run(
                        items.drop_first(),
                        env_insert(
                            env,
                            decl.name,
                            SpecDeclaration {
                                name: decl.name,
                                type_: decl.type_,
                                expression: Box::new(v),
                            },
                        ),
                        depth,
                        (steps - 1) as nat,
                    ),
                    EvalOutcome::Fail(f) => RunOutcome::Fail(f, env),
                    EvalOutcome::OutOfSteps => RunOutcome::OutOfSteps,
                    EvalOutcome::TimeDependent => RunOutcome::TimeDependent,
                }
            },
            SpecItem::Expression(e) => match spec_call(e, env, depth, (steps - 1) as nat) {
                EvalOutcome::Value(_) => spec_run(
                    items.drop_first(),
                    env,
                    depth,
                    (steps - 1) as nat,
                ),
                EvalOutcome::Fail(f) => RunOutcome::Fail(f, env),
                EvalOutcome::OutOfSteps => RunOutcome::OutOfSteps,
                EvalOutcome::TimeDependent => RunOutcome::TimeDependent,
            },
        }
    }
}

/// How a run's result and final environment relate to what the spec run
/// resolves to.
pub open spec fn run_matches(o: RunOutcome, r: Result<(), RuntimeError>, envf: SpecEnv) -> bool {
    match o {
        RunOutcome::Done(env) => r is Ok && envf == env,
        RunOutcome::Fail(f, env) => match r {
            Ok(_) => false,
            Err(e) => e@ == f && envf == env,
        },
        RunOutcome::OutOfSteps => r == Result::<(), RuntimeError>::Err(RuntimeError::StepsExceeded),
        RunOutcome::TimeDependent => true,
    }
}

/// The virtual machine: a root scope chain that `run` extends with the
/// program's declarations.
pub struct VirtualMachine {
    pub symbols: ScopedSymbols,
}

impl VirtualMachine {
    /// The machine's scope chain is well-formed.
    pub open spec fn wf(&self) -> bool {
        self.symbols.wf()
    }

    /// A machine over an empty root environment.
    pub fn new() -> (r: VirtualMachine)
        ensures
            r.wf(),
            r.symbols@ =~= seq![Map::<Seq<char>, SpecDeclaration>::empty()],
    {
        VirtualMachine { symbols: ScopedSymbols::new() }
    }

    /// Evaluates one expression against the machine's environment, which
    /// comes back unchanged.
    pub fn evaluate(&mut self, expression: Expression) -> (r: Result<Expression, RuntimeError>)
        requires
            old(self).wf(),
        ensures
            final(self).wf(),
            final(self).symbols@ == old(self).symbols@,
            eval_matches(
                spec_call(
                    expression@,
                    old(self).symbols@,
                    DEPTH_LIMIT as nat,
                    STEP_LIMIT as nat,
                ),
                r,
            ),
    {
        evaluate(expression, &mut self.symbols, DEPTH_LIMIT, STEP_LIMIT)
    }

    /// Runs a program: folds its items over the root environment, stopping
    /// at the first failure.
    pub fn run(&mut self, program: Vec<Item>) -> (r: Result<(), RuntimeError>)
        requires
            old(self).wf(),
        ensures
            final(self).wf(),
            run_matches(
                spec_run(
                    view_items(program@),
                    old(self).symbols@,
                    DEPTH_LIMIT as nat,
                    STEP_LIMIT as nat,
                ),
                r,
                final(self).symbols@,
            ),
    {
        proof {
            assert(view_items(program@).skip(0) =~= view_items(program@));
        }
        self.run_items(&program, 0, STEP_LIMIT)
    }

    /// Runs the items from index `i` on.
    fn run_items(&mut self, program: &Vec<Item>, i: usize, steps: u64) -> (r: Result<
        (),
        RuntimeError,
    >)
        requires
            i <= program@.len(),
            old(self).wf(),
        ensures
            final(self).wf(),
            run_matches(
                spec_run(
                    view_items(program@).skip(i as int),
                    old(self).symbols@,
                    DEPTH_LIMIT as nat,
                    steps as nat,
                ),
                r,
                final(self).symbols@,
            ),
        decreases program@.len() - i,
    {
        proof {
            crate::ast::lemma_view_items_props(program@);
        }
        let ghost itemsv = view_items(program@);
        let ghost env = self.symbols@;
        if i >= program.len() {
            proof {
                assert(itemsv.skip(i as int) =~= Seq::<SpecItem>::empty());
            }
            Ok(())
        } else if steps == 0 {
            Err(RuntimeError::StepsExceeded)
        } else {
            proof {
                assert(itemsv.skip(i as int)[0] == itemsv[i as int]);
                assert(itemsv.skip(i as int).drop_first() =~= itemsv.skip(i as int + 1));
                assert(itemsv.skip(i as int).len() == itemsv.len() - i);
            }
            match &program[i] {
                Item::Declaration(decl) => {
                    proof {
                        assert(program@[i as int] == Item::Declaration(*decl));
                    }
                    match &*decl.expression {
                        Expression::FunctionDeclaration(_) => {
                            let stored = decl.clone();
                            let key = decl.name.clone();
                            self.symbols.insert(key, stored);
                            proof {
                                assert(self.symbols@ =~= env_insert(env, decl.name@, decl@));
                            }
                            self.run_items(program, i + 1, steps - 1)
                        },
                        _ => {
                            let ev = evaluate(
                                (*decl.expression).clone(),
                                &mut self.symbols,
                                DEPTH_LIMIT,
                                steps - 1,
                            );
                            let ghost oe = spec_call(
                                *decl@.expression,
                                env,
                                DEPTH_LIMIT as nat,
                                (steps - 1) as nat,
                            );
                            match ev {
                                Err(e) => Err(e),
                                Ok(v) => {
                                    let bound = Declaration {
                                        name: decl.name.clone(),
                                        type_: decl.type_.clone(),
                                        expression: Box::new(v),
                                    };
                                    let key = decl.name.clone();
                                    let ghost boundv = bound@;
                                    self.symbols.insert(key, bound);
                                    proof {
                                        assert(self.symbols@ =~= env_insert(
                                            env,
                                            decl.name@,
                                            boundv,
                                        ));
                                    }
                                    self.run_items(program, i + 1, steps - 1)
                                },
                            }
                        },
                    }
                },
                Item::Expression(e) => {
                    proof {
                        assert(program@[i as int] == Item::Expression(*e));
                    }
                    let ev = evaluate(e.clone(), &mut self.symbols, DEPTH_LIMIT, steps - 1);
                    match ev {
                        Err(err) => Err(err),
                        Ok(_) => self.run_items(program, i + 1, steps - 1),
                    }
                },
            }
        }
    }
}

} // verus!
