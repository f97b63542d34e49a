//! Laws of the language, stated over the spec interpreter and the spec
//! parser and proved once and for all. Each is a fact a user of the
//! library can lean on without reading the implementations.

use vstd::prelude::*;

use crate::ast::BinaryOperator;
use crate::ast::SpecExpression;
use crate::ast::SpecItem;
use crate::ast::SpecMatch;
use crate::ast::Type;
use crate::parser::spec_parse_function_declaration;
use crate::parser::spec_parse_group;
use crate::parser::spec_parse_primary;
use crate::parser::spec_parse_suffix;
use crate::parser::Parsed;
use crate::scoped_symbols::spec_lookup;
use crate::scoped_symbols::SpecEnv;
use crate::token::SpecToken;
use crate::virtual_machine::bind_env;
use crate::virtual_machine::is_value_form;
use crate::virtual_machine::same_variant;
use crate::virtual_machine::spec_binop_eval;
use crate::virtual_machine::spec_call;
use crate::virtual_machine::spec_eval;
use crate::virtual_machine::spec_eval_arms;
use crate::virtual_machine::spec_eval_list;
use crate::virtual_machine::spec_exprs_eq;
use crate::virtual_machine::spec_run;
use crate::virtual_machine::sub1;
use crate::virtual_machine::ArmsOutcome;
use crate::virtual_machine::EvalOutcome;
use crate::virtual_machine::ListOutcome;
use crate::virtual_machine::SpecRuntimeError;

verus! {

/// A value form evaluates to itself: literals, arrays among them, are
/// already values and come back unchanged from evaluation.
pub proof fn lemma_value_form_evaluates_to_itself(
    e: SpecExpression,
    env: SpecEnv,
    depth: nat,
    steps: nat,
)
    requires
        is_value_form(e),
        steps > 0,
    ensures
        spec_eval(e, env, depth, steps) == EvalOutcome::Value(e),
{
}

/// An array literal evaluates to itself, elements untouched, whatever they
/// hold and whatever the environment binds.
pub proof fn lemma_array_literal_round_trip(
    t: Type,
    elements: Seq<SpecExpression>,
    env: SpecEnv,
    depth: nat,
    steps: nat,
)
    requires
        steps > 0,
    ensures
        spec_eval(SpecExpression::Array(t, elements), env, depth, steps) == EvalOutcome::Value(
            SpecExpression::Array(t, elements),
        ),
{
}

/// A match default stands in tail position: once the scrutinee has a value
/// and no arm matches, the match reduces to its default at the very same
/// depth. Only the step budget, never the depth budget, pays for the
/// reduction; this is what bounds the evaluator's native stack for
/// tail-recursive functions whose recursion runs through a match default.
pub proof fn lemma_match_default_spends_no_depth(
    m: SpecMatch,
    sv: SpecExpression,
    d: Box<SpecExpression>,
    env: SpecEnv,
    depth: nat,
    steps: nat,
)
    requires
        steps > 0,
        !is_value_form(SpecExpression::Match(m)),
        spec_call(*m.value, env, sub1(depth), (steps - 1) as nat) == EvalOutcome::Value(sv),
        spec_eval_arms(sv, m.patterns, env, depth, (steps - 1) as nat) == ArmsOutcome::NoMatch,
        m.default == Some(d),
    ensures
        spec_eval(SpecExpression::Match(m), env, depth, steps) == spec_eval(
            *d,
            env,
            depth,
            (steps - 1) as nat,
        ),
{
}

/// A called function's body stands in tail position: once the callee is
/// resolved and the arguments have values, the call reduces to the body
/// over the extended environment at the very same depth. Only the
/// arguments' own evaluation spends depth, so self-recursive tail calls
/// run at constant native depth however many times they recur.
pub proof fn lemma_call_body_spends_no_depth(
    call: crate::ast::SpecFunctionCall,
    f: crate::ast::SpecFunctionDeclaration,
    decl: crate::ast::SpecDeclaration,
    vs: Seq<SpecExpression>,
    env: SpecEnv,
    depth: nat,
    steps: nat,
)
    requires
        steps > 0,
        !crate::virtual_machine::is_builtin(call.name),
        spec_lookup(env, call.name) == Some(decl),
        *decl.expression == SpecExpression::FunctionDeclaration(f),
        f.parameters.len() == call.arguments.len(),
        spec_eval_list(call.arguments, env, sub1(depth), (steps - 1) as nat)
            == ListOutcome::Values(vs),
    ensures
        spec_eval(SpecExpression::FunctionCall(call), env, depth, steps) == spec_eval(
            *f.expression,
            bind_env(env, f.parameters, vs),
            depth,
            (steps - 1) as nat,
        ),
{
}

/// A bare expression item leaves the environment exactly as it was: only
/// declarations extend it, so nothing bound during the expression's
/// evaluation leaks into the program's scope.
pub proof fn lemma_expression_item_preserves_env(
    items: Seq<SpecItem>,
    e: SpecExpression,
    v: SpecExpression,
    env: SpecEnv,
    depth: nat,
    steps: nat,
)
    requires
        steps > 0,
        items.len() > 0,
        items[0] == SpecItem::Expression(e),
        spec_call(e, env, depth, (steps - 1) as nat) == EvalOutcome::Value(v),
    ensures
        spec_run(items, env, depth, steps) == spec_run(
            items.drop_first(),
            env,
            depth,
            (steps - 1) as nat,
        ),
{
}

/// Array concatenation: `+` on two arrays whose declared element types
/// agree yields their elements in order under the left operand's tag.
pub proof fn lemma_array_concat(
    t: Type,
    left: Seq<SpecExpression>,
    right: Seq<SpecExpression>,
)
    ensures
        spec_binop_eval(
            BinaryOperator::Add,
            SpecExpression::Array(t, left),
            SpecExpression::Array(t, right),
        ) == EvalOutcome::Value(SpecExpression::Array(t, left + right)),
{
}

/// Arrays whose declared element types differ do not concatenate: `+` on
/// them is a type mismatch.
pub proof fn lemma_array_concat_needs_equal_tags(
    t1: Type,
    t2: Type,
    left: Seq<SpecExpression>,
    right: Seq<SpecExpression>,
)
    requires
        t1 != t2,
    ensures
        spec_binop_eval(
            BinaryOperator::Add,
            SpecExpression::Array(t1, left),
            SpecExpression::Array(t2, right),
        ) == EvalOutcome::Fail(SpecRuntimeError::TypeMismatch),
{
}

/// Array equality is structural and ignores the declared element-type
/// tags: `==` on two arrays compares their elements alone, pairwise.
pub proof fn lemma_array_equality_ignores_tags(
    t1: Type,
    t2: Type,
    left: Seq<SpecExpression>,
    right: Seq<SpecExpression>,
)
    ensures
        spec_binop_eval(
            BinaryOperator::Equal,
            SpecExpression::Array(t1, left),
            SpecExpression::Array(t2, right),
        ) == EvalOutcome::Value(SpecExpression::Bool(spec_exprs_eq(left, right))),
{
}

/// Match arms are type-checked in order: when the first arm's candidate
/// evaluates to a value of another variant than the scrutinee's, the match
/// fails with a type mismatch, even if a later arm or the default would
/// have matched by value.
pub proof fn lemma_match_variant_mismatch_fails(
    sv: SpecExpression,
    arms: Seq<(SpecExpression, SpecExpression)>,
    pv: SpecExpression,
    env: SpecEnv,
    depth: nat,
    steps: nat,
)
    requires
        steps > 0,
        arms.len() > 0,
        spec_call(arms[0].0, env, sub1(depth), (steps - 1) as nat) == EvalOutcome::Value(pv),
        !same_variant(sv, pv),
    ensures
        spec_eval_arms(sv, arms, env, depth, steps) == ArmsOutcome::Fail(
            SpecRuntimeError::TypeMismatch,
        ),
{
}

/// The whole match fails on the first arm's variant mismatch: with a
/// number scrutinee and a first candidate that evaluates to a boolean, the
/// match is a type mismatch whatever the later arms and the default hold.
pub proof fn lemma_match_type_safety(
    m: SpecMatch,
    sv: SpecExpression,
    pv: SpecExpression,
    env: SpecEnv,
    depth: nat,
    steps: nat,
)
    requires
        steps > 1,
        m.patterns.len() > 0,
        spec_call(*m.value, env, sub1(depth), (steps - 1) as nat) == EvalOutcome::Value(sv),
        spec_call(m.patterns[0].0, env, sub1(depth), (steps - 2) as nat) == EvalOutcome::Value(
            pv,
        ),
        sv is Number,
        pv is Bool,
    ensures
        spec_eval(SpecExpression::Match(m), env, depth, steps) == EvalOutcome::Fail(
            SpecRuntimeError::TypeMismatch,
        ),
{
    assert(!is_value_form(SpecExpression::Match(m)));
    assert(!same_variant(sv, pv));
    lemma_match_variant_mismatch_fails(sv, m.patterns, pv, env, depth, (steps - 1) as nat);
}

/// The resolution of the `(` ambiguity: a primary starting with `(` is
/// read as a parenthesized group whenever the tokens from the `(` on parse
/// as one; only when that fails is it read as a function literal.
pub proof fn lemma_paren_ambiguity_resolution(toks: Seq<SpecToken>, pos: nat)
    requires
        pos < toks.len(),
        toks[pos as int].kind is LeftParen,
    ensures
        match spec_parse_group(toks, (pos + 1) as nat) {
            Parsed::Done(e, p) => spec_parse_primary(toks, pos) == if p <= pos {
                Parsed::Fail(crate::parser::sp_err_stuck())
            } else {
                spec_parse_suffix(toks, p, e)
            },
            Parsed::Fail(_) => spec_parse_primary(toks, pos) == match
                spec_parse_function_declaration(toks, (pos + 1) as nat) {
                Parsed::Fail(e2) => Parsed::Fail(e2),
                Parsed::Done(f, p) => if p <= pos {
                    Parsed::Fail(crate::parser::sp_err_stuck())
                } else {
                    spec_parse_suffix(toks, p, f)
                },
            },
        },
{
}

} // verus!
