use vstd::prelude::*;

use crate::token::SpecToken;
use crate::token::Token;

verus! {

/// A parse failure: a message and, where one is at hand, the offending token,
/// whose span a front end can point at in the source text.
#[derive(Debug, PartialEq)]
pub struct ParserError {
    pub message: String,
    pub token: Option<Token>,
}

/// Mathematical model of a parse failure.
pub struct SpecParserError {
    pub message: Seq<char>,
    pub token: Option<SpecToken>,
}

impl View for ParserError {
    type V = SpecParserError;

    open spec fn view(&self) -> SpecParserError {
        SpecParserError {
            message: self.message@,
            token: match self.token {
                Some(t) => Some(t@),
                None => None,
            },
        }
    }
}

/// A declared type. Declared types are metadata only: they are never checked
/// against the runtime type of the evaluated expression.
#[derive(Debug, PartialEq)]
pub enum Type {
    Number,
    Char,
    Boolean,
    Function,
    Array(Box<Type>),
}

impl Clone for Type {
    fn clone(&self) -> (r: Self)
        ensures
            r == *self,
        decreases self,
    {
        match self {
            Type::Number => Type::Number,
            Type::Char => Type::Char,
            Type::Boolean => Type::Boolean,
            Type::Function => Type::Function,
            Type::Array(t) => Type::Array(Box::new((**t).clone())),
        }
    }
}

/// Structural equality of two declared types.
pub fn type_eq(a: &Type, b: &Type) -> (r: bool)
    ensures
        r == (a == b),
    decreases a,
{
    match (a, b) {
        (Type::Number, Type::Number) => true,
        (Type::Char, Type::Char) => true,
        (Type::Boolean, Type::Boolean) => true,
        (Type::Function, Type::Function) => true,
        (Type::Array(x), Type::Array(y)) => type_eq(x, y),
        _ => false,
    }
}

/// One parameter of a function literal: a name and a declared type.
#[derive(Debug, PartialEq)]
pub struct FunctionParameter {
    pub name: String,
    pub type_: Type,
}

/// Mathematical model of a function parameter.
pub struct SpecFunctionParameter {
    pub name: Seq<char>,
    pub type_: Type,
}

impl View for FunctionParameter {
    type V = SpecFunctionParameter;

    open spec fn view(&self) -> SpecFunctionParameter {
        SpecFunctionParameter { name: self.name@, type_: self.type_ }
    }
}

impl Clone for FunctionParameter {
    fn clone(&self) -> (r: Self)
        ensures
            r@ == self@,
    {
        FunctionParameter { name: self.name.clone(), type_: self.type_.clone() }
    }
}

/// The operator of a binary operation. `And` and `Or` are reserved: no
/// evaluation rule is defined for them.
#[derive(Debug, PartialEq, Eq, Structural, Clone, Copy)]
pub enum BinaryOperator {
    Add,
    Subtract,
    Multiply,
    Divide,
    Modulo,
    Equal,
    NotEqual,
    LessThan,
    LessEqualThan,
    GreaterThan,
    GreaterEqualThan,
    And,
    Or,
}

/// A function literal: parameters, a declared return type, and a body.
/// It captures no environment; free names in the body are resolved against
/// the caller's scope chain at call time.
#[derive(Debug, PartialEq)]
pub struct FunctionDeclaration {
    pub parameters: Vec<FunctionParameter>,
    pub return_type: Type,
    pub expression: Box<Expression>,
}

/// A call of a named function with its argument expressions, in order.
#[derive(Debug, PartialEq)]
pub struct FunctionCall {
    pub name: String,
    pub arguments: Vec<Expression>,
}

/// A match expression: a scrutinee, ordered arms of (pattern, result), and an
/// optional default expression.
#[derive(Debug, PartialEq)]
pub struct Match {
    pub value: Box<Expression>,
    pub patterns: Vec<(Expression, Expression)>,
    pub default: Option<Box<Expression>>,
}

/// A binary operation over two sub-expressions.
#[derive(Debug, PartialEq)]
pub struct BinaryOperation {
    pub operator: BinaryOperator,
    pub left: Box<Expression>,
    pub right: Box<Expression>,
}

/// A `let` declaration: a name, a declared type, and the bound expression.
#[derive(Debug, PartialEq)]
pub struct Declaration {
    pub name: String,
    pub type_: Type,
    pub expression: Box<Expression>,
}

/// An expression of the language. A number literal carries the bit pattern of
/// the IEEE 754 binary64 value it denotes.
#[derive(Debug, PartialEq)]
pub enum Expression {
    Identifier(String),
    Number(u64),
    Char(u8),
    Bool(bool),
    Array(Type, Vec<Expression>),
    FunctionDeclaration(FunctionDeclaration),
    FunctionCall(FunctionCall),
    Match(Match),
    BinaryOperation(BinaryOperation),
}

/// A top-level unit: a declaration or a bare expression.
#[derive(Debug, PartialEq)]
pub enum Item {
    Declaration(Declaration),
    Expression(Expression),
}

/// Mathematical model of an expression.
pub enum SpecExpression {
    Identifier(Seq<char>),
    Number(u64),
    Char(u8),
    Bool(bool),
    Array(Type, Seq<SpecExpression>),
    FunctionDeclaration(SpecFunctionDeclaration),
    FunctionCall(SpecFunctionCall),
    Match(SpecMatch),
    BinaryOperation(SpecBinaryOperation),
}

/// Mathematical model of a function literal.
pub struct SpecFunctionDeclaration {
    pub parameters: Seq<SpecFunctionParameter>,
    pub return_type: Type,
    pub expression: Box<SpecExpression>,
}

/// Mathematical model of a function call.
pub struct SpecFunctionCall {
    pub name: Seq<char>,
    pub arguments: Seq<SpecExpression>,
}

/// Mathematical model of a match expression.
pub struct SpecMatch {
    pub value: Box<SpecExpression>,
    pub patterns: Seq<(SpecExpression, SpecExpression)>,
    pub default: Option<Box<SpecExpression>>,
}

/// Mathematical model of a binary operation.
pub struct SpecBinaryOperation {
    pub operator: BinaryOperator,
    pub left: Box<SpecExpression>,
    pub right: Box<SpecExpression>,
}

/// Mathematical model of a declaration.
pub struct SpecDeclaration {
    pub name: Seq<char>,
    pub type_: Type,
    pub expression: Box<SpecExpression>,
}

/// Mathematical model of a top-level unit.
pub enum SpecItem {
    Declaration(SpecDeclaration),
    Expression(SpecExpression),
}

/// The views of a sequence of expressions, in order.
pub open spec fn view_exprs(s: Seq<Expression>) -> Seq<SpecExpression>
    decreases s,
{
    if s.len() == 0 {
        Seq::empty()
    } else {
        seq![view_expr(s[0])] + view_exprs(s.drop_first())
    }
}

/// The views of a sequence of function parameters, in order.
pub open spec fn view_params(s: Seq<FunctionParameter>) -> Seq<SpecFunctionParameter>
    decreases s,
{
    if s.len() == 0 {
        Seq::empty()
    } else {
        seq![s[0]@] + view_params(s.drop_first())
    }
}

/// The views of a sequence of match arms, in order.
pub open spec fn view_arms(s: Seq<(Expression, Expression)>) -> Seq<(SpecExpression,
    SpecExpression)>
    decreases s,
{
    if s.len() == 0 {
        Seq::empty()
    } else {
        seq![(view_expr(s[0].0), view_expr(s[0].1))] + view_arms(s.drop_first())
    }
}

/// The view of one expression.
pub open spec fn view_expr(e: Expression) -> SpecExpression
    decreases e,
{
    match e {
        Expression::Identifier(s) => SpecExpression::Identifier(s@),
        Expression::Number(n) => SpecExpression::Number(n),
        Expression::Char(c) => SpecExpression::Char(c),
        Expression::Bool(b) => SpecExpression::Bool(b),
        Expression::Array(t, v) => SpecExpression::Array(t, view_exprs(v@)),
        Expression::FunctionDeclaration(f) => SpecExpression::FunctionDeclaration(
            SpecFunctionDeclaration {
                parameters: view_params(f.parameters@),
                return_type: f.return_type,
                expression: Box::new(view_expr(*f.expression)),
            },
        ),
        Expression::FunctionCall(c) => SpecExpression::FunctionCall(
            SpecFunctionCall { name: c.name@, arguments: view_exprs(c.arguments@) },
        ),
        Expression::Match(m) => SpecExpression::Match(
            SpecMatch {
                value: Box::new(view_expr(*m.value)),
                patterns: view_arms(m.patterns@),
                default: match m.default {
                    Some(d) => Some(Box::new(view_expr(*d))),
                    None => None,
                },
            },
        ),
        Expression::BinaryOperation(b) => SpecExpression::BinaryOperation(
            SpecBinaryOperation {
                operator: b.operator,
                left: Box::new(view_expr(*b.left)),
                right: Box::new(view_expr(*b.right)),
            },
        ),
    }
}

impl View for Expression {
    type V = SpecExpression;

    open spec fn view(&self) -> SpecExpression {
        view_expr(*self)
    }
}

impl View for FunctionDeclaration {
    type V = SpecFunctionDeclaration;

    open spec fn view(&self) -> SpecFunctionDeclaration {
        SpecFunctionDeclaration {
            parameters: view_params(self.parameters@),
            return_type: self.return_type,
            expression: Box::new(view_expr(*self.expression)),
        }
    }
}

impl View for FunctionCall {
    type V = SpecFunctionCall;

    open spec fn view(&self) -> SpecFunctionCall {
        SpecFunctionCall { name: self.name@, arguments: view_exprs(self.arguments@) }
    }
}

impl View for Match {
    type V = SpecMatch;

    open spec fn view(&self) -> SpecMatch {
        SpecMatch {
            value: Box::new(view_expr(*self.value)),
            patterns: view_arms(self.patterns@),
            default: match self.default {
                Some(d) => Some(Box::new(view_expr(*d))),
                None => None,
            },
        }
    }
}

impl View for BinaryOperation {
    type V = SpecBinaryOperation;

    open spec fn view(&self) -> SpecBinaryOperation {
        SpecBinaryOperation {
            operator: self.operator,
            left: Box::new(view_expr(*self.left)),
            right: Box::new(view_expr(*self.right)),
        }
    }
}

impl View for Declaration {
    type V = SpecDeclaration;

    open spec fn view(&self) -> SpecDeclaration {
        SpecDeclaration {
            name: self.name@,
            type_: self.type_,
            expression: Box::new(view_expr(*self.expression)),
        }
    }
}

impl View for Item {
    type V = SpecItem;

    open spec fn view(&self) -> SpecItem {
        match self {
            Item::Declaration(d) => SpecItem::Declaration(d@),
            Item::Expression(e) => SpecItem::Expression(view_expr(*e)),
        }
    }
}

pub proof fn lemma_view_exprs_props(s: Seq<Expression>)
    ensures
        view_exprs(s).len() == s.len(),
        forall|i: int| 0 <= i < s.len() ==> view_exprs(s)[i] == view_expr(s[i]),
    decreases s,
{
    if s.len() > 0 {
        lemma_view_exprs_props(s.drop_first());
    }
}

pub proof fn lemma_view_exprs_push(s: Seq<Expression>, e: Expression)
    ensures
        view_exprs(s.push(e)) =~= view_exprs(s).push(view_expr(e)),
{
    lemma_view_exprs_props(s);
    lemma_view_exprs_props(s.push(e));
    assert forall|i: int| 0 <= i < s.len() + 1 implies view_exprs(s.push(e))[i] == view_exprs(
        s,
    ).push(view_expr(e))[i] by {
        if i < s.len() {
            assert(s.push(e)[i] == s[i]);
        } else {
            assert(s.push(e)[i] == e);
        }
    }
}

pub proof fn lemma_view_params_props(s: Seq<FunctionParameter>)
    ensures
        view_params(s).len() == s.len(),
        forall|i: int| 0 <= i < s.len() ==> view_params(s)[i] == s[i]@,
    decreases s,
{
    if s.len() > 0 {
        lemma_view_params_props(s.drop_first());
    }
}

pub proof fn lemma_view_params_push(s: Seq<FunctionParameter>, p: FunctionParameter)
    ensures
        view_params(s.push(p)) =~= view_params(s).push(p@),
{
    lemma_view_params_props(s);
    lemma_view_params_props(s.push(p));
    assert forall|i: int| 0 <= i < s.len() + 1 implies view_params(s.push(p))[i] == view_params(
        s,
    ).push(p@)[i] by {
        if i < s.len() {
            assert(s.push(p)[i] == s[i]);
        } else {
            assert(s.push(p)[i] == p);
        }
    }
}

pub proof fn lemma_view_arms_props(s: Seq<(Expression, Expression)>)
    ensures
        view_arms(s).len() == s.len(),
        forall|i: int| 0 <= i < s.len() ==> view_arms(s)[i] == (view_expr(s[i].0), view_expr(
            s[i].1,
        )),
    decreases s,
{
    if s.len() > 0 {
        lemma_view_arms_props(s.drop_first());
    }
}

pub proof fn lemma_view_arms_push(s: Seq<(Expression, Expression)>, a: (Expression, Expression))
    ensures
        view_arms(s.push(a)) =~= view_arms(s).push((view_expr(a.0), view_expr(a.1))),
{
    lemma_view_arms_props(s);
    lemma_view_arms_props(s.push(a));
    assert forall|i: int| 0 <= i < s.len() + 1 implies view_arms(s.push(a))[i] == view_arms(
        s,
    ).push((view_expr(a.0), view_expr(a.1)))[i] by {
        if i < s.len() {
            assert(s.push(a)[i] == s[i]);
        } else {
            assert(s.push(a)[i] == a);
        }
    }
}

/// The views of a sequence of items, in order.
pub open spec fn view_items(s: Seq<Item>) -> Seq<SpecItem>
    decreases s,
{
    if s.len() == 0 {
        Seq::empty()
    } else {
        seq![s[0]@] + view_items(s.drop_first())
    }
}

pub proof fn lemma_view_items_props(s: Seq<Item>)
    ensures
        view_items(s).len() == s.len(),
        forall|i: int| 0 <= i < s.len() ==> view_items(s)[i] == s[i]@,
    decreases s,
{
    if s.len() > 0 {
        lemma_view_items_props(s.drop_first());
    }
}

pub proof fn lemma_view_items_push(s: Seq<Item>, x: Item)
    ensures
        view_items(s.push(x)) =~= view_items(s).push(x@),
{
    lemma_view_items_props(s);
    lemma_view_items_props(s.push(x));
    assert forall|i: int| 0 <= i < s.len() + 1 implies view_items(s.push(x))[i] == view_items(
        s,
    ).push(x@)[i] by {
        if i < s.len() {
            assert(s.push(x)[i] == s[i]);
        } else {
            assert(s.push(x)[i] == x);
        }
    }
}


/// Clones every expression of a vector.
pub fn clone_exprs(v: &Vec<Expression>) -> (r: Vec<Expression>)
    ensures
        view_exprs(r@) == view_exprs(v@),
    decreases v@,
{
    let mut out: Vec<Expression> = Vec::new();
    let mut i: usize = 0;
    #[verifier::loop_isolation(false)]
    while i < v.len()
        invariant
            i <= v.len(),
            view_exprs(out@) =~= view_exprs(v@.take(i as int)),
        decreases v.len() - i,
    {
        proof {
            assert(decreases_to!(v@ => v@[i as int]));
        }
        let e = v[i].clone();
        proof {
            lemma_view_exprs_push(out@, e);
            lemma_view_exprs_push(v@.take(i as int), v@[i as int]);
            lemma_view_exprs_props(v@.take(i as int));
            lemma_view_exprs_props(out@);
            assert(v@.take(i as int).push(v@[i as int]) =~= v@.take(i + 1));
        }
        out.push(e);
        i = i + 1;
    }
    proof {
        assert(v@.take(v@.len() as int) =~= v@);
    }
    out
}

/// Clones every match arm of a vector.
pub fn clone_arms(v: &Vec<(Expression, Expression)>) -> (r: Vec<(Expression, Expression)>)
    ensures
        view_arms(r@) == view_arms(v@),
    decreases v@,
{
    let mut out: Vec<(Expression, Expression)> = Vec::new();
    let mut i: usize = 0;
    #[verifier::loop_isolation(false)]
    while i < v.len()
        invariant
            i <= v.len(),
            view_arms(out@) =~= view_arms(v@.take(i as int)),
        decreases v.len() - i,
    {
        proof {
            assert(decreases_to!(v@ => v@[i as int]));
            assert(decreases_to!(v@[i as int] => v@[i as int].0));
            assert(decreases_to!(v@[i as int] => v@[i as int].1));
        }
        let p = (v[i].0.clone(), v[i].1.clone());
        proof {
            lemma_view_arms_push(out@, p);
            lemma_view_arms_push(v@.take(i as int), v@[i as int]);
            assert(v@.take(i as int).push(v@[i as int]) =~= v@.take(i + 1));
        }
        out.push(p);
        i = i + 1;
    }
    proof {
        assert(v@.take(v@.len() as int) =~= v@);
    }
    out
}

/// Clones every parameter of a vector.
pub fn clone_params(v: &Vec<FunctionParameter>) -> (r: Vec<FunctionParameter>)
    ensures
        view_params(r@) == view_params(v@),
{
    let mut out: Vec<FunctionParameter> = Vec::new();
    let mut i: usize = 0;
    #[verifier::loop_isolation(false)]
    while i < v.len()
        invariant
            i <= v.len(),
            view_params(out@) =~= view_params(v@.take(i as int)),
        decreases v.len() - i,
    {
        let p = v[i].clone();
        proof {
            lemma_view_params_push(out@, p);
            lemma_view_params_push(v@.take(i as int), v@[i as int]);
            assert(v@.take(i as int).push(v@[i as int]) =~= v@.take(i + 1));
        }
        out.push(p);
        i = i + 1;
    }
    proof {
        assert(v@.take(v@.len() as int) =~= v@);
    }
    out
}

impl Clone for Expression {
    fn clone(&self) -> (r: Self)
        ensures
            r@ == self@,
        decreases self,
    {
        match self {
            Expression::Identifier(s) => Expression::Identifier(s.clone()),
            Expression::Number(n) => Expression::Number(*n),
            Expression::Char(c) => Expression::Char(*c),
            Expression::Bool(b) => Expression::Bool(*b),
            Expression::Array(t, v) => {
                proof {
                    assert(*self == Expression::Array(*t, *v));
                    assert(decreases_to!(*self => *v));
                    assert(decreases_to!(*v => v@));
                }
                Expression::Array(t.clone(), clone_exprs(v))
            },
            Expression::FunctionDeclaration(f) => {
                proof {
                    assert(*self == Expression::FunctionDeclaration(*f));
                    assert(decreases_to!(*self => *f));
                }
                Expression::FunctionDeclaration(f.clone())
            },
            Expression::FunctionCall(c) => {
                proof {
                    assert(*self == Expression::FunctionCall(*c));
                    assert(decreases_to!(*self => *c));
                }
                Expression::FunctionCall(c.clone())
            },
            Expression::Match(m) => {
                proof {
                    assert(*self == Expression::Match(*m));
                    assert(decreases_to!(*self => *m));
                }
                Expression::Match(m.clone())
            },
            Expression::BinaryOperation(b) => {
                proof {
                    assert(*self == Expression::BinaryOperation(*b));
                    assert(decreases_to!(*self => *b));
                }
                Expression::BinaryOperation(b.clone())
            },
        }
    }
}

impl Clone for FunctionDeclaration {
    fn clone(&self) -> (r: Self)
        ensures
            r@ == self@,
        decreases self,
    {
        proof {
            assert(decreases_to!(*self => *self.expression));
        }
        FunctionDeclaration {
            parameters: clone_params(&self.parameters),
            return_type: self.return_type.clone(),
            expression: Box::new((*self.expression).clone()),
        }
    }
}

impl Clone for FunctionCall {
    fn clone(&self) -> (r: Self)
        ensures
            r@ == self@,
        decreases self,
    {
        proof {
            assert(decreases_to!(*self => self.arguments));
            assert(decreases_to!(self.arguments => self.arguments@));
        }
        FunctionCall { name: self.name.clone(), arguments: clone_exprs(&self.arguments) }
    }
}

impl Clone for Match {
    fn clone(&self) -> (r: Self)
        ensures
            r@ == self@,
        decreases self,
    {
        proof {
            assert(decreases_to!(*self => self.patterns));
            assert(decreases_to!(self.patterns => self.patterns@));
            assert(decreases_to!(*self => *self.value));
        }
        let d: Option<Box<Expression>> = match &self.default {
            Some(b) => {
                proof {
                    assert(decreases_to!(*self => self.default));
                    assert(self.default == Some(*b));
                    assert(decreases_to!(self.default => **b));
                }
                Some(Box::new((**b).clone()))
            },
            None => None,
        };
        Match {
            value: Box::new((*self.value).clone()),
            patterns: clone_arms(&self.patterns),
            default: d,
        }
    }
}

impl Clone for BinaryOperation {
    fn clone(&self) -> (r: Self)
        ensures
            r@ == self@,
        decreases self,
    {
        proof {
            assert(decreases_to!(*self => *self.left));
            assert(decreases_to!(*self => *self.right));
        }
        BinaryOperation {
            operator: self.operator,
            left: Box::new((*self.left).clone()),
            right: Box::new((*self.right).clone()),
        }
    }
}

impl Clone for Declaration {
    fn clone(&self) -> (r: Self)
        ensures
            r@ == self@,
    {
        Declaration {
            name: self.name.clone(),
            type_: self.type_.clone(),
            expression: Box::new((*self.expression).clone()),
        }
    }
}

} // verus!
