//! The abstract syntax tree built by the parser, and the mapping of
//! each tree type to its mathematical model.
//!
//! Identifier and literal text is kept as the characters that were
//! matched, so a tree node round-trips the source spelling exactly.

use vstd::prelude::*;
use crate::model::{BindingType, ExprType, LiteralType};

verus! {

/// Declaration-context keywords.
#[derive(Clone, Copy, Debug, PartialEq, Eq, Structural)]
pub enum Keyword {
    Let,
    Def,
    Static,
    Mut,
}

/// A literal token. Numeric text is kept as digit characters, not
/// parsed into a machine number, so precision and formatting survive.
#[derive(Debug, PartialEq, Eq)]
pub enum Literal {
    /// Integer digits and, when a fractional part was written, its digits.
    Num(Vec<char>, Option<Vec<char>>),
    /// Hex or binary digits (prefix stripped); `true` means `0x...`, `false` means `0b...`.
    Byte(Vec<char>, bool),
    Bool(bool),
    /// Text between the quotes, escapes kept verbatim.
    Str(Vec<char>),
    Char(char),
}

/// A name reference or declaration target.
#[derive(Debug, PartialEq, Eq)]
pub enum Binding {
    /// Name beginning with a lowercase letter or underscore.
    Variable(Vec<char>),
    /// Name beginning with an uppercase letter.
    Type(Vec<char>),
    /// A user-written operator token.
    Operator(Vec<char>),
    /// Destructuring group, as in `let (a, b) = ...`.
    Tuple(Vec<Binding>),
    /// Type name, its colon-separated module-path segments, and
    /// whether an array marker `[]` followed the name.
    FullType(Vec<char>, Vec<Binding>, bool),
}

/// An expression node. Every node owns its children outright; the
/// tree has no sharing and no cycles.
#[derive(Debug, PartialEq, Eq)]
pub enum Expression {
    Literal(Literal),
    Name(Binding),
    /// Declaration keyword, declared binding, mutability, value.
    Assignment(Keyword, Binding, bool, Box<Expression>),
    /// Brace-delimited block; child order is source order.
    Scope(Vec<Expression>),
    Tuple(Vec<Expression>),
    Array(Vec<Expression>),
    /// One infix application: operator binding, left and right operands.
    Binary(Binding, Box<Expression>, Box<Expression>),
    /// Function application: callee (any expression) and arguments.
    FnCall(Box<Expression>, Vec<Expression>),
    /// Module-path declaration, `mod a:b:c`.
    ModDecl(Vec<Binding>),
}

/// Model of a literal.
pub open spec fn lit_model(l: Literal) -> LiteralType {
    match l {
        Literal::Num(i, f) => LiteralType::Num(
            i@,
            match f {
                Some(fr) => Some(fr@),
                None => None,
            },
        ),
        Literal::Byte(t, h) => LiteralType::Byte(t@, h),
        Literal::Bool(b) => LiteralType::Bool(b),
        Literal::Str(t) => LiteralType::Str(t@),
        Literal::Char(c) => LiteralType::Char(c),
    }
}

/// Model of a binding.
pub open spec fn binding_model(b: Binding) -> BindingType
    decreases b,
{
    match b {
        Binding::Variable(t) => BindingType::Variable(t@),
        Binding::Type(t) => BindingType::Type(t@),
        Binding::Operator(t) => BindingType::Operator(t@),
        Binding::Tuple(v) => BindingType::Tuple(bindings_model(v@)),
        Binding::FullType(n, segs, a) => BindingType::FullType(n@, bindings_model(segs@), a),
    }
}

/// Pointwise model of a sequence of bindings.
pub open spec fn bindings_model(s: Seq<Binding>) -> Seq<BindingType>
    decreases s,
{
    Seq::new(
        s.len(),
        |i: int|
            if 0 <= i < s.len() {
                binding_model(s[i])
            } else {
                arbitrary()
            },
    )
}

/// Model of an expression.
pub open spec fn expr_model(e: Expression) -> ExprType
    decreases e,
{
    match e {
        Expression::Literal(l) => ExprType::Literal(lit_model(l)),
        Expression::Name(b) => ExprType::Name(binding_model(b)),
        Expression::Assignment(k, b, m, v) => ExprType::Assignment(
            k,
            binding_model(b),
            m,
            Box::new(expr_model(*v)),
        ),
        Expression::Scope(es) => ExprType::Scope(exprs_model(es@)),
        Expression::Tuple(es) => ExprType::Tuple(exprs_model(es@)),
        Expression::Array(es) => ExprType::Array(exprs_model(es@)),
        Expression::Binary(op, l, r) => ExprType::Binary(
            binding_model(op),
            Box::new(expr_model(*l)),
            Box::new(expr_model(*r)),
        ),
        Expression::FnCall(f, args) => ExprType::FnCall(
            Box::new(expr_model(*f)),
            exprs_model(args@),
        ),
        Expression::ModDecl(bs) => ExprType::ModDecl(bindings_model(bs@)),
    }
}

/// Pointwise model of a sequence of expressions.
pub open spec fn exprs_model(s: Seq<Expression>) -> Seq<ExprType>
    decreases s,
{
    Seq::new(
        s.len(),
        |i: int|
            if 0 <= i < s.len() {
                expr_model(s[i])
            } else {
                arbitrary()
            },
    )
}

/// Appending one expression appends its model.
pub proof fn lemma_exprs_model_push(s: Seq<Expression>, e: Expression)
    ensures
        exprs_model(s.push(e)) == exprs_model(s).push(expr_model(e)),
{
    assert(exprs_model(s.push(e)) =~= exprs_model(s).push(expr_model(e)));
}

/// Appending one binding appends its model.
pub proof fn lemma_bindings_model_push(s: Seq<Binding>, b: Binding)
    ensures
        bindings_model(s.push(b)) == bindings_model(s).push(binding_model(b)),
{
    assert(bindings_model(s.push(b)) =~= bindings_model(s).push(binding_model(b)));
}

} // verus!
