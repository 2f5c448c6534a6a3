//! Mathematical models of the syntax tree.
//!
//! Each executable tree type of [`crate::ast`] has a ghost counterpart
//! here whose text fields are `Seq<char>` and whose child collections
//! are `Seq`. Contracts throughout the crate speak of these models.

use vstd::prelude::*;
use crate::ast::Keyword;

verus! {

/// Model of a literal token: the source text of the token is kept,
/// never a machine number.
#[verifier::ext_equal]
pub enum LiteralType {
    /// Integer part and optional fractional part, both as digit text.
    Num(Seq<char>, Option<Seq<char>>),
    /// Byte-sequence digits and a flag: `true` for `0x...`, `false` for `0b...`.
    Byte(Seq<char>, bool),
    Bool(bool),
    /// Raw text between the quotes, escapes kept verbatim.
    Str(Seq<char>),
    Char(char),
}

/// Model of a name reference or declaration target.
#[verifier::ext_equal]
pub enum BindingType {
    Variable(Seq<char>),
    Type(Seq<char>),
    Operator(Seq<char>),
    /// Destructuring group of bindings.
    Tuple(Seq<BindingType>),
    /// Type name, its module-path segments, and an array marker.
    FullType(Seq<char>, Seq<BindingType>, bool),
}

/// Model of an expression node.
#[verifier::ext_equal]
pub enum ExprType {
    Literal(LiteralType),
    Name(BindingType),
    /// Declaration keyword, declared binding, mutability, value.
    Assignment(Keyword, BindingType, bool, Box<ExprType>),
    Scope(Seq<ExprType>),
    Tuple(Seq<ExprType>),
    Array(Seq<ExprType>),
    /// Operator binding, left operand, right operand.
    Binary(BindingType, Box<ExprType>, Box<ExprType>),
    /// Callee and arguments.
    FnCall(Box<ExprType>, Seq<ExprType>),
    ModDecl(Seq<BindingType>),
}

} // verus!
