use crate::ast::tokens::{function_ref_param_trailing_list_tokens, type_trailing_list_tokens};
use crate::ast::expression::{Expression};
use crate::ast::function::{FunctionRefParam};
use crate::ast::identifier::{Identifier};
use crate::ast::list::{SeparatedListTrailing0, SeparatedListTrailing1};
use crate::ast::struct_::{StructDeclaration};
use crate::token::Token;
use vstd::prelude::*;

verus! {

/// A type.
///
/// Many types are recursive, containing other types. Unlike [expressions] types do not have
/// precedence, and are all left-associative.
///
/// This means you can always decompose a type like this:
/// ```text
/// table<int>& ornull
/// ^    ^^^^^^^^^^^^^ modifier types
/// | base type
/// ```
///
/// [expressions]: Expression
#[derive(Debug)]
pub enum Type<'s> {
    Local(LocalType<'s>),
    Var(VarType<'s>),
    Plain(PlainType<'s>),
    Array(ArrayType<'s>),
    Generic(GenericType<'s>),
    FunctionRef(FunctionRefType<'s>),
    Struct(StructType<'s>),
    Reference(ReferenceType<'s>),
    Nullable(NullableType<'s>),
}

/// A `local` type.
///
/// Grammar: `local`
#[derive(Debug)]
pub struct LocalType<'s> {
    pub local: &'s Token<'s>,
}

/// A `var` type.
///
/// Grammar: `var`
#[derive(Debug)]
pub struct VarType<'s> {
    pub var: &'s Token<'s>,
}

/// A named type.
///
/// Grammar: [Identifier]
#[derive(Debug)]
pub struct PlainType<'s> {
    pub name: Identifier<'s>,
}

/// An anonymous struct type.
///
/// Grammar: `struct` [StructDeclaration]
#[derive(Debug)]
pub struct StructType<'s> {
    pub struct_: &'s Token<'s>,
    pub declaration: StructDeclaration<'s>,
}

/// An array type.
///
/// Grammar: [Type] `[` [Expression] `]`
#[derive(Debug)]
pub struct ArrayType<'s> {
    pub base: Box<Type<'s>>,
    pub open: &'s Token<'s>,
    pub len: Box<Expression<'s>>,
    pub close: &'s Token<'s>,
}

/// A generic type.
///
/// Grammar: [Type] `<` [SeparatedListTrailing1]<[Type] `,`> `>`
#[derive(Debug)]
pub struct GenericType<'s> {
    pub base: Box<Type<'s>>,
    pub open: &'s Token<'s>,
    pub params: SeparatedListTrailing1<'s, Type<'s>>,
    pub close: &'s Token<'s>,
}

/// A function reference type.
///
/// Grammar: [Type]? `functionref` `(` [SeparatedListTrailing0]<[FunctionRefParam] `,`> `)`
#[derive(Debug)]
pub struct FunctionRefType<'s> {
    pub return_type: Option<Box<Type<'s>>>,
    pub functionref: &'s Token<'s>,
    pub open: &'s Token<'s>,
    pub args: SeparatedListTrailing0<'s, FunctionRefParam<'s>>,
    pub close: &'s Token<'s>,
}

/// A reference type.
///
/// Grammar: [Type] `&`
#[derive(Debug)]
pub struct ReferenceType<'s> {
    pub base: Box<Type<'s>>,
    pub reference: &'s Token<'s>,
}

/// A nullable type.
///
/// Grammar: [Type] `ornull`
#[derive(Debug)]
pub struct NullableType<'s> {
    pub base: Box<Type<'s>>,
    pub ornull: &'s Token<'s>,
}

impl<'s> Type<'s> {
    /// The tokens of the node, in source order.
    pub open spec fn tokens(self) -> Seq<Token<'s>>
        decreases self,
    {
        match self {
            Type::Local(node) => node.tokens(),
            Type::Var(node) => node.tokens(),
            Type::Plain(node) => node.tokens(),
            Type::Array(node) => node.tokens(),
            Type::Generic(node) => node.tokens(),
            Type::FunctionRef(node) => node.tokens(),
            Type::Struct(node) => node.tokens(),
            Type::Reference(node) => node.tokens(),
            Type::Nullable(node) => node.tokens(),
        }
    }
}

impl<'s> LocalType<'s> {
    /// The tokens of the node, in source order.
    pub open spec fn tokens(self) -> Seq<Token<'s>>
        decreases self,
    {
        seq![*self.local]
    }
}

impl<'s> VarType<'s> {
    /// The tokens of the node, in source order.
    pub open spec fn tokens(self) -> Seq<Token<'s>>
        decreases self,
    {
        seq![*self.var]
    }
}

impl<'s> PlainType<'s> {
    /// The tokens of the node, in source order.
    pub open spec fn tokens(self) -> Seq<Token<'s>>
        decreases self,
    {
        self.name.tokens()
    }
}

impl<'s> StructType<'s> {
    /// The tokens of the node, in source order.
    pub open spec fn tokens(self) -> Seq<Token<'s>>
        decreases self,
    {
        seq![*self.struct_] + self.declaration.tokens()
    }
}

impl<'s> ArrayType<'s> {
    /// The tokens of the node, in source order.
    pub open spec fn tokens(self) -> Seq<Token<'s>>
        decreases self,
    {
        (*self.base).tokens() + seq![*self.open] + (*self.len).tokens() + seq![*self.close]
    }
}

impl<'s> GenericType<'s> {
    /// The tokens of the node, in source order.
    pub open spec fn tokens(self) -> Seq<Token<'s>>
        decreases self,
    {
        (*self.base).tokens() + seq![*self.open] + type_trailing_list_tokens(self.params) + seq![*self.close]
    }
}

impl<'s> FunctionRefType<'s> {
    /// The tokens of the node, in source order.
    pub open spec fn tokens(self) -> Seq<Token<'s>>
        decreases self,
    {
        (match self.return_type { Some(x) => (*x).tokens(), None => Seq::empty() }) + seq![*self.functionref] + seq![*self.open] + (match self.args { Some(l) => function_ref_param_trailing_list_tokens(l), None => Seq::empty() }) + seq![*self.close]
    }
}

impl<'s> ReferenceType<'s> {
    /// The tokens of the node, in source order.
    pub open spec fn tokens(self) -> Seq<Token<'s>>
        decreases self,
    {
        (*self.base).tokens() + seq![*self.reference]
    }
}

impl<'s> NullableType<'s> {
    /// The tokens of the node, in source order.
    pub open spec fn tokens(self) -> Seq<Token<'s>>
        decreases self,
    {
        (*self.base).tokens() + seq![*self.ornull]
    }
}

} // verus!
