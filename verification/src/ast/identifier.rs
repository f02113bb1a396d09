use crate::token::Token;
use vstd::prelude::*;

verus! {

/// An identifier token.
///
/// Grammar: `/[_a-zA-Z][_a-zA-Z0-9]*/`
#[derive(Debug)]
pub struct Identifier<'s> {
    pub value: &'s str,
    pub token: &'s Token<'s>,
}

/// A method identifier.
///
/// This allows the `constructor` keyword to be used in certain identifier positions.
///
/// Grammar: [Identifier] | `constructor`
#[derive(Debug)]
pub enum MethodIdentifier<'s> {
    Identifier(Identifier<'s>),
    Constructor(&'s Token<'s>),
}

impl<'s> Identifier<'s> {
    /// The tokens of the node, in source order.
    pub open spec fn tokens(self) -> Seq<Token<'s>>
        decreases self,
    {
        seq![*self.token]
    }
}

impl<'s> MethodIdentifier<'s> {
    /// The tokens of the node, in source order.
    pub open spec fn tokens(self) -> Seq<Token<'s>>
        decreases self,
    {
        match self {
            MethodIdentifier::Identifier(node) => node.tokens(),
            MethodIdentifier::Constructor(token) => seq![*token],
        }
    }
}

} // verus!
