use crate::ast::expression::{Expression};
use crate::ast::identifier::{Identifier};
use crate::token::Token;
use vstd::prelude::*;

verus! {

/// Variable declaration with an optional initializer.
///
/// Grammar: [Identifier] [VarInitializer]?
#[derive(Debug)]
pub struct VarDeclaration<'s> {
    pub name: Identifier<'s>,
    pub initializer: Option<VarInitializer<'s>>,
}

/// Initializer for some kind of variable or constant.
///
/// Grammar: `=` [Expression]
#[derive(Debug)]
pub struct VarInitializer<'s> {
    pub assign: &'s Token<'s>,
    pub value: Box<Expression<'s>>,
}

impl<'s> VarDeclaration<'s> {
    /// The tokens of the node, in source order.
    pub open spec fn tokens(self) -> Seq<Token<'s>>
        decreases self,
    {
        self.name.tokens() + (match self.initializer { Some(x) => x.tokens(), None => Seq::empty() })
    }
}

impl<'s> VarInitializer<'s> {
    /// The tokens of the node, in source order.
    pub open spec fn tokens(self) -> Seq<Token<'s>>
        decreases self,
    {
        seq![*self.assign] + (*self.value).tokens()
    }
}

} // verus!
