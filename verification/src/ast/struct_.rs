use crate::ast::tokens::{opt_token, struct_property_seq_tokens};
use crate::ast::identifier::{Identifier};
use crate::ast::type_::{Type};
use crate::ast::variable::{VarInitializer};
use crate::token::Token;
use vstd::prelude::*;

verus! {

/// Anonymous declaration of a struct.
///
/// Grammar: `{` [StructProperty]* `}`
#[derive(Debug)]
pub struct StructDeclaration<'s> {
    pub open: &'s Token<'s>,
    pub properties: Vec<StructProperty<'s>>,
    pub close: &'s Token<'s>,
}

/// Property of a struct in a [`StructDeclaration`].
///
/// Grammar: [Type] [Identifier] [VarInitializer]? `,`?
#[derive(Debug)]
pub struct StructProperty<'s> {
    pub ty: Type<'s>,
    pub name: Identifier<'s>,
    pub initializer: Option<VarInitializer<'s>>,
    pub comma: Option<&'s Token<'s>>,
}

impl<'s> StructDeclaration<'s> {
    /// The tokens of the node, in source order.
    pub open spec fn tokens(self) -> Seq<Token<'s>>
        decreases self,
    {
        seq![*self.open] + struct_property_seq_tokens(self.properties@) + seq![*self.close]
    }
}

impl<'s> StructProperty<'s> {
    /// The tokens of the node, in source order.
    pub open spec fn tokens(self) -> Seq<Token<'s>>
        decreases self,
    {
        self.ty.tokens() + self.name.tokens() + (match self.initializer { Some(x) => x.tokens(), None => Seq::empty() }) + opt_token(self.comma)
    }
}

} // verus!
