use crate::ast::tokens::opt_token;
use crate::ast::identifier::{Identifier};
use crate::ast::variable::{VarInitializer};
use crate::token::Token;
use vstd::prelude::*;

verus! {

// Identifier VarInitializer? `,`?
#[derive(Debug)]
pub struct EnumEntry<'s> {
    pub name: Identifier<'s>,
    pub initializer: Option<VarInitializer<'s>>,
    pub comma: Option<&'s Token<'s>>,
}

impl<'s> EnumEntry<'s> {
    /// The tokens of the node, in source order.
    pub open spec fn tokens(self) -> Seq<Token<'s>>
        decreases self,
    {
        self.name.tokens() + (match self.initializer { Some(x) => x.tokens(), None => Seq::empty() }) + opt_token(self.comma)
    }
}

} // verus!
