use crate::ast::tokens::opt_token;
use crate::ast::expression::{Expression};
use crate::token::Token;
use vstd::prelude::*;

verus! {

// Expression `,`?
#[derive(Debug)]
pub struct ArrayValue<'s> {
    pub value: Box<Expression<'s>>,
    pub separator: Option<&'s Token<'s>>,
}

impl<'s> ArrayValue<'s> {
    /// The tokens of the node, in source order.
    pub open spec fn tokens(self) -> Seq<Token<'s>>
        decreases self,
    {
        (*self.value).tokens() + opt_token(self.separator)
    }
}

} // verus!
