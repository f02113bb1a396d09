use crate::ast::tokens::opt_token;
use crate::ast::expression::{Expression, TableExpression};
use crate::ast::slot::{Slot};
use crate::token::Token;
use vstd::prelude::*;

verus! {

/// Slot in a [`TableExpression`] with an optional separator.
///
/// Grammar: [TableSlotType] `,`?
///
/// [`TableExpression`]: crate::ast::TableExpression
#[derive(Debug)]
pub struct TableSlot<'s> {
    pub ty: TableSlotType<'s>,
    pub comma: Option<&'s Token<'s>>,
}

/// Slot in a [`TableExpression`].
///
/// [`TableExpression`]: crate::ast::TableExpression
#[derive(Debug)]
pub enum TableSlotType<'s> {
    /// Grammar: [Slot]
    Slot(Slot<'s>),

    /// JSON property slot.
    ///
    /// Grammar: "literal string" `:` [Expression]
    JsonProperty {
        name: &'s str,
        name_token: &'s Token<'s>,
        colon: &'s Token<'s>,
        value: Box<Expression<'s>>,
    },
}

impl<'s> TableSlot<'s> {
    /// The tokens of the node, in source order.
    pub open spec fn tokens(self) -> Seq<Token<'s>>
        decreases self,
    {
        self.ty.tokens() + opt_token(self.comma)
    }
}

impl<'s> TableSlotType<'s> {
    /// The tokens of the node, in source order.
    pub open spec fn tokens(self) -> Seq<Token<'s>>
        decreases self,
    {
        match self {
            TableSlotType::Slot(node) => node.tokens(),
            TableSlotType::JsonProperty { name, name_token, colon, value } => seq![*name_token] + seq![*colon] + (*value).tokens(),
        }
    }
}

} // verus!
