use crate::ast::tokens::{class_member_seq_tokens, opt_token};
use crate::ast::expression::{Expression, TableExpression};
use crate::ast::slot::{Slot};
use crate::ast::table::{TableSlot};
use crate::token::Token;
use vstd::prelude::*;

verus! {

/// Anonymous definition of a class.
///
/// Grammar: [ClassExtends]? `{` [ClassMember]* `}`
#[derive(Debug)]
pub struct ClassDefinition<'s> {
    pub extends: Option<ClassExtends<'s>>,
    pub open: &'s Token<'s>,
    pub members: Vec<ClassMember<'s>>,
    pub close: &'s Token<'s>,
}

/// Optional extends part of [`ClassDefinition`].
///
/// Grammar: `extends` [Expression]
#[derive(Debug)]
pub struct ClassExtends<'s> {
    pub extends: &'s Token<'s>,
    pub name: Box<Expression<'s>>,
}

/// Member of a [`ClassDefinition`] with an optional attribute table.
///
/// Grammar: (`</` [TableSlot]* `/>`)? `static`? [Slot] `;`?
///
/// [TableSlot]: crate::ast::TableSlot
#[derive(Debug)]
pub struct ClassMember<'s> {
    pub attributes: Option<TableExpression<'s>>,
    pub static_: Option<&'s Token<'s>>,
    pub slot: Slot<'s>,
    pub semicolon: Option<&'s Token<'s>>,
}

impl<'s> ClassDefinition<'s> {
    /// The tokens of the node, in source order.
    pub open spec fn tokens(self) -> Seq<Token<'s>>
        decreases self,
    {
        (match self.extends { Some(x) => x.tokens(), None => Seq::empty() }) + seq![*self.open] + class_member_seq_tokens(self.members@) + seq![*self.close]
    }
}

impl<'s> ClassExtends<'s> {
    /// The tokens of the node, in source order.
    pub open spec fn tokens(self) -> Seq<Token<'s>>
        decreases self,
    {
        seq![*self.extends] + (*self.name).tokens()
    }
}

impl<'s> ClassMember<'s> {
    /// The tokens of the node, in source order.
    pub open spec fn tokens(self) -> Seq<Token<'s>>
        decreases self,
    {
        (match self.attributes { Some(x) => x.tokens(), None => Seq::empty() }) + opt_token(self.static_) + self.slot.tokens() + opt_token(self.semicolon)
    }
}

} // verus!
