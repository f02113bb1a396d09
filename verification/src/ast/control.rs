use crate::ast::tokens::statement_seq_tokens;
use crate::ast::expression::{Expression};
use crate::ast::identifier::{Identifier};
use crate::ast::statement::{ForStatement, ForeachStatement, IfStatement, Statement, StatementType, SwitchStatement, VarDefinitionStatement};
use crate::ast::type_::{Type};
use crate::token::Token;
use vstd::prelude::*;

verus! {

/// Trailing part of an [`IfStatement`].
///
/// Grammar: [StatementType] | ([Statement] `else` [StatementType])
///
/// [`IfStatement`]: crate::ast::IfStatement
#[derive(Debug)]
pub enum IfStatementType<'s> {
    NoElse {
        body: Box<StatementType<'s>>,
    },
    Else {
        body: Box<Statement<'s>>,
        else_: &'s Token<'s>,
        else_body: Box<StatementType<'s>>,
    },
}

/// Case block in a [`SwitchStatement`].
///
/// Grammar: [SwitchCaseCondition] `:` [Statement]*
///
/// [`SwitchStatement`]: crate::ast::SwitchStatement
#[derive(Debug)]
pub struct SwitchCase<'s> {
    pub condition: SwitchCaseCondition<'s>,
    pub colon: &'s Token<'s>,
    pub body: Vec<Statement<'s>>,
}

/// Condition in a [`SwitchCase`].
#[derive(Debug)]
pub enum SwitchCaseCondition<'s> {
    /// Default case.
    ///
    /// Grammar: `default`
    Default { default: &'s Token<'s> },

    /// Specific case.
    ///
    /// Grammar: `case` [Expression]
    Case {
        case: &'s Token<'s>,
        value: Box<Expression<'s>>,
    },
}

/// Definition part of a [`ForStatement`].
///
/// [`ForStatement`]: crate::ast::ForStatement
#[derive(Debug)]
pub enum ForDefinition<'s> {
    /// Expression definition.
    ///
    /// Grammar: [Expression]
    Expression(Box<Expression<'s>>),

    /// Variable definition.
    ///
    /// Grammar: [VarDefinitionStatement]
    Definition(VarDefinitionStatement<'s>),
}

/// Optional index definition in a [`ForeachStatement`].
///
/// Grammar: [Type]? [Identifier] `,`
///
/// [`ForeachStatement`]: crate::ast::ForeachStatement
#[derive(Debug)]
pub struct ForeachIndex<'s> {
    pub type_: Option<Type<'s>>,
    pub name: Identifier<'s>,
    pub comma: &'s Token<'s>,
}

impl<'s> IfStatementType<'s> {
    /// The tokens of the node, in source order.
    pub open spec fn tokens(self) -> Seq<Token<'s>>
        decreases self,
    {
        match self {
            IfStatementType::NoElse { body } => (*body).tokens(),
            IfStatementType::Else { body, else_, else_body } => (*body).tokens() + seq![*else_] + (*else_body).tokens(),
        }
    }
}

impl<'s> SwitchCase<'s> {
    /// The tokens of the node, in source order.
    pub open spec fn tokens(self) -> Seq<Token<'s>>
        decreases self,
    {
        self.condition.tokens() + seq![*self.colon] + statement_seq_tokens(self.body@)
    }
}

impl<'s> SwitchCaseCondition<'s> {
    /// The tokens of the node, in source order.
    pub open spec fn tokens(self) -> Seq<Token<'s>>
        decreases self,
    {
        match self {
            SwitchCaseCondition::Default { default } => seq![*default],
            SwitchCaseCondition::Case { case, value } => seq![*case] + (*value).tokens(),
        }
    }
}

impl<'s> ForDefinition<'s> {
    /// The tokens of the node, in source order.
    pub open spec fn tokens(self) -> Seq<Token<'s>>
        decreases self,
    {
        match self {
            ForDefinition::Expression(node) => (*node).tokens(),
            ForDefinition::Definition(node) => node.tokens(),
        }
    }
}

impl<'s> ForeachIndex<'s> {
    /// The tokens of the node, in source order.
    pub open spec fn tokens(self) -> Seq<Token<'s>>
        decreases self,
    {
        (match self.type_ { Some(x) => x.tokens(), None => Seq::empty() }) + self.name.tokens() + seq![*self.comma]
    }
}

} // verus!
