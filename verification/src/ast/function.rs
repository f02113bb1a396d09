use crate::ast::tokens::{function_param_list_tokens, function_param_trailing_list_tokens, identifier_trailing_list_tokens, opt_token};
use crate::ast::expression::{CallExpression, Expression};
use crate::ast::identifier::{Identifier};
use crate::ast::list::{SeparatedList1, SeparatedListTrailing0};
use crate::ast::statement::{StatementType};
use crate::ast::type_::{FunctionRefType, Type};
use crate::ast::variable::{VarInitializer};
use crate::token::Token;
use vstd::prelude::*;

verus! {

/// Anonymous function definition in a function literal, function definition, class method, or table function.
///
/// Grammar: [FunctionEnvironment]? `(` [FunctionParams] `)` [FunctionCaptures]? [StatementType]
#[derive(Debug)]
pub struct FunctionDefinition<'s> {
    pub environment: Option<FunctionEnvironment<'s>>,
    pub open: &'s Token<'s>,
    pub params: FunctionParams<'s>,
    pub close: &'s Token<'s>,
    pub captures: Option<FunctionCaptures<'s>>,
    pub body: Box<StatementType<'s>>,
}

/// Environment that is bound to a [`FunctionDefinition`].
///
/// Grammar: `[` [Expression] `]`
#[derive(Debug)]
pub struct FunctionEnvironment<'s> {
    pub open: &'s Token<'s>,
    pub value: Box<Expression<'s>>,
    pub close: &'s Token<'s>,
}

/// Parameter definition in a [`FunctionDefinition`].
#[derive(Debug)]
pub enum FunctionParams<'s> {
    /// Non-variable argument list.
    ///
    /// Grammar: [SeparatedListTrailing0]<[FunctionParam] `,`>
    NonVariable {
        params: SeparatedListTrailing0<'s, FunctionParam<'s>>,
    },

    /// Variable-length argument list with no named arguments.
    ///
    /// Grammar: `...`
    EmptyVariable { vararg: &'s Token<'s> },

    /// Variable-length argument list with some named arguments.
    ///
    /// Grammar: [SeparatedList1]<[FunctionParam] `,`> `,` `...`
    NonEmptyVariable {
        params: SeparatedList1<'s, FunctionParam<'s>>,
        comma: &'s Token<'s>,
        vararg: &'s Token<'s>,
    },
}

/// Parameter definition in a [`FunctionParams`] list.
///
/// Grammar: [Type]? [Identifier] [VarInitializer]?
#[derive(Debug)]
pub struct FunctionParam<'s> {
    pub type_: Option<Type<'s>>,
    pub name: Identifier<'s>,
    pub initializer: Option<VarInitializer<'s>>,
}

/// List of captured variables (aka free variables) in a [`FunctionDefinition`].
///
/// Grammar: `:` `(` [SeparatedListTrailing0]<[Identifier] `,`> `)`
#[derive(Debug)]
pub struct FunctionCaptures<'s> {
    pub colon: &'s Token<'s>,
    pub open: &'s Token<'s>,
    pub names: SeparatedListTrailing0<'s, Identifier<'s>>,
    pub close: &'s Token<'s>,
}

/// Parameter definition in a [`FunctionRefType`].
///
/// Grammar: [Type] [Identifier]? [VarInitializer]?
///
/// [`FunctionRefType`]: crate::ast::FunctionRefType
#[derive(Debug)]
pub struct FunctionRefParam<'s> {
    pub type_: Type<'s>,
    pub name: Option<Identifier<'s>>,
    pub initializer: Option<VarInitializer<'s>>,
}

/// Argument in a [`CallExpression`].
///
/// Grammar: [Expression] `,`?
///
/// [`CallExpression`]: crate::ast::CallExpression
#[derive(Debug)]
pub struct CallArgument<'s> {
    pub value: Box<Expression<'s>>,
    pub comma: Option<&'s Token<'s>>,
}

impl<'s> FunctionDefinition<'s> {
    /// The tokens of the node, in source order.
    pub open spec fn tokens(self) -> Seq<Token<'s>>
        decreases self,
    {
        (match self.environment { Some(x) => x.tokens(), None => Seq::empty() }) + seq![*self.open] + self.params.tokens() + seq![*self.close] + (match self.captures { Some(x) => x.tokens(), None => Seq::empty() }) + (*self.body).tokens()
    }
}

impl<'s> FunctionEnvironment<'s> {
    /// The tokens of the node, in source order.
    pub open spec fn tokens(self) -> Seq<Token<'s>>
        decreases self,
    {
        seq![*self.open] + (*self.value).tokens() + seq![*self.close]
    }
}

impl<'s> FunctionParams<'s> {
    /// The tokens of the node, in source order.
    pub open spec fn tokens(self) -> Seq<Token<'s>>
        decreases self,
    {
        match self {
            FunctionParams::NonVariable { params } => (match params { Some(l) => function_param_trailing_list_tokens(l), None => Seq::empty() }),
            FunctionParams::EmptyVariable { vararg } => seq![*vararg],
            FunctionParams::NonEmptyVariable { params, comma, vararg } => function_param_list_tokens(params) + seq![*comma] + seq![*vararg],
        }
    }
}

impl<'s> FunctionParam<'s> {
    /// The tokens of the node, in source order.
    pub open spec fn tokens(self) -> Seq<Token<'s>>
        decreases self,
    {
        (match self.type_ { Some(x) => x.tokens(), None => Seq::empty() }) + self.name.tokens() + (match self.initializer { Some(x) => x.tokens(), None => Seq::empty() })
    }
}

impl<'s> FunctionCaptures<'s> {
    /// The tokens of the node, in source order.
    pub open spec fn tokens(self) -> Seq<Token<'s>>
        decreases self,
    {
        seq![*self.colon] + seq![*self.open] + (match self.names { Some(l) => identifier_trailing_list_tokens(l), None => Seq::empty() }) + seq![*self.close]
    }
}

impl<'s> FunctionRefParam<'s> {
    /// The tokens of the node, in source order.
    pub open spec fn tokens(self) -> Seq<Token<'s>>
        decreases self,
    {
        self.type_.tokens() + (match self.name { Some(x) => x.tokens(), None => Seq::empty() }) + (match self.initializer { Some(x) => x.tokens(), None => Seq::empty() })
    }
}

impl<'s> CallArgument<'s> {
    /// The tokens of the node, in source order.
    pub open spec fn tokens(self) -> Seq<Token<'s>>
        decreases self,
    {
        (*self.value).tokens() + opt_token(self.comma)
    }
}

} // verus!
