use crate::ast::tokens::opt_token;
use crate::ast::class::{ClassDefinition};
use crate::ast::expression::{Expression, TableExpression};
use crate::ast::function::{FunctionDefinition};
use crate::ast::identifier::{Identifier};
use crate::ast::type_::{Type};
use crate::ast::variable::{VarInitializer};
use crate::token::Token;
use vstd::prelude::*;

verus! {

/// Slot in a [`TableExpression`] or [`ClassDefinition`].
///
/// [`TableExpression`]: crate::ast::TableExpression
/// [`ClassDefinition`]: crate::ast::ClassDefinition
#[derive(Debug)]
pub enum Slot<'s> {
    /// Property slot.
    ///
    /// Grammar: [Identifier] [VarInitializer]
    Property {
        name: Identifier<'s>,
        initializer: VarInitializer<'s>,
    },

    /// Computed property slot.
    ///
    /// Grammar: `[` [Expression] `]` [VarInitializer]
    ComputedProperty {
        open: &'s Token<'s>,
        name: Box<Expression<'s>>,
        close: &'s Token<'s>,
        initializer: VarInitializer<'s>,
    },

    /// Constructor slot.
    ///
    /// While mainly intended for classes, this is also valid in a table due to a quirk in the
    /// vanilla Squirrel parser, but it's just treated as a function named `constructor`.
    ///
    /// Grammar: `function`? `constructor` [FunctionDefinition]
    Constructor {
        function: Option<&'s Token<'s>>,
        constructor: &'s Token<'s>,
        definition: Box<FunctionDefinition<'s>>,
    },

    /// Function slot.
    ///
    /// Grammar: [Type]? `function` [Identifier] [FunctionDefinition]
    Function {
        return_type: Option<Type<'s>>,
        function: &'s Token<'s>,
        name: Identifier<'s>,
        definition: Box<FunctionDefinition<'s>>,
    },
}

impl<'s> Slot<'s> {
    /// The tokens of the node, in source order.
    pub open spec fn tokens(self) -> Seq<Token<'s>>
        decreases self,
    {
        match self {
            Slot::Property { name, initializer } => name.tokens() + initializer.tokens(),
            Slot::ComputedProperty { open, name, close, initializer } => seq![*open] + (*name).tokens() + seq![*close] + initializer.tokens(),
            Slot::Constructor { function, constructor, definition } => opt_token(function) + seq![*constructor] + (*definition).tokens(),
            Slot::Function { return_type, function, name, definition } => (match return_type { Some(x) => x.tokens(), None => Seq::empty() }) + seq![*function] + name.tokens() + (*definition).tokens(),
        }
    }
}

} // verus!
