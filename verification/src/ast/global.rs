use crate::ast::identifier::{Identifier};
use crate::ast::statement::{ClassDefinitionStatement, ConstDefinitionStatement, EnumDefinitionStatement, GlobalStatement, StructDefinitionStatement, TypeDefinitionStatement, VarDefinitionStatement};
use crate::ast::type_::{Type};
use crate::ast::variable::{VarInitializer};
use crate::token::Token;
use vstd::prelude::*;

verus! {

/// Right-hand-side of a [`GlobalStatement`].
///
/// [`GlobalStatement`]: crate::ast::GlobalStatement
#[derive(Debug)]
pub enum GlobalDefinition<'s> {
    /// Global function.
    ///
    /// Grammar: `function` [Identifier]
    Function {
        function: &'s Token<'s>,
        name: Identifier<'s>,
    },

    /// Global untyped variable.
    ///
    /// Grammar: [Identifier] [VarInitializer]
    UntypedVar {
        name: Identifier<'s>,
        initializer: VarInitializer<'s>,
    },

    /// Global typed variable.
    ///
    /// Grammar: [VarDefinitionStatement]
    TypedVar(VarDefinitionStatement<'s>),

    /// Global constant.
    ///
    /// Grammar: [ConstDefinitionStatement]
    Const(ConstDefinitionStatement<'s>),

    /// Global enum.
    ///
    /// Grammar: [EnumDefinitionStatement]
    Enum(EnumDefinitionStatement<'s>),

    /// Global class definition.
    ///
    /// Grammar: [ClassDefinitionStatement]
    Class(ClassDefinitionStatement<'s>),

    /// Global struct definition.
    ///
    /// Grammar: [StructDefinitionStatement]
    Struct(StructDefinitionStatement<'s>),

    /// Global type definition.
    ///
    /// Grammar: [TypeDefinitionStatement]
    Type(TypeDefinitionStatement<'s>),
}

impl<'s> GlobalDefinition<'s> {
    /// The tokens of the node, in source order.
    pub open spec fn tokens(self) -> Seq<Token<'s>>
        decreases self,
    {
        match self {
            GlobalDefinition::Function { function, name } => seq![*function] + name.tokens(),
            GlobalDefinition::UntypedVar { name, initializer } => name.tokens() + initializer.tokens(),
            GlobalDefinition::TypedVar(node) => node.tokens(),
            GlobalDefinition::Const(node) => node.tokens(),
            GlobalDefinition::Enum(node) => node.tokens(),
            GlobalDefinition::Class(node) => node.tokens(),
            GlobalDefinition::Struct(node) => node.tokens(),
            GlobalDefinition::Type(node) => node.tokens(),
        }
    }
}

} // verus!
