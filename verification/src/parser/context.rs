use vstd::prelude::*;

verus! {

/// Context information that can be attached to a [`ParseError`](crate::ParseError): the
/// syntactic construct that the parser knows it is inside when an error occurs.
#[derive(Debug, Clone, Copy, PartialEq, Eq, Structural)]
pub enum ContextType {
    /// A span of something. This should generally be replaced with a more specific context.
    Span,
    /// An expression with a value and an operator.
    Expression,
    /// Literal defining a table.
    TableLiteral,
    /// Literal defining an array.
    ArrayLiteral,
    /// Literal defining a 3D vector.
    VectorLiteral,
    /// Literal defining an anonymous function.
    FunctionLiteral,
    /// Literal defining a lambda function.
    LambdaLiteral,
    /// Literal defining an anonymous class.
    ClassLiteral,
    /// List of arguments in a function call.
    CallArgumentList,
    /// A statement in a program or block.
    Statement,
    /// A block statement, containing multiple sub-statements.
    BlockStatement,
    /// All of an `if` statement.
    IfStatement,
    /// The condition in an `if` statement.
    IfStatementCondition,
    /// All of a `while` statement.
    WhileStatement,
    /// The condition of a `while` statement.
    WhileStatementCondition,
    /// All of a `do while` statement.
    DoWhileStatement,
    /// The condition of a `do while` statement.
    DoWhileStatementCondition,
    /// All of a `switch` statement.
    SwitchStatement,
    /// The condition of a `switch` statement.
    SwitchStatementCondition,
    /// All of a `for` statement.
    ForStatement,
    /// The condition of a `for` statement.
    ForStatementCondition,
    /// All of a `foreach` statement.
    ForeachStatement,
    /// The condition of a `foreach` statement.
    ForeachStatementCondition,
    /// All of a `try catch` statement.
    TryCatchStatement,
    /// The catch binding in a `try catch` statement.
    TryCatchStatementCatchName,
    /// A `return` statement in a function.
    ReturnStatement,
    /// A `yield` statement in a generator function.
    YieldStatement,
    /// A `throw` statement.
    ThrowStatement,
    /// A `thread` statement.
    ThreadStatement,
    /// A `delaythread` statement.
    DelayThreadStatement,
    /// A `waitthread` statement.
    WaitThreadStatement,
    /// A `waitthreadsolo` statement.
    WaitThreadSoloStatement,
    /// A `wait` statement.
    WaitStatement,
    /// A `global` statement.
    GlobalStatement,
    /// Class definition.
    ClassDefinition,
    /// Enum definition.
    EnumDefinition,
    /// Function definition.
    FunctionDefinition,
    /// Constant value definition.
    ConstDefinition,
    /// Variable definition.
    VarDefinition,
    /// Struct definition.
    StructDefinition,
    /// Type definition.
    TypeDefinition,
    /// Property in a class, table, or struct.
    Property,
    /// Constructor in a class or table.
    Constructor,
    /// Method in a class or table.
    Method,
    /// Function definition's parameter list.
    FunctionParamList,
    /// Function environment definition.
    FunctionEnvironment,
    /// Function free variable/capture list.
    FunctionCaptureList,
    /// A type with an optional number of type modifiers.
    Type,
    /// List of arguments in a generic type.
    GenericArgumentList,
}

impl ContextType {
    /// Whether the context says more than that the error is inside some span of tokens.
    pub open spec fn spec_is_useful(self) -> bool {
        self != ContextType::Span
    }

    /// Whether the context says more than that the error is inside some span of tokens.
    pub fn is_useful(self) -> (r: bool)
        ensures
            r == self.spec_is_useful(),
    {
        !matches!(self, ContextType::Span)
    }

    /// The text that describes the context in error messages.
    pub open spec fn description_text(self) -> Seq<char> {
        match self {
            ContextType::Span => "span"@,
            ContextType::Expression => "expression"@,
            ContextType::TableLiteral => "table literal"@,
            ContextType::ArrayLiteral => "array literal"@,
            ContextType::VectorLiteral => "vector literal"@,
            ContextType::FunctionLiteral => "function literal"@,
            ContextType::LambdaLiteral => "lambda literal"@,
            ContextType::ClassLiteral => "class literal"@,
            ContextType::CallArgumentList => "argument list"@,
            ContextType::Statement => "statement"@,
            ContextType::BlockStatement => "block statement"@,
            ContextType::IfStatement => "`if` statement"@,
            ContextType::IfStatementCondition => "`if` statement condition"@,
            ContextType::WhileStatement => "`while` loop"@,
            ContextType::WhileStatementCondition => "`while` loop condition"@,
            ContextType::DoWhileStatement => "`do while` loop"@,
            ContextType::DoWhileStatementCondition => "`do while` loop condition"@,
            ContextType::SwitchStatement => "`switch` statement"@,
            ContextType::SwitchStatementCondition => "`switch` statement condition"@,
            ContextType::ForStatement => "`for` loop"@,
            ContextType::ForStatementCondition => "`for` loop condition"@,
            ContextType::ForeachStatement => "`foreach` loop"@,
            ContextType::ForeachStatementCondition => "`foreach` loop condition"@,
            ContextType::TryCatchStatement => "`try` statement"@,
            ContextType::TryCatchStatementCatchName => "`try catch` name"@,
            ContextType::ReturnStatement => "`return` statement"@,
            ContextType::YieldStatement => "`yield` statement"@,
            ContextType::ThrowStatement => "`throw` statement"@,
            ContextType::ThreadStatement => "`thread` statement"@,
            ContextType::DelayThreadStatement => "`delaythread` statement"@,
            ContextType::WaitThreadStatement => "`waitthread` statement"@,
            ContextType::WaitThreadSoloStatement => "`waitthreadsolo` statement"@,
            ContextType::WaitStatement => "`wait` statement"@,
            ContextType::GlobalStatement => "`global` statement"@,
            ContextType::ClassDefinition => "`class` definition"@,
            ContextType::EnumDefinition => "`enum` definition"@,
            ContextType::FunctionDefinition => "`function` definition"@,
            ContextType::ConstDefinition => "`const` definition"@,
            ContextType::VarDefinition => "variable definition"@,
            ContextType::StructDefinition => "`struct` definition"@,
            ContextType::TypeDefinition => "type definition"@,
            ContextType::Property => "property"@,
            ContextType::Constructor => "constructor"@,
            ContextType::Method => "method"@,
            ContextType::FunctionParamList => "parameter list"@,
            ContextType::FunctionEnvironment => "function environment"@,
            ContextType::FunctionCaptureList => "function capture list"@,
            ContextType::Type => "type"@,
            ContextType::GenericArgumentList => "generic type list"@,
        }
    }

    /// A description of the context for error messages.
    pub fn description(self) -> (r: &'static str)
        ensures
            r@ == self.description_text(),
    {
        match self {
            ContextType::Span => "span",
            ContextType::Expression => "expression",
            ContextType::TableLiteral => "table literal",
            ContextType::ArrayLiteral => "array literal",
            ContextType::VectorLiteral => "vector literal",
            ContextType::FunctionLiteral => "function literal",
            ContextType::LambdaLiteral => "lambda literal",
            ContextType::ClassLiteral => "class literal",
            ContextType::CallArgumentList => "argument list",
            ContextType::Statement => "statement",
            ContextType::BlockStatement => "block statement",
            ContextType::IfStatement => "`if` statement",
            ContextType::IfStatementCondition => "`if` statement condition",
            ContextType::WhileStatement => "`while` loop",
            ContextType::WhileStatementCondition => "`while` loop condition",
            ContextType::DoWhileStatement => "`do while` loop",
            ContextType::DoWhileStatementCondition => "`do while` loop condition",
            ContextType::SwitchStatement => "`switch` statement",
            ContextType::SwitchStatementCondition => "`switch` statement condition",
            ContextType::ForStatement => "`for` loop",
            ContextType::ForStatementCondition => "`for` loop condition",
            ContextType::ForeachStatement => "`foreach` loop",
            ContextType::ForeachStatementCondition => "`foreach` loop condition",
            ContextType::TryCatchStatement => "`try` statement",
            ContextType::TryCatchStatementCatchName => "`try catch` name",
            ContextType::ReturnStatement => "`return` statement",
            ContextType::YieldStatement => "`yield` statement",
            ContextType::ThrowStatement => "`throw` statement",
            ContextType::ThreadStatement => "`thread` statement",
            ContextType::DelayThreadStatement => "`delaythread` statement",
            ContextType::WaitThreadStatement => "`waitthread` statement",
            ContextType::WaitThreadSoloStatement => "`waitthreadsolo` statement",
            ContextType::WaitStatement => "`wait` statement",
            ContextType::GlobalStatement => "`global` statement",
            ContextType::ClassDefinition => "`class` definition",
            ContextType::EnumDefinition => "`enum` definition",
            ContextType::FunctionDefinition => "`function` definition",
            ContextType::ConstDefinition => "`const` definition",
            ContextType::VarDefinition => "variable definition",
            ContextType::StructDefinition => "`struct` definition",
            ContextType::TypeDefinition => "type definition",
            ContextType::Property => "property",
            ContextType::Constructor => "constructor",
            ContextType::Method => "method",
            ContextType::FunctionParamList => "parameter list",
            ContextType::FunctionEnvironment => "function environment",
            ContextType::FunctionCaptureList => "function capture list",
            ContextType::Type => "type",
            ContextType::GenericArgumentList => "generic type list",
        }
    }
}

} // verus!
