use crate::flavor::Flavor;
use vstd::string::StringExecFns;
use core::ops::Range;
use vstd::prelude::*;

verus! {

/// A terminal token: a symbol or a keyword of the language.
#[derive(Debug, Clone, Copy, PartialEq, Eq, Hash, Structural)]
pub enum TerminalToken {
    /// `...`
    Ellipsis,
    /// `<=>`
    ThreeWay,
    /// `::`
    Namespace,
    /// `</`
    OpenAttributes,
    /// `/>`
    CloseAttributes,
    /// `==`
    Equal,
    /// `!=`
    NotEqual,
    /// `<=`
    LessEqual,
    /// `>=`
    GreaterEqual,
    /// `&&`
    LogicalAnd,
    /// `||`
    LogicalOr,
    /// `++`
    Increment,
    /// `--`
    Decrement,
    /// `+=`
    AddEqual,
    /// `-=`
    SubtractEqual,
    /// `*=`
    MultiplyEqual,
    /// `/=`
    DivideEqual,
    /// `%=`
    ModuloEqual,
    /// `{`
    OpenBrace,
    /// `}`
    CloseBrace,
    /// `[`
    OpenSquare,
    /// `]`
    CloseSquare,
    /// `(`
    OpenBracket,
    /// `)`
    CloseBracket,
    /// `;`
    Semicolon,
    /// `,`
    Comma,
    /// `.`
    Dot,
    /// `:`
    Colon,
    /// `?`
    Question,
    /// `=`
    Assign,
    /// `+`
    Add,
    /// `-`
    Subtract,
    /// `*`
    Multiply,
    /// `/`
    Divide,
    /// `%`
    Modulo,
    /// `<`
    Less,
    /// `>`
    Greater,
    /// `!`
    Not,
    /// `~`
    BitwiseNot,
    /// `&`
    BitwiseAnd,
    /// `|`
    BitwiseOr,
    /// `^`
    BitwiseXor,
    /// `break`
    Break,
    /// `case`
    Case,
    /// `catch`
    Catch,
    /// `class`
    Class,
    /// `clone`
    Clone,
    /// `const`
    Const,
    /// `constructor`
    Constructor,
    /// `continue`
    Continue,
    /// `default`
    Default,
    /// `delaythread`
    DelayThread,
    /// `delegate`
    Delegate,
    /// `delete`
    Delete,
    /// `do`
    Do,
    /// `else`
    Else,
    /// `enum`
    Enum,
    /// `expect`
    Expect,
    /// `extends`
    Extends,
    /// `for`
    For,
    /// `foreach`
    Foreach,
    /// `function`
    Function,
    /// `functionref`
    FunctionRef,
    /// `global`
    Global,
    /// `globalize_all_functions`
    GlobalizeAllFunctions,
    /// `if`
    If,
    /// `in`
    In,
    /// `instanceof`
    Instanceof,
    /// `local`
    Local,
    /// `ornull`
    OrNull,
    /// `return`
    Return,
    /// `static`
    Static,
    /// `struct`
    Struct,
    /// `switch`
    Switch,
    /// `thread`
    Thread,
    /// `throw`
    Throw,
    /// `try`
    Try,
    /// `typedef`
    Typedef,
    /// `typeof`
    Typeof,
    /// `untyped`
    Untyped,
    /// `var`
    Var,
    /// `wait`
    Wait,
    /// `waitthread`
    WaitThread,
    /// `while`
    While,
    /// `yield`
    Yield,
}

/// The characters that make up a terminal token in source code.
pub open spec fn terminal_chars(t: TerminalToken) -> Seq<char> {
    match t {
        TerminalToken::Ellipsis => seq!['.', '.', '.'],
        TerminalToken::ThreeWay => seq!['<', '=', '>'],
        TerminalToken::Namespace => seq![':', ':'],
        TerminalToken::OpenAttributes => seq!['<', '/'],
        TerminalToken::CloseAttributes => seq!['/', '>'],
        TerminalToken::Equal => seq!['=', '='],
        TerminalToken::NotEqual => seq!['!', '='],
        TerminalToken::LessEqual => seq!['<', '='],
        TerminalToken::GreaterEqual => seq!['>', '='],
        TerminalToken::LogicalAnd => seq!['&', '&'],
        TerminalToken::LogicalOr => seq!['|', '|'],
        TerminalToken::Increment => seq!['+', '+'],
        TerminalToken::Decrement => seq!['-', '-'],
        TerminalToken::AddEqual => seq!['+', '='],
        TerminalToken::SubtractEqual => seq!['-', '='],
        TerminalToken::MultiplyEqual => seq!['*', '='],
        TerminalToken::DivideEqual => seq!['/', '='],
        TerminalToken::ModuloEqual => seq!['%', '='],
        TerminalToken::OpenBrace => seq!['{'],
        TerminalToken::CloseBrace => seq!['}'],
        TerminalToken::OpenSquare => seq!['['],
        TerminalToken::CloseSquare => seq![']'],
        TerminalToken::OpenBracket => seq!['('],
        TerminalToken::CloseBracket => seq![')'],
        TerminalToken::Semicolon => seq![';'],
        TerminalToken::Comma => seq![','],
        TerminalToken::Dot => seq!['.'],
        TerminalToken::Colon => seq![':'],
        TerminalToken::Question => seq!['?'],
        TerminalToken::Assign => seq!['='],
        TerminalToken::Add => seq!['+'],
        TerminalToken::Subtract => seq!['-'],
        TerminalToken::Multiply => seq!['*'],
        TerminalToken::Divide => seq!['/'],
        TerminalToken::Modulo => seq!['%'],
        TerminalToken::Less => seq!['<'],
        TerminalToken::Greater => seq!['>'],
        TerminalToken::Not => seq!['!'],
        TerminalToken::BitwiseNot => seq!['~'],
        TerminalToken::BitwiseAnd => seq!['&'],
        TerminalToken::BitwiseOr => seq!['|'],
        TerminalToken::BitwiseXor => seq!['^'],
        TerminalToken::Break => seq!['b', 'r', 'e', 'a', 'k'],
        TerminalToken::Case => seq!['c', 'a', 's', 'e'],
        TerminalToken::Catch => seq!['c', 'a', 't', 'c', 'h'],
        TerminalToken::Class => seq!['c', 'l', 'a', 's', 's'],
        TerminalToken::Clone => seq!['c', 'l', 'o', 'n', 'e'],
        TerminalToken::Const => seq!['c', 'o', 'n', 's', 't'],
        TerminalToken::Constructor => seq!['c', 'o', 'n', 's', 't', 'r', 'u', 'c', 't', 'o', 'r'],
        TerminalToken::Continue => seq!['c', 'o', 'n', 't', 'i', 'n', 'u', 'e'],
        TerminalToken::Default => seq!['d', 'e', 'f', 'a', 'u', 'l', 't'],
        TerminalToken::DelayThread => seq!['d', 'e', 'l', 'a', 'y', 't', 'h', 'r', 'e', 'a', 'd'],
        TerminalToken::Delegate => seq!['d', 'e', 'l', 'e', 'g', 'a', 't', 'e'],
        TerminalToken::Delete => seq!['d', 'e', 'l', 'e', 't', 'e'],
        TerminalToken::Do => seq!['d', 'o'],
        TerminalToken::Else => seq!['e', 'l', 's', 'e'],
        TerminalToken::Enum => seq!['e', 'n', 'u', 'm'],
        TerminalToken::Expect => seq!['e', 'x', 'p', 'e', 'c', 't'],
        TerminalToken::Extends => seq!['e', 'x', 't', 'e', 'n', 'd', 's'],
        TerminalToken::For => seq!['f', 'o', 'r'],
        TerminalToken::Foreach => seq!['f', 'o', 'r', 'e', 'a', 'c', 'h'],
        TerminalToken::Function => seq!['f', 'u', 'n', 'c', 't', 'i', 'o', 'n'],
        TerminalToken::FunctionRef => seq!['f', 'u', 'n', 'c', 't', 'i', 'o', 'n', 'r', 'e', 'f'],
        TerminalToken::Global => seq!['g', 'l', 'o', 'b', 'a', 'l'],
        TerminalToken::GlobalizeAllFunctions => seq!['g', 'l', 'o', 'b', 'a', 'l', 'i', 'z', 'e', '_', 'a', 'l', 'l', '_', 'f', 'u', 'n', 'c', 't', 'i', 'o', 'n', 's'],
        TerminalToken::If => seq!['i', 'f'],
        TerminalToken::In => seq!['i', 'n'],
        TerminalToken::Instanceof => seq!['i', 'n', 's', 't', 'a', 'n', 'c', 'e', 'o', 'f'],
        TerminalToken::Local => seq!['l', 'o', 'c', 'a', 'l'],
        TerminalToken::OrNull => seq!['o', 'r', 'n', 'u', 'l', 'l'],
        TerminalToken::Return => seq!['r', 'e', 't', 'u', 'r', 'n'],
        TerminalToken::Static => seq!['s', 't', 'a', 't', 'i', 'c'],
        TerminalToken::Struct => seq!['s', 't', 'r', 'u', 'c', 't'],
        TerminalToken::Switch => seq!['s', 'w', 'i', 't', 'c', 'h'],
        TerminalToken::Thread => seq!['t', 'h', 'r', 'e', 'a', 'd'],
        TerminalToken::Throw => seq!['t', 'h', 'r', 'o', 'w'],
        TerminalToken::Try => seq!['t', 'r', 'y'],
        TerminalToken::Typedef => seq!['t', 'y', 'p', 'e', 'd', 'e', 'f'],
        TerminalToken::Typeof => seq!['t', 'y', 'p', 'e', 'o', 'f'],
        TerminalToken::Untyped => seq!['u', 'n', 't', 'y', 'p', 'e', 'd'],
        TerminalToken::Var => seq!['v', 'a', 'r'],
        TerminalToken::Wait => seq!['w', 'a', 'i', 't'],
        TerminalToken::WaitThread => seq!['w', 'a', 'i', 't', 't', 'h', 'r', 'e', 'a', 'd'],
        TerminalToken::While => seq!['w', 'h', 'i', 'l', 'e'],
        TerminalToken::Yield => seq!['y', 'i', 'e', 'l', 'd'],
    }
}

/// Whether a terminal token exists in the given flavor.
pub open spec fn terminal_supported(t: TerminalToken, flavor: Flavor) -> bool {
    match t {
        TerminalToken::DelayThread | TerminalToken::Expect | TerminalToken::FunctionRef | TerminalToken::Global | TerminalToken::GlobalizeAllFunctions | TerminalToken::OrNull | TerminalToken::Struct | TerminalToken::Thread | TerminalToken::Typedef | TerminalToken::Untyped | TerminalToken::Var | TerminalToken::Wait | TerminalToken::WaitThread => flavor == Flavor::SquirrelRespawn,
        _ => true,
    }
}

/// The order in which symbols are tried by the lexer; a longer symbol comes before its prefixes.
pub open spec fn symbol_order() -> Seq<TerminalToken> {
    seq![
        TerminalToken::Ellipsis,
        TerminalToken::ThreeWay,
        TerminalToken::Namespace,
        TerminalToken::OpenAttributes,
        TerminalToken::CloseAttributes,
        TerminalToken::Equal,
        TerminalToken::NotEqual,
        TerminalToken::LessEqual,
        TerminalToken::GreaterEqual,
        TerminalToken::LogicalAnd,
        TerminalToken::LogicalOr,
        TerminalToken::Increment,
        TerminalToken::Decrement,
        TerminalToken::AddEqual,
        TerminalToken::SubtractEqual,
        TerminalToken::MultiplyEqual,
        TerminalToken::DivideEqual,
        TerminalToken::ModuloEqual,
        TerminalToken::OpenBrace,
        TerminalToken::CloseBrace,
        TerminalToken::OpenSquare,
        TerminalToken::CloseSquare,
        TerminalToken::OpenBracket,
        TerminalToken::CloseBracket,
        TerminalToken::Semicolon,
        TerminalToken::Comma,
        TerminalToken::Dot,
        TerminalToken::Colon,
        TerminalToken::Question,
        TerminalToken::Assign,
        TerminalToken::Add,
        TerminalToken::Subtract,
        TerminalToken::Multiply,
        TerminalToken::Divide,
        TerminalToken::Modulo,
        TerminalToken::Less,
        TerminalToken::Greater,
        TerminalToken::Not,
        TerminalToken::BitwiseNot,
        TerminalToken::BitwiseAnd,
        TerminalToken::BitwiseOr,
        TerminalToken::BitwiseXor,
    ]
}

/// The keywords, which the lexer recognizes among identifiers.
pub open spec fn keyword_order() -> Seq<TerminalToken> {
    seq![
        TerminalToken::Break,
        TerminalToken::Case,
        TerminalToken::Catch,
        TerminalToken::Class,
        TerminalToken::Clone,
        TerminalToken::Const,
        TerminalToken::Constructor,
        TerminalToken::Continue,
        TerminalToken::Default,
        TerminalToken::DelayThread,
        TerminalToken::Delegate,
        TerminalToken::Delete,
        TerminalToken::Do,
        TerminalToken::Else,
        TerminalToken::Enum,
        TerminalToken::Expect,
        TerminalToken::Extends,
        TerminalToken::For,
        TerminalToken::Foreach,
        TerminalToken::Function,
        TerminalToken::FunctionRef,
        TerminalToken::Global,
        TerminalToken::GlobalizeAllFunctions,
        TerminalToken::If,
        TerminalToken::In,
        TerminalToken::Instanceof,
        TerminalToken::Local,
        TerminalToken::OrNull,
        TerminalToken::Return,
        TerminalToken::Static,
        TerminalToken::Struct,
        TerminalToken::Switch,
        TerminalToken::Thread,
        TerminalToken::Throw,
        TerminalToken::Try,
        TerminalToken::Typedef,
        TerminalToken::Typeof,
        TerminalToken::Untyped,
        TerminalToken::Var,
        TerminalToken::Wait,
        TerminalToken::WaitThread,
        TerminalToken::While,
        TerminalToken::Yield,
    ]
}

pub const SYMBOL_COUNT: usize = 42;
pub const KEYWORD_COUNT: usize = 43;

impl TerminalToken {
    /// The source text of the token.
    pub fn as_str(self) -> (s: &'static str)
        ensures
            s@ == terminal_chars(self),
    {
        match self {
            TerminalToken::Ellipsis => {
                proof {
                    reveal_strlit("...");
                }
                "..."
            },
            TerminalToken::ThreeWay => {
                proof {
                    reveal_strlit("<=>");
                }
                "<=>"
            },
            TerminalToken::Namespace => {
                proof {
                    reveal_strlit("::");
                }
                "::"
            },
            TerminalToken::OpenAttributes => {
                proof {
                    reveal_strlit("</");
                }
                "</"
            },
            TerminalToken::CloseAttributes => {
                proof {
                    reveal_strlit("/>");
                }
                "/>"
            },
            TerminalToken::Equal => {
                proof {
                    reveal_strlit("==");
                }
                "=="
            },
            TerminalToken::NotEqual => {
                proof {
                    reveal_strlit("!=");
                }
                "!="
            },
            TerminalToken::LessEqual => {
                proof {
                    reveal_strlit("<=");
                }
                "<="
            },
            TerminalToken::GreaterEqual => {
                proof {
                    reveal_strlit(">=");
                }
                ">="
            },
            TerminalToken::LogicalAnd => {
                proof {
                    reveal_strlit("&&");
                }
                "&&"
            },
            TerminalToken::LogicalOr => {
                proof {
                    reveal_strlit("||");
                }
                "||"
            },
            TerminalToken::Increment => {
                proof {
                    reveal_strlit("++");
                }
                "++"
            },
            TerminalToken::Decrement => {
                proof {
                    reveal_strlit("--");
                }
                "--"
            },
            TerminalToken::AddEqual => {
                proof {
                    reveal_strlit("+=");
                }
                "+="
            },
            TerminalToken::SubtractEqual => {
                proof {
                    reveal_strlit("-=");
                }
                "-="
            },
            TerminalToken::MultiplyEqual => {
                proof {
                    reveal_strlit("*=");
                }
                "*="
            },
            TerminalToken::DivideEqual => {
                proof {
                    reveal_strlit("/=");
                }
                "/="
            },
            TerminalToken::ModuloEqual => {
                proof {
                    reveal_strlit("%=");
                }
                "%="
            },
            TerminalToken::OpenBrace => {
                proof {
                    reveal_strlit("{");
                }
                "{"
            },
            TerminalToken::CloseBrace => {
                proof {
                    reveal_strlit("}");
                }
                "}"
            },
            TerminalToken::OpenSquare => {
                proof {
                    reveal_strlit("[");
                }
                "["
            },
            TerminalToken::CloseSquare => {
                proof {
                    reveal_strlit("]");
                }
                "]"
            },
            TerminalToken::OpenBracket => {
                proof {
                    reveal_strlit("(");
                }
                "("
            },
            TerminalToken::CloseBracket => {
                proof {
                    reveal_strlit(")");
                }
                ")"
            },
            TerminalToken::Semicolon => {
                proof {
                    reveal_strlit(";");
                }
                ";"
            },
            TerminalToken::Comma => {
                proof {
                    reveal_strlit(",");
                }
                ","
            },
            TerminalToken::Dot => {
                proof {
                    reveal_strlit(".");
                }
                "."
            },
            TerminalToken::Colon => {
                proof {
                    reveal_strlit(":");
                }
                ":"
            },
            TerminalToken::Question => {
                proof {
                    reveal_strlit("?");
                }
                "?"
            },
            TerminalToken::Assign => {
                proof {
                    reveal_strlit("=");
                }
                "="
            },
            TerminalToken::Add => {
                proof {
                    reveal_strlit("+");
                }
                "+"
            },
            TerminalToken::Subtract => {
                proof {
                    reveal_strlit("-");
                }
                "-"
            },
            TerminalToken::Multiply => {
                proof {
                    reveal_strlit("*");
                }
                "*"
            },
            TerminalToken::Divide => {
                proof {
                    reveal_strlit("/");
                }
                "/"
            },
            TerminalToken::Modulo => {
                proof {
                    reveal_strlit("%");
                }
                "%"
            },
            TerminalToken::Less => {
                proof {
                    reveal_strlit("<");
                }
                "<"
            },
            TerminalToken::Greater => {
                proof {
                    reveal_strlit(">");
                }
                ">"
            },
            TerminalToken::Not => {
                proof {
                    reveal_strlit("!");
                }
                "!"
            },
            TerminalToken::BitwiseNot => {
                proof {
                    reveal_strlit("~");
                }
                "~"
            },
            TerminalToken::BitwiseAnd => {
                proof {
                    reveal_strlit("&");
                }
                "&"
            },
            TerminalToken::BitwiseOr => {
                proof {
                    reveal_strlit("|");
                }
                "|"
            },
            TerminalToken::BitwiseXor => {
                proof {
                    reveal_strlit("^");
                }
                "^"
            },
            TerminalToken::Break => {
                proof {
                    reveal_strlit("break");
                }
                "break"
            },
            TerminalToken::Case => {
                proof {
                    reveal_strlit("case");
                }
                "case"
            },
            TerminalToken::Catch => {
                proof {
                    reveal_strlit("catch");
                }
                "catch"
            },
            TerminalToken::Class => {
                proof {
                    reveal_strlit("class");
                }
                "class"
            },
            TerminalToken::Clone => {
                proof {
                    reveal_strlit("clone");
                }
                "clone"
            },
            TerminalToken::Const => {
                proof {
                    reveal_strlit("const");
                }
                "const"
            },
            TerminalToken::Constructor => {
                proof {
                    reveal_strlit("constructor");
                }
                "constructor"
            },
            TerminalToken::Continue => {
                proof {
                    reveal_strlit("continue");
                }
                "continue"
            },
            TerminalToken::Default => {
                proof {
                    reveal_strlit("default");
                }
                "default"
            },
            TerminalToken::DelayThread => {
                proof {
                    reveal_strlit("delaythread");
                }
                "delaythread"
            },
            TerminalToken::Delegate => {
                proof {
                    reveal_strlit("delegate");
                }
                "delegate"
            },
            TerminalToken::Delete => {
                proof {
                    reveal_strlit("delete");
                }
                "delete"
            },
            TerminalToken::Do => {
                proof {
                    reveal_strlit("do");
                }
                "do"
            },
            TerminalToken::Else => {
                proof {
                    reveal_strlit("else");
                }
                "else"
            },
            TerminalToken::Enum => {
                proof {
                    reveal_strlit("enum");
                }
                "enum"
            },
            TerminalToken::Expect => {
                proof {
                    reveal_strlit("expect");
                }
                "expect"
            },
            TerminalToken::Extends => {
                proof {
                    reveal_strlit("extends");
                }
                "extends"
            },
            TerminalToken::For => {
                proof {
                    reveal_strlit("for");
                }
                "for"
            },
            TerminalToken::Foreach => {
                proof {
                    reveal_strlit("foreach");
                }
                "foreach"
            },
            TerminalToken::Function => {
                proof {
                    reveal_strlit("function");
                }
                "function"
            },
            TerminalToken::FunctionRef => {
                proof {
                    reveal_strlit("functionref");
                }
                "functionref"
            },
            TerminalToken::Global => {
                proof {
                    reveal_strlit("global");
                }
                "global"
            },
            TerminalToken::GlobalizeAllFunctions => {
                proof {
                    reveal_strlit("globalize_all_functions");
                }
                "globalize_all_functions"
            },
            TerminalToken::If => {
                proof {
                    reveal_strlit("if");
                }
                "if"
            },
            TerminalToken::In => {
                proof {
                    reveal_strlit("in");
                }
                "in"
            },
            TerminalToken::Instanceof => {
                proof {
                    reveal_strlit("instanceof");
                }
                "instanceof"
            },
            TerminalToken::Local => {
                proof {
                    reveal_strlit("local");
                }
                "local"
            },
            TerminalToken::OrNull => {
                proof {
                    reveal_strlit("ornull");
                }
                "ornull"
            },
            TerminalToken::Return => {
                proof {
                    reveal_strlit("return");
                }
                "return"
            },
            TerminalToken::Static => {
                proof {
                    reveal_strlit("static");
                }
                "static"
            },
            TerminalToken::Struct => {
                proof {
                    reveal_strlit("struct");
                }
                "struct"
            },
            TerminalToken::Switch => {
                proof {
                    reveal_strlit("switch");
                }
                "switch"
            },
            TerminalToken::Thread => {
                proof {
                    reveal_strlit("thread");
                }
                "thread"
            },
            TerminalToken::Throw => {
                proof {
                    reveal_strlit("throw");
                }
                "throw"
            },
            TerminalToken::Try => {
                proof {
                    reveal_strlit("try");
                }
                "try"
            },
            TerminalToken::Typedef => {
                proof {
                    reveal_strlit("typedef");
                }
                "typedef"
            },
            TerminalToken::Typeof => {
                proof {
                    reveal_strlit("typeof");
                }
                "typeof"
            },
            TerminalToken::Untyped => {
                proof {
                    reveal_strlit("untyped");
                }
                "untyped"
            },
            TerminalToken::Var => {
                proof {
                    reveal_strlit("var");
                }
                "var"
            },
            TerminalToken::Wait => {
                proof {
                    reveal_strlit("wait");
                }
                "wait"
            },
            TerminalToken::WaitThread => {
                proof {
                    reveal_strlit("waitthread");
                }
                "waitthread"
            },
            TerminalToken::While => {
                proof {
                    reveal_strlit("while");
                }
                "while"
            },
            TerminalToken::Yield => {
                proof {
                    reveal_strlit("yield");
                }
                "yield"
            },
        }
    }

    /// Whether the token exists in the given flavor of the language.
    pub fn is_supported(self, flavor: Flavor) -> (b: bool)
        ensures
            b == terminal_supported(self, flavor),
    {
        match self {
            TerminalToken::DelayThread | TerminalToken::Expect | TerminalToken::FunctionRef | TerminalToken::Global | TerminalToken::GlobalizeAllFunctions | TerminalToken::OrNull | TerminalToken::Struct | TerminalToken::Thread | TerminalToken::Typedef | TerminalToken::Untyped | TerminalToken::Var | TerminalToken::Wait | TerminalToken::WaitThread => match flavor {
                Flavor::SquirrelRespawn => true,
                Flavor::Squirrel3 => false,
            },
            _ => true,
        }
    }

    /// The symbol tried at position `i` of the lexer's symbol order.
    pub fn symbol_at(i: usize) -> (t: TerminalToken)
        requires
            i < symbol_order().len(),
        ensures
            t == symbol_order()[i as int],
    {
        match i {
            0 => TerminalToken::Ellipsis,
            1 => TerminalToken::ThreeWay,
            2 => TerminalToken::Namespace,
            3 => TerminalToken::OpenAttributes,
            4 => TerminalToken::CloseAttributes,
            5 => TerminalToken::Equal,
            6 => TerminalToken::NotEqual,
            7 => TerminalToken::LessEqual,
            8 => TerminalToken::GreaterEqual,
            9 => TerminalToken::LogicalAnd,
            10 => TerminalToken::LogicalOr,
            11 => TerminalToken::Increment,
            12 => TerminalToken::Decrement,
            13 => TerminalToken::AddEqual,
            14 => TerminalToken::SubtractEqual,
            15 => TerminalToken::MultiplyEqual,
            16 => TerminalToken::DivideEqual,
            17 => TerminalToken::ModuloEqual,
            18 => TerminalToken::OpenBrace,
            19 => TerminalToken::CloseBrace,
            20 => TerminalToken::OpenSquare,
            21 => TerminalToken::CloseSquare,
            22 => TerminalToken::OpenBracket,
            23 => TerminalToken::CloseBracket,
            24 => TerminalToken::Semicolon,
            25 => TerminalToken::Comma,
            26 => TerminalToken::Dot,
            27 => TerminalToken::Colon,
            28 => TerminalToken::Question,
            29 => TerminalToken::Assign,
            30 => TerminalToken::Add,
            31 => TerminalToken::Subtract,
            32 => TerminalToken::Multiply,
            33 => TerminalToken::Divide,
            34 => TerminalToken::Modulo,
            35 => TerminalToken::Less,
            36 => TerminalToken::Greater,
            37 => TerminalToken::Not,
            38 => TerminalToken::BitwiseNot,
            39 => TerminalToken::BitwiseAnd,
            40 => TerminalToken::BitwiseOr,
            41 => TerminalToken::BitwiseXor,
            _ => TerminalToken::BitwiseXor,
        }
    }

    /// The keyword at position `i` of the keyword order.
    pub fn keyword_at(i: usize) -> (t: TerminalToken)
        requires
            i < keyword_order().len(),
        ensures
            t == keyword_order()[i as int],
    {
        match i {
            0 => TerminalToken::Break,
            1 => TerminalToken::Case,
            2 => TerminalToken::Catch,
            3 => TerminalToken::Class,
            4 => TerminalToken::Clone,
            5 => TerminalToken::Const,
            6 => TerminalToken::Constructor,
            7 => TerminalToken::Continue,
            8 => TerminalToken::Default,
            9 => TerminalToken::DelayThread,
            10 => TerminalToken::Delegate,
            11 => TerminalToken::Delete,
            12 => TerminalToken::Do,
            13 => TerminalToken::Else,
            14 => TerminalToken::Enum,
            15 => TerminalToken::Expect,
            16 => TerminalToken::Extends,
            17 => TerminalToken::For,
            18 => TerminalToken::Foreach,
            19 => TerminalToken::Function,
            20 => TerminalToken::FunctionRef,
            21 => TerminalToken::Global,
            22 => TerminalToken::GlobalizeAllFunctions,
            23 => TerminalToken::If,
            24 => TerminalToken::In,
            25 => TerminalToken::Instanceof,
            26 => TerminalToken::Local,
            27 => TerminalToken::OrNull,
            28 => TerminalToken::Return,
            29 => TerminalToken::Static,
            30 => TerminalToken::Struct,
            31 => TerminalToken::Switch,
            32 => TerminalToken::Thread,
            33 => TerminalToken::Throw,
            34 => TerminalToken::Try,
            35 => TerminalToken::Typedef,
            36 => TerminalToken::Typeof,
            37 => TerminalToken::Untyped,
            38 => TerminalToken::Var,
            39 => TerminalToken::Wait,
            40 => TerminalToken::WaitThread,
            41 => TerminalToken::While,
            42 => TerminalToken::Yield,
            _ => TerminalToken::Yield,
        }
    }
}

/// The base an integer literal is written in.
#[derive(Debug, Clone, Copy, PartialEq, Eq, Structural)]
pub enum LiteralBase {
    /// Written with digits `0-9`.
    Decimal,
    /// Written with a leading `0`.
    Octal,
    /// Written with a leading `0x`.
    Hexadecimal,
}

/// A string literal token.
#[derive(Debug, Clone, Copy, PartialEq)]
pub enum StringToken<'s> {
    /// `"..."`, holding the text between the quotes with escape sequences left as written.
    Literal(&'s str),
    /// `@"..."`, holding the text between the quotes.
    Verbatim(&'s str),
    /// `$"..."`, holding the text between the quotes.
    Asset(&'s str),
}

/// A literal token.
#[derive(Debug, Clone, Copy, PartialEq)]
pub enum LiteralToken<'s> {
    /// An integer literal with its value and the base it was written in.
    Int(i64, LiteralBase),
    /// A floating point literal, holding its source text.
    Float(&'s str),
    /// A character literal `'...'`, holding the text between the quotes.
    Char(&'s str),
    /// A string literal.
    String(StringToken<'s>),
}

/// A comment in the source.
#[derive(Debug, Clone, Copy, PartialEq)]
pub enum Comment<'s> {
    /// `/* ... */`, holding the text between the delimiters.
    MultiLine(&'s str),
    /// `// ...`, holding the text up to the end of the line.
    SingleLine(&'s str),
    /// `# ...`, holding the text up to the end of the line.
    ScriptStyle(&'s str),
}

/// The comments on one line of the source.
#[derive(Debug, Clone, PartialEq)]
pub struct TokenLine<'s> {
    pub comments: Vec<Comment<'s>>,
}

/// The type of a token.
#[derive(Debug, Clone, Copy, PartialEq)]
pub enum TokenType<'s> {
    /// A token holding only comments, at the end of the input.
    Empty,
    /// A symbol or keyword.
    Terminal(TerminalToken),
    /// A literal.
    Literal(LiteralToken<'s>),
    /// An identifier.
    Identifier(&'s str),
}

/// A token with the comments and line breaks around it.
#[derive(Debug, Clone, PartialEq)]
pub struct Token<'s> {
    /// The type of token.
    pub ty: TokenType<'s>,
    /// The byte range of the token in the source.
    pub range: Range<usize>,
    /// Comments after the token on the same line, or before it if it starts a line.
    pub comments: Vec<Comment<'s>>,
    /// Lines of comments before the token.
    pub before_lines: Vec<TokenLine<'s>>,
    /// The line break and comments that end the token's line, if it ends one.
    pub new_line: Option<TokenLine<'s>>,
}

impl<'s> TokenType<'s> {
    /// Whether this is the given terminal.
    pub fn is_terminal(self, t: TerminalToken) -> (b: bool)
        ensures
            b == (self == TokenType::<'s>::Terminal(t)),
    {
        match self {
            TokenType::Terminal(u) => u == t,
            _ => false,
        }
    }

    /// Whether this is the empty token type.
    pub fn is_empty(self) -> (b: bool)
        ensures
            b == (self == TokenType::<'s>::Empty),
    {
        match self {
            TokenType::Empty => true,
            _ => false,
        }
    }

    /// Whether `text` names this token type in messages: `end of input` for the empty token, and
    /// the token's text in backticks for a terminal or an identifier. A literal is written in its
    /// derived `Debug` form, of which nothing is stated.
    pub open spec fn describes(self, text: Seq<char>) -> bool {
        match self {
            TokenType::Empty => text == "end of input"@,
            TokenType::Terminal(t) => text == "`"@ + terminal_chars(t) + "`"@,
            TokenType::Identifier(name) => text == "`"@ + name@ + "`"@,
            TokenType::Literal(_) => true,
        }
    }

    /// The text that names this token type in messages.
    pub fn message(self) -> (r: String)
        ensures
            self.describes(r@),
    {
        match self {
            TokenType::Empty => {
                let mut r = String::new();
                r.append("end of input");
                r
            },
            TokenType::Terminal(t) => {
                let mut r = String::new();
                r.append("`");
                r.append(t.as_str());
                r.append("`");
                r
            },
            TokenType::Identifier(name) => {
                let mut r = String::new();
                r.append("`");
                r.append(name);
                r.append("`");
                r
            },
            TokenType::Literal(literal) => literal_debug(literal),
        }
    }
}

/// The derived `Debug` form of a literal, written by `format!` with `{:?}`. Std documents derived
/// `Debug` output as unstable, so nothing is claimed of the text.
#[verifier::external_body]
fn literal_debug(literal: LiteralToken) -> String {
    format!("{:?}", literal)
}

/// `Clone` for `core::ops::Range`, which the derived `Clone` of the token types calls. Nothing is
/// claimed of the copy it returns.
pub assume_specification<Idx: Clone>[ <Range<Idx> as Clone>::clone ](r: &Range<Idx>) -> Range<Idx>;

} // verus!
