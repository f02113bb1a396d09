use sqparse::parser::error::InternalErrorType;
use sqparse::token::{LiteralBase, LiteralToken, TerminalToken, TokenType};
use sqparse::{tokenize, ContextType, Flavor, LexerErrorType, ParseErrorType};

#[test]
fn parse_error_messages_name_the_expected_tokens() {
    assert_eq!(
        ParseErrorType::ExpectedTerminal(TerminalToken::OpenBrace).message(),
        "expected `{`"
    );
    assert_eq!(
        ParseErrorType::ExpectedCompound2(TerminalToken::Greater, TerminalToken::Greater).message(),
        "expected `>>`"
    );
    assert_eq!(
        ParseErrorType::ExpectedCompound3(TerminalToken::Greater, TerminalToken::Greater, TerminalToken::Greater)
            .message(),
        "expected `>>>`"
    );
    assert_eq!(ParseErrorType::ExpectedIdentifier.message(), "expected an identifier");
    assert_eq!(ParseErrorType::ExpectedType.message(), "expected a type");
    assert_eq!(
        ParseErrorType::ExpectedGlobalDeclaration.message(),
        "expected `function`, `const`, `enum`, `class`, `struct`, `typedef`, or a type"
    );
    assert_eq!(ParseErrorType::IllegalLineBreak.message(), "expected anything but `\n`; got it anyway");
}

#[test]
fn internal_parse_error_message_names_the_variant() {
    let message = ParseErrorType::Internal(InternalErrorType::SpanEndPastEof).message();
    assert!(message.starts_with("internal error SpanEndPastEof - this should not be shown."));
    assert_eq!(InternalErrorType::TokenIsNotSpan.name(), "TokenIsNotSpan");
    assert_eq!(InternalErrorType::PrecedenceMismatch.name(), "PrecedenceMismatch");
}

#[test]
fn context_descriptions() {
    assert_eq!(ContextType::Span.description(), "span");
    assert_eq!(ContextType::IfStatementCondition.description(), "`if` statement condition");
    assert_eq!(ContextType::VarDefinition.description(), "variable definition");
    assert_eq!(ContextType::GenericArgumentList.description(), "generic type list");
}

#[test]
fn token_type_messages() {
    assert_eq!(TokenType::Empty.message(), "end of input");
    assert_eq!(TokenType::Terminal(TerminalToken::Function).message(), "`function`");
    assert_eq!(TokenType::Identifier("MyFunc").message(), "`MyFunc`");
    assert_eq!(
        TokenType::Literal(LiteralToken::Int(5, LiteralBase::Decimal)).message(),
        format!("{:?}", LiteralToken::Int(5, LiteralBase::Decimal))
    );
}

#[test]
fn lexer_error_messages() {
    assert_eq!(LexerErrorType::EndOfInputInsideString.message(), "input ended in the middle of a string");
    assert_eq!(LexerErrorType::EndOfLineInsideString.message(), "strings cannot span multiple lines");
    assert_eq!(LexerErrorType::InvalidInput.message(), "unrecognized token");
    assert_eq!(LexerErrorType::InvalidInput.inline_display(), "not sure what this is");
    assert_eq!(LexerErrorType::EndOfLineInsideString.inline_display(), "help: add a `\"`");
}

#[test]
fn unclosed_delimiter_messages_name_both_delimiters() {
    let err = tokenize("f(1, 2", Flavor::SquirrelRespawn).unwrap_err();
    assert_eq!(err.ty.message(), "unclosed delimiter `(`");
    assert_eq!(err.ty.inline_display(), "help: add a closing `)`");
}
