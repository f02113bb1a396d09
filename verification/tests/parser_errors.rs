use sqparse::ast::{BinaryOperator, PrefixOperator};
use sqparse::parser::error::InternalErrorType;
use sqparse::parser::identifier::{identifier, method_identifier};
use sqparse::parser::operator::{binary_operator, postfix_operator, prefix_operator};
use sqparse::parser::token::{terminal, terminal2, terminal3};
use sqparse::parser::TokenList;
use sqparse::token::TerminalToken;
use sqparse::{parse, tokenize, ContextType, Flavor, ParseError, ParseErrorType, TokenItem};

fn parse_err(source: &str) -> ParseError {
    let tokens = tokenize(source, Flavor::SquirrelRespawn).unwrap();
    parse(&tokens, Flavor::SquirrelRespawn).unwrap_err()
}

fn tokens_of(source: &str) -> Vec<TokenItem<'_>> {
    tokenize(source, Flavor::SquirrelRespawn).unwrap()
}

#[test]
fn missing_function_name_is_expected_identifier() {
    let err = parse_err("function 1() {}");
    assert_eq!(err.ty, ParseErrorType::ExpectedIdentifier);
    assert_eq!(err.token_index, 1);
    assert!(err.is_fatal);
    assert_eq!(err.context.unwrap().ty, ContextType::FunctionDefinition);
}

#[test]
fn typedef_without_type_is_expected_type() {
    let err = parse_err("typedef Name 1");
    assert_eq!(err.ty, ParseErrorType::ExpectedType);
    assert_eq!(err.token_index, 2);
    assert!(err.is_fatal);
    let context = err.context.unwrap();
    assert_eq!(context.ty, ContextType::TypeDefinition);
    assert_eq!(context.token_range, 0..3);
}

#[test]
fn bad_table_slot_is_expected_table_slot() {
    let err = parse_err("x = { 1 }");
    assert_eq!(err.ty, ParseErrorType::ExpectedTableSlot);
    assert_eq!(err.token_index, 3);
    assert!(err.is_fatal);
}

#[test]
fn bad_class_member_is_reported_at_the_closing_brace() {
    let err = parse_err("class A { 1 }");
    assert_eq!(err.ty, ParseErrorType::ExpectedTerminal(TerminalToken::CloseBrace));
    assert_eq!(err.token_index, 3);
    assert!(err.is_fatal);
}

#[test]
fn bad_global_is_expected_global_declaration() {
    let err = parse_err("global 1");
    assert_eq!(err.ty, ParseErrorType::ExpectedGlobalDeclaration);
    assert_eq!(err.token_index, 1);
    assert!(err.is_fatal);
    assert_eq!(err.context.unwrap().ty, ContextType::GlobalStatement);
}

#[test]
fn const_without_initializer_expects_assign() {
    let err = parse_err("const X 1");
    assert_eq!(err.ty, ParseErrorType::ExpectedTerminal(TerminalToken::Assign));
    assert!(err.is_fatal);
    assert_eq!(err.context.unwrap().ty, ContextType::ConstDefinition);
}

#[test]
fn span_past_the_end_is_an_internal_error() {
    let mut tokens = tokens_of("(a)");
    tokens[0].close_index = Some(7);
    let err = parse(&tokens, Flavor::SquirrelRespawn).unwrap_err();
    assert_eq!(err.ty, ParseErrorType::Internal(InternalErrorType::SpanEndPastEof));
    assert!(err.is_fatal);
}

#[test]
fn terminal_parsers() {
    let tokens = tokens_of("< - <-");
    let list = TokenList::new(Flavor::SquirrelRespawn, &tokens);
    let (rest, token) = terminal(list, TerminalToken::Less).unwrap();
    assert_eq!(rest.start_index(), 1);
    assert_eq!(token.range, 0..1);
    let err = terminal(list, TerminalToken::Subtract).unwrap_err();
    assert_eq!(err.ty, ParseErrorType::ExpectedTerminal(TerminalToken::Subtract));
    assert_eq!(err.token_index, 0);

    // `< -` has a space between the two tokens.
    let err = terminal2(list, TerminalToken::Less, TerminalToken::Subtract).unwrap_err();
    assert_eq!(err.ty, ParseErrorType::ExpectedCompound2(TerminalToken::Less, TerminalToken::Subtract));
    let (_, rest) = list.split_at(2);
    let (rest, _) = terminal2(rest, TerminalToken::Less, TerminalToken::Subtract).unwrap();
    assert!(rest.is_ended());
}

#[test]
fn terminal3_needs_adjacent_tokens() {
    let tokens = tokens_of(">>> >> >");
    let list = TokenList::new(Flavor::SquirrelRespawn, &tokens);
    let (rest, _) = terminal3(list, TerminalToken::Greater, TerminalToken::Greater, TerminalToken::Greater).unwrap();
    assert_eq!(rest.start_index(), 3);
    let err = terminal3(rest, TerminalToken::Greater, TerminalToken::Greater, TerminalToken::Greater).unwrap_err();
    assert_eq!(
        err.ty,
        ParseErrorType::ExpectedCompound3(TerminalToken::Greater, TerminalToken::Greater, TerminalToken::Greater)
    );
    assert_eq!(err.token_index, 3);
}

#[test]
fn binary_operators_prefer_compounds() {
    let tokens = tokens_of("<- << < >>> >> > <=");
    let list = TokenList::new(Flavor::SquirrelRespawn, &tokens);
    let (rest, op) = binary_operator(list).unwrap();
    assert!(matches!(op, BinaryOperator::AssignNewSlot(_, _)));
    let (rest, op) = binary_operator(rest).unwrap();
    assert!(matches!(op, BinaryOperator::ShiftLeft(_, _)));
    let (rest, op) = binary_operator(rest).unwrap();
    assert!(matches!(op, BinaryOperator::Less(_)));
    let (rest, op) = binary_operator(rest).unwrap();
    assert!(matches!(op, BinaryOperator::UnsignedShiftRight(_, _, _)));
    let (rest, op) = binary_operator(rest).unwrap();
    assert!(matches!(op, BinaryOperator::ShiftRight(_, _)));
    let (rest, op) = binary_operator(rest).unwrap();
    assert!(matches!(op, BinaryOperator::Greater(_)));
    let (rest, op) = binary_operator(rest).unwrap();
    assert!(matches!(op, BinaryOperator::LessEqual(_)));
    let err = binary_operator(rest).unwrap_err();
    assert_eq!(err.ty, ParseErrorType::ExpectedBinaryOperator);
    assert_eq!(err.token_index, tokens.len());
}

#[test]
fn prefix_and_postfix_operators() {
    let tokens = tokens_of("- ! ~ typeof clone delete ++ -- x");
    let mut list = TokenList::new(Flavor::SquirrelRespawn, &tokens);
    let mut count = 0;
    while let Ok((rest, op)) = prefix_operator(list) {
        if count == 0 {
            assert!(matches!(op, PrefixOperator::Negate(_)));
        }
        list = rest;
        count += 1;
    }
    assert_eq!(count, 8);
    let err = prefix_operator(list).unwrap_err();
    assert_eq!(err.ty, ParseErrorType::ExpectedPrefixOperator);
    let err = postfix_operator(list).unwrap_err();
    assert_eq!(err.ty, ParseErrorType::ExpectedPostfixOperator);
    assert!(identifier(list).is_ok());
}

#[test]
fn method_identifiers() {
    let tokens = tokens_of("constructor name 1");
    let list = TokenList::new(Flavor::SquirrelRespawn, &tokens);
    let (rest, _) = method_identifier(list).unwrap();
    let (rest, id) = method_identifier(rest).unwrap();
    assert!(matches!(id, sqparse::ast::MethodIdentifier::Identifier(ref i) if i.value == "name"));
    let err = method_identifier(rest).unwrap_err();
    assert_eq!(err.ty, ParseErrorType::ExpectedIdentifier);
}

#[test]
fn expression_of_a_literal_ends_before_a_looser_token() {
    let tokens = tokens_of("1; 2");
    let list = TokenList::new(Flavor::SquirrelRespawn, &tokens);
    let (rest, value) = sqparse::parser::expression::expression(list, sqparse::ast::Precedence::Lowest).unwrap();
    assert_eq!(rest.start_index(), 1);
    assert!(matches!(*value, sqparse::ast::Expression::Literal(_)));
}
