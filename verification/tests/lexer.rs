use sqparse::lexer::literal::try_literal;
use sqparse::lexer::parse_str::ParseStr;
use sqparse::lexer::token_iter::TokenIter;
use sqparse::token::{Comment, LiteralBase, LiteralToken, StringToken, TerminalToken, TokenLine, TokenType};
use sqparse::{tokenize, Flavor, LexerErrorType};

const EXAMPLE: &str = r#"
global function MyFunction

struct {
    int a
} file

string function MyFunction( List<number> values ) {
    values.push(1 + 2)
}
"#;

#[test]
fn tokenize_example_gives_29_tokens() {
    let tokens = tokenize(EXAMPLE, Flavor::SquirrelRespawn).unwrap();
    assert_eq!(tokens.len(), 29);
}

#[test]
fn tokenize_links_openers_to_closers() {
    let tokens = tokenize("f( a[1], { b } )", Flavor::SquirrelRespawn).unwrap();
    // f ( a [ 1 ] , { b } )
    assert_eq!(tokens.len(), 11);
    assert_eq!(tokens[1].close_index, Some(10));
    assert_eq!(tokens[3].close_index, Some(5));
    assert_eq!(tokens[7].close_index, Some(9));
    assert_eq!(tokens[0].close_index, None);
    assert_eq!(tokens[10].close_index, None);
}

#[test]
fn tokenize_keeps_ranges_in_order() {
    let source = "local x = 10 // note\nreturn x";
    let tokens = tokenize(source, Flavor::SquirrelRespawn).unwrap();
    let mut last_end = 0;
    for item in &tokens {
        assert!(last_end <= item.token.range.start);
        assert!(item.token.range.start <= item.token.range.end);
        assert!(item.token.range.end <= source.len());
        last_end = item.token.range.end;
    }
    assert_eq!(tokens[0].token.ty, TokenType::Terminal(TerminalToken::Local));
    assert_eq!(tokens[1].token.ty, TokenType::Identifier("x"));
    assert_eq!(tokens[2].token.ty, TokenType::Terminal(TerminalToken::Assign));
    assert_eq!(tokens[3].token.ty, TokenType::Literal(LiteralToken::Int(10, LiteralBase::Decimal)));
    assert!(tokens[3].token.new_line.is_some());
    assert_eq!(tokens[4].token.ty, TokenType::Terminal(TerminalToken::Return));
}

#[test]
fn tokenize_reports_unmatched_opener() {
    let err = tokenize("foo(1, 2", Flavor::SquirrelRespawn).unwrap_err();
    assert_eq!(err.range, 3..4);
    match err.ty {
        LexerErrorType::UnmatchedOpener { open, close } => {
            assert_eq!(open, TokenType::Terminal(TerminalToken::OpenBracket));
            assert_eq!(close, TokenType::Terminal(TerminalToken::CloseBracket));
        }
        other => panic!("unexpected error {:?}", other),
    }
}

#[test]
fn tokenize_reports_invalid_input() {
    let err = tokenize("a ` b", Flavor::SquirrelRespawn).unwrap_err();
    assert!(matches!(err.ty, LexerErrorType::InvalidInput));
    assert_eq!(err.range.start, 2);
}

#[test]
fn tokenize_reports_unterminated_string() {
    let err = tokenize("x = \"never ends", Flavor::SquirrelRespawn).unwrap_err();
    assert!(matches!(err.ty, LexerErrorType::EndOfInputInsideString));
}

#[test]
fn tokenize_reports_line_break_in_string() {
    let err = tokenize("x = \"one\ntwo\"", Flavor::SquirrelRespawn).unwrap_err();
    assert!(matches!(err.ty, LexerErrorType::EndOfLineInsideString));
}

#[test]
fn keywords_depend_on_flavor() {
    let respawn = tokenize("thread f()", Flavor::SquirrelRespawn).unwrap();
    assert_eq!(respawn[0].token.ty, TokenType::Terminal(TerminalToken::Thread));
    let plain = tokenize("thread f()", Flavor::Squirrel3).unwrap();
    assert_eq!(plain[0].token.ty, TokenType::Identifier("thread"));
}

#[test]
fn symbols_take_the_longest_match() {
    let tokens = tokenize("a >>> c <=> d <= e", Flavor::SquirrelRespawn).unwrap();
    let types: Vec<TokenType> = tokens.iter().map(|item| item.token.ty).collect();
    assert_eq!(types.len(), 9);
    assert_eq!(types[1], TokenType::Terminal(TerminalToken::Greater));
    assert_eq!(types[3], TokenType::Terminal(TerminalToken::Greater));
    assert_eq!(types[5], TokenType::Terminal(TerminalToken::ThreeWay));
    assert_eq!(types[7], TokenType::Terminal(TerminalToken::LessEqual));
}

#[test]
fn integer_literals_in_each_base() {
    let (val, rest) = try_literal(ParseStr::new("0x1F rest")).unwrap().unwrap();
    assert_eq!(val, LiteralToken::Int(31, LiteralBase::Hexadecimal));
    assert_eq!(rest.as_str(), " rest");

    let (val, _) = try_literal(ParseStr::new("017")).unwrap().unwrap();
    assert_eq!(val, LiteralToken::Int(15, LiteralBase::Octal));

    let (val, _) = try_literal(ParseStr::new("1234;")).unwrap().unwrap();
    assert_eq!(val, LiteralToken::Int(1234, LiteralBase::Decimal));
}

#[test]
fn float_literals_keep_their_text() {
    let (val, rest) = try_literal(ParseStr::new("1.5e3 + x")).unwrap().unwrap();
    assert_eq!(val, LiteralToken::Float("1.5e3"));
    assert_eq!(rest.as_str(), " + x");
    let parsed: f64 = match val {
        LiteralToken::Float(text) => text.parse().unwrap(),
        _ => unreachable!(),
    };
    assert_eq!(parsed, 1500.0);
}

#[test]
fn char_and_asset_literals() {
    let (val, _) = try_literal(ParseStr::new("'a' b")).unwrap().unwrap();
    assert_eq!(val, LiteralToken::Char("a"));
    let (val, _) = try_literal(ParseStr::new("$\"models/thing.mdl\"")).unwrap().unwrap();
    assert_eq!(val, LiteralToken::String(StringToken::Asset("models/thing.mdl")));
}

#[test]
fn not_a_literal() {
    assert!(try_literal(ParseStr::new("name")).unwrap().is_none());
}

#[test]
fn tokens_are_read_in_order_with_only_trivia_between() {
    let source = "a  /* c */ b\n// d\n+c";
    let tokens = tokenize(source, Flavor::SquirrelRespawn).unwrap();
    let ranges: Vec<_> = tokens.iter().map(|t| t.token.range.clone()).collect();
    assert_eq!(ranges, vec![0..1, 11..12, 18..19, 19..20]);
    assert_eq!(tokens[0].token.ty, TokenType::Identifier("a"));
    assert_eq!(tokens[1].token.ty, TokenType::Identifier("b"));
    assert_eq!(tokens[2].token.ty, TokenType::Terminal(TerminalToken::Add));
    assert_eq!(tokens[3].token.ty, TokenType::Identifier("c"));
}

#[test]
fn comments_after_the_last_token_make_an_empty_token_at_the_end() {
    let source = "a\n// trailing";
    let tokens = tokenize(source, Flavor::SquirrelRespawn).unwrap();
    assert_eq!(tokens.len(), 2);
    assert_eq!(tokens[1].token.ty, TokenType::Empty);
    assert_eq!(tokens[1].token.range, source.len()..source.len());
}

#[test]
fn every_comment_is_attached_to_a_token_in_order() {
    let source = "a /* x */ b // y\n# z\nc";
    let tokens = tokenize(source, Flavor::SquirrelRespawn).unwrap();
    assert_eq!(tokens.len(), 3);
    let mut comments = Vec::new();
    for item in &tokens {
        for line in &item.token.before_lines {
            comments.extend(line.comments.iter().cloned());
        }
        comments.extend(item.token.comments.iter().cloned());
        if let Some(line) = &item.token.new_line {
            comments.extend(line.comments.iter().cloned());
        }
    }
    assert_eq!(
        comments,
        vec![Comment::MultiLine(" x "), Comment::SingleLine(" y"), Comment::ScriptStyle(" z")]
    );
    assert!(tokens[0].token.comments.is_empty());
    assert_eq!(tokens[1].token.comments, vec![Comment::MultiLine(" x ")]);
    assert_eq!(tokens[1].token.new_line.as_ref().unwrap().comments, vec![Comment::SingleLine(" y")]);
    assert_eq!(tokens[2].token.before_lines[0].comments, vec![Comment::ScriptStyle(" z")]);
}

#[test]
fn tokenize_reports_the_innermost_unclosed_opener() {
    let err = tokenize("{ (", Flavor::SquirrelRespawn).unwrap_err();
    assert_eq!(err.range, 2..3);
    match err.ty {
        LexerErrorType::UnmatchedOpener { open, close } => {
            assert_eq!(open, TokenType::Terminal(TerminalToken::OpenBracket));
            assert_eq!(close, TokenType::Terminal(TerminalToken::CloseBracket));
        }
        other => panic!("unexpected error {:?}", other),
    }
}

#[test]
fn tokenize_reports_the_opener_of_an_unclosed_call() {
    let err = tokenize("myfunc(1, 2", Flavor::SquirrelRespawn).unwrap_err();
    assert_eq!(err.range, 6..7);
    assert!(matches!(err.ty, LexerErrorType::UnmatchedOpener { .. }));
}

#[test]
fn tokenize_keeps_a_stray_closer_as_a_token() {
    let tokens = tokenize(")", Flavor::SquirrelRespawn).unwrap();
    assert_eq!(tokens.len(), 1);
    assert_eq!(tokens[0].token.ty, TokenType::Terminal(TerminalToken::CloseBracket));
    assert_eq!(tokens[0].close_index, None);
}

#[test]
fn tokenize_reports_non_ascii_input_where_it_starts() {
    let err = tokenize("x é", Flavor::SquirrelRespawn).unwrap_err();
    assert!(matches!(err.ty, LexerErrorType::InvalidInput));
    assert_eq!(err.range, 2..2);
}

#[test]
fn token_iter_reports_invalid_input_before_the_end() {
    let mut iter = TokenIter::new("x é", Flavor::SquirrelRespawn);
    let mut saw_error = false;
    while let Some(item) = iter.next() {
        if let Err(e) = item {
            assert!(matches!(e.ty, LexerErrorType::InvalidInput));
            assert_eq!(e.range, 2..2);
            saw_error = true;
            break;
        }
    }
    assert!(saw_error);
}

#[test]
fn token_iter_gives_a_token_then_the_trailing_comment_line() {
    let mut iter = TokenIter::new("a\n// c\n", Flavor::Squirrel3);
    let first = iter.next().unwrap().unwrap();
    assert_eq!(first.ty, TokenType::Identifier("a"));
    assert_eq!(first.range, 0..1);
    assert_eq!(first.new_line, Some(TokenLine { comments: vec![] }));
    let second = iter.next().unwrap().unwrap();
    assert_eq!(second.ty, TokenType::Empty);
    assert_eq!(second.range, 7..7);
    assert_eq!(second.before_lines, vec![TokenLine { comments: vec![Comment::SingleLine(" c")] }]);
    assert!(iter.next().is_none());
}
