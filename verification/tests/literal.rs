use sqparse::lexer::literal::try_string;
use sqparse::lexer::parse_str::ParseStr;
use sqparse::token::StringToken;

#[test]
fn single_line_literal_string() {
    let (val, _) = try_string(ParseStr::new(r#""this is a literal string""#)).unwrap().unwrap();

    assert_eq!(val, StringToken::Literal("this is a literal string"));
}

#[test]
fn single_line_escaped_literal_string() {
    let (val, _) = try_string(ParseStr::new(r#""this literal string includes \" a delimiter""#))
        .unwrap()
        .unwrap();

    assert_eq!(val, StringToken::Literal(r#"this literal string includes \" a delimiter"#));
}

#[test]
fn escaped_linebreak_literal_string() {
    let (val, _) = try_string(ParseStr::new(
        r#""this literal string includes \
a newline \
or two""#,
    ))
    .unwrap()
    .unwrap();

    assert_eq!(
        val,
        StringToken::Literal(
            r#"this literal string includes \
a newline \
or two"#
        )
    );
}

#[test]
fn unescaped_linebreak_literal_string() {
    let result = try_string(ParseStr::new(
        r#""this literal string includes
a newline""#,
    ));

    assert!(result.is_err());
}

#[test]
fn single_line_verbatim_string() {
    let (val, _) = try_string(ParseStr::new(r#"@"this is a verbatim string""#)).unwrap().unwrap();

    assert_eq!(val, StringToken::Verbatim("this is a verbatim string"));
}

#[test]
fn single_line_delimiter_verbatim_string() {
    let (val, _) = try_string(ParseStr::new(r#"@"this verbatim string includes a "" delimiter""#))
        .unwrap()
        .unwrap();

    assert_eq!(val, StringToken::Verbatim(r#"this verbatim string includes a "" delimiter"#));
}

#[test]
fn linebreak_verbatim_string() {
    let (val, _) = try_string(ParseStr::new(
        r#"@"this verbatim string includes
a newline
or two""#,
    ))
    .unwrap()
    .unwrap();

    assert_eq!(
        val,
        StringToken::Verbatim(
            r#"this verbatim string includes
a newline
or two"#
        )
    );
}
