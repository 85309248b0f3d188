use peachili::token::TokenKind;

#[test]
fn token_kinds_display_their_text() {
    assert_eq!(TokenKind::INTEGER(-12).to_string(), "-12");
    assert_eq!(TokenKind::UNSIGNEDINTEGER(7).to_string(), "7u");
    assert_eq!(TokenKind::STRLIT("hi".to_string()).to_string(), "str-\"hi\"");
    assert_eq!(TokenKind::IDENTIFIER("x".to_string()).to_string(), "ident-\"x\"");
    assert_eq!(TokenKind::BLANK.to_string(), "BLANK");
    assert_eq!(TokenKind::NEWLINE.to_string(), "NEWLINE");
    assert_eq!(TokenKind::STRUCT.to_string(), "struct");
    assert_eq!(TokenKind::BOOLEAN.to_string(), "Boolean");
    assert_eq!(TokenKind::LBRACE.to_string(), "{");
    assert_eq!(TokenKind::INT64.to_string(), "Int64");
}
