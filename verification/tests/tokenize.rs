use peachili::error::CmpErrorKind;
use peachili::lexer::{tokenize, Lexer};
use peachili::option::BuildOption;
use peachili::token::TokenKind;

#[test]
fn test_check_reserved() {
    assert!(Lexer::check_reserved("true").is_some());
    assert!(Lexer::check_reserved("false").is_some());
    assert!(Lexer::check_reserved("boolean").is_some());
    assert!(Lexer::check_reserved("ifret").is_some());
    assert!(Lexer::check_reserved("if").is_some());
    assert!(Lexer::check_reserved("else").is_some());
    assert!(Lexer::check_reserved("int64").is_some());
    assert!(Lexer::check_reserved("func").is_some());
    assert!(Lexer::check_reserved("return").is_some());
    assert!(Lexer::check_reserved("declare").is_some());
    assert!(Lexer::check_reserved("countup").is_some());
    assert!(Lexer::check_reserved("from").is_some());
    assert!(Lexer::check_reserved("to").is_some());
    assert!(Lexer::check_reserved("require").is_some());
    assert!(Lexer::check_reserved("asm").is_some());
    assert!(Lexer::check_reserved("noreturn").is_some());
    assert!(Lexer::check_reserved("str").is_some());
    assert!(Lexer::check_reserved("pubtype").is_some());
    assert!(Lexer::check_reserved("uint64").is_some());
    assert!(Lexer::check_reserved("varinit").is_some());
    assert!(Lexer::check_reserved("const").is_some());

    assert!(Lexer::check_reserved("ident").is_none());
    assert!(Lexer::check_reserved("x_value").is_none());
    assert!(Lexer::check_reserved("x11").is_none());
}

fn check_kinds(contents: &str, expects: Vec<TokenKind>) {
    let build_option: BuildOption = Default::default();
    let (tokens, tokenize_errors) = tokenize(&build_option, contents.to_string());

    assert!(tokenize_errors.is_empty());
    assert_eq!(expects.len(), tokens.len());
    for (i, t) in tokens.iter().enumerate() {
        assert_eq!(expects[i], t.kind);
    }
}

#[test]
fn test_tokenize_keywords() {
    check_kinds(
        "true false boolean require if else ifret func declare countup from to asm return noreturn int64 str",
        vec![
            TokenKind::TRUE,
            TokenKind::FALSE,
            TokenKind::BOOLEAN,
            TokenKind::REQUIRE,
            TokenKind::IF,
            TokenKind::ELSE,
            TokenKind::IFRET,
            TokenKind::FUNC,
            TokenKind::DECLARE,
            TokenKind::COUNTUP,
            TokenKind::FROM,
            TokenKind::TO,
            TokenKind::ASM,
            TokenKind::RETURN,
            TokenKind::NORETURN,
            TokenKind::INT64,
            TokenKind::STR,
            TokenKind::EOF,
        ],
    );
}

#[test]
fn test_tokenize_symbols() {
    check_kinds(
        "+ - * / ( ) { } : :: ; = , ",
        vec![
            TokenKind::PLUS,
            TokenKind::MINUS,
            TokenKind::ASTERISK,
            TokenKind::SLASH,
            TokenKind::LPAREN,
            TokenKind::RPAREN,
            TokenKind::LBRACE,
            TokenKind::RBRACE,
            TokenKind::COLON,
            TokenKind::DOUBLECOLON,
            TokenKind::SEMICOLON,
            TokenKind::ASSIGN,
            TokenKind::COMMA,
            TokenKind::EOF,
        ],
    );
}

#[test]
fn test_tokenize_elements() {
    check_kinds(
        "10 20 30 x y_s1 \"Hello, World\"",
        vec![
            TokenKind::INTEGER(10),
            TokenKind::INTEGER(20),
            TokenKind::INTEGER(30),
            TokenKind::IDENTIFIER("x".to_string()),
            TokenKind::IDENTIFIER("y_s1".to_string()),
            TokenKind::STRLIT("Hello, World".to_string()),
            TokenKind::EOF,
        ],
    );
}

#[test]
fn tokenize_empty_input_gives_only_eof() {
    check_kinds("", vec![TokenKind::EOF]);
}

#[test]
fn tokenize_skips_comments_and_newlines() {
    check_kinds(
        "x // a comment\ny",
        vec![
            TokenKind::IDENTIFIER("x".to_string()),
            TokenKind::IDENTIFIER("y".to_string()),
            TokenKind::EOF,
        ],
    );
}

#[test]
fn tokenize_reserved_words_in_both_cases() {
    check_kinds(
        "Int64 Uint64 Boolean Noreturn ConstStr pubtype varinit const",
        vec![
            TokenKind::INT64,
            TokenKind::UINT64,
            TokenKind::BOOLEAN,
            TokenKind::NORETURN,
            TokenKind::CONSTSTR,
            TokenKind::PUBTYPE,
            TokenKind::VARINIT,
            TokenKind::CONST,
            TokenKind::EOF,
        ],
    );
}

#[test]
fn tokenize_records_positions() {
    let build_option: BuildOption = Default::default();
    let (tokens, errors) = tokenize(&build_option, "ab\n  cd".to_string());
    assert!(errors.is_empty());
    assert_eq!(3, tokens.len());
    assert_eq!((1, 1), tokens[0].get_pos().get_pos());
    assert_eq!((2, 3), tokens[1].get_pos().get_pos());
}

#[test]
fn tokenize_reports_too_large_integer() {
    let build_option: BuildOption = Default::default();
    let (_tokens, errors) = tokenize(&build_option, "99999999999999999999".to_string());
    assert_eq!(1, errors.len());
    assert_eq!(
        CmpErrorKind::OUTOF64BITSINTRANGE("99999999999999999999".to_string()),
        errors[0].kind
    );
}

#[test]
fn tokenize_largest_integer() {
    check_kinds(
        "9223372036854775807",
        vec![TokenKind::INTEGER(9223372036854775807), TokenKind::EOF],
    );
}

#[test]
fn token_accessors() {
    let build_option: BuildOption = Default::default();
    let (tokens, _errors) = tokenize(&build_option, "main \"s\" 7".to_string());
    assert_eq!(Some("main".to_string()), tokens[0].get_ident_id());
    assert_eq!(None, tokens[0].get_str_id());
    assert_eq!(Some("s".to_string()), tokens[1].get_str_id());
    assert_eq!(Some(7), tokens[2].get_int_value());
    assert_eq!(None, tokens[2].get_uint_value());
}
