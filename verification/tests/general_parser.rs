use peachili::ast::{ExpressionNodeKind, StatementNodeKind};
use peachili::error::CmpErrorKind;
use peachili::lexer::tokenize;
use peachili::option::BuildOption;
use peachili::parse_module::{parse, parse_phase, ParseFailure};
use peachili::parser::{ParseAbort, Parser};
use peachili::ptype::PTypeKind;
use peachili::token::TokenKind;

fn tokens_of(src: &str) -> Vec<peachili::token::Token> {
    let opt = BuildOption::default();
    let (tokens, errors) = tokenize(&opt, src.to_string());
    assert!(errors.is_empty());
    tokens
}

fn parser_of(src: &str) -> Parser {
    let opt = BuildOption::default();
    Parser::new(&opt, tokens_of(src))
}

#[test]
fn parses_a_small_module() {
    let src = "pubtype MyInt = int64;\nfunc main() noreturn {\n  declare x int64;\n  x = 1 + 2 * 3;\n  countup i int64 from 0 to 10 { x = x + i; };\n  return x;\n}\n";
    let opt = BuildOption::default();
    let (root, errors) = parse(&opt, "main", 0, tokens_of(src)).unwrap();
    assert!(errors.is_empty());
    assert!(root.type_map.get("MyInt").is_some());
    let f = root.func_map.get("main").unwrap();
    assert_eq!(f.stmts.len(), 4);
    assert!(matches!(f.stmts[0].kind, StatementNodeKind::VARDECL));
    assert!(matches!(f.stmts[1].kind, StatementNodeKind::EXPR(_)));
    assert!(matches!(f.stmts[2].kind, StatementNodeKind::COUNTUP(_, _, _, _)));
    assert!(matches!(f.stmts[3].kind, StatementNodeKind::RETURN(_)));
    assert!(f.locals.get("x").is_some());
    assert!(f.locals.get("i").is_some());
}

#[test]
fn multiplication_binds_tighter_than_addition() {
    let mut p = parser_of("1 + 2 * 3;");
    let e = p.expression("f");
    match e.kind {
        ExpressionNodeKind::ADD(l, r) => {
            assert!(matches!(l.kind, ExpressionNodeKind::INTEGER(1)));
            assert!(matches!(r.kind, ExpressionNodeKind::MUL(_, _)));
        },
        _ => panic!("expected an addition"),
    }
    assert!(p.aborted.is_none());
    assert!(p.cur_token_is(&TokenKind::SEMICOLON));
}

#[test]
fn subtraction_is_left_associative() {
    let mut p = parser_of("9 - 4 - 2;");
    let e = p.expression("f");
    match e.kind {
        ExpressionNodeKind::SUB(l, r) => {
            assert!(matches!(l.kind, ExpressionNodeKind::SUB(_, _)));
            assert!(matches!(r.kind, ExpressionNodeKind::INTEGER(2)));
        },
        _ => panic!("expected a subtraction"),
    }
}

#[test]
fn unary_operators() {
    let mut p = parser_of("-x;");
    assert!(matches!(p.unary("f").kind, ExpressionNodeKind::NEG(_)));
    let mut p = parser_of("*x;");
    assert!(matches!(p.unary("f").kind, ExpressionNodeKind::DEREF(_)));
    let mut p = parser_of("&x;");
    assert!(matches!(p.unary("f").kind, ExpressionNodeKind::ADDRESS(_)));
}

#[test]
fn calls_and_paths() {
    let mut p = parser_of("x64::exit(1, 2);");
    let e = p.expression("f");
    match e.kind {
        ExpressionNodeKind::CALL(id, args) => {
            assert_eq!(id.name, "x64");
            assert_eq!(id.next.unwrap().name, "exit");
            assert_eq!(args.len(), 2);
        },
        _ => panic!("expected a call"),
    }
}

#[test]
fn if_else_expression() {
    let mut p = parser_of("if (true) { 1; } else { 2; };");
    let e = p.expression("f");
    assert!(matches!(e.kind, ExpressionNodeKind::IFELSE(_, _, _)));
    let mut p = parser_of("if (false) { 1; };");
    let e = p.expression("f");
    assert!(matches!(e.kind, ExpressionNodeKind::IF(_, _)));
}

#[test]
fn member_access() {
    let mut p = parser_of("a.b;");
    let e = p.postfix("f");
    match e.kind {
        ExpressionNodeKind::MEMBER(_, m) => assert_eq!(m, "b"),
        _ => panic!("expected a member access"),
    }
}

#[test]
fn types_are_read() {
    let mut p = parser_of("*int64;");
    let t = p.expect_ptype();
    match t.kind {
        PTypeKind::POINTER(inner, false) => assert!(matches!(inner.kind, PTypeKind::INT64)),
        _ => panic!("expected a pointer"),
    }
    let mut p = parser_of("std::Str;");
    let t = p.expect_ptype();
    assert!(matches!(t.kind, PTypeKind::UNRESOLVED(_)));
}

#[test]
fn invalid_type_is_recorded_and_skipped() {
    let mut p = parser_of("( x ; y");
    let t = p.expect_ptype();
    assert!(matches!(t.kind, PTypeKind::INVALID));
    assert_eq!(p.errors.len(), 1);
    assert_eq!(p.errors[0].kind, CmpErrorKind::GOTINVALIDPTYPE);
    assert!(p.current_token().get_ident_id().unwrap() == "y");
}

#[test]
fn missing_semicolon_is_an_error() {
    let mut p = parser_of("return 1 return 2; x");
    let st = p.statement("f");
    assert!(matches!(st.kind, StatementNodeKind::RETURN(_)));
    assert_eq!(p.errors.len(), 1);
    assert_eq!(p.errors[0].kind, CmpErrorKind::STATEMENTMUSTBEENDEDWITHSEMICOLON);
}

#[test]
fn running_out_of_tokens_stops_the_parse() {
    let opt = BuildOption::default();
    let r = parse(&opt, "main", 0, tokens_of("func main() int64 { return 1 }"));
    assert_eq!(r.err(), Some(ParseAbort::TokensExhausted));
}

#[test]
fn unexpected_token_in_primary_stops_the_parse() {
    let mut p = parser_of(";");
    let _ = p.primary("f");
    assert_eq!(p.aborted, Some(ParseAbort::UnexpectedInPrimary { got: ";".to_string() }));
}

#[test]
fn block_must_start_with_brace() {
    let mut p = parser_of("return 1;");
    let _ = p.compound_statement("f");
    assert!(matches!(p.aborted, Some(ParseAbort::BlockStartMissing { .. })));
}

#[test]
fn duplicated_variable_stops_the_parse() {
    let opt = BuildOption::default();
    let r = parse(&opt, "main", 0, tokens_of("func main() noreturn { declare x int64; declare x int64; }"));
    assert_eq!(r.err(), Some(ParseAbort::DuplicateVariable));
}

#[test]
fn duplicated_function_stops_the_parse() {
    let opt = BuildOption::default();
    let r = parse(&opt, "main", 0, tokens_of("func f() noreturn { } func f() noreturn { }"));
    assert_eq!(r.err(), Some(ParseAbort::DuplicateFunction));
}

#[test]
fn arguments_become_locals() {
    let opt = BuildOption::default();
    let (root, _) = parse(&opt, "m", 0, tokens_of("func add(a int64, b int64) int64 { return a + b; }")).unwrap();
    let f = root.func_map.get("add").unwrap();
    assert_eq!(f.args.len(), 2);
    assert!(f.locals.get("a").is_some());
    assert!(f.locals.get("b").is_some());
    assert_eq!(f.mod_path, "m");
}

#[test]
fn string_literals_are_recorded() {
    let opt = BuildOption::default();
    let (root, _) = parse(&opt, "m", 0, tokens_of("func main() noreturn { x64::write(\"hi\"); }")).unwrap();
    let f = root.func_map.get("main").unwrap();
    assert!(f.strings.get("hi").is_some());
}

#[test]
fn require_is_skipped() {
    let opt = BuildOption::default();
    let (root, _) = parse(&opt, "m", 0, tokens_of("require (\"x64\") func main() noreturn { }")).unwrap();
    assert!(root.func_map.get("main").is_some());
}

#[test]
fn parse_phase_reports_errors() {
    let opt = BuildOption::default();
    let r = parse_phase(&opt, "m", 0, tokens_of("func main() noreturn { return 1 return 2; }"));
    match r {
        Err(ParseFailure::Errors(es)) => assert_eq!(es.len(), 1),
        _ => panic!("expected errors"),
    }
}

#[test]
fn asm_statement_lines() {
    let mut p = parser_of("asm { \"syscall\", \"movq $60, %rax\" };");
    let st = p.statement("f");
    match st.kind {
        StatementNodeKind::ASM(lines) => {
            assert_eq!(lines.len(), 2);
            assert_eq!(lines[0], "syscall");
        },
        _ => panic!("expected asm"),
    }
}

#[test]
fn duplicated_argument_stops_the_parse() {
    let opt = BuildOption::default();
    let r = parse(&opt, "m", 0, tokens_of("func f(a int64, a int64) noreturn { }"));
    assert_eq!(r.err(), Some(ParseAbort::DuplicateArgument));
}

#[test]
fn duplicated_type_alias_stops_the_parse() {
    let opt = BuildOption::default();
    let r = parse(&opt, "m", 0, tokens_of("pubtype A = int64; pubtype A = uint64;"));
    assert_eq!(r.err(), Some(ParseAbort::DuplicateTypedef));
}

#[test]
fn function_records_its_place_and_module() {
    let opt = BuildOption::default();
    let (root, errors) = parse(&opt, "lib", 7, tokens_of("func g(p *int64) uint64 { return 1u; }")).unwrap();
    assert!(errors.is_empty());
    let f = root.func_map.get("g").unwrap();
    assert_eq!(f.module_id, 7);
    assert_eq!(f.mod_path, "lib");
    assert_eq!(f.args, vec!["p".to_string()]);
    assert_eq!(f.stack_offset, 0);
    assert!(matches!(f.return_type.kind, PTypeKind::UINT64));
    assert_eq!(f.stmts.len(), 1);
}
