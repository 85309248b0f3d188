use peachili::frontend::ast::{Expr, ExprKind, Stmt, StmtKind, TopLevelDeclKind};
use peachili::frontend::parser::{
    addition, asm_statement, assignment, block_statement, boolean_literal, countup_statement,
    declaration_statement, expression_statement, function_declaration, identifier_expr,
    identifier_sequence, import_directive, integer_literal, main, multiplication, primary,
    pubconst_declaration, pubtype_declaration, statement, string_literal, unary_minus, unary_plus,
    unsigned_integer_literal, ParseError,
};

fn ilit(v: i128) -> Expr {
    Expr { kind: ExprKind::Integer { value: v } }
}

fn helper(result: Result<(String, Expr), ParseError>, rest: &str, expected: Expr) {
    assert!(result.is_ok());
    let (r, n) = result.unwrap();
    assert_eq!(rest, r);
    assert_eq!(expected, n);
}

#[test]
fn parser_main_test() {
    let result = main("main", "import x64;\n\nfunc main() Noreturn {}");
    assert!(result.is_ok());

    let ast_root = result.unwrap();
    assert_eq!(2, ast_root.decls.len());
}

#[test]
fn statement_test() {
    let result = statement("u100; asm { \"movq $60, %rax\"; \"syscall\" }; declare x Int64;;");
    assert!(result.is_ok());

    let (r, n) = result.unwrap();

    assert_eq!("asm { \"movq $60, %rax\"; \"syscall\" }; declare x Int64;;", r);
    assert_eq!(
        Stmt {
            kind: StmtKind::Expr {
                expr: Expr { kind: ExprKind::UnsignedInteger { value: 100 } }
            }
        },
        n
    );

    let result = statement(&r);
    assert!(result.is_ok());

    let (r, n) = result.unwrap();
    assert_eq!("declare x Int64;;", r);
    assert_eq!(
        Stmt {
            kind: StmtKind::Asm {
                insts: vec!["movq $60, %rax".to_string(), "syscall".to_string()],
            }
        },
        n
    );
    let result = statement(&r);
    assert!(result.is_ok());

    let (r, n) = result.unwrap();
    assert_eq!(";", r);
    assert_eq!(
        Stmt {
            kind: StmtKind::Declare {
                var_name: "x".to_string(),
                type_names: vec!["Int64".to_string()],
            }
        },
        n
    );
}

#[test]
fn asm_statement_test() {
    let result = asm_statement("asm { \"movq $60, %rax\"; \"syscall\" };;");
    assert!(result.is_ok());

    let (r, n) = result.unwrap();
    assert_eq!(";", r);
    assert_eq!(
        Stmt {
            kind: StmtKind::Asm {
                insts: vec!["movq $60, %rax".to_string(), "syscall".to_string()],
            }
        },
        n
    );
}

#[test]
fn declaration_statement_test() {
    let result = declaration_statement("declare x Int64;;");
    assert!(result.is_ok());

    let (r, n) = result.unwrap();

    assert_eq!(";", r);
    assert_eq!(
        Stmt {
            kind: StmtKind::Declare {
                var_name: "x".to_string(),
                type_names: vec!["Int64".to_string()],
            }
        },
        n
    );
}

#[test]
fn expression_statement_test() {
    let result = expression_statement("u100;;");
    assert!(result.is_ok());

    let (r, n) = result.unwrap();

    assert_eq!(";", r);
    assert_eq!(
        Stmt {
            kind: StmtKind::Expr {
                expr: Expr { kind: ExprKind::UnsignedInteger { value: 100 } }
            }
        },
        n
    );
}

#[test]
fn block_statement_test() {
    let result = block_statement("{ declare x Int64; x = 30; };");
    assert!(result.is_ok());

    let (r, n) = result.unwrap();

    assert_eq!(";", r);
    assert_eq!(
        Stmt {
            kind: StmtKind::Block {
                stmts: vec![
                    Stmt {
                        kind: StmtKind::Declare {
                            var_name: "x".to_string(),
                            type_names: vec!["Int64".to_string()],
                        }
                    },
                    Stmt {
                        kind: StmtKind::Expr {
                            expr: Expr {
                                kind: ExprKind::Assignment {
                                    var_name: "x".to_string(),
                                    expr: Expr::new_edge(ilit(30)),
                                }
                            }
                        }
                    }
                ],
            }
        },
        n
    );
}

#[test]
fn countup_statement_test() {
    let result = countup_statement("countup x from 0 lessthan 10 { x = 30; };");
    assert!(result.is_ok());

    let (r, n) = result.unwrap();

    assert_eq!(";", r);
    assert_eq!(
        Stmt {
            kind: StmtKind::HalfOpenCountup {
                id: "x".to_string(),
                block: vec![Stmt {
                    kind: StmtKind::Expr {
                        expr: Expr {
                            kind: ExprKind::Assignment {
                                var_name: "x".to_string(),
                                expr: Expr::new_edge(ilit(30)),
                            }
                        }
                    }
                }],
                from: ilit(0),
                lessthan: ilit(10),
            }
        },
        n
    );
}

#[test]
fn countup_statement_with_to_is_closed() {
    let (r, n) = countup_statement("countup i from 1 to 3 { };").unwrap();
    assert_eq!(";", r);
    assert_eq!(
        Stmt {
            kind: StmtKind::ClosedCountup { block: vec![], id: "i".to_string(), from: ilit(1), to: ilit(3) }
        },
        n
    );
}

#[test]
fn assignment_test() {
    helper(
        assignment("x = 30;"),
        ";",
        Expr {
            kind: ExprKind::Assignment { var_name: "x".to_string(), expr: Expr::new_edge(ilit(30)) },
        },
    );
}

#[test]
fn addition_test() {
    helper(
        addition("1 + 1;"),
        ";",
        Expr { kind: ExprKind::Addition { lhs: Expr::new_edge(ilit(1)), rhs: Expr::new_edge(ilit(1)) } },
    );
    helper(
        addition("1 - 1;"),
        ";",
        Expr { kind: ExprKind::Subtraction { lhs: Expr::new_edge(ilit(1)), rhs: Expr::new_edge(ilit(1)) } },
    );
    helper(
        addition("1 + 2 - 3;"),
        ";",
        Expr {
            kind: ExprKind::Subtraction {
                lhs: Expr::new_edge(Expr {
                    kind: ExprKind::Addition { lhs: Expr::new_edge(ilit(1)), rhs: Expr::new_edge(ilit(2)) },
                }),
                rhs: Expr::new_edge(ilit(3)),
            },
        },
    );
}

#[test]
fn multiplication_test() {
    helper(
        multiplication("1 * 2;"),
        ";",
        Expr { kind: ExprKind::Multiplication { lhs: Expr::new_edge(ilit(1)), rhs: Expr::new_edge(ilit(2)) } },
    );
    helper(
        multiplication("100 / 2;"),
        ";",
        Expr { kind: ExprKind::Division { lhs: Expr::new_edge(ilit(100)), rhs: Expr::new_edge(ilit(2)) } },
    );
    helper(
        multiplication("100 / 2 / 10;"),
        ";",
        Expr {
            kind: ExprKind::Division {
                lhs: Expr::new_edge(Expr {
                    kind: ExprKind::Division { lhs: Expr::new_edge(ilit(100)), rhs: Expr::new_edge(ilit(2)) },
                }),
                rhs: Expr::new_edge(ilit(10)),
            },
        },
    );
}

#[test]
fn unary_plus_test() {
    helper(unary_plus("+ 100;"), ";", ilit(100));
}

#[test]
fn unary_minus_test() {
    helper(
        unary_minus("- 100;"),
        ";",
        Expr { kind: ExprKind::Negative { child: Expr::new_edge(ilit(100)) } },
    );
}

#[test]
fn string_literal_test() {
    helper(
        string_literal("\"Hello, world!\";"),
        ";",
        Expr { kind: ExprKind::StringLiteral { contents: "Hello, world!".to_string() } },
    );
}

#[test]
fn primary_test() {
    helper(primary("true;"), ";", Expr { kind: ExprKind::True });
    helper(primary("100;"), ";", ilit(100));
    helper(primary("u100;"), ";", Expr { kind: ExprKind::UnsignedInteger { value: 100 } });
}

#[test]
fn boolean_literal_test() {
    helper(boolean_literal("true;"), ";", Expr { kind: ExprKind::True });
    helper(boolean_literal("false;"), ";", Expr { kind: ExprKind::False });
}

#[test]
fn identifier_expr_test() {
    helper(
        identifier_expr("x64::exit_with(0, 1, 2, 3);"),
        ";",
        Expr {
            kind: ExprKind::Call {
                ident: Expr::new_edge(Expr {
                    kind: ExprKind::Identifier { list: vec!["x64".to_string(), "exit_with".to_string()] },
                }),
                params: vec![ilit(0), ilit(1), ilit(2), ilit(3)],
            },
        },
    );
}

#[test]
fn identifier_sequence_test() {
    helper(
        identifier_sequence("drumato;"),
        ";",
        Expr { kind: ExprKind::Identifier { list: vec!["drumato".to_string()] } },
    );
    helper(
        identifier_sequence("x86_64::STDIN;"),
        ";",
        Expr { kind: ExprKind::Identifier { list: vec!["x86_64".to_string(), "STDIN".to_string()] } },
    );
}

#[test]
fn unsigned_integer_literal_test() {
    helper(unsigned_integer_literal("u100;"), ";", Expr { kind: ExprKind::UnsignedInteger { value: 100 } });
}

#[test]
fn integer_literal_test() {
    helper(integer_literal("100;"), ";", ilit(100));
}

#[test]
fn integer_literal_too_large_is_refused() {
    assert_eq!(
        Err(ParseError::TooLargeInteger),
        integer_literal("170141183460469231731687303715884105728;")
    );
    helper(
        integer_literal("170141183460469231731687303715884105727;"),
        ";",
        ilit(170141183460469231731687303715884105727),
    );
}

#[test]
fn no_match_on_other_input() {
    assert_eq!(Err(ParseError::NoMatch), integer_literal("x;"));
    assert_eq!(Err(ParseError::NoMatch), statement("}"));
}

#[test]
fn import_directive_test() {
    let (rest, import_decl) = import_directive("import x64;").unwrap();
    assert_eq!("", rest);
    assert_eq!(TopLevelDeclKind::Import { module_name: "x64".to_string() }, import_decl.kind);
}

#[test]
fn function_declaration_test() {
    let (rest, f) = function_declaration("main", "func main(a Int64, b Int64, c Int64) Noreturn {}").unwrap();
    assert_eq!("", rest);
    match f.kind {
        TopLevelDeclKind::Function { func_name, return_type, parameters, stmts } => {
            assert_eq!("main::main", func_name);
            assert_eq!("Noreturn", return_type);
            assert_eq!(3, parameters.len());
            assert_eq!(Some(&"Int64".to_string()), parameters.get("b"));
            assert!(stmts.is_empty());
        },
        _ => panic!("not a function"),
    }
}

#[test]
fn pubtype_declaration_test() {
    let (r, pubtype) = pubtype_declaration("main", "pubtype FileDescriptor = Uint64;").unwrap();
    assert_eq!("", r);
    assert_eq!(
        TopLevelDeclKind::PubType { alias: "main::FileDescriptor".to_string(), to: "Uint64".to_string() },
        pubtype.kind,
    );
}

#[test]
fn pubconst_declaration_test() {
    let (r, pubconst) = pubconst_declaration("main", "pubconst STDIN : FileDescriptor = u0;").unwrap();
    assert_eq!("", r);
    assert_eq!(
        TopLevelDeclKind::PubConst {
            const_name: "main::STDIN".to_string(),
            const_type: "FileDescriptor".to_string(),
            expr: Expr { kind: ExprKind::UnsignedInteger { value: 0 } },
        },
        pubconst.kind,
    );
}
