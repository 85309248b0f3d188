use peachili::compiler::{compile_main, CompileFailure, SourceFile};
use peachili::frontend::ast_lower::{ast_to_lower, evaluate_constant_expr, ConstError};
use peachili::frontend::ast::{Expr, ExprKind};
use peachili::frontend::debug::dump_ast_root;
use peachili::frontend::driver::main as frontend_main;
use peachili::frontend::type_resolve::{type_resolve_main, TypeResolveError};
use peachili::frontend::typed_ast::{Constant, GlobalEnv, PTKind, PeachiliType};
use peachili::name_map::NameMap;
use peachili::option::BuildOption;
use peachili::type_check::TypeCheckOutcome;
use peachili::x64::Instruction;

fn file(path: &str, contents: &str) -> SourceFile {
    SourceFile { path: path.to_string(), contents: contents.to_string() }
}

#[test]
fn compiles_a_program() {
    let opt = BuildOption::default();
    let main = file("main.go", "func main() noreturn { declare x int64; x = 30; countup i int64 from 0 to 10 { x = x + i; }; }");
    let assembly = compile_main(&opt, &main, &Vec::new()).unwrap();
    assert_eq!(assembly.symbols.len(), 1);
    assert_eq!(assembly.symbols[0].name, "main");
    assert!(assembly.symbols[0].insts.contains(&Instruction::Label(".Lstart1".to_string())));
}

#[test]
fn external_files_are_compiled_too() {
    let opt = BuildOption::default();
    let main = file("main.go", "func main() noreturn { f(); }");
    let ext = vec![file("lib.go", "func f() noreturn { }")];
    let assembly = compile_main(&opt, &main, &ext).unwrap();
    assert_eq!(assembly.symbols.len(), 2);
    assert_eq!(assembly.symbols[0].name, "f");
    assert_eq!(assembly.symbols[1].name, "main");
}

#[test]
fn missing_main_is_reported() {
    let opt = BuildOption::default();
    let main = file("main.go", "func f() noreturn { }");
    assert_eq!(compile_main(&opt, &main, &Vec::new()).err(), Some(CompileFailure::TypeCheck(TypeCheckOutcome::MainMissing)));
}

#[test]
fn main_with_a_result_is_reported() {
    let opt = BuildOption::default();
    let main = file("main.go", "func main() int64 { return 0; }");
    assert_eq!(
        compile_main(&opt, &main, &Vec::new()).err(),
        Some(CompileFailure::TypeCheck(TypeCheckOutcome::MainSignature))
    );
}

#[test]
fn tokenize_errors_stop_the_compile() {
    let opt = BuildOption::default();
    let main = file("main.go", "func main() noreturn { 99999999999999999999; }");
    assert!(matches!(compile_main(&opt, &main, &Vec::new()), Err(CompileFailure::Tokenize { .. })));
}

#[test]
fn initialize_predefined_type_adds_the_builtin_names() {
    let mut env = GlobalEnv::default();
    env.initialize_predefined_type();
    assert_eq!(env.type_name_table.get("Int64").unwrap().kind, PTKind::Int64);
    assert_eq!(env.type_name_table.get("Uint64").unwrap().size, 8);
    assert!(env.type_name_table.get("Boolean").is_some());
    assert!(env.type_name_table.get("Nothing").is_none());
}

#[test]
fn constants_are_evaluated() {
    let name = "c".to_string();
    let e = Expr { kind: ExprKind::Integer { value: 42 } };
    assert_eq!(evaluate_constant_expr(&name, &e), Ok(Constant::Integer(42)));
    let e = Expr { kind: ExprKind::UnsignedInteger { value: 7 } };
    assert_eq!(evaluate_constant_expr(&name, &e), Ok(Constant::UnsignedInteger(7)));
    let e = Expr { kind: ExprKind::True };
    assert_eq!(evaluate_constant_expr(&name, &e), Err(ConstError::CannotEvaluate { name: "c".to_string() }));
}

#[test]
fn frontend_resolves_aliases_and_lowers_functions() {
    let opt = BuildOption::default();
    let modules = vec![(
        "main".to_string(),
        "pubtype MyInt = Int64;\nfunc main() Noreturn { declare x MyInt; x = 1 + 2; }".to_string(),
    )];
    let (roots, raw_env) = frontend_main(&modules, opt).unwrap();
    assert_eq!(roots.len(), 1);
    let env = type_resolve_main(&roots, &raw_env).unwrap();
    assert_eq!(env.type_name_table.get("main::MyInt").unwrap().kind, PTKind::Int64);
    let mut merged: NameMap<PeachiliType> = NameMap::new();
    for table in [&env.type_name_table, &env.func_table] {
        for i in 0..table.len() {
            let (k, v) = table.entry_at(i);
            merged.insert(k.clone(), *v);
        }
    }
    let lowered = ast_to_lower(&roots[0], &merged).unwrap();
    assert_eq!(lowered.functions.len(), 1);
    let f = &lowered.functions[0];
    assert_eq!(f.local_variables.get("x").unwrap().p_type.kind, PTKind::Int64);
    assert_eq!(f.stack_size, 8);
}

#[test]
fn alias_to_unknown_type_is_reported() {
    let opt = BuildOption::default();
    let modules = vec![("main".to_string(), "pubtype A = Nope;".to_string())];
    let (roots, raw_env) = frontend_main(&modules, opt).unwrap();
    assert!(matches!(type_resolve_main(&roots, &raw_env), Err(TypeResolveError::CannotResolve { .. })));
}

#[test]
fn dump_lists_the_declarations() {
    let opt = BuildOption::default();
    let modules = vec![("main".to_string(), "import x64;\nfunc main() Noreturn { declare x Int64; }".to_string())];
    let (roots, _) = frontend_main(&modules, opt).unwrap();
    let lines = dump_ast_root(&roots[0]);
    assert_eq!(lines[0], "Import x64;");
    assert_eq!(lines[1], "Function main::main() Noreturn {");
    assert_eq!(lines[2], "    DeclareStatement(var: x, type: Int64)");
    assert_eq!(lines[3], "}");
}

#[test]
fn the_first_failing_file_is_reported() {
    let opt = BuildOption::default();
    let main = file("main.go", "func main() noreturn { }");
    let ext = vec![file("a.go", "func a() noreturn { return 1 }"), file("b.go", "func b( noreturn { }")];
    match peachili::compiler::proc_frontend(&opt, &main, &ext) {
        Err(CompileFailure::Parse { path, .. }) => assert_eq!(path, "a.go"),
        _ => panic!("expected a parse failure in a.go"),
    }
}

#[test]
fn later_files_replace_functions_of_the_same_name() {
    let opt = BuildOption::default();
    let main = file("main.go", "func main() noreturn { f(); } func f() noreturn { }");
    let ext = vec![file("lib.go", "func f() noreturn { declare y int64; }")];
    let root = peachili::compiler::proc_frontend(&opt, &main, &ext).unwrap();
    let f = root.func_map.get("f").unwrap();
    assert_eq!(f.mod_path, "lib.go");
    assert!(f.locals.get("y").is_some());
}

#[test]
fn frames_are_placed_by_the_phase() {
    let opt = BuildOption::default();
    let main = file("main.go", "func main() noreturn { declare x int64; declare y int64; }");
    let root = peachili::compiler::proc_frontend(&opt, &main, &Vec::new()).unwrap();
    let mut fm = root.func_map;
    assert!(peachili::compiler::allocate_frame_phase(&opt, &mut fm).is_ok());
    assert_eq!(fm.get("main").unwrap().stack_offset, 16);
}
