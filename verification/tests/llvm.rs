use peachili::compiler::{CompileFailure, SourceFile};
use peachili::lexer::tokenize;
use peachili::llvm_codegen::{codegen, Generator, LlvmCodegenError};
use peachili::llvm_compiler::compile_main;
use peachili::llvm_emit::emit_module;
use peachili::llvm_ir::{LlvmInst, LlvmIntrinsic, LlvmModule, LlvmParam, LlvmType};
use peachili::option::{BuildOption, Target};
use peachili::parse_module::parse;
use peachili::ptype::PType;
use peachili::root::ASTRoot;

fn root_of(src: &str) -> ASTRoot {
    let opt = BuildOption::default();
    let (tokens, errors) = tokenize(&opt, src.to_string());
    assert!(errors.is_empty());
    let (root, errors) = parse(&opt, "main", 0, tokens).unwrap();
    assert!(errors.is_empty());
    root
}

fn module_of(src: &str) -> Result<LlvmModule, LlvmCodegenError> {
    codegen(&BuildOption::default(), &root_of(src).func_map)
}

fn param(name: &str, ty: LlvmType) -> LlvmParam {
    LlvmParam { name: name.to_string(), ty }
}

fn empty_generator() -> Generator {
    let module = peachili::llvm_codegen::create_module(&BuildOption::default()).unwrap();
    Generator { module, label: 0, params: Vec::new(), insts: Vec::new() }
}

#[test]
fn llvm_types_of_types() {
    let g = empty_generator();
    assert_eq!(g.get_llvm_type_from_ptype(&PType::new_int64()), Ok(LlvmType::Int(64)));
    assert_eq!(g.get_llvm_type_from_ptype(&PType::new_uint64()), Ok(LlvmType::UInt(64)));
    assert_eq!(g.get_llvm_type_from_ptype(&PType::new_boolean()), Ok(LlvmType::Int(1)));
    assert_eq!(g.get_llvm_type_from_ptype(&PType::new_noreturn()), Ok(LlvmType::Void));
    assert_eq!(
        g.get_llvm_type_from_ptype(&PType::new_conststr()),
        Ok(LlvmType::Pointer(Box::new(LlvmType::Int(8))))
    );
    assert_eq!(
        g.get_llvm_type_from_ptype(&PType::new_pointer(PType::new_int64(), false)),
        Ok(LlvmType::Pointer(Box::new(LlvmType::Int(64))))
    );
    assert_eq!(g.get_llvm_type_from_ptype(&PType::new_invalid()), Err(LlvmCodegenError::UnsupportedType));
}

#[test]
fn empty_function_does_nothing_and_returns() {
    let m = module_of("func main() noreturn { }").unwrap();
    assert_eq!(m.intrinsics, vec![LlvmIntrinsic::DoNothing]);
    assert_eq!(m.functions.len(), 1);
    let f = &m.functions[0];
    assert_eq!(f.name, "main");
    assert_eq!(f.ret, LlvmType::Void);
    assert!(f.params.is_empty());
    assert_eq!(
        f.insts,
        vec![
            LlvmInst::Call { ret: LlvmType::Void, callee: "llvm.donothing".to_string(), params: Vec::new(), dst: None },
            LlvmInst::RetVoid,
        ]
    );
}

#[test]
fn arguments_get_parameters_and_slots() {
    let m = module_of("func f(a int64, b boolean) noreturn { }").unwrap();
    let f = &m.functions[0];
    assert_eq!(f.params, vec![param("a", LlvmType::Int(64)), param("b", LlvmType::Int(1))]);
    assert_eq!(
        f.insts,
        vec![
            LlvmInst::Alloca { ty: LlvmType::Int(64), align: 8, dst: 0 },
            LlvmInst::Alloca { ty: LlvmType::Int(1), align: 8, dst: 1 },
        ]
    );
}

#[test]
fn calls_pass_arguments_under_the_callee_parameter_names() {
    let m = module_of("func f(a int64, b int64) noreturn { } func main() noreturn { f(1, 2u); }").unwrap();
    assert_eq!(m.functions.len(), 2);
    assert_eq!(m.functions[0].name, "f");
    let main = &m.functions[1];
    assert_eq!(main.name, "main");
    assert_eq!(
        main.insts,
        vec![LlvmInst::Call {
            ret: LlvmType::Void,
            callee: "f".to_string(),
            params: vec![param("a", LlvmType::Int(64)), param("b", LlvmType::Int(64))],
            dst: Some(2),
        }]
    );
}

#[test]
fn unknown_callee_is_an_error() {
    assert_eq!(
        module_of("func main() noreturn { g(); }"),
        Err(LlvmCodegenError::UnknownFunction("g".to_string()))
    );
}

#[test]
fn too_many_arguments_is_an_error() {
    assert_eq!(
        module_of("func f(a int64) noreturn { } func main() noreturn { f(1, 2); }"),
        Err(LlvmCodegenError::TooManyArguments)
    );
}

#[test]
fn other_expressions_are_an_error() {
    assert_eq!(module_of("func main() noreturn { 1 + 2; }"), Err(LlvmCodegenError::UnsupportedExpression));
}

#[test]
fn other_statements_make_no_code() {
    let m = module_of("func main() noreturn { declare x int64; }").unwrap();
    assert_eq!(m.functions[0].insts.len(), 2);
    assert_eq!(m.functions[0].insts[1], LlvmInst::RetVoid);
}

#[test]
fn aarch64_has_no_llvm_target() {
    let opt = BuildOption { verbose: false, dump_ir: false, target: Target::AArch64 };
    assert_eq!(codegen(&opt, &root_of("func main() noreturn { }").func_map), Err(LlvmCodegenError::UnsupportedTarget));
}

#[test]
fn emitted_module_prints_as_llvm_ir() {
    let m = module_of("func f(a int64) noreturn { } func main() noreturn { f(3); }").unwrap();
    let text = format!("{}", emit_module(&m));
    assert!(text.starts_with(
        "target datalayout = \"e-m:e-i64:64-f80:128-n8:16:32:64\"\ntarget triple = \"x86_64-pc-linux-gnu\"\n"
    ));
    assert!(text.contains("define void @f (i64 a) {\nentry:\n  %0 = alloca i64, align 8\n"));
    assert!(text.contains("define void @main () {\nentry:\n  %1 = call void @f(i64 a)\n"));
    assert!(text.ends_with("declare void @llvm.donothing() nounwind readnone\n"));
}

#[test]
fn compile_main_builds_the_module() {
    let opt = BuildOption::default();
    let main = SourceFile { path: "main.go".to_string(), contents: "func main() noreturn { }".to_string() };
    let m = compile_main(&opt, &main, &Vec::new()).unwrap();
    let text = format!("{}", m);
    assert!(text.contains("define void @main () {\nentry:\n  call void @llvm.donothing()\n  ret void\n"));
}

#[test]
fn compile_main_reports_llvm_errors() {
    let opt = BuildOption::default();
    let main = SourceFile { path: "main.go".to_string(), contents: "func main() noreturn { 1 + 2; }".to_string() };
    assert!(matches!(
        compile_main(&opt, &main, &Vec::new()),
        Err(CompileFailure::Llvm(LlvmCodegenError::UnsupportedExpression))
    ));
}

#[test]
fn llvm_backend_refuses_another_target() {
    let mut opt = BuildOption::default();
    opt.target = peachili::option::Target::AArch64;
    let root = root_of("func main() noreturn { }");
    assert!(matches!(
        peachili::llvm_compiler::llvm_backend(&opt, &root.func_map),
        Err(peachili::compiler::CompileFailure::Llvm(LlvmCodegenError::UnsupportedTarget))
    ));
}
