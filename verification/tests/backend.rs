use peachili::codegen::{codegen, gen_inst_from_asm, CodegenError};
use peachili::lexer::tokenize;
use peachili::name_map::NameMap;
use peachili::option::BuildOption;
use peachili::parse_module::parse;
use peachili::pfunction::PFunction;
use peachili::position::Position;
use peachili::ptype::{PType, PTypeKind};
use peachili::pvariable::PVarKind;
use peachili::resolve_tld::{resolve_tld_phase, TldError};
use peachili::resolve_types::{resolve_unknown_type_phase, UnresolvedType};
use peachili::root::ASTRoot;
use peachili::tld::TLDKind;
use peachili::x64::{Instruction, Reg64};

fn root_of(src: &str) -> ASTRoot {
    let opt = BuildOption::default();
    let (tokens, errors) = tokenize(&opt, src.to_string());
    assert!(errors.is_empty());
    let (root, errors) = parse(&opt, "main", 0, tokens).unwrap();
    assert!(errors.is_empty());
    root
}

fn placeholder() -> PFunction {
    PFunction::new(String::new(), PType::new_invalid(), Vec::new(), Position::new(0, 0), String::new(), 0)
}

fn alloc_all(funcs: &mut NameMap<PFunction>) {
    for i in 0..funcs.len() {
        let mut f = funcs.replace_at(i, placeholder());
        f.alloc_frame();
        let _ = funcs.replace_at(i, f);
    }
}

#[test]
fn frame_offsets_accumulate_in_name_order() {
    let root = root_of("func f() noreturn { declare b int64; declare a boolean; declare c str; }");
    let mut funcs = root.func_map;
    alloc_all(&mut funcs);
    let f = funcs.get("f").unwrap();
    assert_eq!(f.locals.get("a").unwrap().kind, PVarKind::LOCAL(8));
    assert_eq!(f.locals.get("b").unwrap().kind, PVarKind::LOCAL(16));
    assert_eq!(f.locals.get("c").unwrap().kind, PVarKind::LOCAL(24));
    assert_eq!(f.stack_offset, 24);
}

#[test]
fn codegen_of_main() {
    let root = root_of("func main() noreturn { declare x int64; x = 1 + 2; return x; }");
    let mut funcs = root.func_map;
    alloc_all(&mut funcs);
    let opt = BuildOption::default();
    let assembly = codegen(&opt, &funcs).unwrap();
    assert_eq!(assembly.file_path, "asm.s");
    assert_eq!(assembly.symbols.len(), 1);
    let sym = &assembly.symbols[0];
    assert_eq!(sym.name, "main");
    assert_eq!(sym.insts[0], Instruction::PushReg64(Reg64::RBP));
    assert_eq!(sym.insts[1], Instruction::MovRegToReg64 { src: Reg64::RSP, dst: Reg64::RBP });
    assert_eq!(sym.insts[2], Instruction::SubRegByUint64 { amount: 8, dst: Reg64::RSP });
    assert!(sym.insts.contains(&Instruction::AddRegToReg64 { src: Reg64::RDI, dst: Reg64::RAX }));
    let n = sym.insts.len();
    assert_eq!(sym.insts[n - 4], Instruction::MovImmToReg64 { imm: 0, dst: Reg64::RAX });
    assert_eq!(sym.insts[n - 3], Instruction::MovRegToReg64 { src: Reg64::RBP, dst: Reg64::RSP });
    assert_eq!(sym.insts[n - 2], Instruction::PopReg64(Reg64::RBP));
    assert_eq!(sym.insts[n - 1], Instruction::Ret);
}

#[test]
fn frame_size_is_rounded_to_eight() {
    let root = root_of("func f() noreturn { declare x int64; declare y int64; declare z int64; }");
    let mut funcs = root.func_map;
    alloc_all(&mut funcs);
    let opt = BuildOption::default();
    let assembly = codegen(&opt, &funcs).unwrap();
    assert_eq!(assembly.symbols[0].insts[2], Instruction::SubRegByUint64 { amount: 24, dst: Reg64::RSP });
}

#[test]
fn if_expression_uses_numbered_labels() {
    let root = root_of("func f() noreturn { if (true) { 1; } else { 2; }; }");
    let mut funcs = root.func_map;
    alloc_all(&mut funcs);
    let opt = BuildOption::default();
    let assembly = codegen(&opt, &funcs).unwrap();
    let insts = &assembly.symbols[0].insts;
    assert!(insts.contains(&Instruction::JumpEqualLabel(".Lelse1".to_string())));
    assert!(insts.contains(&Instruction::JumpLabel(".Lend1".to_string())));
    assert!(insts.contains(&Instruction::Label(".Lelse1".to_string())));
    assert!(insts.contains(&Instruction::Label(".Lend1".to_string())));
}

#[test]
fn arguments_are_stored_from_their_registers() {
    let root = root_of("func add(a int64, b int64) int64 { return a + b; }");
    let mut funcs = root.func_map;
    alloc_all(&mut funcs);
    let opt = BuildOption::default();
    let assembly = codegen(&opt, &funcs).unwrap();
    let insts = &assembly.symbols[0].insts;
    assert!(insts.contains(&Instruction::MovRegToMem64 { src: Reg64::RDI, base: Reg64::RBP, offset: 8 }));
    assert!(insts.contains(&Instruction::MovRegToMem64 { src: Reg64::RSI, base: Reg64::RBP, offset: 16 }));
}

#[test]
fn calls_pop_arguments_into_registers() {
    let root = root_of("func f() noreturn { g(1, 2); }");
    let mut funcs = root.func_map;
    alloc_all(&mut funcs);
    let opt = BuildOption::default();
    let assembly = codegen(&opt, &funcs).unwrap();
    let insts = &assembly.symbols[0].insts;
    let call = insts.iter().position(|i| *i == Instruction::Call("g".to_string())).unwrap();
    assert_eq!(insts[call - 2], Instruction::PopReg64(Reg64::RSI));
    assert_eq!(insts[call - 1], Instruction::PopReg64(Reg64::RDI));
}

#[test]
fn undefined_variable_is_reported() {
    let root = root_of("func f() noreturn { y = 1; }");
    let funcs = root.func_map;
    let opt = BuildOption::default();
    assert_eq!(codegen(&opt, &funcs).err(), Some(CodegenError::UndefinedVariable("y".to_string())));
}

#[test]
fn string_literals_are_recorded_in_the_symbol() {
    let root = root_of("func f() noreturn { x64::write(\"hi\"); }");
    let mut funcs = root.func_map;
    alloc_all(&mut funcs);
    let opt = BuildOption::default();
    let assembly = codegen(&opt, &funcs).unwrap();
    assert_eq!(assembly.symbols[0].strings.len(), 1);
    assert_eq!(assembly.symbols[0].strings[0].0, "hi");
}

#[test]
fn inline_assembly_lines() {
    assert_eq!(gen_inst_from_asm("syscall"), Ok(Instruction::Syscall));
    assert_eq!(gen_inst_from_asm("movq $60, %rax"), Ok(Instruction::MovImmToReg64 { imm: 60, dst: Reg64::RAX }));
    assert_eq!(gen_inst_from_asm("movq $-1, %rdi"), Ok(Instruction::MovImmToReg64 { imm: -1, dst: Reg64::RDI }));
    assert!(matches!(gen_inst_from_asm("jmp x"), Err(CodegenError::UnknownAsm(_))));
    assert!(matches!(gen_inst_from_asm("movq $x, %rax"), Err(CodegenError::UnknownAsm(_))));
    assert!(matches!(gen_inst_from_asm("movq $1, %foo"), Err(CodegenError::UnknownAsm(_))));
}

#[test]
fn tld_table_holds_aliases_and_functions() {
    let root = root_of("pubtype MyInt = int64; func f(a MyInt) MyInt { return a; }");
    let opt = BuildOption::default();
    let tld = resolve_tld_phase(&opt, &root).unwrap();
    assert!(matches!(tld.get("MyInt").unwrap().kind, TLDKind::ALIAS(_)));
    match &tld.get("f").unwrap().kind {
        TLDKind::FN(_, args) => {
            assert_eq!(args.len(), 1);
            assert_eq!(args[0].0, "a");
            assert!(matches!(args[0].1.kind, PTypeKind::INT64));
        },
        _ => panic!("expected a function"),
    }
}

#[test]
fn tld_rejects_a_name_declared_twice() {
    let root = root_of("pubtype f = int64; func f() noreturn { }");
    let opt = BuildOption::default();
    assert_eq!(resolve_tld_phase(&opt, &root).err(), Some(TldError::DuplicateName("f".to_string())));
}

#[test]
fn tld_rejects_an_unknown_argument_type() {
    let root = root_of("func f(a Nope) noreturn { }");
    let opt = BuildOption::default();
    assert_eq!(resolve_tld_phase(&opt, &root).err(), Some(TldError::UnknownArgumentType("f".to_string())));
}

#[test]
fn named_local_types_are_resolved() {
    let root = root_of("pubtype MyInt = int64; func f() noreturn { declare x MyInt; }");
    let opt = BuildOption::default();
    let tld = resolve_tld_phase(&opt, &root).unwrap();
    let mut funcs = root.func_map;
    resolve_unknown_type_phase(&opt, &mut funcs, &tld).unwrap();
    let x = funcs.get("f").unwrap().locals.get("x").unwrap();
    assert!(matches!(x.ptype.kind, PTypeKind::INT64));
    assert_eq!(x.ptype.size, 8);
}

#[test]
fn unknown_local_type_is_reported() {
    let root = root_of("func f() noreturn { declare x Nope; }");
    let opt = BuildOption::default();
    let tld = resolve_tld_phase(&opt, &root).unwrap();
    let mut funcs = root.func_map;
    assert_eq!(
        resolve_unknown_type_phase(&opt, &mut funcs, &tld),
        Err(UnresolvedType::Undefined("Nope".to_string()))
    );
}
