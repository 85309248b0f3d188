use peachili::x64::{AssemblyFile, Instruction, Reg64, Symbol};

#[test]
fn assembly_renders_as_att_text() {
    let mut a = AssemblyFile::new("asm.s".to_string());
    a.add_symbol(Symbol {
        name: "main".to_string(),
        insts: vec![
            Instruction::PushReg64(Reg64::RBP),
            Instruction::MovRegToReg64 { src: Reg64::RSP, dst: Reg64::RBP },
            Instruction::Label(".L1".to_string()),
            Instruction::MovImmToReg64 { imm: -3, dst: Reg64::RAX },
            Instruction::MovRegToMem64 { src: Reg64::RAX, base: Reg64::RBP, offset: 8 },
            Instruction::MovMemToReg64 { base: Reg64::RBP, disp: 8, dst: Reg64::RAX },
            Instruction::CmpRegAndReg64 { lhs: Reg64::RAX, rhs: Reg64::RDI },
            Instruction::JumpEqualLabel(".L1".to_string()),
            Instruction::LeaStringAddrToRegWithRip { label: ".LS7".to_string(), dst: Reg64::RSI },
            Instruction::Comment("done".to_string()),
            Instruction::Ret,
        ],
        strings: vec![("hi".to_string(), 7)],
    });
    assert_eq!(
        a.to_at_code(),
        "  .text\n  .globl main\nmain:\n  pushq %rbp\n  movq %rsp, %rbp\n.L1:\n  movq $-3, %rax\n  movq %rax, -8(%rbp)\n  movq -8(%rbp), %rax\n  cmpq %rdi, %rax\n  je .L1\n  leaq .LS7(%rip), %rsi\n  # done\n  ret\n  .section .rodata\n.LS7:\n  .string \"hi\"\n"
    );
}

#[test]
fn symbols_follow_one_another() {
    let mut a = AssemblyFile::new("asm.s".to_string());
    a.add_symbol(Symbol { name: "f".to_string(), insts: vec![Instruction::Ret], strings: Vec::new() });
    a.add_symbol(Symbol { name: "g".to_string(), insts: vec![Instruction::PushUint64(18446744073709551615), Instruction::Syscall], strings: Vec::new() });
    assert_eq!(
        a.to_at_code(),
        "  .text\n  .globl f\nf:\n  ret\n  .text\n  .globl g\ng:\n  pushq $18446744073709551615\n  syscall\n"
    );
}
