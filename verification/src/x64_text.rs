use vstd::prelude::*;

use crate::text::{decimal_text, i64_to_decimal, push_all, push_str, signed_decimal_text, u64_to_decimal};
use crate::x64::{AssemblyFile, InstV, Instruction, Reg64, Symbol};

verus! {

/// The AT&T name of a register.
pub open spec fn reg_text(r: Reg64) -> Seq<char> {
    match r {
        Reg64::RAX => "%rax"@,
        Reg64::RBX => "%rbx"@,
        Reg64::RCX => "%rcx"@,
        Reg64::RDX => "%rdx"@,
        Reg64::RSI => "%rsi"@,
        Reg64::RDI => "%rdi"@,
        Reg64::RBP => "%rbp"@,
        Reg64::RSP => "%rsp"@,
        Reg64::R8 => "%r8"@,
        Reg64::R9 => "%r9"@,
        Reg64::R10 => "%r10"@,
        Reg64::R11 => "%r11"@,
        Reg64::R12 => "%r12"@,
        Reg64::R13 => "%r13"@,
        Reg64::R14 => "%r14"@,
        Reg64::R15 => "%r15"@,
    }
}

/// An operator and its two operands, `op a, b`.
pub open spec fn two(op: Seq<char>, a: Seq<char>, b: Seq<char>) -> Seq<char> {
    op + a + ", "@ + b
}

/// The AT&T text of an instruction (without indentation). A memory operand `disp`
/// bytes below `base` is written `-disp(base)`.
pub open spec fn inst_text(i: InstV) -> Seq<char> {
    match i {
        InstV::PushInt64(v) => "pushq $"@ + signed_decimal_text(v as int),
        InstV::PushUint64(v) => "pushq $"@ + decimal_text(v as nat),
        InstV::PushReg64(r) => "pushq "@ + reg_text(r),
        InstV::PopReg64(r) => "popq "@ + reg_text(r),
        InstV::MovMemToReg64(base, disp, dst) => two(
            "movq -"@,
            signed_decimal_text(disp as int) + "("@ + reg_text(base) + ")"@,
            reg_text(dst),
        ),
        InstV::MovRegToMem64(src, base, offset) => two(
            "movq "@,
            reg_text(src),
            "-"@ + decimal_text(offset as nat) + "("@ + reg_text(base) + ")"@,
        ),
        InstV::MovRegToReg64(src, dst) => two("movq "@, reg_text(src), reg_text(dst)),
        InstV::MovImmToReg64(imm, dst) => two("movq $"@, signed_decimal_text(imm as int), reg_text(dst)),
        InstV::SubRegByUint64(amount, dst) => two("subq $"@, decimal_text(amount as nat), reg_text(dst)),
        InstV::AddRegToReg64(src, dst) => two("addq "@, reg_text(src), reg_text(dst)),
        InstV::SubRegToReg64(src, dst) => two("subq "@, reg_text(src), reg_text(dst)),
        InstV::ImulRegToReg64(src, dst) => two("imulq "@, reg_text(src), reg_text(dst)),
        InstV::Cltd => "cltd"@,
        InstV::IdivReg64(r) => "idivq "@ + reg_text(r),
        InstV::NegReg64(r) => "negq "@ + reg_text(r),
        InstV::IncReg64(r) => "incq "@ + reg_text(r),
        InstV::CmpRegAndReg64(lhs, rhs) => two("cmpq "@, reg_text(rhs), reg_text(lhs)),
        InstV::CmpRegAndInt64(imm, reg) => two("cmpq $"@, signed_decimal_text(imm as int), reg_text(reg)),
        InstV::JumpEqualLabel(l) => "je "@ + l,
        InstV::JumpLabel(l) => "jmp "@ + l,
        InstV::Label(l) => l + ":"@,
        InstV::Call(n) => "call "@ + n,
        InstV::Ret => "ret"@,
        InstV::Comment(c) => "# "@ + c,
        InstV::LeaStringAddrToRegWithRip(label, dst) => two("leaq "@, label + "(%rip)"@, reg_text(dst)),
        InstV::Syscall => "syscall"@,
    }
}

/// The line of an instruction: labels stand at the start of the line, everything
/// else is indented by two spaces.
pub open spec fn inst_line(i: InstV) -> Seq<char> {
    match i {
        InstV::Label(_) => inst_text(i) + "\n"@,
        _ => "  "@ + inst_text(i) + "\n"@,
    }
}

/// The lines of instructions, one after another.
pub open spec fn insts_text(s: Seq<InstV>) -> Seq<char>
    decreases s.len(),
{
    if s.len() == 0 {
        Seq::empty()
    } else {
        insts_text(s.drop_last()) + inst_line(s.last())
    }
}

/// The lines of a string literal: its label `.LS<hash>` and its contents.
pub open spec fn string_lines(contents: Seq<char>, hash: u64) -> Seq<char> {
    ".LS"@ + decimal_text(hash as nat) + ":\n"@ + "  .string \""@ + contents + "\"\n"@
}

/// The lines of string literals, one after another.
pub open spec fn strings_text(s: Seq<(String, u64)>) -> Seq<char>
    decreases s.len(),
{
    if s.len() == 0 {
        Seq::empty()
    } else {
        strings_text(s.drop_last()) + string_lines(s.last().0@, s.last().1)
    }
}

/// The text of a symbol: its code in the text section, made global, then its string
/// literals, where it has any, in the read-only data section.
pub open spec fn symbol_text(name: Seq<char>, insts: Seq<InstV>, strings: Seq<(String, u64)>) -> Seq<char> {
    "  .text\n  .globl "@ + name + "\n"@ + name + ":\n"@ + insts_text(insts) + if strings.len() == 0 {
        Seq::empty()
    } else {
        "  .section .rodata\n"@ + strings_text(strings)
    }
}

/// The text of symbols, one after another.
pub open spec fn symbols_text(s: Seq<Symbol>) -> Seq<char>
    decreases s.len(),
{
    if s.len() == 0 {
        Seq::empty()
    } else {
        symbols_text(s.drop_last()) + symbol_text(
            s.last().name@,
            crate::x64::insts_v(s.last().insts@),
            s.last().strings@,
        )
    }
}

/// Appends the AT&T name of a register.
fn push_reg(out: &mut Vec<char>, r: Reg64)
    ensures
        final(out)@ == old(out)@ + reg_text(r),
{
    match r {
        Reg64::RAX => push_str(out, "%rax"),
        Reg64::RBX => push_str(out, "%rbx"),
        Reg64::RCX => push_str(out, "%rcx"),
        Reg64::RDX => push_str(out, "%rdx"),
        Reg64::RSI => push_str(out, "%rsi"),
        Reg64::RDI => push_str(out, "%rdi"),
        Reg64::RBP => push_str(out, "%rbp"),
        Reg64::RSP => push_str(out, "%rsp"),
        Reg64::R8 => push_str(out, "%r8"),
        Reg64::R9 => push_str(out, "%r9"),
        Reg64::R10 => push_str(out, "%r10"),
        Reg64::R11 => push_str(out, "%r11"),
        Reg64::R12 => push_str(out, "%r12"),
        Reg64::R13 => push_str(out, "%r13"),
        Reg64::R14 => push_str(out, "%r14"),
        Reg64::R15 => push_str(out, "%r15"),
    }
}

/// Appends a signed number in decimal.
fn push_i64(out: &mut Vec<char>, v: i64)
    ensures
        final(out)@ == old(out)@ + signed_decimal_text(v as int),
{
    let d = i64_to_decimal(v);
    push_all(out, d.as_slice());
}

/// Appends a number in decimal.
fn push_u64(out: &mut Vec<char>, v: u64)
    ensures
        final(out)@ == old(out)@ + decimal_text(v as nat),
{
    let d = u64_to_decimal(v);
    push_all(out, d.as_slice());
}

/// Appends a string.
fn push_string(out: &mut Vec<char>, s: &String)
    ensures
        final(out)@ == old(out)@ + s@,
{
    push_str(out, s.as_str());
}

/// Appends `op a, b` where `a` and `b` are registers.
fn push_two_regs(out: &mut Vec<char>, op: &str, a: Reg64, b: Reg64)
    ensures
        final(out)@ == old(out)@ + two(op@, reg_text(a), reg_text(b)),
{
    let ghost o = out@;
    push_str(out, op);
    push_reg(out, a);
    push_str(out, ", ");
    push_reg(out, b);
    assert(out@ =~= o + two(op@, reg_text(a), reg_text(b)));
}

/// Appends `op` followed by a register.
fn push_op_reg(out: &mut Vec<char>, op: &str, r: Reg64)
    ensures
        final(out)@ == old(out)@ + (op@ + reg_text(r)),
{
    let ghost o = out@;
    push_str(out, op);
    push_reg(out, r);
    assert(out@ =~= o + (op@ + reg_text(r)));
}

/// Appends `op` followed by a signed number.
fn push_op_i64(out: &mut Vec<char>, op: &str, v: i64)
    ensures
        final(out)@ == old(out)@ + (op@ + signed_decimal_text(v as int)),
{
    let ghost o = out@;
    push_str(out, op);
    push_i64(out, v);
    assert(out@ =~= o + (op@ + signed_decimal_text(v as int)));
}

/// Appends `op` followed by a number.
fn push_op_u64(out: &mut Vec<char>, op: &str, v: u64)
    ensures
        final(out)@ == old(out)@ + (op@ + decimal_text(v as nat)),
{
    let ghost o = out@;
    push_str(out, op);
    push_u64(out, v);
    assert(out@ =~= o + (op@ + decimal_text(v as nat)));
}

/// Appends `op` followed by a string.
fn push_op_string(out: &mut Vec<char>, op: &str, s: &String)
    ensures
        final(out)@ == old(out)@ + (op@ + s@),
{
    let ghost o = out@;
    push_str(out, op);
    push_string(out, s);
    assert(out@ =~= o + (op@ + s@));
}

/// Appends `op $imm, reg`, the operator `op` ending in `$`.
fn push_imm_reg(out: &mut Vec<char>, op: &str, imm: i64, r: Reg64)
    ensures
        final(out)@ == old(out)@ + two(op@, signed_decimal_text(imm as int), reg_text(r)),
{
    let ghost o = out@;
    push_str(out, op);
    push_i64(out, imm);
    push_str(out, ", ");
    push_reg(out, r);
    assert(out@ =~= o + two(op@, signed_decimal_text(imm as int), reg_text(r)));
}

/// Appends `op $amount, reg`, the operator `op` ending in `$`.
fn push_uimm_reg(out: &mut Vec<char>, op: &str, amount: u64, r: Reg64)
    ensures
        final(out)@ == old(out)@ + two(op@, decimal_text(amount as nat), reg_text(r)),
{
    let ghost o = out@;
    push_str(out, op);
    push_u64(out, amount);
    push_str(out, ", ");
    push_reg(out, r);
    assert(out@ =~= o + two(op@, decimal_text(amount as nat), reg_text(r)));
}

/// Appends a load of the word `disp` bytes below `base` into `dst`.
fn push_load(out: &mut Vec<char>, base: Reg64, disp: i64, dst: Reg64)
    ensures
        final(out)@ == old(out)@ + two("movq -"@, signed_decimal_text(disp as int) + "("@ + reg_text(base) + ")"@, reg_text(dst)),
{
    let ghost o = out@;
    push_str(out, "movq -");
    push_i64(out, disp);
    push_str(out, "(");
    push_reg(out, base);
    push_str(out, ")");
    push_str(out, ", ");
    push_reg(out, dst);
    assert(out@ =~= o + two(
        "movq -"@,
        signed_decimal_text(disp as int) + "("@ + reg_text(base) + ")"@,
        reg_text(dst),
    ));
}

/// Appends a store of `src` to the word `offset` bytes below `base`.
fn push_store(out: &mut Vec<char>, src: Reg64, base: Reg64, offset: usize)
    ensures
        final(out)@ == old(out)@ + two("movq "@, reg_text(src), "-"@ + decimal_text(offset as nat) + "("@ + reg_text(base) + ")"@),
{
    let ghost o = out@;
    push_str(out, "movq ");
    push_reg(out, src);
    push_str(out, ", ");
    push_str(out, "-");
    push_u64(out, offset as u64);
    push_str(out, "(");
    push_reg(out, base);
    push_str(out, ")");
    assert(out@ =~= o + two(
        "movq "@,
        reg_text(src),
        "-"@ + decimal_text(offset as nat) + "("@ + reg_text(base) + ")"@,
    ));
}

/// Appends the address of a label relative to `%rip` loaded into `dst`.
fn push_lea(out: &mut Vec<char>, label: &String, dst: Reg64)
    ensures
        final(out)@ == old(out)@ + two("leaq "@, label@ + "(%rip)"@, reg_text(dst)),
{
    let ghost o = out@;
    push_str(out, "leaq ");
    push_string(out, label);
    push_str(out, "(%rip)");
    push_str(out, ", ");
    push_reg(out, dst);
    assert(out@ =~= o + two("leaq "@, label@ + "(%rip)"@, reg_text(dst)));
}

/// Appends a label definition.
fn push_label(out: &mut Vec<char>, l: &String)
    ensures
        final(out)@ == old(out)@ + (l@ + ":"@),
{
    let ghost o = out@;
    push_string(out, l);
    push_str(out, ":");
    assert(out@ =~= o + (l@ + ":"@));
}

impl Instruction {
    /// Appends the AT&T text of the instruction.
    pub fn push_at_code(&self, out: &mut Vec<char>)
        ensures
            final(out)@ == old(out)@ + inst_text(self@),
    {
        match self {
            Instruction::PushInt64(v) => push_op_i64(out, "pushq $", *v),
            Instruction::PushUint64(v) => push_op_u64(out, "pushq $", *v),
            Instruction::PushReg64(r) => push_op_reg(out, "pushq ", *r),
            Instruction::PopReg64(r) => push_op_reg(out, "popq ", *r),
            Instruction::MovMemToReg64 { base, disp, dst } => push_load(out, *base, *disp, *dst),
            Instruction::MovRegToMem64 { src, base, offset } => push_store(out, *src, *base, *offset),
            Instruction::MovRegToReg64 { src, dst } => push_two_regs(out, "movq ", *src, *dst),
            Instruction::MovImmToReg64 { imm, dst } => push_imm_reg(out, "movq $", *imm, *dst),
            Instruction::SubRegByUint64 { amount, dst } => push_uimm_reg(out, "subq $", *amount, *dst),
            Instruction::AddRegToReg64 { src, dst } => push_two_regs(out, "addq ", *src, *dst),
            Instruction::SubRegToReg64 { src, dst } => push_two_regs(out, "subq ", *src, *dst),
            Instruction::ImulRegToReg64 { src, dst } => push_two_regs(out, "imulq ", *src, *dst),
            Instruction::Cltd => push_str(out, "cltd"),
            Instruction::IdivReg64(r) => push_op_reg(out, "idivq ", *r),
            Instruction::NegReg64(r) => push_op_reg(out, "negq ", *r),
            Instruction::IncReg64(r) => push_op_reg(out, "incq ", *r),
            Instruction::CmpRegAndReg64 { lhs, rhs } => push_two_regs(out, "cmpq ", *rhs, *lhs),
            Instruction::CmpRegAndInt64 { imm, reg } => push_imm_reg(out, "cmpq $", *imm, *reg),
            Instruction::JumpEqualLabel(l) => push_op_string(out, "je ", l),
            Instruction::JumpLabel(l) => push_op_string(out, "jmp ", l),
            Instruction::Label(l) => push_label(out, l),
            Instruction::Call(n) => push_op_string(out, "call ", n),
            Instruction::Ret => push_str(out, "ret"),
            Instruction::Comment(c) => push_op_string(out, "# ", c),
            Instruction::LeaStringAddrToRegWithRip { label, dst } => push_lea(out, label, *dst),
            Instruction::Syscall => push_str(out, "syscall"),
        }
    }

    /// Appends the line of the instruction.
    pub fn push_line(&self, out: &mut Vec<char>)
        ensures
            final(out)@ == old(out)@ + inst_line(self@),
    {
        let ghost o = out@;
        match self {
            Instruction::Label(_) => {},
            _ => push_str(out, "  "),
        }
        self.push_at_code(out);
        push_str(out, "\n");
        assert(out@ =~= o + inst_line(self@));
    }
}

impl Symbol {
    /// Appends the text of the symbol.
    pub fn push_at_code(&self, out: &mut Vec<char>)
        ensures
            final(out)@ == old(out)@ + symbol_text(self.name@, crate::x64::insts_v(self.insts@), self.strings@),
    {
        let ghost o = out@;
        push_str(out, "  .text\n  .globl ");
        push_string(out, &self.name);
        push_str(out, "\n");
        push_string(out, &self.name);
        push_str(out, ":\n");
        let ghost head = out@;
        let ghost iv = crate::x64::insts_v(self.insts@);
        let mut i: usize = 0;
        while i < self.insts.len()
            invariant
                i <= self.insts.len(),
                iv == crate::x64::insts_v(self.insts@),
                out@ == head + insts_text(iv.take(i as int)),
            decreases self.insts.len() - i,
        {
            self.insts[i].push_line(out);
            proof {
                assert(iv.take(i + 1).drop_last() =~= iv.take(i as int));
                assert(iv.take(i + 1).last() == self.insts@[i as int]@);
            }
            i = i + 1;
        }
        proof { assert(iv.take(self.insts.len() as int) =~= iv); }
        let ghost body = out@;
        if self.strings.len() > 0 {
            push_str(out, "  .section .rodata\n");
            let ghost sec = out@;
            let ss = &self.strings;
            let mut j: usize = 0;
            while j < ss.len()
                invariant
                    j <= ss.len(),
                    out@ == sec + strings_text(ss@.take(j as int)),
                decreases ss.len() - j,
            {
                let ghost before = out@;
                push_str(out, ".LS");
                push_u64(out, ss[j].1);
                push_str(out, ":\n");
                push_str(out, "  .string \"");
                push_string(out, &ss[j].0);
                push_str(out, "\"\n");
                proof {
                    assert(ss@.take(j + 1).drop_last() =~= ss@.take(j as int));
                    assert(ss@.take(j + 1).last() == ss@[j as int]);
                    assert(out@ =~= before + string_lines(ss@[j as int].0@, ss@[j as int].1));
                }
                j = j + 1;
            }
            proof { assert(ss@.take(ss.len() as int) =~= ss@); }
        }
        assert(out@ =~= o + symbol_text(self.name@, iv, self.strings@));
    }
}

impl AssemblyFile {
    /// The AT&T text of the assembly: its symbols one after another.
    pub fn to_at_code(&self) -> (s: String)
        ensures
            s@ == symbols_text(self.symbols@),
    {
        let mut out: Vec<char> = Vec::new();
        let mut i: usize = 0;
        while i < self.symbols.len()
            invariant
                i <= self.symbols.len(),
                out@ == symbols_text(self.symbols@.take(i as int)),
            decreases self.symbols.len() - i,
        {
            self.symbols[i].push_at_code(&mut out);
            proof {
                assert(self.symbols@.take(i + 1).drop_last() =~= self.symbols@.take(i as int));
                assert(self.symbols@.take(i + 1).last() == self.symbols@[i as int]);
            }
            i = i + 1;
        }
        proof { assert(self.symbols@.take(self.symbols.len() as int) =~= self.symbols@); }
        crate::text::chars_to_string(out.as_slice())
    }
}

} // verus!
