use vstd::prelude::*;

use crate::ast::{ExpressionNode, ExpressionNodeKind, StatementNode, StatementNodeKind};
use crate::ident::{strings_view, IdentName};
use crate::name_map::NameMap;
use crate::pfunction::PFunction;
use crate::pvariable::{PVarKind, PVariable};
use crate::text::{chars_to_string, decimal_text, push_str, u64_to_decimal, push_all};
use crate::x64::{
    caller_reg, insts_v, parse_i64, parse_i64_s, reg_of_at, split_at_spaces, split_spaces, AssemblyFile, InstV,
    Instruction, Reg64, Symbol,
};

verus! {

/// Why code could not be generated.
#[derive(Debug, PartialEq, Eq)]
pub enum CodegenError {
    /// A variable that the function does not have (its name).
    UndefinedVariable(String),
    /// An assignment or a loop to something that is no variable.
    NotAnLvalue,
    /// An expression that this generator has no code for (`&`, `*`, `.member`).
    UnsupportedExpression,
    /// A call or a function with more than six arguments.
    TooManyArguments,
    /// A line of inline assembly that cannot be read.
    UnknownAsm(String),
    /// The label counter ran out.
    LabelOverflow,
}

pub enum GenErrV {
    UndefinedVariable(Seq<char>),
    NotAnLvalue,
    UnsupportedExpression,
    TooManyArguments,
    UnknownAsm(Seq<char>),
    LabelOverflow,
}

pub open spec fn gen_err_v(e: CodegenError) -> GenErrV {
    match e {
        CodegenError::UndefinedVariable(n) => GenErrV::UndefinedVariable(n@),
        CodegenError::NotAnLvalue => GenErrV::NotAnLvalue,
        CodegenError::UnsupportedExpression => GenErrV::UnsupportedExpression,
        CodegenError::TooManyArguments => GenErrV::TooManyArguments,
        CodegenError::UnknownAsm(l) => GenErrV::UnknownAsm(l@),
        CodegenError::LabelOverflow => GenErrV::LabelOverflow,
    }
}

/// A label: a prefix such as `.Lend` and a number.
pub open spec fn label_text(prefix: Seq<char>, n: nat) -> Seq<char> {
    prefix + decimal_text(n)
}

/// The frame offset of a local variable.
pub open spec fn local_offset(v: PVariable) -> usize {
    match v.kind {
        PVarKind::LOCAL(o) => o,
    }
}

/// The code that pushes the address of a variable: its frame slot below `%rbp`.
pub open spec fn lvalue_s(e: ExpressionNode, locals: Map<Seq<char>, PVariable>) -> Result<Seq<InstV>, GenErrV> {
    match e.kind {
        ExpressionNodeKind::IDENT(id) => {
            let name = id.names().last();
            if locals.contains_key(name) {
                Ok(
                    seq![
                        InstV::MovRegToReg64(Reg64::RBP, Reg64::RAX),
                        InstV::SubRegByUint64(local_offset(locals[name]) as u64, Reg64::RAX),
                        InstV::PushReg64(Reg64::RAX),
                    ],
                )
            } else {
                Err(GenErrV::UndefinedVariable(name))
            }
        },
        _ => Err(GenErrV::NotAnLvalue),
    }
}

/// Pops the `n` values of a call's arguments into their registers, last first.
pub open spec fn pops_s(n: nat) -> Seq<InstV> {
    Seq::new(n, |i: int| InstV::PopReg64(caller_reg(n - 1 - i)))
}

/// The instructions of a binary operation on `%rax` (left) and `%rdi` (right):
/// `+` adds, `-` subtracts, `*` multiplies, `/` divides (sign-extending first).
pub open spec fn binop_ops(k: ExpressionNodeKind) -> Seq<InstV> {
    match k {
        ExpressionNodeKind::ADD(_, _) => seq![InstV::AddRegToReg64(Reg64::RDI, Reg64::RAX)],
        ExpressionNodeKind::SUB(_, _) => seq![InstV::SubRegToReg64(Reg64::RDI, Reg64::RAX)],
        ExpressionNodeKind::MUL(_, _) => seq![InstV::ImulRegToReg64(Reg64::RDI, Reg64::RAX)],
        _ => seq![InstV::Cltd, InstV::IdivReg64(Reg64::RDI)],
    }
}

/// The code of a binary operation after the code `lc` of its left operand and with
/// the result `rr` of its right operand: pop both, apply `ops`, push the result.
pub open spec fn bin_join(lc: Seq<InstV>, rr: Result<(Seq<InstV>, nat), GenErrV>, ops: Seq<InstV>) -> Result<
    (Seq<InstV>, nat),
    GenErrV,
> {
    match rr {
        Ok((rc, l)) => Ok((
            lc + rc + seq![InstV::PopReg64(Reg64::RDI), InstV::PopReg64(Reg64::RAX)] + ops + seq![InstV::PushReg64(Reg64::RAX)],
            l,
        )),
        Err(x) => Err(x),
    }
}

/// The code of an assignment after the code `lv` of its variable's address and with
/// the result `rr` of its value: store the value, and push it.
pub open spec fn assign_join(lv: Seq<InstV>, rr: Result<(Seq<InstV>, nat), GenErrV>) -> Result<(Seq<InstV>, nat), GenErrV> {
    match rr {
        Ok((rc, l)) => Ok((
            lv + rc + seq![
                InstV::PopReg64(Reg64::RDI),
                InstV::PopReg64(Reg64::RAX),
                InstV::MovRegToMem64(Reg64::RDI, Reg64::RAX, 0),
                InstV::PushReg64(Reg64::RDI),
            ],
            l,
        )),
        Err(x) => Err(x),
    }
}

/// `code` between two comments.
pub open spec fn wrap(start: Seq<char>, rr: Result<(Seq<InstV>, nat), GenErrV>, tail: Seq<InstV>, end: Seq<char>) -> Result<
    (Seq<InstV>, nat),
    GenErrV,
> {
    match rr {
        Ok((c, l)) => Ok((seq![InstV::Comment(start)] + c + tail + seq![InstV::Comment(end)], l)),
        Err(x) => Err(x),
    }
}

/// The code of an expression that leaves its value on the stack, and the label
/// counter after it, starting from `label`.
pub open spec fn gen_expr_s(e: ExpressionNode, locals: Map<Seq<char>, PVariable>, label: nat) -> Result<
    (Seq<InstV>, nat),
    GenErrV,
>
    decreases e,
{
    match e.kind {
        ExpressionNodeKind::INTEGER(v) => Ok((seq![InstV::PushInt64(v)], label)),
        ExpressionNodeKind::UNSIGNEDINTEGER(v) => Ok((seq![InstV::PushUint64(v)], label)),
        ExpressionNodeKind::TRUE => Ok((seq![InstV::PushInt64(1)], label)),
        ExpressionNodeKind::FALSE => Ok((seq![InstV::PushInt64(0)], label)),
        ExpressionNodeKind::IDENT(_) => match lvalue_s(e, locals) {
            Ok(lv) => Ok((
                seq![InstV::Comment("start identifier expression"@)] + lv + seq![
                    InstV::PopReg64(Reg64::RAX),
                    InstV::MovMemToReg64(Reg64::RAX, 0, Reg64::RAX),
                    InstV::PushReg64(Reg64::RAX),
                    InstV::Comment("end identifier expression"@),
                ],
                label,
            )),
            Err(x) => Err(x),
        },
        ExpressionNodeKind::CALL(id, args) => match gen_exprs_s(args@, locals, label) {
            Ok((c, l)) => if args@.len() > 6 {
                Err(GenErrV::TooManyArguments)
            } else {
                Ok((
                    seq![InstV::Comment("start call expression"@)] + c + pops_s(args@.len()) + seq![
                        InstV::Call(id.names().last()),
                        InstV::PushReg64(Reg64::RAX),
                        InstV::Comment("end call expression"@),
                    ],
                    l,
                ))
            },
            Err(x) => Err(x),
        },
        ExpressionNodeKind::NEG(x) => match gen_expr_s(*x, locals, label) {
            Ok((c, l)) => Ok((
                c + seq![InstV::PopReg64(Reg64::RAX), InstV::NegReg64(Reg64::RAX), InstV::PushReg64(Reg64::RAX)],
                l,
            )),
            Err(x) => Err(x),
        },
        ExpressionNodeKind::ADD(a, b) | ExpressionNodeKind::SUB(a, b) | ExpressionNodeKind::MUL(a, b)
        | ExpressionNodeKind::DIV(a, b) => match gen_expr_s(*a, locals, label) {
            Ok((ca, la)) => bin_join(ca, gen_expr_s(*b, locals, la), binop_ops(e.kind)),
            Err(x) => Err(x),
        },
        ExpressionNodeKind::ASSIGN(lhs, rhs) => match lvalue_s(*lhs, locals) {
            Ok(lv) => wrap(
                "start assign expression"@,
                assign_join(lv, gen_expr_s(*rhs, locals, label)),
                Seq::empty(),
                "end assign expression"@,
            ),
            Err(x) => Err(x),
        },
        ExpressionNodeKind::IF(c, body) => match gen_expr_s(*c, locals, label) {
            Ok((cc, l1)) => if l1 >= usize::MAX {
                Err(GenErrV::LabelOverflow)
            } else {
                let fin = label_text(".Lend"@, l1);
                match gen_stmts_s(body@, locals, l1 + 1) {
                    Ok((bc, l2)) => Ok((
                        seq![InstV::Comment("start if expression"@)] + cc + seq![
                            InstV::PopReg64(Reg64::RAX),
                            InstV::CmpRegAndInt64(0, Reg64::RAX),
                            InstV::JumpEqualLabel(fin),
                        ] + bc + seq![InstV::Label(fin), InstV::Comment("end if expression"@)],
                        l2,
                    )),
                    Err(x) => Err(x),
                }
            },
            Err(x) => Err(x),
        },
        ExpressionNodeKind::IFELSE(c, body, alter) => match gen_expr_s(*c, locals, label) {
            Ok((cc, l1)) => if l1 >= usize::MAX {
                Err(GenErrV::LabelOverflow)
            } else {
                let els = label_text(".Lelse"@, l1);
                let fin = label_text(".Lend"@, l1);
                match gen_stmts_s(body@, locals, l1 + 1) {
                    Ok((bc, l2)) => match gen_stmts_s(alter@, locals, l2) {
                        Ok((ac, l3)) => Ok((
                            seq![InstV::Comment("start if-else expression"@)] + cc + seq![
                                InstV::PopReg64(Reg64::RAX),
                                InstV::CmpRegAndInt64(0, Reg64::RAX),
                                InstV::JumpEqualLabel(els),
                            ] + bc + seq![InstV::JumpLabel(fin), InstV::Label(els)] + ac + seq![
                                InstV::Label(fin),
                                InstV::Comment("end if-else expression"@),
                            ],
                            l3,
                        )),
                        Err(x) => Err(x),
                    },
                    Err(x) => Err(x),
                }
            },
            Err(x) => Err(x),
        },
        ExpressionNodeKind::STRLIT(_, hash) => Ok((
            seq![
                InstV::LeaStringAddrToRegWithRip(label_text(".LS"@, hash as nat), Reg64::RAX),
                InstV::PushReg64(Reg64::RAX),
            ],
            label,
        )),
        _ => Err(GenErrV::UnsupportedExpression),
    }
}

/// The code of expressions one after another.
pub open spec fn gen_exprs_s(es: Seq<ExpressionNode>, locals: Map<Seq<char>, PVariable>, label: nat) -> Result<
    (Seq<InstV>, nat),
    GenErrV,
>
    decreases es,
{
    if es.len() == 0 {
        Ok((Seq::empty(), label))
    } else {
        match gen_exprs_s(es.drop_last(), locals, label) {
            Ok((c, l)) => match gen_expr_s(es.last(), locals, l) {
                Ok((c2, l2)) => Ok((c + c2, l2)),
                Err(x) => Err(x),
            },
            Err(x) => Err(x),
        }
    }
}

/// The code of statements one after another.
pub open spec fn gen_stmts_s(sts: Seq<StatementNode>, locals: Map<Seq<char>, PVariable>, label: nat) -> Result<
    (Seq<InstV>, nat),
    GenErrV,
>
    decreases sts,
{
    if sts.len() == 0 {
        Ok((Seq::empty(), label))
    } else {
        match gen_stmts_s(sts.drop_last(), locals, label) {
            Ok((c, l)) => match gen_stmt_s(sts.last(), locals, l) {
                Ok((c2, l2)) => Ok((c + c2, l2)),
                Err(x) => Err(x),
            },
            Err(x) => Err(x),
        }
    }
}

/// The code of a statement, and the label counter after it.
pub open spec fn gen_stmt_s(st: StatementNode, locals: Map<Seq<char>, PVariable>, label: nat) -> Result<
    (Seq<InstV>, nat),
    GenErrV,
>
    decreases st,
{
    match st.kind {
        StatementNodeKind::RETURN(e) => wrap(
            "start return statement"@,
            gen_expr_s(e, locals, label),
            seq![InstV::PopReg64(Reg64::RAX)],
            "end return statement"@,
        ),
        StatementNodeKind::IFRET(e) => wrap(
            "start ifret statement"@,
            gen_expr_s(e, locals, label),
            Seq::empty(),
            "end ifret statement"@,
        ),
        StatementNodeKind::EXPR(e) => wrap(
            "start expression statement"@,
            gen_expr_s(e, locals, label),
            Seq::empty(),
            "end expression statement"@,
        ),
        StatementNodeKind::VARDECL => Ok((Seq::empty(), label)),
        StatementNodeKind::COUNTUP(id, start, end, body) => if label >= usize::MAX {
            Err(GenErrV::LabelOverflow)
        } else {
            let sl = label_text(".Lstart"@, label);
            let el = label_text(".Lend"@, label);
            match assign_ok(lvalue_s(id, locals), gen_expr_s(start, locals, label + 1)) {
                Ok((ic, l1)) => match gen_expr_s(id, locals, l1) {
                    Ok((vc, l2)) => match gen_expr_s(end, locals, l2) {
                        Ok((ec, l3)) => match gen_stmts_s(body@, locals, l3) {
                            Ok((bc, l4)) => match lvalue_s(id, locals) {
                                Ok(lv) => Ok((
                                    seq![InstV::Comment("start countup statement"@)] + ic + seq![InstV::Label(sl)] + vc + ec
                                        + seq![
                                        InstV::PopReg64(Reg64::RDI),
                                        InstV::PopReg64(Reg64::RAX),
                                        InstV::CmpRegAndReg64(Reg64::RDI, Reg64::RAX),
                                        InstV::JumpEqualLabel(el),
                                    ] + bc + lv + seq![
                                        InstV::PopReg64(Reg64::RAX),
                                        InstV::MovMemToReg64(Reg64::RAX, 0, Reg64::RDI),
                                        InstV::IncReg64(Reg64::RDI),
                                        InstV::MovRegToMem64(Reg64::RDI, Reg64::RAX, 0),
                                        InstV::JumpLabel(sl),
                                        InstV::Label(el),
                                        InstV::Comment("end countup statement"@),
                                    ],
                                    l4,
                                )),
                                Err(x) => Err(x),
                            },
                            Err(x) => Err(x),
                        },
                        Err(x) => Err(x),
                    },
                    Err(x) => Err(x),
                },
                Err(x) => Err(x),
            }
        },
        StatementNodeKind::ASM(lines) => match asm_lines_s(strings_view(lines@)) {
            Ok(c) => Ok((c, label)),
            Err(x) => Err(x),
        },
        StatementNodeKind::VARINIT(id, e) => wrap(
            "start varinit statement"@,
            assign_ok(lvalue_s(id, locals), gen_expr_s(e, locals, label)),
            Seq::empty(),
            "end varinit statement"@,
        ),
    }
}

/// The code of an assignment of a variable's address (or the error finding it) and
/// the code of a value.
pub open spec fn assign_ok(lv: Result<Seq<InstV>, GenErrV>, rr: Result<(Seq<InstV>, nat), GenErrV>) -> Result<
    (Seq<InstV>, nat),
    GenErrV,
> {
    match lv {
        Ok(l) => assign_join(l, rr),
        Err(x) => Err(x),
    }
}

/// The immediate operand of `movq`: the operand without a trailing `,` (where it holds
/// one) and without its leading `$`; `None` where a cut would fall inside a character.
pub open spec fn imm_operand(op: Seq<char>) -> Option<Seq<char>> {
    let trimmed = if op.contains(',') {
        if (op.last() as u32) < 128 {
            Some(op.drop_last())
        } else {
            None
        }
    } else {
        Some(op)
    };
    match trimmed {
        Some(t) => if t.len() >= 1 && (t[0] as u32) < 128 {
            Some(t.drop_first())
        } else {
            None
        },
        None => None,
    }
}

/// The instruction of a line of inline assembly: `syscall`, or `movq $imm, %reg`.
pub open spec fn asm_inst_s(line: Seq<char>) -> Result<InstV, GenErrV> {
    let parts = split_spaces(line);
    if parts.len() == 1 && parts[0] == "syscall"@ {
        Ok(InstV::Syscall)
    } else if parts.len() == 3 && parts[0] == "movq"@ {
        match imm_operand(parts[1]) {
            Some(im) => match parse_i64_s(im) {
                Some(v) => match reg_of_at(parts[2]) {
                    Some(r) => Ok(InstV::MovImmToReg64(v, r)),
                    None => Err(GenErrV::UnknownAsm(line)),
                },
                None => Err(GenErrV::UnknownAsm(line)),
            },
            None => Err(GenErrV::UnknownAsm(line)),
        }
    } else {
        Err(GenErrV::UnknownAsm(line))
    }
}

/// The instructions of lines of inline assembly.
pub open spec fn asm_lines_s(lines: Seq<Seq<char>>) -> Result<Seq<InstV>, GenErrV>
    decreases lines.len(),
{
    if lines.len() == 0 {
        Ok(Seq::empty())
    } else {
        match asm_lines_s(lines.drop_last()) {
            Ok(c) => match asm_inst_s(lines.last()) {
                Ok(i) => Ok(c.push(i)),
                Err(x) => Err(x),
            },
            Err(x) => Err(x),
        }
    }
}


/// Saves `%rbp`, sets the frame, and makes room for the local variables: the frame
/// size rounded up to a multiple of eight.
pub open spec fn prologue_s(offset: usize) -> Seq<InstV> {
    seq![InstV::PushReg64(Reg64::RBP), InstV::MovRegToReg64(Reg64::RSP, Reg64::RBP)] + if offset != 0 {
        seq![InstV::SubRegByUint64((((offset + 7) / 8) * 8) as u64, Reg64::RSP)]
    } else {
        Seq::empty()
    }
}

/// Restores the frame and returns.
pub open spec fn epilogue_s() -> Seq<InstV> {
    seq![InstV::MovRegToReg64(Reg64::RBP, Reg64::RSP), InstV::PopReg64(Reg64::RBP), InstV::Ret]
}

/// Stores the first `n` arguments from their registers into their frame slots.
pub open spec fn arg_stores_s(args: Seq<Seq<char>>, locals: Map<Seq<char>, PVariable>, n: int) -> Result<
    Seq<InstV>,
    GenErrV,
>
    decreases n,
{
    if n <= 0 {
        Ok(Seq::empty())
    } else {
        match arg_stores_s(args, locals, n - 1) {
            Ok(c) => if n - 1 >= 6 {
                Err(GenErrV::TooManyArguments)
            } else if locals.contains_key(args[n - 1]) {
                Ok(c.push(InstV::MovRegToMem64(caller_reg(n - 1), Reg64::RBP, local_offset(locals[args[n - 1]]))))
            } else {
                Err(GenErrV::UndefinedVariable(args[n - 1]))
            },
            Err(x) => Err(x),
        }
    }
}

/// The code of a function, its labels numbered from `label`: the prologue, the
/// arguments stored, the body, `%rax` cleared for `main`, and the epilogue.
pub open spec fn fn_code_s(f: PFunction, label: nat) -> Result<Seq<InstV>, GenErrV> {
    match arg_stores_s(strings_view(f.args@), f.locals@, f.args@.len() as int) {
        Ok(ac) => match gen_stmts_s(f.stmts@, f.locals@, label) {
            Ok((bc, _)) => Ok(
                prologue_s(f.stack_offset) + ac + bc + (if f.name@ == "main"@ {
                    seq![InstV::MovImmToReg64(0, Reg64::RAX)]
                } else {
                    Seq::empty()
                }) + epilogue_s(),
            ),
            Err(x) => Err(x),
        },
        Err(x) => Err(x),
    }
}

/// The string literals of a function with their hashes, in order of contents.
pub open spec fn strings_of(f: PFunction) -> Seq<(Seq<char>, u64)> {
    Seq::new(f.strings.names().len(), |i: int| (f.strings.names()[i], f.strings.values()[i]))
}

/// The values of the string literals of a symbol.
pub open spec fn sym_strings_v(s: Seq<(String, u64)>) -> Seq<(Seq<char>, u64)> {
    s.map_values(|p: (String, u64)| (p.0@, p.1))
}

/// The code of the first `n` functions, each with labels numbered from one.
pub open spec fn codegen_s(fs: Seq<PFunction>, n: int) -> Result<Seq<Seq<InstV>>, GenErrV>
    decreases n,
{
    if n <= 0 {
        Ok(Seq::empty())
    } else {
        match codegen_s(fs, n - 1) {
            Ok(cs) => match fn_code_s(fs[n - 1], 1) {
                Ok(c) => Ok(cs.push(c)),
                Err(x) => Err(x),
            },
            Err(x) => Err(x),
        }
    }
}

/// Makes a label from a prefix and a number.
fn make_label(prefix: &str, n: u64) -> (s: String)
    ensures
        s@ == label_text(prefix@, n as nat),
{
    let mut v: Vec<char> = Vec::new();
    push_str(&mut v, prefix);
    let digits = u64_to_decimal(n);
    push_all(&mut v, digits.as_slice());
    chars_to_string(v.as_slice())
}

/// Reads the instruction of a line of inline assembly.
pub fn gen_inst_from_asm(asm_str: &str) -> (r: Result<Instruction, CodegenError>)
    ensures
        match asm_inst_s(asm_str@) {
            Ok(i) => r matches Ok(x) && x@ == i,
            Err(e) => r matches Err(x) && gen_err_v(x) == e,
        },
{
    let parts = split_at_spaces(asm_str);
    let ghost pv = parts@.map_values(|p: Vec<char>| p@);
    assert(pv.len() == parts@.len());
    let unknown = CodegenError::UnknownAsm(crate::text::str_to_string(asm_str));
    if parts.len() == 1 {
        assert(pv[0] == parts@[0]@);
        if chars_equal(parts[0].as_slice(), "syscall") {
            return Ok(Instruction::Syscall);
        }
        return Err(unknown);
    }
    if parts.len() != 3 {
        return Err(unknown);
    }
    assert(pv[0] == parts@[0]@ && pv[1] == parts@[1]@ && pv[2] == parts@[2]@);
    if !chars_equal(parts[0].as_slice(), "movq") {
        return Err(unknown);
    }
    let op = parts[1].as_slice();
    let mut has_comma = false;
    let mut i: usize = 0;
    while i < op.len()
        invariant
            i <= op.len(),
            has_comma == exists|k: int| 0 <= k < i && op@[k] == ',',
        decreases op.len() - i,
    {
        if op[i] == ',' {
            has_comma = true;
        }
        i = i + 1;
    }
    assert(has_comma == op@.contains(','));
    let trimmed: &[char] = if has_comma {
        if (op[op.len() - 1] as u32) < 128 {
            vstd::slice::slice_subrange(op, 0, op.len() - 1)
        } else {
            return Err(unknown);
        }
    } else {
        op
    };
    assert(has_comma ==> trimmed@ =~= op@.drop_last());
    if trimmed.len() == 0 || (trimmed[0] as u32) >= 128 {
        return Err(unknown);
    }
    let digits = vstd::slice::slice_subrange(trimmed, 1, trimmed.len());
    assert(digits@ =~= trimmed@.drop_first());
    assert(imm_operand(pv[1]) == Some(digits@));
    let imm = match parse_i64(digits) {
        Some(v) => v,
        None => return Err(unknown),
    };
    let reg_text = chars_to_string(parts[2].as_slice());
    match Reg64::from_at_str(reg_text.as_str()) {
        Some(r) => Ok(Instruction::MovImmToReg64 { imm, dst: r }),
        None => Err(unknown),
    }
}

/// Whether a sequence of characters spells `s`.
fn chars_equal(a: &[char], s: &str) -> (b: bool)
    ensures
        b == (a@ == s@),
{
    let t = chars_to_string(a);
    crate::name_map::compare_strings(t.as_str(), s) == 0
}


/// The generator of a program's assembly: the file so far, the symbol being written,
/// and the number of the next label.
pub struct Generator {
    pub assembly: AssemblyFile,
    pub sym_idx: usize,
    pub label: usize,
}

/// `new` differs from `old` at most in the instructions of the current symbol and
/// in the label number.
pub open spec fn same_but_code(old: Generator, new: Generator) -> bool {
    &&& new.wf()
    &&& new.sym_idx == old.sym_idx
    &&& new.assembly.file_path == old.assembly.file_path
    &&& new.assembly.symbols@.len() == old.assembly.symbols@.len()
    &&& forall|j: int| 0 <= j < old.assembly.symbols@.len() && j != old.sym_idx ==> #[trigger] new.assembly.symbols@[j]
        == old.assembly.symbols@[j]
    &&& new.assembly.symbols@[old.sym_idx as int].name == old.assembly.symbols@[old.sym_idx as int].name
    &&& new.assembly.symbols@[old.sym_idx as int].strings == old.assembly.symbols@[old.sym_idx as int].strings
}

/// `new` is `old` with `code` appended to the current symbol and the label number `l`.
pub open spec fn emitted(old: Generator, new: Generator, code: Seq<InstV>, l: nat) -> bool {
    &&& same_but_code(old, new)
    &&& new.cur_insts() == old.cur_insts() + code
    &&& new.label == l
}

/// What generating by the result `res` does: on success the code is appended and the
/// label number moved on; on failure the error is the one stated.
pub open spec fn gen_outcome(old: Generator, new: Generator, r: Result<(), CodegenError>, res: Result<(Seq<InstV>, nat), GenErrV>) -> bool {
    match res {
        Ok((code, l)) => r is Ok && emitted(old, new, code, l),
        Err(e) => r matches Err(x) && gen_err_v(x) == e,
    }
}

proof fn lemma_same_trans(a: Generator, b: Generator, c: Generator)
    requires
        same_but_code(a, b),
        same_but_code(b, c),
    ensures
        same_but_code(a, c),
{
    assert forall|j: int| 0 <= j < a.assembly.symbols@.len() && j != a.sym_idx implies #[trigger] c.assembly.symbols@[j]
        == a.assembly.symbols@[j] by {
        assert(b.assembly.symbols@[j] == a.assembly.symbols@[j]);
    }
}

proof fn lemma_gen_exprs_err(es: Seq<ExpressionNode>, locals: Map<Seq<char>, PVariable>, label: nat, k: int)
    requires
        0 <= k <= es.len(),
        gen_exprs_s(es.take(k), locals, label) is Err,
    ensures
        gen_exprs_s(es, locals, label) == gen_exprs_s(es.take(k), locals, label),
    decreases es.len() - k,
{
    if k == es.len() {
        assert(es.take(k) == es);
    } else {
        assert(es.take(k + 1).drop_last() == es.take(k));
        lemma_gen_exprs_err(es, locals, label, k + 1);
    }
}

proof fn lemma_gen_stmts_err(sts: Seq<StatementNode>, locals: Map<Seq<char>, PVariable>, label: nat, k: int)
    requires
        0 <= k <= sts.len(),
        gen_stmts_s(sts.take(k), locals, label) is Err,
    ensures
        gen_stmts_s(sts, locals, label) == gen_stmts_s(sts.take(k), locals, label),
    decreases sts.len() - k,
{
    if k == sts.len() {
        assert(sts.take(k) == sts);
    } else {
        assert(sts.take(k + 1).drop_last() == sts.take(k));
        lemma_gen_stmts_err(sts, locals, label, k + 1);
    }
}

proof fn lemma_asm_lines_err(lines: Seq<Seq<char>>, k: int)
    requires
        0 <= k <= lines.len(),
        asm_lines_s(lines.take(k)) is Err,
    ensures
        asm_lines_s(lines) == asm_lines_s(lines.take(k)),
    decreases lines.len() - k,
{
    if k == lines.len() {
        assert(lines.take(k) == lines);
    } else {
        assert(lines.take(k + 1).drop_last() == lines.take(k));
        lemma_asm_lines_err(lines, k + 1);
    }
}

impl Generator {
    pub open spec fn wf(&self) -> bool {
        self.sym_idx < self.assembly.symbols@.len()
    }

    /// The instructions of the current symbol.
    pub open spec fn cur_insts(&self) -> Seq<InstV> {
        insts_v(self.assembly.symbols@[self.sym_idx as int].insts@)
    }

    /// A generator of an empty file at `file_path`, with label number 1.
    pub fn new(file_path: String) -> (g: Self)
        ensures
            g.assembly.file_path == file_path,
            g.assembly.symbols@.len() == 0,
            g.sym_idx == 0,
            g.label == 1,
    {
        Generator { sym_idx: 0, assembly: AssemblyFile::new(file_path), label: 1 }
    }

    pub fn set_label(&mut self, lnum: usize)
        ensures
            final(self).label == lnum,
            final(self).assembly == old(self).assembly,
            final(self).sym_idx == old(self).sym_idx,
    {
        self.label = lnum;
    }

    /// Takes the next label number.
    pub fn consume_label(&mut self) -> (r: Result<usize, CodegenError>)
        ensures
            final(self).assembly == old(self).assembly,
            final(self).sym_idx == old(self).sym_idx,
            old(self).label < usize::MAX ==> r == Ok::<usize, CodegenError>(old(self).label) && final(self).label
                == old(self).label + 1,
            old(self).label == usize::MAX ==> r == Err::<usize, CodegenError>(CodegenError::LabelOverflow),
    {
        let cur_num = self.label;
        if cur_num == usize::MAX {
            return Err(CodegenError::LabelOverflow);
        }
        self.label = cur_num + 1;
        Ok(cur_num)
    }

    pub fn give_assembly(self) -> (a: AssemblyFile)
        ensures
            a == self.assembly,
    {
        self.assembly
    }

    /// Makes the last symbol the current one.
    fn condition_symidx(&mut self)
        requires
            old(self).assembly.symbols@.len() > 0,
        ensures
            final(self).sym_idx == old(self).assembly.symbols@.len() - 1,
            final(self).assembly == old(self).assembly,
            final(self).label == old(self).label,
    {
        self.sym_idx = self.assembly.symbols_number() - 1;
    }

    /// Adds a symbol and makes it the current one.
    pub fn add_symbol(&mut self, sym: Symbol)
        ensures
            final(self).wf(),
            final(self).assembly.symbols@ == old(self).assembly.symbols@.push(sym),
            final(self).assembly.file_path == old(self).assembly.file_path,
            final(self).sym_idx == old(self).assembly.symbols@.len(),
            final(self).label == old(self).label,
    {
        self.assembly.add_symbol(sym);
        self.condition_symidx();
    }

    /// Appends an instruction to the current symbol.
    pub fn add_inst_to_cursym(&mut self, inst: Instruction)
        requires
            old(self).wf(),
        ensures
            same_but_code(*old(self), *final(self)),
            final(self).cur_insts() == old(self).cur_insts().push(inst@),
            final(self).label == old(self).label,
    {
        let ghost before = self.assembly.symbols@[self.sym_idx as int].insts@;
        self.assembly.add_inst_to_sym(self.sym_idx, inst);
        proof {
            assert(insts_v(before.push(inst)) =~= insts_v(before).push(inst@));
        }
    }

    /// Records a string literal in the current symbol.
    pub fn add_string_to_cursym(&mut self, string: String, hash: u64)
        requires
            old(self).wf(),
        ensures
            final(self).wf(),
            final(self).sym_idx == old(self).sym_idx,
            final(self).label == old(self).label,
            final(self).assembly.file_path == old(self).assembly.file_path,
            final(self).assembly.symbols@.len() == old(self).assembly.symbols@.len(),
            forall|j: int| 0 <= j < old(self).assembly.symbols@.len() && j != old(self).sym_idx ==> #[trigger] final(self).assembly.symbols@[j] == old(self).assembly.symbols@[j],
            final(self).assembly.symbols@[old(self).sym_idx as int].name == old(self).assembly.symbols@[old(self).sym_idx as int].name,
            final(self).assembly.symbols@[old(self).sym_idx as int].insts == old(self).assembly.symbols@[old(self).sym_idx as int].insts,
            final(self).assembly.symbols@[old(self).sym_idx as int].strings@ == old(self).assembly.symbols@[old(self).sym_idx as int].strings@.push((string, hash)),
    {
        self.assembly.add_string_to_sym(self.sym_idx, string, hash);
    }

    /// Appends a comment.
    fn gen_comment(&mut self, contents: &str)
        requires
            old(self).wf(),
        ensures
            same_but_code(*old(self), *final(self)),
            final(self).cur_insts() == old(self).cur_insts().push(InstV::Comment(contents@)),
            final(self).label == old(self).label,
    {
        self.add_inst_to_cursym(Instruction::Comment(crate::text::str_to_string(contents)));
    }

    /// Pushes the address of the variable `lval`.
    fn gen_left_value(&mut self, lval: &ExpressionNode, locals: &NameMap<PVariable>) -> (r: Result<(), CodegenError>)
        requires
            old(self).wf(),
            locals.wf(),
        ensures
            match lvalue_s(*lval, locals@) {
                Ok(code) => r is Ok && emitted(*old(self), *final(self), code, old(self).label as nat),
                Err(e) => r matches Err(x) && gen_err_v(x) == e,
            },
    {
        let ghost g0 = *self;
        match &lval.kind {
            ExpressionNodeKind::IDENT(id_name) => {
                let name = IdentName::last_name(id_name);
                match locals.get(name.as_str()) {
                    Some(pvar) => {
                        let offset = pvar.get_stack_offset();
                        self.add_inst_to_cursym(Instruction::MovRegToReg64 { src: Reg64::RBP, dst: Reg64::RAX });
                        let ghost g1 = *self;
                        self.add_inst_to_cursym(Instruction::SubRegByUint64 { amount: offset as u64, dst: Reg64::RAX });
                        let ghost g2 = *self;
                        self.add_inst_to_cursym(Instruction::PushReg64(Reg64::RAX));
                        proof {
                            lemma_same_trans(g0, g1, g2);
                            lemma_same_trans(g0, g2, *self);
                            assert(self.cur_insts() =~= g0.cur_insts() + seq![
                                InstV::MovRegToReg64(Reg64::RBP, Reg64::RAX),
                                InstV::SubRegByUint64(offset as u64, Reg64::RAX),
                                InstV::PushReg64(Reg64::RAX),
                            ]);
                        }
                        Ok(())
                    },
                    None => Err(CodegenError::UndefinedVariable(name)),
                }
            },
            _ => Err(CodegenError::NotAnLvalue),
        }
    }
}


impl Generator {
    /// Appends the code of an expression, which leaves its value on the stack.
    pub fn gen_expr(&mut self, ex: &ExpressionNode, locals: &NameMap<PVariable>) -> (r: Result<(), CodegenError>)
        requires
            old(self).wf(),
            locals.wf(),
        ensures
            gen_outcome(*old(self), *final(self), r, gen_expr_s(*ex, locals@, old(self).label as nat)),
        decreases ex, 1nat,
    {
        let ghost g0 = *self;
        match &ex.kind {
            ExpressionNodeKind::INTEGER(v) => {
                self.add_inst_to_cursym(Instruction::PushInt64(*v));
                assert(self.cur_insts() =~= g0.cur_insts() + seq![InstV::PushInt64(*v)]);
                Ok(())
            },
            ExpressionNodeKind::UNSIGNEDINTEGER(v) => {
                self.add_inst_to_cursym(Instruction::PushUint64(*v));
                assert(self.cur_insts() =~= g0.cur_insts() + seq![InstV::PushUint64(*v)]);
                Ok(())
            },
            ExpressionNodeKind::TRUE => {
                self.add_inst_to_cursym(Instruction::PushInt64(1));
                assert(self.cur_insts() =~= g0.cur_insts() + seq![InstV::PushInt64(1)]);
                Ok(())
            },
            ExpressionNodeKind::FALSE => {
                self.add_inst_to_cursym(Instruction::PushInt64(0));
                assert(self.cur_insts() =~= g0.cur_insts() + seq![InstV::PushInt64(0)]);
                Ok(())
            },
            ExpressionNodeKind::IDENT(_) => self.gen_ident_expr(ex, locals),
            ExpressionNodeKind::CALL(_, _) => self.gen_call_expr(ex, locals),
            ExpressionNodeKind::NEG(value) => self.gen_unary_expr("-", value, locals),
            ExpressionNodeKind::ADD(_, _) | ExpressionNodeKind::SUB(_, _) | ExpressionNodeKind::MUL(_, _)
            | ExpressionNodeKind::DIV(_, _) => self.gen_binary_expr(ex, locals),
            ExpressionNodeKind::ASSIGN(_, _) => self.gen_assign_expr(ex, locals),
            ExpressionNodeKind::IF(_, _) => self.gen_if_expr(ex, locals),
            ExpressionNodeKind::IFELSE(_, _, _) => self.gen_ifelse_expr(ex, locals),
            ExpressionNodeKind::STRLIT(_, _) => self.gen_strlit_expr(ex, locals),
            _ => Err(CodegenError::UnsupportedExpression),
        }
    }

    /// Appends the code that pushes the value of a variable.
    fn gen_ident_expr(&mut self, ex: &ExpressionNode, locals: &NameMap<PVariable>) -> (r: Result<(), CodegenError>)
        requires
            old(self).wf(),
            locals.wf(),
            ex.kind is IDENT,
        ensures
            gen_outcome(*old(self), *final(self), r, gen_expr_s(*ex, locals@, old(self).label as nat)),
        decreases ex, 0nat,
    {
        let ghost g0 = *self;

        self.gen_comment("start identifier expression");
        let ghost g1 = *self;
        let r = self.gen_left_value(ex, locals);
        if r.is_err() {
            return r;
        }
        let ghost g2 = *self;
        self.add_inst_to_cursym(Instruction::PopReg64(Reg64::RAX));
        let ghost g3 = *self;
        self.add_inst_to_cursym(Instruction::MovMemToReg64 { base: Reg64::RAX, disp: 0, dst: Reg64::RAX });
        let ghost g4 = *self;
        self.add_inst_to_cursym(Instruction::PushReg64(Reg64::RAX));
        let ghost g5 = *self;
        self.gen_comment("end identifier expression");
        proof {
            lemma_same_trans(g0, g1, g2);
            lemma_same_trans(g0, g2, g3);
            lemma_same_trans(g0, g3, g4);
            lemma_same_trans(g0, g4, g5);
            lemma_same_trans(g0, g5, *self);
            let lv = lvalue_s(*ex, locals@)->Ok_0;
            assert(self.cur_insts() =~= g0.cur_insts() + (seq![InstV::Comment("start identifier expression"@)] + lv
                + seq![
                InstV::PopReg64(Reg64::RAX),
                InstV::MovMemToReg64(Reg64::RAX, 0, Reg64::RAX),
                InstV::PushReg64(Reg64::RAX),
                InstV::Comment("end identifier expression"@),
            ]));
        }
        Ok(())
        }

    /// Appends a call: the arguments pushed, popped into their registers, the call, and its result pushed.
    fn gen_call_expr(&mut self, ex: &ExpressionNode, locals: &NameMap<PVariable>) -> (r: Result<(), CodegenError>)
        requires
            old(self).wf(),
            locals.wf(),
            ex.kind is CALL,
        ensures
            gen_outcome(*old(self), *final(self), r, gen_expr_s(*ex, locals@, old(self).label as nat)),
        decreases ex, 0nat,
    {
        let ghost g0 = *self;
        let (ident, args) = match &ex.kind {
            ExpressionNodeKind::CALL(i, a) => (i, a),
            _ => vstd::pervasive::unreached(),
        };
        self.gen_comment("start call expression");
        let ghost g1 = *self;
        let r = self.gen_exprs(args, locals);
        if r.is_err() {
            return r;
        }
        if args.len() > 6 {
            return Err(CodegenError::TooManyArguments);
        }
        let ghost g2 = *self;
        let n = args.len();
        let mut i: usize = 0;
        while i < n
            invariant
                i <= n,
                n <= 6,
                same_but_code(g2, *self),
                self.cur_insts() == g2.cur_insts() + pops_s(n as nat).take(i as int),
                self.label == g2.label,
            decreases n - i,
        {
            let ghost h = *self;
            self.add_inst_to_cursym(Instruction::PopReg64(Reg64::caller_reg64(n - 1 - i)));
            proof {
                lemma_same_trans(g2, h, *self);
                assert(pops_s(n as nat).take(i + 1) =~= pops_s(n as nat).take(i as int).push(
                    InstV::PopReg64(caller_reg(n - 1 - i)),
                ));
            }
            i = i + 1;
        }
        let ghost g3 = *self;
        let callee = IdentName::last_name(ident);
        self.add_inst_to_cursym(Instruction::Call(callee));
        let ghost g4 = *self;
        self.add_inst_to_cursym(Instruction::PushReg64(Reg64::RAX));
        let ghost g5 = *self;
        self.gen_comment("end call expression");
        proof {
            lemma_same_trans(g0, g1, g2);
            lemma_same_trans(g0, g2, g3);
            lemma_same_trans(g0, g3, g4);
            lemma_same_trans(g0, g4, g5);
            lemma_same_trans(g0, g5, *self);
            assert(pops_s(n as nat).take(n as int) =~= pops_s(n as nat));
            let c = gen_exprs_s(args@, locals@, g0.label as nat)->Ok_0.0;
            assert(self.cur_insts() =~= g0.cur_insts() + (seq![InstV::Comment("start call expression"@)] + c
                + pops_s(args@.len()) + seq![
                InstV::Call(ident.names().last()),
                InstV::PushReg64(Reg64::RAX),
                InstV::Comment("end call expression"@),
            ]));
        }
        Ok(())
        }

    /// Appends an assignment expression.
    fn gen_assign_expr(&mut self, ex: &ExpressionNode, locals: &NameMap<PVariable>) -> (r: Result<(), CodegenError>)
        requires
            old(self).wf(),
            locals.wf(),
            ex.kind is ASSIGN,
        ensures
            gen_outcome(*old(self), *final(self), r, gen_expr_s(*ex, locals@, old(self).label as nat)),
        decreases ex, 0nat,
    {
        let ghost g0 = *self;
        let (lval, rval) = match &ex.kind {
            ExpressionNodeKind::ASSIGN(l, r) => (l, r),
            _ => vstd::pervasive::unreached(),
        };
        self.gen_comment("start assign expression");
        let ghost g1 = *self;
        let r = self.gen_assignment_left_value(lval, rval, locals);
        if r.is_err() {
            return r;
        }
        let ghost g2 = *self;
        self.gen_comment("end assign expression");
        proof {
            lemma_same_trans(g0, g1, g2);
            lemma_same_trans(g0, g2, *self);
            let c = assign_ok(lvalue_s(**lval, locals@), gen_expr_s(**rval, locals@, g0.label as nat))->Ok_0.0;
            assert(self.cur_insts() =~= g0.cur_insts() + (seq![InstV::Comment("start assign expression"@)] + c
                + Seq::<InstV>::empty() + seq![InstV::Comment("end assign expression"@)]));
        }
        Ok(())
        }

    /// Appends an `if` expression: the body is skipped where the condition is zero.
    fn gen_if_expr(&mut self, ex: &ExpressionNode, locals: &NameMap<PVariable>) -> (r: Result<(), CodegenError>)
        requires
            old(self).wf(),
            locals.wf(),
            ex.kind is IF,
        ensures
            gen_outcome(*old(self), *final(self), r, gen_expr_s(*ex, locals@, old(self).label as nat)),
        decreases ex, 0nat,
    {
        let ghost g0 = *self;
        let (condition, body) = match &ex.kind {
            ExpressionNodeKind::IF(c, b) => (c, b),
            _ => vstd::pervasive::unreached(),
        };
        self.gen_comment("start if expression");
        let ghost g1 = *self;
        let r = self.gen_expr(condition, locals);
        if r.is_err() {
            return r;
        }
        let ghost g2 = *self;
        let lnum = match self.consume_label() {
            Ok(n) => n,
            Err(e) => return Err(e),
        };
        let fin_label = make_label(".Lend", lnum as u64);
        let ghost g3 = *self;
        self.add_inst_to_cursym(Instruction::PopReg64(Reg64::RAX));
        let ghost g4 = *self;
        self.add_inst_to_cursym(Instruction::CmpRegAndInt64 { imm: 0, reg: Reg64::RAX });
        let ghost g5 = *self;
        self.add_inst_to_cursym(Instruction::JumpEqualLabel(fin_label.clone()));
        let ghost g6 = *self;
        let r = self.gen_stmts(body, locals);
        if r.is_err() {
            return r;
        }
        let ghost g7 = *self;
        self.add_inst_to_cursym(Instruction::Label(fin_label));
        let ghost g8 = *self;
        self.gen_comment("end if expression");
        proof {
            lemma_same_trans(g0, g1, g2);
            lemma_same_trans(g0, g2, g3);
            lemma_same_trans(g0, g3, g4);
            lemma_same_trans(g0, g4, g5);
            lemma_same_trans(g0, g5, g6);
            lemma_same_trans(g0, g6, g7);
            lemma_same_trans(g0, g7, g8);
            lemma_same_trans(g0, g8, *self);
            let cc = gen_expr_s(**condition, locals@, g0.label as nat)->Ok_0.0;
            let bc = gen_stmts_s(body@, locals@, lnum as nat + 1)->Ok_0.0;
            let fin = label_text(".Lend"@, lnum as nat);
            assert(self.cur_insts() =~= g0.cur_insts() + (seq![InstV::Comment("start if expression"@)] + cc + seq![
                InstV::PopReg64(Reg64::RAX),
                InstV::CmpRegAndInt64(0, Reg64::RAX),
                InstV::JumpEqualLabel(fin),
            ] + bc + seq![InstV::Label(fin), InstV::Comment("end if expression"@)]));
        }
        Ok(())
        }

    /// Appends an `if`-`else` expression.
    fn gen_ifelse_expr(&mut self, ex: &ExpressionNode, locals: &NameMap<PVariable>) -> (r: Result<(), CodegenError>)
        requires
            old(self).wf(),
            locals.wf(),
            ex.kind is IFELSE,
        ensures
            gen_outcome(*old(self), *final(self), r, gen_expr_s(*ex, locals@, old(self).label as nat)),
        decreases ex, 0nat,
    {
        let ghost g0 = *self;
        let (condition, body, alter) = match &ex.kind {
            ExpressionNodeKind::IFELSE(c, b, a) => (c, b, a),
            _ => vstd::pervasive::unreached(),
        };
        self.gen_comment("start if-else expression");
        let ghost g1 = *self;
        let r = self.gen_expr(condition, locals);
        if r.is_err() {
            return r;
        }
        let ghost g2 = *self;
        let lnum = match self.consume_label() {
            Ok(n) => n,
            Err(e) => return Err(e),
        };
        let else_label = make_label(".Lelse", lnum as u64);
        let fin_label = make_label(".Lend", lnum as u64);
        let ghost g3 = *self;
        self.add_inst_to_cursym(Instruction::PopReg64(Reg64::RAX));
        let ghost g4 = *self;
        self.add_inst_to_cursym(Instruction::CmpRegAndInt64 { imm: 0, reg: Reg64::RAX });
        let ghost g5 = *self;
        self.add_inst_to_cursym(Instruction::JumpEqualLabel(else_label.clone()));
        let ghost g6 = *self;
        let r = self.gen_stmts(body, locals);
        if r.is_err() {
            return r;
        }
        let ghost g7 = *self;
        self.add_inst_to_cursym(Instruction::JumpLabel(fin_label.clone()));
        let ghost g8 = *self;
        self.add_inst_to_cursym(Instruction::Label(else_label));
        let ghost g9 = *self;
        let r = self.gen_stmts(alter, locals);
        if r.is_err() {
            return r;
        }
        let ghost g10 = *self;
        self.add_inst_to_cursym(Instruction::Label(fin_label));
        let ghost g11 = *self;
        self.gen_comment("end if-else expression");
        proof {
            lemma_same_trans(g0, g1, g2);
            lemma_same_trans(g0, g2, g3);
            lemma_same_trans(g0, g3, g4);
            lemma_same_trans(g0, g4, g5);
            lemma_same_trans(g0, g5, g6);
            lemma_same_trans(g0, g6, g7);
            lemma_same_trans(g0, g7, g8);
            lemma_same_trans(g0, g8, g9);
            lemma_same_trans(g0, g9, g10);
            lemma_same_trans(g0, g10, g11);
            lemma_same_trans(g0, g11, *self);
            let cc = gen_expr_s(**condition, locals@, g0.label as nat)->Ok_0.0;
            let bc = gen_stmts_s(body@, locals@, lnum as nat + 1)->Ok_0.0;
            let l2 = gen_stmts_s(body@, locals@, lnum as nat + 1)->Ok_0.1;
            let ac = gen_stmts_s(alter@, locals@, l2)->Ok_0.0;
            let els = label_text(".Lelse"@, lnum as nat);
            let fin = label_text(".Lend"@, lnum as nat);
            assert(self.cur_insts() =~= g0.cur_insts() + (seq![InstV::Comment("start if-else expression"@)] + cc
                + seq![
                InstV::PopReg64(Reg64::RAX),
                InstV::CmpRegAndInt64(0, Reg64::RAX),
                InstV::JumpEqualLabel(els),
            ] + bc + seq![InstV::JumpLabel(fin), InstV::Label(els)] + ac + seq![
                InstV::Label(fin),
                InstV::Comment("end if-else expression"@),
            ]));
        }
        Ok(())
        }

    /// Appends the code that pushes the address of a string literal.
    fn gen_strlit_expr(&mut self, ex: &ExpressionNode, locals: &NameMap<PVariable>) -> (r: Result<(), CodegenError>)
        requires
            old(self).wf(),
            locals.wf(),
            ex.kind is STRLIT,
        ensures
            gen_outcome(*old(self), *final(self), r, gen_expr_s(*ex, locals@, old(self).label as nat)),
        decreases ex, 0nat,
    {
        let ghost g0 = *self;
        let hash = match &ex.kind {
            ExpressionNodeKind::STRLIT(_, h) => h,
            _ => vstd::pervasive::unreached(),
        };
        let l = make_label(".LS", *hash);
        self.add_inst_to_cursym(Instruction::LeaStringAddrToRegWithRip { label: l, dst: Reg64::RAX });
        let ghost g1 = *self;
        self.add_inst_to_cursym(Instruction::PushReg64(Reg64::RAX));
        proof {
            lemma_same_trans(g0, g1, *self);
            assert(self.cur_insts() =~= g0.cur_insts() + seq![
                InstV::LeaStringAddrToRegWithRip(label_text(".LS"@, *hash as nat), Reg64::RAX),
                InstV::PushReg64(Reg64::RAX),
            ]);
        }
        Ok(())
        }

    /// Appends the code of the expressions of a list, one after another.
    fn gen_exprs(&mut self, args: &Vec<ExpressionNode>, locals: &NameMap<PVariable>) -> (r: Result<(), CodegenError>)
        requires
            old(self).wf(),
            locals.wf(),
        ensures
            gen_outcome(*old(self), *final(self), r, gen_exprs_s(args@, locals@, old(self).label as nat)),
        decreases args, 0nat,
    {
        let ghost g0 = *self;
        let mut i: usize = 0;
        proof { assert(args@.take(0) =~= Seq::<ExpressionNode>::empty()); }
        while i < args.len()
            invariant
                i <= args.len(),
                locals.wf(),
                gen_exprs_s(args@.take(i as int), locals@, g0.label as nat) matches Ok((c, l)) && emitted(
                    g0,
                    *self,
                    c,
                    l,
                ),
                g0.wf(),
                g0 == *old(self),
            decreases args.len() - i,
        {
            proof {
                assert(decreases_to!(args => args@[i as int]));
                assert(args@.take(i + 1).drop_last() =~= args@.take(i as int));
                assert(args@.take(i + 1).last() == args@[i as int]);
            }
            let ghost h = *self;
            let ghost c = gen_exprs_s(args@.take(i as int), locals@, g0.label as nat)->Ok_0.0;
            let r = self.gen_expr(&args[i], locals);
            if r.is_err() {
                proof {
                    let l = gen_exprs_s(args@.take(i as int), locals@, g0.label as nat)->Ok_0.1;
                    assert(l == h.label);
                    assert(gen_exprs_s(args@.take(i + 1), locals@, g0.label as nat) == Err::<(Seq<InstV>, nat), GenErrV>(
                        gen_err_v(r->Err_0),
                    ));
                    lemma_gen_exprs_err(args@, locals@, g0.label as nat, i + 1);
                }
                return r;
            }
            proof {
                lemma_same_trans(g0, h, *self);
                let c2 = gen_expr_s(args@[i as int], locals@, h.label as nat)->Ok_0.0;
                assert(self.cur_insts() =~= g0.cur_insts() + (c + c2));
            }
            i = i + 1;
        }
        proof { assert(args@.take(args.len() as int) =~= args@); }
        Ok(())
    }

    /// Appends the code of a unary operation: `-` negates.
    pub fn gen_unary_expr(&mut self, operator: &str, value: &ExpressionNode, locals: &NameMap<PVariable>) -> (r: Result<
        (),
        CodegenError,
    >)
        requires
            old(self).wf(),
            locals.wf(),
            operator@ == "-"@,
        ensures
            gen_outcome(*old(self), *final(self), r, match gen_expr_s(*value, locals@, old(self).label as nat) {
                Ok((c, l)) => Ok((
                    c + seq![InstV::PopReg64(Reg64::RAX), InstV::NegReg64(Reg64::RAX), InstV::PushReg64(Reg64::RAX)],
                    l,
                )),
                Err(x) => Err(x),
            }),
        decreases value, 2nat,
    {
        let ghost g0 = *self;
        let r = self.gen_expr(value, locals);
        if r.is_err() {
            return r;
        }
        let ghost g1 = *self;
        self.add_inst_to_cursym(Instruction::PopReg64(Reg64::RAX));
        let ghost g2 = *self;
        self.add_inst_to_cursym(Instruction::NegReg64(Reg64::RAX));
        let ghost g3 = *self;
        self.add_inst_to_cursym(Instruction::PushReg64(Reg64::RAX));
        proof {
            lemma_same_trans(g0, g1, g2);
            lemma_same_trans(g0, g2, g3);
            lemma_same_trans(g0, g3, *self);
            let c = gen_expr_s(*value, locals@, g0.label as nat)->Ok_0.0;
            assert(self.cur_insts() =~= g0.cur_insts() + (c + seq![
                InstV::PopReg64(Reg64::RAX),
                InstV::NegReg64(Reg64::RAX),
                InstV::PushReg64(Reg64::RAX),
            ]));
        }
        Ok(())
    }

    /// Appends the instructions of a binary operation on `%rax` and `%rdi`.
    fn emit_binop(&mut self, k: &ExpressionNodeKind)
        requires
            old(self).wf(),
        ensures
            same_but_code(*old(self), *final(self)),
            final(self).cur_insts() == old(self).cur_insts() + binop_ops(*k),
            final(self).label == old(self).label,
    {
        let ghost g0 = *self;
        match k {
            ExpressionNodeKind::ADD(_, _) => {
                self.add_inst_to_cursym(Instruction::AddRegToReg64 { src: Reg64::RDI, dst: Reg64::RAX });
                assert(self.cur_insts() =~= g0.cur_insts() + binop_ops(*k));
            },
            ExpressionNodeKind::SUB(_, _) => {
                self.add_inst_to_cursym(Instruction::SubRegToReg64 { src: Reg64::RDI, dst: Reg64::RAX });
                assert(self.cur_insts() =~= g0.cur_insts() + binop_ops(*k));
            },
            ExpressionNodeKind::MUL(_, _) => {
                self.add_inst_to_cursym(Instruction::ImulRegToReg64 { src: Reg64::RDI, dst: Reg64::RAX });
                assert(self.cur_insts() =~= g0.cur_insts() + binop_ops(*k));
            },
            _ => {
                self.add_inst_to_cursym(Instruction::Cltd);
                let ghost h = *self;
                self.add_inst_to_cursym(Instruction::IdivReg64(Reg64::RDI));
                proof {
                    lemma_same_trans(g0, h, *self);
                    assert(self.cur_insts() =~= g0.cur_insts() + binop_ops(*k));
                }
            },
        }
    }

    /// Appends the code of a binary operation `+`, `-`, `*` or `/`.
    fn gen_binary_expr(&mut self, ex: &ExpressionNode, locals: &NameMap<PVariable>) -> (r: Result<(), CodegenError>)
        requires
            old(self).wf(),
            locals.wf(),
            ex.kind is ADD || ex.kind is SUB || ex.kind is MUL || ex.kind is DIV,
        ensures
            gen_outcome(*old(self), *final(self), r, gen_expr_s(*ex, locals@, old(self).label as nat)),
        decreases ex, 0nat,
    {
        let ghost g0 = *self;
        let (lop, rop) = match &ex.kind {
            ExpressionNodeKind::ADD(l, r) => (l, r),
            ExpressionNodeKind::SUB(l, r) => (l, r),
            ExpressionNodeKind::MUL(l, r) => (l, r),
            ExpressionNodeKind::DIV(l, r) => (l, r),
            _ => vstd::pervasive::unreached(),
        };
        let r = self.gen_expr(lop, locals);
        if r.is_err() {
            return r;
        }
        let ghost g1 = *self;
        let r = self.gen_expr(rop, locals);
        if r.is_err() {
            return r;
        }
        let ghost g2 = *self;
        self.add_inst_to_cursym(Instruction::PopReg64(Reg64::RDI));
        let ghost g3 = *self;
        self.add_inst_to_cursym(Instruction::PopReg64(Reg64::RAX));
        let ghost g4 = *self;
        self.emit_binop(&ex.kind);
        let ghost ops = binop_ops(ex.kind);
        let ghost g5 = *self;
        self.add_inst_to_cursym(Instruction::PushReg64(Reg64::RAX));
        proof {
            lemma_same_trans(g0, g1, g2);
            lemma_same_trans(g0, g2, g3);
            lemma_same_trans(g0, g3, g4);
            lemma_same_trans(g0, g4, g5);
            lemma_same_trans(g0, g5, *self);
            assert(g5.cur_insts() =~= g4.cur_insts() + ops);
            let ca = gen_expr_s(**lop, locals@, g0.label as nat)->Ok_0.0;
            let la = gen_expr_s(**lop, locals@, g0.label as nat)->Ok_0.1;
            let cb = gen_expr_s(**rop, locals@, la)->Ok_0.0;
            assert(self.cur_insts() =~= g0.cur_insts() + (ca + cb + seq![
                InstV::PopReg64(Reg64::RDI),
                InstV::PopReg64(Reg64::RAX),
            ] + ops + seq![InstV::PushReg64(Reg64::RAX)]));
        }
        Ok(())
    }

    /// Appends an assignment: the address of `lval`, the value of `rval`, a store,
    /// and the value pushed again.
    fn gen_assignment_left_value(
        &mut self,
        lval: &ExpressionNode,
        rval: &ExpressionNode,
        locals: &NameMap<PVariable>,
    ) -> (r: Result<(), CodegenError>)
        requires
            old(self).wf(),
            locals.wf(),
        ensures
            gen_outcome(
                *old(self),
                *final(self),
                r,
                assign_ok(lvalue_s(*lval, locals@), gen_expr_s(*rval, locals@, old(self).label as nat)),
            ),
        decreases rval, 2nat,
    {
        let ghost g0 = *self;
        let r = self.gen_left_value(lval, locals);
        if r.is_err() {
            return r;
        }
        let ghost g1 = *self;
        let r = self.gen_expr(rval, locals);
        if r.is_err() {
            return r;
        }
        let ghost g2 = *self;
        self.add_inst_to_cursym(Instruction::PopReg64(Reg64::RDI));
        let ghost g3 = *self;
        self.add_inst_to_cursym(Instruction::PopReg64(Reg64::RAX));
        let ghost g4 = *self;
        self.add_inst_to_cursym(Instruction::MovRegToMem64 { src: Reg64::RDI, base: Reg64::RAX, offset: 0 });
        let ghost g5 = *self;
        self.add_inst_to_cursym(Instruction::PushReg64(Reg64::RDI));
        proof {
            lemma_same_trans(g0, g1, g2);
            lemma_same_trans(g0, g2, g3);
            lemma_same_trans(g0, g3, g4);
            lemma_same_trans(g0, g4, g5);
            lemma_same_trans(g0, g5, *self);
            let lv = lvalue_s(*lval, locals@)->Ok_0;
            let rc = gen_expr_s(*rval, locals@, g0.label as nat)->Ok_0.0;
            assert(self.cur_insts() =~= g0.cur_insts() + (lv + rc + seq![
                InstV::PopReg64(Reg64::RDI),
                InstV::PopReg64(Reg64::RAX),
                InstV::MovRegToMem64(Reg64::RDI, Reg64::RAX, 0),
                InstV::PushReg64(Reg64::RDI),
            ]));
        }
        Ok(())
    }
}


impl Generator {
    /// Appends the code of the statements of a list, one after another.
    fn gen_stmts(&mut self, sts: &Vec<StatementNode>, locals: &NameMap<PVariable>) -> (r: Result<(), CodegenError>)
        requires
            old(self).wf(),
            locals.wf(),
        ensures
            gen_outcome(*old(self), *final(self), r, gen_stmts_s(sts@, locals@, old(self).label as nat)),
        decreases sts, 0nat,
    {
        let ghost g0 = *self;
        let mut i: usize = 0;
        proof { assert(sts@.take(0) =~= Seq::<StatementNode>::empty()); }
        while i < sts.len()
            invariant
                i <= sts.len(),
                locals.wf(),
                gen_stmts_s(sts@.take(i as int), locals@, g0.label as nat) matches Ok((c, l)) && emitted(g0, *self, c, l),
                g0.wf(),
                g0 == *old(self),
            decreases sts.len() - i,
        {
            proof {
                assert(decreases_to!(sts => sts@[i as int]));
                assert(sts@.take(i + 1).drop_last() =~= sts@.take(i as int));
                assert(sts@.take(i + 1).last() == sts@[i as int]);
            }
            let ghost h = *self;
            let ghost c = gen_stmts_s(sts@.take(i as int), locals@, g0.label as nat)->Ok_0.0;
            let r = self.gen_insts_from_statement(&sts[i], locals);
            if r.is_err() {
                proof {
                    let l = gen_stmts_s(sts@.take(i as int), locals@, g0.label as nat)->Ok_0.1;
                    assert(l == h.label);
                    assert(gen_stmts_s(sts@.take(i + 1), locals@, g0.label as nat) == Err::<(Seq<InstV>, nat), GenErrV>(
                        gen_err_v(r->Err_0),
                    ));
                    lemma_gen_stmts_err(sts@, locals@, g0.label as nat, i + 1);
                }
                return r;
            }
            proof {
                lemma_same_trans(g0, h, *self);
                let c2 = gen_stmt_s(sts@[i as int], locals@, h.label as nat)->Ok_0.0;
                assert(self.cur_insts() =~= g0.cur_insts() + (c + c2));
            }
            i = i + 1;
        }
        proof { assert(sts@.take(sts.len() as int) =~= sts@); }
        Ok(())
    }

    /// Appends the code of an expression between two comments, with `pop_rax` adding
    /// a pop of the value into `%rax`.
    fn gen_wrapped_expr(
        &mut self,
        start: &str,
        expr: &ExpressionNode,
        pop_rax: bool,
        end: &str,
        locals: &NameMap<PVariable>,
    ) -> (r: Result<(), CodegenError>)
        requires
            old(self).wf(),
            locals.wf(),
        ensures
            gen_outcome(
                *old(self),
                *final(self),
                r,
                wrap(
                    start@,
                    gen_expr_s(*expr, locals@, old(self).label as nat),
                    if pop_rax { seq![InstV::PopReg64(Reg64::RAX)] } else { Seq::empty() },
                    end@,
                ),
            ),
        decreases expr, 2nat,
    {
        let ghost g0 = *self;
        self.gen_comment(start);
        let ghost g1 = *self;
        let r = self.gen_expr(expr, locals);
        if r.is_err() {
            return r;
        }
        let ghost g2 = *self;
        if pop_rax {
            self.add_inst_to_cursym(Instruction::PopReg64(Reg64::RAX));
        }
        let ghost g3 = *self;
        self.gen_comment(end);
        proof {
            lemma_same_trans(g0, g1, g2);
            if pop_rax {
                lemma_same_trans(g0, g2, g3);
            } else {
                assert(g3 == g2);
            }
            lemma_same_trans(g0, g3, *self);
            let c = gen_expr_s(*expr, locals@, g0.label as nat)->Ok_0.0;
            let tail = if pop_rax { seq![InstV::PopReg64(Reg64::RAX)] } else { Seq::<InstV>::empty() };
            assert(g3.cur_insts() =~= g2.cur_insts() + tail);
            assert(self.cur_insts() =~= g0.cur_insts() + (seq![InstV::Comment(start@)] + c + tail + seq![
                InstV::Comment(end@),
            ]));
        }
        Ok(())
    }

    /// `return expression;`: the value into `%rax`.
    fn gen_return_statement(&mut self, expr: &ExpressionNode, locals: &NameMap<PVariable>) -> (r: Result<
        (),
        CodegenError,
    >)
        requires
            old(self).wf(),
            locals.wf(),
        ensures
            gen_outcome(
                *old(self),
                *final(self),
                r,
                wrap(
                    "start return statement"@,
                    gen_expr_s(*expr, locals@, old(self).label as nat),
                    seq![InstV::PopReg64(Reg64::RAX)],
                    "end return statement"@,
                ),
            ),
        decreases expr, 3nat,
    {
        self.gen_wrapped_expr("start return statement", expr, true, "end return statement", locals)
    }

    /// `ifret expression;`
    fn gen_ifret_statement(&mut self, expr: &ExpressionNode, locals: &NameMap<PVariable>) -> (r: Result<
        (),
        CodegenError,
    >)
        requires
            old(self).wf(),
            locals.wf(),
        ensures
            gen_outcome(
                *old(self),
                *final(self),
                r,
                wrap(
                    "start ifret statement"@,
                    gen_expr_s(*expr, locals@, old(self).label as nat),
                    Seq::empty(),
                    "end ifret statement"@,
                ),
            ),
        decreases expr, 3nat,
    {
        self.gen_wrapped_expr("start ifret statement", expr, false, "end ifret statement", locals)
    }

    /// `expression;`
    fn gen_expression_statement(&mut self, expr: &ExpressionNode, locals: &NameMap<PVariable>) -> (r: Result<
        (),
        CodegenError,
    >)
        requires
            old(self).wf(),
            locals.wf(),
        ensures
            gen_outcome(
                *old(self),
                *final(self),
                r,
                wrap(
                    "start expression statement"@,
                    gen_expr_s(*expr, locals@, old(self).label as nat),
                    Seq::empty(),
                    "end expression statement"@,
                ),
            ),
        decreases expr, 3nat,
    {
        self.gen_wrapped_expr("start expression statement", expr, false, "end expression statement", locals)
    }

    /// `varinit name type = expression;`: an assignment.
    fn gen_varinit_statement(
        &mut self,
        ident: &ExpressionNode,
        expr: &ExpressionNode,
        locals: &NameMap<PVariable>,
    ) -> (r: Result<(), CodegenError>)
        requires
            old(self).wf(),
            locals.wf(),
        ensures
            gen_outcome(
                *old(self),
                *final(self),
                r,
                wrap(
                    "start varinit statement"@,
                    assign_ok(lvalue_s(*ident, locals@), gen_expr_s(*expr, locals@, old(self).label as nat)),
                    Seq::empty(),
                    "end varinit statement"@,
                ),
            ),
        decreases expr, 3nat,
    {
        let ghost g0 = *self;
        self.gen_comment("start varinit statement");
        let ghost g1 = *self;
        let r = self.gen_assignment_left_value(ident, expr, locals);
        if r.is_err() {
            return r;
        }
        let ghost g2 = *self;
        self.gen_comment("end varinit statement");
        proof {
            lemma_same_trans(g0, g1, g2);
            lemma_same_trans(g0, g2, *self);
            let c = assign_ok(lvalue_s(*ident, locals@), gen_expr_s(*expr, locals@, g0.label as nat))->Ok_0.0;
            assert(self.cur_insts() =~= g0.cur_insts() + (seq![InstV::Comment("start varinit statement"@)] + c
                + Seq::<InstV>::empty() + seq![InstV::Comment("end varinit statement"@)]));
        }
        Ok(())
    }

    /// Appends the code of a statement.
    fn gen_insts_from_statement(&mut self, st: &StatementNode, locals: &NameMap<PVariable>) -> (r: Result<
        (),
        CodegenError,
    >)
        requires
            old(self).wf(),
            locals.wf(),
        ensures
            gen_outcome(*old(self), *final(self), r, gen_stmt_s(*st, locals@, old(self).label as nat)),
        decreases st, 1nat,
    {
        let ghost g0 = *self;
        match &st.kind {
            StatementNodeKind::RETURN(expr) => self.gen_return_statement(expr, locals),
            StatementNodeKind::IFRET(expr) => self.gen_ifret_statement(expr, locals),
            StatementNodeKind::EXPR(expr) => self.gen_expression_statement(expr, locals),
            StatementNodeKind::VARDECL => {
                proof {
                    assert(g0.cur_insts() =~= g0.cur_insts() + Seq::<InstV>::empty());
                }
                Ok(())
            },
            StatementNodeKind::COUNTUP(_, _, _, _) => self.gen_countup_statement(st, locals),
            StatementNodeKind::ASM(args) => {
                let ghost lines = strings_view(args@);
                let mut i: usize = 0;
                proof {
                    assert(lines.take(0) =~= Seq::<Seq<char>>::empty());
                    assert(g0.cur_insts() =~= g0.cur_insts() + Seq::<InstV>::empty());
                }
                while i < args.len()
                    invariant
                        i <= args.len(),
                        lines == strings_view(args@),
                        asm_lines_s(lines.take(i as int)) matches Ok(c) && emitted(g0, *self, c, g0.label as nat),
                        g0.wf(),
                        g0 == *old(self),
                        st.kind == StatementNodeKind::ASM(*args),
                    decreases args.len() - i,
                {
                    proof {
                        assert(lines.take(i + 1).drop_last() =~= lines.take(i as int));
                        assert(lines.take(i + 1).last() == args@[i as int]@);
                    }
                    let inst = match gen_inst_from_asm(args[i].as_str()) {
                        Ok(inst) => inst,
                        Err(e) => {
                            proof {
                                assert(asm_lines_s(lines.take(i + 1)) == Err::<Seq<InstV>, GenErrV>(gen_err_v(e)));
                                lemma_asm_lines_err(lines, i + 1);
                            }
                            return Err(e);
                        },
                    };
                    let ghost h = *self;
                    let ghost c = asm_lines_s(lines.take(i as int))->Ok_0;
                    self.add_inst_to_cursym(inst);
                    proof {
                        lemma_same_trans(g0, h, *self);
                        assert(self.cur_insts() =~= g0.cur_insts() + c.push(inst@));
                    }
                    i = i + 1;
                }
                proof { assert(lines.take(args.len() as int) =~= lines); }
                Ok(())
            },
            StatementNodeKind::VARINIT(ident, expr) => self.gen_varinit_statement(ident, expr, locals),
        }
    }

    /// `countup name type from start to end { ... };`: the loop variable counts from
    /// the start to the end, the end excluded.
    fn gen_countup_statement(&mut self, st: &StatementNode, locals: &NameMap<PVariable>) -> (r: Result<
        (),
        CodegenError,
    >)
        requires
            old(self).wf(),
            locals.wf(),
            st.kind is COUNTUP,
        ensures
            gen_outcome(*old(self), *final(self), r, gen_stmt_s(*st, locals@, old(self).label as nat)),
        decreases st, 0nat,
    {
        let ghost g0 = *self;
        let (id, start, end, body) = match &st.kind {
            StatementNodeKind::COUNTUP(i, s, e, b) => (i, s, e, b),
            _ => vstd::pervasive::unreached(),
        };
        self.gen_comment("start countup statement");
        let ghost g1 = *self;
        let lnum = match self.consume_label() {
            Ok(n) => n,
            Err(e) => return Err(e),
        };
        let start_label = make_label(".Lstart", lnum as u64);
        let end_label = make_label(".Lend", lnum as u64);
        let ghost g2 = *self;
        let r = self.gen_assignment_left_value(id, start, locals);
        if r.is_err() {
            return r;
        }
        let ghost g3 = *self;
        self.add_inst_to_cursym(Instruction::Label(start_label.clone()));
        let ghost g4 = *self;
        let r = self.gen_expr(id, locals);
        if r.is_err() {
            return r;
        }
        let ghost g5 = *self;
        let r = self.gen_expr(end, locals);
        if r.is_err() {
            return r;
        }
        let ghost g6 = *self;
        self.add_inst_to_cursym(Instruction::PopReg64(Reg64::RDI));
        let ghost g7 = *self;
        self.add_inst_to_cursym(Instruction::PopReg64(Reg64::RAX));
        let ghost g8 = *self;
        self.add_inst_to_cursym(Instruction::CmpRegAndReg64 { lhs: Reg64::RDI, rhs: Reg64::RAX });
        let ghost g9 = *self;
        self.add_inst_to_cursym(Instruction::JumpEqualLabel(end_label.clone()));
        let ghost g10 = *self;
        let r = self.gen_stmts(body, locals);
        if r.is_err() {
            return r;
        }
        let ghost g11 = *self;
        let r = self.gen_left_value(id, locals);
        if r.is_err() {
            return r;
        }
        let ghost g12 = *self;
        self.add_inst_to_cursym(Instruction::PopReg64(Reg64::RAX));
        let ghost g13 = *self;
        self.add_inst_to_cursym(Instruction::MovMemToReg64 { base: Reg64::RAX, disp: 0, dst: Reg64::RDI });
        let ghost g14 = *self;
        self.add_inst_to_cursym(Instruction::IncReg64(Reg64::RDI));
        let ghost g15 = *self;
        self.add_inst_to_cursym(Instruction::MovRegToMem64 { src: Reg64::RDI, base: Reg64::RAX, offset: 0 });
        let ghost g16 = *self;
        self.add_inst_to_cursym(Instruction::JumpLabel(start_label));
        let ghost g17 = *self;
        self.add_inst_to_cursym(Instruction::Label(end_label));
        let ghost g18 = *self;
        self.gen_comment("end countup statement");
        proof {
            lemma_same_trans(g0, g1, g2);
            lemma_same_trans(g0, g2, g3);
            lemma_same_trans(g0, g3, g4);
            lemma_same_trans(g0, g4, g5);
            lemma_same_trans(g0, g5, g6);
            lemma_same_trans(g0, g6, g7);
            lemma_same_trans(g0, g7, g8);
            lemma_same_trans(g0, g8, g9);
            lemma_same_trans(g0, g9, g10);
            lemma_same_trans(g0, g10, g11);
            lemma_same_trans(g0, g11, g12);
            lemma_same_trans(g0, g12, g13);
            lemma_same_trans(g0, g13, g14);
            lemma_same_trans(g0, g14, g15);
            lemma_same_trans(g0, g15, g16);
            lemma_same_trans(g0, g16, g17);
            lemma_same_trans(g0, g17, g18);
            lemma_same_trans(g0, g18, *self);
            let lab = g0.label as nat;
            let ic = assign_ok(lvalue_s(*id, locals@), gen_expr_s(*start, locals@, lab + 1))->Ok_0.0;
            let l1 = assign_ok(lvalue_s(*id, locals@), gen_expr_s(*start, locals@, lab + 1))->Ok_0.1;
            let vc = gen_expr_s(*id, locals@, l1)->Ok_0.0;
            let l2 = gen_expr_s(*id, locals@, l1)->Ok_0.1;
            let ec = gen_expr_s(*end, locals@, l2)->Ok_0.0;
            let l3 = gen_expr_s(*end, locals@, l2)->Ok_0.1;
            let bc = gen_stmts_s(body@, locals@, l3)->Ok_0.0;
            let lv = lvalue_s(*id, locals@)->Ok_0;
            let sl = label_text(".Lstart"@, lab);
            let el = label_text(".Lend"@, lab);
            assert(self.cur_insts() =~= g0.cur_insts() + (seq![InstV::Comment("start countup statement"@)] + ic
                + seq![InstV::Label(sl)] + vc + ec + seq![
                InstV::PopReg64(Reg64::RDI),
                InstV::PopReg64(Reg64::RAX),
                InstV::CmpRegAndReg64(Reg64::RDI, Reg64::RAX),
                InstV::JumpEqualLabel(el),
            ] + bc + lv + seq![
                InstV::PopReg64(Reg64::RAX),
                InstV::MovMemToReg64(Reg64::RAX, 0, Reg64::RDI),
                InstV::IncReg64(Reg64::RDI),
                InstV::MovRegToMem64(Reg64::RDI, Reg64::RAX, 0),
                InstV::JumpLabel(sl),
                InstV::Label(el),
                InstV::Comment("end countup statement"@),
            ]));
        }
        Ok(())
    }
}


impl Generator {
    /// Saves `%rbp`, sets the frame, and makes room for `offset` bytes of local variables.
    fn gen_function_prologue(&mut self, offset: usize)
        requires
            old(self).wf(),
            offset + 7 <= usize::MAX,
        ensures
            emitted(*old(self), *final(self), prologue_s(offset), old(self).label as nat),
    {
        let ghost g0 = *self;
        self.add_inst_to_cursym(Instruction::PushReg64(Reg64::RBP));
        let ghost g1 = *self;
        self.add_inst_to_cursym(Instruction::MovRegToReg64 { src: Reg64::RSP, dst: Reg64::RBP });
        let ghost g2 = *self;
        if offset != 0 {
            let amount = (((offset + 7) / 8) * 8) as u64;
            self.add_inst_to_cursym(Instruction::SubRegByUint64 { amount, dst: Reg64::RSP });
            proof { lemma_same_trans(g1, g2, *self); }
        }
        proof {
            lemma_same_trans(g0, g1, *self);
            assert(self.cur_insts() =~= g0.cur_insts() + prologue_s(offset));
        }
    }

    /// Restores the frame and returns.
    fn gen_function_epilogue(&mut self)
        requires
            old(self).wf(),
        ensures
            emitted(*old(self), *final(self), epilogue_s(), old(self).label as nat),
    {
        let ghost g0 = *self;
        self.add_inst_to_cursym(Instruction::MovRegToReg64 { src: Reg64::RBP, dst: Reg64::RSP });
        let ghost g1 = *self;
        self.add_inst_to_cursym(Instruction::PopReg64(Reg64::RBP));
        let ghost g2 = *self;
        self.add_inst_to_cursym(Instruction::Ret);
        proof {
            lemma_same_trans(g0, g1, g2);
            lemma_same_trans(g0, g2, *self);
            assert(self.cur_insts() =~= g0.cur_insts() + epilogue_s());
        }
    }

    /// Adds the symbol of a function with its code and its string literals.
    pub fn gen_symbol_from_func(&mut self, func: &PFunction) -> (r: Result<(), CodegenError>)
        requires
            func.wf(),
            func.stack_offset + 7 <= usize::MAX,
        ensures
            match fn_code_s(*func, old(self).label as nat) {
                Ok(code) => {
                    &&& r is Ok
                    &&& final(self).wf()
                    &&& final(self).assembly.file_path == old(self).assembly.file_path
                    &&& final(self).assembly.symbols@.len() == old(self).assembly.symbols@.len() + 1
                    &&& forall|j: int| 0 <= j < old(self).assembly.symbols@.len() ==> #[trigger] final(self).assembly.symbols@[j]
                        == old(self).assembly.symbols@[j]
                    &&& final(self).sym_idx == old(self).assembly.symbols@.len()
                    &&& final(self).assembly.symbols@.last().name@ == func.name@
                    &&& insts_v(final(self).assembly.symbols@.last().insts@) == code
                    &&& sym_strings_v(final(self).assembly.symbols@.last().strings@) == strings_of(*func)
                },
                Err(e) => r matches Err(x) && gen_err_v(x) == e,
            },
    {
        let symbol_name = func.name.clone();
        let is_main_symbol = crate::name_map::compare_strings(symbol_name.as_str(), "main") == 0;
        let ghost s0 = self.assembly.symbols@;
        self.add_symbol(Symbol { name: symbol_name, insts: Vec::new(), strings: Vec::new() });
        let ghost g0 = *self;
        proof { assert(g0.cur_insts() =~= Seq::<InstV>::empty()); }
        self.gen_function_prologue(func.stack_offset);
        let ghost g1 = *self;
        let args = &func.args;
        let ghost names = strings_view(args@);
        let mut i: usize = 0;
        proof { assert(g1.cur_insts() =~= prologue_s(func.stack_offset) + Seq::<InstV>::empty()); }
        while i < args.len()
            invariant
                i <= args.len(),
                *args == func.args,
                names == strings_view(args@),
                func.wf(),
                arg_stores_s(names, func.locals@, i as int) matches Ok(c) && emitted(
                    g1,
                    *self,
                    c,
                    g1.label as nat,
                ),
                g1.cur_insts() == prologue_s(func.stack_offset),
                g1.wf(),
            decreases args.len() - i,
        {
            let ghost c = arg_stores_s(names, func.locals@, i as int)->Ok_0;
            if i >= 6 {
                proof { lemma_arg_stores_err(names, func.locals@, i as int + 1, args.len() as int); }
                return Err(CodegenError::TooManyArguments);
            }
            let arg_reg = Reg64::caller_reg64(i);
            match func.locals.get(args[i].as_str()) {
                Some(pvar) => {
                    let ghost h = *self;
                    self.add_inst_to_cursym(Instruction::MovRegToMem64 {
                        src: arg_reg,
                        base: Reg64::RBP,
                        offset: pvar.get_stack_offset(),
                    });
                    proof { lemma_same_trans(g1, h, *self); }
                },
                None => {
                    proof { lemma_arg_stores_err(names, func.locals@, i as int + 1, args.len() as int); }
                    return Err(CodegenError::UndefinedVariable(args[i].clone()));
                },
            }
            i = i + 1;
        }
        let ghost g2 = *self;
        let ghost ac = arg_stores_s(names, func.locals@, args@.len() as int)->Ok_0;
        let r = self.gen_stmts(&func.stmts, &func.locals);
        if r.is_err() {
            return r;
        }
        let ghost g3 = *self;
        if is_main_symbol {
            self.add_inst_to_cursym(Instruction::MovImmToReg64 { imm: 0, dst: Reg64::RAX });
            proof { lemma_same_trans(g2, g3, *self); }
        }
        let ghost g4 = *self;
        self.gen_function_epilogue();
        proof {
            lemma_same_trans(g0, g1, g2);
            lemma_same_trans(g0, g2, g3);
            lemma_same_trans(g0, g3, g4);
            lemma_same_trans(g0, g4, *self);
            let bc = gen_stmts_s(func.stmts@, func.locals@, g2.label as nat)->Ok_0.0;
            let mc = if func.name@ == "main"@ {
                seq![InstV::MovImmToReg64(0, Reg64::RAX)]
            } else {
                Seq::<InstV>::empty()
            };
            assert(g4.cur_insts() =~= g3.cur_insts() + mc);
            assert(self.cur_insts() =~= prologue_s(func.stack_offset) + ac + bc + mc + epilogue_s());
        }
        let ghost g5 = *self;
        let strings = &func.strings;
        proof { strings.lemma_values_len(); }
        let n = strings.len();
        let mut j: usize = 0;
        proof { assert(sym_strings_v(self.assembly.symbols@[self.sym_idx as int].strings@) =~= strings_of(*func).take(0)); }
        while j < n
            invariant
                j <= n,
                n == strings.names().len(),
                strings.values().len() == n,
                *strings == func.strings,
                strings.wf(),
                self.wf(),
                self.sym_idx == g5.sym_idx,
                self.assembly.file_path == g5.assembly.file_path,
                self.assembly.symbols@.len() == g5.assembly.symbols@.len(),
                forall|k: int| 0 <= k < g5.assembly.symbols@.len() && k != g5.sym_idx ==> #[trigger] self.assembly.symbols@[k]
                    == g5.assembly.symbols@[k],
                self.assembly.symbols@[self.sym_idx as int].name == g5.assembly.symbols@[g5.sym_idx as int].name,
                self.assembly.symbols@[self.sym_idx as int].insts == g5.assembly.symbols@[g5.sym_idx as int].insts,
                sym_strings_v(self.assembly.symbols@[self.sym_idx as int].strings@) == strings_of(*func).take(j as int),
            decreases n - j,
        {
            let (contents, hash) = strings.entry_at(j);
            let ghost before = self.assembly.symbols@[self.sym_idx as int].strings@;
            let c = contents.clone();
            self.add_string_to_cursym(c, *hash);
            proof {
                assert(sym_strings_v(before.push((c, *hash))) =~= sym_strings_v(before).push((contents@, *hash)));
                assert(strings_of(*func).take(j + 1) =~= strings_of(*func).take(j as int).push((contents@, *hash)));
            }
            j = j + 1;
        }
        proof {
            assert(strings_of(*func).take(n as int) =~= strings_of(*func));
            assert(self.sym_idx == s0.len());
            assert forall|k: int| 0 <= k < s0.len() implies #[trigger] self.assembly.symbols@[k] == s0[k] by {
                assert(g0.assembly.symbols@[k] == s0[k]);
            }
        }
        Ok(())
    }
}

proof fn lemma_arg_stores_err(args: Seq<Seq<char>>, locals: Map<Seq<char>, PVariable>, k: int, n: int)
    requires
        1 <= k <= n,
        arg_stores_s(args, locals, k) is Err,
    ensures
        arg_stores_s(args, locals, n) == arg_stores_s(args, locals, k),
    decreases n - k,
{
    if k < n {
        lemma_arg_stores_err(args, locals, k + 1, n);
    }
}

proof fn lemma_codegen_len(fs: Seq<PFunction>, n: int)
    requires
        n >= 0,
    ensures
        codegen_s(fs, n) matches Ok(cs) ==> cs.len() == n,
    decreases n,
{
    if n > 0 {
        lemma_codegen_len(fs, n - 1);
    }
}

proof fn lemma_codegen_err(fs: Seq<PFunction>, k: int, n: int)
    requires
        1 <= k <= n,
        codegen_s(fs, k) is Err,
    ensures
        codegen_s(fs, n) == codegen_s(fs, k),
    decreases n - k,
{
    if k < n {
        lemma_codegen_err(fs, k + 1, n);
    }
}

/// Generates the x86-64 assembly of the functions, one symbol each in name order,
/// every function's labels numbered from one.
pub fn codegen(build_option: &crate::option::BuildOption, functions: &NameMap<PFunction>) -> (r: Result<
    AssemblyFile,
    CodegenError,
>)
    requires
        functions.wf(),
        crate::root::functions_wf(functions@),
        forall|k: Seq<char>| #[trigger] functions@.contains_key(k) ==> functions@[k].stack_offset + 7 <= usize::MAX,
    ensures
        match codegen_s(functions.values(), functions.names().len() as int) {
            Ok(codes) => r matches Ok(a) && a.file_path@ == "asm.s"@ && a.symbols@.len() == codes.len() && forall|i: int|
                0 <= i < codes.len() ==> {
                    &&& (#[trigger] a.symbols@[i]).name@ == functions.values()[i].name@
                    &&& insts_v(a.symbols@[i].insts@) == codes[i]
                    &&& sym_strings_v(a.symbols@[i].strings@) == strings_of(functions.values()[i])
                },
            Err(e) => r matches Err(x) && gen_err_v(x) == e,
        },
{
    let mut generator = Generator::new(crate::text::str_to_string("asm.s"));
    proof {
        functions.lemma_values_len();
        functions.lemma_names_cover();
    }
    let ghost fs = functions.values();
    let n = functions.len();
    let mut i: usize = 0;
    while i < n
        invariant
            i <= n,
            n == functions.names().len(),
            fs == functions.values(),
            fs.len() == n,
            functions.wf(),
            crate::root::functions_wf(functions@),
            forall|k: Seq<char>| #[trigger] functions@.contains_key(k) ==> functions@[k].stack_offset + 7 <= usize::MAX,
            forall|j: int| 0 <= j < n ==> #[trigger] functions@.contains_key(functions.names()[j])
                && functions@[functions.names()[j]] == fs[j],
            generator.label == 1,
            generator.assembly.file_path@ == "asm.s"@,
            codegen_s(fs, i as int) matches Ok(codes) && generator.assembly.symbols@.len() == codes.len() && forall|j: int|
                0 <= j < codes.len() ==> {
                    &&& (#[trigger] generator.assembly.symbols@[j]).name@ == fs[j].name@
                    &&& insts_v(generator.assembly.symbols@[j].insts@) == codes[j]
                    &&& sym_strings_v(generator.assembly.symbols@[j].strings@) == strings_of(fs[j])
                },
        decreases n - i,
    {
        let (_name, func) = functions.entry_at(i);
        assert(func.wf());
        let ghost before = generator;
        let r = generator.gen_symbol_from_func(func);
        if r.is_err() {
            proof { lemma_codegen_err(fs, i as int + 1, n as int); }
            return Err(r.unwrap_err());
        }
        proof {
            lemma_codegen_len(fs, i as int);
            let codes = codegen_s(fs, i as int)->Ok_0;
            let c = fn_code_s(fs[i as int], 1)->Ok_0;
            let codes2 = codes.push(c);
            assert(codegen_s(fs, i + 1) == Ok::<Seq<Seq<InstV>>, GenErrV>(codes2));
            assert forall|j: int| 0 <= j < codes2.len() implies {
                &&& (#[trigger] generator.assembly.symbols@[j]).name@ == fs[j].name@
                &&& insts_v(generator.assembly.symbols@[j].insts@) == codes2[j]
                &&& sym_strings_v(generator.assembly.symbols@[j].strings@) == strings_of(fs[j])
            } by {
                if j < codes.len() {
                    assert(generator.assembly.symbols@[j] == before.assembly.symbols@[j]);
                    assert(before.assembly.symbols@[j].name@ == fs[j].name@);
                    assert(codes2[j] == codes[j]);
                } else {
                    assert(j == i);
                    assert(generator.assembly.symbols@[j] == generator.assembly.symbols@.last());
                    assert(*func == fs[j]);
                    assert(codes2[j] == c);
                    assert(insts_v(generator.assembly.symbols@.last().insts@) == c);
                }
            }
        }
        generator.set_label(1);
        i = i + 1;
    }
    Ok(generator.give_assembly())
}

} // verus!
