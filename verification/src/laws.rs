use vstd::prelude::*;

use crate::alloc_frame::frame_offset;
use crate::ast::{ExpressionNode, ExpressionNodeKind, StatementNode, StatementNodeKind};
use crate::codegen::{assign_ok, gen_expr_s, gen_exprs_s, gen_stmt_s, gen_stmts_s, lvalue_s};
use crate::llvm_codegen::{gen_fn_s, gen_fns_s, gen_params_s, gen_stmt_s as llvm_stmt_s, gen_stmts_s as llvm_stmts_s, gen_value_s, proto_args_s};
use crate::llvm_ir::{LFunctionV, LInstV};
use crate::lexer_spec::{ignored, spec_lex, spec_scan, ScanStep};
use crate::pvariable::PVariable;
use crate::token::{TokenKind, TokenKindV};
use crate::chars::{in_class, lemma_span_is, CharClass};
use crate::text::{decimal_text, decimal_value, is_digit, lemma_decimal_text};
use crate::type_check::{check_expr, resolve_expr};
use crate::tld::TopLevelDecl;
use crate::x64::{InstV, Reg64};
use crate::x64_text::{inst_text, reg_text};

verus! {

/// The tokens of a text hold no blank and no newline, and an EOF token only at the end.
pub proof fn law_lex_tokens(rest: Seq<char>, row: int, col: int)
    ensures
        forall|i: int| 0 <= i < spec_lex(rest, row, col).tokens.len() ==> !ignored(
            #[trigger] spec_lex(rest, row, col).tokens[i].0,
        ),
        forall|i: int| 0 <= i < spec_lex(rest, row, col).tokens.len() - 1 ==> (#[trigger] spec_lex(
            rest,
            row,
            col,
        ).tokens[i]).0 != TokenKindV::Other(TokenKind::EOF),
    decreases rest.len(),
{
    match spec_scan(rest, row, col) {
        ScanStep::Emit { kind, row: tr, col: tc, rest: rest2, next_row, next_col } => {
            if kind != TokenKindV::Other(TokenKind::EOF) && rest2.len() < rest.len() {
                law_lex_tokens(rest2, next_row, next_col);
                let after = spec_lex(rest2, next_row, next_col);
                if !ignored(kind) {
                    let ts = seq![(kind, tr, tc)] + after.tokens;
                    assert forall|i: int| 0 <= i < ts.len() implies !ignored(#[trigger] ts[i].0) by {
                        if i > 0 {
                            assert(ts[i] == after.tokens[i - 1]);
                        }
                    }
                    assert forall|i: int| 0 <= i < ts.len() - 1 implies (#[trigger] ts[i]).0 != TokenKindV::Other(
                        TokenKind::EOF,
                    ) by {
                        if i > 0 {
                            assert(ts[i] == after.tokens[i - 1]);
                        }
                    }
                }
            } else if kind == TokenKindV::Other(TokenKind::EOF) {
                assert(!ignored(kind));
            }
        },
        _ => {},
    }
}

/// Generating the code of an expression never moves the label number back.
pub proof fn law_expr_labels_increase(e: ExpressionNode, locals: Map<Seq<char>, PVariable>, label: nat)
    ensures
        gen_expr_s(e, locals, label) matches Ok((_, l)) ==> label <= l,
    decreases e,
{
    match e.kind {
        ExpressionNodeKind::CALL(_, args) => {
            law_exprs_labels_increase(args@, locals, label);
        },
        ExpressionNodeKind::NEG(x) => {
            law_expr_labels_increase(*x, locals, label);
        },
        ExpressionNodeKind::ADD(a, b) | ExpressionNodeKind::SUB(a, b) | ExpressionNodeKind::MUL(a, b)
        | ExpressionNodeKind::DIV(a, b) => {
            law_expr_labels_increase(*a, locals, label);
            if let Ok((_, la)) = gen_expr_s(*a, locals, label) {
                law_expr_labels_increase(*b, locals, la);
            }
        },
        ExpressionNodeKind::ASSIGN(_, r) => {
            law_expr_labels_increase(*r, locals, label);
        },
        ExpressionNodeKind::IF(c, body) => {
            law_expr_labels_increase(*c, locals, label);
            if let Ok((_, l1)) = gen_expr_s(*c, locals, label) {
                law_stmts_labels_increase(body@, locals, l1 + 1);
            }
        },
        ExpressionNodeKind::IFELSE(c, body, alter) => {
            law_expr_labels_increase(*c, locals, label);
            if let Ok((_, l1)) = gen_expr_s(*c, locals, label) {
                law_stmts_labels_increase(body@, locals, l1 + 1);
                if let Ok((_, l2)) = gen_stmts_s(body@, locals, l1 + 1) {
                    law_stmts_labels_increase(alter@, locals, l2);
                }
            }
        },
        _ => {},
    }
}

/// Generating the code of expressions one after another never moves the label number back.
pub proof fn law_exprs_labels_increase(es: Seq<ExpressionNode>, locals: Map<Seq<char>, PVariable>, label: nat)
    ensures
        gen_exprs_s(es, locals, label) matches Ok((_, l)) ==> label <= l,
    decreases es,
{
    if es.len() > 0 {
        law_exprs_labels_increase(es.drop_last(), locals, label);
        if let Ok((_, l)) = gen_exprs_s(es.drop_last(), locals, label) {
            law_expr_labels_increase(es.last(), locals, l);
        }
    }
}

/// Generating the code of a statement never moves the label number back.
pub proof fn law_stmt_labels_increase(st: StatementNode, locals: Map<Seq<char>, PVariable>, label: nat)
    ensures
        gen_stmt_s(st, locals, label) matches Ok((_, l)) ==> label <= l,
    decreases st,
{
    match st.kind {
        StatementNodeKind::RETURN(e) | StatementNodeKind::IFRET(e) | StatementNodeKind::EXPR(e) => {
            law_expr_labels_increase(e, locals, label);
        },
        StatementNodeKind::COUNTUP(id, start, end, body) => {
            law_expr_labels_increase(start, locals, label + 1);
            if let Ok((_, l1)) = assign_ok(lvalue_s(id, locals), gen_expr_s(start, locals, label + 1)) {
                law_expr_labels_increase(id, locals, l1);
                if let Ok((_, l2)) = gen_expr_s(id, locals, l1) {
                    law_expr_labels_increase(end, locals, l2);
                    if let Ok((_, l3)) = gen_expr_s(end, locals, l2) {
                        law_stmts_labels_increase(body@, locals, l3);
                    }
                }
            }
        },
        StatementNodeKind::VARINIT(_, e) => {
            law_expr_labels_increase(e, locals, label);
        },
        _ => {},
    }
}

/// Generating the code of statements one after another never moves the label number back.
pub proof fn law_stmts_labels_increase(sts: Seq<StatementNode>, locals: Map<Seq<char>, PVariable>, label: nat)
    ensures
        gen_stmts_s(sts, locals, label) matches Ok((_, l)) ==> label <= l,
    decreases sts,
{
    if sts.len() > 0 {
        law_stmts_labels_increase(sts.drop_last(), locals, label);
        if let Ok((_, l)) = gen_stmts_s(sts.drop_last(), locals, label) {
            law_stmt_labels_increase(sts.last(), locals, l);
        }
    }
}

/// The frame slots of the variables (the `i`-th one ending at the frame offset after
/// `i + 1` variables) lie one after another within the frame: the `i`-th slot begins
/// where the one before ends, and none ends past the frame.
pub proof fn law_frame_slots(vals: Seq<PVariable>, i: int, j: int)
    requires
        0 <= i < j < vals.len(),
    ensures
        frame_offset(vals, i + 1) - vals[i].ptype.size == frame_offset(vals, i),
        frame_offset(vals, i + 1) <= frame_offset(vals, j + 1) - vals[j].ptype.size,
        frame_offset(vals, j + 1) <= frame_offset(vals, vals.len() as int),
    decreases vals.len() - j,
{
    lemma_frame_monotone(vals, i + 1, j);
    lemma_frame_monotone(vals, j + 1, vals.len() as int);
}

proof fn lemma_frame_monotone(vals: Seq<PVariable>, a: int, b: int)
    requires
        0 <= a <= b <= vals.len(),
    ensures
        frame_offset(vals, a) <= frame_offset(vals, b),
    decreases b - a,
{
    if a < b {
        lemma_frame_monotone(vals, a, b - 1);
    }
}

/// The register an instruction writes, if any.
pub open spec fn inst_dst(i: LInstV) -> Option<usize> {
    match i {
        LInstV::Alloca(_, _, d) => Some(d),
        LInstV::Call(_, _, _, d) => d,
        LInstV::RetVoid => None,
    }
}

/// Every register that the instructions write lies in `[lo, hi)`, and a later
/// instruction writes a higher register than an earlier one.
pub open spec fn fresh_regs(c: Seq<LInstV>, lo: nat, hi: nat) -> bool {
    &&& forall|i: int| #![trigger c[i]] 0 <= i < c.len() && inst_dst(c[i]) is Some ==> lo <= inst_dst(c[i])->0 < hi
    &&& forall|i: int, j: int|
        #![trigger c[i], c[j]]
        0 <= i < j < c.len() && inst_dst(c[i]) is Some && inst_dst(c[j]) is Some ==> inst_dst(c[i])->0 < inst_dst(
            c[j],
        )->0
}

proof fn lemma_fresh_concat(a: Seq<LInstV>, b: Seq<LInstV>, lo: nat, mid: nat, hi: nat)
    requires
        fresh_regs(a, lo, mid),
        fresh_regs(b, mid, hi),
        lo <= mid <= hi,
    ensures
        fresh_regs(a + b, lo, hi),
{
    let c = a + b;
    assert forall|i: int| #![trigger c[i]] 0 <= i < c.len() && inst_dst(c[i]) is Some implies lo <= inst_dst(
        c[i],
    )->0 < hi by {
        if i < a.len() {
            assert(c[i] == a[i]);
        } else {
            assert(c[i] == b[i - a.len()]);
        }
    }
    assert forall|i: int, j: int|
        #![trigger c[i], c[j]]
        0 <= i < j < c.len() && inst_dst(c[i]) is Some && inst_dst(c[j]) is Some implies inst_dst(c[i])->0
        < inst_dst(c[j])->0 by {
        if j < a.len() {
            assert(c[i] == a[i] && c[j] == a[j]);
        } else if i >= a.len() {
            assert(c[i] == b[i - a.len()] && c[j] == b[j - a.len()]);
        } else {
            assert(c[i] == a[i] && c[j] == b[j - a.len()]);
        }
    }
}

proof fn lemma_fresh_push(a: Seq<LInstV>, x: LInstV, lo: nat, mid: nat, hi: nat)
    requires
        fresh_regs(a, lo, mid),
        inst_dst(x) is Some ==> mid <= inst_dst(x)->0 < hi,
        lo <= mid <= hi,
    ensures
        fresh_regs(a.push(x), lo, hi),
{
    lemma_fresh_concat(a, seq![x], lo, mid, hi);
    assert(a + seq![x] =~= a.push(x));
}

proof fn lemma_fresh_empty(lo: nat, hi: nat)
    ensures
        fresh_regs(Seq::empty(), lo, hi),
{
}

/// The LLVM code of an expression writes each register once: the registers it writes
/// are new, numbered upward from the counter it started with, and the counter never
/// goes back.
pub proof fn law_llvm_value_regs(e: ExpressionNode, funcs: Map<Seq<char>, crate::pfunction::PFunction>, label: nat)
    ensures
        gen_value_s(e, funcs, label) matches Ok((c, _, _, l)) ==> label <= l && fresh_regs(c, label, l),
    decreases e,
{
    match e.kind {
        ExpressionNodeKind::CALL(id, args) => {
            let name = id.names().last();
            if funcs.contains_key(name) {
                law_llvm_params_regs(args@, crate::ident::strings_view(funcs[name].args@), funcs, label);
                if let Ok((c, _, l)) = gen_params_s(args@, crate::ident::strings_view(funcs[name].args@), funcs, label) {
                    if l < usize::MAX {
                        if let Some(rt) = crate::llvm_codegen::llvm_type_s(funcs[name].return_type) {
                            let ps = gen_params_s(args@, crate::ident::strings_view(funcs[name].args@), funcs, label)->Ok_0.1;
                            lemma_fresh_push(c, LInstV::Call(rt, name, ps, Some(l as usize)), label, l, l + 1);
                        }
                    }
                }
            }
        },
        _ => {
            lemma_fresh_empty(label, label);
        },
    }
}

/// The same of the arguments of a call.
pub proof fn law_llvm_params_regs(
    args: Seq<ExpressionNode>,
    names: Seq<Seq<char>>,
    funcs: Map<Seq<char>, crate::pfunction::PFunction>,
    label: nat,
)
    ensures
        gen_params_s(args, names, funcs, label) matches Ok((c, _, l)) ==> label <= l && fresh_regs(c, label, l),
    decreases args,
{
    if args.len() == 0 {
        lemma_fresh_empty(label, label);
    } else {
        law_llvm_params_regs(args.drop_last(), names, funcs, label);
        if let Ok((c, _, l)) = gen_params_s(args.drop_last(), names, funcs, label) {
            law_llvm_value_regs(args.last(), funcs, l);
            if let Ok((c2, _, _, l2)) = gen_value_s(args.last(), funcs, l) {
                lemma_fresh_concat(c, c2, label, l, l2);
            }
        }
    }
}

/// The same of statements.
pub proof fn law_llvm_stmts_regs(sts: Seq<StatementNode>, funcs: Map<Seq<char>, crate::pfunction::PFunction>, label: nat)
    ensures
        llvm_stmts_s(sts, funcs, label) matches Ok((c, l)) ==> label <= l && fresh_regs(c, label, l),
    decreases sts.len(),
{
    if sts.len() == 0 {
        lemma_fresh_empty(label, label);
    } else {
        law_llvm_stmts_regs(sts.drop_last(), funcs, label);
        if let Ok((c, l)) = llvm_stmts_s(sts.drop_last(), funcs, label) {
            match sts.last().kind {
                StatementNodeKind::EXPR(e) => law_llvm_value_regs(e, funcs, l),
                _ => lemma_fresh_empty(l, l),
            }
            if let Ok((c2, l2)) = llvm_stmt_s(sts.last(), funcs, l) {
                lemma_fresh_concat(c, c2, label, l, l2);
            }
        }
    }
}

/// The same of the stack slots of a function's arguments.
pub proof fn law_llvm_proto_regs(args: Seq<Seq<char>>, locals: Map<Seq<char>, PVariable>, label: nat)
    ensures
        proto_args_s(args, locals, label) matches Ok((_, c, l)) ==> label <= l && fresh_regs(c, label, l),
    decreases args.len(),
{
    if args.len() == 0 {
        lemma_fresh_empty(label, label);
    } else {
        law_llvm_proto_regs(args.drop_last(), locals, label);
        if let Ok((_, c, l)) = proto_args_s(args.drop_last(), locals, label) {
            let a = args.last();
            if locals.contains_key(a) && l < usize::MAX {
                if let Some(t) = crate::llvm_codegen::llvm_type_s(locals[a].ptype) {
                    lemma_fresh_push(c, LInstV::Alloca(t, 8, l as usize), label, l, l + 1);
                }
            }
        }
    }
}

/// The same of a whole function: its entry block writes each register once, and the
/// block is never empty.
pub proof fn law_llvm_fn_regs(f: crate::pfunction::PFunction, funcs: Map<Seq<char>, crate::pfunction::PFunction>, label: nat)
    ensures
        gen_fn_s(f, funcs, label) matches Ok((fv, l)) ==> label <= l && fresh_regs(fv.insts, label, l)
            && fv.insts.len() > 0,
{
    law_llvm_proto_regs(crate::ident::strings_view(f.args@), f.locals@, label);
    if let Ok((_, c, l)) = proto_args_s(crate::ident::strings_view(f.args@), f.locals@, label) {
        law_llvm_stmts_regs(f.stmts@, funcs, l);
        if let Ok((c2, l2)) = llvm_stmts_s(f.stmts@, funcs, l) {
            lemma_fresh_concat(c, c2, label, l, l2);
            let e = crate::llvm_codegen::empty_body_s();
            assert(inst_dst(e[0]) is None && inst_dst(e[1]) is None);
        }
    }
}

/// The instructions of functions, one function after another.
pub open spec fn all_insts(fs: Seq<LFunctionV>) -> Seq<LInstV>
    decreases fs.len(),
{
    if fs.len() == 0 {
        Seq::empty()
    } else {
        all_insts(fs.drop_last()) + fs.last().insts
    }
}

/// A module writes each register once across all its functions: register numbers
/// run upward from 0 through the functions in order.
pub proof fn law_llvm_module_regs(fs: Seq<crate::pfunction::PFunction>, funcs: Map<Seq<char>, crate::pfunction::PFunction>, n: int)
    ensures
        gen_fns_s(fs, funcs, n) matches Ok((done, l)) ==> fresh_regs(all_insts(done), 0, l),
    decreases n,
{
    if n <= 0 {
        lemma_fresh_empty(0, 0);
    } else {
        law_llvm_module_regs(fs, funcs, n - 1);
        if let Ok((done, l)) = gen_fns_s(fs, funcs, n - 1) {
            law_llvm_fn_regs(fs[n - 1], funcs, l);
            if let Ok((fv, l2)) = gen_fn_s(fs[n - 1], funcs, l) {
                lemma_fresh_concat(all_insts(done), fv.insts, 0, l, l2);
                assert(done.push(fv).drop_last() =~= done);
            }
        }
    }
}

/// `main` stands among the functions from the `i`-th on, with no arguments and
/// returning `Noreturn`.
pub open spec fn good_main_from(names: Seq<Seq<char>>, funcs: Seq<crate::pfunction::PFunction>, i: int) -> bool {
    exists|j: int|
        #![trigger names[j]]
        i <= j < names.len() && names[j] == "main"@ && funcs[j].args@.len() == 0
            && funcs[j].return_type.kind is NORETURN
}

proof fn lemma_checked_from(
    names: Seq<Seq<char>>,
    funcs: Seq<crate::pfunction::PFunction>,
    tld: Map<Seq<char>, crate::tld::TopLevelDecl>,
    i: int,
    seen: bool,
)
    requires
        0 <= i,
        names.len() == funcs.len(),
        crate::type_check::program_outcome(names, funcs, tld, i, seen) == crate::type_check::OutcomeV::Checked,
    ensures
        seen || good_main_from(names, funcs, i),
    decreases names.len() - i,
{
    if i < names.len() {
        let is_main = names[i] == "main"@;
        lemma_checked_from(names, funcs, tld, i + 1, seen || is_main);
        if is_main && !seen {
            assert(names[i] == "main"@);
        }
        if !seen && !is_main && good_main_from(names, funcs, i + 1) {
            let j = choose|j: int|
                #![trigger names[j]]
                i + 1 <= j < names.len() && names[j] == "main"@ && funcs[j].args@.len() == 0
                    && funcs[j].return_type.kind is NORETURN;
            assert(names[j] == "main"@);
        }
    }
}

/// A program whose type check succeeds has a `main` that takes no arguments and
/// returns `Noreturn`.
pub proof fn law_checked_program_has_main(
    names: Seq<Seq<char>>,
    funcs: Seq<crate::pfunction::PFunction>,
    tld: Map<Seq<char>, crate::tld::TopLevelDecl>,
)
    requires
        names.len() == funcs.len(),
        crate::type_check::program_outcome(names, funcs, tld, 0, false) == crate::type_check::OutcomeV::Checked,
    ensures
        good_main_from(names, funcs, 0),
{
    lemma_checked_from(names, funcs, tld, 0, false);
}

/// A binary arithmetic expression gets a type only where both its operands resolve
/// to one and the same type, and then it has that type (with no error of its own
/// where neither operand stopped the check). Where both operands resolve
/// to types and the types differ, checking records one more error, that the
/// operands of the operation differ in type, at the expression, and gives it no type.
pub proof fn law_binary_operands_agree(
    fname: Seq<char>,
    e: ExpressionNode,
    l: ExpressionNode,
    r: ExpressionNode,
    tld: Map<Seq<char>, TopLevelDecl>,
    locals: Map<Seq<char>, PVariable>,
)
    requires
        e.kind == ExpressionNodeKind::ADD(Box::new(l), Box::new(r)) || e.kind == ExpressionNodeKind::SUB(
            Box::new(l),
            Box::new(r),
        ) || e.kind == ExpressionNodeKind::MUL(Box::new(l), Box::new(r)) || e.kind == ExpressionNodeKind::DIV(
            Box::new(l),
            Box::new(r),
        ),
    ensures
        ({
            let c = check_expr(fname, e, tld, locals);
            let lo = resolve_expr(fname, l, tld, locals);
            let ro = resolve_expr(fname, r, tld, locals);
            &&& c.ty is Some ==> lo.ty is Some && ro.ty is Some && lo.ty == ro.ty && c.ty == lo.ty
            &&& (!lo.halted && !ro.halted && lo.ty is Some && lo.ty == ro.ty) ==> c.ty == lo.ty && c.errs == lo.errs
                + ro.errs
            &&& (!lo.halted && !ro.halted && lo.ty is Some && ro.ty is Some && lo.ty != ro.ty) ==> {
                &&& c.ty is None
                &&& !c.halted
                &&& c.errs.len() == lo.errs.len() + ro.errs.len() + 1
                &&& c.errs.last().position == e.position
                &&& c.errs.last().kind is BINARYOPERATIONMUSTHAVETOSAMETYPEOPERANDS
            }
        }),
{
}

/// A two-register instruction is written in AT&T order: its mnemonic, then its
/// source register, then its destination register, the same for `movq`, `addq`,
/// `subq` and `imulq`; so `subq` and `addq` of the same registers differ only in
/// their mnemonics.
pub proof fn law_two_register_text(src: Reg64, dst: Reg64)
    ensures
        inst_text(InstV::MovRegToReg64(src, dst)) == "movq "@ + reg_text(src) + ", "@ + reg_text(dst),
        inst_text(InstV::AddRegToReg64(src, dst)) == "addq "@ + reg_text(src) + ", "@ + reg_text(dst),
        inst_text(InstV::SubRegToReg64(src, dst)) == "subq "@ + reg_text(src) + ", "@ + reg_text(dst),
        inst_text(InstV::ImulRegToReg64(src, dst)) == "imulq "@ + reg_text(src) + ", "@ + reg_text(dst),
        inst_text(InstV::SubRegToReg64(src, dst)).skip(4) == inst_text(InstV::AddRegToReg64(src, dst)).skip(4),
{
    reveal_strlit("movq ");
    reveal_strlit("addq ");
    reveal_strlit("subq ");
    reveal_strlit("imulq ");
    reveal_strlit(", ");
    reveal_strlit(" ");
    let tail = reg_text(src) + ", "@ + reg_text(dst);
    assert(inst_text(InstV::SubRegToReg64(src, dst)) =~= "subq "@ + tail);
    assert(inst_text(InstV::AddRegToReg64(src, dst)) =~= "addq "@ + tail);
    assert(("subq "@ + tail).skip(4) =~= (" "@ + tail));
    assert(("addq "@ + tail).skip(4) =~= (" "@ + tail));
}

/// A run of decimal digits that fits in `i64` is one integer literal of its decimal
/// value: unsigned where a `u` follows it directly, which is then read too, and
/// signed otherwise.
pub proof fn law_number_literal(ds: Seq<char>, tail: Seq<char>, row: int, col: int)
    requires
        ds.len() > 0,
        forall|j: int| 0 <= j < ds.len() ==> is_digit(#[trigger] ds[j]),
        tail.len() == 0 || !is_digit(tail[0]),
        decimal_value(ds) <= i64::MAX,
    ensures
        tail.len() > 0 && tail[0] == 'u' ==> spec_scan(ds + tail, row, col) == (ScanStep::Emit {
            kind: TokenKindV::UInt(decimal_value(ds) as u64),
            row,
            col,
            rest: tail.skip(1),
            next_row: row,
            next_col: col + ds.len() + 1,
        }),
        !(tail.len() > 0 && tail[0] == 'u') ==> spec_scan(ds + tail, row, col) == (ScanStep::Emit {
            kind: TokenKindV::Int(decimal_value(ds) as i64),
            row,
            col,
            rest: tail,
            next_row: row,
            next_col: col + ds.len(),
        }),
{
    let s = ds + tail;
    assert forall|j: int| 0 <= j < ds.len() implies in_class(#[trigger] s[j], CharClass::Digit) by {
        assert(s[j] == ds[j]);
    }
    if tail.len() > 0 {
        assert(s[ds.len() as int] == tail[0]);
    }
    lemma_span_is(s, CharClass::Digit, ds.len() as int);
    assert(s.take(ds.len() as int) =~= ds);
    assert(s.skip(ds.len() as int) =~= tail);
    assert(s[0] == ds[0]);
}

/// The text of digits and a `u` is one unsigned literal and the end: the tokens of
/// `10u` are `UNSIGNEDINTEGER(10)` and `EOF`.
pub proof fn law_unsigned_text(ds: Seq<char>, row: int, col: int)
    requires
        ds.len() > 0,
        forall|j: int| 0 <= j < ds.len() ==> is_digit(#[trigger] ds[j]),
        decimal_value(ds) <= i64::MAX,
    ensures
        spec_lex(ds + seq!['u'], row, col).tokens == seq![
            (TokenKindV::UInt(decimal_value(ds) as u64), row, col),
            (TokenKindV::Other(TokenKind::EOF), row, col + ds.len() + 1),
        ],
        (spec_lex(ds + seq!['u'], row, col).too_large is None),
{
    law_number_literal(ds, seq!['u'], row, col);
    assert(seq!['u'].skip(1) =~= Seq::<char>::empty());
    reveal_with_fuel(spec_lex, 2);
}

/// The decimal text of a number that fits in `i64` is one literal of that number
/// and the end: unsigned with a `u` after it, signed without.
pub proof fn law_number_text(n: nat, row: int, col: int)
    requires
        n <= i64::MAX,
    ensures
        spec_lex(decimal_text(n) + seq!['u'], row, col).tokens == seq![
            (TokenKindV::UInt(n as u64), row, col),
            (TokenKindV::Other(TokenKind::EOF), row, col + decimal_text(n).len() + 1),
        ],
        spec_lex(decimal_text(n), row, col).tokens == seq![
            (TokenKindV::Int(n as i64), row, col),
            (TokenKindV::Other(TokenKind::EOF), row, col + decimal_text(n).len()),
        ],
{
    lemma_decimal_text(n);
    law_unsigned_text(decimal_text(n), row, col);
    law_number_literal(decimal_text(n), Seq::empty(), row, col);
    assert(decimal_text(n) + Seq::<char>::empty() =~= decimal_text(n));
    reveal_with_fuel(spec_lex, 2);
}

} // verus!
