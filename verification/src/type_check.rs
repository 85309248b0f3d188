use vstd::prelude::*;

use crate::ast::{
    expr_text, has_ident_path, ident_path, operator_text, ExpressionNode, ExpressionNodeKind,
    StatementNode, StatementNodeKind,
};
use crate::error::{errors_view, CmpErrorKind, CmpErrorKindV, CompileError, CompileErrorV};
use crate::ident::{strings_view, IdentName};
use crate::name_map::NameMap;
use crate::option::BuildOption;
use crate::pfunction::{join_path, path_key, PFunction};
use crate::position::Position;
use crate::ptype::{
    kindv_name, lemma_kind_name, lemma_members_view_index, lemma_members_view_len, member_view,
    members_view, MemberV, PType, PTypeKind, PTypeKindV, PTypeV, StructMember,
};
use crate::pvariable::PVariable;
use crate::tld::{decl_type_view, tld_wf, TLDKind, TopLevelDecl};

verus! {

/// What checking an expression or a statement gives: its type where one was found,
/// the errors found, in order, and whether checking stopped at a point where the
/// checker cannot go on (where an expected type is missing altogether).
pub struct Checked {
    pub ty: Option<PTypeV>,
    pub errs: Seq<CompileErrorV>,
    pub halted: bool,
}

/// An error of a kind at a place.
pub open spec fn err(kind: CmpErrorKindV, pos: Position) -> CompileErrorV {
    CompileErrorV { kind, position: pos }
}

/// A type was found, with these errors on the way.
pub open spec fn found(t: PTypeV, errs: Seq<CompileErrorV>) -> Checked {
    Checked { ty: Some(t), errs, halted: false }
}

/// No type was found; checking goes on.
pub open spec fn failed(errs: Seq<CompileErrorV>) -> Checked {
    Checked { ty: None, errs, halted: false }
}

/// Checking stops.
pub open spec fn halt(errs: Seq<CompileErrorV>) -> Checked {
    Checked { ty: None, errs, halted: true }
}

/// A result whose checking stopped has no type.
pub open spec fn settle(c: Checked) -> Checked {
    if c.halted {
        halt(c.errs)
    } else {
        c
    }
}

pub open spec fn simple_type(k: PTypeKindV, size: usize) -> PTypeV {
    PTypeV { kind: k, size }
}

/// The type of the member of a given name, where there is one.
pub open spec fn member_lookup(ms: Seq<MemberV>, name: Seq<char>) -> Option<PTypeV>
    decreases ms.len(),
{
    if ms.len() == 0 {
        None
    } else if ms[0].name == name {
        Some(ms[0].member_type)
    } else {
        member_lookup(ms.drop_first(), name)
    }
}

/// The index of the first `ifret` statement of a block from index `i` on, or the block's length.
pub open spec fn first_ifret_from(s: Seq<StatementNode>, i: int) -> int
    decreases s.len() - i,
{
    if i >= s.len() {
        s.len() as int
    } else if s[i].kind is IFRET {
        i
    } else {
        first_ifret_from(s, i + 1)
    }
}

/// The outcome of an assignment whose two sides were checked: `const_check` asks
/// whether a constant is being assigned to.
pub open spec fn assignment_outcome(
    pos: Position,
    l: ExpressionNode,
    r: ExpressionNode,
    lo: Checked,
    ro: Checked,
    locals: Map<Seq<char>, PVariable>,
    const_check: bool,
) -> Checked {
    let errs = lo.errs + ro.errs;
    if lo.ty is None || ro.ty is None {
        failed(errs.push(err(CmpErrorKindV::CANNOTASSIGNMENTUNRESOLVEDRIGHTVALUE(expr_text(l), expr_text(r)), pos)))
    } else if const_check && !has_ident_path(l) {
        halt(errs)
    } else if const_check && locals.contains_key(path_key(ident_path(l))) && locals[path_key(ident_path(l))].is_const {
        failed(errs.push(err(CmpErrorKindV::CANNOTASSIGNMENTTOCONSTANTAFTERINITIALIZATION(expr_text(l)), pos)))
    } else if lo.ty != ro.ty {
        failed(errs.push(err(CmpErrorKindV::BOTHVALUESMUSTBESAMETYPEINASSIGNMENT(
            kindv_name(lo.ty.unwrap().kind),
            kindv_name(ro.ty.unwrap().kind),
        ), pos)))
    } else {
        Checked { ty: ro.ty, errs, halted: false }
    }
}

/// The outcome of the condition of an `if` that was checked: whether checking the
/// `if` stops there, and the errors so far.
pub open spec fn condition_outcome(c: ExpressionNode, co: Checked) -> Checked {
    if co.halted || co.ty is None {
        settle(co)
    } else if !(co.ty.unwrap().kind is BOOLEAN) {
        failed(co.errs.push(err(CmpErrorKindV::CONDITIONEXPRESSIONMUSTBEANBOOLEANINIF(kindv_name(co.ty.unwrap().kind)), c.position)))
    } else {
        found(co.ty.unwrap(), co.errs)
    }
}

/// Checks an expression whose type must be found: where none is, that is an error.
pub open spec fn resolve_expr(
    fname: Seq<char>,
    e: ExpressionNode,
    tld: Map<Seq<char>, TopLevelDecl>,
    locals: Map<Seq<char>, PVariable>,
) -> Checked
    decreases e, 3int,
{
    let c = check_expr(fname, e, tld, locals);
    if !c.halted && c.ty is None {
        failed(c.errs.push(err(CmpErrorKindV::UNABLETORESOLVEEXPRESSIONTYPE(expr_text(e)), e.position)))
    } else {
        settle(c)
    }
}

/// Checks the arguments of a call from the `i`-th on against the parameters' types;
/// `Some` of any type where all of them agree.
pub open spec fn check_args(
    fname: Seq<char>,
    args: Seq<ExpressionNode>,
    i: int,
    params: Seq<(String, PType)>,
    callee: Seq<char>,
    pos: Position,
    tld: Map<Seq<char>, TopLevelDecl>,
    locals: Map<Seq<char>, PVariable>,
) -> Checked
    decreases args, args.len() - i,
{
    if i < 0 || i >= args.len() {
        found(simple_type(PTypeKindV::INVALID, 0), Seq::empty())
    } else {
        let r = resolve_expr(fname, args[i], tld, locals);
        if r.halted || r.ty is None {
            settle(r)
        } else if params[i].1@ != r.ty.unwrap() {
            failed(r.errs.push(err(CmpErrorKindV::ARGTYPEINCORRECT(
                callee,
                i as usize,
                kindv_name(params[i].1@.kind),
                kindv_name(r.ty.unwrap().kind),
            ), pos)))
        } else {
            let rest = check_args(fname, args, i + 1, params, callee, pos, tld, locals);
            settle(Checked { ty: rest.ty, errs: r.errs + rest.errs, halted: rest.halted })
        }
    }
}

/// Checks the first `ifret` statement of a block, which gives the block's type.
pub open spec fn check_block(
    fname: Seq<char>,
    stmts: Seq<StatementNode>,
    tld: Map<Seq<char>, TopLevelDecl>,
    locals: Map<Seq<char>, PVariable>,
) -> Checked
    decreases stmts, 0int,
{
    let i = first_ifret_from(stmts, 0);
    if 0 <= i < stmts.len() {
        settle(check_stmt(fname, stmts[i], tld, locals))
    } else {
        failed(Seq::empty())
    }
}

/// Checks a statement of the function `fname`.
pub open spec fn check_stmt(
    fname: Seq<char>,
    st: StatementNode,
    tld: Map<Seq<char>, TopLevelDecl>,
    locals: Map<Seq<char>, PVariable>,
) -> Checked
    decreases st, 0int,
{
    match st.kind {
        StatementNodeKind::RETURN(e) => {
            if !tld.contains_key(fname) || !(tld[fname].kind is FN) {
                halt(Seq::empty())
            } else {
                let errs0: Seq<CompileErrorV> = if tld[fname].kind->FN_0.kind is NORETURN {
                    seq![err(CmpErrorKindV::RETURNINNORETURNFUNC, st.position)]
                } else {
                    Seq::empty()
                };
                let c = check_expr(fname, e, tld, locals);
                if c.halted || c.ty is None {
                    halt(errs0 + c.errs)
                } else if c.ty.unwrap().kind matches PTypeKindV::POINTER(_, local) && local {
                    failed((errs0 + c.errs).push(err(CmpErrorKindV::RETURNLOCALADDRESS, st.position)))
                } else {
                    failed(errs0 + c.errs)
                }
            }
        },
        StatementNodeKind::IFRET(e) => settle(check_expr(fname, e, tld, locals)),
        StatementNodeKind::EXPR(e) => settle(check_expr(fname, e, tld, locals)),
        StatementNodeKind::VARINIT(i, e) => {
            let lo = resolve_expr(fname, i, tld, locals);
            if lo.halted {
                halt(lo.errs)
            } else {
                let ro = resolve_expr(fname, e, tld, locals);
                if ro.halted {
                    halt(lo.errs + ro.errs)
                } else {
                    assignment_outcome(st.position, i, e, lo, ro, locals, false)
                }
            }
        },
        _ => failed(Seq::empty()),
    }
}

/// Checks an expression of the function `fname`, whose variables are `locals`,
/// against the top-level declarations `tld`.
pub open spec fn check_expr(
    fname: Seq<char>,
    e: ExpressionNode,
    tld: Map<Seq<char>, TopLevelDecl>,
    locals: Map<Seq<char>, PVariable>,
) -> Checked
    decreases e, 2int,
{
    settle(match e.kind {
        ExpressionNodeKind::INTEGER(_) => found(simple_type(PTypeKindV::INT64, 8), Seq::empty()),
        ExpressionNodeKind::UNSIGNEDINTEGER(_) => found(simple_type(PTypeKindV::UINT64, 8), Seq::empty()),
        ExpressionNodeKind::STRLIT(_, _) => found(simple_type(PTypeKindV::CONSTSTR, 8), Seq::empty()),
        ExpressionNodeKind::TRUE => found(simple_type(PTypeKindV::BOOLEAN, 8), Seq::empty()),
        ExpressionNodeKind::FALSE => found(simple_type(PTypeKindV::BOOLEAN, 8), Seq::empty()),
        ExpressionNodeKind::IDENT(name) => check_ident_expr(e, name, tld, locals),
        ExpressionNodeKind::CALL(_, _) => check_call_expr(fname, e, tld, locals),
        ExpressionNodeKind::NEG(_) => check_unary_expr(fname, e, tld, locals),
        ExpressionNodeKind::ADDRESS(_) => check_unary_expr(fname, e, tld, locals),
        ExpressionNodeKind::DEREF(_) => check_unary_expr(fname, e, tld, locals),
        ExpressionNodeKind::MEMBER(_, _) => check_unary_expr(fname, e, tld, locals),
        ExpressionNodeKind::ADD(_, _) => check_binary_expr(fname, e, tld, locals),
        ExpressionNodeKind::SUB(_, _) => check_binary_expr(fname, e, tld, locals),
        ExpressionNodeKind::MUL(_, _) => check_binary_expr(fname, e, tld, locals),
        ExpressionNodeKind::DIV(_, _) => check_binary_expr(fname, e, tld, locals),
        ExpressionNodeKind::ASSIGN(_, _) => check_assign_expr(fname, e, tld, locals),
        ExpressionNodeKind::IF(_, _) => check_if_expr(fname, e, tld, locals),
        ExpressionNodeKind::IFELSE(_, _, _) => check_if_expr(fname, e, tld, locals),
    })
}

/// A variable: its declared type, or, where that is a name of a top-level alias or
/// structure, the type declared there.
pub open spec fn check_ident_expr(
    e: ExpressionNode,
    name: IdentName,
    tld: Map<Seq<char>, TopLevelDecl>,
    locals: Map<Seq<char>, PVariable>,
) -> Checked {
    let n = name.names().last();
    if !locals.contains_key(n) {
        failed(seq![err(CmpErrorKindV::USEDUNDEFINEDAUTOVAR(n), e.position)])
    } else {
        let vt = locals[n].ptype;
        match vt.kind {
            PTypeKind::UNRESOLVED(tn) => {
                let tl = tn.names().last();
                if tld.contains_key(tl) {
                    if tld[tl].kind is FN {
                        halt(Seq::empty())
                    } else {
                        found(decl_type_view(tld[tl]), Seq::empty())
                    }
                } else {
                    found(vt@, Seq::empty())
                }
            },
            _ => found(vt@, Seq::empty()),
        }
    }
}

/// A call: the callee must be a declared function taking as many arguments, each of
/// the parameter's type; the call's type is the function's return type.
pub open spec fn check_call_expr(
    fname: Seq<char>,
    e: ExpressionNode,
    tld: Map<Seq<char>, TopLevelDecl>,
    locals: Map<Seq<char>, PVariable>,
) -> Checked
    decreases e, 1int,
{
    match e.kind {
        ExpressionNodeKind::CALL(name, args) => {
            let n = name.names().last();
            if !tld.contains_key(n) {
                failed(seq![err(CmpErrorKindV::CALLEDUNDEFINEDFUNCTION(n), e.position)])
            } else if !(tld[n].kind is FN) {
                halt(Seq::empty())
            } else {
                let params = tld[n].kind->FN_1;
                if params@.len() != args@.len() {
                    failed(seq![err(CmpErrorKindV::ARGNUMBERINCORRECT(n, params@.len() as usize, args@.len() as usize), e.position)])
                } else {
                    let a = check_args(fname, args@, 0, params@, n, e.position, tld, locals);
                    if a.halted || a.ty is None {
                        settle(a)
                    } else {
                        found(tld[n].kind->FN_0@, a.errs)
                    }
                }
            }
        },
        _ => failed(Seq::empty()),
    }
}

/// `-x`, `&x`, `*x` and `x.m`: the operand's type must be found.
pub open spec fn check_unary_expr(
    fname: Seq<char>,
    e: ExpressionNode,
    tld: Map<Seq<char>, TopLevelDecl>,
    locals: Map<Seq<char>, PVariable>,
) -> Checked
    decreases e, 1int,
{
    let pos = e.position;
    match e.kind {
        ExpressionNodeKind::NEG(x) => {
            let r = resolve_expr(fname, *x, tld, locals);
            if r.halted || r.ty is None {
                halt(r.errs)
            } else if r.ty.unwrap().kind is UINT64 {
                failed(r.errs.push(err(CmpErrorKindV::CANNOTAPPLYMINUSTO(kindv_name(r.ty.unwrap().kind)), pos)))
            } else {
                r
            }
        },
        ExpressionNodeKind::ADDRESS(x) => {
            let r = resolve_expr(fname, *x, tld, locals);
            if r.halted || r.ty is None {
                halt(r.errs)
            } else {
                found(simple_type(PTypeKindV::POINTER(Box::new(r.ty.unwrap()), true), 8), r.errs)
            }
        },
        ExpressionNodeKind::DEREF(x) => {
            let r = resolve_expr(fname, *x, tld, locals);
            if r.halted || r.ty is None {
                halt(r.errs)
            } else {
                match r.ty.unwrap().kind {
                    PTypeKindV::POINTER(inner, _) => found(*inner, r.errs),
                    _ => failed(r.errs.push(err(CmpErrorKindV::CANNOTDEREFERENCENOTPOINTER(kindv_name(r.ty.unwrap().kind)), pos))),
                }
            }
        },
        ExpressionNodeKind::MEMBER(x, m) => {
            let r = resolve_expr(fname, *x, tld, locals);
            if r.halted || r.ty is None {
                halt(r.errs)
            } else {
                match r.ty.unwrap().kind {
                    PTypeKindV::STRUCT(ms) => match member_lookup(ms, m@) {
                        Some(mt) => found(mt, r.errs),
                        None => failed(r.errs.push(err(CmpErrorKindV::UNDEFINEDSUCHAMEMBER(kindv_name(r.ty.unwrap().kind), m@), pos))),
                    },
                    _ => failed(r.errs.push(err(CmpErrorKindV::CANNOTACCESSMEMBERWITHNOTSTRUCT(kindv_name(r.ty.unwrap().kind)), pos))),
                }
            }
        },
        _ => failed(Seq::empty()),
    }
}

/// `l + r`, `l - r`, `l * r` and `l / r`: both operands of the same type.
pub open spec fn check_binary_expr(
    fname: Seq<char>,
    e: ExpressionNode,
    tld: Map<Seq<char>, TopLevelDecl>,
    locals: Map<Seq<char>, PVariable>,
) -> Checked
    decreases e, 1int,
{
    match e.kind {
        ExpressionNodeKind::ADD(l, r) => binary_outcome(e, resolve_expr(fname, *l, tld, locals), resolve_expr(fname, *r, tld, locals)),
        ExpressionNodeKind::SUB(l, r) => binary_outcome(e, resolve_expr(fname, *l, tld, locals), resolve_expr(fname, *r, tld, locals)),
        ExpressionNodeKind::MUL(l, r) => binary_outcome(e, resolve_expr(fname, *l, tld, locals), resolve_expr(fname, *r, tld, locals)),
        ExpressionNodeKind::DIV(l, r) => binary_outcome(e, resolve_expr(fname, *l, tld, locals), resolve_expr(fname, *r, tld, locals)),
        _ => failed(Seq::empty()),
    }
}

/// `l = r`: both sides of the same type, and `l` no constant.
pub open spec fn check_assign_expr(
    fname: Seq<char>,
    e: ExpressionNode,
    tld: Map<Seq<char>, TopLevelDecl>,
    locals: Map<Seq<char>, PVariable>,
) -> Checked
    decreases e, 1int,
{
    match e.kind {
        ExpressionNodeKind::ASSIGN(l, r) => {
            let lo = resolve_expr(fname, *l, tld, locals);
            if lo.halted {
                halt(lo.errs)
            } else {
                let ro = resolve_expr(fname, *r, tld, locals);
                if ro.halted {
                    halt(lo.errs + ro.errs)
                } else {
                    assignment_outcome(e.position, *l, *r, lo, ro, locals, true)
                }
            }
        },
        _ => failed(Seq::empty()),
    }
}

/// `if`: a Boolean condition; the type is that of the body's `ifret`, and with an
/// `else`, both bodies must give the same.
pub open spec fn check_if_expr(
    fname: Seq<char>,
    e: ExpressionNode,
    tld: Map<Seq<char>, TopLevelDecl>,
    locals: Map<Seq<char>, PVariable>,
) -> Checked
    decreases e, 1int,
{
    match e.kind {
        ExpressionNodeKind::IF(c, body) => {
            let co = condition_outcome(*c, resolve_expr(fname, *c, tld, locals));
            if co.halted || co.ty is None {
                co
            } else {
                let b = check_block(fname, body@, tld, locals);
                settle(Checked { ty: b.ty, errs: co.errs + b.errs, halted: b.halted })
            }
        },
        ExpressionNodeKind::IFELSE(c, body, alter) => {
            let co = condition_outcome(*c, resolve_expr(fname, *c, tld, locals));
            if co.halted || co.ty is None {
                co
            } else {
                let b = check_block(fname, body@, tld, locals);
                if b.halted {
                    halt(co.errs + b.errs)
                } else {
                    let a = check_block(fname, alter@, tld, locals);
                    if a.halted {
                        halt(co.errs + b.errs + a.errs)
                    } else if b.ty != a.ty {
                        failed((co.errs + b.errs + a.errs).push(err(CmpErrorKindV::BOTHBLOCKSMUSTBESAMETYPE, e.position)))
                    } else {
                        Checked { ty: b.ty, errs: co.errs + b.errs + a.errs, halted: false }
                    }
                }
            }
        },
        _ => failed(Seq::empty()),
    }
}

/// The outcome of a binary arithmetic expression whose operands were checked.
pub open spec fn binary_outcome(e: ExpressionNode, lo: Checked, ro: Checked) -> Checked {
    if lo.halted {
        halt(lo.errs)
    } else if ro.halted {
        halt(lo.errs + ro.errs)
    } else if lo.ty is None || ro.ty is None {
        failed(lo.errs + ro.errs)
    } else if lo.ty != ro.ty {
        failed((lo.errs + ro.errs).push(err(CmpErrorKindV::BINARYOPERATIONMUSTHAVETOSAMETYPEOPERANDS(
            operator_text(e.kind),
            kindv_name(lo.ty.unwrap().kind),
            kindv_name(ro.ty.unwrap().kind),
        ), e.position)))
    } else {
        Checked { ty: lo.ty, errs: lo.errs + ro.errs, halted: false }
    }
}

/// Checks the statements of a function body in order; checking stops where it cannot go on.
pub open spec fn check_stmts(
    fname: Seq<char>,
    stmts: Seq<StatementNode>,
    tld: Map<Seq<char>, TopLevelDecl>,
    locals: Map<Seq<char>, PVariable>,
) -> (Seq<CompileErrorV>, bool)
    decreases stmts.len(),
{
    if stmts.len() == 0 {
        (Seq::empty(), false)
    } else {
        let p = check_stmts(fname, stmts.drop_last(), tld, locals);
        if p.1 {
            p
        } else {
            let c = check_stmt(fname, stmts.last(), tld, locals);
            (p.0 + c.errs, c.halted)
        }
    }
}

/// What checking the functions of a program comes to.
#[derive(Debug, PartialEq, Eq)]
pub enum TypeCheckOutcome {
    /// Every function is well typed and `main` is there.
    Checked,
    /// `main` takes arguments or returns something.
    MainSignature,
    /// The first function, in name order, with errors: its module and its errors.
    FunctionErrors(String, Vec<CompileError>),
    /// There is no `main`.
    MainMissing,
    /// Checking of the named function cannot go on.
    Halted(String),
}

/// The value of what checking the functions of a program comes to.
pub enum OutcomeV {
    Checked,
    MainSignature,
    FunctionErrors(Seq<char>, Seq<CompileErrorV>),
    MainMissing,
    Halted(Seq<char>),
}

impl View for TypeCheckOutcome {
    type V = OutcomeV;

    open spec fn view(&self) -> OutcomeV {
        match self {
            TypeCheckOutcome::Checked => OutcomeV::Checked,
            TypeCheckOutcome::MainSignature => OutcomeV::MainSignature,
            TypeCheckOutcome::FunctionErrors(p, es) => OutcomeV::FunctionErrors(p@, errors_view(es@)),
            TypeCheckOutcome::MainMissing => OutcomeV::MainMissing,
            TypeCheckOutcome::Halted(n) => OutcomeV::Halted(n@),
        }
    }
}

/// Checks the functions from the `i`-th on, in name order: `main` must take no
/// arguments and return `Noreturn`; the first function with errors ends the check;
/// at the end, `main` must have been seen.
pub open spec fn program_outcome(
    names: Seq<Seq<char>>,
    funcs: Seq<PFunction>,
    tld: Map<Seq<char>, TopLevelDecl>,
    i: int,
    main_seen: bool,
) -> OutcomeV
    decreases names.len() - i,
{
    if i < 0 || i >= names.len() {
        if main_seen {
            OutcomeV::Checked
        } else {
            OutcomeV::MainMissing
        }
    } else {
        let f = funcs[i];
        let is_main = names[i] == "main"@;
        if is_main && (f.args@.len() != 0 || !(f.return_type.kind is NORETURN)) {
            OutcomeV::MainSignature
        } else {
            let r = check_stmts(names[i], f.stmts@, tld, f.locals@);
            if r.1 {
                OutcomeV::Halted(names[i])
            } else if r.0.len() != 0 {
                OutcomeV::FunctionErrors(f.mod_path@, r.0)
            } else {
                program_outcome(names, funcs, tld, i + 1, main_seen || is_main)
            }
        }
    }
}

/// An optional type stands for an optional type value.
pub open spec fn ty_matches(r: Option<PType>, t: Option<PTypeV>) -> bool {
    match r {
        Some(x) => t == Some(x@),
        None => t is None,
    }
}

/// The text under which a type is printed.
fn type_text(t: &PType) -> (s: String)
    ensures
        s@ == kindv_name(t@.kind),
{
    proof { lemma_kind_name(*t); }
    crate::text::str_to_string(t.to_str())
}

/// The type of the member of a given name in a list of members.
fn find_member<'b>(ms: &'b Vec<StructMember>, name: &String) -> (r: Option<&'b StructMember>)
    ensures
        match r {
            Some(m) => member_lookup(members_view(ms@), name@) == Some(m.member_type@),
            None => member_lookup(members_view(ms@), name@) is None,
        },
{
    let n = ms.len();
    let mut i: usize = 0;
    assert(ms@.subrange(0, n as int) == ms@);
    while i < n
        invariant
            n == ms@.len(),
            i <= n,
            member_lookup(members_view(ms@), name@) == member_lookup(members_view(ms@.subrange(i as int, n as int)), name@),
        decreases n - i,
    {
        let ghost s = ms@.subrange(i as int, n as int);
        proof {
            assert(s.drop_first() == ms@.subrange(i + 1, n as int));
            assert(s[0] == ms@[i as int]);
            let mv = members_view(s);
            assert(mv == seq![member_view(s[0])] + members_view(s.drop_first()));
            assert(mv[0] == member_view(s[0]));
            assert(mv.drop_first() =~= members_view(s.drop_first()));
        }
        if ms[i].name == *name {
            return Some(&ms[i]);
        }
        i = i + 1;
    }
    proof {
        assert(members_view(ms@.subrange(n as int, n as int)).len() == 0);
    }
    None
}

/// Checks the bodies of functions: finds the type of each expression and statement,
/// and records each type error.
pub struct TypeChecker<'a> {
    pub build_option: &'a BuildOption,
    pub errors: Vec<CompileError>,
    /// Set where checking cannot go on.
    pub halted: bool,
}

impl<'a> TypeChecker<'a> {
    pub fn new(build_opt: &'a BuildOption) -> (c: Self)
        ensures
            c.errors@.len() == 0,
            !c.halted,
            c.build_option == build_opt,
    {
        TypeChecker { build_option: build_opt, errors: Vec::new(), halted: false }
    }

    pub fn give_errors(self) -> (es: Vec<CompileError>)
        ensures
            es == self.errors,
    {
        self.errors
    }

    /// Records an error.
    pub fn detect_error(&mut self, e: CompileError)
        ensures
            final(self).errors@ == old(self).errors@.push(e),
            final(self).halted == old(self).halted,
            final(self).build_option == old(self).build_option,
    {
        self.errors.push(e);
    }

    fn error_at(&mut self, kind: CmpErrorKind, pos: Position)
        ensures
            errors_view(final(self).errors@) == errors_view(old(self).errors@).push(err(kind@, pos)),
            final(self).halted == old(self).halted,
            final(self).build_option == old(self).build_option,
    {
        let ghost before = self.errors@;
        self.errors.push(CompileError::new(kind, pos));
        proof {
            assert(errors_view(self.errors@) =~= errors_view(before).push(err(kind@, pos)));
        }
    }

    pub fn is_boolean_type(&self, t: &PType) -> (b: bool)
        ensures
            b == (t@.kind is BOOLEAN),
    {
        match t.kind {
            PTypeKind::BOOLEAN => true,
            _ => false,
        }
    }

    pub fn is_ifret(&self, st: &StatementNode) -> (b: bool)
        ensures
            b == (st.kind is IFRET),
    {
        match &st.kind {
            StatementNodeKind::IFRET(_expr) => true,
            _ => false,
        }
    }

    /// Checks an expression whose type must be found; where none is, records that.
    pub fn try_to_resolve_expression(
        &mut self,
        func_name: &str,
        ex: &ExpressionNode,
        tld_map: &NameMap<TopLevelDecl>,
        locals: &NameMap<PVariable>,
    ) -> (r: Option<PType>)
        requires
            !old(self).halted,
            tld_map.wf(),
            locals.wf(),
            tld_wf(tld_map@),
        ensures
            errors_view(final(self).errors@) == errors_view(old(self).errors@) + resolve_expr(func_name@, *ex, tld_map@, locals@).errs,
            final(self).halted == resolve_expr(func_name@, *ex, tld_map@, locals@).halted,
            ty_matches(r, resolve_expr(func_name@, *ex, tld_map@, locals@).ty),
        decreases ex, 6int,
    {
        let ex_type = self.check_expression(func_name, ex, tld_map, locals);
        if !self.halted && ex_type.is_none() {
            let text = ex.to_string();
            let ghost mid = errors_view(self.errors@);
            self.error_at(CmpErrorKind::UNABLETORESOLVEEXPRESSIONTYPE(text), ex.copy_pos());
            proof {
                let c = check_expr(func_name@, *ex, tld_map@, locals@);
                assert(c.ty is None && !c.halted);
                let x = err(CmpErrorKindV::UNABLETORESOLVEEXPRESSIONTYPE(expr_text(*ex)), ex.position);
                assert(resolve_expr(func_name@, *ex, tld_map@, locals@) == failed(c.errs.push(x)));
                assert(errors_view(self.errors@) =~= mid.push(x));
                assert(errors_view(self.errors@) =~= errors_view(old(self).errors@) + c.errs.push(x));
            }
            return None;
        }
        ex_type
    }

    /// Checks an expression of the function `func_name`.
    pub fn check_expression(
        &mut self,
        func_name: &str,
        ex: &ExpressionNode,
        tld_map: &NameMap<TopLevelDecl>,
        locals: &NameMap<PVariable>,
    ) -> (r: Option<PType>)
        requires
            !old(self).halted,
            tld_map.wf(),
            locals.wf(),
            tld_wf(tld_map@),
        ensures
            errors_view(final(self).errors@) == errors_view(old(self).errors@) + check_expr(func_name@, *ex, tld_map@, locals@).errs,
            final(self).halted == check_expr(func_name@, *ex, tld_map@, locals@).halted,
            ty_matches(r, check_expr(func_name@, *ex, tld_map@, locals@).ty),
        decreases ex, 5int,
    {
        match &ex.kind {
            ExpressionNodeKind::INTEGER(_v) => {
                assert(errors_view(self.errors@) =~= errors_view(self.errors@) + Seq::<CompileErrorV>::empty());
                Some(PType::global_int_type())
            },
            ExpressionNodeKind::UNSIGNEDINTEGER(_v) => {
                assert(errors_view(self.errors@) =~= errors_view(self.errors@) + Seq::<CompileErrorV>::empty());
                Some(PType::global_uint_type())
            },
            ExpressionNodeKind::STRLIT(_contents, _hash) => {
                assert(errors_view(self.errors@) =~= errors_view(self.errors@) + Seq::<CompileErrorV>::empty());
                Some(PType::global_conststr_type())
            },
            ExpressionNodeKind::TRUE | ExpressionNodeKind::FALSE => {
                assert(errors_view(self.errors@) =~= errors_view(self.errors@) + Seq::<CompileErrorV>::empty());
                Some(PType::global_boolean_type())
            },
            ExpressionNodeKind::IDENT(name) => self.check_ident(func_name, ex, name, tld_map, locals),
            ExpressionNodeKind::CALL(name, args) => self.check_call(func_name, ex, name, args, tld_map, locals),
            ExpressionNodeKind::NEG(_) | ExpressionNodeKind::ADDRESS(_) | ExpressionNodeKind::DEREF(_)
            | ExpressionNodeKind::MEMBER(_, _) => self.check_unary(func_name, ex, tld_map, locals),
            ExpressionNodeKind::ADD(_, _) | ExpressionNodeKind::SUB(_, _) | ExpressionNodeKind::MUL(_, _)
            | ExpressionNodeKind::DIV(_, _) => self.check_binary(func_name, ex, tld_map, locals),
            ExpressionNodeKind::ASSIGN(_, _) => self.check_assign(func_name, ex, tld_map, locals),
            ExpressionNodeKind::IF(_, _) => self.check_if(func_name, ex, tld_map, locals),
            ExpressionNodeKind::IFELSE(_, _, _) => self.check_ifelse(func_name, ex, tld_map, locals),
        }
    }

    fn check_assign(
        &mut self,
        func_name: &str,
        ex: &ExpressionNode,
        tld_map: &NameMap<TopLevelDecl>,
        locals: &NameMap<PVariable>,
    ) -> (r: Option<PType>)
        requires
            !old(self).halted,
            ex.kind is ASSIGN,
            tld_map.wf(),
            locals.wf(),
            tld_wf(tld_map@),
        ensures
            errors_view(final(self).errors@) == errors_view(old(self).errors@) + check_assign_expr(func_name@, *ex, tld_map@, locals@).errs,
            final(self).halted == check_assign_expr(func_name@, *ex, tld_map@, locals@).halted,
            ty_matches(r, check_assign_expr(func_name@, *ex, tld_map@, locals@).ty),
        decreases ex, 4int,
    {
        match &ex.kind {
                ExpressionNodeKind::ASSIGN(lvalue, rvalue) => {
                    let ghost e0 = errors_view(self.errors@);
                    let lt = self.try_to_resolve_expression(func_name, lvalue, tld_map, locals);
                    if self.halted {
                        return None;
                    }
                    let ghost e1 = errors_view(self.errors@);
                    let rt = self.try_to_resolve_expression(func_name, rvalue, tld_map, locals);
                    if self.halted {
                        proof {
                            let lo = resolve_expr(func_name@, **lvalue, tld_map@, locals@);
                            let ro = resolve_expr(func_name@, **rvalue, tld_map@, locals@);
                            assert(errors_view(self.errors@) =~= e0 + (lo.errs + ro.errs));
                        }
                        return None;
                    }
                    proof {
                        let lo = resolve_expr(func_name@, **lvalue, tld_map@, locals@);
                        let ro = resolve_expr(func_name@, **rvalue, tld_map@, locals@);
                        assert(errors_view(self.errors@) =~= e0 + (lo.errs + ro.errs));
                    }
                    self.check_assignment(ex.copy_pos(), lvalue, rvalue, lt, rt, locals, true, Ghost(
                        resolve_expr(func_name@, **lvalue, tld_map@, locals@),
                    ), Ghost(resolve_expr(func_name@, **rvalue, tld_map@, locals@)), Ghost(e0))
                },
            _ => vstd::pervasive::unreached(),
        }
    }

    fn check_ident(
        &mut self,
        func_name: &str,
        ex: &ExpressionNode,
        name: &IdentName,
        tld_map: &NameMap<TopLevelDecl>,
        locals: &NameMap<PVariable>,
    ) -> (r: Option<PType>)
        requires
            !old(self).halted,
            ex.kind == ExpressionNodeKind::IDENT(*name),
            tld_map.wf(),
            locals.wf(),
            tld_wf(tld_map@),
        ensures
            errors_view(final(self).errors@) == errors_view(old(self).errors@) + check_ident_expr(*ex, *name, tld_map@, locals@).errs,
            final(self).halted == check_ident_expr(*ex, *name, tld_map@, locals@).halted,
            ty_matches(r, check_ident_expr(*ex, *name, tld_map@, locals@).ty),
    {
        let defined_name = IdentName::last_name(name);
        let local_opt = locals.get(defined_name.as_str());
        match local_opt {
            None => {
                self.error_at(CmpErrorKind::USEDUNDEFINEDAUTOVAR(defined_name), ex.copy_pos());
                assert(errors_view(old(self).errors@).push(err(CmpErrorKindV::USEDUNDEFINEDAUTOVAR(name.names().last()), ex.position))
                    =~= errors_view(old(self).errors@) + seq![err(CmpErrorKindV::USEDUNDEFINEDAUTOVAR(name.names().last()), ex.position)]);
                None
            },
            Some(local_var) => {
                assert(errors_view(self.errors@) =~= errors_view(self.errors@) + Seq::<CompileErrorV>::empty());
                let var_type = local_var.get_type();
                if let PTypeKind::UNRESOLVED(tname) = &var_type.kind {
                    let type_last = IdentName::last_name(tname);
                    if let Some(src_type) = tld_map.get(type_last.as_str()) {
                        if let TLDKind::FN(_, _) = &src_type.kind {
                            self.halted = true;
                            return None;
                        }
                        assert(tld_map@.contains_key(type_last@));
                        return Some(src_type.to_ptype());
                    }
                }
                Some(var_type.copy_ptype())
            },
        }
    }

    fn check_call(
        &mut self,
        func_name: &str,
        ex: &ExpressionNode,
        name: &IdentName,
        args: &Vec<ExpressionNode>,
        tld_map: &NameMap<TopLevelDecl>,
        locals: &NameMap<PVariable>,
    ) -> (r: Option<PType>)
        requires
            !old(self).halted,
            ex.kind == ExpressionNodeKind::CALL(*name, *args),
            tld_map.wf(),
            locals.wf(),
            tld_wf(tld_map@),
        ensures
            errors_view(final(self).errors@) == errors_view(old(self).errors@) + check_call_expr(func_name@, *ex, tld_map@, locals@).errs,
            final(self).halted == check_call_expr(func_name@, *ex, tld_map@, locals@).halted,
            ty_matches(r, check_call_expr(func_name@, *ex, tld_map@, locals@).ty),
        decreases ex, 4int,
    {
        let called_name = IdentName::last_name(name);
        let called_decl_opt = tld_map.get(called_name.as_str());
        if called_decl_opt.is_none() {
            let ghost e0 = errors_view(self.errors@);
            self.error_at(CmpErrorKind::CALLEDUNDEFINEDFUNCTION(called_name), ex.copy_pos());
            assert(errors_view(self.errors@) =~= e0 + seq![err(CmpErrorKindV::CALLEDUNDEFINEDFUNCTION(name.names().last()), ex.position)]);
            return None;
        }
        let called_decl = called_decl_opt.unwrap();
        let (ret_type, params) = match &called_decl.kind {
            TLDKind::FN(ret_type, params) => (ret_type, params),
            _ => {
                self.halted = true;
                assert(errors_view(self.errors@) =~= errors_view(self.errors@) + Seq::<CompileErrorV>::empty());
                return None;
            },
        };
        if params.len() != args.len() {
            let ghost e0 = errors_view(self.errors@);
            self.error_at(CmpErrorKind::ARGNUMBERINCORRECT(called_name, params.len(), args.len()), ex.copy_pos());
            assert(errors_view(self.errors@) =~= e0 + seq![err(CmpErrorKindV::ARGNUMBERINCORRECT(name.names().last(), params@.len() as usize, args@.len() as usize), ex.position)]);
            return None;
        }
        let ghost e0 = errors_view(self.errors@);
        let ghost whole = check_args(func_name@, args@, 0, params@, called_name@, ex.position, tld_map@, locals@);
        let mut i: usize = 0;
        while i < args.len()
            invariant
                !self.halted,
                i <= args.len(),
                params@.len() == args@.len(),
                tld_map.wf(),
                locals.wf(),
                tld_wf(tld_map@),
                whole == check_args(func_name@, args@, 0, params@, called_name@, ex.position, tld_map@, locals@),
                ex.kind == ExpressionNodeKind::CALL(*name, *args),
                called_name@ == name.names().last(),
                e0 == errors_view(old(self).errors@),
                tld_map@.contains_key(called_name@),
                tld_map@[called_name@].kind == TLDKind::FN(*ret_type, *params),
                ({
                    let rest = check_args(func_name@, args@, i as int, params@, called_name@, ex.position, tld_map@, locals@);
                    &&& whole.ty == rest.ty
                    &&& whole.halted == rest.halted
                    &&& e0 + whole.errs == errors_view(self.errors@) + rest.errs
                }),
            decreases args.len() - i,
        {
            proof {
                assert(decreases_to!(*ex => ex.kind));
                assert(decreases_to!(ex.kind => *args));
                assert(decreases_to!(*args => args@[i as int]));
            }
            let ghost before = errors_view(self.errors@);
            let caller_arg_type = self.try_to_resolve_expression(func_name, &args[i], tld_map, locals);
            let ghost ri = resolve_expr(func_name@, args@[i as int], tld_map@, locals@);
            let ghost rest_i = check_args(func_name@, args@, i as int, params@, called_name@, ex.position, tld_map@, locals@);
            if self.halted {
                assert(rest_i == settle(ri));
                assert(errors_view(self.errors@) =~= e0 + whole.errs);
                assert(check_call_expr(func_name@, *ex, tld_map@, locals@) == settle(whole));
                return None;
            }
            match caller_arg_type {
                None => {
                    assert(rest_i == settle(ri));
                    assert(errors_view(self.errors@) =~= e0 + whole.errs);
                    assert(check_call_expr(func_name@, *ex, tld_map@, locals@) == settle(whole));
                    return None;
                },
                Some(caller_type) => {
                    if !params[i].1.ptype_eq(&caller_type) {
                        let ghost mid = errors_view(self.errors@);
                        let t1 = type_text(&params[i].1);
                        let t2 = type_text(&caller_type);
                        self.error_at(CmpErrorKind::ARGTYPEINCORRECT(called_name, i, t1, t2), ex.copy_pos());
                        assert(errors_view(self.errors@) =~= e0 + whole.errs);
                        assert(check_call_expr(func_name@, *ex, tld_map@, locals@) == settle(whole));
                        return None;
                    }
                    proof {
                        let rest = check_args(func_name@, args@, i + 1, params@, called_name@, ex.position, tld_map@, locals@);
                        assert(before + (ri.errs + rest.errs) =~= errors_view(self.errors@) + rest.errs);
                    }
                },
            }
            i = i + 1;
        }
        assert(errors_view(self.errors@) + Seq::<CompileErrorV>::empty() =~= errors_view(self.errors@));
        Some(ret_type.copy_ptype())
    }

    fn check_unary(
        &mut self,
        func_name: &str,
        ex: &ExpressionNode,
        tld_map: &NameMap<TopLevelDecl>,
        locals: &NameMap<PVariable>,
    ) -> (r: Option<PType>)
        requires
            !old(self).halted,
            ex.kind is NEG || ex.kind is ADDRESS || ex.kind is DEREF || ex.kind is MEMBER,
            tld_map.wf(),
            locals.wf(),
            tld_wf(tld_map@),
        ensures
            errors_view(final(self).errors@) == errors_view(old(self).errors@) + check_unary_expr(func_name@, *ex, tld_map@, locals@).errs,
            final(self).halted == check_unary_expr(func_name@, *ex, tld_map@, locals@).halted,
            ty_matches(r, check_unary_expr(func_name@, *ex, tld_map@, locals@).ty),
        decreases ex, 4int,
    {
        let inner = match &ex.kind {
            ExpressionNodeKind::NEG(x) => x,
            ExpressionNodeKind::ADDRESS(x) => x,
            ExpressionNodeKind::DEREF(x) => x,
            ExpressionNodeKind::MEMBER(x, _) => x,
            _ => vstd::pervasive::unreached(),
        };
        let ghost e0 = errors_view(self.errors@);
        let inner_type = self.try_to_resolve_expression(func_name, inner, tld_map, locals);
        let ghost ro = resolve_expr(func_name@, **inner, tld_map@, locals@);
        if self.halted || inner_type.is_none() {
            self.halted = true;
            return None;
        }
        let inner_type = inner_type.unwrap();
        match &ex.kind {
            ExpressionNodeKind::NEG(_) => {
                if inner_type.is_unsigned() {
                    let t = type_text(&inner_type);
                    self.error_at(CmpErrorKind::CANNOTAPPLYMINUSTO(t), ex.copy_pos());
                    return None;
                }
                Some(inner_type)
            },
            ExpressionNodeKind::ADDRESS(_) => Some(PType::new_pointer(inner_type, true)),
            ExpressionNodeKind::DEREF(_) => {
                if !inner_type.is_pointer() {
                    let t = type_text(&inner_type);
                    self.error_at(CmpErrorKind::CANNOTDEREFERENCENOTPOINTER(t), ex.copy_pos());
                    return None;
                }
                Some(inner_type.dereference())
            },
            ExpressionNodeKind::MEMBER(_, member_id) => {
                if !inner_type.is_struct() {
                    let t = type_text(&inner_type);
                    self.error_at(CmpErrorKind::CANNOTACCESSMEMBERWITHNOTSTRUCT(t), ex.copy_pos());
                    return None;
                }
                let members = inner_type.get_members();
                match find_member(members, member_id) {
                    Some(m) => Some(m.member_type.copy_ptype()),
                    None => {
                        let t = type_text(&inner_type);
                        self.error_at(CmpErrorKind::UNDEFINEDSUCHAMEMBER(t, member_id.clone()), ex.copy_pos());
                        None
                    },
                }
            },
            _ => vstd::pervasive::unreached(),
        }
    }

    fn check_binary(
        &mut self,
        func_name: &str,
        ex: &ExpressionNode,
        tld_map: &NameMap<TopLevelDecl>,
        locals: &NameMap<PVariable>,
    ) -> (r: Option<PType>)
        requires
            !old(self).halted,
            ex.kind is ADD || ex.kind is SUB || ex.kind is MUL || ex.kind is DIV,
            tld_map.wf(),
            locals.wf(),
            tld_wf(tld_map@),
        ensures
            errors_view(final(self).errors@) == errors_view(old(self).errors@) + check_binary_expr(func_name@, *ex, tld_map@, locals@).errs,
            final(self).halted == check_binary_expr(func_name@, *ex, tld_map@, locals@).halted,
            ty_matches(r, check_binary_expr(func_name@, *ex, tld_map@, locals@).ty),
        decreases ex, 4int,
    {
        let (lop, rop) = match &ex.kind {
            ExpressionNodeKind::ADD(l, r) => (l, r),
            ExpressionNodeKind::SUB(l, r) => (l, r),
            ExpressionNodeKind::MUL(l, r) => (l, r),
            ExpressionNodeKind::DIV(l, r) => (l, r),
            _ => vstd::pervasive::unreached(),
        };
        let ghost e0 = errors_view(self.errors@);
        let ghost lo = resolve_expr(func_name@, **lop, tld_map@, locals@);
        let ghost ro = resolve_expr(func_name@, **rop, tld_map@, locals@);
        let lop_type = self.try_to_resolve_expression(func_name, lop, tld_map, locals);
        if self.halted {
            return None;
        }
        let rop_type = self.try_to_resolve_expression(func_name, rop, tld_map, locals);
        assert(errors_view(self.errors@) =~= e0 + (lo.errs + ro.errs));
        if self.halted {
            return None;
        }
        if lop_type.is_none() || rop_type.is_none() {
            return None;
        }
        let lt = lop_type.unwrap();
        let rt = rop_type.unwrap();
        if !lt.ptype_eq(&rt) {
            let op = ex.operator_to_string();
            let t1 = type_text(&lt);
            let t2 = type_text(&rt);
            self.error_at(CmpErrorKind::BINARYOPERATIONMUSTHAVETOSAMETYPEOPERANDS(op, t1, t2), ex.copy_pos());
            return None;
        }
        Some(lt)
    }

    /// Checks the condition of an `if`; true where checking the `if` stops there.
    pub fn detect_conditional_expression_error(
        &mut self,
        func_name: &str,
        cond_expr: &ExpressionNode,
        tld_map: &NameMap<TopLevelDecl>,
        locals: &NameMap<PVariable>,
    ) -> (stop: bool)
        requires
            !old(self).halted,
            tld_map.wf(),
            locals.wf(),
            tld_wf(tld_map@),
        ensures
            ({
                let co = condition_outcome(*cond_expr, resolve_expr(func_name@, *cond_expr, tld_map@, locals@));
                &&& errors_view(final(self).errors@) == errors_view(old(self).errors@) + co.errs
                &&& final(self).halted == co.halted
                &&& stop == (co.halted || co.ty is None)
            }),
        decreases cond_expr, 7int,
    {
        let cond_expr_type = self.try_to_resolve_expression(func_name, cond_expr, tld_map, locals);
        if self.halted {
            return true;
        }
        match cond_expr_type {
            None => true,
            Some(t) => {
                if !self.is_boolean_type(&t) {
                    let text = type_text(&t);
                    self.error_at(CmpErrorKind::CONDITIONEXPRESSIONMUSTBEANBOOLEANINIF(text), cond_expr.copy_pos());
                    return true;
                }
                false
            },
        }
    }

    fn check_if(
        &mut self,
        func_name: &str,
        ex: &ExpressionNode,
        tld_map: &NameMap<TopLevelDecl>,
        locals: &NameMap<PVariable>,
    ) -> (r: Option<PType>)
        requires
            !old(self).halted,
            ex.kind is IF,
            tld_map.wf(),
            locals.wf(),
            tld_wf(tld_map@),
        ensures
            errors_view(final(self).errors@) == errors_view(old(self).errors@) + check_if_expr(func_name@, *ex, tld_map@, locals@).errs,
            final(self).halted == check_if_expr(func_name@, *ex, tld_map@, locals@).halted,
            ty_matches(r, check_if_expr(func_name@, *ex, tld_map@, locals@).ty),
        decreases ex, 4int,
    {
        let ghost e0 = errors_view(self.errors@);
        match &ex.kind {
            ExpressionNodeKind::IF(cond_expr, body) => {
                let ghost co = condition_outcome(**cond_expr, resolve_expr(func_name@, **cond_expr, tld_map@, locals@));
                if self.detect_conditional_expression_error(func_name, cond_expr, tld_map, locals) {
                    return None;
                }
                let ghost e1 = errors_view(self.errors@);
                let ghost b = check_block(func_name@, body@, tld_map@, locals@);
                proof { assert(decreases_to!(*ex => body@)); }
                let t = self.check_block_statement(func_name, body, tld_map, locals);
                assert(errors_view(self.errors@) =~= e0 + (co.errs + b.errs));
                if self.halted {
                    return None;
                }
                t
            },
            _ => vstd::pervasive::unreached(),
        }
    }

    fn check_ifelse(
        &mut self,
        func_name: &str,
        ex: &ExpressionNode,
        tld_map: &NameMap<TopLevelDecl>,
        locals: &NameMap<PVariable>,
    ) -> (r: Option<PType>)
        requires
            !old(self).halted,
            ex.kind is IFELSE,
            tld_map.wf(),
            locals.wf(),
            tld_wf(tld_map@),
        ensures
            errors_view(final(self).errors@) == errors_view(old(self).errors@) + check_if_expr(func_name@, *ex, tld_map@, locals@).errs,
            final(self).halted == check_if_expr(func_name@, *ex, tld_map@, locals@).halted,
            ty_matches(r, check_if_expr(func_name@, *ex, tld_map@, locals@).ty),
        decreases ex, 4int,
    {
        let ghost e0 = errors_view(self.errors@);
        match &ex.kind {
            ExpressionNodeKind::IFELSE(cond_expr, body, alter) => {
                let ghost co = condition_outcome(**cond_expr, resolve_expr(func_name@, **cond_expr, tld_map@, locals@));
                if self.detect_conditional_expression_error(func_name, cond_expr, tld_map, locals) {
                    return None;
                }
                let ghost b = check_block(func_name@, body@, tld_map@, locals@);
                let ghost a = check_block(func_name@, alter@, tld_map@, locals@);
                proof { assert(decreases_to!(*ex => body@)); }
                let body_type = self.check_block_statement(func_name, body, tld_map, locals);
                if self.halted {
                    assert(errors_view(self.errors@) =~= e0 + (co.errs + b.errs));
                    return None;
                }
                proof { assert(decreases_to!(*ex => alter@)); }
                let alter_type = self.check_block_statement(func_name, alter, tld_map, locals);
                assert(errors_view(self.errors@) =~= e0 + (co.errs + b.errs + a.errs));
                if self.halted {
                    return None;
                }
                let same = match (&body_type, &alter_type) {
                    (None, None) => true,
                    (Some(x), Some(y)) => x.ptype_eq(y),
                    _ => false,
                };
                if !same {
                    self.error_at(CmpErrorKind::BOTHBLOCKSMUSTBESAMETYPE, ex.copy_pos());
                    assert(errors_view(self.errors@) =~= e0 + (co.errs + b.errs + a.errs).push(
                        err(CmpErrorKindV::BOTHBLOCKSMUSTBESAMETYPE, ex.position),
                    ));
                    return None;
                }
                body_type
            },
            _ => vstd::pervasive::unreached(),
        }
    }

    /// Checks the first `ifret` statement of a block, which gives the block's type.
    pub fn check_block_statement(
        &mut self,
        func_name: &str,
        block: &Vec<StatementNode>,
        tld_map: &NameMap<TopLevelDecl>,
        locals: &NameMap<PVariable>,
    ) -> (r: Option<PType>)
        requires
            !old(self).halted,
            tld_map.wf(),
            locals.wf(),
            tld_wf(tld_map@),
        ensures
            errors_view(final(self).errors@) == errors_view(old(self).errors@) + check_block(func_name@, block@, tld_map@, locals@).errs,
            final(self).halted == check_block(func_name@, block@, tld_map@, locals@).halted,
            ty_matches(r, check_block(func_name@, block@, tld_map@, locals@).ty),
        decreases block@, 3int,
    {
        let mut i: usize = 0;
        while i < block.len()
            invariant
                i <= block.len(),
                first_ifret_from(block@, 0) == first_ifret_from(block@, i as int),
                !self.halted,
                tld_map.wf(),
                locals.wf(),
                tld_wf(tld_map@),
                self.errors@ == old(self).errors@,
            decreases block.len() - i,
        {
            if self.is_ifret(&block[i]) {
                proof { assert(decreases_to!(block@ => block@[i as int])); }
                return self.check_statement(func_name, &block[i], tld_map, locals);
            }
            i = i + 1;
        }
        assert(errors_view(self.errors@) =~= errors_view(self.errors@) + Seq::<CompileErrorV>::empty());
        None
    }

    /// The outcome of an assignment whose two sides were checked; with `const_check`,
    /// assigning to a constant is an error.
    fn check_assignment(
        &mut self,
        assign_pos: Position,
        lvalue: &ExpressionNode,
        rvalue: &ExpressionNode,
        lvalue_type: Option<PType>,
        rvalue_type: Option<PType>,
        locals: &NameMap<PVariable>,
        const_check: bool,
        Ghost(lo): Ghost<Checked>,
        Ghost(ro): Ghost<Checked>,
        Ghost(e0): Ghost<Seq<CompileErrorV>>,
    ) -> (r: Option<PType>)
        requires
            !old(self).halted,
            !lo.halted,
            !ro.halted,
            locals.wf(),
            ty_matches(lvalue_type, lo.ty),
            ty_matches(rvalue_type, ro.ty),
            errors_view(old(self).errors@) == e0 + (lo.errs + ro.errs),
        ensures
            ({
                let out = assignment_outcome(assign_pos, *lvalue, *rvalue, lo, ro, locals@, const_check);
                &&& errors_view(final(self).errors@) == e0 + out.errs
                &&& final(self).halted == out.halted
                &&& ty_matches(r, out.ty)
            }),
    {
        if lvalue_type.is_none() || rvalue_type.is_none() {
            let l = lvalue.to_string();
            let rs = rvalue.to_string();
            self.error_at(CmpErrorKind::CANNOTASSIGNMENTUNRESOLVEDRIGHTVALUE(l, rs), assign_pos);
            return None;
        }
        if const_check {
            if !has_path(lvalue) {
                self.halted = true;
                return None;
            }
            let ids = lvalue.get_ident_ids();
            let key = join_path(&ids);
            if let Some(pvar) = locals.get(key.as_str()) {
                if pvar.is_constant() {
                    let l = lvalue.to_string();
                    self.error_at(CmpErrorKind::CANNOTASSIGNMENTTOCONSTANTAFTERINITIALIZATION(l), assign_pos);
                    return None;
                }
            }
        }
        let lt = lvalue_type.unwrap();
        let rt = rvalue_type.unwrap();
        if !lt.ptype_eq(&rt) {
            let t1 = type_text(&lt);
            let t2 = type_text(&rt);
            self.error_at(CmpErrorKind::BOTHVALUESMUSTBESAMETYPEINASSIGNMENT(t1, t2), assign_pos);
            return None;
        }
        Some(rt)
    }

    fn check_return(
        &mut self,
        func_name: &str,
        st: &StatementNode,
        tld_map: &NameMap<TopLevelDecl>,
        locals: &NameMap<PVariable>,
    ) -> (r: Option<PType>)
        requires
            !old(self).halted,
            st.kind is RETURN,
            tld_map.wf(),
            locals.wf(),
            tld_wf(tld_map@),
        ensures
            errors_view(final(self).errors@) == errors_view(old(self).errors@) + check_stmt(func_name@, *st, tld_map@, locals@).errs,
            final(self).halted == check_stmt(func_name@, *st, tld_map@, locals@).halted,
            ty_matches(r, check_stmt(func_name@, *st, tld_map@, locals@).ty),
        decreases st, 1int,
    {
        let ghost e0 = errors_view(self.errors@);
        match &st.kind {
            StatementNodeKind::RETURN(return_expr) => {
                    let this_func = match tld_map.get(func_name) {
                        Some(f) => f,
                        None => {
                            self.halted = true;
                            assert(errors_view(self.errors@) =~= e0 + Seq::<CompileErrorV>::empty());
                            return None;
                        },
                    };
                    let ret = match &this_func.kind {
                        TLDKind::FN(ret, _) => ret,
                        _ => {
                            self.halted = true;
                            assert(errors_view(self.errors@) =~= e0 + Seq::<CompileErrorV>::empty());
                            return None;
                        },
                    };
                    let ghost errs0: Seq<CompileErrorV> = if ret.kind is NORETURN {
                        seq![err(CmpErrorKindV::RETURNINNORETURNFUNC, st.position)]
                    } else {
                        Seq::empty()
                    };
                    if let PTypeKind::NORETURN = ret.kind {
                        self.error_at(CmpErrorKind::RETURNINNORETURNFUNC, st.copy_pos());
                    }
                    assert(errors_view(self.errors@) =~= e0 + errs0);
                    let ghost c = check_expr(func_name@, *return_expr, tld_map@, locals@);
                    let return_type = self.check_expression(func_name, return_expr, tld_map, locals);
                    assert(errors_view(self.errors@) =~= e0 + (errs0 + c.errs));
                    if self.halted || return_type.is_none() {
                        self.halted = true;
                        return None;
                    }
                    let return_type = return_type.unwrap();
                    if return_type.is_pointer() && return_type.ref_local() {
                        self.error_at(CmpErrorKind::RETURNLOCALADDRESS, st.copy_pos());
                        assert(errors_view(self.errors@) =~= e0 + (errs0 + c.errs).push(err(CmpErrorKindV::RETURNLOCALADDRESS, st.position)));
                    }
                    None
                },
            _ => vstd::pervasive::unreached(),
        }
    }

    /// Checks a statement of the function `func_name`.
    pub fn check_statement(
        &mut self,
        func_name: &str,
        st: &StatementNode,
        tld_map: &NameMap<TopLevelDecl>,
        locals: &NameMap<PVariable>,
    ) -> (r: Option<PType>)
        requires
            !old(self).halted,
            tld_map.wf(),
            locals.wf(),
            tld_wf(tld_map@),
        ensures
            errors_view(final(self).errors@) == errors_view(old(self).errors@) + check_stmt(func_name@, *st, tld_map@, locals@).errs,
            final(self).halted == check_stmt(func_name@, *st, tld_map@, locals@).halted,
            ty_matches(r, check_stmt(func_name@, *st, tld_map@, locals@).ty),
        decreases st, 2int,
    {
        let ghost e0 = errors_view(self.errors@);
        match &st.kind {
            StatementNodeKind::RETURN(_) => self.check_return(func_name, st, tld_map, locals),
            StatementNodeKind::IFRET(return_expr) => self.check_expression(func_name, return_expr, tld_map, locals),
            StatementNodeKind::EXPR(expr) => self.check_expression(func_name, expr, tld_map, locals),
            StatementNodeKind::VARINIT(ident, expr) => {
                let lt = self.try_to_resolve_expression(func_name, ident, tld_map, locals);
                if self.halted {
                    return None;
                }
                let rt = self.try_to_resolve_expression(func_name, expr, tld_map, locals);
                proof {
                    let lo = resolve_expr(func_name@, *ident, tld_map@, locals@);
                    let ro = resolve_expr(func_name@, *expr, tld_map@, locals@);
                    assert(errors_view(self.errors@) =~= e0 + (lo.errs + ro.errs));
                }
                if self.halted {
                    return None;
                }
                self.check_assignment(st.copy_pos(), ident, expr, lt, rt, locals, false, Ghost(
                    resolve_expr(func_name@, *ident, tld_map@, locals@),
                ), Ghost(resolve_expr(func_name@, *expr, tld_map@, locals@)), Ghost(e0))
            },
            _ => {
                assert(errors_view(self.errors@) =~= e0 + Seq::<CompileErrorV>::empty());
                None
            },
        }
    }
}

/// Checks the body of one function; the errors found, and whether checking stopped.
pub fn type_check_fn(
    build_opt: &BuildOption,
    tld_map: &NameMap<TopLevelDecl>,
    func_name: &str,
    this_func: &PFunction,
) -> (r: (Vec<CompileError>, bool))
    requires
        tld_map.wf(),
        this_func.wf(),
        tld_wf(tld_map@),
    ensures
        errors_view(r.0@) == check_stmts(func_name@, this_func.stmts@, tld_map@, this_func.locals@).0,
        r.1 == check_stmts(func_name@, this_func.stmts@, tld_map@, this_func.locals@).1,
{
    let stmts = this_func.get_statements();
    let locals = this_func.get_locals();
    let mut checker = TypeChecker::new(build_opt);
    let mut i: usize = 0;
    while i < stmts.len()
        invariant
            i <= stmts.len(),
            *stmts == this_func.stmts,
            *locals == this_func.locals,
            tld_map.wf(),
            locals.wf(),
            tld_wf(tld_map@),
            !checker.halted,
            check_stmts(func_name@, stmts@.take(i as int), tld_map@, locals@) == (errors_view(checker.errors@), false),
        decreases stmts.len() - i,
    {
        proof {
            assert(stmts@.take(i + 1).drop_last() == stmts@.take(i as int));
            assert(stmts@.take(i + 1).last() == stmts@[i as int]);
        }
        let _ = checker.check_statement(func_name, &stmts[i], tld_map, locals);
        if checker.halted {
            proof {
                lemma_check_stmts_stop(func_name@, stmts@, i as int + 1, tld_map@, locals@);
            }
            return (checker.give_errors(), true);
        }
        i = i + 1;
    }
    assert(stmts@.take(stmts.len() as int) == stmts@);
    (checker.give_errors(), false)
}

/// Once checking stops, later statements change nothing.
proof fn lemma_check_stmts_stop(
    fname: Seq<char>,
    stmts: Seq<StatementNode>,
    n: int,
    tld: Map<Seq<char>, TopLevelDecl>,
    locals: Map<Seq<char>, PVariable>,
)
    requires
        0 <= n <= stmts.len(),
        check_stmts(fname, stmts.take(n), tld, locals).1,
    ensures
        check_stmts(fname, stmts, tld, locals) == check_stmts(fname, stmts.take(n), tld, locals),
    decreases stmts.len() - n,
{
    if n == stmts.len() {
        assert(stmts.take(n) == stmts);
    } else {
        assert(stmts.take(n + 1).drop_last() == stmts.take(n));
        lemma_check_stmts_stop(fname, stmts, n + 1, tld, locals);
    }
}

/// Checks every function of a program in name order, and that `main` is there with
/// the right signature.
pub fn type_check_program(
    build_option: &BuildOption,
    func_map: &NameMap<PFunction>,
    tld_map: &NameMap<TopLevelDecl>,
) -> (out: TypeCheckOutcome)
    requires
        func_map.wf(),
        crate::root::functions_wf(func_map@),
        tld_map.wf(),
        tld_wf(tld_map@),
    ensures
        out@ == program_outcome(func_map.names(), func_map.values(), tld_map@, 0, false),
{
    proof { reveal_strlit("main"); }
    let mut main_exists = false;
    let mut i: usize = 0;
    let n = func_map.len();
    while i < n
        invariant
            n == func_map.names().len(),
            i <= n,
            func_map.wf(),
            crate::root::functions_wf(func_map@),
            tld_map.wf(),
            tld_wf(tld_map@),
            program_outcome(func_map.names(), func_map.values(), tld_map@, 0, false)
                == program_outcome(func_map.names(), func_map.values(), tld_map@, i as int, main_exists),
        decreases n - i,
    {
        let (func_name, func) = func_map.entry_at(i);
        let is_main = crate::name_map::compare_strings(func_name.as_str(), "main") == 0;
        if is_main {
            main_exists = true;
            if !func.arg_empty() || !matches!(func.get_return_type().kind, PTypeKind::NORETURN) {
                return TypeCheckOutcome::MainSignature;
            }
        }
        assert(func_map@.contains_key(func_name@));
        let (errors, halted) = type_check_fn(build_option, tld_map, func_name.as_str(), func);
        if halted {
            return TypeCheckOutcome::Halted(func_name.clone());
        }
        if errors.len() != 0 {
            return TypeCheckOutcome::FunctionErrors(func.copy_module_path(), errors);
        }
        i = i + 1;
    }
    if !main_exists {
        return TypeCheckOutcome::MainMissing;
    }
    TypeCheckOutcome::Checked
}

/// Whether the names of a variable can be read from an expression.
fn has_path(e: &ExpressionNode) -> (b: bool)
    ensures
        b == has_ident_path(*e),
    decreases e,
{
    match &e.kind {
        ExpressionNodeKind::IDENT(_) => true,
        ExpressionNodeKind::DEREF(x) => has_path(x),
        ExpressionNodeKind::MEMBER(x, _) => has_path(x),
        _ => false,
    }
}

} // verus!
