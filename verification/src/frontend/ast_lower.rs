use vstd::prelude::*;

use crate::frontend::ast::{decl_wf, root_wf, ASTRoot, Expr, ExprKind as HighKind, Stmt, StmtKind, TopLevelDeclKind};
use crate::frontend::parser::qualified;
use crate::frontend::typed_ast::{
    texpr_v, texprs_v, tstmt_v, tstmts_v, Constant, ExprKind, ExprKindV, Expression, ExpressionV,
    FrameObject, Function, PTKind, PeachiliType, Root, Statement, StatementV,
};
use crate::ident::strings_view;
use crate::name_map::NameMap;
use crate::pfunction::{join_path, path_key};
use crate::text::{str_hash, string_hash};

verus! {

/// Why a constant has no value.
#[derive(Debug, PartialEq, Eq)]
pub enum ConstError {
    CannotEvaluate { name: String },
}

/// Why a module could not be lowered: a constant has no value, or a name is found
/// neither among the global names nor among the local variables.
#[derive(Debug, PartialEq, Eq)]
pub enum LowerError {
    Const(ConstError),
    UnknownName,
}

/// The type of a name and its place in the frame: a global name as written, a global
/// name prefixed by the module's, or a local variable.
pub open spec fn find_ident_s(
    env: Map<Seq<char>, PeachiliType>,
    locals: Map<Seq<char>, FrameObject>,
    module: Seq<char>,
    name: Seq<char>,
) -> Option<(PeachiliType, usize)> {
    if env.contains_key(name) {
        Some((env[name], 0))
    } else if env.contains_key(qualified(module, name)) {
        Some((env[qualified(module, name)], 0))
    } else if locals.contains_key(name) {
        Some((locals[name].p_type, locals[name].stack_offset))
    } else {
        None
    }
}

pub open spec fn ptype(k: PTKind, s: usize) -> PeachiliType {
    PeachiliType { kind: k, size: s }
}

/// The typed form of an expression; none where a name cannot be found.
pub open spec fn lower_expr(
    e: Expr,
    locals: Map<Seq<char>, FrameObject>,
    env: Map<Seq<char>, PeachiliType>,
    module: Seq<char>,
) -> Option<ExpressionV>
    decreases e,
{
    match e.kind {
        HighKind::True => Some(ExpressionV { kind: ExprKindV::True, ty: ptype(PTKind::Boolean, 8) }),
        HighKind::False => Some(ExpressionV { kind: ExprKindV::False, ty: ptype(PTKind::Boolean, 8) }),
        HighKind::Identifier { list } => match find_ident_s(env, locals, module, path_key(strings_view(list@))) {
            Some((ty, off)) => Some(ExpressionV { kind: ExprKindV::Identifier(strings_view(list@), off), ty }),
            None => None,
        },
        HighKind::Integer { value } => Some(ExpressionV { kind: ExprKindV::Integer(value), ty: ptype(PTKind::Int64, 8) }),
        HighKind::UnsignedInteger { value } => Some(
            ExpressionV { kind: ExprKindV::UnsignedInteger(value), ty: ptype(PTKind::Uint64, 8) },
        ),
        HighKind::Negative { child } => match lower_expr(*child, locals, env, module) {
            Some(c) => Some(ExpressionV { kind: ExprKindV::Negative(Box::new(c)), ty: c.ty }),
            None => None,
        },
        HighKind::StringLiteral { contents } => Some(
            ExpressionV { kind: ExprKindV::StringLiteral(contents@, str_hash(contents@)), ty: ptype(PTKind::ConstStr, 8) },
        ),
        HighKind::Call { ident, params } => match lower_expr(*ident, locals, env, module) {
            Some(li) => match li.kind {
                ExprKindV::Identifier(list, _) => match lower_exprs(params@, locals, env, module) {
                    Some(ps) => Some(ExpressionV { kind: ExprKindV::Call(path_key(list), ps), ty: li.ty }),
                    None => None,
                },
                _ => None,
            },
            None => None,
        },
        HighKind::Assignment { var_name, expr } => match find_ident_s(env, locals, module, var_name@) {
            Some((ty, off)) => match lower_expr(*expr, locals, env, module) {
                Some(x) => Some(ExpressionV { kind: ExprKindV::Assignment(var_name@, off, Box::new(x)), ty }),
                None => None,
            },
            None => None,
        },
        HighKind::Addition { lhs, rhs } => match (lower_expr(*lhs, locals, env, module), lower_expr(*rhs, locals, env, module)) {
            (Some(l), Some(r)) => Some(ExpressionV { kind: ExprKindV::Addition(Box::new(l), Box::new(r)), ty: l.ty }),
            _ => None,
        },
        HighKind::Subtraction { lhs, rhs } => match (lower_expr(*lhs, locals, env, module), lower_expr(*rhs, locals, env, module)) {
            (Some(l), Some(r)) => Some(ExpressionV { kind: ExprKindV::Subtraction(Box::new(l), Box::new(r)), ty: l.ty }),
            _ => None,
        },
        HighKind::Multiplication { lhs, rhs } => match (lower_expr(*lhs, locals, env, module), lower_expr(*rhs, locals, env, module)) {
            (Some(l), Some(r)) => Some(ExpressionV { kind: ExprKindV::Multiplication(Box::new(l), Box::new(r)), ty: l.ty }),
            _ => None,
        },
        HighKind::Division { lhs, rhs } => match (lower_expr(*lhs, locals, env, module), lower_expr(*rhs, locals, env, module)) {
            (Some(l), Some(r)) => Some(ExpressionV { kind: ExprKindV::Division(Box::new(l), Box::new(r)), ty: l.ty }),
            _ => None,
        },
    }
}

/// The typed forms of a list of expressions; none where one has none.
pub open spec fn lower_exprs(
    s: Seq<Expr>,
    locals: Map<Seq<char>, FrameObject>,
    env: Map<Seq<char>, PeachiliType>,
    module: Seq<char>,
) -> Option<Seq<ExpressionV>>
    decreases s,
{
    if s.len() == 0 {
        Some(Seq::empty())
    } else {
        match (lower_exprs(s.drop_last(), locals, env, module), lower_expr(s.last(), locals, env, module)) {
            (Some(p), Some(x)) => Some(p.push(x)),
            _ => None,
        }
    }
}

/// The state while lowering a body: the local variables and the frame's size so far.
pub struct LowerState {
    pub locals: Map<Seq<char>, FrameObject>,
    pub offset: usize,
}

/// The typed form of a statement and the state after it; none where a name cannot
/// be found or the frame outgrows `usize`.
pub open spec fn lower_stmt(
    st: Stmt,
    s: LowerState,
    env: Map<Seq<char>, PeachiliType>,
    module: Seq<char>,
) -> Option<(StatementV, LowerState)>
    decreases st,
{
    match st.kind {
        StmtKind::Expr { expr } => match lower_expr(expr, s.locals, env, module) {
            Some(x) => Some((StatementV::Expr(x), s)),
            None => None,
        },
        StmtKind::Declare { var_name, type_names } => match find_ident_s(env, s.locals, module, path_key(strings_view(type_names@))) {
            Some((ty, _)) => if s.offset + ty.size > usize::MAX {
                None
            } else {
                let off = (s.offset + ty.size) as usize;
                Some((
                    StatementV::Nop,
                    LowerState { locals: s.locals.insert(var_name@, FrameObject { stack_offset: off, p_type: ty }), offset: off },
                ))
            },
            None => None,
        },
        StmtKind::Asm { insts } => Some((StatementV::Asm(strings_view(insts@)), s)),
        StmtKind::Block { stmts } => match lower_stmts(stmts@, s, env, module) {
            Some((b, s2)) => Some((StatementV::Block(b), s2)),
            None => None,
        },
        StmtKind::HalfOpenCountup { block, id, from, lessthan } => match (
            find_ident_s(env, s.locals, module, id@),
            lower_expr(from, s.locals, env, module),
            lower_expr(lessthan, s.locals, env, module),
        ) {
            (Some((_, off)), Some(f), Some(t)) => match lower_stmts(block@, s, env, module) {
                Some((b, s2)) => Some((StatementV::HalfOpenCountup(b, id@, off, f, t), s2)),
                None => None,
            },
            _ => None,
        },
        StmtKind::ClosedCountup { block, id, from, to } => match (
            find_ident_s(env, s.locals, module, id@),
            lower_expr(from, s.locals, env, module),
            lower_expr(to, s.locals, env, module),
        ) {
            (Some((_, off)), Some(f), Some(t)) => match lower_stmts(block@, s, env, module) {
                Some((b, s2)) => Some((StatementV::ClosedCountup(b, id@, off, f, t), s2)),
                None => None,
            },
            _ => None,
        },
    }
}

/// The typed forms of statements in order, the state threaded through them.
pub open spec fn lower_stmts(
    sts: Seq<Stmt>,
    s: LowerState,
    env: Map<Seq<char>, PeachiliType>,
    module: Seq<char>,
) -> Option<(Seq<StatementV>, LowerState)>
    decreases sts,
{
    if sts.len() == 0 {
        Some((Seq::empty(), s))
    } else {
        match lower_stmts(sts.drop_last(), s, env, module) {
            Some((p, s2)) => match lower_stmt(sts.last(), s2, env, module) {
                Some((x, s3)) => Some((p.push(x), s3)),
                None => None,
            },
            None => None,
        }
    }
}

/// The value of a constant's expression: an integer literal within `i64`, or an
/// unsigned one within `u64`.
pub open spec fn const_value(e: Expr) -> Option<Constant> {
    match e.kind {
        HighKind::Integer { value } => if value > i64::MAX {
            None
        } else {
            Some(Constant::Integer(value as i64))
        },
        HighKind::UnsignedInteger { value } => if value > u64::MAX {
            None
        } else {
            Some(Constant::UnsignedInteger(value as u64))
        },
        _ => None,
    }
}

/// The value of a constant.
pub fn evaluate_constant_expr(const_name: &String, const_expr: &Expr) -> (r: Result<Constant, ConstError>)
    ensures
        match const_value(*const_expr) {
            Some(c) => r == Ok::<Constant, ConstError>(c),
            None => r matches Err(ConstError::CannotEvaluate { name }) && name@ == const_name@,
        },
{
    match const_expr.kind {
        HighKind::Integer { value } => {
            if value > 9223372036854775807i128 {
                Err(ConstError::CannotEvaluate { name: const_name.clone() })
            } else {
                Ok(Constant::Integer(value as i64))
            }
        },
        HighKind::UnsignedInteger { value } => {
            if value > 18446744073709551615u128 {
                Err(ConstError::CannotEvaluate { name: const_name.clone() })
            } else {
                Ok(Constant::UnsignedInteger(value as u64))
            }
        },
        _ => Err(ConstError::CannotEvaluate { name: const_name.clone() }),
    }
}

/// The type of a name and its place in the frame, where it is found.
pub fn find_identifier_type_forcibly(
    type_env: &NameMap<PeachiliType>,
    local_variables: &NameMap<FrameObject>,
    ref_module_name: &str,
    name: &str,
) -> (r: Option<(PeachiliType, usize)>)
    requires
        type_env.wf(),
        local_variables.wf(),
    ensures
        r == find_ident_s(type_env@, local_variables@, ref_module_name@, name@),
{
    if let Some(id_ty) = type_env.get(name) {
        return Some((*id_ty, 0));
    }
    let mut v = crate::text::collect_chars(ref_module_name);
    crate::text::push_str(&mut v, "::");
    crate::text::push_str(&mut v, name);
    let q = crate::text::chars_to_string(v.as_slice());
    if let Some(id_ty) = type_env.get(q.as_str()) {
        return Some((*id_ty, 0));
    }
    match local_variables.get(name) {
        Some(obj) => Some((obj.p_type, obj.stack_offset)),
        None => None,
    }
}

/// The typed forms of a list of expressions.
fn exprs_to_lower(
    params: &Vec<Expr>,
    local_variables: &NameMap<FrameObject>,
    type_env: &NameMap<PeachiliType>,
    ref_module_name: &str,
    stack_offset: &mut usize,
) -> (r: Option<Vec<Expression>>)
    requires
        type_env.wf(),
        local_variables.wf(),
    ensures
        *final(stack_offset) == *old(stack_offset),
        match r {
            Some(v) => lower_exprs(params@, local_variables@, type_env@, ref_module_name@) == Some(texprs_v(v@)),
            None => lower_exprs(params@, local_variables@, type_env@, ref_module_name@) is None,
        },
    decreases params, 2int,
{
    let mut out: Vec<Expression> = Vec::new();
    let mut i: usize = 0;
    while i < params.len()
        invariant
            i <= params.len(),
            type_env.wf(),
            local_variables.wf(),
            *stack_offset == *old(stack_offset),
            lower_exprs(params@.take(i as int), local_variables@, type_env@, ref_module_name@) == Some(texprs_v(out@)),
        decreases params.len() - i,
    {
        proof {
            assert(decreases_to!(params => params@[i as int]));
            assert(params@.take(i + 1).drop_last() == params@.take(i as int));
            assert(params@.take(i + 1).last() == params@[i as int]);
        }
        match expr_to_lower(&params[i], local_variables, type_env, ref_module_name, stack_offset) {
            Some(x) => {
                let ghost before = out@;
                out.push(x);
                assert(out@.drop_last() == before);
            },
            None => {
                proof { lemma_lower_exprs_none(params@, local_variables@, type_env@, ref_module_name@, i as int + 1); }
                return None;
            },
        }
        i = i + 1;
    }
    assert(params@.take(params.len() as int) == params@);
    Some(out)
}

proof fn lemma_lower_exprs_none(
    s: Seq<Expr>,
    locals: Map<Seq<char>, FrameObject>,
    env: Map<Seq<char>, PeachiliType>,
    module: Seq<char>,
    n: int,
)
    requires
        0 <= n <= s.len(),
        lower_exprs(s.take(n), locals, env, module) is None,
    ensures
        lower_exprs(s, locals, env, module) is None,
    decreases s.len() - n,
{
    if n == s.len() {
        assert(s.take(n) == s);
    } else {
        assert(s.take(n + 1).drop_last() == s.take(n));
        lemma_lower_exprs_none(s, locals, env, module, n + 1);
    }
}

/// The typed form of an expression: literals get their types, names the types and
/// places found for them, a call the type of its callee, an arithmetic expression
/// the type of its left operand.
pub fn expr_to_lower(
    expr: &Expr,
    local_variables: &NameMap<FrameObject>,
    type_env: &NameMap<PeachiliType>,
    ref_module_name: &str,
    stack_offset: &mut usize,
) -> (r: Option<Expression>)
    requires
        type_env.wf(),
        local_variables.wf(),
    ensures
        *final(stack_offset) == *old(stack_offset),
        match r {
            Some(x) => lower_expr(*expr, local_variables@, type_env@, ref_module_name@) == Some(texpr_v(x)),
            None => lower_expr(*expr, local_variables@, type_env@, ref_module_name@) is None,
        },
    decreases expr, 1int,
{
    match &expr.kind {
        HighKind::True => Some(Expression::new(ExprKind::True, PeachiliType::new(PTKind::Boolean, 8))),
        HighKind::False => Some(Expression::new(ExprKind::False, PeachiliType::new(PTKind::Boolean, 8))),
        HighKind::Identifier { list } => {
            let name = join_path(list);
            match find_identifier_type_forcibly(type_env, local_variables, ref_module_name, name.as_str()) {
                Some((id_ty, offset)) => Some(Expression::new(
                    ExprKind::Identifier { list: crate::ast::copy_strings(list), stack_offset: offset },
                    id_ty,
                )),
                None => None,
            }
        },
        HighKind::Integer { value } => Some(Expression::new(ExprKind::Integer { value: *value }, PeachiliType::new(PTKind::Int64, 8))),
        HighKind::UnsignedInteger { value } => Some(
            Expression::new(ExprKind::UnsignedInteger { value: *value }, PeachiliType::new(PTKind::Uint64, 8)),
        ),
        HighKind::Negative { child } => {
            match expr_to_lower(child, local_variables, type_env, ref_module_name, stack_offset) {
                Some(child_expr) => {
                    let neg_ty = child_expr.ty;
                    Some(Expression::new(ExprKind::Negative { child: Box::new(child_expr) }, neg_ty))
                },
                None => None,
            }
        },
        HighKind::StringLiteral { contents } => {
            let id = string_hash(contents);
            Some(Expression::new(
                ExprKind::StringLiteral { contents: contents.clone(), id },
                PeachiliType::new(PTKind::ConstStr, 8),
            ))
        },
        HighKind::Call { ident, params } => {
            let lower_ident = match expr_to_lower(ident, local_variables, type_env, ref_module_name, stack_offset) {
                Some(x) => x,
                None => return None,
            };
            let call_ty = lower_ident.ty;
            let ident_name = match &lower_ident.kind {
                ExprKind::Identifier { list, stack_offset: _ } => join_path(list),
                _ => return None,
            };
            match exprs_to_lower(params, local_variables, type_env, ref_module_name, stack_offset) {
                Some(lower_params) => Some(Expression::new(ExprKind::Call { ident: ident_name, params: lower_params }, call_ty)),
                None => None,
            }
        },
        HighKind::Assignment { var_name, expr: var_expr } => {
            let (id_ty, offset) = match find_identifier_type_forcibly(type_env, local_variables, ref_module_name, var_name.as_str()) {
                Some(x) => x,
                None => return None,
            };
            match expr_to_lower(var_expr, local_variables, type_env, ref_module_name, stack_offset) {
                Some(ex) => Some(Expression::new(
                    ExprKind::Assignment { var_name: var_name.clone(), var_stack_offset: offset, expr: Expression::new_edge(ex) },
                    id_ty,
                )),
                None => None,
            }
        },
        HighKind::Addition { .. } | HighKind::Subtraction { .. } | HighKind::Multiplication { .. }
        | HighKind::Division { .. } => binary_expr_to_lower(expr, local_variables, type_env, ref_module_name, stack_offset),
    }
}

/// The typed form of an arithmetic expression: both operands lowered; the type is
/// the left operand's.
pub fn binary_expr_to_lower(
    ex: &Expr,
    local_variables: &NameMap<FrameObject>,
    type_env: &NameMap<PeachiliType>,
    ref_module_name: &str,
    stack_offset: &mut usize,
) -> (r: Option<Expression>)
    requires
        type_env.wf(),
        local_variables.wf(),
        ex.kind is Addition || ex.kind is Subtraction || ex.kind is Multiplication || ex.kind is Division,
    ensures
        *final(stack_offset) == *old(stack_offset),
        match r {
            Some(x) => lower_expr(*ex, local_variables@, type_env@, ref_module_name@) == Some(texpr_v(x)),
            None => lower_expr(*ex, local_variables@, type_env@, ref_module_name@) is None,
        },
    decreases ex, 0int,
{
    let (lhs, rhs) = match &ex.kind {
        HighKind::Addition { lhs, rhs } => (lhs, rhs),
        HighKind::Subtraction { lhs, rhs } => (lhs, rhs),
        HighKind::Multiplication { lhs, rhs } => (lhs, rhs),
        HighKind::Division { lhs, rhs } => (lhs, rhs),
        _ => vstd::pervasive::unreached(),
    };
    let lhs = expr_to_lower(lhs, local_variables, type_env, ref_module_name, stack_offset);
    let rhs = expr_to_lower(rhs, local_variables, type_env, ref_module_name, stack_offset);
    let (lhs, rhs) = match (lhs, rhs) {
        (Some(l), Some(r)) => (l, r),
        _ => return None,
    };
    let lhs_ty = lhs.ty;
    let ty = PeachiliType::new(lhs_ty.kind, lhs_ty.size);
    match &ex.kind {
        HighKind::Addition { .. } => Some(Expression::new(
            ExprKind::Addition { lhs: Expression::new_edge(lhs), rhs: Expression::new_edge(rhs) },
            ty,
        )),
        HighKind::Subtraction { .. } => Some(Expression::new(
            ExprKind::Subtraction { lhs: Expression::new_edge(lhs), rhs: Expression::new_edge(rhs) },
            ty,
        )),
        HighKind::Multiplication { .. } => Some(Expression::new(
            ExprKind::Multiplication { lhs: Expression::new_edge(lhs), rhs: Expression::new_edge(rhs) },
            ty,
        )),
        _ => Some(Expression::new(
            ExprKind::Division { lhs: Expression::new_edge(lhs), rhs: Expression::new_edge(rhs) },
            ty,
        )),
    }
}

/// The typed form of a statement and the local variables after it, where every
/// name it uses is found: `declare` adds a variable placed after the frame so far.
pub fn stmt_to_lower(
    stmt: &Stmt,
    local_variables: NameMap<FrameObject>,
    type_env: &NameMap<PeachiliType>,
    ref_module_name: &str,
    stack_offset: &mut usize,
) -> (r: Option<(Statement, NameMap<FrameObject>)>)
    requires
        type_env.wf(),
        local_variables.wf(),
    ensures
        match lower_stmt(*stmt, LowerState { locals: local_variables@, offset: *old(stack_offset) }, type_env@, ref_module_name@) {
            Some((sv, s2)) => r matches Some((st, lv)) && tstmt_v(st) == sv && lv@ == s2.locals && lv.wf()
                && *final(stack_offset) == s2.offset,
            None => r is None,
        },
    decreases stmt, 0int,
{
    match &stmt.kind {
        StmtKind::Expr { expr: expr_info } => {
            match expr_to_lower(expr_info, &local_variables, type_env, ref_module_name, stack_offset) {
                Some(ex) => Some((Statement::Expr { expr: ex }, local_variables)),
                None => None,
            }
        },
        StmtKind::Declare { var_name, type_names } => {
            let tname = join_path(type_names);
            let id_ty = match find_identifier_type_forcibly(type_env, &local_variables, ref_module_name, tname.as_str()) {
                Some((t, _)) => t,
                None => return None,
            };
            if id_ty.size > usize::MAX - *stack_offset {
                return None;
            }
            *stack_offset = *stack_offset + id_ty.size;
            let mut local_variables = local_variables;
            let _ = local_variables.insert(var_name.clone(), FrameObject { stack_offset: *stack_offset, p_type: id_ty });
            Some((Statement::Nop, local_variables))
        },
        StmtKind::Asm { insts } => Some((Statement::Asm { insts: crate::ast::copy_strings(insts) }, local_variables)),
        StmtKind::Block { stmts } => {
            proof { assert(decreases_to!(*stmt => stmts@)); }
            match stmts_to_lower(stmts, local_variables, type_env, ref_module_name, stack_offset) {
                Some((b, lv)) => Some((Statement::Block { stmts: b }, lv)),
                None => None,
            }
        },
        StmtKind::HalfOpenCountup { block, id, from, lessthan } => {
            let (_, off) = match find_identifier_type_forcibly(type_env, &local_variables, ref_module_name, id.as_str()) {
                Some(x) => x,
                None => return None,
            };
            let f = match expr_to_lower(from, &local_variables, type_env, ref_module_name, stack_offset) {
                Some(x) => x,
                None => return None,
            };
            let t = match expr_to_lower(lessthan, &local_variables, type_env, ref_module_name, stack_offset) {
                Some(x) => x,
                None => return None,
            };
            proof { assert(decreases_to!(*stmt => block@)); }
            match stmts_to_lower(block, local_variables, type_env, ref_module_name, stack_offset) {
                Some((b, lv)) => Some((
                    Statement::HalfOpenCountup { block: b, var_name: id.clone(), var_stack_offset: off, from: f, lessthan: t },
                    lv,
                )),
                None => None,
            }
        },
        StmtKind::ClosedCountup { block, id, from, to } => {
            let (_, off) = match find_identifier_type_forcibly(type_env, &local_variables, ref_module_name, id.as_str()) {
                Some(x) => x,
                None => return None,
            };
            let f = match expr_to_lower(from, &local_variables, type_env, ref_module_name, stack_offset) {
                Some(x) => x,
                None => return None,
            };
            let t = match expr_to_lower(to, &local_variables, type_env, ref_module_name, stack_offset) {
                Some(x) => x,
                None => return None,
            };
            proof { assert(decreases_to!(*stmt => block@)); }
            match stmts_to_lower(block, local_variables, type_env, ref_module_name, stack_offset) {
                Some((b, lv)) => Some((
                    Statement::ClosedCountup { block: b, var_name: id.clone(), var_stack_offset: off, from: f, to: t },
                    lv,
                )),
                None => None,
            }
        },
    }
}

/// The typed forms of statements in order, the local variables threaded through them.
pub fn stmts_to_lower(
    stmts: &Vec<Stmt>,
    local_variables: NameMap<FrameObject>,
    type_env: &NameMap<PeachiliType>,
    ref_module_name: &str,
    stack_offset: &mut usize,
) -> (r: Option<(Vec<Statement>, NameMap<FrameObject>)>)
    requires
        type_env.wf(),
        local_variables.wf(),
    ensures
        match lower_stmts(stmts@, LowerState { locals: local_variables@, offset: *old(stack_offset) }, type_env@, ref_module_name@) {
            Some((sv, s2)) => r matches Some((st, lv)) && tstmts_v(st@) == sv && lv@ == s2.locals && lv.wf()
                && *final(stack_offset) == s2.offset,
            None => r is None,
        },
    decreases stmts, 1int,
{
    let ghost s0 = LowerState { locals: local_variables@, offset: *stack_offset };
    let mut locals = local_variables;
    let mut out: Vec<Statement> = Vec::new();
    let mut i: usize = 0;
    while i < stmts.len()
        invariant
            i <= stmts.len(),
            type_env.wf(),
            locals.wf(),
            s0 == (LowerState { locals: local_variables@, offset: *old(stack_offset) }),
            lower_stmts(stmts@.take(i as int), s0, type_env@, ref_module_name@)
                == Some((tstmts_v(out@), LowerState { locals: locals@, offset: *stack_offset })),
        decreases stmts.len() - i,
    {
        proof {
            assert(decreases_to!(stmts => stmts@[i as int]));
            assert(stmts@.take(i + 1).drop_last() == stmts@.take(i as int));
            assert(stmts@.take(i + 1).last() == stmts@[i as int]);
        }
        match stmt_to_lower(&stmts[i], locals, type_env, ref_module_name, stack_offset) {
            Some((st, lv)) => {
                let ghost before = out@;
                out.push(st);
                assert(out@.drop_last() == before);
                locals = lv;
            },
            None => {
                proof { lemma_lower_stmts_none(stmts@, s0, type_env@, ref_module_name@, i as int + 1); }
                return None;
            },
        }
        i = i + 1;
    }
    assert(stmts@.take(stmts.len() as int) == stmts@);
    Some((out, locals))
}

proof fn lemma_lower_stmts_none(
    sts: Seq<Stmt>,
    s: LowerState,
    env: Map<Seq<char>, PeachiliType>,
    module: Seq<char>,
    n: int,
)
    requires
        0 <= n <= sts.len(),
        lower_stmts(sts.take(n), s, env, module) is None,
    ensures
        lower_stmts(sts, s, env, module) is None,
    decreases sts.len() - n,
{
    if n == sts.len() {
        assert(sts.take(n) == sts);
    } else {
        assert(sts.take(n + 1).drop_last() == sts.take(n));
        lemma_lower_stmts_none(sts, s, env, module, n + 1);
    }
}

/// The local variables, parameter types and frame size after placing the first `n`
/// parameters one after another (by name order).
pub open spec fn params_lower(
    env: Map<Seq<char>, PeachiliType>,
    module: Seq<char>,
    names: Seq<Seq<char>>,
    tys: Seq<Seq<char>>,
    n: int,
) -> Option<(Map<Seq<char>, FrameObject>, Map<Seq<char>, PeachiliType>, usize)>
    decreases n,
{
    if n <= 0 {
        Some((Map::empty(), Map::empty(), 0))
    } else {
        match params_lower(env, module, names, tys, n - 1) {
            Some((locals, lp, size)) => match find_ident_s(env, locals, module, tys[n - 1]) {
                Some((ty, _)) => if size + ty.size > usize::MAX {
                    None
                } else {
                    let sz = (size + ty.size) as usize;
                    Some((
                        locals.insert(names[n - 1], FrameObject { stack_offset: sz, p_type: ty }),
                        lp.insert(names[n - 1], ty),
                        sz,
                    ))
                },
                None => None,
            },
            None => None,
        }
    }
}

/// The value of a typed function.
pub struct FunctionV {
    pub name: Seq<char>,
    pub return_type: PeachiliType,
    pub params: Map<Seq<char>, PeachiliType>,
    pub locals: Map<Seq<char>, FrameObject>,
    pub stack_size: usize,
    pub stmts: Seq<StatementV>,
}

pub open spec fn function_v(f: Function) -> FunctionV {
    FunctionV {
        name: f.name@,
        return_type: f.return_type,
        params: f.params@,
        locals: f.local_variables@,
        stack_size: f.stack_size,
        stmts: tstmts_v(f.stmts@),
    }
}

/// The typed form of a function: its parameters placed in the frame, its body
/// lowered, its return type looked up by its name.
pub open spec fn lower_fn(
    env: Map<Seq<char>, PeachiliType>,
    module: Seq<char>,
    name: Seq<char>,
    params: NameMap<String>,
    stmts: Seq<Stmt>,
) -> Option<FunctionV> {
    let names = params.names();
    let tys = params.values().map_values(|t: String| t@);
    match params_lower(env, module, names, tys, names.len() as int) {
        Some((locals, lp, size)) => match lower_stmts(stmts, LowerState { locals, offset: size }, env, module) {
            Some((sts, s2)) => if env.contains_key(name) {
                Some(FunctionV { name, return_type: env[name], params: lp, locals: s2.locals, stack_size: s2.offset, stmts: sts })
            } else {
                None
            },
            None => None,
        },
        None => None,
    }
}

/// The typed form of a function.
pub fn fn_to_lower(
    type_env: &NameMap<PeachiliType>,
    ref_module_name: &str,
    fn_name: &String,
    params: &NameMap<String>,
    stmts: &Vec<Stmt>,
) -> (r: Option<Function>)
    requires
        type_env.wf(),
        params.wf(),
    ensures
        match lower_fn(type_env@, ref_module_name@, fn_name@, *params, stmts@) {
            Some(fv) => r matches Some(f) && function_v(f) == fv && f.params.wf() && f.local_variables.wf(),
            None => r is None,
        },
{
    let ghost names = params.names();
    let ghost tys = params.values().map_values(|t: String| t@);
    proof { params.lemma_values_len(); }
    let mut local_variables: NameMap<FrameObject> = NameMap::new();
    let mut lower_params: NameMap<PeachiliType> = NameMap::new();
    let mut fn_stack_size: usize = 0;
    let n = params.len();
    let mut i: usize = 0;
    while i < n
        invariant
            i <= n,
            n == names.len(),
            tys.len() == n,
            names == params.names(),
            tys == params.values().map_values(|t: String| t@),
            params.wf(),
            type_env.wf(),
            local_variables.wf(),
            lower_params.wf(),
            params_lower(type_env@, ref_module_name@, names, tys, i as int)
                == Some((local_variables@, lower_params@, fn_stack_size)),
        decreases n - i,
    {
        let (param_name, param_type_name) = params.entry_at(i);
        let param_type = match find_identifier_type_forcibly(type_env, &local_variables, ref_module_name, param_type_name.as_str()) {
            Some((t, _)) => t,
            None => {
                proof { lemma_params_lower_none(type_env@, ref_module_name@, names, tys, i as int + 1, n as int); }
                return None;
            },
        };
        if param_type.size > usize::MAX - fn_stack_size {
            proof { lemma_params_lower_none(type_env@, ref_module_name@, names, tys, i as int + 1, n as int); }
            return None;
        }
        fn_stack_size = fn_stack_size + param_type.size;
        let _ = local_variables.insert(param_name.clone(), FrameObject { stack_offset: fn_stack_size, p_type: param_type });
        let _ = lower_params.insert(param_name.clone(), param_type);
        i = i + 1;
    }
    let mut offset = fn_stack_size;
    let (lower_stmts, lv) = match stmts_to_lower(stmts, local_variables, type_env, ref_module_name, &mut offset) {
        Some(x) => x,
        None => return None,
    };
    let return_type = match type_env.get(fn_name.as_str()) {
        Some(t) => *t,
        None => return None,
    };
    Some(Function {
        name: fn_name.clone(),
        return_type,
        params: lower_params,
        local_variables: lv,
        stack_size: offset,
        stmts: lower_stmts,
    })
}

proof fn lemma_params_lower_none(
    env: Map<Seq<char>, PeachiliType>,
    module: Seq<char>,
    names: Seq<Seq<char>>,
    tys: Seq<Seq<char>>,
    k: int,
    n: int,
)
    requires
        1 <= k <= n,
        params_lower(env, module, names, tys, k) is None,
    ensures
        params_lower(env, module, names, tys, n) is None,
    decreases n - k,
{
    if k < n {
        lemma_params_lower_none(env, module, names, tys, k + 1, n);
    }
}

/// The value of a typed module.
pub struct RootV {
    pub functions: Seq<FunctionV>,
    pub constants: Map<Seq<char>, Constant>,
}

/// Why lowering failed, as a value.
pub enum LowerErrV {
    CannotEvaluate(Seq<char>),
    UnknownName,
}

/// Lowers the declarations of a module in order: constants evaluated, functions
/// lowered; type aliases and imports give nothing.
pub open spec fn lower_decls(
    env: Map<Seq<char>, PeachiliType>,
    module: Seq<char>,
    ds: Seq<crate::frontend::ast::TopLevelDecl>,
) -> Result<RootV, LowerErrV>
    decreases ds.len(),
{
    if ds.len() == 0 {
        Ok(RootV { functions: Seq::empty(), constants: Map::empty() })
    } else {
        match lower_decls(env, module, ds.drop_last()) {
            Ok(r) => match ds.last().kind {
                TopLevelDeclKind::PubConst { const_name, expr, .. } => match const_value(expr) {
                    Some(c) => Ok(RootV { functions: r.functions, constants: r.constants.insert(const_name@, c) }),
                    None => Err(LowerErrV::CannotEvaluate(const_name@)),
                },
                TopLevelDeclKind::Function { func_name, parameters, stmts, .. } => match lower_fn(env, module, func_name@, parameters, stmts@) {
                    Some(f) => Ok(RootV { functions: r.functions.push(f), constants: r.constants }),
                    None => Err(LowerErrV::UnknownName),
                },
                _ => Ok(r),
            },
            Err(e) => Err(e),
        }
    }
}

/// Lowers a module to its typed form: each constant evaluated, each function lowered
/// with the return types of `resolved_type_env`.
pub fn ast_to_lower(common_root: &ASTRoot, resolved_type_env: &NameMap<PeachiliType>) -> (r: Result<Root, LowerError>)
    requires
        resolved_type_env.wf(),
        root_wf(*common_root),
    ensures
        match lower_decls(resolved_type_env@, common_root.module_name@, common_root.decls@) {
            Ok(rv) => r matches Ok(root) && root.functions@.map_values(|f: Function| function_v(f)) == rv.functions
                && root.constants@ == rv.constants && root.constants.wf(),
            Err(LowerErrV::CannotEvaluate(n)) => r matches Err(LowerError::Const(ConstError::CannotEvaluate { name })) && name@ == n,
            Err(LowerErrV::UnknownName) => r == Err::<Root, LowerError>(LowerError::UnknownName),
        },
{
    let mut constants: NameMap<Constant> = NameMap::new();
    let mut lower_functions: Vec<Function> = Vec::new();
    let ds = &common_root.decls;
    let module = common_root.module_name.as_str();
    let mut i: usize = 0;
    proof {
        assert(ds@.take(0) == Seq::<crate::frontend::ast::TopLevelDecl>::empty());
        assert(lower_functions@.map_values(|f: Function| function_v(f)) =~= Seq::<FunctionV>::empty());
        assert(constants@ =~= Map::<Seq<char>, Constant>::empty());
    }
    while i < ds.len()
        invariant
            i <= ds.len(),
            *ds == common_root.decls,
            module@ == common_root.module_name@,
            root_wf(*common_root),
            resolved_type_env.wf(),
            constants.wf(),
            lower_decls(resolved_type_env@, module@, ds@.take(i as int)) == Ok::<RootV, LowerErrV>(RootV {
                functions: lower_functions@.map_values(|f: Function| function_v(f)),
                constants: constants@,
            }),
        decreases ds.len() - i,
    {
        proof {
            assert(ds@.take(i + 1).drop_last() == ds@.take(i as int));
            assert(ds@.take(i + 1).last() == ds@[i as int]);
            assert(decl_wf(ds@[i as int]));
        }
        match &ds[i].kind {
            TopLevelDeclKind::PubConst { const_name, const_type: _, expr } => {
                match evaluate_constant_expr(const_name, expr) {
                    Ok(c) => {
                        let _ = constants.insert(const_name.clone(), c);
                    },
                    Err(e) => {
                        proof { lemma_lower_decls_err(resolved_type_env@, module@, ds@, i as int + 1); }
                        return Err(LowerError::Const(e));
                    },
                }
            },
            TopLevelDeclKind::Function { func_name, return_type: _, parameters, stmts } => {
                match fn_to_lower(resolved_type_env, module, func_name, parameters, stmts) {
                    Some(f) => {
                        let ghost before = lower_functions@;
                        lower_functions.push(f);
                        assert(lower_functions@.map_values(|f: Function| function_v(f)) =~= before.map_values(
                            |f: Function| function_v(f),
                        ).push(function_v(f)));
                    },
                    None => {
                        proof { lemma_lower_decls_err(resolved_type_env@, module@, ds@, i as int + 1); }
                        return Err(LowerError::UnknownName);
                    },
                }
            },
            _ => {},
        }
        i = i + 1;
    }
    assert(ds@.take(ds.len() as int) == ds@);
    Ok(Root { functions: lower_functions, constants })
}

proof fn lemma_lower_decls_err(
    env: Map<Seq<char>, PeachiliType>,
    module: Seq<char>,
    ds: Seq<crate::frontend::ast::TopLevelDecl>,
    n: int,
)
    requires
        0 <= n <= ds.len(),
        lower_decls(env, module, ds.take(n)) is Err,
    ensures
        lower_decls(env, module, ds) == lower_decls(env, module, ds.take(n)),
    decreases ds.len() - n,
{
    if n == ds.len() {
        assert(ds.take(n) == ds);
    } else {
        assert(ds.take(n + 1).drop_last() == ds.take(n));
        lemma_lower_decls_err(env, module, ds, n + 1);
    }
}

} // verus!
