use vstd::prelude::*;

use crate::frontend::ast::{Expr, ExprKind};
use crate::frontend::ast_lower::{lower_expr, lower_exprs};
use crate::frontend::typed_ast::{ExprKindV, ExpressionV, FrameObject, PeachiliType};
use crate::ident::strings_view;
use crate::pfunction::path_key;

verus! {

/// The shape of an expression, with its types and frame offsets left out: what it
/// computes and from which parts, in order.
pub enum Shape {
    True,
    False,
    Int(i128),
    UInt(u128),
    Str(Seq<char>),
    Name(Seq<char>),
    Neg(Box<Shape>),
    Call(Box<Shape>, Seq<Shape>),
    Assign(Seq<char>, Box<Shape>),
    Add(Box<Shape>, Box<Shape>),
    Sub(Box<Shape>, Box<Shape>),
    Mul(Box<Shape>, Box<Shape>),
    Div(Box<Shape>, Box<Shape>),
}

/// The shape of a source expression; a path of names is read as its key.
pub open spec fn src_shape(e: Expr) -> Shape
    decreases e,
{
    match e.kind {
        ExprKind::True => Shape::True,
        ExprKind::False => Shape::False,
        ExprKind::Integer { value } => Shape::Int(value),
        ExprKind::UnsignedInteger { value } => Shape::UInt(value),
        ExprKind::StringLiteral { contents } => Shape::Str(contents@),
        ExprKind::Identifier { list } => Shape::Name(path_key(strings_view(list@))),
        ExprKind::Negative { child } => Shape::Neg(Box::new(src_shape(*child))),
        ExprKind::Call { ident, params } => Shape::Call(Box::new(src_shape(*ident)), src_shapes(params@)),
        ExprKind::Assignment { var_name, expr } => Shape::Assign(var_name@, Box::new(src_shape(*expr))),
        ExprKind::Addition { lhs, rhs } => Shape::Add(Box::new(src_shape(*lhs)), Box::new(src_shape(*rhs))),
        ExprKind::Subtraction { lhs, rhs } => Shape::Sub(Box::new(src_shape(*lhs)), Box::new(src_shape(*rhs))),
        ExprKind::Multiplication { lhs, rhs } => Shape::Mul(Box::new(src_shape(*lhs)), Box::new(src_shape(*rhs))),
        ExprKind::Division { lhs, rhs } => Shape::Div(Box::new(src_shape(*lhs)), Box::new(src_shape(*rhs))),
    }
}

pub open spec fn src_shapes(s: Seq<Expr>) -> Seq<Shape>
    decreases s,
{
    if s.len() == 0 {
        Seq::empty()
    } else {
        src_shapes(s.drop_last()).push(src_shape(s.last()))
    }
}

/// The shape of a typed expression; a called function is read as the name of its key.
pub open spec fn typed_shape(x: ExpressionV) -> Shape
    decreases x,
{
    match x.kind {
        ExprKindV::True => Shape::True,
        ExprKindV::False => Shape::False,
        ExprKindV::Integer(v) => Shape::Int(v),
        ExprKindV::UnsignedInteger(v) => Shape::UInt(v),
        ExprKindV::StringLiteral(c, _) => Shape::Str(c),
        ExprKindV::Identifier(list, _) => Shape::Name(path_key(list)),
        ExprKindV::Negative(c) => Shape::Neg(Box::new(typed_shape(*c))),
        ExprKindV::Call(key, ps) => Shape::Call(Box::new(Shape::Name(key)), typed_shapes(ps)),
        ExprKindV::Assignment(n, _, v) => Shape::Assign(n, Box::new(typed_shape(*v))),
        ExprKindV::Addition(l, r) => Shape::Add(Box::new(typed_shape(*l)), Box::new(typed_shape(*r))),
        ExprKindV::Subtraction(l, r) => Shape::Sub(Box::new(typed_shape(*l)), Box::new(typed_shape(*r))),
        ExprKindV::Multiplication(l, r) => Shape::Mul(Box::new(typed_shape(*l)), Box::new(typed_shape(*r))),
        ExprKindV::Division(l, r) => Shape::Div(Box::new(typed_shape(*l)), Box::new(typed_shape(*r))),
    }
}

pub open spec fn typed_shapes(s: Seq<ExpressionV>) -> Seq<Shape>
    decreases s,
{
    if s.len() == 0 {
        Seq::empty()
    } else {
        typed_shapes(s.drop_last()).push(typed_shape(s.last()))
    }
}

/// Lowering keeps the shape of every expression: the typed form, with its types and
/// offsets left out, is the source expression, each operand in its place.
pub proof fn law_lower_keeps_shape(
    e: Expr,
    locals: Map<Seq<char>, FrameObject>,
    env: Map<Seq<char>, PeachiliType>,
    module: Seq<char>,
)
    ensures
        lower_expr(e, locals, env, module) matches Some(x) ==> typed_shape(x) == src_shape(e),
    decreases e,
{
    match e.kind {
        ExprKind::Negative { child } => {
            law_lower_keeps_shape(*child, locals, env, module);
        },
        ExprKind::Call { ident, params } => {
            law_lower_keeps_shape(*ident, locals, env, module);
            law_lower_list_keeps_shape(params@, locals, env, module);
            if let Some(li) = lower_expr(*ident, locals, env, module) {
                if li.kind is Identifier {
                    assert(typed_shape(li) == Shape::Name(path_key(li.kind->Identifier_0)));
                }
            }
        },
        ExprKind::Assignment { var_name, expr } => {
            law_lower_keeps_shape(*expr, locals, env, module);
        },
        ExprKind::Addition { lhs, rhs } => {
            law_lower_keeps_shape(*lhs, locals, env, module);
            law_lower_keeps_shape(*rhs, locals, env, module);
        },
        ExprKind::Subtraction { lhs, rhs } => {
            law_lower_keeps_shape(*lhs, locals, env, module);
            law_lower_keeps_shape(*rhs, locals, env, module);
        },
        ExprKind::Multiplication { lhs, rhs } => {
            law_lower_keeps_shape(*lhs, locals, env, module);
            law_lower_keeps_shape(*rhs, locals, env, module);
        },
        ExprKind::Division { lhs, rhs } => {
            law_lower_keeps_shape(*lhs, locals, env, module);
            law_lower_keeps_shape(*rhs, locals, env, module);
        },
        _ => {},
    }
}

/// Lowering a list of expressions keeps the shape of each, in order.
pub proof fn law_lower_list_keeps_shape(
    s: Seq<Expr>,
    locals: Map<Seq<char>, FrameObject>,
    env: Map<Seq<char>, PeachiliType>,
    module: Seq<char>,
)
    ensures
        lower_exprs(s, locals, env, module) matches Some(xs) ==> typed_shapes(xs) == src_shapes(s),
    decreases s,
{
    if s.len() > 0 {
        law_lower_list_keeps_shape(s.drop_last(), locals, env, module);
        law_lower_keeps_shape(s.last(), locals, env, module);
        if let Some(xs) = lower_exprs(s, locals, env, module) {
            let p = lower_exprs(s.drop_last(), locals, env, module)->Some_0;
            let x = lower_expr(s.last(), locals, env, module)->Some_0;
            assert(xs == p.push(x));
            assert(xs.drop_last() =~= p);
            assert(xs.last() == x);
        }
    }
}

} // verus!
