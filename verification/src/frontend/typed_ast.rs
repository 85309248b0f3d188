use vstd::prelude::*;

use crate::ident::strings_view;
use crate::name_map::NameMap;

verus! {

#[derive(Debug, PartialEq, Eq, PartialOrd, Ord, Clone, Copy, Structural)]
pub enum PTKind {
    Int64,
    Uint64,
    ConstStr,
    Noreturn,
    Boolean,
}

/// A type of the language with its size in bytes.
#[derive(Debug, PartialEq, Eq, PartialOrd, Ord, Clone, Copy, Structural)]
pub struct PeachiliType {
    pub kind: PTKind,
    pub size: usize,
}

impl PeachiliType {
    pub fn new(k: PTKind, s: usize) -> (t: Self)
        ensures
            t.kind == k,
            t.size == s,
    {
        PeachiliType { kind: k, size: s }
    }
}

/// A local variable's place in the stack frame and its type.
#[derive(Debug, PartialEq, Eq, Clone, Copy, Structural)]
pub struct FrameObject {
    pub stack_offset: usize,
    pub p_type: PeachiliType,
}

/// What is known of the names of all modules: the return type of each function,
/// and the type that each type name stands for.
pub struct GlobalEnv {
    pub func_table: NameMap<PeachiliType>,
    pub type_name_table: NameMap<PeachiliType>,
}

impl Default for GlobalEnv {
    fn default() -> (g: Self)
        ensures
            g.wf(),
            g.func_table@ == Map::<Seq<char>, PeachiliType>::empty(),
            g.type_name_table@ == Map::<Seq<char>, PeachiliType>::empty(),
    {
        GlobalEnv { func_table: NameMap::new(), type_name_table: NameMap::new() }
    }
}

/// The table of the type names that the language itself defines.
pub open spec fn predefined_types(t: Map<Seq<char>, PeachiliType>) -> Map<Seq<char>, PeachiliType> {
    t.insert("Int64"@, PeachiliType { kind: PTKind::Int64, size: 8 })
        .insert("Uint64"@, PeachiliType { kind: PTKind::Uint64, size: 8 })
        .insert("Noreturn"@, PeachiliType { kind: PTKind::Noreturn, size: 0 })
        .insert("ConstStr"@, PeachiliType { kind: PTKind::Noreturn, size: 0 })
        .insert("Boolean"@, PeachiliType { kind: PTKind::Boolean, size: 0 })
}

impl GlobalEnv {
    pub open spec fn wf(&self) -> bool {
        self.func_table.wf() && self.type_name_table.wf()
    }

    /// Adds the type names that the language itself defines. (As written, `ConstStr`
    /// stands for the `Noreturn` kind of size 0, and `Boolean` has size 0.)
    pub fn initialize_predefined_type(&mut self)
        requires
            old(self).wf(),
        ensures
            final(self).wf(),
            final(self).func_table == old(self).func_table,
            final(self).type_name_table@ == predefined_types(old(self).type_name_table@),
    {
        let _ = self.type_name_table.insert(crate::text::str_to_string("Int64"), PeachiliType::new(PTKind::Int64, 8));
        let _ = self.type_name_table.insert(crate::text::str_to_string("Uint64"), PeachiliType::new(PTKind::Uint64, 8));
        let _ = self.type_name_table.insert(crate::text::str_to_string("Noreturn"), PeachiliType::new(PTKind::Noreturn, 0));
        let _ = self.type_name_table.insert(crate::text::str_to_string("ConstStr"), PeachiliType::new(PTKind::Noreturn, 0));
        let _ = self.type_name_table.insert(crate::text::str_to_string("Boolean"), PeachiliType::new(PTKind::Boolean, 0));
    }
}

/// The local variables of a block, and the scope around it.
pub struct Scope {
    pub local_variables: NameMap<FrameObject>,
    pub outer: Option<Box<Scope>>,
}

impl Default for Scope {
    fn default() -> (s: Self)
        ensures
            s.local_variables.wf(),
            s.local_variables@ == Map::<Seq<char>, FrameObject>::empty(),
            s.outer.is_none(),
    {
        Scope { local_variables: NameMap::new(), outer: None }
    }
}

/// Looks a variable up from a scope outwards.
pub open spec fn scope_lookup(s: Scope, name: Seq<char>) -> Option<FrameObject>
    decreases s,
{
    if s.local_variables@.contains_key(name) {
        Some(s.local_variables@[name])
    } else {
        match s.outer {
            Some(o) => scope_lookup(*o, name),
            None => None,
        }
    }
}

/// Every scope from this one outwards has a well-formed map.
pub open spec fn scope_wf(s: Scope) -> bool
    decreases s,
{
    s.local_variables.wf() && match s.outer {
        Some(o) => scope_wf(*o),
        None => true,
    }
}

impl Scope {
    /// An empty scope inside `outer`.
    pub fn new(outer: Scope) -> (s: Self)
        ensures
            s.local_variables.wf(),
            s.local_variables@ == Map::<Seq<char>, FrameObject>::empty(),
            s.outer == Some(Box::new(outer)),
    {
        Scope { local_variables: NameMap::new(), outer: Some(Box::new(outer)) }
    }

    /// Looks a variable up from this scope outwards; the variable must be there.
    pub fn find_local_var(&self, name: &str) -> (f: FrameObject)
        requires
            scope_wf(*self),
            scope_lookup(*self, name@) is Some,
        ensures
            scope_lookup(*self, name@) == Some(f),
        decreases self,
    {
        if let Some(v) = self.local_variables.get(name) {
            return *v;
        }
        match &self.outer {
            Some(o) => o.find_local_var(name),
            None => vstd::pervasive::unreached(),
        }
    }
}

/// A typed expression: what it is and its type.
#[derive(Debug, PartialEq, Eq)]
pub struct Expression {
    pub kind: ExprKind,
    pub ty: PeachiliType,
}

#[derive(Debug, PartialEq, Eq)]
pub enum ExprKind {
    Integer { value: i128 },
    UnsignedInteger { value: u128 },
    /// A variable (its offset in the frame; 0 for a global name).
    Identifier { list: Vec<String>, stack_offset: usize },
    Negative { child: Box<Expression> },
    Call { ident: String, params: Vec<Expression> },
    /// A string literal with the hash of its contents.
    StringLiteral { contents: String, id: u64 },
    True,
    False,
    Assignment { var_name: String, var_stack_offset: usize, expr: Box<Expression> },
    Addition { lhs: Box<Expression>, rhs: Box<Expression> },
    Subtraction { lhs: Box<Expression>, rhs: Box<Expression> },
    Multiplication { lhs: Box<Expression>, rhs: Box<Expression> },
    Division { lhs: Box<Expression>, rhs: Box<Expression> },
}

impl Expression {
    pub fn new(k: ExprKind, ty: PeachiliType) -> (e: Self)
        ensures
            e.kind == k,
            e.ty == ty,
    {
        Expression { kind: k, ty }
    }

    /// A child edge of an expression.
    pub fn new_edge(e: Self) -> (b: Box<Expression>)
        ensures
            *b == e,
    {
        Box::new(e)
    }
}

/// A typed statement.
#[derive(Debug, PartialEq, Eq)]
pub enum Statement {
    HalfOpenCountup {
        block: Vec<Statement>,
        var_name: String,
        var_stack_offset: usize,
        from: Expression,
        lessthan: Expression,
    },
    ClosedCountup {
        block: Vec<Statement>,
        var_name: String,
        var_stack_offset: usize,
        from: Expression,
        to: Expression,
    },
    Expr { expr: Expression },
    Asm { insts: Vec<String> },
    Block { stmts: Vec<Statement> },
    Nop,
}

/// A typed function.
pub struct Function {
    pub name: String,
    pub return_type: PeachiliType,
    pub params: NameMap<PeachiliType>,
    pub local_variables: NameMap<FrameObject>,
    pub stack_size: usize,
    pub stmts: Vec<Statement>,
}

/// The value of a constant.
#[derive(Debug, PartialEq, Eq, Clone, Copy, Structural)]
pub enum Constant {
    Integer(i64),
    UnsignedInteger(u64),
}

/// The typed form of a module: its functions, in order, and its constants by name.
pub struct Root {
    pub functions: Vec<Function>,
    pub constants: NameMap<Constant>,
}

/// The mathematical value of a typed expression.
pub enum ExprKindV {
    Integer(i128),
    UnsignedInteger(u128),
    Identifier(Seq<Seq<char>>, usize),
    Negative(Box<ExpressionV>),
    Call(Seq<char>, Seq<ExpressionV>),
    StringLiteral(Seq<char>, u64),
    True,
    False,
    Assignment(Seq<char>, usize, Box<ExpressionV>),
    Addition(Box<ExpressionV>, Box<ExpressionV>),
    Subtraction(Box<ExpressionV>, Box<ExpressionV>),
    Multiplication(Box<ExpressionV>, Box<ExpressionV>),
    Division(Box<ExpressionV>, Box<ExpressionV>),
}

pub struct ExpressionV {
    pub kind: ExprKindV,
    pub ty: PeachiliType,
}

/// The mathematical value of a typed statement.
pub enum StatementV {
    HalfOpenCountup(Seq<StatementV>, Seq<char>, usize, ExpressionV, ExpressionV),
    ClosedCountup(Seq<StatementV>, Seq<char>, usize, ExpressionV, ExpressionV),
    Expr(ExpressionV),
    Asm(Seq<Seq<char>>),
    Block(Seq<StatementV>),
    Nop,
}

/// The value of a typed expression.
pub open spec fn texpr_v(e: Expression) -> ExpressionV
    decreases e,
{
    ExpressionV {
        kind: match e.kind {
            ExprKind::Integer { value } => ExprKindV::Integer(value),
            ExprKind::UnsignedInteger { value } => ExprKindV::UnsignedInteger(value),
            ExprKind::Identifier { list, stack_offset } => ExprKindV::Identifier(strings_view(list@), stack_offset),
            ExprKind::Negative { child } => ExprKindV::Negative(Box::new(texpr_v(*child))),
            ExprKind::Call { ident, params } => ExprKindV::Call(ident@, texprs_v(params@)),
            ExprKind::StringLiteral { contents, id } => ExprKindV::StringLiteral(contents@, id),
            ExprKind::True => ExprKindV::True,
            ExprKind::False => ExprKindV::False,
            ExprKind::Assignment { var_name, var_stack_offset, expr } => ExprKindV::Assignment(
                var_name@,
                var_stack_offset,
                Box::new(texpr_v(*expr)),
            ),
            ExprKind::Addition { lhs, rhs } => ExprKindV::Addition(Box::new(texpr_v(*lhs)), Box::new(texpr_v(*rhs))),
            ExprKind::Subtraction { lhs, rhs } => ExprKindV::Subtraction(Box::new(texpr_v(*lhs)), Box::new(texpr_v(*rhs))),
            ExprKind::Multiplication { lhs, rhs } => ExprKindV::Multiplication(Box::new(texpr_v(*lhs)), Box::new(texpr_v(*rhs))),
            ExprKind::Division { lhs, rhs } => ExprKindV::Division(Box::new(texpr_v(*lhs)), Box::new(texpr_v(*rhs))),
        },
        ty: e.ty,
    }
}

/// The values of a list of typed expressions.
pub open spec fn texprs_v(s: Seq<Expression>) -> Seq<ExpressionV>
    decreases s,
{
    if s.len() == 0 {
        Seq::empty()
    } else {
        texprs_v(s.drop_last()).push(texpr_v(s.last()))
    }
}

/// The value of a typed statement.
pub open spec fn tstmt_v(st: Statement) -> StatementV
    decreases st,
{
    match st {
        Statement::HalfOpenCountup { block, var_name, var_stack_offset, from, lessthan } => StatementV::HalfOpenCountup(
            tstmts_v(block@),
            var_name@,
            var_stack_offset,
            texpr_v(from),
            texpr_v(lessthan),
        ),
        Statement::ClosedCountup { block, var_name, var_stack_offset, from, to } => StatementV::ClosedCountup(
            tstmts_v(block@),
            var_name@,
            var_stack_offset,
            texpr_v(from),
            texpr_v(to),
        ),
        Statement::Expr { expr } => StatementV::Expr(texpr_v(expr)),
        Statement::Asm { insts } => StatementV::Asm(strings_view(insts@)),
        Statement::Block { stmts } => StatementV::Block(tstmts_v(stmts@)),
        Statement::Nop => StatementV::Nop,
    }
}

/// The values of a list of typed statements.
pub open spec fn tstmts_v(s: Seq<Statement>) -> Seq<StatementV>
    decreases s,
{
    if s.len() == 0 {
        Seq::empty()
    } else {
        tstmts_v(s.drop_last()).push(tstmt_v(s.last()))
    }
}

} // verus!
