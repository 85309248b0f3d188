use vstd::prelude::*;

use crate::ident::strings_view;
use crate::name_map::NameMap;

verus! {

/// An expression.
#[derive(Debug, PartialEq, Eq)]
pub struct Expr {
    pub kind: ExprKind,
}

#[derive(Debug, PartialEq, Eq)]
pub enum ExprKind {
    /// `1 + 1`
    Addition { lhs: Box<Expr>, rhs: Box<Expr> },
    /// `200 - 100`
    Subtraction { lhs: Box<Expr>, rhs: Box<Expr> },
    /// `10 * 20`
    Multiplication { lhs: Box<Expr>, rhs: Box<Expr> },
    /// `200 / 2`
    Division { lhs: Box<Expr>, rhs: Box<Expr> },
    /// `-x`
    Negative { child: Box<Expr> },
    StringLiteral { contents: String },
    Integer { value: i128 },
    UnsignedInteger { value: u128 },
    /// A path such as `x64::STDIN`.
    Identifier { list: Vec<String> },
    Call { ident: Box<Expr>, params: Vec<Expr> },
    True,
    False,
    /// `x = e`
    Assignment { var_name: String, expr: Box<Expr> },
}

/// A statement.
#[derive(Debug, PartialEq, Eq)]
pub struct Stmt {
    pub kind: StmtKind,
}

#[derive(Debug, PartialEq, Eq)]
pub enum StmtKind {
    /// `countup id from e lessthan e { ... }`
    HalfOpenCountup { block: Vec<Stmt>, id: String, from: Expr, lessthan: Expr },
    /// `countup id from e to e { ... }`
    ClosedCountup { block: Vec<Stmt>, id: String, from: Expr, to: Expr },
    Block { stmts: Vec<Stmt> },
    /// `declare var Type;`, the type written as a path.
    Declare { var_name: String, type_names: Vec<String> },
    Expr { expr: Expr },
    Asm { insts: Vec<String> },
}

/// A declaration at the top level of a module.
#[derive(Debug, PartialEq, Eq)]
pub struct TopLevelDecl {
    pub kind: TopLevelDeclKind,
}

#[derive(Debug, PartialEq, Eq)]
pub enum TopLevelDeclKind {
    /// `pubtype Name = To;`, the name prefixed by the module's.
    PubType { alias: String, to: String },
    /// `pubconst Name : Type = e;`, the name prefixed by the module's.
    PubConst { const_name: String, const_type: String, expr: Expr },
    /// A function, its name prefixed by the module's; its parameters map names to type names.
    Function { func_name: String, return_type: String, parameters: NameMap<String>, stmts: Vec<Stmt> },
    Import { module_name: String },
}

/// A declaration's maps are well formed.
pub open spec fn decl_wf(d: TopLevelDecl) -> bool {
    d.kind matches TopLevelDeclKind::Function { parameters, .. } ==> parameters.wf()
}

/// The maps of every declaration of a module are well formed.
pub open spec fn root_wf(r: ASTRoot) -> bool {
    forall|i: int| 0 <= i < r.decls@.len() ==> #[trigger] decl_wf(r.decls@[i])
}

/// What a module is read into: its declarations, in order, and its name.
pub struct ASTRoot {
    pub decls: Vec<TopLevelDecl>,
    pub module_name: String,
}

impl Default for ASTRoot {
    fn default() -> (r: Self)
        ensures
            r.decls@.len() == 0,
            r.module_name@ == Seq::<char>::empty(),
    {
        ASTRoot { decls: Vec::new(), module_name: String::new() }
    }
}

impl Expr {
    /// A child edge of an expression.
    pub fn new_edge(n: Self) -> (b: Box<Expr>)
        ensures
            *b == n,
    {
        Box::new(n)
    }
}

impl Stmt {
    /// A child edge of a statement.
    pub fn new_edge(s: Self) -> (b: Box<Stmt>)
        ensures
            *b == s,
    {
        Box::new(s)
    }
}

/// The mathematical value of an expression: strings are taken as their characters.
pub enum ExprV {
    Addition(Box<ExprV>, Box<ExprV>),
    Subtraction(Box<ExprV>, Box<ExprV>),
    Multiplication(Box<ExprV>, Box<ExprV>),
    Division(Box<ExprV>, Box<ExprV>),
    Negative(Box<ExprV>),
    StringLiteral(Seq<char>),
    Integer(i128),
    UnsignedInteger(u128),
    Identifier(Seq<Seq<char>>),
    Call(Box<ExprV>, Seq<ExprV>),
    True,
    False,
    Assignment(Seq<char>, Box<ExprV>),
}

/// The mathematical value of a statement.
pub enum StmtV {
    HalfOpenCountup(Seq<StmtV>, Seq<char>, ExprV, ExprV),
    ClosedCountup(Seq<StmtV>, Seq<char>, ExprV, ExprV),
    Block(Seq<StmtV>),
    Declare(Seq<char>, Seq<Seq<char>>),
    Expr(ExprV),
    Asm(Seq<Seq<char>>),
}

/// The value of an expression.
pub open spec fn expr_v(e: Expr) -> ExprV
    decreases e,
{
    match e.kind {
        ExprKind::Addition { lhs, rhs } => ExprV::Addition(Box::new(expr_v(*lhs)), Box::new(expr_v(*rhs))),
        ExprKind::Subtraction { lhs, rhs } => ExprV::Subtraction(Box::new(expr_v(*lhs)), Box::new(expr_v(*rhs))),
        ExprKind::Multiplication { lhs, rhs } => ExprV::Multiplication(Box::new(expr_v(*lhs)), Box::new(expr_v(*rhs))),
        ExprKind::Division { lhs, rhs } => ExprV::Division(Box::new(expr_v(*lhs)), Box::new(expr_v(*rhs))),
        ExprKind::Negative { child } => ExprV::Negative(Box::new(expr_v(*child))),
        ExprKind::StringLiteral { contents } => ExprV::StringLiteral(contents@),
        ExprKind::Integer { value } => ExprV::Integer(value),
        ExprKind::UnsignedInteger { value } => ExprV::UnsignedInteger(value),
        ExprKind::Identifier { list } => ExprV::Identifier(strings_view(list@)),
        ExprKind::Call { ident, params } => ExprV::Call(Box::new(expr_v(*ident)), exprs_v(params@)),
        ExprKind::True => ExprV::True,
        ExprKind::False => ExprV::False,
        ExprKind::Assignment { var_name, expr } => ExprV::Assignment(var_name@, Box::new(expr_v(*expr))),
    }
}

/// The values of a list of expressions.
pub open spec fn exprs_v(s: Seq<Expr>) -> Seq<ExprV>
    decreases s,
{
    if s.len() == 0 {
        Seq::empty()
    } else {
        exprs_v(s.drop_last()).push(expr_v(s.last()))
    }
}

/// The value of a statement.
pub open spec fn stmt_v(st: Stmt) -> StmtV
    decreases st,
{
    match st.kind {
        StmtKind::HalfOpenCountup { block, id, from, lessthan } => StmtV::HalfOpenCountup(
            stmts_v(block@),
            id@,
            expr_v(from),
            expr_v(lessthan),
        ),
        StmtKind::ClosedCountup { block, id, from, to } => StmtV::ClosedCountup(
            stmts_v(block@),
            id@,
            expr_v(from),
            expr_v(to),
        ),
        StmtKind::Block { stmts } => StmtV::Block(stmts_v(stmts@)),
        StmtKind::Declare { var_name, type_names } => StmtV::Declare(var_name@, strings_view(type_names@)),
        StmtKind::Expr { expr } => StmtV::Expr(expr_v(expr)),
        StmtKind::Asm { insts } => StmtV::Asm(strings_view(insts@)),
    }
}

/// The values of a list of statements.
pub open spec fn stmts_v(s: Seq<Stmt>) -> Seq<StmtV>
    decreases s,
{
    if s.len() == 0 {
        Seq::empty()
    } else {
        stmts_v(s.drop_last()).push(stmt_v(s.last()))
    }
}

impl View for Expr {
    type V = ExprV;

    open spec fn view(&self) -> ExprV {
        expr_v(*self)
    }
}

impl View for Stmt {
    type V = StmtV;

    open spec fn view(&self) -> StmtV {
        stmt_v(*self)
    }
}

/// The mathematical value of a top-level declaration.
pub enum TopLevelDeclV {
    PubType(Seq<char>, Seq<char>),
    PubConst(Seq<char>, Seq<char>, ExprV),
    Function(Seq<char>, Seq<char>, Map<Seq<char>, Seq<char>>, Seq<StmtV>),
    Import(Seq<char>),
}

/// The value of a top-level declaration.
pub open spec fn tld_v(d: TopLevelDecl) -> TopLevelDeclV {
    match d.kind {
        TopLevelDeclKind::PubType { alias, to } => TopLevelDeclV::PubType(alias@, to@),
        TopLevelDeclKind::PubConst { const_name, const_type, expr } => TopLevelDeclV::PubConst(
            const_name@,
            const_type@,
            expr_v(expr),
        ),
        TopLevelDeclKind::Function { func_name, return_type, parameters, stmts } => TopLevelDeclV::Function(
            func_name@,
            return_type@,
            parameters@.map_values(|t: String| t@),
            stmts_v(stmts@),
        ),
        TopLevelDeclKind::Import { module_name } => TopLevelDeclV::Import(module_name@),
    }
}

/// The values of a list of declarations.
pub open spec fn tlds_v(s: Seq<TopLevelDecl>) -> Seq<TopLevelDeclV> {
    s.map_values(|d: TopLevelDecl| tld_v(d))
}

/// Each value in a list of expressions is the value of the expression at that place.
pub proof fn lemma_exprs_v(s: Seq<Expr>)
    ensures
        exprs_v(s).len() == s.len(),
        forall|i: int| 0 <= i < s.len() ==> exprs_v(s)[i] == expr_v(#[trigger] s[i]),
    decreases s.len(),
{
    if s.len() > 0 {
        lemma_exprs_v(s.drop_last());
        assert forall|i: int| 0 <= i < s.len() implies exprs_v(s)[i] == expr_v(#[trigger] s[i]) by {
            if i < s.len() - 1 {
                assert(s.drop_last()[i] == s[i]);
            }
        }
    }
}

/// Each value in a list of statements is the value of the statement at that place.
pub proof fn lemma_stmts_v(s: Seq<Stmt>)
    ensures
        stmts_v(s).len() == s.len(),
        forall|i: int| 0 <= i < s.len() ==> stmts_v(s)[i] == stmt_v(#[trigger] s[i]),
    decreases s.len(),
{
    if s.len() > 0 {
        lemma_stmts_v(s.drop_last());
        assert forall|i: int| 0 <= i < s.len() implies stmts_v(s)[i] == stmt_v(#[trigger] s[i]) by {
            if i < s.len() - 1 {
                assert(s.drop_last()[i] == s[i]);
            }
        }
    }
}

} // verus!
