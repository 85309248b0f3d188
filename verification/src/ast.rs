use vstd::prelude::*;

use crate::ident::{strings_view, IdentName};
use crate::name_map::compare_strings;
use crate::position::Position;
use crate::text::{decimal_text, i64_to_decimal, push_all, push_str, signed_decimal_text, u64_to_decimal};

verus! {

/// An expression with the place where it begins.
#[derive(Debug, PartialEq, Eq)]
pub struct ExpressionNode {
    pub kind: ExpressionNodeKind,
    pub position: Position,
}

#[derive(Debug, PartialEq, Eq)]
pub enum ExpressionNodeKind {
    INTEGER(i64),
    UNSIGNEDINTEGER(u64),
    /// The contents of a string literal and their hash.
    STRLIT(String, u64),
    IDENT(IdentName),
    CALL(IdentName, Vec<ExpressionNode>),
    TRUE,
    FALSE,
    // unary
    ADDRESS(Box<ExpressionNode>),
    DEREF(Box<ExpressionNode>),
    NEG(Box<ExpressionNode>),
    MEMBER(Box<ExpressionNode>, String),
    // binary
    ADD(Box<ExpressionNode>, Box<ExpressionNode>),
    SUB(Box<ExpressionNode>, Box<ExpressionNode>),
    MUL(Box<ExpressionNode>, Box<ExpressionNode>),
    DIV(Box<ExpressionNode>, Box<ExpressionNode>),
    ASSIGN(Box<ExpressionNode>, Box<ExpressionNode>),
    // etc.
    IF(Box<ExpressionNode>, Vec<StatementNode>),
    IFELSE(Box<ExpressionNode>, Vec<StatementNode>, Vec<StatementNode>),
}

/// A statement with the place where it begins.
#[derive(Debug, PartialEq, Eq)]
pub struct StatementNode {
    pub kind: StatementNodeKind,
    pub position: Position,
}

#[derive(Debug, PartialEq, Eq)]
pub enum StatementNodeKind {
    RETURN(ExpressionNode),
    IFRET(ExpressionNode),
    EXPR(ExpressionNode),
    VARDECL,
    /// The loop variable, the first value, the end value and the body.
    COUNTUP(ExpressionNode, ExpressionNode, ExpressionNode, Vec<StatementNode>),
    /// The lines of inline assembly.
    ASM(Vec<String>),
    /// The variable and its initial value.
    VARINIT(ExpressionNode, ExpressionNode),
}

/// The mathematical value of an expression: strings are taken as their characters.
pub enum ExprV {
    INTEGER(i64),
    UNSIGNEDINTEGER(u64),
    STRLIT(Seq<char>, u64),
    IDENT(Seq<Seq<char>>),
    CALL(Seq<Seq<char>>, Seq<ExprNodeV>),
    TRUE,
    FALSE,
    ADDRESS(Box<ExprNodeV>),
    DEREF(Box<ExprNodeV>),
    NEG(Box<ExprNodeV>),
    MEMBER(Box<ExprNodeV>, Seq<char>),
    ADD(Box<ExprNodeV>, Box<ExprNodeV>),
    SUB(Box<ExprNodeV>, Box<ExprNodeV>),
    MUL(Box<ExprNodeV>, Box<ExprNodeV>),
    DIV(Box<ExprNodeV>, Box<ExprNodeV>),
    ASSIGN(Box<ExprNodeV>, Box<ExprNodeV>),
    IF(Box<ExprNodeV>, Seq<StmtNodeV>),
    IFELSE(Box<ExprNodeV>, Seq<StmtNodeV>, Seq<StmtNodeV>),
}

pub struct ExprNodeV {
    pub kind: ExprV,
    pub position: Position,
}

pub enum StmtV {
    RETURN(ExprNodeV),
    IFRET(ExprNodeV),
    EXPR(ExprNodeV),
    VARDECL,
    COUNTUP(ExprNodeV, ExprNodeV, ExprNodeV, Seq<StmtNodeV>),
    ASM(Seq<Seq<char>>),
    VARINIT(ExprNodeV, ExprNodeV),
}

pub struct StmtNodeV {
    pub kind: StmtV,
    pub position: Position,
}

/// The value of an expression.
pub open spec fn expr_view(e: ExpressionNode) -> ExprNodeV
    decreases e,
{
    ExprNodeV {
        kind: match e.kind {
            ExpressionNodeKind::INTEGER(v) => ExprV::INTEGER(v),
            ExpressionNodeKind::UNSIGNEDINTEGER(v) => ExprV::UNSIGNEDINTEGER(v),
            ExpressionNodeKind::STRLIT(s, h) => ExprV::STRLIT(s@, h),
            ExpressionNodeKind::IDENT(id) => ExprV::IDENT(id.names()),
            ExpressionNodeKind::CALL(id, args) => ExprV::CALL(id.names(), exprs_view(args@)),
            ExpressionNodeKind::TRUE => ExprV::TRUE,
            ExpressionNodeKind::FALSE => ExprV::FALSE,
            ExpressionNodeKind::ADDRESS(x) => ExprV::ADDRESS(Box::new(expr_view(*x))),
            ExpressionNodeKind::DEREF(x) => ExprV::DEREF(Box::new(expr_view(*x))),
            ExpressionNodeKind::NEG(x) => ExprV::NEG(Box::new(expr_view(*x))),
            ExpressionNodeKind::MEMBER(x, m) => ExprV::MEMBER(Box::new(expr_view(*x)), m@),
            ExpressionNodeKind::ADD(l, r) => ExprV::ADD(Box::new(expr_view(*l)), Box::new(expr_view(*r))),
            ExpressionNodeKind::SUB(l, r) => ExprV::SUB(Box::new(expr_view(*l)), Box::new(expr_view(*r))),
            ExpressionNodeKind::MUL(l, r) => ExprV::MUL(Box::new(expr_view(*l)), Box::new(expr_view(*r))),
            ExpressionNodeKind::DIV(l, r) => ExprV::DIV(Box::new(expr_view(*l)), Box::new(expr_view(*r))),
            ExpressionNodeKind::ASSIGN(l, r) => ExprV::ASSIGN(Box::new(expr_view(*l)), Box::new(expr_view(*r))),
            ExpressionNodeKind::IF(c, b) => ExprV::IF(Box::new(expr_view(*c)), stmts_view(b@)),
            ExpressionNodeKind::IFELSE(c, b, a) => ExprV::IFELSE(
                Box::new(expr_view(*c)),
                stmts_view(b@),
                stmts_view(a@),
            ),
        },
        position: e.position,
    }
}

/// The values of a list of expressions.
pub open spec fn exprs_view(s: Seq<ExpressionNode>) -> Seq<ExprNodeV>
    decreases s,
{
    if s.len() == 0 {
        Seq::empty()
    } else {
        seq![expr_view(s[0])] + exprs_view(s.drop_first())
    }
}

/// The value of a statement.
pub open spec fn stmt_view(st: StatementNode) -> StmtNodeV
    decreases st,
{
    StmtNodeV {
        kind: match st.kind {
            StatementNodeKind::RETURN(e) => StmtV::RETURN(expr_view(e)),
            StatementNodeKind::IFRET(e) => StmtV::IFRET(expr_view(e)),
            StatementNodeKind::EXPR(e) => StmtV::EXPR(expr_view(e)),
            StatementNodeKind::VARDECL => StmtV::VARDECL,
            StatementNodeKind::COUNTUP(i, s, e, b) => StmtV::COUNTUP(
                expr_view(i),
                expr_view(s),
                expr_view(e),
                stmts_view(b@),
            ),
            StatementNodeKind::ASM(lines) => StmtV::ASM(strings_view(lines@)),
            StatementNodeKind::VARINIT(i, e) => StmtV::VARINIT(expr_view(i), expr_view(e)),
        },
        position: st.position,
    }
}

/// The values of a list of statements.
pub open spec fn stmts_view(s: Seq<StatementNode>) -> Seq<StmtNodeV>
    decreases s,
{
    if s.len() == 0 {
        Seq::empty()
    } else {
        seq![stmt_view(s[0])] + stmts_view(s.drop_first())
    }
}

impl View for ExpressionNode {
    type V = ExprNodeV;

    open spec fn view(&self) -> ExprNodeV {
        expr_view(*self)
    }
}

impl View for StatementNode {
    type V = StmtNodeV;

    open spec fn view(&self) -> StmtNodeV {
        stmt_view(*self)
    }
}

/// Whether the names of a variable can be read from an expression: a path, or a
/// dereference or member access of one.
pub open spec fn has_ident_path(e: ExpressionNode) -> bool
    decreases e,
{
    match e.kind {
        ExpressionNodeKind::IDENT(_) => true,
        ExpressionNodeKind::DEREF(x) => has_ident_path(*x),
        ExpressionNodeKind::MEMBER(x, _) => has_ident_path(*x),
        _ => false,
    }
}

/// The names of the variable that an expression reads or writes.
pub open spec fn ident_path(e: ExpressionNode) -> Seq<Seq<char>>
    decreases e,
{
    match e.kind {
        ExpressionNodeKind::IDENT(id) => id.names(),
        ExpressionNodeKind::DEREF(x) => ident_path(*x),
        ExpressionNodeKind::MEMBER(x, _) => ident_path(*x),
        _ => Seq::empty(),
    }
}

/// The operator of a binary arithmetic expression.
pub open spec fn operator_text(k: ExpressionNodeKind) -> Seq<char> {
    match k {
        ExpressionNodeKind::ADD(_, _) => "+"@,
        ExpressionNodeKind::SUB(_, _) => "-"@,
        ExpressionNodeKind::MUL(_, _) => "*"@,
        _ => "/"@,
    }
}

/// Copies a list of expressions.
pub fn copy_exprs(v: &Vec<ExpressionNode>) -> (r: Vec<ExpressionNode>)
    ensures
        exprs_view(r@) == exprs_view(v@),
    decreases v,
{
    let mut r: Vec<ExpressionNode> = Vec::new();
    let mut i: usize = v.len();
    while i > 0
        invariant
            i <= v.len(),
            exprs_view(r@) == exprs_view(v@.subrange(i as int, v.len() as int)),
        decreases i,
    {
        let j = i - 1;
        proof { assert(decreases_to!(v => v@[j as int])); }
        let c = v[j].copy_expr();
        proof {
            let s = v@.subrange(j as int, v.len() as int);
            assert(s.drop_first() == v@.subrange(i as int, v.len() as int));
            assert(s[0] == v@[j as int]);
        }
        let ghost old_r = r@;
        r.insert(0, c);
        proof {
            assert(r@[0] == c);
            assert(r@.drop_first() =~= old_r);
        }
        i = j;
    }
    assert(v@.subrange(0, v.len() as int) == v@);
    r
}

/// Copies a list of statements.
pub fn copy_stmts(v: &Vec<StatementNode>) -> (r: Vec<StatementNode>)
    ensures
        stmts_view(r@) == stmts_view(v@),
    decreases v,
{
    let mut r: Vec<StatementNode> = Vec::new();
    let mut i: usize = v.len();
    while i > 0
        invariant
            i <= v.len(),
            stmts_view(r@) == stmts_view(v@.subrange(i as int, v.len() as int)),
        decreases i,
    {
        let j = i - 1;
        proof { assert(decreases_to!(v => v@[j as int])); }
        let c = v[j].copy_stmt();
        proof {
            let s = v@.subrange(j as int, v.len() as int);
            assert(s.drop_first() == v@.subrange(i as int, v.len() as int));
            assert(s[0] == v@[j as int]);
        }
        let ghost old_r = r@;
        r.insert(0, c);
        proof {
            assert(r@[0] == c);
            assert(r@.drop_first() =~= old_r);
        }
        i = j;
    }
    assert(v@.subrange(0, v.len() as int) == v@);
    r
}

/// Copies a list of strings.
pub fn copy_strings(v: &Vec<String>) -> (r: Vec<String>)
    ensures
        r@ == v@,
{
    let mut r: Vec<String> = Vec::new();
    let mut i: usize = 0;
    while i < v.len()
        invariant
            i <= v.len(),
            r@ == v@.subrange(0, i as int),
        decreases v.len() - i,
    {
        r.push(v[i].clone());
        i = i + 1;
        assert(r@ == v@.subrange(0, i as int));
    }
    assert(v@.subrange(0, v.len() as int) == v@);
    r
}


/// What `{:?}` prints for a string: the string in double quotes, with its special characters escaped.
pub uninterp spec fn debug_text(s: Seq<char>) -> Seq<char>;

/// The characters that `{:?}` prints for a string.
///
/// Trusted: formats the string with `format!("{:?}", ..)` (the standard library's
/// `Debug` for `str`) and collects the characters; the result is named `debug_text`.
#[verifier::external_body]
pub(crate) fn debug_chars(s: &String) -> (r: Vec<char>)
    ensures
        r@ == debug_text(s@),
{
    format!("{:?}", s).chars().collect()
}

/// The items of a list, each printed with `{:?}`, separated by ", ".
pub open spec fn debug_join(names: Seq<Seq<char>>) -> Seq<char>
    decreases names.len(),
{
    if names.len() == 0 {
        Seq::empty()
    } else if names.len() == 1 {
        debug_text(names[0])
    } else {
        debug_join(names.drop_last()) + ", "@ + debug_text(names.last())
    }
}

/// How a path of names is printed: as the list of its names.
pub open spec fn ident_text(names: Seq<Seq<char>>) -> Seq<char> {
    "["@ + debug_join(names) + "]"@
}

/// How an expression is printed: as its kind is.
pub open spec fn expr_text(e: ExpressionNode) -> Seq<char>
    decreases e,
{
    kind_text(e.kind)
}

/// How an expression of a kind is printed.
pub open spec fn kind_text(k: ExpressionNodeKind) -> Seq<char>
    decreases k,
{
    match k {
        ExpressionNodeKind::TRUE => "true"@,
        ExpressionNodeKind::FALSE => "false"@,
        ExpressionNodeKind::INTEGER(v) => signed_decimal_text(v as int),
        ExpressionNodeKind::UNSIGNEDINTEGER(v) => decimal_text(v as nat) + "u"@,
        ExpressionNodeKind::STRLIT(c, _) => "\""@ + debug_text(c@) + "\""@,
        ExpressionNodeKind::IDENT(id) => ident_text(id.names()),
        ExpressionNodeKind::CALL(id, args) => ident_text(id.names()) + "("@ + exprs_text(args@) + ")"@,
        ExpressionNodeKind::NEG(x) => "-"@ + expr_text(*x),
        ExpressionNodeKind::ADDRESS(x) => "&"@ + expr_text(*x),
        ExpressionNodeKind::DEREF(x) => "*"@ + expr_text(*x),
        ExpressionNodeKind::MEMBER(x, m) => expr_text(*x) + "."@ + debug_text(m@),
        ExpressionNodeKind::ADD(l, r) => expr_text(*l) + " + "@ + expr_text(*r),
        ExpressionNodeKind::SUB(l, r) => expr_text(*l) + " - "@ + expr_text(*r),
        ExpressionNodeKind::MUL(l, r) => expr_text(*l) + " * "@ + expr_text(*r),
        ExpressionNodeKind::DIV(l, r) => expr_text(*l) + " / "@ + expr_text(*r),
        ExpressionNodeKind::ASSIGN(l, r) => expr_text(*l) + " = "@ + expr_text(*r),
        ExpressionNodeKind::IF(c, b) => "if ( "@ + expr_text(*c) + " ) { \n"@ + stmts_text(b@) + "}"@,
        ExpressionNodeKind::IFELSE(c, b, a) => "if ( "@ + expr_text(*c) + " ) { \n"@ + stmts_text(b@)
            + "} else { \n"@ + stmts_text(a@) + "}"@,
    }
}

/// A list of expressions printed one after another, separated by ", ".
pub open spec fn exprs_text(s: Seq<ExpressionNode>) -> Seq<char>
    decreases s,
{
    if s.len() == 0 {
        Seq::empty()
    } else if s.len() == 1 {
        expr_text(s[0])
    } else {
        exprs_text(s.drop_last()) + ", "@ + expr_text(s.last())
    }
}

/// A list of statements printed one per line, each indented by two tabs.
pub open spec fn stmts_text(s: Seq<StatementNode>) -> Seq<char>
    decreases s,
{
    if s.len() == 0 {
        Seq::empty()
    } else {
        stmts_text(s.drop_last()) + "\t\t"@ + stmt_text(s.last()) + "\n"@
    }
}

/// Lines of inline assembly printed as string literals, separated by "; ".
pub open spec fn asm_text(lines: Seq<Seq<char>>) -> Seq<char>
    decreases lines.len(),
{
    if lines.len() == 0 {
        Seq::empty()
    } else if lines.len() == 1 {
        debug_text(lines[0])
    } else {
        asm_text(lines.drop_last()) + "; "@ + debug_text(lines.last())
    }
}

/// How a statement is printed.
pub open spec fn stmt_text(st: StatementNode) -> Seq<char>
    decreases st,
{
    match st.kind {
        StatementNodeKind::RETURN(e) => "return "@ + expr_text(e) + ";"@,
        StatementNodeKind::IFRET(e) => "ifret "@ + expr_text(e) + ";"@,
        StatementNodeKind::EXPR(e) => expr_text(e) + ";"@,
        StatementNodeKind::VARDECL => "declare;"@,
        StatementNodeKind::COUNTUP(i, s, e, b) => "countup "@ + expr_text(i) + " from "@ + expr_text(s)
            + " to "@ + expr_text(e) + " { \n"@ + stmts_text(b@) + "};"@,
        StatementNodeKind::ASM(lines) => "asm { "@ + asm_text(strings_view(lines@)) + " };"@,
        StatementNodeKind::VARINIT(i, e) => "varinit "@ + expr_text(i) + " = "@ + expr_text(e) + ";"@,
    }
}

/// Appends how a path of names is printed.
fn write_ident(id: &IdentName, out: &mut Vec<char>)
    ensures
        final(out)@ == old(out)@ + ident_text(id.names()),
{
    let names = IdentName::correct_name(id);
    let ghost ns = strings_view(names@);
    push_str(out, "[");
    let ghost start = out@;
    let mut i: usize = 0;
    while i < names.len()
        invariant
            i <= names.len(),
            ns == strings_view(names@),
            out@ == start + debug_join(ns.take(i as int)),
        decreases names.len() - i,
    {
        if i > 0 {
            push_str(out, ", ");
        }
        let d = debug_chars(&names[i]);
        push_all(out, d.as_slice());
        proof {
            assert(ns.take(i + 1).drop_last() == ns.take(i as int));
            assert(ns.take(i + 1).last() == names@[i as int]@);
            if i == 0 {
                assert(ns.take(0) == Seq::<Seq<char>>::empty());
            }
        }
        i = i + 1;
    }
    assert(ns.take(names.len() as int) == ns);
    push_str(out, "]");
}

/// Appends how an expression is printed.
pub fn write_expr(e: &ExpressionNode, out: &mut Vec<char>)
    ensures
        final(out)@ == old(out)@ + expr_text(*e),
    decreases e,
{
    write_kind(&e.kind, out)
}

/// Appends how an expression of a kind is printed.
pub fn write_kind(k: &ExpressionNodeKind, out: &mut Vec<char>)
    ensures
        final(out)@ == old(out)@ + kind_text(*k),
    decreases k,
{
    match k {
        ExpressionNodeKind::TRUE => push_str(out, "true"),
        ExpressionNodeKind::FALSE => push_str(out, "false"),
        ExpressionNodeKind::INTEGER(v) => {
            let d = i64_to_decimal(*v);
            push_all(out, d.as_slice());
        },
        ExpressionNodeKind::UNSIGNEDINTEGER(v) => {
            let d = u64_to_decimal(*v);
            push_all(out, d.as_slice());
            push_str(out, "u");
        },
        ExpressionNodeKind::STRLIT(c, _) => {
            push_str(out, "\"");
            let d = debug_chars(c);
            push_all(out, d.as_slice());
            push_str(out, "\"");
        },
        ExpressionNodeKind::IDENT(id) => write_ident(id, out),
        ExpressionNodeKind::CALL(id, args) => {
            write_ident(id, out);
            push_str(out, "(");
            write_exprs(args, out);
            push_str(out, ")");
        },
        ExpressionNodeKind::NEG(x) => {
            push_str(out, "-");
            write_expr(x, out);
        },
        ExpressionNodeKind::ADDRESS(x) => {
            push_str(out, "&");
            write_expr(x, out);
        },
        ExpressionNodeKind::DEREF(x) => {
            push_str(out, "*");
            write_expr(x, out);
        },
        ExpressionNodeKind::MEMBER(x, m) => {
            write_expr(x, out);
            push_str(out, ".");
            let d = debug_chars(m);
            push_all(out, d.as_slice());
        },
        ExpressionNodeKind::ADD(l, r) => {
            write_expr(l, out);
            push_str(out, " + ");
            write_expr(r, out);
        },
        ExpressionNodeKind::SUB(l, r) => {
            write_expr(l, out);
            push_str(out, " - ");
            write_expr(r, out);
        },
        ExpressionNodeKind::MUL(l, r) => {
            write_expr(l, out);
            push_str(out, " * ");
            write_expr(r, out);
        },
        ExpressionNodeKind::DIV(l, r) => {
            write_expr(l, out);
            push_str(out, " / ");
            write_expr(r, out);
        },
        ExpressionNodeKind::ASSIGN(l, r) => {
            write_expr(l, out);
            push_str(out, " = ");
            write_expr(r, out);
        },
        ExpressionNodeKind::IF(c, b) => {
            push_str(out, "if ( ");
            write_expr(c, out);
            push_str(out, " ) { \n");
            write_stmts(b, out);
            push_str(out, "}");
        },
        ExpressionNodeKind::IFELSE(c, b, a) => {
            push_str(out, "if ( ");
            write_expr(c, out);
            push_str(out, " ) { \n");
            write_stmts(b, out);
            push_str(out, "} else { \n");
            write_stmts(a, out);
            push_str(out, "}");
        },
    }
}

/// Appends a list of expressions, separated by ", ".
fn write_exprs(args: &Vec<ExpressionNode>, out: &mut Vec<char>)
    ensures
        final(out)@ == old(out)@ + exprs_text(args@),
    decreases args,
{
    let ghost start = out@;
    let mut i: usize = 0;
    while i < args.len()
        invariant
            i <= args.len(),
            out@ == start + exprs_text(args@.take(i as int)),
        decreases args.len() - i,
    {
        proof { assert(decreases_to!(args => args@[i as int])); }
        if i > 0 {
            push_str(out, ", ");
        }
        write_expr(&args[i], out);
        proof {
            assert(args@.take(i + 1).drop_last() == args@.take(i as int));
            assert(args@.take(i + 1).last() == args@[i as int]);
            if i == 0 {
                assert(args@.take(0) == Seq::<ExpressionNode>::empty());
            }
        }
        i = i + 1;
    }
    assert(args@.take(args.len() as int) == args@);
}

/// Appends a list of statements, one per line.
fn write_stmts(sts: &Vec<StatementNode>, out: &mut Vec<char>)
    ensures
        final(out)@ == old(out)@ + stmts_text(sts@),
    decreases sts,
{
    let ghost start = out@;
    let mut i: usize = 0;
    while i < sts.len()
        invariant
            i <= sts.len(),
            out@ == start + stmts_text(sts@.take(i as int)),
        decreases sts.len() - i,
    {
        proof { assert(decreases_to!(sts => sts@[i as int])); }
        push_str(out, "\t\t");
        write_stmt(&sts[i], out);
        push_str(out, "\n");
        proof {
            assert(sts@.take(i + 1).drop_last() == sts@.take(i as int));
            assert(sts@.take(i + 1).last() == sts@[i as int]);
        }
        i = i + 1;
    }
    assert(sts@.take(sts.len() as int) == sts@);
}

/// Appends how a statement is printed.
pub fn write_stmt(st: &StatementNode, out: &mut Vec<char>)
    ensures
        final(out)@ == old(out)@ + stmt_text(*st),
    decreases st,
{
    match &st.kind {
        StatementNodeKind::RETURN(e) => {
            push_str(out, "return ");
            write_expr(e, out);
            push_str(out, ";");
        },
        StatementNodeKind::IFRET(e) => {
            push_str(out, "ifret ");
            write_expr(e, out);
            push_str(out, ";");
        },
        StatementNodeKind::EXPR(e) => {
            write_expr(e, out);
            push_str(out, ";");
        },
        StatementNodeKind::VARDECL => push_str(out, "declare;"),
        StatementNodeKind::COUNTUP(i, s, e, b) => {
            push_str(out, "countup ");
            write_expr(i, out);
            push_str(out, " from ");
            write_expr(s, out);
            push_str(out, " to ");
            write_expr(e, out);
            push_str(out, " { \n");
            write_stmts(b, out);
            push_str(out, "};");
        },
        StatementNodeKind::ASM(lines) => {
            push_str(out, "asm { ");
            let ghost ls = strings_view(lines@);
            let ghost start = out@;
            let mut i: usize = 0;
            while i < lines.len()
                invariant
                    i <= lines.len(),
                    ls == strings_view(lines@),
                    out@ == start + asm_text(ls.take(i as int)),
                decreases lines.len() - i,
            {
                if i > 0 {
                    push_str(out, "; ");
                }
                let d = debug_chars(&lines[i]);
                push_all(out, d.as_slice());
                proof {
                    assert(ls.take(i + 1).drop_last() == ls.take(i as int));
                    assert(ls.take(i + 1).last() == lines@[i as int]@);
                    if i == 0 {
                        assert(ls.take(0) == Seq::<Seq<char>>::empty());
                    }
                }
                i = i + 1;
            }
            assert(ls.take(lines.len() as int) == ls);
            push_str(out, " };");
        },
        StatementNodeKind::VARINIT(i, e) => {
            push_str(out, "varinit ");
            write_expr(i, out);
            push_str(out, " = ");
            write_expr(e, out);
            push_str(out, ";");
        },
    }
}

impl IdentName {
    /// How the path is printed: the list of its names.
    pub fn to_string(&self) -> (s: String)
        ensures
            s@ == ident_text(self.names()),
    {
        let mut out: Vec<char> = Vec::new();
        write_ident(self, &mut out);
        crate::text::chars_to_string(out.as_slice())
    }
}

impl ExpressionNodeKind {
    /// How an expression of this kind is printed.
    pub fn to_string(&self) -> (s: String)
        ensures
            s@ == kind_text(*self),
    {
        let mut out: Vec<char> = Vec::new();
        write_kind(self, &mut out);
        crate::text::chars_to_string(out.as_slice())
    }
}

impl StatementNode {
    /// How the statement is printed.
    pub fn to_string(&self) -> (s: String)
        ensures
            s@ == stmt_text(*self),
    {
        let mut out: Vec<char> = Vec::new();
        write_stmt(self, &mut out);
        crate::text::chars_to_string(out.as_slice())
    }
}

impl ExpressionNode {
    fn new(expr_kind: ExpressionNodeKind, expr_pos: Position) -> (e: Self)
        ensures
            e.kind == expr_kind,
            e.position == expr_pos,
    {
        ExpressionNode { kind: expr_kind, position: expr_pos }
    }

    /// A copy of the expression.
    pub fn copy_expr(&self) -> (r: ExpressionNode)
        ensures
            r@ == self@,
        decreases self,
    {
        let k = match &self.kind {
            ExpressionNodeKind::INTEGER(v) => ExpressionNodeKind::INTEGER(*v),
            ExpressionNodeKind::UNSIGNEDINTEGER(v) => ExpressionNodeKind::UNSIGNEDINTEGER(*v),
            ExpressionNodeKind::STRLIT(s, h) => ExpressionNodeKind::STRLIT(s.clone(), *h),
            ExpressionNodeKind::IDENT(id) => ExpressionNodeKind::IDENT(id.copy_ident()),
            ExpressionNodeKind::CALL(id, args) => ExpressionNodeKind::CALL(id.copy_ident(), copy_exprs(args)),
            ExpressionNodeKind::TRUE => ExpressionNodeKind::TRUE,
            ExpressionNodeKind::FALSE => ExpressionNodeKind::FALSE,
            ExpressionNodeKind::ADDRESS(x) => ExpressionNodeKind::ADDRESS(Box::new(x.copy_expr())),
            ExpressionNodeKind::DEREF(x) => ExpressionNodeKind::DEREF(Box::new(x.copy_expr())),
            ExpressionNodeKind::NEG(x) => ExpressionNodeKind::NEG(Box::new(x.copy_expr())),
            ExpressionNodeKind::MEMBER(x, m) => ExpressionNodeKind::MEMBER(Box::new(x.copy_expr()), m.clone()),
            ExpressionNodeKind::ADD(l, r) => ExpressionNodeKind::ADD(Box::new(l.copy_expr()), Box::new(r.copy_expr())),
            ExpressionNodeKind::SUB(l, r) => ExpressionNodeKind::SUB(Box::new(l.copy_expr()), Box::new(r.copy_expr())),
            ExpressionNodeKind::MUL(l, r) => ExpressionNodeKind::MUL(Box::new(l.copy_expr()), Box::new(r.copy_expr())),
            ExpressionNodeKind::DIV(l, r) => ExpressionNodeKind::DIV(Box::new(l.copy_expr()), Box::new(r.copy_expr())),
            ExpressionNodeKind::ASSIGN(l, r) => ExpressionNodeKind::ASSIGN(Box::new(l.copy_expr()), Box::new(r.copy_expr())),
            ExpressionNodeKind::IF(c, b) => ExpressionNodeKind::IF(Box::new(c.copy_expr()), copy_stmts(b)),
            ExpressionNodeKind::IFELSE(c, b, a) => ExpressionNodeKind::IFELSE(
                Box::new(c.copy_expr()),
                copy_stmts(b),
                copy_stmts(a),
            ),
        };
        ExpressionNode { kind: k, position: self.position }
    }

    /// How the expression is printed.
    pub fn to_string(&self) -> (s: String)
        ensures
            s@ == expr_text(*self),
    {
        let mut out: Vec<char> = Vec::new();
        write_expr(self, &mut out);
        crate::text::chars_to_string(out.as_slice())
    }

    /// The names of the variable that the expression reads or writes.
    pub fn get_ident_ids(&self) -> (ids: Vec<String>)
        requires
            has_ident_path(*self),
        ensures
            strings_view(ids@) == ident_path(*self),
        decreases self,
    {
        match &self.kind {
            ExpressionNodeKind::IDENT(id_name) => IdentName::correct_name(id_name),
            ExpressionNodeKind::DEREF(pointer_ex) => pointer_ex.get_ident_ids(),
            ExpressionNodeKind::MEMBER(id, _member) => id.get_ident_ids(),
            _ => vstd::pervasive::unreached(),
        }
    }

    /// The contents of a string literal.
    pub fn get_str_id(&self) -> (s: String)
        requires
            self.kind is STRLIT,
        ensures
            self.kind matches ExpressionNodeKind::STRLIT(c, _) && s == c,
    {
        match &self.kind {
            ExpressionNodeKind::STRLIT(contents, _hash) => contents.clone(),
            _ => vstd::pervasive::unreached(),
        }
    }

    /// The place where the expression begins.
    pub fn copy_pos(&self) -> (p: Position)
        ensures
            p == self.position,
    {
        let (row, col) = self.position.get_pos();
        Position::new(row, col)
    }

    /// The operator of a binary arithmetic expression.
    pub fn operator_to_string(&self) -> (s: String)
        requires
            self.kind is ADD || self.kind is SUB || self.kind is MUL || self.kind is DIV,
        ensures
            s@ == operator_text(self.kind),
    {
        let t = match &self.kind {
            ExpressionNodeKind::ADD(_lop, _rop) => "+",
            ExpressionNodeKind::SUB(_lop, _rop) => "-",
            ExpressionNodeKind::MUL(_lop, _rop) => "*",
            _ => "/",
        };
        crate::text::str_to_string(t)
    }

    pub fn new_intlit(int_value: i64, ex_pos: Position) -> (e: Self)
        ensures
            e.kind == ExpressionNodeKind::INTEGER(int_value),
            e.position == ex_pos,
    {
        Self::new(ExpressionNodeKind::INTEGER(int_value), ex_pos)
    }

    pub fn new_uintlit(int_value: u64, ex_pos: Position) -> (e: Self)
        ensures
            e.kind == ExpressionNodeKind::UNSIGNEDINTEGER(int_value),
            e.position == ex_pos,
    {
        Self::new(ExpressionNodeKind::UNSIGNEDINTEGER(int_value), ex_pos)
    }

    pub fn new_strlit(contents: String, hash: u64, ex_pos: Position) -> (e: Self)
        ensures
            e.kind == ExpressionNodeKind::STRLIT(contents, hash),
            e.position == ex_pos,
    {
        Self::new(ExpressionNodeKind::STRLIT(contents, hash), ex_pos)
    }

    pub fn new_true(ex_pos: Position) -> (e: Self)
        ensures
            e.kind == ExpressionNodeKind::TRUE,
            e.position == ex_pos,
    {
        Self::new(ExpressionNodeKind::TRUE, ex_pos)
    }

    pub fn new_false(ex_pos: Position) -> (e: Self)
        ensures
            e.kind == ExpressionNodeKind::FALSE,
            e.position == ex_pos,
    {
        Self::new(ExpressionNodeKind::FALSE, ex_pos)
    }

    pub fn new_ident(ident: IdentName, ex_pos: Position) -> (e: Self)
        ensures
            e.kind == ExpressionNodeKind::IDENT(ident),
            e.position == ex_pos,
    {
        Self::new(ExpressionNodeKind::IDENT(ident), ex_pos)
    }

    pub fn new_call(ident: IdentName, args: Vec<ExpressionNode>, ex_pos: Position) -> (e: Self)
        ensures
            e.kind == ExpressionNodeKind::CALL(ident, args),
            e.position == ex_pos,
    {
        Self::new(ExpressionNodeKind::CALL(ident, args), ex_pos)
    }

    /// A unary expression: `-` negates, `&` takes the address, `*` dereferences.
    pub fn new_unary_expr(op: &str, value: ExpressionNode, ex_pos: Position) -> (e: Self)
        requires
            op@ == "-"@ || op@ == "&"@ || op@ == "*"@,
        ensures
            e.position == ex_pos,
            op@ == "-"@ ==> e.kind == ExpressionNodeKind::NEG(Box::new(value)),
            op@ == "&"@ ==> e.kind == ExpressionNodeKind::ADDRESS(Box::new(value)),
            op@ == "*"@ ==> e.kind == ExpressionNodeKind::DEREF(Box::new(value)),
    {
        proof {
            reveal_strlit("-");
            reveal_strlit("&");
            reveal_strlit("*");
            assert("-"@[0] != "&"@[0]);
            assert("-"@[0] != "*"@[0]);
            assert("&"@[0] != "*"@[0]);
        }
        if compare_strings(op, "-") == 0 {
            Self::new(ExpressionNodeKind::NEG(Box::new(value)), ex_pos)
        } else if compare_strings(op, "&") == 0 {
            Self::new(ExpressionNodeKind::ADDRESS(Box::new(value)), ex_pos)
        } else {
            Self::new(ExpressionNodeKind::DEREF(Box::new(value)), ex_pos)
        }
    }

    pub fn new_member(id: ExpressionNode, member: String, ex_pos: Position) -> (e: Self)
        ensures
            e.kind == ExpressionNodeKind::MEMBER(Box::new(id), member),
            e.position == ex_pos,
    {
        Self::new(ExpressionNodeKind::MEMBER(Box::new(id), member), ex_pos)
    }

    /// A binary expression of `+`, `-`, `*`, `/` or `=`.
    pub fn new_binary_expr(op: &str, lop: ExpressionNode, rop: ExpressionNode, ex_pos: Position) -> (e: Self)
        requires
            op@ == "+"@ || op@ == "-"@ || op@ == "*"@ || op@ == "/"@ || op@ == "="@,
        ensures
            e.position == ex_pos,
            op@ == "+"@ ==> e.kind == ExpressionNodeKind::ADD(Box::new(lop), Box::new(rop)),
            op@ == "-"@ ==> e.kind == ExpressionNodeKind::SUB(Box::new(lop), Box::new(rop)),
            op@ == "*"@ ==> e.kind == ExpressionNodeKind::MUL(Box::new(lop), Box::new(rop)),
            op@ == "/"@ ==> e.kind == ExpressionNodeKind::DIV(Box::new(lop), Box::new(rop)),
            op@ == "="@ ==> e.kind == ExpressionNodeKind::ASSIGN(Box::new(lop), Box::new(rop)),
    {
        proof {
            reveal_strlit("+");
            reveal_strlit("-");
            reveal_strlit("*");
            reveal_strlit("/");
            reveal_strlit("=");
            assert("+"@[0] != "-"@[0] && "+"@[0] != "*"@[0] && "+"@[0] != "/"@[0] && "+"@[0] != "="@[0]);
            assert("-"@[0] != "*"@[0] && "-"@[0] != "/"@[0] && "-"@[0] != "="@[0]);
            assert("*"@[0] != "/"@[0] && "*"@[0] != "="@[0] && "/"@[0] != "="@[0]);
        }
        if compare_strings(op, "+") == 0 {
            Self::new(ExpressionNodeKind::ADD(Box::new(lop), Box::new(rop)), ex_pos)
        } else if compare_strings(op, "-") == 0 {
            Self::new(ExpressionNodeKind::SUB(Box::new(lop), Box::new(rop)), ex_pos)
        } else if compare_strings(op, "*") == 0 {
            Self::new(ExpressionNodeKind::MUL(Box::new(lop), Box::new(rop)), ex_pos)
        } else if compare_strings(op, "/") == 0 {
            Self::new(ExpressionNodeKind::DIV(Box::new(lop), Box::new(rop)), ex_pos)
        } else {
            Self::new(ExpressionNodeKind::ASSIGN(Box::new(lop), Box::new(rop)), ex_pos)
        }
    }

    pub fn new_if(condition: ExpressionNode, body: Vec<StatementNode>, ex_pos: Position) -> (e: Self)
        ensures
            e.kind == ExpressionNodeKind::IF(Box::new(condition), body),
            e.position == ex_pos,
    {
        Self::new(ExpressionNodeKind::IF(Box::new(condition), body), ex_pos)
    }

    pub fn new_ifelse(
        condition: ExpressionNode,
        body: Vec<StatementNode>,
        else_body: Vec<StatementNode>,
        ex_pos: Position,
    ) -> (e: Self)
        ensures
            e.kind == ExpressionNodeKind::IFELSE(Box::new(condition), body, else_body),
            e.position == ex_pos,
    {
        Self::new(ExpressionNodeKind::IFELSE(Box::new(condition), body, else_body), ex_pos)
    }
}

impl StatementNode {
    fn new(kind: StatementNodeKind, position: Position) -> (s: Self)
        ensures
            s.kind == kind,
            s.position == position,
    {
        StatementNode { kind, position }
    }

    /// A copy of the statement.
    pub fn copy_stmt(&self) -> (r: StatementNode)
        ensures
            r@ == self@,
        decreases self,
    {
        let k = match &self.kind {
            StatementNodeKind::RETURN(e) => StatementNodeKind::RETURN(e.copy_expr()),
            StatementNodeKind::IFRET(e) => StatementNodeKind::IFRET(e.copy_expr()),
            StatementNodeKind::EXPR(e) => StatementNodeKind::EXPR(e.copy_expr()),
            StatementNodeKind::VARDECL => StatementNodeKind::VARDECL,
            StatementNodeKind::COUNTUP(i, s, e, b) => StatementNodeKind::COUNTUP(
                i.copy_expr(),
                s.copy_expr(),
                e.copy_expr(),
                copy_stmts(b),
            ),
            StatementNodeKind::ASM(lines) => StatementNodeKind::ASM(copy_strings(lines)),
            StatementNodeKind::VARINIT(i, e) => StatementNodeKind::VARINIT(i.copy_expr(), e.copy_expr()),
        };
        StatementNode { kind: k, position: self.position }
    }

    /// The place where the statement begins.
    pub fn copy_pos(&self) -> (p: Position)
        ensures
            p == self.position,
    {
        self.position
    }

    pub fn new_return(expr: ExpressionNode, position: Position) -> (s: Self)
        ensures
            s.kind == StatementNodeKind::RETURN(expr),
            s.position == position,
    {
        Self::new(StatementNodeKind::RETURN(expr), position)
    }

    pub fn new_ifret(expr: ExpressionNode, position: Position) -> (s: Self)
        ensures
            s.kind == StatementNodeKind::IFRET(expr),
            s.position == position,
    {
        Self::new(StatementNodeKind::IFRET(expr), position)
    }

    pub fn new_expr(expr: ExpressionNode, position: Position) -> (s: Self)
        ensures
            s.kind == StatementNodeKind::EXPR(expr),
            s.position == position,
    {
        Self::new(StatementNodeKind::EXPR(expr), position)
    }

    pub fn new_vardecl(position: Position) -> (s: Self)
        ensures
            s.kind == StatementNodeKind::VARDECL,
            s.position == position,
    {
        Self::new(StatementNodeKind::VARDECL, position)
    }

    pub fn new_countup(
        ident: ExpressionNode,
        start: ExpressionNode,
        end: ExpressionNode,
        body: Vec<StatementNode>,
        position: Position,
    ) -> (s: Self)
        ensures
            s.kind == StatementNodeKind::COUNTUP(ident, start, end, body),
            s.position == position,
    {
        Self::new(StatementNodeKind::COUNTUP(ident, start, end, body), position)
    }

    pub fn new_asm(lines: Vec<String>, position: Position) -> (s: Self)
        ensures
            s.kind == StatementNodeKind::ASM(lines),
            s.position == position,
    {
        Self::new(StatementNodeKind::ASM(lines), position)
    }

    pub fn new_varinit(ident: ExpressionNode, expr: ExpressionNode, position: Position) -> (s: Self)
        ensures
            s.kind == StatementNodeKind::VARINIT(ident, expr),
            s.position == position,
    {
        Self::new(StatementNodeKind::VARINIT(ident, expr), position)
    }
}

} // verus!
