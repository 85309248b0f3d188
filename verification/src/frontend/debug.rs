use vstd::prelude::*;

use crate::frontend::ast::{stmt_v, tld_v, ASTRoot, Stmt, StmtKind, StmtV, TopLevelDecl, TopLevelDeclKind, TopLevelDeclV};
use crate::ident::strings_view;
use crate::pfunction::{join_path, path_key};
use crate::text::{chars_to_string, collect_chars, push_all, push_str};

verus! {

/// The line that describes a statement.
pub open spec fn stmt_dump(s: StmtV) -> Seq<char> {
    match s {
        StmtV::HalfOpenCountup(_, _, _, _) => "    HalfOpenCountupStatement"@,
        StmtV::ClosedCountup(_, _, _, _) => "    ClosedCountupStatement"@,
        StmtV::Block(_) => "    BlockStatement"@,
        StmtV::Declare(v, ts) => "    DeclareStatement(var: "@ + v + ", type: "@ + path_key(ts) + ")"@,
        StmtV::Expr(_) => "    ExpressionStatement"@,
        StmtV::Asm(_) => "    AsmStatement"@,
    }
}

/// The lines that describe a declaration.
pub open spec fn decl_dump(d: TopLevelDeclV) -> Seq<Seq<char>> {
    match d {
        TopLevelDeclV::Function(n, rt, _, stmts) => seq!["Function "@ + n + "() "@ + rt + " {"@] + stmts.map_values(
            |s: StmtV| stmt_dump(s),
        ) + seq!["}"@],
        TopLevelDeclV::PubType(n, to) => seq!["PubType "@ + n + " = "@ + to + ";"@],
        TopLevelDeclV::PubConst(n, t, _) => seq!["PubConst "@ + n + ": "@ + t + ";"@],
        TopLevelDeclV::Import(m) => seq!["Import "@ + m + ";"@],
    }
}

/// The lines that describe a list of declarations.
pub open spec fn decls_dump(ds: Seq<TopLevelDeclV>) -> Seq<Seq<char>>
    decreases ds.len(),
{
    if ds.len() == 0 {
        Seq::empty()
    } else {
        decls_dump(ds.drop_last()) + decl_dump(ds.last())
    }
}

/// The values of a list of lines.
pub open spec fn lines_v(v: Seq<String>) -> Seq<Seq<char>> {
    strings_view(v)
}

fn text_of(parts: &Vec<char>) -> (s: String)
    ensures
        s@ == parts@,
{
    chars_to_string(parts.as_slice())
}

fn push_string(v: &mut Vec<char>, s: &String)
    ensures
        final(v)@ == old(v)@ + s@,
{
    let cs = collect_chars(s.as_str());
    push_all(v, cs.as_slice());
}

/// The line that describes a statement.
pub fn dump_stmt(stmt: &Stmt) -> (line: String)
    ensures
        line@ == stmt_dump(stmt_v(*stmt)),
{
    match &stmt.kind {
        StmtKind::HalfOpenCountup { .. } => crate::text::str_to_string("    HalfOpenCountupStatement"),
        StmtKind::ClosedCountup { .. } => crate::text::str_to_string("    ClosedCountupStatement"),
        StmtKind::Block { .. } => crate::text::str_to_string("    BlockStatement"),
        StmtKind::Declare { var_name, type_names } => {
            let mut v: Vec<char> = Vec::new();
            push_str(&mut v, "    DeclareStatement(var: ");
            push_string(&mut v, var_name);
            push_str(&mut v, ", type: ");
            let joined = join_path(type_names);
            push_string(&mut v, &joined);
            push_str(&mut v, ")");
            text_of(&v)
        },
        StmtKind::Expr { .. } => crate::text::str_to_string("    ExpressionStatement"),
        StmtKind::Asm { .. } => crate::text::str_to_string("    AsmStatement"),
    }
}

/// The lines that describe a declaration.
pub fn dump_decl(decl: &TopLevelDecl) -> (lines: Vec<String>)
    ensures
        lines_v(lines@) == decl_dump(tld_v(*decl)),
{
    let mut lines: Vec<String> = Vec::new();
    match &decl.kind {
        TopLevelDeclKind::Function { func_name, return_type, parameters: _, stmts } => {
            let mut v: Vec<char> = Vec::new();
            push_str(&mut v, "Function ");
            push_string(&mut v, func_name);
            push_str(&mut v, "() ");
            push_string(&mut v, return_type);
            push_str(&mut v, " {");
            lines.push(text_of(&v));
            let ghost first = v@;
            let mut i: usize = 0;
            proof { crate::frontend::ast::lemma_stmts_v(stmts@); }
            while i < stmts.len()
                invariant
                    i <= stmts.len(),
                    crate::frontend::ast::stmts_v(stmts@).len() == stmts@.len(),
                    forall|k: int| 0 <= k < stmts@.len() ==> crate::frontend::ast::stmts_v(stmts@)[k] == stmt_v(
                        #[trigger] stmts@[k],
                    ),
                    lines_v(lines@) == seq![first] + crate::frontend::ast::stmts_v(stmts@).take(i as int).map_values(
                        |s: StmtV| stmt_dump(s),
                    ),
                decreases stmts.len() - i,
            {
                let ghost before = lines@;
                let line = dump_stmt(&stmts[i]);
                lines.push(line);
                proof {
                    assert(lines_v(lines@) =~= lines_v(before).push(line@));
                    assert(crate::frontend::ast::stmts_v(stmts@).take(i + 1).map_values(|s: StmtV| stmt_dump(s))
                        =~= crate::frontend::ast::stmts_v(stmts@).take(i as int).map_values(|s: StmtV| stmt_dump(s)).push(
                        stmt_dump(stmt_v(stmts@[i as int])),
                    ));
                }
                i = i + 1;
            }
            let ghost before = lines@;
            lines.push(crate::text::str_to_string("}"));
            proof {
                assert(crate::frontend::ast::stmts_v(stmts@).take(stmts.len() as int) =~= crate::frontend::ast::stmts_v(
                    stmts@,
                ));
                assert(lines_v(lines@) =~= lines_v(before).push("}"@));
                assert(lines_v(lines@) =~= decl_dump(tld_v(*decl)));
            }
        },
        TopLevelDeclKind::PubType { alias, to } => {
            let mut v: Vec<char> = Vec::new();
            push_str(&mut v, "PubType ");
            push_string(&mut v, alias);
            push_str(&mut v, " = ");
            push_string(&mut v, to);
            push_str(&mut v, ";");
            lines.push(text_of(&v));
            proof { assert(lines_v(lines@) =~= decl_dump(tld_v(*decl))); }
        },
        TopLevelDeclKind::PubConst { const_name, const_type, expr: _ } => {
            let mut v: Vec<char> = Vec::new();
            push_str(&mut v, "PubConst ");
            push_string(&mut v, const_name);
            push_str(&mut v, ": ");
            push_string(&mut v, const_type);
            push_str(&mut v, ";");
            lines.push(text_of(&v));
            proof { assert(lines_v(lines@) =~= decl_dump(tld_v(*decl))); }
        },
        TopLevelDeclKind::Import { module_name } => {
            let mut v: Vec<char> = Vec::new();
            push_str(&mut v, "Import ");
            push_string(&mut v, module_name);
            push_str(&mut v, ";");
            lines.push(text_of(&v));
            proof { assert(lines_v(lines@) =~= decl_dump(tld_v(*decl))); }
        },
    }
    lines
}

/// The lines that describe every declaration of a module, in order.
pub fn dump_ast_root(ast_root: &ASTRoot) -> (lines: Vec<String>)
    ensures
        lines_v(lines@) == decls_dump(crate::frontend::ast::tlds_v(ast_root.decls@)),
{
    let ghost ds = crate::frontend::ast::tlds_v(ast_root.decls@);
    let mut lines: Vec<String> = Vec::new();
    let mut i: usize = 0;
    proof { assert(lines_v(lines@) =~= decls_dump(ds.take(0))); }
    while i < ast_root.decls.len()
        invariant
            i <= ast_root.decls.len(),
            ds == crate::frontend::ast::tlds_v(ast_root.decls@),
            lines_v(lines@) == decls_dump(ds.take(i as int)),
        decreases ast_root.decls.len() - i,
    {
        let more = dump_decl(&ast_root.decls[i]);
        let ghost before = lines@;
        let mut j: usize = 0;
        while j < more.len()
            invariant
                j <= more.len(),
                lines_v(lines@) == lines_v(before) + lines_v(more@).take(j as int),
            decreases more.len() - j,
        {
            let ghost b2 = lines@;
            lines.push(more[j].clone());
            proof {
                assert(lines_v(lines@) =~= lines_v(b2).push(more@[j as int]@));
                assert(lines_v(more@).take(j + 1) =~= lines_v(more@).take(j as int).push(more@[j as int]@));
            }
            j = j + 1;
        }
        proof {
            assert(lines_v(more@).take(more.len() as int) =~= lines_v(more@));
            assert(ds.take(i + 1).drop_last() =~= ds.take(i as int));
            assert(ds.take(i + 1).last() == tld_v(ast_root.decls@[i as int]));
        }
        i = i + 1;
    }
    proof { assert(ds.take(ast_root.decls.len() as int) =~= ds); }
    lines
}

} // verus!
