use vstd::prelude::*;

use crate::frontend::ast::{
    expr_v, exprs_v, root_wf, stmt_v, stmts_v, tld_v, tlds_v, ASTRoot, Expr, ExprKind, Stmt, StmtKind, TopLevelDecl, TopLevelDeclKind, TopLevelDeclV,
};
use crate::frontend::parser::{decls_many, ParseError, PR};
use crate::name_map::NameMap;
use crate::option::BuildOption;

verus! {

/// The name under which a declaration is known to other modules (imports have none).
pub open spec fn decl_key(d: TopLevelDeclV) -> Option<Seq<char>> {
    match d {
        TopLevelDeclV::Import(_) => None,
        TopLevelDeclV::Function(n, _, _, _) => Some(n),
        TopLevelDeclV::PubType(n, _) => Some(n),
        TopLevelDeclV::PubConst(n, _, _) => Some(n),
    }
}

/// `acc` with the declarations added in order, a later one replacing an earlier one of
/// the same name.
pub open spec fn env_of(ds: Seq<TopLevelDeclV>, acc: Map<Seq<char>, TopLevelDeclV>) -> Map<Seq<char>, TopLevelDeclV>
    decreases ds.len(),
{
    if ds.len() == 0 {
        acc
    } else {
        let m = env_of(ds.drop_last(), acc);
        match decl_key(ds.last()) {
            Some(k) => m.insert(k, ds.last()),
            None => m,
        }
    }
}

/// The declarations of the first `n` modules added in order.
pub open spec fn env_all(dss: Seq<Seq<TopLevelDeclV>>, n: int) -> Map<Seq<char>, TopLevelDeclV>
    decreases n,
{
    if n <= 0 {
        Map::empty()
    } else {
        env_of(dss[n - 1], env_all(dss, n - 1))
    }
}

/// The declarations of each of the first `n` modules (its name and its text), or the
/// error of the first that cannot be read.
pub open spec fn parse_modules(ms: Seq<(Seq<char>, Seq<char>)>, n: int) -> Result<Seq<Seq<TopLevelDeclV>>, ParseError>
    decreases n,
{
    if n <= 0 {
        Ok(Seq::empty())
    } else {
        match parse_modules(ms, n - 1) {
            Ok(dss) => match decls_many(ms[n - 1].0, ms[n - 1].1, 0, Seq::empty()) {
                PR::Done(ds, _) => Ok(dss.push(ds)),
                PR::NoMatch => Err(ParseError::NoMatch),
                PR::Abort => Err(ParseError::TooLargeInteger),
            },
            Err(e) => Err(e),
        }
    }
}

/// A copy of an expression.
pub fn copy_expr(e: &Expr) -> (r: Expr)
    ensures
        expr_v(r) == expr_v(*e),
    decreases e,
{
    let kind = match &e.kind {
        ExprKind::Addition { lhs, rhs } => ExprKind::Addition { lhs: Box::new(copy_expr(lhs)), rhs: Box::new(copy_expr(rhs)) },
        ExprKind::Subtraction { lhs, rhs } => ExprKind::Subtraction {
            lhs: Box::new(copy_expr(lhs)),
            rhs: Box::new(copy_expr(rhs)),
        },
        ExprKind::Multiplication { lhs, rhs } => ExprKind::Multiplication {
            lhs: Box::new(copy_expr(lhs)),
            rhs: Box::new(copy_expr(rhs)),
        },
        ExprKind::Division { lhs, rhs } => ExprKind::Division { lhs: Box::new(copy_expr(lhs)), rhs: Box::new(copy_expr(rhs)) },
        ExprKind::Negative { child } => ExprKind::Negative { child: Box::new(copy_expr(child)) },
        ExprKind::StringLiteral { contents } => ExprKind::StringLiteral { contents: contents.clone() },
        ExprKind::Integer { value } => ExprKind::Integer { value: *value },
        ExprKind::UnsignedInteger { value } => ExprKind::UnsignedInteger { value: *value },
        ExprKind::Identifier { list } => ExprKind::Identifier { list: copy_string_list(list) },
        ExprKind::Call { ident, params } => ExprKind::Call { ident: Box::new(copy_expr(ident)), params: copy_exprs(params) },
        ExprKind::True => ExprKind::True,
        ExprKind::False => ExprKind::False,
        ExprKind::Assignment { var_name, expr } => ExprKind::Assignment {
            var_name: var_name.clone(),
            expr: Box::new(copy_expr(expr)),
        },
    };
    Expr { kind }
}

/// A copy of a list of expressions.
pub fn copy_exprs(es: &Vec<Expr>) -> (r: Vec<Expr>)
    ensures
        exprs_v(r@) == exprs_v(es@),
    decreases es,
{
    let mut out: Vec<Expr> = Vec::new();
    let mut i: usize = 0;
    while i < es.len()
        invariant
            i <= es.len(),
            exprs_v(out@) == exprs_v(es@.take(i as int)),
        decreases es.len() - i,
    {
        proof { assert(decreases_to!(es => es@[i as int])); }
        let ghost before = out@;
        out.push(copy_expr(&es[i]));
        proof {
            assert(es@.take(i + 1).drop_last() =~= es@.take(i as int));
            assert(out@.drop_last() =~= before);
        }
        i = i + 1;
    }
    proof {
        assert(es@.take(es.len() as int) =~= es@);
        assert(exprs_v(Seq::<Expr>::empty()) =~= exprs_v(es@.take(0)));
    }
    out
}

/// A copy of a list of strings.
pub fn copy_string_list(v: &Vec<String>) -> (r: Vec<String>)
    ensures
        r@ == v@,
{
    let mut out: Vec<String> = Vec::new();
    let mut i: usize = 0;
    while i < v.len()
        invariant
            i <= v.len(),
            out@ == v@.take(i as int),
        decreases v.len() - i,
    {
        out.push(v[i].clone());
        proof { assert(v@.take(i + 1) =~= v@.take(i as int).push(v@[i as int])); }
        i = i + 1;
    }
    proof { assert(v@.take(v.len() as int) =~= v@); }
    out
}

/// A copy of a statement.
pub fn copy_stmt(s: &Stmt) -> (r: Stmt)
    ensures
        stmt_v(r) == stmt_v(*s),
    decreases s,
{
    let kind = match &s.kind {
        StmtKind::HalfOpenCountup { block, id, from, lessthan } => StmtKind::HalfOpenCountup {
            block: copy_stmts(block),
            id: id.clone(),
            from: copy_expr(from),
            lessthan: copy_expr(lessthan),
        },
        StmtKind::ClosedCountup { block, id, from, to } => StmtKind::ClosedCountup {
            block: copy_stmts(block),
            id: id.clone(),
            from: copy_expr(from),
            to: copy_expr(to),
        },
        StmtKind::Block { stmts } => StmtKind::Block { stmts: copy_stmts(stmts) },
        StmtKind::Declare { var_name, type_names } => StmtKind::Declare {
            var_name: var_name.clone(),
            type_names: copy_string_list(type_names),
        },
        StmtKind::Expr { expr } => StmtKind::Expr { expr: copy_expr(expr) },
        StmtKind::Asm { insts } => StmtKind::Asm { insts: copy_string_list(insts) },
    };
    Stmt { kind }
}

/// A copy of a list of statements.
pub fn copy_stmts(ss: &Vec<Stmt>) -> (r: Vec<Stmt>)
    ensures
        stmts_v(r@) == stmts_v(ss@),
    decreases ss,
{
    let mut out: Vec<Stmt> = Vec::new();
    let mut i: usize = 0;
    while i < ss.len()
        invariant
            i <= ss.len(),
            stmts_v(out@) == stmts_v(ss@.take(i as int)),
        decreases ss.len() - i,
    {
        proof { assert(decreases_to!(ss => ss@[i as int])); }
        let ghost before = out@;
        out.push(copy_stmt(&ss[i]));
        proof {
            assert(ss@.take(i + 1).drop_last() =~= ss@.take(i as int));
            assert(out@.drop_last() =~= before);
        }
        i = i + 1;
    }
    proof { assert(ss@.take(ss.len() as int) =~= ss@); }
    out
}

/// A copy of a map of names to strings.
pub fn copy_string_map(m: &NameMap<String>) -> (r: NameMap<String>)
    requires
        m.wf(),
    ensures
        r.wf(),
        r@ == m@,
{
    let mut out: NameMap<String> = NameMap::new();
    let n = m.len();
    proof {
        m.lemma_values_len();
        m.lemma_names_cover();
    }
    let mut i: usize = 0;
    while i < n
        invariant
            i <= n,
            n == m.names().len(),
            m.wf(),
            out.wf(),
            forall|k: Seq<char>| #[trigger] out@.contains_key(k) <==> exists|j: int| 0 <= j < i && m.names()[j] == k,
            forall|j: int| 0 <= j < i ==> #[trigger] out@[m.names()[j]] == m@[m.names()[j]],
        decreases n - i,
    {
        let (k, v) = m.entry_at(i);
        proof { m.lemma_names_distinct(i as int); }
        let _ = out.insert(k.clone(), v.clone());
        proof {
            assert forall|kk: Seq<char>| #[trigger] out@.contains_key(kk) <==> exists|j: int| 0 <= j < i + 1 && m.names()[j]
                == kk by {
                if kk == m.names()[i as int] {
                    assert(m.names()[i as int] == kk);
                }
            }
        }
        i = i + 1;
    }
    proof {
        assert forall|k: Seq<char>| #[trigger] out@.contains_key(k) <==> m@.contains_key(k) by {}
        assert forall|k: Seq<char>| #[trigger] out@.contains_key(k) implies out@[k] == m@[k] by {
            let j = choose|j: int| 0 <= j < n && m.names()[j] == k;
        }
        assert(out@ =~= m@);
    }
    out
}

/// A copy of a declaration, with the name it is known by; `None` for an import.
pub fn copy_tld_by(decl: &TopLevelDecl) -> (r: Option<(String, TopLevelDecl)>)
    requires
        decl.kind matches TopLevelDeclKind::Function { parameters, .. } ==> parameters.wf(),
    ensures
        match decl_key(tld_v(*decl)) {
            Some(k) => r matches Some((n, d)) && n@ == k && tld_v(d) == tld_v(*decl),
            None => r is None,
        },
{
    match &decl.kind {
        TopLevelDeclKind::Import { module_name: _ } => None,
        TopLevelDeclKind::Function { func_name, return_type, parameters, stmts } => {
            let params = copy_string_map(parameters);
            let d = TopLevelDecl {
                kind: TopLevelDeclKind::Function {
                    func_name: func_name.clone(),
                    return_type: return_type.clone(),
                    parameters: params,
                    stmts: copy_stmts(stmts),
                },
            };
            Some((func_name.clone(), d))
        },
        TopLevelDeclKind::PubType { alias, to } => Some((
            alias.clone(),
            TopLevelDecl { kind: TopLevelDeclKind::PubType { alias: alias.clone(), to: to.clone() } },
        )),
        TopLevelDeclKind::PubConst { const_name, const_type, expr } => Some((
            const_name.clone(),
            TopLevelDecl {
                kind: TopLevelDeclKind::PubConst {
                    const_name: const_name.clone(),
                    const_type: const_type.clone(),
                    expr: copy_expr(expr),
                },
            },
        )),
    }
}

/// Reads every module (its name and its text), in order: the declarations of each,
/// and the table of all declarations by name (a later one replacing an earlier one
/// of the same name); or the error of the first module that cannot be read.
pub fn main(modules: &Vec<(String, String)>, build_option: BuildOption) -> (r: Result<
    (Vec<ASTRoot>, NameMap<TopLevelDecl>),
    ParseError,
>)
    ensures
        ({
            let ms = modules@.map_values(|m: (String, String)| (m.0@, m.1@));
            match parse_modules(ms, ms.len() as int) {
                Ok(dss) => r matches Ok((roots, env)) && roots@.len() == dss.len() && env.wf() && env@.map_values(
                    |d: TopLevelDecl| tld_v(d),
                ) == env_all(dss, dss.len() as int) && forall|i: int|
                    0 <= i < dss.len() ==> {
                        &&& tlds_v((#[trigger] roots@[i]).decls@) == dss[i]
                        &&& roots@[i].module_name@ == ms[i].0
                        &&& root_wf(roots@[i])
                    },
                Err(e) => r == Err::<(Vec<ASTRoot>, NameMap<TopLevelDecl>), ParseError>(e),
            }
        }),
{
    let ghost ms = modules@.map_values(|m: (String, String)| (m.0@, m.1@));
    let mut roots: Vec<ASTRoot> = Vec::new();
    let mut raw_type_env: NameMap<TopLevelDecl> = NameMap::new();
    let mut i: usize = 0;
    proof {
        assert(raw_type_env@.map_values(|d: TopLevelDecl| tld_v(d)) =~= Map::<Seq<char>, TopLevelDeclV>::empty());
    }
    while i < modules.len()
        invariant
            i <= modules.len(),
            ms == modules@.map_values(|m: (String, String)| (m.0@, m.1@)),
            raw_type_env.wf(),
            parse_modules(ms, i as int) matches Ok(dss) && roots@.len() == dss.len() && raw_type_env@.map_values(
                |d: TopLevelDecl| tld_v(d),
            ) == env_all(dss, dss.len() as int) && forall|j: int|
                0 <= j < dss.len() ==> {
                    &&& tlds_v((#[trigger] roots@[j]).decls@) == dss[j]
                    &&& roots@[j].module_name@ == ms[j].0
                    &&& root_wf(roots@[j])
                },
        decreases modules.len() - i,
    {
        let (name, contents) = &modules[i];
        let ast_root = match crate::frontend::parser::main(name.as_str(), contents.as_str()) {
            Ok(root) => root,
            Err(e) => {
                proof { lemma_parse_modules_err(ms, i as int + 1, ms.len() as int); }
                return Err(e);
            },
        };
        let ghost dss = parse_modules(ms, i as int)->Ok_0;
        proof {
            lemma_parse_modules_len(ms, i as int);
            assert(ms[i as int] == (modules@[i as int].0@, modules@[i as int].1@));
        }
        let ghost ds = tlds_v(ast_root.decls@);
        let ghost env0 = raw_type_env@.map_values(|d: TopLevelDecl| tld_v(d));
        let mut j: usize = 0;
        while j < ast_root.decls.len()
            invariant
                j <= ast_root.decls.len(),
                root_wf(ast_root),
                ds == tlds_v(ast_root.decls@),
                raw_type_env.wf(),
                raw_type_env@.map_values(|d: TopLevelDecl| tld_v(d)) == env_of(ds.take(j as int), env0),
            decreases ast_root.decls.len() - j,
        {
            proof {
                assert(crate::frontend::ast::decl_wf(ast_root.decls@[j as int]));
                assert(ds.take(j + 1).drop_last() =~= ds.take(j as int));
                assert(ds.take(j + 1).last() == tld_v(ast_root.decls@[j as int]));
            }
            let ghost before = raw_type_env@;
            match copy_tld_by(&ast_root.decls[j]) {
                Some((decl_name, copied_decl)) => {
                    let ghost dv = tld_v(copied_decl);
                    let _ = raw_type_env.insert(decl_name, copied_decl);
                    proof {
                        assert(raw_type_env@.map_values(|d: TopLevelDecl| tld_v(d)) =~= before.map_values(
                            |d: TopLevelDecl| tld_v(d),
                        ).insert(decl_key(dv)->Some_0, dv));
                    }
                },
                None => {},
            }
            j = j + 1;
        }
        proof {
            assert(ds.take(ast_root.decls.len() as int) =~= ds);
            assert(parse_modules(ms, i + 1) == Ok::<Seq<Seq<TopLevelDeclV>>, ParseError>(dss.push(ds)));
            assert(env_all(dss.push(ds), (dss.len() + 1) as int) == env_of(ds, env_all(dss, dss.len() as int))) by {
                assert(dss.push(ds)[dss.len() as int] == ds);
                lemma_env_all_prefix(dss, ds, dss.len() as int);
            }
        }
        let ghost before_roots = roots@;
        roots.push(ast_root);
        proof {
            assert forall|k: int| 0 <= k < dss.len() + 1 implies {
                &&& tlds_v((#[trigger] roots@[k]).decls@) == dss.push(ds)[k]
                &&& roots@[k].module_name@ == ms[k].0
                &&& root_wf(roots@[k])
            } by {
                if k < dss.len() {
                    assert(roots@[k] == before_roots[k]);
                }
            }
        }
        i = i + 1;
    }
    proof { assert(ms.len() == modules.len()); }
    Ok((roots, raw_type_env))
}

proof fn lemma_env_all_prefix(dss: Seq<Seq<TopLevelDeclV>>, ds: Seq<TopLevelDeclV>, n: int)
    requires
        0 <= n <= dss.len(),
    ensures
        env_all(dss.push(ds), n) == env_all(dss, n),
    decreases n,
{
    if n > 0 {
        lemma_env_all_prefix(dss, ds, n - 1);
        assert(dss.push(ds)[n - 1] == dss[n - 1]);
    }
}

proof fn lemma_parse_modules_len(ms: Seq<(Seq<char>, Seq<char>)>, n: int)
    requires
        n >= 0,
    ensures
        parse_modules(ms, n) matches Ok(dss) ==> dss.len() == n,
    decreases n,
{
    if n > 0 {
        lemma_parse_modules_len(ms, n - 1);
    }
}

proof fn lemma_parse_modules_err(ms: Seq<(Seq<char>, Seq<char>)>, k: int, n: int)
    requires
        1 <= k <= n,
        parse_modules(ms, k) is Err,
    ensures
        parse_modules(ms, n) == parse_modules(ms, k),
    decreases n - k,
{
    if k < n {
        lemma_parse_modules_err(ms, k + 1, n);
    }
}

} // verus!
