use vstd::prelude::*;

use crate::frontend::ast::{decl_wf, root_wf, ASTRoot, TopLevelDecl, TopLevelDeclKind};
use crate::frontend::parser::qualified;
use crate::frontend::typed_ast::{predefined_types, GlobalEnv, PeachiliType};
use crate::name_map::NameMap;

verus! {

/// Why a type name could not be resolved.
#[derive(Debug, PartialEq, Eq)]
pub enum TypeResolveError {
    /// No type of this name is known.
    CannotResolve { name: String },
    /// The aliases that lead from this name are more than the declarations: they form a cycle.
    AliasCycle { name: String },
}

/// The value of a resolution: a type, or the error with the name it is about.
pub enum Resolved {
    Type(PeachiliType),
    CannotResolve(Seq<char>),
    AliasCycle(Seq<char>),
}

/// An error of resolution stands for its value.
pub open spec fn error_v(e: TypeResolveError) -> Resolved {
    match e {
        TypeResolveError::CannotResolve { name } => Resolved::CannotResolve(name@),
        TypeResolveError::AliasCycle { name } => Resolved::AliasCycle(name@),
    }
}

/// A result of resolution stands for its value.
pub open spec fn result_v(r: Result<PeachiliType, TypeResolveError>) -> Resolved {
    match r {
        Ok(t) => Resolved::Type(t),
        Err(e) => error_v(e),
    }
}

/// Looks a type name up: in the table of resolved names; else, where it names an
/// alias, resolves what the alias stands for (within `fuel` steps) and records it.
/// Gives the outcome and the table after.
pub open spec fn find_typedef_s(
    raw: Map<Seq<char>, TopLevelDecl>,
    table: Map<Seq<char>, PeachiliType>,
    module: Seq<char>,
    name: Seq<char>,
    fuel: nat,
) -> (Resolved, Map<Seq<char>, PeachiliType>)
    decreases fuel, 0int,
{
    if table.contains_key(name) {
        (Resolved::Type(table[name]), table)
    } else if raw.contains_key(name) && raw[name].kind is PubType {
        if fuel == 0 {
            (Resolved::AliasCycle(name), table)
        } else {
            let alias = raw[name].kind->alias;
            let to = raw[name].kind->to;
            let (r, t2) = resolve_type_s(raw, table, module, to@, (fuel - 1) as nat);
            match r {
                Resolved::Type(ty) => (Resolved::Type(ty), t2.insert(alias@, ty)),
                _ => (r, t2),
            }
        }
    } else {
        (Resolved::CannotResolve(name), table)
    }
}

/// Resolves a type name as written, else prefixed by the module's name.
pub open spec fn resolve_type_s(
    raw: Map<Seq<char>, TopLevelDecl>,
    table: Map<Seq<char>, PeachiliType>,
    module: Seq<char>,
    name: Seq<char>,
    fuel: nat,
) -> (Resolved, Map<Seq<char>, PeachiliType>)
    decreases fuel, 1int,
{
    let (r, t2) = find_typedef_s(raw, table, module, name, fuel);
    match r {
        Resolved::Type(_) => (r, t2),
        _ => find_typedef_s(raw, t2, module, qualified(module, name), fuel),
    }
}

/// Resolves the types of parameters in order; the first failure ends it.
pub open spec fn params_resolve(
    raw: Map<Seq<char>, TopLevelDecl>,
    table: Map<Seq<char>, PeachiliType>,
    module: Seq<char>,
    ps: Seq<Seq<char>>,
    fuel: nat,
) -> (Option<Resolved>, Map<Seq<char>, PeachiliType>)
    decreases ps.len(),
{
    if ps.len() == 0 {
        (None, table)
    } else {
        let (e, t) = params_resolve(raw, table, module, ps.drop_last(), fuel);
        if e is Some {
            (e, t)
        } else {
            let (r, t2) = resolve_type_s(raw, t, module, ps.last(), fuel);
            match r {
                Resolved::Type(_) => (None, t2),
                _ => (Some(r), t2),
            }
        }
    }
}

/// The state of resolution: the function table and the type table.
pub struct EnvV {
    pub funcs: Map<Seq<char>, PeachiliType>,
    pub types: Map<Seq<char>, PeachiliType>,
}

/// Resolves the types that one declaration names.
pub open spec fn decl_resolve(
    raw: Map<Seq<char>, TopLevelDecl>,
    st: EnvV,
    module: Seq<char>,
    d: TopLevelDecl,
    fuel: nat,
) -> Result<EnvV, Resolved> {
    match d.kind {
        TopLevelDeclKind::PubType { alias, .. } => {
            let (r, t) = resolve_type_s(raw, st.types, module, alias@, fuel);
            match r {
                Resolved::Type(_) => Ok(EnvV { funcs: st.funcs, types: t }),
                _ => Err(r),
            }
        },
        TopLevelDeclKind::Function { func_name, return_type, parameters, .. } => {
            let (r, t) = resolve_type_s(raw, st.types, module, return_type@, fuel);
            match r {
                Resolved::Type(rt) => {
                    let (e, t2) = params_resolve(
                        raw,
                        t,
                        module,
                        parameters.values().map_values(|s: String| s@),
                        fuel,
                    );
                    match e {
                        Some(err) => Err(err),
                        None => Ok(EnvV { funcs: st.funcs.insert(func_name@, rt), types: t2 }),
                    }
                },
                _ => Err(r),
            }
        },
        TopLevelDeclKind::Import { .. } => Ok(st),
        TopLevelDeclKind::PubConst { const_type, .. } => {
            let (r, t) = resolve_type_s(raw, st.types, module, const_type@, fuel);
            match r {
                Resolved::Type(_) => Ok(EnvV { funcs: st.funcs, types: t }),
                _ => Err(r),
            }
        },
    }
}

/// Resolves the declarations of a module in order.
pub open spec fn decls_resolve(
    raw: Map<Seq<char>, TopLevelDecl>,
    st: EnvV,
    module: Seq<char>,
    ds: Seq<TopLevelDecl>,
    fuel: nat,
) -> Result<EnvV, Resolved>
    decreases ds.len(),
{
    if ds.len() == 0 {
        Ok(st)
    } else {
        match decls_resolve(raw, st, module, ds.drop_last(), fuel) {
            Ok(s2) => decl_resolve(raw, s2, module, ds.last(), fuel),
            Err(e) => Err(e),
        }
    }
}

/// Resolves the modules in order.
pub open spec fn roots_resolve(
    raw: Map<Seq<char>, TopLevelDecl>,
    st: EnvV,
    roots: Seq<ASTRoot>,
    fuel: nat,
) -> Result<EnvV, Resolved>
    decreases roots.len(),
{
    if roots.len() == 0 {
        Ok(st)
    } else {
        match roots_resolve(raw, st, roots.drop_last(), fuel) {
            Ok(s2) => decls_resolve(raw, s2, roots.last().module_name@, roots.last().decls@, fuel),
            Err(e) => Err(e),
        }
    }
}

/// Looks a type name up, resolving an alias and recording it in `global_env`.
pub fn find_typedef(
    raw_type_env: &NameMap<TopLevelDecl>,
    global_env: &mut GlobalEnv,
    ref_module_name: &String,
    tname: &String,
    fuel: usize,
) -> (r: Result<PeachiliType, TypeResolveError>)
    requires
        raw_type_env.wf(),
        old(global_env).wf(),
    ensures
        final(global_env).wf(),
        final(global_env).func_table == old(global_env).func_table,
        (result_v(r), final(global_env).type_name_table@) == find_typedef_s(
            raw_type_env@,
            old(global_env).type_name_table@,
            ref_module_name@,
            tname@,
            fuel as nat,
        ),
    decreases fuel, 0int,
{
    if let Some(ty) = global_env.type_name_table.get(tname.as_str()) {
        return Ok(*ty);
    }
    match raw_type_env.get(tname.as_str()) {
        Some(tld) => match &tld.kind {
            TopLevelDeclKind::PubType { alias, to } => {
                if fuel == 0 {
                    return Err(TypeResolveError::AliasCycle { name: tname.clone() });
                }
                let alias_type = resolve_type(raw_type_env, global_env, ref_module_name, to, fuel - 1);
                match alias_type {
                    Ok(ty) => {
                        let _ = global_env.type_name_table.insert(alias.clone(), ty);
                        Ok(ty)
                    },
                    Err(e) => Err(e),
                }
            },
            _ => Err(TypeResolveError::CannotResolve { name: tname.clone() }),
        },
        None => Err(TypeResolveError::CannotResolve { name: tname.clone() }),
    }
}

/// Resolves a type name as written, else prefixed by the module's name.
pub fn resolve_type(
    raw_type_env: &NameMap<TopLevelDecl>,
    global_env: &mut GlobalEnv,
    ref_module_name: &String,
    tname: &String,
    fuel: usize,
) -> (r: Result<PeachiliType, TypeResolveError>)
    requires
        raw_type_env.wf(),
        old(global_env).wf(),
    ensures
        final(global_env).wf(),
        final(global_env).func_table == old(global_env).func_table,
        (result_v(r), final(global_env).type_name_table@) == resolve_type_s(
            raw_type_env@,
            old(global_env).type_name_table@,
            ref_module_name@,
            tname@,
            fuel as nat,
        ),
    decreases fuel, 1int,
{
    match find_typedef(raw_type_env, global_env, ref_module_name, tname, fuel) {
        Ok(result) => Ok(result),
        Err(_e) => {
            let mut v = crate::text::collect_chars(ref_module_name.as_str());
            crate::text::push_str(&mut v, "::");
            crate::text::push_str(&mut v, tname.as_str());
            let qualified_name = crate::text::chars_to_string(v.as_slice());
            find_typedef(raw_type_env, global_env, ref_module_name, &qualified_name, fuel)
        },
    }
}

/// Resolves the return type of a function, records it, and resolves the types of
/// its parameters (in name order).
pub fn resolve_at_function(
    raw_type_env: &NameMap<TopLevelDecl>,
    global_env: &mut GlobalEnv,
    func_name: &String,
    return_type_str: &String,
    ref_module_name: &String,
    parameters: &NameMap<String>,
    fuel: usize,
) -> (r: Result<(), TypeResolveError>)
    requires
        raw_type_env.wf(),
        old(global_env).wf(),
        parameters.wf(),
    ensures
        final(global_env).wf(),
        ({
            let (rr, t) = resolve_type_s(raw_type_env@, old(global_env).type_name_table@, ref_module_name@, return_type_str@, fuel as nat);
            match rr {
                Resolved::Type(rt) => {
                    let (e, t2) = params_resolve(raw_type_env@, t, ref_module_name@, parameters.values().map_values(|s: String| s@), fuel as nat);
                    &&& final(global_env).func_table@ == old(global_env).func_table@.insert(func_name@, rt)
                    &&& final(global_env).type_name_table@ == t2
                    &&& match e {
                        Some(err) => r matches Err(x) && error_v(x) == err,
                        None => r is Ok,
                    }
                },
                _ => r matches Err(x) && error_v(x) == rr,
            }
        }),
{
    let return_type = match resolve_type(raw_type_env, global_env, ref_module_name, return_type_str, fuel) {
        Ok(t) => t,
        Err(e) => return Err(e),
    };
    let _ = global_env.func_table.insert(func_name.clone(), return_type);
    let ghost ps = parameters.values().map_values(|s: String| s@);
    let ghost t_start = global_env.type_name_table@;
    proof { parameters.lemma_values_len(); }
    let n = parameters.len();
    let mut i: usize = 0;
    while i < n
        invariant
            i <= n,
            n == parameters.names().len(),
            parameters.wf(),
            raw_type_env.wf(),
            global_env.wf(),
            ps == parameters.values().map_values(|s: String| s@),
            ps.len() == n,
            params_resolve(raw_type_env@, t_start, ref_module_name@, ps.take(i as int), fuel as nat)
                == (None::<Resolved>, global_env.type_name_table@),
            global_env.func_table@ == old(global_env).func_table@.insert(func_name@, return_type),
            resolve_type_s(raw_type_env@, old(global_env).type_name_table@, ref_module_name@, return_type_str@, fuel as nat)
                == (Resolved::Type(return_type), t_start),
        decreases n - i,
    {
        let (_pname, ptype) = parameters.entry_at(i);
        proof {
            assert(ps.take(i + 1).drop_last() == ps.take(i as int));
            assert(ps.take(i + 1).last() == ptype@);
        }
        match resolve_type(raw_type_env, global_env, ref_module_name, ptype, fuel) {
            Ok(_) => {},
            Err(e) => {
                proof {
                    lemma_params_stop(raw_type_env@, t_start, ref_module_name@, ps, i as int + 1, fuel as nat);
                    assert(params_resolve(raw_type_env@, t_start, ref_module_name@, ps.take(i + 1), fuel as nat)
                        == (Some(error_v(e)), global_env.type_name_table@));
                }
                return Err(e);
            },
        }
        i = i + 1;
    }
    assert(ps.take(n as int) == ps);
    Ok(())
}

/// Once a parameter fails, later parameters change nothing.
proof fn lemma_params_stop(
    raw: Map<Seq<char>, TopLevelDecl>,
    table: Map<Seq<char>, PeachiliType>,
    module: Seq<char>,
    ps: Seq<Seq<char>>,
    n: int,
    fuel: nat,
)
    requires
        0 <= n <= ps.len(),
        params_resolve(raw, table, module, ps.take(n), fuel).0 is Some,
    ensures
        params_resolve(raw, table, module, ps, fuel) == params_resolve(raw, table, module, ps.take(n), fuel),
    decreases ps.len() - n,
{
    if n == ps.len() {
        assert(ps.take(n) == ps);
    } else {
        assert(ps.take(n + 1).drop_last() == ps.take(n));
        lemma_params_stop(raw, table, module, ps, n + 1, fuel);
    }
}

/// Resolves every type that the modules name: the return type of each function,
/// its parameters' types, the type aliases and the constants' types, module by module
/// in order. Each search follows at most as many aliases as there are declarations.
pub fn type_resolve_main(
    ast_roots: &Vec<ASTRoot>,
    raw_type_env: &NameMap<TopLevelDecl>,
) -> (r: Result<GlobalEnv, TypeResolveError>)
    requires
        raw_type_env.wf(),
        raw_type_env.names().len() < usize::MAX,
        forall|k: int| 0 <= k < ast_roots@.len() ==> #[trigger] root_wf(ast_roots@[k]),
    ensures
        ({
            let fuel = (raw_type_env.names().len() + 1) as nat;
            let start = EnvV {
                funcs: Map::<Seq<char>, PeachiliType>::empty(),
                types: predefined_types(Map::<Seq<char>, PeachiliType>::empty()),
            };
            match roots_resolve(raw_type_env@, start, ast_roots@, fuel) {
                Ok(st) => r matches Ok(g) && g.wf() && g.func_table@ == st.funcs && g.type_name_table@ == st.types,
                Err(e) => r matches Err(x) && error_v(x) == e,
            }
        }),
{
    let mut global_env: GlobalEnv = Default::default();
    global_env.initialize_predefined_type();
    let fuel = raw_type_env.len() + 1;
    let ghost start = EnvV { funcs: global_env.func_table@, types: global_env.type_name_table@ };
    let mut k: usize = 0;
    while k < ast_roots.len()
        invariant
            k <= ast_roots.len(),
            raw_type_env.wf(),
            global_env.wf(),
            fuel == raw_type_env.names().len() + 1,
            start == (EnvV {
                funcs: Map::<Seq<char>, PeachiliType>::empty(),
                types: predefined_types(Map::<Seq<char>, PeachiliType>::empty()),
            }),
            roots_resolve(raw_type_env@, start, ast_roots@.take(k as int), fuel as nat)
                == Ok::<EnvV, Resolved>(EnvV { funcs: global_env.func_table@, types: global_env.type_name_table@ }),
            forall|m: int| 0 <= m < ast_roots@.len() ==> #[trigger] root_wf(ast_roots@[m]),
        decreases ast_roots.len() - k,
    {
        let ast_root = &ast_roots[k];
        assert(root_wf(ast_roots@[k as int]));
        proof {
            assert(ast_roots@.take(k + 1).drop_last() == ast_roots@.take(k as int));
            assert(ast_roots@.take(k + 1).last() == ast_roots@[k as int]);
        }
        let ghost s_root = EnvV { funcs: global_env.func_table@, types: global_env.type_name_table@ };
        let mut j: usize = 0;
        while j < ast_root.decls.len()
            invariant
                j <= ast_root.decls.len(),
                k < ast_roots@.len(),
                *ast_root == ast_roots@[k as int],
                fuel == raw_type_env.names().len() + 1,
                roots_resolve(raw_type_env@, start, ast_roots@.take(k as int + 1), fuel as nat)
                    == decls_resolve(raw_type_env@, s_root, ast_root.module_name@, ast_root.decls@, fuel as nat),
                start == (EnvV {
                    funcs: Map::<Seq<char>, PeachiliType>::empty(),
                    types: predefined_types(Map::<Seq<char>, PeachiliType>::empty()),
                }),
                forall|m: int| 0 <= m < ast_roots@.len() ==> #[trigger] root_wf(ast_roots@[m]),
                root_wf(*ast_root),
                raw_type_env.wf(),
                global_env.wf(),
                decls_resolve(raw_type_env@, s_root, ast_root.module_name@, ast_root.decls@.take(j as int), fuel as nat)
                    == Ok::<EnvV, Resolved>(EnvV { funcs: global_env.func_table@, types: global_env.type_name_table@ }),
            decreases ast_root.decls.len() - j,
        {
            let common_tld = &ast_root.decls[j];
            proof {
                assert(ast_root.decls@.take(j + 1).drop_last() == ast_root.decls@.take(j as int));
                assert(ast_root.decls@.take(j + 1).last() == ast_root.decls@[j as int]);
            }
            let outcome: Result<(), TypeResolveError> = match &common_tld.kind {
                TopLevelDeclKind::PubType { alias, to: _ } => {
                    match resolve_type(raw_type_env, &mut global_env, &ast_root.module_name, alias, fuel) {
                        Ok(_) => Ok(()),
                        Err(e) => Err(e),
                    }
                },
                TopLevelDeclKind::Function { func_name, return_type, parameters, stmts: _ } => {
                    assert(decl_wf(ast_root.decls@[j as int]));
                    resolve_at_function(
                        raw_type_env,
                        &mut global_env,
                        func_name,
                        return_type,
                        &ast_root.module_name,
                        parameters,
                        fuel,
                    )
                },
                TopLevelDeclKind::Import { module_name: _ } => Ok(()),
                TopLevelDeclKind::PubConst { const_name: _, const_type, expr: _ } => {
                    match resolve_type(raw_type_env, &mut global_env, &ast_root.module_name, const_type, fuel) {
                        Ok(_) => Ok(()),
                        Err(e) => Err(e),
                    }
                },
            };
            match outcome {
                Ok(()) => {},
                Err(e) => {
                    proof {
                        lemma_decls_stop(raw_type_env@, s_root, ast_root.module_name@, ast_root.decls@, j as int + 1, fuel as nat);
                        lemma_roots_stop(raw_type_env@, start, ast_roots@, k as int + 1, fuel as nat);
                    }
                    return Err(e);
                },
            }
            j = j + 1;
        }
        assert(ast_root.decls@.take(ast_root.decls.len() as int) == ast_root.decls@);
        k = k + 1;
    }
    assert(ast_roots@.take(ast_roots.len() as int) == ast_roots@);
    Ok(global_env)
}

proof fn lemma_decls_stop(
    raw: Map<Seq<char>, TopLevelDecl>,
    st: EnvV,
    module: Seq<char>,
    ds: Seq<TopLevelDecl>,
    n: int,
    fuel: nat,
)
    requires
        0 <= n <= ds.len(),
        decls_resolve(raw, st, module, ds.take(n), fuel) is Err,
    ensures
        decls_resolve(raw, st, module, ds, fuel) == decls_resolve(raw, st, module, ds.take(n), fuel),
    decreases ds.len() - n,
{
    if n == ds.len() {
        assert(ds.take(n) == ds);
    } else {
        assert(ds.take(n + 1).drop_last() == ds.take(n));
        lemma_decls_stop(raw, st, module, ds, n + 1, fuel);
    }
}

proof fn lemma_roots_stop(
    raw: Map<Seq<char>, TopLevelDecl>,
    st: EnvV,
    roots: Seq<ASTRoot>,
    n: int,
    fuel: nat,
)
    requires
        0 <= n <= roots.len(),
        roots_resolve(raw, st, roots.take(n), fuel) is Err,
    ensures
        roots_resolve(raw, st, roots, fuel) == roots_resolve(raw, st, roots.take(n), fuel),
    decreases roots.len() - n,
{
    if n == roots.len() {
        assert(roots.take(n) == roots);
    } else {
        assert(roots.take(n + 1).drop_last() == roots.take(n));
        lemma_roots_stop(raw, st, roots, n + 1, fuel);
    }
}

} // verus!
