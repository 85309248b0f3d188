use vstd::prelude::*;

use crate::name_map::NameMap;
use crate::option::BuildOption;
use crate::pfunction::{arg_type_known, resolved_arg_type, PFunction};
use crate::ptype::{members_view, MemberV, PType, PTypeV};
use crate::root::{functions_wf, ASTRoot};
use crate::tld::{tld_wf, TLDKind, TLDResolver, TopLevelDecl};

verus! {

/// The value of a declaration: its types taken by their values.
pub enum DeclV {
    Fn(PTypeV, Seq<(Seq<char>, PTypeV)>),
    Alias(PTypeV),
    Struct(Seq<MemberV>),
}

pub open spec fn decl_v(d: TopLevelDecl) -> DeclV {
    match d.kind {
        TLDKind::FN(ret, args) => DeclV::Fn(ret@, args@.map_values(|a: (String, PType)| (a.0@, a.1@))),
        TLDKind::ALIAS(t) => DeclV::Alias(t@),
        TLDKind::STRUCT(ms) => DeclV::Struct(members_view(ms@)),
    }
}

/// The values of a table of declarations.
pub open spec fn decls_v(m: Map<Seq<char>, TopLevelDecl>) -> Map<Seq<char>, DeclV> {
    m.map_values(|d: TopLevelDecl| decl_v(d))
}

/// Every parameter of `f` has a type that can be found.
pub open spec fn args_known(f: PFunction, type_map: Map<Seq<char>, PType>) -> bool {
    forall|i: int| 0 <= i < f.args@.len() ==> #[trigger] arg_type_known(f.locals@, type_map, f.args@[i]@)
}

/// The declaration of a function: its return type, and each parameter with its type
/// (a named type found among the type aliases).
pub open spec fn fn_decl_v(f: PFunction, type_map: Map<Seq<char>, PType>) -> DeclV {
    DeclV::Fn(
        f.return_type@,
        Seq::new(f.args@.len(), |i: int| (f.args@[i]@, resolved_arg_type(f.locals@, type_map, f.args@[i]@)@)),
    )
}

/// Why the table of declarations could not be built.
#[derive(Debug, PartialEq, Eq)]
pub enum TldError {
    /// Two declarations of one name (a function and a type alias).
    DuplicateName(String),
    /// A parameter of this function has a named type that no alias gives.
    UnknownArgumentType(String),
}

pub enum TldErrV {
    DuplicateName(Seq<char>),
    UnknownArgumentType(Seq<char>),
}

pub open spec fn tld_err_v(e: TldError) -> TldErrV {
    match e {
        TldError::DuplicateName(n) => TldErrV::DuplicateName(n@),
        TldError::UnknownArgumentType(n) => TldErrV::UnknownArgumentType(n@),
    }
}

/// The table after adding the first `n` functions, in name order, to `acc`: a
/// function with a parameter of unknown type, or of a name already declared, fails.
pub open spec fn add_fns(
    names: Seq<Seq<char>>,
    funcs: Seq<PFunction>,
    type_map: Map<Seq<char>, PType>,
    acc: Map<Seq<char>, DeclV>,
    n: int,
) -> Result<Map<Seq<char>, DeclV>, TldErrV>
    decreases n,
{
    if n <= 0 {
        Ok(acc)
    } else {
        match add_fns(names, funcs, type_map, acc, n - 1) {
            Ok(m) => if !args_known(funcs[n - 1], type_map) {
                Err(TldErrV::UnknownArgumentType(names[n - 1]))
            } else if m.contains_key(names[n - 1]) {
                Err(TldErrV::DuplicateName(names[n - 1]))
            } else {
                Ok(m.insert(names[n - 1], fn_decl_v(funcs[n - 1], type_map)))
            },
            Err(e) => Err(e),
        }
    }
}

/// The table of a module: each type alias, then each function.
pub open spec fn module_tld(root: ASTRoot) -> Result<Map<Seq<char>, DeclV>, TldErrV> {
    add_fns(
        root.func_map.names(),
        root.func_map.values(),
        root.type_map@,
        root.type_map@.map_values(|t: PType| DeclV::Alias(t@)),
        root.func_map.names().len() as int,
    )
}

impl TLDResolver {
    /// Adds each type alias as an alias declaration; no alias may be declared yet.
    pub fn resolve_typedefs(&mut self, build_option: &BuildOption, type_map: &NameMap<PType>)
        requires
            old(self).tld_map.wf(),
            type_map.wf(),
            forall|k: Seq<char>| #[trigger] type_map@.contains_key(k) ==> !old(self).tld_map@.contains_key(k),
        ensures
            final(self).tld_map.wf(),
            tld_wf(old(self).tld_map@) ==> tld_wf(final(self).tld_map@),
            decls_v(final(self).tld_map@) == decls_v(old(self).tld_map@).union_prefer_right(
                type_map@.map_values(|t: PType| DeclV::Alias(t@)),
            ),
    {
        let ghost m0 = self.tld_map@;
        let n = type_map.len();
        let mut i: usize = 0;
        proof { type_map.lemma_values_len(); }
        while i < n
            invariant
                i <= n,
                n == type_map.names().len(),
                type_map.wf(),
                self.tld_map.wf(),
                tld_wf(m0) ==> tld_wf(self.tld_map@),
                forall|k: Seq<char>| #[trigger] type_map@.contains_key(k) ==> !m0.contains_key(k),
                forall|k: Seq<char>| #[trigger] self.tld_map@.contains_key(k) <==> (m0.contains_key(k)
                    || exists|j: int| 0 <= j < i && type_map.names()[j] == k),
                forall|k: Seq<char>| #[trigger] m0.contains_key(k) ==> self.tld_map@[k] == m0[k],
                forall|j: int| 0 <= j < i ==> #[trigger] decl_v(self.tld_map@[type_map.names()[j]]) == DeclV::Alias(
                    type_map@[type_map.names()[j]]@,
                ),
            decreases n - i,
        {
            let (name, def_type) = type_map.entry_at(i);
            proof { type_map.lemma_names_distinct(i as int); }
            let tld_type = TopLevelDecl::new_alias(def_type.copy_ptype());
            assert(!self.tld_map@.contains_key(name@));
            self.insert_entry(name.clone(), tld_type);
            i = i + 1;
        }
        proof {
            type_map.lemma_names_cover();
            assert forall|k: Seq<char>| #[trigger] decls_v(self.tld_map@).contains_key(k) <==> decls_v(m0).union_prefer_right(
                type_map@.map_values(|t: PType| DeclV::Alias(t@)),
            ).contains_key(k) by {
                if type_map@.contains_key(k) {
                    let j = choose|j: int| 0 <= j < n && type_map.names()[j] == k;
                }
            }
            assert forall|k: Seq<char>| #[trigger] decls_v(self.tld_map@).contains_key(k) implies decls_v(self.tld_map@)[k]
                == decls_v(m0).union_prefer_right(type_map@.map_values(|t: PType| DeclV::Alias(t@)))[k] by {
                if type_map@.contains_key(k) {
                    let j = choose|j: int| 0 <= j < n && type_map.names()[j] == k;
                    assert(decl_v(self.tld_map@[type_map.names()[j]]) == DeclV::Alias(type_map@[type_map.names()[j]]@));
                }
            }
            assert(decls_v(self.tld_map@) =~= decls_v(m0).union_prefer_right(
                type_map@.map_values(|t: PType| DeclV::Alias(t@)),
            ));
        }
    }

    /// Adds the declaration of the function `func_name`: its return type and its
    /// parameters with their types; its name may not be declared yet.
    pub fn resolve_fn(
        &mut self,
        build_option: &BuildOption,
        func_name: &str,
        func: &PFunction,
        type_map: &NameMap<PType>,
    )
        requires
            old(self).tld_map.wf(),
            func.wf(),
            type_map.wf(),
            args_known(*func, type_map@),
            !old(self).tld_map@.contains_key(func_name@),
        ensures
            final(self).tld_map.wf(),
            tld_wf(old(self).tld_map@) ==> tld_wf(final(self).tld_map@),
            decls_v(final(self).tld_map@) == decls_v(old(self).tld_map@).insert(func_name@, fn_decl_v(*func, type_map@)),
    {
        let return_type = func.get_return_type().copy_ptype();
        let args = self.collect_arg_types(func, type_map);
        let tld_fn = TopLevelDecl::new_fn(return_type, args);
        let ghost before = self.tld_map@;
        self.insert_entry(crate::text::str_to_string(func_name), tld_fn);
        proof {
            assert(decl_v(tld_fn) == fn_decl_v(*func, type_map@));
            assert(decls_v(self.tld_map@) =~= decls_v(before).insert(func_name@, fn_decl_v(*func, type_map@)));
        }
    }

    /// Each parameter of `func` with its type.
    fn collect_arg_types(&self, func: &PFunction, type_map: &NameMap<PType>) -> (args: Vec<(String, PType)>)
        requires
            func.wf(),
            type_map.wf(),
            args_known(*func, type_map@),
        ensures
            args@.map_values(|a: (String, PType)| (a.0@, a.1@)) == Seq::new(
                func.args@.len(),
                |i: int| (func.args@[i]@, resolved_arg_type(func.locals@, type_map@, func.args@[i]@)@),
            ),
    {
        let arg_types = func.collect_arg_types(type_map);
        let names = func.get_args();
        let mut args: Vec<(String, PType)> = Vec::new();
        let mut i: usize = 0;
        while i < names.len()
            invariant
                i <= names.len(),
                *names == func.args,
                arg_types@.len() == names@.len(),
                forall|j: int| 0 <= j < names@.len() ==> (#[trigger] arg_types@[j])@ == resolved_arg_type(
                    func.locals@,
                    type_map@,
                    func.args@[j]@,
                )@,
                args@.len() == i,
                forall|j: int| 0 <= j < i ==> (#[trigger] args@[j]).0@ == names@[j]@ && args@[j].1@ == arg_types@[j]@,
            decreases names.len() - i,
        {
            args.push((names[i].clone(), arg_types[i].copy_ptype()));
            i = i + 1;
        }
        proof {
            assert(args@.map_values(|a: (String, PType)| (a.0@, a.1@)) =~= Seq::new(
                func.args@.len(),
                |i: int| (func.args@[i]@, resolved_arg_type(func.locals@, type_map@, func.args@[i]@)@),
            ));
        }
        args
    }
}

/// The table of top-level declarations of a module: its type aliases, then its
/// functions in name order; or why it cannot be built.
pub fn resolve_tld_phase(build_option: &BuildOption, root: &ASTRoot) -> (r: Result<NameMap<TopLevelDecl>, TldError>)
    requires
        root.wf(),
    ensures
        match module_tld(*root) {
            Ok(m) => r matches Ok(t) && t.wf() && tld_wf(t@) && decls_v(t@) == m,
            Err(e) => r matches Err(x) && tld_err_v(x) == e,
        },
{
    let func_map = root.get_functions();
    let type_map = root.get_typedefs();
    let mut resolver = TLDResolver::default();
    resolver.resolve_typedefs(build_option, type_map);
    proof {
        assert(decls_v(Map::<Seq<char>, TopLevelDecl>::empty()).union_prefer_right(
            type_map@.map_values(|t: PType| DeclV::Alias(t@)),
        ) =~= type_map@.map_values(|t: PType| DeclV::Alias(t@)));
    }
    let ghost names = func_map.names();
    let ghost funcs = func_map.values();
    let ghost acc = type_map@.map_values(|t: PType| DeclV::Alias(t@));
    let n = func_map.len();
    proof { func_map.lemma_values_len(); }
    let mut i: usize = 0;
    while i < n
        invariant
            i <= n,
            n == names.len(),
            funcs.len() == n,
            names == func_map.names(),
            funcs == func_map.values(),
            *func_map == root.func_map,
            *type_map == root.type_map,
            acc == type_map@.map_values(|t: PType| DeclV::Alias(t@)),
            root.wf(),
            resolver.tld_map.wf(),
            tld_wf(resolver.tld_map@),
            add_fns(names, funcs, type_map@, acc, i as int) == Ok::<Map<Seq<char>, DeclV>, TldErrV>(
                decls_v(resolver.tld_map@),
            ),
        decreases n - i,
    {
        let (name, func) = func_map.entry_at(i);
        assert(func_map@.contains_key(name@));
        assert(func.wf());
        if !args_known_exec(func, type_map) {
            proof { lemma_add_fns_err(names, funcs, type_map@, acc, i as int + 1, n as int); }
            return Err(TldError::UnknownArgumentType(name.clone()));
        }
        if resolver.tld_map.contains_key(name.as_str()) {
            proof { lemma_add_fns_err(names, funcs, type_map@, acc, i as int + 1, n as int); }
            return Err(TldError::DuplicateName(name.clone()));
        }
        resolver.resolve_fn(build_option, name.as_str(), func, type_map);
        i = i + 1;
    }
    Ok(resolver.give_map())
}

/// Whether every parameter of `func` has a type that can be found.
fn args_known_exec(func: &PFunction, type_map: &NameMap<PType>) -> (b: bool)
    requires
        func.wf(),
        type_map.wf(),
    ensures
        b == args_known(*func, type_map@),
{
    let args = func.get_args();
    let mut i: usize = 0;
    while i < args.len()
        invariant
            i <= args.len(),
            *args == func.args,
            func.wf(),
            type_map.wf(),
            forall|j: int| 0 <= j < i ==> #[trigger] arg_type_known(func.locals@, type_map@, func.args@[j]@),
        decreases args.len() - i,
    {
        if !func.arg_type_is_known(args[i].as_str(), type_map) {
            return false;
        }
        i = i + 1;
    }
    true
}

proof fn lemma_add_fns_err(
    names: Seq<Seq<char>>,
    funcs: Seq<PFunction>,
    type_map: Map<Seq<char>, PType>,
    acc: Map<Seq<char>, DeclV>,
    k: int,
    n: int,
)
    requires
        1 <= k <= n,
        add_fns(names, funcs, type_map, acc, k) is Err,
    ensures
        add_fns(names, funcs, type_map, acc, n) == add_fns(names, funcs, type_map, acc, k),
    decreases n - k,
{
    if k < n {
        lemma_add_fns_err(names, funcs, type_map, acc, k + 1, n);
    }
}

} // verus!
