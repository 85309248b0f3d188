use vstd::prelude::*;

use crate::ident::IdentName;
use crate::name_map::NameMap;
use crate::option::BuildOption;
use crate::pfunction::PFunction;
use crate::position::Position;
use crate::ptype::{PType, PTypeKind, PTypeV};
use crate::pvariable::PVariable;
use crate::tld::{decl_type_view, tld_wf, TLDKind, TopLevelDecl};

verus! {

/// Why a named type could not be resolved: no declaration has its last name, or
/// the declaration is a function (the last name is given).
#[derive(Debug, PartialEq, Eq)]
pub enum UnresolvedType {
    Undefined(String),
    NotAType(String),
}

/// The type of a variable can be resolved: it is no name, or its last name declares
/// an alias or a structure.
pub open spec fn local_resolves(v: PVariable, tld: Map<Seq<char>, TopLevelDecl>) -> bool {
    match v.ptype.kind {
        PTypeKind::UNRESOLVED(n) => tld.contains_key(n.names().last()) && !(tld[n.names().last()].kind is FN),
        _ => true,
    }
}

/// The resolved type of a variable: the declared type of its last name, where its
/// type is a name.
pub open spec fn resolved_local_type(v: PVariable, tld: Map<Seq<char>, TopLevelDecl>) -> PTypeV {
    match v.ptype.kind {
        PTypeKind::UNRESOLVED(n) => decl_type_view(tld[n.names().last()]),
        _ => v.ptype@,
    }
}

/// The resolved type of a variable.
fn resolve_local_type(v: &PVariable, tld_map: &NameMap<TopLevelDecl>) -> (r: Result<PType, UnresolvedType>)
    requires
        tld_map.wf(),
        tld_wf(tld_map@),
    ensures
        match r {
            Ok(t) => local_resolves(*v, tld_map@) && t@ == resolved_local_type(*v, tld_map@),
            Err(_) => !local_resolves(*v, tld_map@),
        },
{
    match &v.ptype.kind {
        PTypeKind::UNRESOLVED(named) => {
            let type_last = IdentName::last_name(named);
            match tld_map.get(type_last.as_str()) {
                None => Err(UnresolvedType::Undefined(type_last)),
                Some(decl) => if let TLDKind::FN(_, _) = &decl.kind {
                    Err(UnresolvedType::NotAType(type_last))
                } else {
                    Ok(decl.to_ptype())
                },
            }
        },
        _ => Ok(v.ptype.copy_ptype()),
    }
}

impl PFunction {
    /// Gives each local variable whose type is a name the type that its last name
    /// declares; fails, naming the type, where one cannot be resolved.
    pub fn resolve_type(&mut self, tld_map: &NameMap<TopLevelDecl>) -> (r: Result<(), UnresolvedType>)
        requires
            old(self).wf(),
            tld_map.wf(),
            tld_wf(tld_map@),
        ensures
            final(self).wf(),
            r is Ok <==> forall|i: int| 0 <= i < old(self).locals.values().len() ==> local_resolves(
                #[trigger] old(self).locals.values()[i],
                tld_map@,
            ),
            r is Ok ==> {
                &&& final(self).locals.names() == old(self).locals.names()
                &&& final(self).locals.values().len() == old(self).locals.values().len()
                &&& forall|i: int| 0 <= i < old(self).locals.values().len() ==> {
                    &&& (#[trigger] final(self).locals.values()[i]).ptype@ == resolved_local_type(
                        old(self).locals.values()[i],
                        tld_map@,
                    )
                    &&& final(self).locals.values()[i].kind == old(self).locals.values()[i].kind
                    &&& final(self).locals.values()[i].is_const == old(self).locals.values()[i].is_const
                }
            },
            final(self).name == old(self).name,
            final(self).stmts == old(self).stmts,
            final(self).strings == old(self).strings,
            final(self).return_type == old(self).return_type,
            final(self).args == old(self).args,
            final(self).stack_offset == old(self).stack_offset,
    {
        let ghost vals = self.locals.values();
        proof { self.locals.lemma_values_len(); }
        let n = self.locals.len();
        let mut i: usize = 0;
        while i < n
            invariant
                i <= n,
                n == self.locals.names().len(),
                n == vals.len(),
                self.locals.wf(),
                self.strings.wf(),
                tld_map.wf(),
                tld_wf(tld_map@),
                self.locals.names() == old(self).locals.names(),
                self.locals.values().len() == n,
                vals == old(self).locals.values(),
                forall|j: int| 0 <= j < i ==> local_resolves(#[trigger] vals[j], tld_map@),
                forall|j: int| 0 <= j < n ==> {
                    &&& (#[trigger] self.locals.values()[j]).kind == vals[j].kind
                    &&& self.locals.values()[j].is_const == vals[j].is_const
                    &&& j < i ==> self.locals.values()[j].ptype@ == resolved_local_type(vals[j], tld_map@)
                    &&& j >= i ==> self.locals.values()[j] == vals[j]
                },
                self.name == old(self).name,
                self.stmts == old(self).stmts,
                self.strings == old(self).strings,
                self.return_type == old(self).return_type,
                self.args == old(self).args,
                self.stack_offset == old(self).stack_offset,
            decreases n - i,
        {
            let placeholder = PVariable::new_local(PType::new_invalid(), false);
            let mut pvar = self.locals.replace_at(i, placeholder);
            match resolve_local_type(&pvar, tld_map) {
                Ok(t) => {
                    pvar.set_type(t);
                    let _ = self.locals.replace_at(i, pvar);
                },
                Err(e) => {
                    let _ = self.locals.replace_at(i, pvar);
                    return Err(e);
                },
            }
            i = i + 1;
        }
        Ok(())
    }
}

/// Resolves the named types of the local variables of every function, in name
/// order; stops at the first function with a type that cannot be resolved.
pub fn resolve_unknown_type_phase(
    build_option: &BuildOption,
    func_map: &mut NameMap<PFunction>,
    tld_map: &NameMap<TopLevelDecl>,
) -> (r: Result<(), UnresolvedType>)
    requires
        old(func_map).wf(),
        crate::root::functions_wf(old(func_map)@),
        tld_map.wf(),
        tld_wf(tld_map@),
    ensures
        final(func_map).wf(),
        crate::root::functions_wf(final(func_map)@),
        final(func_map).names() == old(func_map).names(),
        r is Ok <==> forall|i: int, j: int| 0 <= i < old(func_map).values().len() && 0 <= j < old(func_map).values()[i].locals.values().len()
            ==> local_resolves(#[trigger] old(func_map).values()[i].locals.values()[j], tld_map@),
        r is Ok ==> forall|i: int| 0 <= i < old(func_map).values().len() ==> {
            &&& (#[trigger] final(func_map).values()[i]).locals.names() == old(func_map).values()[i].locals.names()
            &&& final(func_map).values()[i].name == old(func_map).values()[i].name
            &&& final(func_map).values()[i].stmts == old(func_map).values()[i].stmts
            &&& forall|j: int| 0 <= j < old(func_map).values()[i].locals.values().len() ==> (
                #[trigger] final(func_map).values()[i].locals.values()[j]).ptype@ == resolved_local_type(
                old(func_map).values()[i].locals.values()[j],
                tld_map@,
            )
        },
{
    let ghost fs = func_map.values();
    proof {
        func_map.lemma_values_len();
        func_map.lemma_names_cover();
    }
    let n = func_map.len();
    proof {
        assert forall|k: int| 0 <= k < n implies (#[trigger] func_map.values()[k]).wf() by {
            assert(func_map@.contains_key(func_map.names()[k]));
        }
    }
    let mut i: usize = 0;
    while i < n
        invariant
            i <= n,
            n == func_map.names().len(),
            n == fs.len(),
            func_map.wf(),
            func_map.names() == old(func_map).names(),
            func_map.values().len() == n,
            fs == old(func_map).values(),
            crate::root::functions_wf(old(func_map)@),
            tld_map.wf(),
            tld_wf(tld_map@),
            forall|k: int| 0 <= k < n ==> (#[trigger] func_map.values()[k]).wf(),
            forall|k: int, j: int| 0 <= k < i && 0 <= j < fs[k].locals.values().len() ==> local_resolves(
                #[trigger] fs[k].locals.values()[j],
                tld_map@,
            ),
            forall|k: int| 0 <= k < n ==> {
                &&& (#[trigger] func_map.values()[k]).locals.names() == fs[k].locals.names()
                &&& func_map.values()[k].name == fs[k].name
                &&& func_map.values()[k].stmts == fs[k].stmts
                &&& k >= i ==> func_map.values()[k] == fs[k]
                &&& k < i ==> forall|j: int| 0 <= j < fs[k].locals.values().len() ==> (
                    #[trigger] func_map.values()[k].locals.values()[j]).ptype@ == resolved_local_type(
                    fs[k].locals.values()[j],
                    tld_map@,
                )
            },
        decreases n - i,
    {
        let placeholder = PFunction::new(
            String::new(),
            PType::new_invalid(),
            Vec::new(),
            Position::new(0, 0),
            String::new(),
            0,
        );
        let mut func = func_map.replace_at(i, placeholder);
        let res = func.resolve_type(tld_map);
        let _ = func_map.replace_at(i, func);
        if res.is_err() {
            proof { lemma_functions_wf_from_values(*func_map); }
            return res;
        }
        i = i + 1;
    }
    proof { lemma_functions_wf_from_values(*func_map); }
    Ok(())
}

proof fn lemma_functions_wf_from_values(m: NameMap<PFunction>)
    requires
        m.wf(),
        forall|k: int| 0 <= k < m.values().len() ==> (#[trigger] m.values()[k]).wf(),
    ensures
        crate::root::functions_wf(m@),
{
    m.lemma_names_cover();
    m.lemma_values_len();
    assert forall|k: Seq<char>| #[trigger] m@.contains_key(k) implies m@[k].wf() by {
        let j = choose|j: int| 0 <= j < m.names().len() && m.names()[j] == k;
        assert(m@[m.names()[j]] == m.values()[j]);
    }
}

} // verus!
