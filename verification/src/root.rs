use vstd::prelude::*;

use crate::ast::StatementNode;
use crate::ident::strings_view;
use crate::name_map::NameMap;
use crate::pfunction::{path_key, PFunction};
use crate::ptype::PType;
use crate::pvariable::PVariable;

verus! {

/// What the parser builds of a module: its functions and its type aliases, by name.
pub struct ASTRoot {
    pub func_map: NameMap<PFunction>,
    pub type_map: NameMap<PType>,
}

impl Default for ASTRoot {
    fn default() -> (r: Self)
        ensures
            r.wf(),
            r.func_map@ == Map::<Seq<char>, PFunction>::empty(),
            r.type_map@ == Map::<Seq<char>, PType>::empty(),
    {
        ASTRoot { func_map: NameMap::new(), type_map: NameMap::new() }
    }
}

/// Every function of a map has well-formed maps.
pub open spec fn functions_wf(m: Map<Seq<char>, PFunction>) -> bool {
    forall|k: Seq<char>| #[trigger] m.contains_key(k) ==> m[k].wf()
}

/// Two maps have the same names, and under each name values that `same` relates.
pub open spec fn same_entries<V>(a: Map<Seq<char>, V>, b: Map<Seq<char>, V>, same: spec_fn(V, V) -> bool) -> bool {
    &&& a.dom() == b.dom()
    &&& forall|k: Seq<char>| #[trigger] a.contains_key(k) ==> same(a[k], b[k])
}

/// Two local variables of the same kind, type and constness.
pub open spec fn same_pvar(a: PVariable, b: PVariable) -> bool {
    a.kind == b.kind && a.ptype@ == b.ptype@ && a.is_const == b.is_const
}

/// Two functions that hold the same things.
pub open spec fn same_function(a: PFunction, b: PFunction) -> bool {
    &&& a.name@ == b.name@
    &&& a.stack_offset == b.stack_offset
    &&& a.position == b.position
    &&& crate::ast::stmts_view(a.stmts@) == crate::ast::stmts_view(b.stmts@)
    &&& same_entries(a.locals@, b.locals@, |x: PVariable, y: PVariable| same_pvar(x, y))
    &&& a.strings@ == b.strings@
    &&& a.return_type@ == b.return_type@
    &&& strings_view(a.args@) == strings_view(b.args@)
    &&& a.mod_path@ == b.mod_path@
    &&& a.module_id == b.module_id
}

/// A copy of the local variables of a function.
pub fn copy_locals(m: &NameMap<PVariable>) -> (r: NameMap<PVariable>)
    requires
        m.wf(),
    ensures
        r.wf(),
        same_entries(r@, m@, |x: PVariable, y: PVariable| same_pvar(x, y)),
{
    let mut out: NameMap<PVariable> = NameMap::new();
    let n = m.len();
    proof {
        m.lemma_values_len();
        m.lemma_names_cover();
    }
    let mut i: usize = 0;
    while i < n
        invariant
            i <= n,
            n == m.names().len(),
            m.wf(),
            out.wf(),
            forall|k: Seq<char>| #[trigger] out@.contains_key(k) <==> exists|j: int| 0 <= j < i && m.names()[j] == k,
            forall|j: int| 0 <= j < i ==> same_pvar(#[trigger] out@[m.names()[j]], m@[m.names()[j]]),
        decreases n - i,
    {
        let (k, v) = m.entry_at(i);
        proof { m.lemma_names_distinct(i as int); }
        let _ = out.insert(k.clone(), v.copy_pvar());
        proof {
            assert forall|kk: Seq<char>| #[trigger] out@.contains_key(kk) <==> exists|j: int| 0 <= j < i + 1 && m.names()[j]
                == kk by {
                if kk == m.names()[i as int] {
                    assert(m.names()[i as int] == kk);
                }
            }
        }
        i = i + 1;
    }
    proof {
        assert forall|k: Seq<char>| #[trigger] out@.contains_key(k) <==> m@.contains_key(k) by {}
        assert forall|k: Seq<char>| #[trigger] out@.contains_key(k) implies same_pvar(out@[k], m@[k]) by {
            let j = choose|j: int| 0 <= j < n && m.names()[j] == k;
        }
        assert(out@.dom() =~= m@.dom());
    }
    out
}

/// A copy of the string literals of a function with their hashes.
pub fn copy_string_hashes(m: &NameMap<u64>) -> (r: NameMap<u64>)
    requires
        m.wf(),
    ensures
        r.wf(),
        r@ == m@,
{
    let mut out: NameMap<u64> = NameMap::new();
    let n = m.len();
    proof {
        m.lemma_values_len();
        m.lemma_names_cover();
    }
    let mut i: usize = 0;
    while i < n
        invariant
            i <= n,
            n == m.names().len(),
            m.wf(),
            out.wf(),
            forall|k: Seq<char>| #[trigger] out@.contains_key(k) <==> exists|j: int| 0 <= j < i && m.names()[j] == k,
            forall|j: int| 0 <= j < i ==> #[trigger] out@[m.names()[j]] == m@[m.names()[j]],
        decreases n - i,
    {
        let (k, v) = m.entry_at(i);
        proof { m.lemma_names_distinct(i as int); }
        let _ = out.insert(k.clone(), *v);
        proof {
            assert forall|kk: Seq<char>| #[trigger] out@.contains_key(kk) <==> exists|j: int| 0 <= j < i + 1 && m.names()[j]
                == kk by {
                if kk == m.names()[i as int] {
                    assert(m.names()[i as int] == kk);
                }
            }
        }
        i = i + 1;
    }
    proof {
        assert forall|k: Seq<char>| #[trigger] out@.contains_key(k) <==> m@.contains_key(k) by {}
        assert forall|k: Seq<char>| #[trigger] out@.contains_key(k) implies out@[k] == m@[k] by {
            let j = choose|j: int| 0 <= j < n && m.names()[j] == k;
        }
        assert(out@ =~= m@);
    }
    out
}

impl PFunction {
    /// A copy of the function.
    pub fn copy_pfunction(&self) -> (r: PFunction)
        requires
            self.wf(),
        ensures
            r.wf(),
            same_function(r, *self),
    {
        PFunction {
            name: self.name.clone(),
            stack_offset: self.stack_offset,
            position: self.position,
            stmts: crate::ast::copy_stmts(&self.stmts),
            locals: copy_locals(&self.locals),
            strings: copy_string_hashes(&self.strings),
            return_type: self.return_type.copy_ptype(),
            args: crate::ast::copy_strings(&self.args),
            mod_path: self.mod_path.clone(),
            module_id: self.module_id,
        }
    }
}

impl ASTRoot {
    pub open spec fn wf(&self) -> bool {
        &&& self.func_map.wf()
        &&& self.type_map.wf()
        &&& functions_wf(self.func_map@)
    }

    /// Adds a type alias; its name must be new.
    pub fn add_typedef(&mut self, alias_name: String, src_type: PType)
        requires
            old(self).wf(),
            !old(self).type_map@.contains_key(alias_name@),
        ensures
            final(self).wf(),
            final(self).type_map@ == old(self).type_map@.insert(alias_name@, src_type),
            final(self).func_map == old(self).func_map,
    {
        let _ = self.type_map.insert(alias_name, src_type);
    }

    /// Adds a function; its name must be new.
    pub fn add_pfunction(&mut self, name: String, func: PFunction)
        requires
            old(self).wf(),
            func.wf(),
            !old(self).func_map@.contains_key(name@),
        ensures
            final(self).wf(),
            final(self).func_map@ == old(self).func_map@.insert(name@, func),
            final(self).type_map == old(self).type_map,
    {
        let _ = self.func_map.insert(name, func);
    }

    /// Moves the functions and type aliases of `sub_root` in; those of `sub_root` win over ones of the same name.
    pub fn append(&mut self, sub_root: Self)
        requires
            old(self).wf(),
            sub_root.wf(),
        ensures
            final(self).wf(),
            final(self).func_map@ == old(self).func_map@.union_prefer_right(sub_root.func_map@),
            final(self).type_map@ == old(self).type_map@.union_prefer_right(sub_root.type_map@),
    {
        let ghost old_f = self.func_map@;
        self.func_map.append(sub_root.func_map);
        self.type_map.append(sub_root.type_map);
        proof {
            assert forall|k: Seq<char>| #[trigger] self.func_map@.contains_key(k) implies self.func_map@[k].wf() by {
                if sub_root.func_map@.contains_key(k) {
                    assert(functions_wf(sub_root.func_map@));
                } else {
                    assert(old_f.contains_key(k));
                }
            }
        }
    }

    /// Moves every function of `extra` in, leaving `extra` empty.
    pub fn append_functions(&mut self, extra: &mut NameMap<PFunction>)
        requires
            old(self).wf(),
            old(extra).wf(),
            functions_wf(old(extra)@),
        ensures
            final(self).wf(),
            final(self).func_map@ == old(self).func_map@.union_prefer_right(old(extra)@),
            final(self).type_map == old(self).type_map,
            final(extra).wf(),
            final(extra)@ == Map::<Seq<char>, PFunction>::empty(),
    {
        let mut taken: NameMap<PFunction> = NameMap::new();
        std::mem::swap(extra, &mut taken);
        let ghost old_f = self.func_map@;
        self.func_map.append(taken);
        proof {
            assert forall|k: Seq<char>| #[trigger] self.func_map@.contains_key(k) implies self.func_map@[k].wf() by {
                if taken@.contains_key(k) {
                    assert(functions_wf(taken@));
                } else {
                    assert(old_f.contains_key(k));
                }
            }
        }
    }

    /// A copy of the functions by name.
    pub fn copy_functions(&self) -> (r: NameMap<PFunction>)
        requires
            self.wf(),
        ensures
            r.wf(),
            functions_wf(r@),
            same_entries(r@, self.func_map@, |x: PFunction, y: PFunction| same_function(x, y)),
    {
        let m = &self.func_map;
        let mut out: NameMap<PFunction> = NameMap::new();
        let n = m.len();
        proof {
            m.lemma_values_len();
            m.lemma_names_cover();
        }
        let mut i: usize = 0;
        while i < n
            invariant
                i <= n,
                n == m.names().len(),
                m.wf(),
                functions_wf(m@),
                out.wf(),
                functions_wf(out@),
                forall|k: Seq<char>| #[trigger] out@.contains_key(k) <==> exists|j: int| 0 <= j < i && m.names()[j] == k,
                forall|j: int| 0 <= j < i ==> same_function(#[trigger] out@[m.names()[j]], m@[m.names()[j]]),
            decreases n - i,
        {
            let (k, v) = m.entry_at(i);
            proof { m.lemma_names_distinct(i as int); }
            let c = v.copy_pfunction();
            let _ = out.insert(k.clone(), c);
            proof {
                assert forall|kk: Seq<char>| #[trigger] out@.contains_key(kk) <==> exists|j: int| 0 <= j < i + 1
                    && m.names()[j] == kk by {
                    if kk == m.names()[i as int] {
                        assert(m.names()[i as int] == kk);
                    }
                }
            }
            i = i + 1;
        }
        proof {
            assert forall|k: Seq<char>| #[trigger] out@.contains_key(k) <==> m@.contains_key(k) by {}
            assert forall|k: Seq<char>| #[trigger] out@.contains_key(k) implies same_function(out@[k], m@[k]) by {
                let j = choose|j: int| 0 <= j < n && m.names()[j] == k;
            }
            assert(out@.dom() =~= m@.dom());
        }
        out
    }

    /// A copy of the type aliases by name.
    pub fn copy_typedefs(&self) -> (r: NameMap<PType>)
        requires
            self.wf(),
        ensures
            r.wf(),
            same_entries(r@, self.type_map@, |x: PType, y: PType| x@ == y@),
    {
        let m = &self.type_map;
        let mut out: NameMap<PType> = NameMap::new();
        let n = m.len();
        proof {
            m.lemma_values_len();
            m.lemma_names_cover();
        }
        let mut i: usize = 0;
        while i < n
            invariant
                i <= n,
                n == m.names().len(),
                m.wf(),
                out.wf(),
                forall|k: Seq<char>| #[trigger] out@.contains_key(k) <==> exists|j: int| 0 <= j < i && m.names()[j] == k,
                forall|j: int| 0 <= j < i ==> (#[trigger] out@[m.names()[j]])@ == m@[m.names()[j]]@,
            decreases n - i,
        {
            let (k, v) = m.entry_at(i);
            proof { m.lemma_names_distinct(i as int); }
            let _ = out.insert(k.clone(), v.copy_ptype());
            proof {
                assert forall|kk: Seq<char>| #[trigger] out@.contains_key(kk) <==> exists|j: int| 0 <= j < i + 1
                    && m.names()[j] == kk by {
                    if kk == m.names()[i as int] {
                        assert(m.names()[i as int] == kk);
                    }
                }
            }
            i = i + 1;
        }
        proof {
            assert forall|k: Seq<char>| #[trigger] out@.contains_key(k) <==> m@.contains_key(k) by {}
            assert forall|k: Seq<char>| #[trigger] out@.contains_key(k) implies out@[k]@ == m@[k]@ by {
                let j = choose|j: int| 0 <= j < n && m.names()[j] == k;
            }
            assert(out@.dom() =~= m@.dom());
        }
        out
    }

    /// The functions, to be changed in place.
    pub fn get_mutable_functions(&mut self) -> (m: &mut NameMap<PFunction>)
        ensures
            *m == old(self).func_map,
            final(self).func_map == *final(m),
            final(self).type_map == old(self).type_map,
    {
        &mut self.func_map
    }

    /// The type aliases, to be changed in place.
    pub fn get_mutable_typedefs(&mut self) -> (m: &mut NameMap<PType>)
        ensures
            *m == old(self).type_map,
            final(self).type_map == *final(m),
            final(self).func_map == old(self).func_map,
    {
        &mut self.type_map
    }

    pub fn get_typedefs(&self) -> (m: &NameMap<PType>)
        ensures
            *m == self.type_map,
    {
        &self.type_map
    }

    pub fn get_functions(&self) -> (m: &NameMap<PFunction>)
        ensures
            *m == self.func_map,
    {
        &self.func_map
    }

    pub fn give_functions(self) -> (m: NameMap<PFunction>)
        ensures
            m == self.func_map,
    {
        self.func_map
    }

    /// Adds a local variable to the function `func_name`, where there is one; the
    /// variable's key must be new in it.
    pub fn add_local_var_to(&mut self, func_name: &str, var_name_ids: Vec<String>, pvar: PVariable)
        requires
            old(self).wf(),
            old(self).func_map@.contains_key(func_name@) ==> !old(self).func_map@[func_name@].locals@.contains_key(
                path_key(strings_view(var_name_ids@)),
            ),
        ensures
            final(self).wf(),
            final(self).type_map == old(self).type_map,
            final(self).func_map@.dom() == old(self).func_map@.dom(),
            forall|k: Seq<char>| k != func_name@ && #[trigger] old(self).func_map@.contains_key(k)
                ==> final(self).func_map@[k] == old(self).func_map@[k],
            old(self).func_map@.contains_key(func_name@) ==> {
                let (f0, f1) = (old(self).func_map@[func_name@], final(self).func_map@[func_name@]);
                &&& f1.locals@ == f0.locals@.insert(path_key(strings_view(var_name_ids@)), pvar)
                &&& f1.stmts == f0.stmts && f1.name == f0.name && f1.strings == f0.strings
                &&& f1.return_type == f0.return_type && f1.args == f0.args

                &&& crate::pfunction::same_shape(f0, f1)
            },
    {
        let ghost old_f = self.func_map@;
        match self.func_map.remove(func_name) {
            Some(mut p_func) => {
                assert(old_f.contains_key(func_name@));
                p_func.add_local(var_name_ids, pvar);
                let name = crate::text::str_to_string(func_name);
                let _ = self.func_map.insert(name, p_func);
                proof {
                    assert(self.func_map@.dom() =~= old_f.dom());
                    assert forall|k: Seq<char>| #[trigger] self.func_map@.contains_key(k) implies self.func_map@[k].wf() by {
                        if k != func_name@ {
                            assert(old_f.contains_key(k));
                        }
                    }
                }
            },
            None => {
                assert(self.func_map@ =~= old_f);
            },
        }
    }

    /// Records a string literal in the function `func_name`, where there is one.
    pub fn add_string_to(&mut self, func_name: &str, contents: String, hash: u64)
        requires
            old(self).wf(),
        ensures
            final(self).wf(),
            final(self).type_map == old(self).type_map,
            final(self).func_map@.dom() == old(self).func_map@.dom(),
            forall|k: Seq<char>| k != func_name@ && #[trigger] old(self).func_map@.contains_key(k)
                ==> final(self).func_map@[k] == old(self).func_map@[k],
            old(self).func_map@.contains_key(func_name@) ==> {
                let (f0, f1) = (old(self).func_map@[func_name@], final(self).func_map@[func_name@]);
                &&& f1.strings@ == f0.strings@.insert(contents@, hash)
                &&& f1.stmts == f0.stmts && f1.name == f0.name && f1.locals == f0.locals
                &&& f1.return_type == f0.return_type && f1.args == f0.args

                &&& crate::pfunction::same_shape(f0, f1)
            },
    {
        let ghost old_f = self.func_map@;
        match self.func_map.remove(func_name) {
            Some(mut p_func) => {
                assert(old_f.contains_key(func_name@));
                p_func.add_string(contents, hash);
                let name = crate::text::str_to_string(func_name);
                let _ = self.func_map.insert(name, p_func);
                proof {
                    assert(self.func_map@.dom() =~= old_f.dom());
                    assert forall|k: Seq<char>| #[trigger] self.func_map@.contains_key(k) implies self.func_map@[k].wf() by {
                        if k != func_name@ {
                            assert(old_f.contains_key(k));
                        }
                    }
                }
            },
            None => {
                assert(self.func_map@ =~= old_f);
            },
        }
    }

    /// Puts `stmts` as the body of the function `name`, where there is one.
    pub fn replace_statement(&mut self, name: &str, stmts: Vec<StatementNode>)
        requires
            old(self).wf(),
        ensures
            final(self).wf(),
            final(self).type_map == old(self).type_map,
            final(self).func_map@.dom() == old(self).func_map@.dom(),
            forall|k: Seq<char>| k != name@ && #[trigger] old(self).func_map@.contains_key(k)
                ==> final(self).func_map@[k] == old(self).func_map@[k],
            old(self).func_map@.contains_key(name@) ==> {
                let (f0, f1) = (old(self).func_map@[name@], final(self).func_map@[name@]);
                &&& f1.stmts == stmts
                &&& f1.name == f0.name && f1.locals == f0.locals && f1.strings == f0.strings
                &&& f1.return_type == f0.return_type && f1.args == f0.args

                &&& crate::pfunction::same_shape(f0, f1)
            },
    {
        let ghost old_f = self.func_map@;
        match self.func_map.remove(name) {
            Some(mut p_func) => {
                assert(old_f.contains_key(name@));
                p_func.replace_statements(stmts);
                let n = crate::text::str_to_string(name);
                let _ = self.func_map.insert(n, p_func);
                proof {
                    assert(self.func_map@.dom() =~= old_f.dom());
                    assert forall|k: Seq<char>| #[trigger] self.func_map@.contains_key(k) implies self.func_map@[k].wf() by {
                        if k != name@ {
                            assert(old_f.contains_key(k));
                        }
                    }
                }
            },
            None => {
                assert(self.func_map@ =~= old_f);
            },
        }
    }
}

} // verus!
