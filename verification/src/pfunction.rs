use vstd::prelude::*;

use crate::ast::{stmts_view, StatementNode};
use crate::ident::strings_view;
use crate::name_map::NameMap;
use crate::position::Position;
use crate::ptype::{PType, PTypeKind};
use crate::pvariable::PVariable;
use crate::text::{push_all, push_str};

verus! {

/// The key under which a variable of a path of names is kept: the names joined by "::".
pub open spec fn path_key(names: Seq<Seq<char>>) -> Seq<char>
    decreases names.len(),
{
    if names.len() == 0 {
        Seq::empty()
    } else if names.len() == 1 {
        names[0]
    } else {
        path_key(names.drop_last()) + "::"@ + names.last()
    }
}

/// The key of a path of names: the names joined by "::".
pub fn join_path(names: &Vec<String>) -> (r: String)
    ensures
        r@ == path_key(strings_view(names@)),
{
    let ghost ns = strings_view(names@);
    let mut out: Vec<char> = Vec::new();
    let mut i: usize = 0;
    while i < names.len()
        invariant
            i <= names.len(),
            ns == strings_view(names@),
            out@ == path_key(ns.take(i as int)),
        decreases names.len() - i,
    {
        if i > 0 {
            push_str(&mut out, "::");
        }
        let cs = crate::text::collect_chars(names[i].as_str());
        push_all(&mut out, cs.as_slice());
        proof {
            assert(ns.take(i + 1).drop_last() == ns.take(i as int));
            assert(ns.take(i + 1).last() == names@[i as int]@);
            if i == 0 {
                assert(ns.take(0) == Seq::<Seq<char>>::empty());
                assert(out@ == ns.take(1)[0]);
            }
        }
        i = i + 1;
    }
    assert(ns.take(names.len() as int) == ns);
    crate::text::chars_to_string(out.as_slice())
}

/// `g` is `f` with, at most, other statements, variables and strings.
pub open spec fn same_shape(f: PFunction, g: PFunction) -> bool {
    &&& g.name == f.name
    &&& g.stack_offset == f.stack_offset
    &&& g.position == f.position
    &&& g.return_type == f.return_type
    &&& g.args == f.args
    &&& g.mod_path == f.mod_path
    &&& g.module_id == f.module_id
}

/// A function definition with what the compiler learns of it.
pub struct PFunction {
    pub name: String,
    pub stack_offset: usize,
    pub position: Position,
    pub stmts: Vec<StatementNode>,
    /// The arguments and local variables, by the key of their path of names.
    pub locals: NameMap<PVariable>,
    /// The string literals used in the body, with their hashes.
    pub strings: NameMap<u64>,
    pub return_type: PType,
    pub args: Vec<String>,
    pub mod_path: String,
    pub module_id: usize,
}

/// The type of an argument: its declared type, looked up in `type_map` by the last
/// name of the type where the declared type is a name.
pub open spec fn resolved_arg_type(locals: Map<Seq<char>, PVariable>, type_map: Map<Seq<char>, PType>, arg: Seq<char>) -> PType {
    let v = locals[arg];
    match v.ptype.kind {
        PTypeKind::UNRESOLVED(n) => type_map[n.names().last()],
        _ => v.ptype,
    }
}

/// An argument's type can be found: the argument is a local variable and, where its
/// type is a name, `type_map` holds the last name of it.
pub open spec fn arg_type_known(locals: Map<Seq<char>, PVariable>, type_map: Map<Seq<char>, PType>, arg: Seq<char>) -> bool {
    &&& locals.contains_key(arg)
    &&& match locals[arg].ptype.kind {
        PTypeKind::UNRESOLVED(n) => type_map.contains_key(n.names().last()),
        _ => true,
    }
}

impl PFunction {
    /// Its maps are well formed.
    pub open spec fn wf(&self) -> bool {
        self.locals.wf() && self.strings.wf()
    }

    pub fn new(
        func_name: String,
        ptype: PType,
        arg_names: Vec<String>,
        def_pos: Position,
        path: String,
        mod_id: usize,
    ) -> (f: Self)
        ensures
            f.wf(),
            f.name == func_name,
            f.stack_offset == 0,
            f.position == def_pos,
            f.stmts@.len() == 0,
            f.locals@ == Map::<Seq<char>, PVariable>::empty(),
            f.strings@ == Map::<Seq<char>, u64>::empty(),
            f.return_type == ptype,
            f.args == arg_names,
            f.mod_path == path,
            f.module_id == mod_id,
    {
        PFunction {
            name: func_name,
            stack_offset: 0,
            position: def_pos,
            stmts: Vec::new(),
            locals: NameMap::new(),
            strings: NameMap::new(),
            return_type: ptype,
            args: arg_names,
            mod_path: path,
            module_id: mod_id,
        }
    }

    /// Whether the type of the argument `arg` can be found.
    pub fn arg_type_is_known(&self, arg: &str, type_map: &NameMap<PType>) -> (b: bool)
        requires
            self.wf(),
            type_map.wf(),
        ensures
            b == arg_type_known(self.locals@, type_map@, arg@),
    {
        match self.locals.get(arg) {
            None => false,
            Some(pvar) => match &pvar.get_type().kind {
                PTypeKind::UNRESOLVED(name) => {
                    let type_last = crate::ident::IdentName::last_name(name);
                    type_map.contains_key(type_last.as_str())
                },
                _ => true,
            },
        }
    }

    pub fn arg_empty(&self) -> (b: bool)
        ensures
            b == (self.args@.len() == 0),
    {
        self.args.len() == 0
    }

    /// The types of the arguments, in order; an argument whose type is a name gets
    /// the type that `type_map` holds under the last name of it.
    pub fn collect_arg_types(&self, type_map: &NameMap<PType>) -> (arg_types: Vec<PType>)
        requires
            self.wf(),
            type_map.wf(),
            forall|i: int|
                0 <= i < self.args@.len() ==> #[trigger] arg_type_known(self.locals@, type_map@, self.args@[i]@),
        ensures
            arg_types@.len() == self.args@.len(),
            forall|i: int|
                0 <= i < self.args@.len() ==> (#[trigger] arg_types@[i])@ == resolved_arg_type(
                    self.locals@,
                    type_map@,
                    self.args@[i]@,
                )@,
    {
        let locals = self.get_locals();
        let args = self.get_args();
        let mut arg_types: Vec<PType> = Vec::new();
        let mut i: usize = 0;
        while i < args.len()
            invariant
                i <= args.len(),
                *args == self.args,
                *locals == self.locals,
                self.wf(),
                type_map.wf(),
                forall|j: int|
                    0 <= j < self.args@.len() ==> #[trigger] arg_type_known(self.locals@, type_map@, self.args@[j]@),
                arg_types@.len() == i,
                forall|j: int|
                    0 <= j < i ==> (#[trigger] arg_types@[j])@ == resolved_arg_type(self.locals@, type_map@, self.args@[j]@)@,
            decreases args.len() - i,
        {
            let arg = &args[i];
            assert(arg_type_known(self.locals@, type_map@, self.args@[i as int]@));
            let pvar = locals.get(arg.as_str()).unwrap();
            let t = match &pvar.get_type().kind {
                PTypeKind::UNRESOLVED(name) => {
                    let type_last = crate::ident::IdentName::last_name(name);
                    type_map.get(type_last.as_str()).unwrap().copy_ptype()
                },
                _ => pvar.get_type().copy_ptype(),
            };
            arg_types.push(t);
            i = i + 1;
        }
        arg_types
    }

    pub fn copy_module_path(&self) -> (p: String)
        ensures
            p == self.mod_path,
    {
        self.mod_path.clone()
    }

    pub fn replace_statements(&mut self, stmts: Vec<StatementNode>)
        ensures
            final(self).stmts == stmts,
            final(self).name == old(self).name,
            final(self).locals == old(self).locals,
            final(self).strings == old(self).strings,
            final(self).return_type == old(self).return_type,
            final(self).args == old(self).args,
            final(self).stack_offset == old(self).stack_offset,
            final(self).position == old(self).position,
            final(self).mod_path == old(self).mod_path,
            final(self).module_id == old(self).module_id,
    {
        self.stmts = stmts;
    }

    /// Adds a local variable under the key of its path of names, which must be new.
    pub fn add_local(&mut self, name_ids: Vec<String>, pvar: PVariable)
        requires
            old(self).wf(),
            !old(self).locals@.contains_key(path_key(strings_view(name_ids@))),
        ensures
            final(self).wf(),
            final(self).locals@ == old(self).locals@.insert(path_key(strings_view(name_ids@)), pvar),
            final(self).stmts == old(self).stmts,
            final(self).name == old(self).name,
            final(self).strings == old(self).strings,
            final(self).return_type == old(self).return_type,
            final(self).args == old(self).args,
            final(self).stack_offset == old(self).stack_offset,
            final(self).position == old(self).position,
            final(self).mod_path == old(self).mod_path,
            final(self).module_id == old(self).module_id,
    {
        let key = join_path(&name_ids);
        let _ = self.locals.insert(key, pvar);
    }

    /// Records a string literal of the body with its hash.
    pub fn add_string(&mut self, contents: String, hash: u64)
        requires
            old(self).wf(),
        ensures
            final(self).wf(),
            final(self).strings@ == old(self).strings@.insert(contents@, hash),
            final(self).stmts == old(self).stmts,
            final(self).name == old(self).name,
            final(self).locals == old(self).locals,
            final(self).return_type == old(self).return_type,
            final(self).args == old(self).args,
            final(self).stack_offset == old(self).stack_offset,
            final(self).position == old(self).position,
            final(self).mod_path == old(self).mod_path,
            final(self).module_id == old(self).module_id,
    {
        let _ = self.strings.insert(contents, hash);
    }

    pub fn get_return_type(&self) -> (t: &PType)
        ensures
            *t == self.return_type,
    {
        &self.return_type
    }

    pub fn get_statements(&self) -> (s: &Vec<StatementNode>)
        ensures
            *s == self.stmts,
    {
        &self.stmts
    }

    pub fn get_args(&self) -> (a: &Vec<String>)
        ensures
            *a == self.args,
    {
        &self.args
    }

    pub fn get_locals(&self) -> (l: &NameMap<PVariable>)
        ensures
            *l == self.locals,
    {
        &self.locals
    }

    pub fn set_locals(&mut self, locals: NameMap<PVariable>)
        ensures
            final(self).locals == locals,
            final(self).stmts == old(self).stmts,
            final(self).name == old(self).name,
            final(self).strings == old(self).strings,
            final(self).return_type == old(self).return_type,
            final(self).args == old(self).args,
            final(self).stack_offset == old(self).stack_offset,
            final(self).position == old(self).position,
            final(self).mod_path == old(self).mod_path,
            final(self).module_id == old(self).module_id,
    {
        self.locals = locals;
    }

    pub fn get_strings(&self) -> (s: &NameMap<u64>)
        ensures
            *s == self.strings,
    {
        &self.strings
    }

    pub fn get_stack_offset(&self) -> (o: usize)
        ensures
            o == self.stack_offset,
    {
        self.stack_offset
    }

    pub fn set_stack_offset(&mut self, offset: usize)
        ensures
            final(self).stack_offset == offset,
            final(self).stmts == old(self).stmts,
            final(self).name == old(self).name,
            final(self).locals == old(self).locals,
            final(self).strings == old(self).strings,
            final(self).return_type == old(self).return_type,
            final(self).args == old(self).args,
            final(self).position == old(self).position,
            final(self).mod_path == old(self).mod_path,
            final(self).module_id == old(self).module_id,
    {
        self.stack_offset = offset;
    }

    pub fn get_func_name_id(&self) -> (n: String)
        ensures
            n == self.name,
    {
        self.name.clone()
    }
}

} // verus!
