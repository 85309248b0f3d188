use vstd::prelude::*;

use crate::name_map::NameMap;
use crate::ptype::{
    copy_member_list, laid_view, members_sorted, members_view, sizes_prefix, PType, PTypeKind,
    PTypeKindV, PTypeV, StructMember,
};

verus! {

/// A declaration at the top level of a module, as the type checker needs it.
#[derive(Debug, PartialEq, Eq)]
pub struct TopLevelDecl {
    pub kind: TLDKind,
}

#[derive(Debug, PartialEq, Eq)]
pub enum TLDKind {
    /// A function: its return type and its parameters with their types.
    FN(PType, Vec<(String, PType)>),
    /// A type alias: the type it stands for.
    ALIAS(PType),
    /// A structure: its members, in increasing order of names.
    STRUCT(Vec<StructMember>),
}

/// The value of the type that an alias or a structure declares.
pub open spec fn decl_type_view(d: TopLevelDecl) -> PTypeV {
    match d.kind {
        TLDKind::ALIAS(src) => src@,
        TLDKind::STRUCT(ms) => PTypeV {
            kind: PTypeKindV::STRUCT(laid_view(ms@)),
            size: sizes_prefix(ms@, ms@.len() as int) as usize,
        },
        TLDKind::FN(_, _) => PTypeV { kind: PTypeKindV::INVALID, size: 0 },
    }
}

/// The declarations of a table whose structures can be laid out: their members are
/// in order of names and their sizes add up within `usize`.
pub open spec fn tld_wf(m: Map<Seq<char>, TopLevelDecl>) -> bool {
    forall|k: Seq<char>| #[trigger] m.contains_key(k) ==> (m[k].kind matches TLDKind::STRUCT(ms) ==> members_sorted(ms@)
        && sizes_prefix(ms@, ms@.len() as int) <= usize::MAX)
}

impl TopLevelDecl {
    fn new(kind: TLDKind) -> (d: Self)
        ensures
            d.kind == kind,
    {
        TopLevelDecl { kind }
    }

    pub fn new_fn(fn_ret: PType, fn_args: Vec<(String, PType)>) -> (d: Self)
        ensures
            d.kind == TLDKind::FN(fn_ret, fn_args),
    {
        Self::new(TLDKind::FN(fn_ret, fn_args))
    }

    pub fn new_alias(src_type: PType) -> (d: Self)
        ensures
            d.kind == TLDKind::ALIAS(src_type),
    {
        Self::new(TLDKind::ALIAS(src_type))
    }

    pub fn new_struct(members: Vec<StructMember>) -> (d: Self)
        ensures
            d.kind == TLDKind::STRUCT(members),
    {
        Self::new(TLDKind::STRUCT(members))
    }

    /// The type that an alias or a structure declares: a copy of the aliased type,
    /// or a structure type of the members laid out one after another.
    pub fn to_ptype(&self) -> (t: PType)
        requires
            !(self.kind is FN),
            self.kind matches TLDKind::STRUCT(ms) ==> members_sorted(ms@) && sizes_prefix(ms@, ms@.len() as int)
                <= usize::MAX,
        ensures
            t@ == decl_type_view(*self),
            self.kind matches TLDKind::ALIAS(src) ==> t@ == src@,
            self.kind matches TLDKind::STRUCT(ms) ==> {
                &&& t.kind matches PTypeKind::STRUCT { members: laid } && members_sorted(laid@)
                    && laid@.len() == ms@.len()
                    && forall|i: int| 0 <= i < ms@.len() ==> {
                        &&& (#[trigger] laid@[i]).name@ == ms@[i].name@
                        &&& laid@[i].member_type@ == ms@[i].member_type@
                        &&& laid@[i].offset == sizes_prefix(ms@, i)
                    }
                &&& t.size == sizes_prefix(ms@, ms@.len() as int)
            },
    {
        match &self.kind {
            TLDKind::ALIAS(src_type) => src_type.copy_ptype(),
            TLDKind::STRUCT(ms) => {
                let members = copy_member_list(ms);
                proof { lemma_copied_members(ms@, members@); }
                let ghost copied = members@;
                let t = PType::new_struct(members);
                proof {
                    let tk = t.kind;
                    if let PTypeKind::STRUCT { members: laid } = tk {
                        crate::ptype::lemma_members_view_len(laid@);
                        assert forall|i: int| 0 <= i < ms@.len() implies members_view(laid@)[i] == laid_view(ms@)[i] by {
                            crate::ptype::lemma_members_view_index(laid@, i);
                            assert(laid@[i].name == copied[i].name);
                            assert(laid@[i].member_type == copied[i].member_type);
                        }
                        assert(members_view(laid@) =~= laid_view(ms@));
                    }
                }
                t
            },
            _ => vstd::pervasive::unreached(),
        }
    }

    pub fn get_return_type(&self) -> (t: &PType)
        requires
            self.kind is FN,
        ensures
            self.kind matches TLDKind::FN(r, _) && *t == r,
    {
        match &self.kind {
            TLDKind::FN(return_type, _arg_types) => return_type,
            _ => vstd::pervasive::unreached(),
        }
    }

    pub fn get_args(&self) -> (a: &Vec<(String, PType)>)
        requires
            self.kind is FN,
        ensures
            self.kind matches TLDKind::FN(_, args) && *a == args,
    {
        match &self.kind {
            TLDKind::FN(_return_type, arg_types) => arg_types,
            _ => vstd::pervasive::unreached(),
        }
    }

    pub fn get_members(&self) -> (m: &Vec<StructMember>)
        requires
            self.kind is STRUCT,
        ensures
            self.kind matches TLDKind::STRUCT(ms) && *m == ms,
    {
        match &self.kind {
            TLDKind::STRUCT(members) => members,
            _ => vstd::pervasive::unreached(),
        }
    }
}

/// Copies of a member list keep the names, types, order and sizes of the members.
proof fn lemma_copied_members(a: Seq<StructMember>, b: Seq<StructMember>)
    requires
        members_view(b) == members_view(a),
    ensures
        b.len() == a.len(),
        forall|i: int| 0 <= i < a.len() ==> {
            &&& (#[trigger] b[i]).name@ == a[i].name@
            &&& b[i].member_type@ == a[i].member_type@
            &&& b[i].member_type.size == a[i].member_type.size
        },
        members_sorted(a) ==> members_sorted(b),
        forall|n: int| 0 <= n <= a.len() ==> sizes_prefix(b, n) == sizes_prefix(a, n),
    decreases a.len(),
{
    crate::ptype::lemma_members_view_len(a);
    crate::ptype::lemma_members_view_len(b);
    if a.len() > 0 {
        crate::ptype::lemma_cons_eq(
            crate::ptype::member_view(a[0]),
            members_view(a.drop_first()),
            crate::ptype::member_view(b[0]),
            members_view(b.drop_first()),
        );
        lemma_copied_members(a.drop_first(), b.drop_first());
        assert forall|i: int| 0 <= i < a.len() implies {
            &&& (#[trigger] b[i]).name@ == a[i].name@
            &&& b[i].member_type@ == a[i].member_type@
            &&& b[i].member_type.size == a[i].member_type.size
        } by {
            if i > 0 {
                assert(b[i] == b.drop_first()[i - 1]);
                assert(a[i] == a.drop_first()[i - 1]);
            }
        }
        assert forall|n: int| 0 <= n <= a.len() implies sizes_prefix(b, n) == sizes_prefix(a, n) by {
            lemma_sizes_prefix_agree(a, b, n);
        }
    }
}

proof fn lemma_sizes_prefix_agree(a: Seq<StructMember>, b: Seq<StructMember>, n: int)
    requires
        0 <= n <= a.len(),
        b.len() == a.len(),
        forall|i: int| 0 <= i < a.len() ==> (#[trigger] b[i]).member_type.size == a[i].member_type.size,
    ensures
        sizes_prefix(b, n) == sizes_prefix(a, n),
    decreases n,
{
    if n > 0 {
        lemma_sizes_prefix_agree(a, b, n - 1);
    }
}

/// The table of top-level declarations by name.
pub struct TLDResolver {
    pub tld_map: NameMap<TopLevelDecl>,
}

impl Default for TLDResolver {
    fn default() -> (r: Self)
        ensures
            r.tld_map.wf(),
            r.tld_map@ == Map::<Seq<char>, TopLevelDecl>::empty(),
    {
        TLDResolver { tld_map: NameMap::new() }
    }
}

impl TLDResolver {
    /// Adds a declaration; its name must be new.
    pub fn insert_entry(&mut self, name_id: String, decl: TopLevelDecl)
        requires
            old(self).tld_map.wf(),
            !old(self).tld_map@.contains_key(name_id@),
        ensures
            final(self).tld_map.wf(),
            final(self).tld_map@ == old(self).tld_map@.insert(name_id@, decl),
    {
        let _ = self.tld_map.insert(name_id, decl);
    }

    pub fn give_map(self) -> (m: NameMap<TopLevelDecl>)
        ensures
            m == self.tld_map,
    {
        self.tld_map
    }
}

} // verus!
