use vstd::prelude::*;

use crate::ident::IdentName;
use crate::name_map::lex_lt;

verus! {

/// A member of a structure type: its name, its type and its offset from the start of the structure.
#[derive(Debug, PartialEq, Eq)]
pub struct StructMember {
    pub name: String,
    pub member_type: PType,
    pub offset: usize,
}

/// A type of the Peachili language with its size in bytes.
#[derive(Debug, PartialEq, Eq)]
pub struct PType {
    pub kind: PTypeKind,
    pub size: usize,
}

#[derive(Debug, PartialEq, Eq)]
pub enum PTypeKind {
    INT64,
    UINT64,
    CONSTSTR,
    NORETURN,
    BOOLEAN,
    /// A type written by name, not looked up yet.
    UNRESOLVED(IdentName),
    /// The type pointed to, and whether the pointer is the address of a local variable.
    POINTER(Box<PType>, bool),
    /// The members, in increasing order of their names.
    STRUCT { members: Vec<StructMember> },
    INVALID,
}

/// The mathematical value of a type: names are taken as their characters.
pub enum PTypeKindV {
    INT64,
    UINT64,
    CONSTSTR,
    NORETURN,
    BOOLEAN,
    UNRESOLVED(Seq<Seq<char>>),
    POINTER(Box<PTypeV>, bool),
    STRUCT(Seq<MemberV>),
    INVALID,
}

pub struct PTypeV {
    pub kind: PTypeKindV,
    pub size: usize,
}

pub struct MemberV {
    pub name: Seq<char>,
    pub member_type: PTypeV,
    pub offset: usize,
}

/// The value of a type.
pub open spec fn ptype_view(t: PType) -> PTypeV
    decreases t,
{
    PTypeV {
        kind: match t.kind {
            PTypeKind::INT64 => PTypeKindV::INT64,
            PTypeKind::UINT64 => PTypeKindV::UINT64,
            PTypeKind::CONSTSTR => PTypeKindV::CONSTSTR,
            PTypeKind::NORETURN => PTypeKindV::NORETURN,
            PTypeKind::BOOLEAN => PTypeKindV::BOOLEAN,
            PTypeKind::INVALID => PTypeKindV::INVALID,
            PTypeKind::UNRESOLVED(n) => PTypeKindV::UNRESOLVED(n.names()),
            PTypeKind::POINTER(x, l) => PTypeKindV::POINTER(Box::new(ptype_view(*x)), l),
            PTypeKind::STRUCT { members } => PTypeKindV::STRUCT(members_view(members@)),
        },
        size: t.size,
    }
}

/// The value of a member.
pub open spec fn member_view(m: StructMember) -> MemberV
    decreases m,
{
    MemberV { name: m.name@, member_type: ptype_view(m.member_type), offset: m.offset }
}

/// The values of a list of members.
pub open spec fn members_view(m: Seq<StructMember>) -> Seq<MemberV>
    decreases m,
{
    if m.len() == 0 {
        Seq::empty()
    } else {
        seq![member_view(m[0])] + members_view(m.drop_first())
    }
}

impl View for PType {
    type V = PTypeV;

    open spec fn view(&self) -> PTypeV {
        ptype_view(*self)
    }
}

/// Two sequences that begin with one element each are equal exactly when those elements and the rests are.
pub proof fn lemma_cons_eq<A>(x: A, s1: Seq<A>, y: A, s2: Seq<A>)
    ensures
        (seq![x] + s1 == seq![y] + s2) <==> (x == y && s1 == s2),
{
    if seq![x] + s1 == seq![y] + s2 {
        assert((seq![x] + s1)[0] == x);
        assert((seq![y] + s2)[0] == y);
        assert((seq![x] + s1).drop_first() == s1);
        assert((seq![y] + s2).drop_first() == s2);
    }
}

/// The member names are in strictly increasing order, as the keys of a map are.
pub open spec fn members_sorted(m: Seq<StructMember>) -> bool {
    forall|i: int, j: int|
        0 <= i < j < m.len() ==> lex_lt(#[trigger] m[i].name@, #[trigger] m[j].name@)
}

/// The sum of the sizes of the first `n` members.
pub open spec fn sizes_prefix(m: Seq<StructMember>, n: int) -> int
    decreases n,
{
    if n <= 0 {
        0
    } else {
        sizes_prefix(m, n - 1) + m[n - 1].member_type.size
    }
}

/// `laid` is `m` with each member placed right after the one before it.
pub open spec fn laid_out(m: Seq<StructMember>, laid: Seq<StructMember>) -> bool {
    &&& laid.len() == m.len()
    &&& forall|i: int|
        0 <= i < m.len() ==> {
            &&& (#[trigger] laid[i]).name == m[i].name
            &&& laid[i].member_type == m[i].member_type
            &&& laid[i].offset == sizes_prefix(m, i)
        }
}

/// The name under which a type kind is printed.
pub open spec fn kind_name(k: PTypeKind) -> Seq<char> {
    match k {
        PTypeKind::INT64 => "Int64"@,
        PTypeKind::UINT64 => "Uint64"@,
        PTypeKind::CONSTSTR => "ConstStr"@,
        PTypeKind::NORETURN => "Noreturn"@,
        PTypeKind::BOOLEAN => "Boolean"@,
        PTypeKind::UNRESOLVED(_) => "Unresolved"@,
        PTypeKind::POINTER(_, _) => "Pointer"@,
        PTypeKind::STRUCT { .. } => "struct"@,
        PTypeKind::INVALID => "Invalid"@,
    }
}

/// The shared type that stands for each kind that has one.
pub open spec fn global_type_of(k: PTypeKind) -> PType {
    match k {
        PTypeKind::BOOLEAN => PType { kind: PTypeKind::BOOLEAN, size: 8 },
        PTypeKind::INT64 => PType { kind: PTypeKind::INT64, size: 8 },
        PTypeKind::UINT64 => PType { kind: PTypeKind::UINT64, size: 8 },
        PTypeKind::CONSTSTR => PType { kind: PTypeKind::CONSTSTR, size: 8 },
        PTypeKind::NORETURN => PType { kind: PTypeKind::NORETURN, size: 0 },
        _ => PType { kind: PTypeKind::INVALID, size: 0 },
    }
}

impl StructMember {
    /// A copy of the member.
    pub fn copy_member(&self) -> (r: StructMember)
        ensures
            member_view(r) == member_view(*self),
        decreases self,
    {
        StructMember {
            name: self.name.clone(),
            member_type: self.member_type.copy_ptype(),
            offset: self.offset,
        }
    }
}

/// Copies a list of members, member by member.
pub fn copy_member_list(m: &Vec<StructMember>) -> (r: Vec<StructMember>)
    ensures
        members_view(r@) == members_view(m@),
    decreases m,
{
    let mut r: Vec<StructMember> = Vec::new();
    let mut i: usize = m.len();
    while i > 0
        invariant
            i <= m.len(),
            members_view(r@) == members_view(m@.subrange(i as int, m.len() as int)),
        decreases i,
    {
        let j = i - 1;
        proof { assert(decreases_to!(m => m@[j as int])); }
        let c = m[j].copy_member();
        proof {
            let s = m@.subrange(j as int, m.len() as int);
            assert(s.drop_first() == m@.subrange(i as int, m.len() as int));
            assert(s[0] == m@[j as int]);
        }
        let ghost old_r = r@;
        r.insert(0, c);
        proof {
            assert(r@[0] == c);
            assert(r@.drop_first() =~= old_r);
        }
        i = j;
    }
    assert(m@.subrange(0, m.len() as int) == m@);
    r
}

/// Whether two member lists are the same.
fn members_eq(m1: &Vec<StructMember>, m2: &Vec<StructMember>) -> (b: bool)
    ensures
        b == (members_view(m1@) == members_view(m2@)),
    decreases m1,
{
    if m1.len() != m2.len() {
        proof {
            lemma_members_view_len(m1@);
            lemma_members_view_len(m2@);
        }
        return false;
    }
    let mut i: usize = m1.len();
    let mut result = true;
    while i > 0
        invariant
            i <= m1.len(),
            m1.len() == m2.len(),
            result == (members_view(m1@.subrange(i as int, m1.len() as int)) == members_view(m2@.subrange(i as int, m2.len() as int))),
        decreases i,
    {
        let j = i - 1;
        proof {
            assert(decreases_to!(m1 => m1@[j as int]));
            let s1 = m1@.subrange(j as int, m1.len() as int);
            let s2 = m2@.subrange(j as int, m2.len() as int);
            assert(s1.drop_first() == m1@.subrange(i as int, m1.len() as int));
            assert(s2.drop_first() == m2@.subrange(i as int, m2.len() as int));
            assert(s1[0] == m1@[j as int]);
            assert(s2[0] == m2@[j as int]);
            lemma_cons_eq(member_view(s1[0]), members_view(s1.drop_first()), member_view(s2[0]), members_view(s2.drop_first()));
        }
        let here = m1[j].name == m2[j].name && m1[j].offset == m2[j].offset
            && m1[j].member_type.ptype_eq(&m2[j].member_type);
        result = here && result;
        i = j;
    }
    assert(m1@.subrange(0, m1.len() as int) == m1@);
    assert(m2@.subrange(0, m2.len() as int) == m2@);
    result
}

impl PType {
    fn new(k: PTypeKind, s: usize) -> (t: Self)
        ensures
            t.kind == k,
            t.size == s,
    {
        PType { kind: k, size: s }
    }

    /// A copy of the type.
    pub fn copy_ptype(&self) -> (r: PType)
        ensures
            r@ == self@,
        decreases self,
    {
        let k = match &self.kind {
            PTypeKind::INT64 => PTypeKind::INT64,
            PTypeKind::UINT64 => PTypeKind::UINT64,
            PTypeKind::CONSTSTR => PTypeKind::CONSTSTR,
            PTypeKind::NORETURN => PTypeKind::NORETURN,
            PTypeKind::BOOLEAN => PTypeKind::BOOLEAN,
            PTypeKind::INVALID => PTypeKind::INVALID,
            PTypeKind::UNRESOLVED(name) => PTypeKind::UNRESOLVED(name.copy_ident()),
            PTypeKind::POINTER(inner, local) => PTypeKind::POINTER(Box::new(inner.copy_ptype()), *local),
            PTypeKind::STRUCT { members } => PTypeKind::STRUCT { members: copy_member_list(members) },
        };
        PType { kind: k, size: self.size }
    }

    /// Whether two types are the same (the `==` of types).
    pub fn ptype_eq(&self, other: &PType) -> (b: bool)
        ensures
            b == (self@ == other@),
        decreases self,
    {
        if self.size != other.size {
            return false;
        }
        match (&self.kind, &other.kind) {
            (PTypeKind::INT64, PTypeKind::INT64) => true,
            (PTypeKind::UINT64, PTypeKind::UINT64) => true,
            (PTypeKind::CONSTSTR, PTypeKind::CONSTSTR) => true,
            (PTypeKind::NORETURN, PTypeKind::NORETURN) => true,
            (PTypeKind::BOOLEAN, PTypeKind::BOOLEAN) => true,
            (PTypeKind::INVALID, PTypeKind::INVALID) => true,
            (PTypeKind::UNRESOLVED(x), PTypeKind::UNRESOLVED(y)) => x.ident_eq(y),
            (PTypeKind::POINTER(x, l1), PTypeKind::POINTER(y, l2)) => *l1 == *l2 && x.ptype_eq(y),
            (PTypeKind::STRUCT { members: m1 }, PTypeKind::STRUCT { members: m2 }) => members_eq(m1, m2),
            _ => false,
        }
    }

    /// The shared `Int64` type.
    pub fn global_int_type() -> (t: Self)
        ensures
            t == global_type_of(PTypeKind::INT64),
    {
        Self::new(PTypeKind::INT64, 8)
    }

    /// The shared `Uint64` type.
    pub fn global_uint_type() -> (t: Self)
        ensures
            t == global_type_of(PTypeKind::UINT64),
    {
        Self::new(PTypeKind::UINT64, 8)
    }

    /// The shared `Boolean` type.
    pub fn global_boolean_type() -> (t: Self)
        ensures
            t == global_type_of(PTypeKind::BOOLEAN),
    {
        Self::new(PTypeKind::BOOLEAN, 8)
    }

    /// The shared `Noreturn` type.
    pub fn global_noreturn_type() -> (t: Self)
        ensures
            t == global_type_of(PTypeKind::NORETURN),
    {
        Self::new(PTypeKind::NORETURN, 0)
    }

    /// The shared `ConstStr` type.
    pub fn global_conststr_type() -> (t: Self)
        ensures
            t == global_type_of(PTypeKind::CONSTSTR),
    {
        Self::new(PTypeKind::CONSTSTR, 8)
    }

    /// The shared invalid type.
    pub fn global_invalid_type() -> (t: Self)
        ensures
            t == global_type_of(PTypeKind::INVALID),
    {
        Self::new(PTypeKind::INVALID, 0)
    }

    pub fn new_int64() -> (t: Self)
        ensures
            t == (PType { kind: PTypeKind::INT64, size: 8 }),
    {
        Self::new(PTypeKind::INT64, 8)
    }

    pub fn new_uint64() -> (t: Self)
        ensures
            t == (PType { kind: PTypeKind::UINT64, size: 8 }),
    {
        Self::new(PTypeKind::UINT64, 8)
    }

    pub fn new_noreturn() -> (t: Self)
        ensures
            t == (PType { kind: PTypeKind::NORETURN, size: 0 }),
    {
        Self::new(PTypeKind::NORETURN, 0)
    }

    pub fn new_conststr() -> (t: Self)
        ensures
            t == (PType { kind: PTypeKind::CONSTSTR, size: 8 }),
    {
        Self::new(PTypeKind::CONSTSTR, 8)
    }

    pub fn new_unresolved(name: IdentName) -> (t: Self)
        ensures
            t == (PType { kind: PTypeKind::UNRESOLVED(name), size: 0 }),
    {
        Self::new(PTypeKind::UNRESOLVED(name), 0)
    }

    pub fn new_invalid() -> (t: Self)
        ensures
            t == (PType { kind: PTypeKind::INVALID, size: 0 }),
    {
        Self::new(PTypeKind::INVALID, 0)
    }

    pub fn new_pointer(inner: PType, ref_local: bool) -> (t: Self)
        ensures
            t == (PType { kind: PTypeKind::POINTER(Box::new(inner), ref_local), size: 8 }),
    {
        Self::new(PTypeKind::POINTER(Box::new(inner), ref_local), 8)
    }

    /// A structure type of the given members (in increasing order of names): each
    /// member is placed right after the one before, and the size is their sum.
    pub fn new_struct(members: Vec<StructMember>) -> (t: Self)
        requires
            members_sorted(members@),
            sizes_prefix(members@, members@.len() as int) <= usize::MAX,
        ensures
            t.kind matches PTypeKind::STRUCT { members: laid } && laid_out(members@, laid@)
                && members_sorted(laid@),
            t.size == sizes_prefix(members@, members@.len() as int),
    {
        let ghost orig = members@;
        let mut members = members;
        let mut total_size: usize = 0;
        let mut i: usize = 0;
        while i < members.len()
            invariant
                i <= members.len(),
                members.len() == orig.len(),
                total_size == sizes_prefix(orig, i as int),
                sizes_prefix(orig, orig.len() as int) <= usize::MAX,
                forall|j: int|
                    0 <= j < orig.len() ==> {
                        &&& (#[trigger] members@[j]).name == orig[j].name
                        &&& members@[j].member_type == orig[j].member_type
                        &&& (j < i ==> members@[j].offset == sizes_prefix(orig, j))
                        &&& (j >= i ==> members@[j].offset == orig[j].offset)
                    },
            decreases members.len() - i,
        {
            proof { lemma_sizes_prefix_monotone(orig, i as int + 1, orig.len() as int); }
            let mut m = members.remove(i);
            let sz = m.member_type.size;
            m.offset = total_size;
            members.insert(i, m);
            total_size = total_size + sz;
            i = i + 1;
        }
        proof {
            assert forall|a: int, b: int| 0 <= a < b < members@.len() implies lex_lt(
                #[trigger] members@[a].name@,
                #[trigger] members@[b].name@,
            ) by {
                assert(members@[a].name == orig[a].name);
                assert(members@[b].name == orig[b].name);
            }
        }
        Self::new(PTypeKind::STRUCT { members }, total_size)
    }

    pub fn new_boolean() -> (t: Self)
        ensures
            t == (PType { kind: PTypeKind::BOOLEAN, size: 8 }),
    {
        Self::new(PTypeKind::BOOLEAN, 8)
    }

    pub fn is_unsigned(&self) -> (b: bool)
        ensures
            b == (self.kind is UINT64),
    {
        match &self.kind {
            PTypeKind::UINT64 => true,
            _ => false,
        }
    }

    pub fn is_pointer(&self) -> (b: bool)
        ensures
            b == (self.kind is POINTER),
    {
        match &self.kind {
            PTypeKind::POINTER(_inner, _ref_local) => true,
            _ => false,
        }
    }

    pub fn is_struct(&self) -> (b: bool)
        ensures
            b == (self.kind is STRUCT),
    {
        match &self.kind {
            PTypeKind::STRUCT { .. } => true,
            _ => false,
        }
    }

    /// The type that a pointer type points to.
    pub fn dereference(&self) -> (t: Self)
        requires
            self.kind is POINTER,
        ensures
            self.kind matches PTypeKind::POINTER(inner, _) && t@ == inner@,
    {
        match &self.kind {
            PTypeKind::POINTER(inner, _ref_local) => inner.copy_ptype(),
            _ => Self::new_invalid(),
        }
    }

    /// Whether a pointer type is the address of a local variable.
    pub fn ref_local(&self) -> (b: bool)
        requires
            self.kind is POINTER,
        ensures
            self.kind matches PTypeKind::POINTER(_, local) && b == local,
    {
        match &self.kind {
            PTypeKind::POINTER(_inner, ref_local) => *ref_local,
            _ => false,
        }
    }

    /// A copy of the members of a structure type.
    pub fn copy_members(&self) -> (m: Vec<StructMember>)
        requires
            self.kind is STRUCT,
        ensures
            self.kind matches PTypeKind::STRUCT { members } && members_view(m@) == members_view(members@),
    {
        match &self.kind {
            PTypeKind::STRUCT { members } => copy_member_list(members),
            _ => Vec::new(),
        }
    }

    /// The members of a structure type.
    pub fn get_members(&self) -> (m: &Vec<StructMember>)
        requires
            self.kind is STRUCT,
        ensures
            self.kind matches PTypeKind::STRUCT { members } && *m == members,
    {
        match &self.kind {
            PTypeKind::STRUCT { members } => members,
            _ => vstd::pervasive::unreached(),
        }
    }

    pub fn type_size(&self) -> (s: usize)
        ensures
            s == self.size,
    {
        self.size
    }

    /// The shared type of the kind of `pt`.
    pub fn get_global_type_from(pt: &Self) -> (t: Self)
        requires
            !(pt.kind is STRUCT),
            !(pt.kind is UNRESOLVED),
            !(pt.kind is POINTER),
        ensures
            t == global_type_of(pt.kind),
    {
        match &pt.kind {
            PTypeKind::BOOLEAN => Self::global_boolean_type(),
            PTypeKind::INT64 => Self::global_int_type(),
            PTypeKind::UINT64 => Self::global_uint_type(),
            PTypeKind::CONSTSTR => Self::global_conststr_type(),
            PTypeKind::NORETURN => Self::global_noreturn_type(),
            _ => Self::global_invalid_type(),
        }
    }

    /// The name under which the type is printed.
    pub fn to_str(&self) -> (s: &'static str)
        ensures
            s@ == kind_name(self.kind),
    {
        self.kind.to_str()
    }
}

impl PTypeKind {
    /// The name under which a type of this kind is printed.
    pub fn to_str(&self) -> (s: &'static str)
        ensures
            s@ == kind_name(*self),
    {
        match self {
            PTypeKind::INT64 => "Int64",
            PTypeKind::UINT64 => "Uint64",
            PTypeKind::CONSTSTR => "ConstStr",
            PTypeKind::NORETURN => "Noreturn",
            PTypeKind::BOOLEAN => "Boolean",
            PTypeKind::UNRESOLVED(_name) => "Unresolved",
            PTypeKind::POINTER(_inner, _ref_local) => "Pointer",
            PTypeKind::STRUCT { .. } => "struct",
            PTypeKind::INVALID => "Invalid",
        }
    }
}

/// The sums of sizes grow with the number of members summed.
pub proof fn lemma_sizes_prefix_monotone(m: Seq<StructMember>, a: int, b: int)
    requires
        0 <= a <= b <= m.len(),
    ensures
        sizes_prefix(m, a) <= sizes_prefix(m, b),
    decreases b - a,
{
    if a < b {
        lemma_sizes_prefix_monotone(m, a, b - 1);
    }
}

/// The values of members laid out one after another.
pub open spec fn laid_view(ms: Seq<StructMember>) -> Seq<MemberV> {
    Seq::new(
        ms.len(),
        |i: int| MemberV { name: ms[i].name@, member_type: ms[i].member_type@, offset: sizes_prefix(ms, i) as usize },
    )
}

/// The name under which a type of a kind is printed, read from its value.
pub open spec fn kindv_name(k: PTypeKindV) -> Seq<char> {
    match k {
        PTypeKindV::INT64 => "Int64"@,
        PTypeKindV::UINT64 => "Uint64"@,
        PTypeKindV::CONSTSTR => "ConstStr"@,
        PTypeKindV::NORETURN => "Noreturn"@,
        PTypeKindV::BOOLEAN => "Boolean"@,
        PTypeKindV::UNRESOLVED(_) => "Unresolved"@,
        PTypeKindV::POINTER(_, _) => "Pointer"@,
        PTypeKindV::STRUCT(_) => "struct"@,
        PTypeKindV::INVALID => "Invalid"@,
    }
}

/// A type's value is printed under the type's name.
pub proof fn lemma_kind_name(t: PType)
    ensures
        kindv_name(t@.kind) == kind_name(t.kind),
{
}

/// The value of each member in a list is the value of that member.
pub proof fn lemma_members_view_index(m: Seq<StructMember>, i: int)
    requires
        0 <= i < m.len(),
    ensures
        members_view(m).len() == m.len(),
        members_view(m)[i] == member_view(m[i]),
    decreases m.len(),
{
    lemma_members_view_len(m);
    if i > 0 {
        lemma_members_view_index(m.drop_first(), i - 1);
        lemma_members_view_len(m.drop_first());
    }
}

/// A list of members has as many values as members.
pub proof fn lemma_members_view_len(m: Seq<StructMember>)
    ensures
        members_view(m).len() == m.len(),
    decreases m.len(),
{
    if m.len() > 0 {
        lemma_members_view_len(m.drop_first());
    }
}

} // verus!
