use vstd::prelude::*;

use id_arena::{Arena, DefaultArenaBehavior};

verus! {

#[verifier::external_type_specification]
#[verifier::external_body]
#[verifier::reject_recursive_types(T)]
#[verifier::reject_recursive_types(A)]
pub struct ExArena<T, A>(Arena<T, A>);

#[verifier::external_type_specification]
#[verifier::external_body]
#[verifier::reject_recursive_types(T)]
pub struct ExDefaultArenaBehavior<T>(DefaultArenaBehavior<T>);

/// The strings that an arena holds, in the order in which they were allocated.
pub uninterp spec fn arena_strings(a: Arena<String>) -> Seq<Seq<char>>;

/// `id_arena::Arena::new`: an arena that holds nothing.
#[verifier::external_body]
fn arena_new() -> (a: Arena<String>)
    ensures
        arena_strings(a) == Seq::<Seq<char>>::empty(),
{
    Arena::new()
}

/// `id_arena::Arena::alloc`: appends `item` to the arena; the index of the id it
/// gives back (`Id::index`) is the number of items held before.
#[verifier::external_body]
fn arena_alloc(a: &mut Arena<String>, item: String) -> (index: usize)
    requires
        arena_strings(*old(a)).len() < usize::MAX,
    ensures
        arena_strings(*final(a)) == arena_strings(*old(a)).push(item@),
        index == arena_strings(*old(a)).len(),
{
    a.alloc(item).index()
}

/// `id_arena::Arena::iter` followed by `nth`: the item at position `index`, if any.
/// The source shows that `iter` yields the items in allocation order.
#[verifier::external_body]
fn arena_nth(a: &Arena<String>, index: usize) -> (r: Option<&String>)
    ensures
        index < arena_strings(*a).len() ==> r is Some && r.unwrap()@ == arena_strings(*a)[index as int],
        index >= arena_strings(*a).len() ==> r is None,
{
    a.iter().nth(index).map(|(_, s)| s)
}

/// `id_arena::Arena::len`: the number of items held.
#[verifier::external_body]
fn arena_len(a: &Arena<String>) -> (n: usize)
    ensures
        n == arena_strings(*a).len(),
{
    a.len()
}

/// The identifier of a string in a [`ConstAllocator`]: its index in allocation order.
pub type PStringId = usize;

/// A pool of the strings (identifiers and literals) of a program.
pub struct ConstAllocator {
    string_pool: Arena<String>,
}

impl View for ConstAllocator {
    type V = Seq<Seq<char>>;

    closed spec fn view(&self) -> Seq<Seq<char>> {
        arena_strings(self.string_pool)
    }
}

impl Default for ConstAllocator {
    fn default() -> (p: Self)
        ensures
            p@ == Seq::<Seq<char>>::empty(),
    {
        ConstAllocator { string_pool: arena_new() }
    }
}

impl ConstAllocator {
    /// Stores a string; gives back its identifier.
    pub fn alloc_string(&mut self, v: String) -> (id: PStringId)
        requires
            old(self)@.len() < usize::MAX,
        ensures
            final(self)@ == old(self)@.push(v@),
            id == old(self)@.len(),
    {
        arena_alloc(&mut self.string_pool, v)
    }

    /// The string with identifier `id`, if there is one.
    pub fn get(&self, id: PStringId) -> (s: Option<PString>)
        ensures
            id < self@.len() ==> s is Some && s.unwrap()@ == self@[id as int],
            id >= self@.len() ==> s is None,
    {
        match arena_nth(&self.string_pool, id) {
            Some(v) => Some(PString::new(v.clone())),
            None => None,
        }
    }

    /// The number of strings stored.
    pub fn len(&self) -> (n: usize)
        ensures
            n == self@.len(),
    {
        arena_len(&self.string_pool)
    }
}

/// A string of the program.
#[derive(PartialEq, Eq, Debug, Clone)]
pub struct PString {
    value: String,
}

impl View for PString {
    type V = Seq<char>;

    closed spec fn view(&self) -> Seq<char> {
        self.value@
    }
}

impl Default for PString {
    fn default() -> (p: Self)
        ensures
            p@ == Seq::<char>::empty(),
    {
        PString { value: String::new() }
    }
}

impl PString {
    pub fn new(v: String) -> (p: Self)
        ensures
            p@ == v@,
    {
        PString { value: v }
    }

    pub fn copy_value(&self) -> (s: String)
        ensures
            s@ == self@,
    {
        self.value.clone()
    }

    /// The number of characters.
    pub fn len(&self) -> (n: usize)
        ensures
            n == self@.len(),
    {
        self.value.as_str().unicode_len()
    }

    pub fn is_empty(&self) -> (b: bool)
        ensures
            b == (self@.len() == 0),
    {
        self.value.as_str().is_empty()
    }

    pub fn compare_str(&self, s: String) -> (b: bool)
        ensures
            b == (self@ == s@),
    {
        self.value == s
    }
}

} // verus!
