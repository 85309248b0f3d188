use vstd::prelude::*;

verus! {

/// The characters of each string of a sequence.
pub open spec fn strings_view(v: Seq<String>) -> Seq<Seq<char>> {
    v.map_values(|s: String| s@)
}

/// A path of names, such as `x64::exit`: a first name and, where there is one, the rest of the path.
#[derive(Debug, PartialEq, Eq)]
pub struct IdentName {
    pub name: String,
    pub next: Option<Box<IdentName>>,
}

impl IdentName {
    /// The names of the path, first to last.
    pub open spec fn names(&self) -> Seq<Seq<char>>
        decreases self,
    {
        match self.next {
            None => seq![self.name@],
            Some(n) => seq![self.name@] + n.names(),
        }
    }

    /// Two paths hold the same names.
    pub open spec fn same(&self, other: &IdentName) -> bool {
        self.names() == other.names()
    }

    pub proof fn lemma_names_nonempty(&self)
        ensures
            self.names().len() >= 1,
            self.names()[0] == self.name@,
        decreases self,
    {
        if let Some(n) = &self.next {
            n.lemma_names_nonempty();
        }
    }

    fn new(base_id: String, nxt: Option<Box<IdentName>>) -> (r: Self)
        ensures
            r.name == base_id,
            r.next == nxt,
    {
        IdentName { name: base_id, next: nxt }
    }

    /// A path of one name.
    pub fn new_terminated(base_id: String) -> (r: Self)
        ensures
            r.name == base_id,
            r.next.is_none(),
            r.names() == seq![base_id@],
    {
        Self::new(base_id, None)
    }

    /// Replaces the rest of the path by `next`.
    pub fn append_next(&mut self, next: IdentName)
        ensures
            final(self).name == old(self).name,
            final(self).next == Some(Box::new(next)),
            final(self).names() == seq![old(self).name@] + next.names(),
    {
        self.next = Some(Box::new(next));
    }

    fn push_names(s: &IdentName, out: &mut Vec<String>)
        ensures
            strings_view(final(out)@) == strings_view(old(out)@) + s.names(),
        decreases s,
    {
        out.push(s.name.clone());
        proof {
            assert(strings_view(out@) == strings_view(old(out)@) + seq![s.name@]);
        }
        match &s.next {
            None => {
                assert(strings_view(out@) == strings_view(old(out)@) + s.names());
            },
            Some(n) => {
                let ghost mid = out@;
                Self::push_names(n, out);
                assert(strings_view(out@) == strings_view(old(out)@) + s.names());
            },
        }
    }

    /// The names of the path, first to last.
    pub fn correct_name(s: &IdentName) -> (corrected: Vec<String>)
        ensures
            strings_view(corrected@) == s.names(),
    {
        let mut corrected: Vec<String> = Vec::new();
        Self::push_names(s, &mut corrected);
        assert(strings_view(corrected@) == Seq::<Seq<char>>::empty() + s.names());
        corrected
    }

    /// The last name of the path.
    pub fn last_name(s: &IdentName) -> (st: String)
        ensures
            st@ == s.names().last(),
        decreases s,
    {
        proof { s.lemma_names_nonempty(); }
        match &s.next {
            None => s.name.clone(),
            Some(n) => {
                proof { n.lemma_names_nonempty(); }
                let r = Self::last_name(n);
                assert((seq![s.name@] + n.names()).last() == n.names().last());
                r
            },
        }
    }

    /// A copy of the path.
    pub fn copy_ident(&self) -> (r: IdentName)
        ensures
            r == *self,
        decreases self,
    {
        match &self.next {
            None => IdentName { name: self.name.clone(), next: None },
            Some(n) => IdentName { name: self.name.clone(), next: Some(Box::new(n.copy_ident())) },
        }
    }

    /// Whether two paths hold the same names.
    pub fn ident_eq(&self, other: &IdentName) -> (b: bool)
        ensures
            b == self.same(other),
        decreases self,
    {
        proof {
            self.lemma_names_nonempty();
            other.lemma_names_nonempty();
        }
        if self.name != other.name {
            assert(self.names()[0] != other.names()[0]);
            return false;
        }
        match (&self.next, &other.next) {
            (None, None) => true,
            (Some(a), Some(b)) => {
                let r = a.ident_eq(b);
                proof {
                    if !r {
                        assert(self.names().drop_first() == a.names());
                        assert(other.names().drop_first() == b.names());
                    }
                }
                r
            },
            (Some(a), None) => {
                proof { a.lemma_names_nonempty(); }
                assert(self.names().len() != other.names().len());
                false
            },
            (None, Some(b)) => {
                proof { b.lemma_names_nonempty(); }
                assert(self.names().len() != other.names().len());
                false
            },
        }
    }
}

} // verus!
