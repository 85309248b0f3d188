use vstd::prelude::*;

use crate::pfunction::PFunction;
use crate::pvariable::{PVarKind, PVariable};

verus! {

/// The frame size taken by the first `n` variables: the sum of their type sizes.
pub open spec fn frame_offset(vals: Seq<PVariable>, n: int) -> int
    decreases n,
{
    if n <= 0 {
        0
    } else {
        frame_offset(vals, n - 1) + vals[n - 1].ptype.size
    }
}

proof fn lemma_frame_offset_monotone(vals: Seq<PVariable>, a: int, b: int)
    requires
        0 <= a <= b <= vals.len(),
    ensures
        frame_offset(vals, a) <= frame_offset(vals, b),
    decreases b - a,
{
    if a < b {
        lemma_frame_offset_monotone(vals, a, b - 1);
    }
}

impl PFunction {
    /// Places the local variables in the frame, in name order: each one ends where
    /// the sizes of it and of those before it add up; the frame takes them all.
    pub fn alloc_frame(&mut self)
        requires
            old(self).wf(),
            frame_offset(old(self).locals.values(), old(self).locals.names().len() as int) <= usize::MAX,
        ensures
            final(self).wf(),
            final(self).locals.names() == old(self).locals.names(),
            final(self).locals.values().len() == old(self).locals.values().len(),
            forall|i: int| 0 <= i < old(self).locals.values().len() ==> {
                &&& (#[trigger] final(self).locals.values()[i]).kind == PVarKind::LOCAL(
                    frame_offset(old(self).locals.values(), i + 1) as usize,
                )
                &&& final(self).locals.values()[i].ptype == old(self).locals.values()[i].ptype
                &&& final(self).locals.values()[i].is_const == old(self).locals.values()[i].is_const
            },
            final(self).stack_offset == frame_offset(old(self).locals.values(), old(self).locals.names().len() as int),
            final(self).name == old(self).name,
            final(self).stmts == old(self).stmts,
            final(self).strings == old(self).strings,
            final(self).return_type == old(self).return_type,
            final(self).args == old(self).args,
    {
        let ghost vals = self.locals.values();
        proof { self.locals.lemma_values_len(); }
        let n = self.locals.len();
        let mut total_offset: usize = 0;
        let mut i: usize = 0;
        while i < n
            invariant
                i <= n,
                n == self.locals.names().len(),
                n == vals.len(),
                self.locals.wf(),
                self.strings.wf(),
                self.locals.names() == old(self).locals.names(),
                self.locals.values().len() == n,
                vals == old(self).locals.values(),
                total_offset == frame_offset(vals, i as int),
                frame_offset(vals, n as int) <= usize::MAX,
                forall|j: int| 0 <= j < n ==> {
                    &&& (#[trigger] self.locals.values()[j]).ptype == vals[j].ptype
                    &&& self.locals.values()[j].is_const == vals[j].is_const
                    &&& j < i ==> self.locals.values()[j].kind == PVarKind::LOCAL(frame_offset(vals, j + 1) as usize)
                },
                self.name == old(self).name,
                self.stmts == old(self).stmts,
                self.strings == old(self).strings,
                self.return_type == old(self).return_type,
                self.args == old(self).args,
            decreases n - i,
        {
            proof { lemma_frame_offset_monotone(vals, i as int + 1, n as int); }
            let placeholder = PVariable::new_local(crate::ptype::PType::new_invalid(), false);
            let mut pvar = self.locals.replace_at(i, placeholder);
            total_offset = total_offset + pvar.type_size();
            pvar.set_stack_offset(total_offset);
            let _ = self.locals.replace_at(i, pvar);
            i = i + 1;
        }
        self.stack_offset = total_offset;
    }
}

} // verus!
