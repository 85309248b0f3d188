use vstd::prelude::*;

use crate::ptype::PType;

verus! {

/// Where a variable lives.
#[derive(Debug, PartialEq, Eq, Clone, Copy)]
pub enum PVarKind {
    /// A local variable, with its offset in the stack frame.
    LOCAL(usize),
}

/// A variable: where it lives, its type and whether it may be assigned after its initialization.
#[derive(Debug, PartialEq, Eq)]
pub struct PVariable {
    pub kind: PVarKind,
    pub ptype: PType,
    pub is_const: bool,
}

impl PVariable {
    fn new(var_kind: PVarKind, var_type: PType, con: bool) -> (v: Self)
        ensures
            v.kind == var_kind,
            v.ptype == var_type,
            v.is_const == con,
    {
        PVariable { kind: var_kind, ptype: var_type, is_const: con }
    }

    /// A local variable, not placed in the frame yet.
    pub fn new_local(var_type: PType, is_const: bool) -> (v: Self)
        ensures
            v.kind == PVarKind::LOCAL(0),
            v.ptype == var_type,
            v.is_const == is_const,
    {
        Self::new(PVarKind::LOCAL(0), var_type, is_const)
    }

    pub fn is_constant(&self) -> (b: bool)
        ensures
            b == self.is_const,
    {
        self.is_const
    }

    pub fn set_type(&mut self, t: PType)
        ensures
            final(self).ptype == t,
            final(self).kind == old(self).kind,
            final(self).is_const == old(self).is_const,
    {
        self.ptype = t;
    }

    pub fn get_type(&self) -> (t: &PType)
        ensures
            *t == self.ptype,
    {
        &self.ptype
    }

    /// The size of the variable's type.
    pub fn type_size(&self) -> (s: usize)
        ensures
            s == self.ptype.size,
    {
        self.ptype.type_size()
    }

    pub fn set_stack_offset(&mut self, offset: usize)
        ensures
            final(self).kind == PVarKind::LOCAL(offset),
            final(self).ptype == old(self).ptype,
            final(self).is_const == old(self).is_const,
    {
        match self.kind {
            PVarKind::LOCAL(_) => {
                self.kind = PVarKind::LOCAL(offset);
            },
        }
    }

    pub fn get_stack_offset(&self) -> (offset: usize)
        ensures
            self.kind == PVarKind::LOCAL(offset),
    {
        match self.kind {
            PVarKind::LOCAL(offset) => offset,
        }
    }

    /// A copy of the variable.
    pub fn copy_pvar(&self) -> (v: Self)
        ensures
            v.kind == self.kind,
            v.ptype@ == self.ptype@,
            v.is_const == self.is_const,
    {
        PVariable { kind: self.kind, ptype: self.ptype.copy_ptype(), is_const: self.is_const }
    }
}

} // verus!
