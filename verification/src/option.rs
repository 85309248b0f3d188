use vstd::prelude::*;

verus! {

/// The machine that code is generated for.
#[derive(Clone, Copy, Debug, PartialEq, Eq, Structural)]
pub enum Target {
    X86_64,
    AArch64,
}

/// Options of one compiler run.
#[derive(Clone, Copy, Debug, PartialEq, Eq, Structural)]
pub struct BuildOption {
    /// Print each phase's result.
    pub verbose: bool,
    /// Print the AST after parsing.
    pub dump_ir: bool,
    pub target: Target,
}

impl Default for BuildOption {
    fn default() -> (o: Self)
        ensures
            !o.verbose,
            !o.dump_ir,
            o.target == Target::X86_64,
    {
        BuildOption { verbose: false, dump_ir: false, target: Target::X86_64 }
    }
}

} // verus!
