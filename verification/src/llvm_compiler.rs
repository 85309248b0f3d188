use vstd::prelude::*;

use crate::compiler::{frontend_rel, proc_frontend, CompileFailure, SourceFile};
use crate::llvm_codegen::{codegen, gen_fns_s, llvm_err_v, x86_64_layout, x86_64_triple, LlvmCodegenError};
use crate::llvm_emit::{emit_module, scratch_functions, scratch_intrinsics, scratch_layout, scratch_triple};
use crate::llvm_ir::{
    functions_v, layout_v, DataLayoutV, Endianness, FloatSize, LFunctionV, LlvmFunction, LlvmIntrinsic, LlvmModule,
    NameMangling,
};
use crate::name_map::NameMap;
use crate::option::{BuildOption, Target};
use crate::pfunction::PFunction;
use crate::root::ASTRoot;

verus! {

/// The x86-64 data layout `e-m:e-i64:64-f80:128-n8:16:32:64`.
pub open spec fn x86_64_layout_v() -> DataLayoutV {
    DataLayoutV {
        endian: Endianness::Little,
        mangling: NameMangling::Elf,
        int_size: 64,
        int_abi: 64,
        float_size: FloatSize::LongDouble80,
        float_abi: 128,
        native_widths: seq![8i32, 16i32, 32i32, 64i32],
    }
}

/// `m` holds the functions `fv` in order, for x86-64, and declares `llvm.donothing`.
pub open spec fn emits(m: llvm_scratch::core::module::Module, fv: Seq<LFunctionV>) -> bool {
    &&& scratch_functions(m) == fv
    &&& scratch_triple(m) == Some(x86_64_triple())
    &&& scratch_layout(m) == Some(x86_64_layout_v())
    &&& scratch_intrinsics(m) == set![LlvmIntrinsic::DoNothing]
}

/// What the LLVM back end gives for the checked functions `fm`: no module for a
/// target other than x86-64, else the module made of the LLVM code of the
/// functions, or the first error.
pub open spec fn llvm_rel(
    opt: BuildOption,
    fm: NameMap<PFunction>,
    r: Result<llvm_scratch::core::module::Module, CompileFailure>,
) -> bool {
    match opt.target {
        Target::AArch64 => r matches Err(CompileFailure::Llvm(LlvmCodegenError::UnsupportedTarget)),
        Target::X86_64 => match gen_fns_s(fm.values(), fm@, fm.names().len() as int) {
            Ok((fv, _l)) => r matches Ok(m) && emits(m, fv),
            Err(x) => r matches Err(CompileFailure::Llvm(y)) && llvm_err_v(y) == x,
        },
    }
}

/// The LLVM back end: the LLVM code of the checked functions `fm`, built as an
/// `llvm_scratch` module.
pub fn llvm_backend(build_option: &BuildOption, fm: &NameMap<PFunction>) -> (r: Result<
    llvm_scratch::core::module::Module,
    CompileFailure,
>)
    requires
        fm.wf(),
        crate::root::functions_wf(fm@),
    ensures
        llvm_rel(*build_option, *fm, r),
{
    match codegen(build_option, fm) {
        Ok(lm) => {
            let m = emit_module(&lm);
            proof {
                assert(build_option.target == Target::X86_64);
                let fv = gen_fns_s(fm.values(), fm@, fm.names().len() as int)->Ok_0.0;
                assert(lm.intrinsics@ == seq![LlvmIntrinsic::DoNothing]);
                assert(layout_v(lm.layout) == x86_64_layout_v());
                assert(lm.intrinsics@.to_set() =~= set![LlvmIntrinsic::DoNothing]) by {
                    assert forall|x: LlvmIntrinsic| lm.intrinsics@.to_set().contains(x) <==> x == LlvmIntrinsic::DoNothing by {
                        if x == LlvmIntrinsic::DoNothing {
                            assert(lm.intrinsics@[0] == x);
                        }
                    }
                }
                assert(emits(m, fv));
            }
            Ok(m)
        },
        Err(e) => {
            proof { assert(llvm_rel(*build_option, *fm, Err(CompileFailure::Llvm(e)))); }
            Err(CompileFailure::Llvm(e))
        },
    }
}

/// Compiles a program to an LLVM module: the front end, then the LLVM code of its
/// functions, built as an `llvm_scratch` module.
pub fn compile_main(build_option: &BuildOption, main_file: &SourceFile, externals: &Vec<SourceFile>) -> (r: Result<
    llvm_scratch::core::module::Module,
    CompileFailure,
>)
    ensures
        exists|fr: Result<ASTRoot, CompileFailure>|
            #[trigger] frontend_rel(*main_file, externals@, fr) && match fr {
                Err(e) => r == Err::<llvm_scratch::core::module::Module, CompileFailure>(e),
                Ok(root) => llvm_rel(*build_option, root.func_map, r),
            },
{
    let fr = proc_frontend(build_option, main_file, externals);
    match fr {
        Ok(root) => {
            let r = llvm_backend(build_option, &root.func_map);
            proof { assert(frontend_rel(*main_file, externals@, Ok::<ASTRoot, CompileFailure>(root))); }
            r
        },
        Err(e) => {
            proof { assert(frontend_rel(*main_file, externals@, Err::<ASTRoot, CompileFailure>(e))); }
            Err(e)
        },
    }
}

} // verus!
