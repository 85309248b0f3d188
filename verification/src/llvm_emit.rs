use vstd::prelude::*;

use crate::llvm_ir::{
    function_v, functions_v, layout_v, DataLayout, DataLayoutV, Endianness, FloatSize, LFunctionV, LlvmFunction,
    LlvmInst, LlvmIntrinsic, LlvmModule, LlvmParam, LlvmType, NameMangling, TargetTriple, TripleAbi, TripleArch,
    TripleSys, TripleVendor,
};

verus! {

#[verifier::external_type_specification]
#[verifier::external_body]
pub struct ExModule(llvm_scratch::core::module::Module);

#[verifier::external_type_specification]
#[verifier::external_body]
pub struct ExLLVMType(llvm_scratch::core::llvm_type::LLVMType);

#[verifier::external_type_specification]
#[verifier::external_body]
pub struct ExLLVMValue(llvm_scratch::core::llvm_value::LLVMValue);

#[verifier::external_type_specification]
#[verifier::external_body]
pub struct ExParameter(llvm_scratch::core::function::Parameter);

#[verifier::external_type_specification]
#[verifier::external_body]
pub struct ExInstKind(llvm_scratch::core::instruction::InstKind);

#[verifier::external_type_specification]
#[verifier::external_body]
pub struct ExIntegerAlignment(llvm_scratch::core::target_datalayout::IntegerAlignment);

#[verifier::external_type_specification]
#[verifier::external_body]
pub struct ExFloatAlignment(llvm_scratch::core::target_datalayout::FloatAlignment);

/// The functions an `llvm_scratch` module holds, in the order they were added (the
/// order of their ids, in which the module prints them). Each is read as a value:
/// its name; its return type; its parameters, each a name and a type; and the
/// instructions of its entry block, where `ALLOCA(ty, None, Some(align), None)` with
/// the register `%dst` is `Alloca(ty, align, dst)`, `CALL(None, None, Ok(ret), callee,
/// params)` with the register `%dst` or none is `Call(ret, callee, params, dst)`, and
/// `RETVOID` with no register is `RetVoid`. The types `INTEGER`, `UNSIGNEDINTEGER`,
/// `VOID` and `POINTER` are read as `Int`, `UInt`, `Void` and `Pointer`.
pub uninterp spec fn scratch_functions(m: llvm_scratch::core::module::Module) -> Seq<LFunctionV>;

/// The target triple an `llvm_scratch` module holds, if one was set.
pub uninterp spec fn scratch_triple(m: llvm_scratch::core::module::Module) -> Option<TargetTriple>;

/// The target data layout an `llvm_scratch` module holds, if one was set, read with
/// every part present and no preferred alignments.
pub uninterp spec fn scratch_layout(m: llvm_scratch::core::module::Module) -> Option<DataLayoutV>;

/// The intrinsics an `llvm_scratch` module declares.
pub uninterp spec fn scratch_intrinsics(m: llvm_scratch::core::module::Module) -> Set<LlvmIntrinsic>;

/// `Module::default`: a module with no target, function or intrinsic.
#[verifier::external_body]
fn module_new() -> (m: llvm_scratch::core::module::Module)
    ensures
        scratch_functions(m) == Seq::<LFunctionV>::empty(),
        scratch_triple(m) == None::<TargetTriple>,
        scratch_layout(m) == None::<DataLayoutV>,
        scratch_intrinsics(m) == Set::<LlvmIntrinsic>::empty(),
{
    llvm_scratch::core::module::Module::default()
}

/// `Module::set_target_triple` with the triple's parts; no sub-architecture.
#[verifier::external_body]
fn module_set_triple(m: &mut llvm_scratch::core::module::Module, t: &TargetTriple)
    ensures
        scratch_functions(*final(m)) == scratch_functions(*old(m)),
        scratch_triple(*final(m)) == Some(*t),
        scratch_layout(*final(m)) == scratch_layout(*old(m)),
        scratch_intrinsics(*final(m)) == scratch_intrinsics(*old(m)),
{
    let architecture = match t.arch {
        TripleArch::X86_64 => llvm_scratch::core::target_triple::Arch::X86_64,
    };
    let vendor = match t.vendor {
        TripleVendor::Pc => llvm_scratch::core::target_triple::Vendor::PC,
    };
    let sys = match t.sys {
        TripleSys::Linux => llvm_scratch::core::target_triple::Sys::LINUX,
    };
    let abi = match t.abi {
        TripleAbi::Gnu => llvm_scratch::core::target_triple::ABI::GNU,
    };
    m.set_target_triple(llvm_scratch::core::target_triple::TargetTriple { architecture, sub: None, vendor, sys, abi });
}

/// `IntegerAlignment` of a size and its ABI alignment, with no preferred alignment.
#[verifier::external_body]
fn integer_alignment(size: i32, abi: i32) -> (a: llvm_scratch::core::target_datalayout::IntegerAlignment) {
    llvm_scratch::core::target_datalayout::IntegerAlignment { size, abi, pref: None }
}

/// `FloatAlignment` of a size and its ABI alignment, with no preferred alignment.
#[verifier::external_body]
fn float_alignment(size: FloatSize, abi: i32) -> (a: llvm_scratch::core::target_datalayout::FloatAlignment) {
    let size = match size {
        FloatSize::LongDouble80 => llvm_scratch::core::target_datalayout::FloatAlignmentSize::LONGDOUBLE80,
    };
    llvm_scratch::core::target_datalayout::FloatAlignment { size, abi, pref: None }
}

/// `Module::set_target_datalayout` with every part of the layout `l` given: its
/// endianness, mangling, the integer and float alignments (made by `integer_alignment`
/// and `float_alignment` from `l`'s sizes and ABI alignments) and its native widths.
#[verifier::external_body]
fn module_set_datalayout(m: &mut llvm_scratch::core::module::Module, l: &DataLayout)
    ensures
        scratch_functions(*final(m)) == scratch_functions(*old(m)),
        scratch_triple(*final(m)) == scratch_triple(*old(m)),
        scratch_layout(*final(m)) == Some(layout_v(*l)),
        scratch_intrinsics(*final(m)) == scratch_intrinsics(*old(m)),
{
    let endian = match l.endian {
        Endianness::Little => llvm_scratch::core::target_datalayout::Endian::LITTLE,
        Endianness::Big => llvm_scratch::core::target_datalayout::Endian::BIG,
    };
    let mangling = match l.mangling {
        NameMangling::Elf => llvm_scratch::core::target_datalayout::Mangling::ELF,
    };
    m.set_target_datalayout(llvm_scratch::core::target_datalayout::TargetDataLayout {
        endian: Some(endian),
        mangling: Some(mangling),
        integer_alignment: Some(integer_alignment(l.int_size, l.int_abi)),
        float_alignment: Some(float_alignment(l.float_size, l.float_abi)),
        native_integer_width: Some(llvm_scratch::core::target_datalayout::NativeIntegerWidth { sizes: l.native_widths.clone() }),
    });
}

/// `Module::add_intrinsic`.
#[verifier::external_body]
fn module_add_intrinsic(m: &mut llvm_scratch::core::module::Module, i: LlvmIntrinsic)
    ensures
        scratch_functions(*final(m)) == scratch_functions(*old(m)),
        scratch_triple(*final(m)) == scratch_triple(*old(m)),
        scratch_layout(*final(m)) == scratch_layout(*old(m)),
        scratch_intrinsics(*final(m)) == scratch_intrinsics(*old(m)).insert(i),
{
    match i {
        LlvmIntrinsic::DoNothing => m.add_intrinsic(llvm_scratch::core::intrinsics::Intrinsic::DONOTHING),
    }
}

/// The `llvm_scratch` type of a type: `new_int`, `new_uint`, `new_void`, or
/// `new_pointer` of the type inside.
#[verifier::external_body]
fn scratch_type(t: &LlvmType) -> (r: llvm_scratch::core::llvm_type::LLVMType) {
    match t {
        LlvmType::Int(bits) => llvm_scratch::core::llvm_type::LLVMType::new_int(*bits),
        LlvmType::UInt(bits) => llvm_scratch::core::llvm_type::LLVMType::new_uint(*bits),
        LlvmType::Void => llvm_scratch::core::llvm_type::LLVMType::new_void(),
        LlvmType::Pointer(inner) => llvm_scratch::core::llvm_type::LLVMType::new_pointer(scratch_type(inner)),
    }
}

/// `Parameter::new` of a parameter's name and type, with no attributes.
#[verifier::external_body]
fn scratch_param(p: &LlvmParam) -> (r: llvm_scratch::core::function::Parameter) {
    llvm_scratch::core::function::Parameter::new(llvm_scratch::core::llvm_string::LLVMString::from(p.name.as_str()), None, scratch_type(&p.ty))
}

/// `LLVMValue::new_register` named by the decimal digits of `n`.
#[verifier::external_body]
fn scratch_register(n: usize) -> (v: llvm_scratch::core::llvm_value::LLVMValue) {
    llvm_scratch::core::llvm_value::LLVMValue::new_register(llvm_scratch::core::llvm_string::LLVMString::from(format!("{}", n)))
}

/// `InstKind::CALL` of a return type (without attributes), a callee and the
/// parameters, with no tail marker and no fast-math flags.
#[verifier::external_body]
fn scratch_call(ret: &LlvmType, callee: &String, params: &Vec<LlvmParam>) -> (k: llvm_scratch::core::instruction::InstKind) {
    let ret = llvm_scratch::core::function::ReturnType::new(scratch_type(ret), None);
    let callee = llvm_scratch::core::llvm_string::LLVMString::from(callee.as_str());
    let params = llvm_scratch::core::function::ParameterSet::new(params.iter().map(scratch_param).collect());
    llvm_scratch::core::instruction::InstKind::CALL(None, None, Ok(ret), callee, params)
}

/// The `llvm_scratch` instruction kind of an instruction, with its destination
/// register: `ALLOCA` of one element with an alignment and no address space; `CALL`
/// as `scratch_call` makes it; or `RETVOID`.
#[verifier::external_body]
fn scratch_inst(i: &LlvmInst) -> (r: (llvm_scratch::core::instruction::InstKind, Option<llvm_scratch::core::llvm_value::LLVMValue>)) {
    match i {
        LlvmInst::Alloca { ty, align, dst } => (
            llvm_scratch::core::instruction::InstKind::ALLOCA(scratch_type(ty), None, Some(*align), None),
            Some(scratch_register(*dst)),
        ),
        LlvmInst::Call { ret, callee, params, dst } => (scratch_call(ret, callee, params), dst.map(scratch_register)),
        LlvmInst::RetVoid => (llvm_scratch::core::instruction::InstKind::RETVOID, None),
    }
}

/// `Module::new_function` of `f`'s name and return type (without attributes), then
/// `Function::new_argument` of each of its parameters in order and
/// `Function::insert_inst` of each of its instructions, in order, into the new
/// function's entry block. The id that `new_function` gives is fresh, so its `assert`
/// holds and the lookup of the function finds it.
#[verifier::external_body]
fn module_add_function(m: &mut llvm_scratch::core::module::Module, f: &LlvmFunction)
    ensures
        scratch_functions(*final(m)) == scratch_functions(*old(m)).push(function_v(*f)),
        scratch_triple(*final(m)) == scratch_triple(*old(m)),
        scratch_layout(*final(m)) == scratch_layout(*old(m)),
        scratch_intrinsics(*final(m)) == scratch_intrinsics(*old(m)),
{
    let id = m.new_function(f.name.as_str(), llvm_scratch::core::function::ReturnType::new(scratch_type(&f.ret), None));
    let func = m.get_function_ref_as_mut(id);
    let bb = func.get_entry_bb();
    for p in f.params.iter() {
        func.new_argument(scratch_param(p));
    }
    for i in f.insts.iter() {
        let (kind, dst) = scratch_inst(i);
        func.insert_inst(bb, llvm_scratch::core::instruction::Instruction::new(kind, dst));
    }
}

/// The `llvm_scratch` module of a module: its target triple and data layout, its
/// intrinsics, and its functions in order.
pub fn emit_module(lm: &LlvmModule) -> (m: llvm_scratch::core::module::Module)
    ensures
        scratch_functions(m) == functions_v(lm.functions@),
        scratch_triple(m) == Some(lm.triple),
        scratch_layout(m) == Some(layout_v(lm.layout)),
        scratch_intrinsics(m) == lm.intrinsics@.to_set(),
{
    let mut m = module_new();
    module_set_triple(&mut m, &lm.triple);
    module_set_datalayout(&mut m, &lm.layout);
    let mut i: usize = 0;
    while i < lm.intrinsics.len()
        invariant
            i <= lm.intrinsics.len(),
            scratch_functions(m) == Seq::<LFunctionV>::empty(),
            scratch_triple(m) == Some(lm.triple),
            scratch_layout(m) == Some(layout_v(lm.layout)),
            scratch_intrinsics(m) == lm.intrinsics@.take(i as int).to_set(),
        decreases lm.intrinsics.len() - i,
    {
        proof {
            assert(lm.intrinsics@.take(i + 1) =~= lm.intrinsics@.take(i as int).push(lm.intrinsics@[i as int]));
            lm.intrinsics@.take(i as int).lemma_push_to_set_commute(lm.intrinsics@[i as int]);
        }
        module_add_intrinsic(&mut m, lm.intrinsics[i]);
        i = i + 1;
    }
    proof { assert(lm.intrinsics@.take(i as int) =~= lm.intrinsics@); }
    let mut j: usize = 0;
    while j < lm.functions.len()
        invariant
            j <= lm.functions.len(),
            scratch_functions(m) == functions_v(lm.functions@.take(j as int)),
            scratch_triple(m) == Some(lm.triple),
            scratch_layout(m) == Some(layout_v(lm.layout)),
            scratch_intrinsics(m) == lm.intrinsics@.to_set(),
        decreases lm.functions.len() - j,
    {
        module_add_function(&mut m, &lm.functions[j]);
        proof {
            assert(lm.functions@.take(j + 1) =~= lm.functions@.take(j as int).push(lm.functions@[j as int]));
            assert(functions_v(lm.functions@.take(j + 1)) =~= functions_v(lm.functions@.take(j as int)).push(
                function_v(lm.functions@[j as int]),
            ));
        }
        j = j + 1;
    }
    proof { assert(lm.functions@.take(lm.functions.len() as int) =~= lm.functions@); }
    m
}

} // verus!
