use vstd::prelude::*;

verus! {

/// A type of the LLVM intermediate representation.
#[derive(Debug, PartialEq, Eq)]
pub enum LlvmType {
    /// `iN`.
    Int(u32),
    /// `uN`.
    UInt(u32),
    Void,
    /// A pointer to the type inside.
    Pointer(Box<LlvmType>),
}

impl LlvmType {
    /// An equal copy.
    pub fn copy_type(&self) -> (r: LlvmType)
        ensures
            r == *self,
        decreases self,
    {
        match self {
            LlvmType::Int(b) => LlvmType::Int(*b),
            LlvmType::UInt(b) => LlvmType::UInt(*b),
            LlvmType::Void => LlvmType::Void,
            LlvmType::Pointer(inner) => LlvmType::Pointer(Box::new(inner.copy_type())),
        }
    }
}

/// A value: a numbered register or a constant.
#[derive(Debug, PartialEq, Eq)]
pub enum LlvmValue {
    /// `%N`.
    Register(usize),
    Integer(i128),
    UnsignedInt(u128),
}

/// A named, typed parameter of a function or an argument of a call.
#[derive(Debug, PartialEq, Eq)]
pub struct LlvmParam {
    pub name: String,
    pub ty: LlvmType,
}

/// A parameter with its name as characters.
pub struct ParamV {
    pub name: Seq<char>,
    pub ty: LlvmType,
}

pub open spec fn param_v(p: LlvmParam) -> ParamV {
    ParamV { name: p.name@, ty: p.ty }
}

pub open spec fn params_v(ps: Seq<LlvmParam>) -> Seq<ParamV> {
    ps.map_values(|p: LlvmParam| param_v(p))
}

/// An instruction of a basic block.
#[derive(Debug, PartialEq, Eq)]
pub enum LlvmInst {
    /// `%dst = alloca ty, align N`.
    Alloca { ty: LlvmType, align: u32, dst: usize },
    /// `[%dst =] call ret @callee(params)`.
    Call { ret: LlvmType, callee: String, params: Vec<LlvmParam>, dst: Option<usize> },
    /// `ret void`.
    RetVoid,
}

/// An instruction with its names as characters.
pub enum LInstV {
    Alloca(LlvmType, u32, usize),
    Call(LlvmType, Seq<char>, Seq<ParamV>, Option<usize>),
    RetVoid,
}

pub open spec fn inst_v(i: LlvmInst) -> LInstV {
    match i {
        LlvmInst::Alloca { ty, align, dst } => LInstV::Alloca(ty, align, dst),
        LlvmInst::Call { ret, callee, params, dst } => LInstV::Call(ret, callee@, params_v(params@), dst),
        LlvmInst::RetVoid => LInstV::RetVoid,
    }
}

pub open spec fn insts_v(s: Seq<LlvmInst>) -> Seq<LInstV> {
    s.map_values(|i: LlvmInst| inst_v(i))
}

/// A function definition: one entry block of instructions.
#[derive(Debug, PartialEq, Eq)]
pub struct LlvmFunction {
    pub name: String,
    pub ret: LlvmType,
    pub params: Vec<LlvmParam>,
    pub insts: Vec<LlvmInst>,
}

pub struct LFunctionV {
    pub name: Seq<char>,
    pub ret: LlvmType,
    pub params: Seq<ParamV>,
    pub insts: Seq<LInstV>,
}

pub open spec fn function_v(f: LlvmFunction) -> LFunctionV {
    LFunctionV { name: f.name@, ret: f.ret, params: params_v(f.params@), insts: insts_v(f.insts@) }
}

pub open spec fn functions_v(fs: Seq<LlvmFunction>) -> Seq<LFunctionV> {
    fs.map_values(|f: LlvmFunction| function_v(f))
}

/// An intrinsic function that a module declares.
#[derive(Debug, PartialEq, Eq, Clone, Copy, Structural)]
pub enum LlvmIntrinsic {
    /// `llvm.donothing`.
    DoNothing,
}

#[derive(Debug, PartialEq, Eq, Clone, Copy, Structural)]
pub enum TripleArch {
    X86_64,
}

#[derive(Debug, PartialEq, Eq, Clone, Copy, Structural)]
pub enum TripleVendor {
    Pc,
}

#[derive(Debug, PartialEq, Eq, Clone, Copy, Structural)]
pub enum TripleSys {
    Linux,
}

#[derive(Debug, PartialEq, Eq, Clone, Copy, Structural)]
pub enum TripleAbi {
    Gnu,
}

/// A target triple such as `x86_64-pc-linux-gnu`.
#[derive(Debug, PartialEq, Eq, Clone, Copy, Structural)]
pub struct TargetTriple {
    pub arch: TripleArch,
    pub vendor: TripleVendor,
    pub sys: TripleSys,
    pub abi: TripleAbi,
}

#[derive(Debug, PartialEq, Eq, Clone, Copy, Structural)]
pub enum Endianness {
    Little,
    Big,
}

/// How symbol names are mangled.
#[derive(Debug, PartialEq, Eq, Clone, Copy, Structural)]
pub enum NameMangling {
    Elf,
}

/// A floating-point size that an alignment is given for.
#[derive(Debug, PartialEq, Eq, Clone, Copy, Structural)]
pub enum FloatSize {
    LongDouble80,
}

/// A target data layout such as `e-m:e-i64:64-f80:128-n8:16:32:64`.
#[derive(Debug, PartialEq, Eq)]
pub struct DataLayout {
    pub endian: Endianness,
    pub mangling: NameMangling,
    /// An integer size and its ABI alignment, in bits.
    pub int_size: i32,
    pub int_abi: i32,
    /// A floating-point size and its ABI alignment, in bits.
    pub float_size: FloatSize,
    pub float_abi: i32,
    /// The native integer widths.
    pub native_widths: Vec<i32>,
}

/// A data layout with its native widths as a sequence.
pub struct DataLayoutV {
    pub endian: Endianness,
    pub mangling: NameMangling,
    pub int_size: i32,
    pub int_abi: i32,
    pub float_size: FloatSize,
    pub float_abi: i32,
    pub native_widths: Seq<i32>,
}

pub open spec fn layout_v(l: DataLayout) -> DataLayoutV {
    DataLayoutV {
        endian: l.endian,
        mangling: l.mangling,
        int_size: l.int_size,
        int_abi: l.int_abi,
        float_size: l.float_size,
        float_abi: l.float_abi,
        native_widths: l.native_widths@,
    }
}

/// A module: its target, the intrinsics it declares and its functions in order.
#[derive(Debug, PartialEq, Eq)]
pub struct LlvmModule {
    pub triple: TargetTriple,
    pub layout: DataLayout,
    pub intrinsics: Vec<LlvmIntrinsic>,
    pub functions: Vec<LlvmFunction>,
}

} // verus!
