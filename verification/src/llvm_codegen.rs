use vstd::prelude::*;

use crate::ast::{ExpressionNode, ExpressionNodeKind, StatementNode, StatementNodeKind};
use crate::ident::{strings_view, IdentName};
use crate::llvm_ir::{
    function_v, functions_v, inst_v, insts_v, param_v, params_v, DataLayout, Endianness, FloatSize, LFunctionV,
    LInstV, LlvmFunction, LlvmInst, LlvmIntrinsic, LlvmModule, LlvmParam, LlvmType, LlvmValue, NameMangling, ParamV,
    TargetTriple, TripleAbi, TripleArch, TripleSys, TripleVendor,
};
use crate::name_map::NameMap;
use crate::option::{BuildOption, Target};
use crate::pfunction::PFunction;
use crate::ptype::{PType, PTypeKind};
use crate::pvariable::PVariable;
use crate::text::str_to_string;

verus! {

/// Why no LLVM module could be made.
#[derive(Debug, PartialEq, Eq)]
pub enum LlvmCodegenError {
    /// A type that has no LLVM type here: an unresolved name, a struct or an invalid type.
    UnsupportedType,
    /// A call of a function that the program does not define (its name).
    UnknownFunction(String),
    /// An expression that this generator has no code for.
    UnsupportedExpression,
    /// A call with more arguments than the callee has parameters.
    TooManyArguments,
    /// An argument name that is no local variable of its function.
    UnknownArgument(String),
    /// The register counter ran out.
    LabelOverflow,
    /// A target machine that LLVM code is not made for here.
    UnsupportedTarget,
}

pub enum LlvmErrV {
    UnsupportedType,
    UnknownFunction(Seq<char>),
    UnsupportedExpression,
    TooManyArguments,
    UnknownArgument(Seq<char>),
    LabelOverflow,
    UnsupportedTarget,
}

pub open spec fn llvm_err_v(e: LlvmCodegenError) -> LlvmErrV {
    match e {
        LlvmCodegenError::UnsupportedType => LlvmErrV::UnsupportedType,
        LlvmCodegenError::UnknownFunction(n) => LlvmErrV::UnknownFunction(n@),
        LlvmCodegenError::UnsupportedExpression => LlvmErrV::UnsupportedExpression,
        LlvmCodegenError::TooManyArguments => LlvmErrV::TooManyArguments,
        LlvmCodegenError::UnknownArgument(n) => LlvmErrV::UnknownArgument(n@),
        LlvmCodegenError::LabelOverflow => LlvmErrV::LabelOverflow,
        LlvmCodegenError::UnsupportedTarget => LlvmErrV::UnsupportedTarget,
    }
}

/// The LLVM type of a type: `i64`, `u64`, `i8*` for a string, `void`, `i1`, and a
/// pointer to the LLVM type of what a pointer points to.
pub open spec fn llvm_type_s(t: PType) -> Option<LlvmType>
    decreases t,
{
    match t.kind {
        PTypeKind::INT64 => Some(LlvmType::Int(64)),
        PTypeKind::UINT64 => Some(LlvmType::UInt(64)),
        PTypeKind::CONSTSTR => Some(LlvmType::Pointer(Box::new(LlvmType::Int(8)))),
        PTypeKind::NORETURN => Some(LlvmType::Void),
        PTypeKind::BOOLEAN => Some(LlvmType::Int(1)),
        PTypeKind::POINTER(inner, _) => match llvm_type_s(*inner) {
            Some(i) => Some(LlvmType::Pointer(Box::new(i))),
            None => None,
        },
        _ => None,
    }
}

/// What an expression gives: the instructions that compute it, its value, its type and
/// the next free register number. Integer constants need no instruction; a call
/// computes its arguments in order, passes each as the callee's parameter of the same
/// position with the argument's type, and puts its result in the next register.
pub open spec fn gen_value_s(e: ExpressionNode, funcs: Map<Seq<char>, PFunction>, label: nat) -> Result<
    (Seq<LInstV>, LlvmValue, LlvmType, nat),
    LlvmErrV,
>
    decreases e,
{
    match e.kind {
        ExpressionNodeKind::INTEGER(v) => Ok((Seq::empty(), LlvmValue::Integer(v as i128), LlvmType::Int(64), label)),
        ExpressionNodeKind::UNSIGNEDINTEGER(v) => Ok(
            (Seq::empty(), LlvmValue::UnsignedInt(v as u128), LlvmType::Int(64), label),
        ),
        ExpressionNodeKind::CALL(id, args) => {
            let name = id.names().last();
            if !funcs.contains_key(name) {
                Err(LlvmErrV::UnknownFunction(name))
            } else {
                match llvm_type_s(funcs[name].return_type) {
                    None => Err(LlvmErrV::UnsupportedType),
                    Some(rt) => if args@.len() > funcs[name].args@.len() {
                        Err(LlvmErrV::TooManyArguments)
                    } else {
                        match gen_params_s(args@, strings_view(funcs[name].args@), funcs, label) {
                            Ok((c, ps, l)) => if l >= usize::MAX {
                                Err(LlvmErrV::LabelOverflow)
                            } else {
                                Ok((
                                    c.push(LInstV::Call(rt, name, ps, Some(l as usize))),
                                    LlvmValue::Register(l as usize),
                                    rt,
                                    l + 1,
                                ))
                            },
                            Err(x) => Err(x),
                        }
                    },
                }
            }
        },
        _ => Err(LlvmErrV::UnsupportedExpression),
    }
}

/// The arguments of a call, computed one after another; the k-th is passed under
/// `names[k]` with its own type.
pub open spec fn gen_params_s(
    args: Seq<ExpressionNode>,
    names: Seq<Seq<char>>,
    funcs: Map<Seq<char>, PFunction>,
    label: nat,
) -> Result<(Seq<LInstV>, Seq<ParamV>, nat), LlvmErrV>
    decreases args,
{
    if args.len() == 0 {
        Ok((Seq::empty(), Seq::empty(), label))
    } else {
        match gen_params_s(args.drop_last(), names, funcs, label) {
            Ok((c, ps, l)) => match gen_value_s(args.last(), funcs, l) {
                Ok((c2, _v, t, l2)) => Ok((c + c2, ps.push(ParamV { name: names[args.len() - 1], ty: t }), l2)),
                Err(x) => Err(x),
            },
            Err(x) => Err(x),
        }
    }
}

/// A statement: only an expression statement makes code.
pub open spec fn gen_stmt_s(st: StatementNode, funcs: Map<Seq<char>, PFunction>, label: nat) -> Result<
    (Seq<LInstV>, nat),
    LlvmErrV,
> {
    match st.kind {
        StatementNodeKind::EXPR(e) => match gen_value_s(e, funcs, label) {
            Ok((c, _v, _t, l)) => Ok((c, l)),
            Err(x) => Err(x),
        },
        _ => Ok((Seq::empty(), label)),
    }
}

/// Statements one after another.
pub open spec fn gen_stmts_s(sts: Seq<StatementNode>, funcs: Map<Seq<char>, PFunction>, label: nat) -> Result<
    (Seq<LInstV>, nat),
    LlvmErrV,
>
    decreases sts.len(),
{
    if sts.len() == 0 {
        Ok((Seq::empty(), label))
    } else {
        match gen_stmts_s(sts.drop_last(), funcs, label) {
            Ok((c, l)) => match gen_stmt_s(sts.last(), funcs, l) {
                Ok((c2, l2)) => Ok((c + c2, l2)),
                Err(x) => Err(x),
            },
            Err(x) => Err(x),
        }
    }
}

/// The parameters of a function and the stack slot made for each: the k-th argument
/// is a parameter of its local variable's type and gets an `alloca` of that type,
/// aligned to 8, into the next register.
pub open spec fn proto_args_s(args: Seq<Seq<char>>, locals: Map<Seq<char>, PVariable>, label: nat) -> Result<
    (Seq<ParamV>, Seq<LInstV>, nat),
    LlvmErrV,
>
    decreases args.len(),
{
    if args.len() == 0 {
        Ok((Seq::empty(), Seq::empty(), label))
    } else {
        match proto_args_s(args.drop_last(), locals, label) {
            Ok((ps, c, l)) => {
                let a = args.last();
                if !locals.contains_key(a) {
                    Err(LlvmErrV::UnknownArgument(a))
                } else {
                    match llvm_type_s(locals[a].ptype) {
                        None => Err(LlvmErrV::UnsupportedType),
                        Some(t) => if l >= usize::MAX {
                            Err(LlvmErrV::LabelOverflow)
                        } else {
                            Ok((ps.push(ParamV { name: a, ty: t }), c.push(LInstV::Alloca(t, 8, l as usize)), l + 1))
                        },
                    }
                }
            },
            Err(x) => Err(x),
        }
    }
}

/// The body of a function whose entry block would be empty: a call of
/// `llvm.donothing` and `ret void`.
pub open spec fn empty_body_s() -> Seq<LInstV> {
    seq![LInstV::Call(LlvmType::Void, "llvm.donothing"@, Seq::empty(), None), LInstV::RetVoid]
}

/// A function: its return type, its parameters with their slots, then its statements.
pub open spec fn gen_fn_s(f: PFunction, funcs: Map<Seq<char>, PFunction>, label: nat) -> Result<
    (LFunctionV, nat),
    LlvmErrV,
> {
    match llvm_type_s(f.return_type) {
        None => Err(LlvmErrV::UnsupportedType),
        Some(rt) => match proto_args_s(strings_view(f.args@), f.locals@, label) {
            Ok((ps, c, l)) => match gen_stmts_s(f.stmts@, funcs, l) {
                Ok((c2, l2)) => {
                    let body = c + c2;
                    Ok((
                        LFunctionV {
                            name: f.name@,
                            ret: rt,
                            params: ps,
                            insts: if body.len() == 0 { empty_body_s() } else { body },
                        },
                        l2,
                    ))
                },
                Err(x) => Err(x),
            },
            Err(x) => Err(x),
        },
    }
}

/// The first `n` functions, one after another; register numbers run on across functions.
pub open spec fn gen_fns_s(fs: Seq<PFunction>, funcs: Map<Seq<char>, PFunction>, n: int) -> Result<
    (Seq<LFunctionV>, nat),
    LlvmErrV,
>
    decreases n,
{
    if n <= 0 {
        Ok((Seq::empty(), 0))
    } else {
        match gen_fns_s(fs, funcs, n - 1) {
            Ok((done, l)) => match gen_fn_s(fs[n - 1], funcs, l) {
                Ok((f, l2)) => Ok((done.push(f), l2)),
                Err(x) => Err(x),
            },
            Err(x) => Err(x),
        }
    }
}


/// Builds the LLVM module function by function: the register counter, the current
/// function's parameters and entry block, and the module made so far.
pub struct Generator {
    pub module: LlvmModule,
    pub label: usize,
    pub params: Vec<LlvmParam>,
    pub insts: Vec<LlvmInst>,
}

/// `g1` has the instructions of `g0` followed by `c`, the register counter at `l`,
/// and the same module and parameters.
pub open spec fn appended(g0: Generator, g1: Generator, c: Seq<LInstV>, l: nat) -> bool {
    &&& insts_v(g1.insts@) == insts_v(g0.insts@) + c
    &&& g1.label == l
    &&& g1.module == g0.module
    &&& g1.params == g0.params
}

proof fn lemma_params_prefix_err(
    args: Seq<ExpressionNode>,
    names: Seq<Seq<char>>,
    funcs: Map<Seq<char>, PFunction>,
    label: nat,
    i: int,
)
    requires
        0 <= i <= args.len(),
        gen_params_s(args.take(i), names, funcs, label) is Err,
    ensures
        gen_params_s(args, names, funcs, label) == gen_params_s(args.take(i), names, funcs, label),
    decreases args.len() - i,
{
    if i < args.len() {
        assert(args.take(i + 1).drop_last() =~= args.take(i));
        lemma_params_prefix_err(args, names, funcs, label, i + 1);
    } else {
        assert(args.take(i) =~= args);
    }
}

proof fn lemma_stmts_prefix_err(sts: Seq<StatementNode>, funcs: Map<Seq<char>, PFunction>, label: nat, i: int)
    requires
        0 <= i <= sts.len(),
        gen_stmts_s(sts.take(i), funcs, label) is Err,
    ensures
        gen_stmts_s(sts, funcs, label) == gen_stmts_s(sts.take(i), funcs, label),
    decreases sts.len() - i,
{
    if i < sts.len() {
        assert(sts.take(i + 1).drop_last() =~= sts.take(i));
        lemma_stmts_prefix_err(sts, funcs, label, i + 1);
    } else {
        assert(sts.take(i) =~= sts);
    }
}

proof fn lemma_proto_prefix_err(args: Seq<Seq<char>>, locals: Map<Seq<char>, PVariable>, label: nat, i: int)
    requires
        0 <= i <= args.len(),
        proto_args_s(args.take(i), locals, label) is Err,
    ensures
        proto_args_s(args, locals, label) == proto_args_s(args.take(i), locals, label),
    decreases args.len() - i,
{
    if i < args.len() {
        assert(args.take(i + 1).drop_last() =~= args.take(i));
        lemma_proto_prefix_err(args, locals, label, i + 1);
    } else {
        assert(args.take(i) =~= args);
    }
}

proof fn lemma_fns_prefix_err(fs: Seq<PFunction>, funcs: Map<Seq<char>, PFunction>, i: int, n: int)
    requires
        0 <= i <= n,
        gen_fns_s(fs, funcs, i) is Err,
    ensures
        gen_fns_s(fs, funcs, n) == gen_fns_s(fs, funcs, i),
    decreases n - i,
{
    if i < n {
        lemma_fns_prefix_err(fs, funcs, i + 1, n);
    }
}

impl Generator {
    /// Appends an instruction to the entry block of the current function.
    pub fn insert_inst(&mut self, inst: LlvmInst)
        ensures
            insts_v(final(self).insts@) == insts_v(old(self).insts@).push(inst_v(inst)),
            final(self).label == old(self).label,
            final(self).module == old(self).module,
            final(self).params == old(self).params,
    {
        let ghost i = inst_v(inst);
        self.insts.push(inst);
        assert(insts_v(self.insts@) =~= insts_v(old(self).insts@).push(i));
    }

    /// Adds a parameter to the current function.
    pub fn insert_parameter(&mut self, param: LlvmParam)
        ensures
            params_v(final(self).params@) == params_v(old(self).params@).push(param_v(param)),
            final(self).label == old(self).label,
            final(self).module == old(self).module,
            final(self).insts == old(self).insts,
    {
        let ghost p = param_v(param);
        self.params.push(param);
        assert(params_v(self.params@) =~= params_v(old(self).params@).push(p));
    }

    /// Takes the next register number.
    pub fn consume_label(&mut self) -> (r: Result<usize, LlvmCodegenError>)
        ensures
            old(self).label < usize::MAX ==> r == Ok::<usize, LlvmCodegenError>(old(self).label) && final(self).label
                == old(self).label + 1,
            old(self).label == usize::MAX ==> r == Err::<usize, LlvmCodegenError>(LlvmCodegenError::LabelOverflow)
                && final(self).label == old(self).label,
            final(self).module == old(self).module,
            final(self).params == old(self).params,
            final(self).insts == old(self).insts,
    {
        if self.label == usize::MAX {
            return Err(LlvmCodegenError::LabelOverflow);
        }
        let l = self.label;
        self.label = self.label + 1;
        Ok(l)
    }

    /// The next register, as a value.
    pub fn consume_cur_register(&mut self) -> (r: Result<LlvmValue, LlvmCodegenError>)
        ensures
            old(self).label < usize::MAX ==> r == Ok::<LlvmValue, LlvmCodegenError>(
                LlvmValue::Register(old(self).label),
            ) && final(self).label == old(self).label + 1,
            old(self).label == usize::MAX ==> r == Err::<LlvmValue, LlvmCodegenError>(
                LlvmCodegenError::LabelOverflow,
            ) && final(self).label == old(self).label,
            final(self).module == old(self).module,
            final(self).params == old(self).params,
            final(self).insts == old(self).insts,
    {
        match self.consume_label() {
            Ok(l) => Ok(LlvmValue::Register(l)),
            Err(e) => Err(e),
        }
    }

    /// Sets the register counter.
    pub fn set_label(&mut self, l: usize)
        ensures
            final(self).label == l,
            final(self).module == old(self).module,
            final(self).params == old(self).params,
            final(self).insts == old(self).insts,
    {
        self.label = l;
    }

    /// Whether the current function's entry block has no instruction yet.
    pub fn entry_bb_is_empty(&self) -> (b: bool)
        ensures
            b == (self.insts@.len() == 0),
    {
        self.insts.len() == 0
    }

    /// The module made so far.
    pub fn give_module(self) -> (m: LlvmModule)
        ensures
            m == self.module,
    {
        self.module
    }

    /// Appends the code of an expression; gives its value and its type.
    pub fn gen_expression(&mut self, ex: &ExpressionNode, funcs: &NameMap<PFunction>) -> (r: Result<
        (LlvmValue, LlvmType),
        LlvmCodegenError,
    >)
        requires
            funcs.wf(),
        ensures
            match gen_value_s(*ex, funcs@, old(self).label as nat) {
                Ok((c, v, t, l)) => r == Ok::<(LlvmValue, LlvmType), LlvmCodegenError>((v, t)) && appended(
                    *old(self),
                    *final(self),
                    c,
                    l,
                ),
                Err(x) => r matches Err(y) && llvm_err_v(y) == x,
            },
        decreases ex, 1nat,
    {
        let ghost g0 = *self;
        match &ex.kind {
            ExpressionNodeKind::INTEGER(v) => {
                assert(insts_v(self.insts@) =~= insts_v(g0.insts@) + Seq::<LInstV>::empty());
                Ok((LlvmValue::Integer(*v as i128), LlvmType::Int(64)))
            },
            ExpressionNodeKind::UNSIGNEDINTEGER(v) => {
                assert(insts_v(self.insts@) =~= insts_v(g0.insts@) + Seq::<LInstV>::empty());
                Ok((LlvmValue::UnsignedInt(*v as u128), LlvmType::Int(64)))
            },
            ExpressionNodeKind::CALL(callee_ident, args) => {
                let callee_name = IdentName::last_name(callee_ident);
                let called_func = match funcs.get(callee_name.as_str()) {
                    Some(f) => f,
                    None => {
                        return Err(LlvmCodegenError::UnknownFunction(callee_name));
                    },
                };
                let callee_function_type = match self.get_llvm_type_from_ptype(&called_func.return_type) {
                    Ok(t) => t,
                    Err(e) => {
                        return Err(e);
                    },
                };
                if args.len() > called_func.args.len() {
                    return Err(LlvmCodegenError::TooManyArguments);
                }
                let params = match self.gen_params(args, &called_func.args, funcs) {
                    Ok(p) => p,
                    Err(e) => {
                        return Err(e);
                    },
                };
                let ghost g1 = *self;
                let ghost c = gen_params_s(args@, strings_view(called_func.args@), funcs@, g0.label as nat)->Ok_0.0;
                let dst = match self.consume_label() {
                    Ok(l) => l,
                    Err(e) => {
                        return Err(e);
                    },
                };
                let ret_ty = callee_function_type.copy_type();
                let ghost pv = params_v(params@);
                let call_inst = LlvmInst::Call { ret: ret_ty, callee: callee_name, params, dst: Some(dst) };
                self.insert_inst(call_inst);
                proof {
                    assert(insts_v(self.insts@) =~= insts_v(g0.insts@) + c.push(
                        LInstV::Call(callee_function_type, callee_ident.names().last(), pv, Some(dst)),
                    ));
                }
                Ok((LlvmValue::Register(dst), callee_function_type))
            },
            _ => Err(LlvmCodegenError::UnsupportedExpression),
        }
    }

    /// Appends the code of the arguments of a call, one after another; gives the
    /// parameters that pass them, the k-th under `names[k]`.
    pub fn gen_params(&mut self, args: &Vec<ExpressionNode>, names: &Vec<String>, funcs: &NameMap<PFunction>) -> (r:
        Result<Vec<LlvmParam>, LlvmCodegenError>)
        requires
            funcs.wf(),
            args.len() <= names.len(),
        ensures
            match gen_params_s(args@, strings_view(names@), funcs@, old(self).label as nat) {
                Ok((c, ps, l)) => r matches Ok(v) && params_v(v@) == ps && appended(*old(self), *final(self), c, l),
                Err(x) => r matches Err(y) && llvm_err_v(y) == x,
            },
        decreases args, 0nat,
    {
        let ghost g0 = *self;
        let ghost ns = strings_view(names@);
        let mut out: Vec<LlvmParam> = Vec::new();
        let mut i: usize = 0;
        proof {
            assert(args@.take(0) =~= Seq::<ExpressionNode>::empty());
            assert(insts_v(self.insts@) =~= insts_v(g0.insts@) + Seq::<LInstV>::empty());
            assert(params_v(out@) =~= Seq::<ParamV>::empty());
        }
        while i < args.len()
            invariant
                i <= args.len(),
                args.len() <= names.len(),
                funcs.wf(),
                ns == strings_view(names@),
                g0 == *old(self),
                gen_params_s(args@.take(i as int), ns, funcs@, g0.label as nat) matches Ok((c, ps, l)) && params_v(
                    out@,
                ) == ps && appended(g0, *self, c, l),
            decreases args.len() - i,
        {
            proof {
                assert(decreases_to!(args => args@[i as int]));
                assert(args@.take(i + 1).drop_last() =~= args@.take(i as int));
                assert(args@.take(i + 1).last() == args@[i as int]);
            }
            let ghost h = *self;
            let ghost c = gen_params_s(args@.take(i as int), ns, funcs@, g0.label as nat)->Ok_0.0;
            let ghost ps = gen_params_s(args@.take(i as int), ns, funcs@, g0.label as nat)->Ok_0.1;
            let r = self.gen_expression(&args[i], funcs);
            match r {
                Err(e) => {
                    proof {
                        assert(gen_params_s(args@.take(i + 1), ns, funcs@, g0.label as nat) == Err::<
                            (Seq<LInstV>, Seq<ParamV>, nat),
                            LlvmErrV,
                        >(llvm_err_v(e)));
                        lemma_params_prefix_err(args@, ns, funcs@, g0.label as nat, i + 1);
                    }
                    return Err(e);
                },
                Ok((_v, t)) => {
                    let ghost c2 = gen_value_s(args@[i as int], funcs@, h.label as nat)->Ok_0.0;
                    let name = str_to_string(names[i].as_str());
                    let ghost p = LlvmParam { name, ty: t };
                    out.push(LlvmParam { name, ty: t });
                    proof {
                        assert(ns[i as int] == names@[i as int]@);
                        assert(params_v(out@) =~= ps.push(ParamV { name: ns[(i + 1) - 1], ty: t }));
                        assert(insts_v(self.insts@) =~= insts_v(g0.insts@) + (c + c2));
                    }
                },
            }
            i = i + 1;
        }
        proof { assert(args@.take(args.len() as int) =~= args@); }
        Ok(out)
    }

    /// Appends the code of a statement; only an expression statement makes code.
    pub fn gen_statement(&mut self, st: &StatementNode, funcs: &NameMap<PFunction>) -> (r: Result<
        (),
        LlvmCodegenError,
    >)
        requires
            funcs.wf(),
        ensures
            match gen_stmt_s(*st, funcs@, old(self).label as nat) {
                Ok((c, l)) => r is Ok && appended(*old(self), *final(self), c, l),
                Err(x) => r matches Err(y) && llvm_err_v(y) == x,
            },
    {
        match &st.kind {
            StatementNodeKind::EXPR(expr) => match self.gen_expression(expr, funcs) {
                Ok(_) => Ok(()),
                Err(e) => Err(e),
            },
            _ => {
                assert(insts_v(self.insts@) =~= insts_v(old(self).insts@) + Seq::<LInstV>::empty());
                Ok(())
            },
        }
    }

    /// Appends the code of statements one after another.
    pub fn gen_statements(&mut self, sts: &Vec<StatementNode>, funcs: &NameMap<PFunction>) -> (r: Result<
        (),
        LlvmCodegenError,
    >)
        requires
            funcs.wf(),
        ensures
            match gen_stmts_s(sts@, funcs@, old(self).label as nat) {
                Ok((c, l)) => r is Ok && appended(*old(self), *final(self), c, l),
                Err(x) => r matches Err(y) && llvm_err_v(y) == x,
            },
    {
        let ghost g0 = *self;
        let mut i: usize = 0;
        proof {
            assert(sts@.take(0) =~= Seq::<StatementNode>::empty());
            assert(insts_v(self.insts@) =~= insts_v(g0.insts@) + Seq::<LInstV>::empty());
        }
        while i < sts.len()
            invariant
                i <= sts.len(),
                funcs.wf(),
                g0 == *old(self),
                gen_stmts_s(sts@.take(i as int), funcs@, g0.label as nat) matches Ok((c, l)) && appended(
                    g0,
                    *self,
                    c,
                    l,
                ),
            decreases sts.len() - i,
        {
            proof {
                assert(sts@.take(i + 1).drop_last() =~= sts@.take(i as int));
                assert(sts@.take(i + 1).last() == sts@[i as int]);
            }
            let ghost h = *self;
            let ghost c = gen_stmts_s(sts@.take(i as int), funcs@, g0.label as nat)->Ok_0.0;
            match self.gen_statement(&sts[i], funcs) {
                Err(e) => {
                    proof {
                        assert(gen_stmts_s(sts@.take(i + 1), funcs@, g0.label as nat) == Err::<
                            (Seq<LInstV>, nat),
                            LlvmErrV,
                        >(llvm_err_v(e)));
                        lemma_stmts_prefix_err(sts@, funcs@, g0.label as nat, i + 1);
                    }
                    return Err(e);
                },
                Ok(()) => {
                    proof {
                        let c2 = gen_stmt_s(sts@[i as int], funcs@, h.label as nat)->Ok_0.0;
                        assert(insts_v(self.insts@) =~= insts_v(g0.insts@) + (c + c2));
                    }
                },
            }
            i = i + 1;
        }
        proof { assert(sts@.take(sts.len() as int) =~= sts@); }
        Ok(())
    }

    /// The stack slot of an argument: an `alloca` of its type, aligned to 8, into the
    /// next register.
    pub fn gen_arg_allocate(&mut self, arg_var: &PVariable) -> (r: Result<LlvmInst, LlvmCodegenError>)
        ensures
            match llvm_type_s(arg_var.ptype) {
                None => r == Err::<LlvmInst, LlvmCodegenError>(LlvmCodegenError::UnsupportedType),
                Some(t) => if old(self).label == usize::MAX {
                    r == Err::<LlvmInst, LlvmCodegenError>(LlvmCodegenError::LabelOverflow)
                } else {
                    r == Ok::<LlvmInst, LlvmCodegenError>(LlvmInst::Alloca { ty: t, align: 8, dst: old(self).label })
                        && final(self).label == old(self).label + 1
                },
            },
            final(self).module == old(self).module,
            final(self).params == old(self).params,
            final(self).insts == old(self).insts,
    {
        let llvm_ty = match self.get_llvm_type_from_ptype(&arg_var.ptype) {
            Ok(t) => t,
            Err(e) => {
                return Err(e);
            },
        };
        let alignment: u32 = 8;
        match self.consume_label() {
            Ok(arg_reg) => Ok(LlvmInst::Alloca { ty: llvm_ty, align: alignment, dst: arg_reg }),
            Err(e) => Err(e),
        }
    }

    /// Starts a function: gives its LLVM return type, and adds each argument as a
    /// parameter with a stack slot.
    pub fn gen_func_prototype(&mut self, func: &PFunction) -> (r: Result<LlvmType, LlvmCodegenError>)
        requires
            func.wf(),
        ensures
            match llvm_type_s(func.return_type) {
                None => r == Err::<LlvmType, LlvmCodegenError>(LlvmCodegenError::UnsupportedType),
                Some(rt) => match proto_args_s(strings_view(func.args@), func.locals@, old(self).label as nat) {
                    Ok((ps, c, l)) => r == Ok::<LlvmType, LlvmCodegenError>(rt) && params_v(final(self).params@)
                        == params_v(old(self).params@) + ps && insts_v(final(self).insts@) == insts_v(
                        old(self).insts@,
                    ) + c && final(self).label == l && final(self).module == old(self).module,
                    Err(x) => r matches Err(y) && llvm_err_v(y) == x,
                },
            },
    {
        let ghost g0 = *self;
        let ghost args = strings_view(func.args@);
        let func_ret_type = match self.get_llvm_type_from_ptype(&func.return_type) {
            Ok(t) => t,
            Err(e) => {
                return Err(e);
            },
        };
        let mut i: usize = 0;
        proof {
            assert(args.take(0) =~= Seq::<Seq<char>>::empty());
            assert(insts_v(self.insts@) =~= insts_v(g0.insts@) + Seq::<LInstV>::empty());
            assert(params_v(self.params@) =~= params_v(g0.params@) + Seq::<ParamV>::empty());
        }
        while i < func.args.len()
            invariant
                i <= func.args.len(),
                func.wf(),
                g0 == *old(self),
                args == strings_view(func.args@),
                llvm_type_s(func.return_type) == Some(func_ret_type),
                proto_args_s(args.take(i as int), func.locals@, g0.label as nat) matches Ok((ps, c, l)) && params_v(
                    self.params@,
                ) == params_v(g0.params@) + ps && insts_v(self.insts@) == insts_v(g0.insts@) + c && self.label == l
                    && self.module == g0.module,
            decreases func.args.len() - i,
        {
            proof {
                assert(args.take(i + 1).drop_last() =~= args.take(i as int));
                assert(args.take(i + 1).last() == func.args@[i as int]@);
            }
            let ghost h = *self;
            let ghost ps = proto_args_s(args.take(i as int), func.locals@, g0.label as nat)->Ok_0.0;
            let ghost c = proto_args_s(args.take(i as int), func.locals@, g0.label as nat)->Ok_0.1;
            let arg_name = &func.args[i];
            let arg_var = match func.locals.get(arg_name.as_str()) {
                Some(v) => v,
                None => {
                    proof {
                        assert(proto_args_s(args.take(i + 1), func.locals@, g0.label as nat) == Err::<
                            (Seq<ParamV>, Seq<LInstV>, nat),
                            LlvmErrV,
                        >(LlvmErrV::UnknownArgument(arg_name@)));
                        lemma_proto_prefix_err(args, func.locals@, g0.label as nat, i + 1);
                    }
                    return Err(LlvmCodegenError::UnknownArgument(str_to_string(arg_name.as_str())));
                },
            };
            let arg_type = match self.get_llvm_type_from_ptype(&arg_var.ptype) {
                Ok(t) => t,
                Err(e) => {
                    proof {
                        lemma_proto_prefix_err(args, func.locals@, g0.label as nat, i + 1);
                    }
                    return Err(e);
                },
            };
            let ghost t = arg_type;
            let param = LlvmParam { name: str_to_string(arg_name.as_str()), ty: arg_type };
            self.insert_parameter(param);
            let alloc_inst = match self.gen_arg_allocate(arg_var) {
                Ok(inst) => inst,
                Err(e) => {
                    proof {
                        assert(h.label == usize::MAX);
                        assert(proto_args_s(args.take(i + 1), func.locals@, g0.label as nat) == Err::<
                            (Seq<ParamV>, Seq<LInstV>, nat),
                            LlvmErrV,
                        >(LlvmErrV::LabelOverflow));
                        lemma_proto_prefix_err(args, func.locals@, g0.label as nat, i + 1);
                    }
                    return Err(e);
                },
            };
            self.insert_inst(alloc_inst);
            proof {
                assert(params_v(self.params@) =~= params_v(g0.params@) + ps.push(ParamV { name: args[i as int], ty: t }));
                assert(insts_v(self.insts@) =~= insts_v(g0.insts@) + c.push(LInstV::Alloca(t, 8, h.label)));
            }
            i = i + 1;
        }
        proof { assert(args.take(func.args.len() as int) =~= args); }
        Ok(func_ret_type)
    }

    /// Makes the LLVM function of a function and adds it to the module. An entry block
    /// that stays empty gets a call of `llvm.donothing` and `ret void`.
    pub fn gen_fn(&mut self, func: &PFunction, funcs: &NameMap<PFunction>) -> (r: Result<(), LlvmCodegenError>)
        requires
            funcs.wf(),
            func.wf(),
            old(self).insts@.len() == 0,
            old(self).params@.len() == 0,
        ensures
            match gen_fn_s(*func, funcs@, old(self).label as nat) {
                Ok((fv, l)) => {
                    &&& r is Ok
                    &&& final(self).label == l
                    &&& functions_v(final(self).module.functions@) == functions_v(old(self).module.functions@).push(fv)
                    &&& final(self).module.triple == old(self).module.triple
                    &&& final(self).module.layout == old(self).module.layout
                    &&& final(self).module.intrinsics == old(self).module.intrinsics
                    &&& final(self).insts@.len() == 0
                    &&& final(self).params@.len() == 0
                },
                Err(x) => r matches Err(y) && llvm_err_v(y) == x,
            },
    {
        let ghost g0 = *self;
        let ret = match self.gen_func_prototype(func) {
            Ok(t) => t,
            Err(e) => {
                return Err(e);
            },
        };
        let ghost g1 = *self;
        match self.gen_statements(&func.stmts, funcs) {
            Ok(()) => {},
            Err(e) => {
                return Err(e);
            },
        }
        let ghost g2 = *self;
        if self.entry_bb_is_empty() {
            let no_params: Vec<LlvmParam> = Vec::new();
            assert(params_v(no_params@) =~= Seq::<ParamV>::empty());
            let donothing_call = LlvmInst::Call {
                ret: LlvmType::Void,
                callee: str_to_string("llvm.donothing"),
                params: no_params,
                dst: None,
            };
            self.insert_inst(donothing_call);
            self.insert_inst(LlvmInst::RetVoid);
            proof {
                assert(insts_v(self.insts@) =~= empty_body_s());
            }
        }
        proof {
            let (ps, c, l) = proto_args_s(strings_view(func.args@), func.locals@, g0.label as nat)->Ok_0;
            let c2 = gen_stmts_s(func.stmts@, funcs@, l)->Ok_0.0;
            assert(insts_v(g0.insts@) =~= Seq::<LInstV>::empty());
            assert(params_v(g0.params@) =~= Seq::<ParamV>::empty());
            assert(params_v(self.params@) =~= ps);
            if (c + c2).len() != 0 {
                assert(insts_v(self.insts@) =~= c + c2);
            }
        }
        let mut params: Vec<LlvmParam> = Vec::new();
        std::mem::swap(&mut params, &mut self.params);
        let mut insts: Vec<LlvmInst> = Vec::new();
        std::mem::swap(&mut insts, &mut self.insts);
        let f = LlvmFunction { name: str_to_string(func.name.as_str()), ret, params, insts };
        let ghost fv = function_v(f);
        self.module.functions.push(f);
        proof {
            assert(functions_v(self.module.functions@) =~= functions_v(g0.module.functions@).push(fv));
        }
        Ok(())
    }

    /// The LLVM type of a type.
    pub fn get_llvm_type_from_ptype(&self, ty: &PType) -> (r: Result<LlvmType, LlvmCodegenError>)
        ensures
            match llvm_type_s(*ty) {
                Some(t) => r == Ok::<LlvmType, LlvmCodegenError>(t),
                None => r == Err::<LlvmType, LlvmCodegenError>(LlvmCodegenError::UnsupportedType),
            },
        decreases ty,
    {
        match &ty.kind {
            PTypeKind::INT64 => Ok(LlvmType::Int(64)),
            PTypeKind::UINT64 => Ok(LlvmType::UInt(64)),
            PTypeKind::CONSTSTR => Ok(LlvmType::Pointer(Box::new(LlvmType::Int(8)))),
            PTypeKind::NORETURN => Ok(LlvmType::Void),
            PTypeKind::BOOLEAN => Ok(LlvmType::Int(1)),
            PTypeKind::POINTER(inner, _) => match self.get_llvm_type_from_ptype(inner) {
                Ok(i) => Ok(LlvmType::Pointer(Box::new(i))),
                Err(e) => Err(e),
            },
            _ => Err(LlvmCodegenError::UnsupportedType),
        }
    }
}

/// The target triple of x86-64 Linux.
pub open spec fn x86_64_triple() -> TargetTriple {
    TargetTriple { arch: TripleArch::X86_64, vendor: TripleVendor::Pc, sys: TripleSys::Linux, abi: TripleAbi::Gnu }
}

/// The data layout of x86-64 Linux: little endian, ELF mangling, `i64:64`, `f80:128`
/// and native widths 8, 16, 32 and 64.
pub open spec fn x86_64_layout(d: DataLayout) -> bool {
    &&& d.endian == Endianness::Little
    &&& d.mangling == NameMangling::Elf
    &&& d.int_size == 64 && d.int_abi == 64
    &&& d.float_size == FloatSize::LongDouble80 && d.float_abi == 128
    &&& d.native_widths@ == seq![8i32, 16i32, 32i32, 64i32]
}

/// An empty module for the target of the build options; LLVM code is made for x86-64 only.
pub fn create_module(build_option: &BuildOption) -> (r: Result<LlvmModule, LlvmCodegenError>)
    ensures
        match build_option.target {
            Target::X86_64 => r matches Ok(m) && m.triple == x86_64_triple() && x86_64_layout(m.layout)
                && m.intrinsics@.len() == 0 && m.functions@.len() == 0,
            Target::AArch64 => r == Err::<LlvmModule, LlvmCodegenError>(LlvmCodegenError::UnsupportedTarget),
        },
{
    match build_option.target {
        Target::X86_64 => {
            let triple = TargetTriple {
                arch: TripleArch::X86_64,
                vendor: TripleVendor::Pc,
                sys: TripleSys::Linux,
                abi: TripleAbi::Gnu,
            };
            let layout = DataLayout {
                endian: Endianness::Little,
                mangling: NameMangling::Elf,
                int_size: 64,
                int_abi: 64,
                float_size: FloatSize::LongDouble80,
                float_abi: 128,
                native_widths: vec![8, 16, 32, 64],
            };
            assert(layout.native_widths@ =~= seq![8i32, 16i32, 32i32, 64i32]);
            Ok(LlvmModule { triple, layout, intrinsics: Vec::new(), functions: Vec::new() })
        },
        Target::AArch64 => Err(LlvmCodegenError::UnsupportedTarget),
    }
}

impl Generator {
    /// Declares an intrinsic in the module.
    pub fn add_intrinsic(&mut self, i: LlvmIntrinsic)
        ensures
            final(self).module.intrinsics@ == old(self).module.intrinsics@.push(i),
            final(self).module.functions == old(self).module.functions,
            final(self).module.triple == old(self).module.triple,
            final(self).module.layout == old(self).module.layout,
            final(self).label == old(self).label,
            final(self).params == old(self).params,
            final(self).insts == old(self).insts,
    {
        self.module.intrinsics.push(i);
    }
}

/// The LLVM module of a program's functions, taken in name order: for x86-64, with
/// `llvm.donothing` declared and one LLVM function per function as `gen_fns_s` gives
/// it; the first error otherwise.
pub fn codegen(build_option: &BuildOption, functions: &NameMap<PFunction>) -> (r: Result<
    LlvmModule,
    LlvmCodegenError,
>)
    requires
        functions.wf(),
        crate::root::functions_wf(functions@),
    ensures
        match build_option.target {
            Target::AArch64 => r == Err::<LlvmModule, LlvmCodegenError>(LlvmCodegenError::UnsupportedTarget),
            Target::X86_64 => match gen_fns_s(functions.values(), functions@, functions.names().len() as int) {
                Ok((fv, _l)) => r matches Ok(m) && functions_v(m.functions@) == fv && m.triple == x86_64_triple()
                    && x86_64_layout(m.layout) && m.intrinsics@ == seq![LlvmIntrinsic::DoNothing],
                Err(x) => r matches Err(y) && llvm_err_v(y) == x,
            },
        },
{
    let m = match create_module(build_option) {
        Ok(m) => m,
        Err(e) => {
            return Err(e);
        },
    };
    let mut generator = Generator { module: m, label: 0, params: Vec::new(), insts: Vec::new() };
    generator.add_intrinsic(LlvmIntrinsic::DoNothing);
    proof {
        functions.lemma_values_len();
        functions.lemma_names_cover();
        assert(functions_v(generator.module.functions@) =~= Seq::<LFunctionV>::empty());
        assert(generator.module.intrinsics@ =~= seq![LlvmIntrinsic::DoNothing]);
    }
    let ghost fs = functions.values();
    let n = functions.len();
    let mut i: usize = 0;
    while i < n
        invariant
            i <= n,
            n == functions.names().len(),
            fs == functions.values(),
            fs.len() == n,
            functions.wf(),
            crate::root::functions_wf(functions@),
            build_option.target == Target::X86_64,
            generator.module.triple == x86_64_triple(),
            x86_64_layout(generator.module.layout),
            generator.module.intrinsics@ == seq![LlvmIntrinsic::DoNothing],
            generator.insts@.len() == 0,
            generator.params@.len() == 0,
            gen_fns_s(fs, functions@, i as int) matches Ok((done, l)) && functions_v(generator.module.functions@)
                == done && generator.label == l,
        decreases n - i,
    {
        let (_name, func) = functions.entry_at(i);
        proof {
            assert(functions@.contains_key(functions.names()[i as int]));
        }
        match generator.gen_fn(func, functions) {
            Ok(()) => {},
            Err(e) => {
                proof {
                    lemma_fns_prefix_err(fs, functions@, i + 1, n as int);
                }
                return Err(e);
            },
        }
        i = i + 1;
    }
    Ok(generator.give_module())
}

} // verus!
