use vstd::prelude::*;

use crate::alloc_frame::frame_offset;
use crate::codegen::{codegen, codegen_s, gen_err_v, strings_of, sym_strings_v, CodegenError};
use crate::error::CompileError;
use crate::lexer::{errors_match, tokenize, tokens_view, MAX_PROGRAM_CHARS};
use crate::lexer_spec::spec_lex;
use crate::llvm_codegen::LlvmCodegenError;
use crate::name_map::NameMap;
use crate::option::BuildOption;
use crate::parse_module::{parse_phase, ParseFailure};
use crate::pfunction::PFunction;
use crate::pvariable::PVarKind;
use crate::position::Position;
use crate::ptype::PType;
use crate::resolve_tld::{resolve_tld_phase, TldError};
use crate::resolve_types::{resolve_unknown_type_phase, UnresolvedType};
use crate::root::{functions_wf, ASTRoot};
use crate::type_check::{program_outcome, type_check_program, OutcomeV, TypeCheckOutcome};
use crate::module_spec::{funcs_v, sp_module, types_v, MS};
use crate::parse_spec::abort_v;
use crate::resolve_tld::{decls_v, module_tld, tld_err_v};
use crate::resolve_types::{local_resolves, resolved_local_type};
use crate::tld::{tld_wf, TopLevelDecl};
use crate::token::Token;
use crate::x64::{insts_v, AssemblyFile};

verus! {

/// A source file: its path and its text.
pub struct SourceFile {
    pub path: String,
    pub contents: String,
}

/// Why a program could not be compiled: the phase that failed and what it found.
#[derive(Debug, PartialEq, Eq)]
pub enum CompileFailure {
    /// The text of this file is longer than the lexer takes.
    TooLarge { path: String },
    /// The errors found while making the tokens of this file.
    Tokenize { path: String, errors: Vec<CompileError> },
    /// Why this file could not be parsed.
    Parse { path: String, failure: ParseFailure },
    Tld(TldError),
    Unresolved(UnresolvedType),
    /// What the type checker found, where it was not a success.
    TypeCheck(TypeCheckOutcome),
    /// A function's frame does not fit in the address space.
    FrameTooLarge,
    Codegen(CodegenError),
    /// Why no LLVM module could be made.
    Llvm(LlvmCodegenError),
}

/// A front-end result that agrees with the parse state `m` of the file `path`:
/// the module where the parse went through without errors, else the errors found
/// or why the parse stopped.
pub open spec fn parse_rel(r: Result<ASTRoot, CompileFailure>, m: MS, path: Seq<char>) -> bool {
    match r {
        Ok(root) => {
            &&& m.s.aborted is None
            &&& m.s.errs.len() == 0
            &&& funcs_v(root.func_map@) == m.funcs
            &&& types_v(root.type_map@) == m.types
        },
        Err(CompileFailure::Parse { path: p, failure: ParseFailure::Errors(es) }) => {
            &&& p@ == path
            &&& m.s.aborted is None
            &&& es@ == m.s.errs
            &&& es@.len() > 0
        },
        Err(CompileFailure::Parse { path: p, failure: ParseFailure::Aborted(why) }) => p@ == path && m.s.aborted == Some(
            abort_v(why),
        ),
        _ => false,
    }
}

/// What the front end gives for one file: too long, the lexer's errors, or what
/// the parse of its tokens gives.
pub open spec fn file_rel(file: SourceFile, id: usize, r: Result<ASTRoot, CompileFailure>) -> bool {
    &&& r matches Ok(root) ==> root.wf()
    &&& if file.contents@.len() > MAX_PROGRAM_CHARS {
        r matches Err(CompileFailure::TooLarge { path }) && path@ == file.path@
    } else {
        match spec_lex(file.contents@, 1, 1).too_large {
            Some(_) => r matches Err(CompileFailure::Tokenize { path, errors }) && path@ == file.path@ && errors_match(
                errors@,
                spec_lex(file.contents@, 1, 1).too_large,
            ),
            None => exists|t: Seq<Token>|
                tokens_view(t) == spec_lex(file.contents@, 1, 1).tokens && #[trigger] parse_rel(
                    r,
                    sp_module(t, file.path@, id),
                    file.path@,
                ),
        }
    }
}

/// Tokenizes and parses one file.
pub fn front_file(build_option: &BuildOption, file: &SourceFile, module_id: usize) -> (r: Result<ASTRoot, CompileFailure>)
    ensures
        file_rel(*file, module_id, r),
{
    if crate::text::collect_chars(file.contents.as_str()).len() > MAX_PROGRAM_CHARS {
        return Err(CompileFailure::TooLarge { path: file.path.clone() });
    }
    let (tokens, errors) = tokenize(build_option, file.contents.clone());
    if errors.len() > 0 {
        return Err(CompileFailure::Tokenize { path: file.path.clone(), errors });
    }
    let ghost t = tokens@;
    let r = match parse_phase(build_option, file.path.as_str(), module_id, tokens) {
        Ok(root) => Ok(root),
        Err(failure) => Err(CompileFailure::Parse { path: file.path.clone(), failure }),
    };
    proof {
        assert(parse_rel(r, sp_module(t, file.path@, module_id), file.path@));
    }
    r
}

/// The module id of the `i`-th file after the main one.
pub open spec fn module_id_of(i: int) -> usize {
    if i < usize::MAX { (i + 1) as usize } else { i as usize }
}

/// Reading the `n`-th file after the main one: a failure so far stays, else the
/// file's failure, else its module put together with the ones before it (a later
/// function or alias replacing one of the same name).
pub open spec fn merge_step(
    ext: Seq<SourceFile>,
    n: int,
    r0: Result<ASTRoot, CompileFailure>,
    r1: Result<ASTRoot, CompileFailure>,
    r: Result<ASTRoot, CompileFailure>,
) -> bool {
    match r0 {
        Err(e) => r == Err::<ASTRoot, CompileFailure>(e),
        Ok(root0) => file_rel(ext[n], module_id_of(n), r1) && match r1 {
            Err(e) => r == Err::<ASTRoot, CompileFailure>(e),
            Ok(root1) => r matches Ok(root) && root.wf() && root.func_map@ == root0.func_map@.union_prefer_right(
                root1.func_map@,
            ) && root.type_map@ == root0.type_map@.union_prefer_right(root1.type_map@),
        },
    }
}

/// `rs[k]` is the front end's result after the main file and the first `k` others,
/// and `fs[k]` what the `k`-th other file gives where it is read.
pub open spec fn files_trace(
    main: SourceFile,
    ext: Seq<SourceFile>,
    rs: Seq<Result<ASTRoot, CompileFailure>>,
    fs: Seq<Result<ASTRoot, CompileFailure>>,
) -> bool {
    &&& rs.len() == ext.len() + 1
    &&& fs.len() == ext.len()
    &&& file_rel(main, 0, rs[0])
    &&& forall|k: int| 0 <= k < ext.len() ==> #[trigger] merge_step(ext, k, rs[k], fs[k], rs[k + 1])
}

/// `fm` is `fm0` with the named types of the local variables resolved through `tld`.
pub open spec fn resolved(fm0: NameMap<PFunction>, fm: NameMap<PFunction>, tld: Map<Seq<char>, TopLevelDecl>) -> bool {
    &&& fm.wf()
    &&& functions_wf(fm@)
    &&& fm.names() == fm0.names()
    &&& fm.values().len() == fm0.values().len()
    &&& forall|i: int| 0 <= i < fm0.values().len() ==> {
        &&& (#[trigger] fm.values()[i]).locals.names() == fm0.values()[i].locals.names()
        &&& fm.values()[i].name == fm0.values()[i].name
        &&& fm.values()[i].stmts == fm0.values()[i].stmts
        &&& forall|j: int| 0 <= j < fm0.values()[i].locals.values().len() ==> (
            #[trigger] fm.values()[i].locals.values()[j]).ptype@ == resolved_local_type(
            fm0.values()[i].locals.values()[j],
            tld,
        )
    }
}

/// Every local variable of `fm` has a type that `tld` resolves.
pub open spec fn locals_resolve(fm: NameMap<PFunction>, tld: Map<Seq<char>, TopLevelDecl>) -> bool {
    forall|i: int, j: int| 0 <= i < fm.values().len() && 0 <= j < fm.values()[i].locals.values().len()
        ==> local_resolves(#[trigger] fm.values()[i].locals.values()[j], tld)
}

/// The checks on a put-together module: its declarations collected, the types of
/// the local variables resolved, then every function type-checked.
pub open spec fn checked_rel(root: ASTRoot, r: Result<ASTRoot, CompileFailure>) -> bool {
    match module_tld(root) {
        Err(e) => r matches Err(CompileFailure::Tld(x)) && tld_err_v(x) == e,
        Ok(decls) => exists|t: NameMap<TopLevelDecl>|
            #[trigger] decls_v(t@) == decls && t.wf() && tld_wf(t@) && if !locals_resolve(root.func_map, t@) {
                r matches Err(CompileFailure::Unresolved(_))
            } else {
                exists|fm: NameMap<PFunction>|
                    #[trigger] resolved(root.func_map, fm, t@) && match program_outcome(fm.names(), fm.values(), t@, 0, false) {
                        OutcomeV::Checked => r matches Ok(root2) && root2.func_map == fm && root2.type_map == root.type_map,
                        o => r matches Err(CompileFailure::TypeCheck(x)) && x@ == o,
                    }
            },
    }
}

/// What the front end gives for a program: the first file that fails, else the
/// checks on all its files put together.
pub open spec fn frontend_rel(main: SourceFile, ext: Seq<SourceFile>, r: Result<ASTRoot, CompileFailure>) -> bool {
    exists|rs: Seq<Result<ASTRoot, CompileFailure>>, fs: Seq<Result<ASTRoot, CompileFailure>>|
        #[trigger] files_trace(main, ext, rs, fs) && match rs.last() {
            Err(e) => r == Err::<ASTRoot, CompileFailure>(e),
            Ok(root) => checked_rel(root, r),
        }
}

/// The front end of a program: the main file and then every other file parsed and
/// put together (a later function or alias replacing one of the same name), the
/// declarations collected, the named types of the local variables resolved, and
/// every function type-checked.
pub fn proc_frontend(build_option: &BuildOption, main_file: &SourceFile, externals: &Vec<SourceFile>) -> (r: Result<
    ASTRoot,
    CompileFailure,
>)
    ensures
        frontend_rel(*main_file, externals@, r),
        r matches Ok(root) ==> {
            &&& root.wf()
            &&& root.func_map@.contains_key("main"@)
            &&& root.func_map@["main"@].args@.len() == 0
            &&& root.func_map@["main"@].return_type.kind is NORETURN
        },
{
    let ghost main = *main_file;
    let ghost ext = externals@;
    let first = front_file(build_option, main_file, 0);
    let ghost mut rs: Seq<Result<ASTRoot, CompileFailure>> = seq![first];
    let ghost mut fs: Seq<Result<ASTRoot, CompileFailure>> = Seq::empty();
    let mut root = match first {
        Ok(r) => r,
        Err(e) => {
            proof { lemma_trace_fail(main, ext, rs, fs, e); }
            return Err(e);
        },
    };
    let mut i: usize = 0;
    while i < externals.len()
        invariant
            i <= externals.len(),
            main == *main_file,
            ext == externals@,
            root.wf(),
            rs.len() == i + 1,
            fs.len() == i,
            file_rel(main, 0, rs[0]),
            forall|k: int| 0 <= k < i ==> #[trigger] merge_step(ext, k, rs[k], fs[k], rs[k + 1]),
            rs[i as int] == Ok::<ASTRoot, CompileFailure>(root),
        decreases externals.len() - i,
    {
        let module_id: usize = if i < usize::MAX { i + 1 } else { i };
        let ghost root0 = root;
        let req = front_file(build_option, &externals[i], module_id);
        proof { assert(file_rel(ext[i as int], module_id_of(i as int), req)); }
        let req_root = match req {
            Ok(r) => r,
            Err(e) => {
                proof {
                    let rs2 = rs.push(Err(e));
                    let fs2 = fs.push(req);
                    assert(merge_step(ext, i as int, rs2[i as int], fs2[i as int], rs2[i + 1]));
                    assert forall|k: int| 0 <= k < i + 1 implies #[trigger] merge_step(ext, k, rs2[k], fs2[k], rs2[k + 1]) by {
                        if k < i {
                            assert(rs2[k] == rs[k] && fs2[k] == fs[k] && rs2[k + 1] == rs[k + 1]);
                        }
                    }
                    lemma_trace_fail(main, ext, rs2, fs2, e);
                }
                return Err(e);
            },
        };
        let ghost root1 = req_root;
        root.append(req_root);
        proof {
            let rs2 = rs.push(Ok(root));
            let fs2 = fs.push(Ok(root1));
            assert(merge_step(ext, i as int, rs2[i as int], fs2[i as int], rs2[i + 1]));
            assert forall|k: int| 0 <= k < i + 1 implies #[trigger] merge_step(ext, k, rs2[k], fs2[k], rs2[k + 1]) by {
                if k < i {
                    assert(rs2[k] == rs[k] && fs2[k] == fs[k] && rs2[k + 1] == rs[k + 1]);
                }
            }
            rs = rs2;
            fs = fs2;
        }
        i = i + 1;
    }
    let ghost merged = root;
    let r = check_module(build_option, root);
    proof {
        assert(files_trace(main, ext, rs, fs));
        assert(rs.last() == Ok::<ASTRoot, CompileFailure>(merged));
    }
    r
}

/// A failure after the main file and the first `rs.len() - 1` others is the
/// failure of the whole front end.
proof fn lemma_trace_fail(
    main: SourceFile,
    ext: Seq<SourceFile>,
    rs: Seq<Result<ASTRoot, CompileFailure>>,
    fs: Seq<Result<ASTRoot, CompileFailure>>,
    e: CompileFailure,
)
    requires
        1 <= rs.len() <= ext.len() + 1,
        fs.len() == rs.len() - 1,
        file_rel(main, 0, rs[0]),
        forall|k: int| 0 <= k < rs.len() - 1 ==> #[trigger] merge_step(ext, k, rs[k], fs[k], rs[k + 1]),
        rs.last() == Err::<ASTRoot, CompileFailure>(e),
    ensures
        frontend_rel(main, ext, Err::<ASTRoot, CompileFailure>(e)),
    decreases ext.len() + 1 - rs.len(),
{
    if rs.len() == ext.len() + 1 {
        assert(files_trace(main, ext, rs, fs));
    } else {
        let rs2 = rs.push(Err(e));
        let fs2 = fs.push(Err(e));
        assert forall|k: int| 0 <= k < rs2.len() - 1 implies #[trigger] merge_step(ext, k, rs2[k], fs2[k], rs2[k + 1]) by {
            if k < rs.len() - 1 {
                assert(rs2[k] == rs[k] && fs2[k] == fs[k] && rs2[k + 1] == rs[k + 1]);
            } else {
                assert(rs2[k] == rs.last());
            }
        }
        lemma_trace_fail(main, ext, rs2, fs2, e);
    }
}

/// The checks on a put-together module: its declarations collected, the named types
/// of its local variables resolved, and every function type-checked.
pub fn check_module(build_option: &BuildOption, root: ASTRoot) -> (r: Result<ASTRoot, CompileFailure>)
    requires
        root.wf(),
    ensures
        checked_rel(root, r),
        r matches Ok(root2) ==> {
            &&& root2.wf()
            &&& root2.func_map@.contains_key("main"@)
            &&& root2.func_map@["main"@].args@.len() == 0
            &&& root2.func_map@["main"@].return_type.kind is NORETURN
        },
{
    let ghost root0 = root;
    let tld_map = match resolve_tld_phase(build_option, &root) {
        Ok(t) => t,
        Err(e) => return Err(CompileFailure::Tld(e)),
    };
    let mut func_map = root.func_map;
    let type_map = root.type_map;
    let ghost fm0 = func_map;
    match resolve_unknown_type_phase(build_option, &mut func_map, &tld_map) {
        Ok(()) => {},
        Err(e) => {
            proof { assert(decls_v(tld_map@) == module_tld(root0)->Ok_0); }
            return Err(CompileFailure::Unresolved(e));
        },
    }
    let root = ASTRoot { func_map, type_map };
    proof {
        fm0.lemma_values_len();
        root.func_map.lemma_values_len();
        assert(resolved(fm0, root.func_map, tld_map@));
    }
    match type_check_program(build_option, &root.func_map, &tld_map) {
        TypeCheckOutcome::Checked => {
            proof {
                root.func_map.lemma_values_len();
                root.func_map.lemma_names_cover();
                crate::laws::law_checked_program_has_main(root.func_map.names(), root.func_map.values(), tld_map@);
                let j = choose|j: int|
                    #![trigger root.func_map.names()[j]]
                    0 <= j < root.func_map.names().len() && root.func_map.names()[j] == "main"@
                        && root.func_map.values()[j].args@.len() == 0
                        && root.func_map.values()[j].return_type.kind is NORETURN;
                assert(root.func_map@.contains_key(root.func_map.names()[j]));
            }
            Ok(root)
        },
        outcome => Err(CompileFailure::TypeCheck(outcome)),
    }
}

/// Whether the local variables of `func` fit in a frame: their sizes add up within
/// `usize`, with room to round the frame up to a multiple of eight.
fn frame_fits(func: &PFunction) -> (b: bool)
    requires
        func.wf(),
    ensures
        b == (frame_offset(func.locals.values(), func.locals.names().len() as int) + 7 <= usize::MAX),
{
    proof { func.locals.lemma_values_len(); }
    let n = func.locals.len();
    let mut total: usize = 0;
    let mut i: usize = 0;
    while i < n
        invariant
            i <= n,
            n == func.locals.names().len(),
            func.locals.values().len() == n,
            func.wf(),
            total == frame_offset(func.locals.values(), i as int),
            total + 7 <= usize::MAX,
        decreases n - i,
    {
        let (_, pvar) = func.locals.entry_at(i);
        let size = pvar.type_size();
        if size > usize::MAX - 7 - total {
            proof { lemma_frame_offset_grows(func.locals.values(), i as int + 1, n as int); }
            return false;
        }
        total = total + size;
        i = i + 1;
    }
    true
}

proof fn lemma_frame_offset_grows(vals: Seq<crate::pvariable::PVariable>, a: int, b: int)
    requires
        0 <= a <= b <= vals.len(),
    ensures
        frame_offset(vals, a) <= frame_offset(vals, b),
    decreases b - a,
{
    if a < b {
        lemma_frame_offset_grows(vals, a, b - 1);
    }
}

/// The local variables of `f` fit in a frame, with room to round it up to eight.
pub open spec fn frame_fits_s(f: PFunction) -> bool {
    frame_offset(f.locals.values(), f.locals.names().len() as int) + 7 <= usize::MAX
}

/// `g` is `f` with its local variables placed in its frame, in order, and the
/// frame's size recorded.
pub open spec fn framed(f: PFunction, g: PFunction) -> bool {
    &&& g.wf()
    &&& g.locals.names() == f.locals.names()
    &&& g.locals.values().len() == f.locals.values().len()
    &&& forall|i: int| 0 <= i < f.locals.values().len() ==> {
        &&& (#[trigger] g.locals.values()[i]).kind == PVarKind::LOCAL(frame_offset(f.locals.values(), i + 1) as usize)
        &&& g.locals.values()[i].ptype == f.locals.values()[i].ptype
        &&& g.locals.values()[i].is_const == f.locals.values()[i].is_const
    }
    &&& g.stack_offset == frame_offset(f.locals.values(), f.locals.names().len() as int)
    &&& g.name == f.name
    &&& g.stmts == f.stmts
    &&& g.strings == f.strings
    &&& g.return_type == f.return_type
    &&& g.args == f.args
}

/// Places the local variables of every function in its frame; where some
/// function's frame does not fit, the phase fails.
pub fn allocate_frame_phase(build_option: &BuildOption, func_map: &mut NameMap<PFunction>) -> (r: Result<(), CompileFailure>)
    requires
        old(func_map).wf(),
        functions_wf(old(func_map)@),
    ensures
        final(func_map).wf(),
        functions_wf(final(func_map)@),
        final(func_map).names() == old(func_map).names(),
        final(func_map).values().len() == old(func_map).values().len(),
        r is Ok <==> forall|i: int| 0 <= i < old(func_map).values().len() ==> frame_fits_s(
            #[trigger] old(func_map).values()[i],
        ),
        r is Err ==> r == Err::<(), CompileFailure>(CompileFailure::FrameTooLarge),
        r is Ok ==> forall|i: int| 0 <= i < old(func_map).values().len() ==> framed(
            old(func_map).values()[i],
            #[trigger] final(func_map).values()[i],
        ),
        r is Ok ==> forall|k: Seq<char>| #[trigger] final(func_map)@.contains_key(k) ==> final(func_map)@[k].stack_offset + 7
            <= usize::MAX,
{
    proof {
        func_map.lemma_values_len();
        func_map.lemma_names_cover();
    }
    let ghost vs0 = func_map.values();
    let n = func_map.len();
    let mut i: usize = 0;
    proof {
        assert forall|k: int| 0 <= k < n implies (#[trigger] func_map.values()[k]).wf() by {
            assert(func_map@.contains_key(func_map.names()[k]));
        }
    }
    while i < n
        invariant
            i <= n,
            n == func_map.names().len(),
            vs0 == old(func_map).values(),
            vs0.len() == n,
            func_map.wf(),
            func_map.values().len() == n,
            func_map.names() == old(func_map).names(),
            forall|k: int| 0 <= k < n ==> (#[trigger] func_map.values()[k]).wf(),
            forall|k: int| 0 <= k < i ==> (#[trigger] func_map.values()[k]).stack_offset + 7 <= usize::MAX,
            forall|k: int| 0 <= k < i ==> frame_fits_s(#[trigger] vs0[k]),
            forall|k: int| 0 <= k < i ==> framed(vs0[k], #[trigger] func_map.values()[k]),
            forall|k: int| i <= k < n ==> #[trigger] func_map.values()[k] == vs0[k],
        decreases n - i,
    {
        let placeholder = PFunction::new(String::new(), PType::new_invalid(), Vec::new(), Position::new(0, 0), String::new(), 0);
        let mut func = func_map.replace_at(i, placeholder);
        let fits = frame_fits(&func);
        if fits {
            func.alloc_frame();
        }
        let _ = func_map.replace_at(i, func);
        if !fits {
            proof {
                lemma_functions_wf(*func_map);
                assert(!frame_fits_s(vs0[i as int]));
            }
            return Err(CompileFailure::FrameTooLarge);
        }
        proof {
            assert(framed(vs0[i as int], func_map.values()[i as int]));
        }
        i = i + 1;
    }
    proof {
        lemma_functions_wf(*func_map);
        func_map.lemma_names_cover();
        assert forall|k: Seq<char>| #[trigger] func_map@.contains_key(k) implies func_map@[k].stack_offset + 7 <= usize::MAX by {
            let j = choose|j: int| 0 <= j < n && func_map.names()[j] == k;
            assert(func_map@[func_map.names()[j]] == func_map.values()[j]);
        }
    }
    Ok(())
}

proof fn lemma_functions_wf(m: NameMap<PFunction>)
    requires
        m.wf(),
        forall|k: int| 0 <= k < m.values().len() ==> (#[trigger] m.values()[k]).wf(),
    ensures
        functions_wf(m@),
{
    m.lemma_names_cover();
    m.lemma_values_len();
    assert forall|k: Seq<char>| #[trigger] m@.contains_key(k) implies m@[k].wf() by {
        let j = choose|j: int| 0 <= j < m.names().len() && m.names()[j] == k;
        assert(m@[m.names()[j]] == m.values()[j]);
    }
}

/// `fm2` is `fm` with the local variables of every function placed in its frame.
pub open spec fn frames_rel(fm: NameMap<PFunction>, fm2: NameMap<PFunction>) -> bool {
    &&& fm2.wf()
    &&& functions_wf(fm2@)
    &&& fm2.names() == fm.names()
    &&& fm2.values().len() == fm.values().len()
    &&& forall|i: int| 0 <= i < fm.values().len() ==> framed(fm.values()[i], #[trigger] fm2.values()[i])
}

/// What code generation gives for the functions `fm`: one symbol per function, in
/// order, with its instructions and strings, or the first error.
pub open spec fn codegen_rel(fm: NameMap<PFunction>, r: Result<AssemblyFile, CompileFailure>) -> bool {
    match codegen_s(fm.values(), fm.names().len() as int) {
        Ok(codes) => r matches Ok(a) && a.file_path@ == "asm.s"@ && a.symbols@.len() == codes.len() && forall|i: int|
            0 <= i < codes.len() ==> {
                &&& (#[trigger] a.symbols@[i]).name@ == fm.values()[i].name@
                &&& insts_v(a.symbols@[i].insts@) == codes[i]
                &&& sym_strings_v(a.symbols@[i].strings@) == strings_of(fm.values()[i])
            },
        Err(e) => r matches Err(CompileFailure::Codegen(x)) && gen_err_v(x) == e,
    }
}

/// What the back end gives for the checked functions `fm`: a failure where some
/// frame does not fit, else the code of the functions with their frames placed.
pub open spec fn backend_rel(fm: NameMap<PFunction>, r: Result<AssemblyFile, CompileFailure>) -> bool {
    if forall|i: int| 0 <= i < fm.values().len() ==> frame_fits_s(#[trigger] fm.values()[i]) {
        exists|fm2: NameMap<PFunction>| #[trigger] frames_rel(fm, fm2) && codegen_rel(fm2, r)
    } else {
        r == Err::<AssemblyFile, CompileFailure>(CompileFailure::FrameTooLarge)
    }
}

/// Compiles a program to x86-64 assembly: the front end, then the frames of the
/// functions, then the code.
pub fn compile_main(build_option: &BuildOption, main_file: &SourceFile, externals: &Vec<SourceFile>) -> (r: Result<
    AssemblyFile,
    CompileFailure,
>)
    ensures
        exists|fr: Result<ASTRoot, CompileFailure>|
            #[trigger] frontend_rel(*main_file, externals@, fr) && match fr {
                Err(e) => r == Err::<AssemblyFile, CompileFailure>(e),
                Ok(root) => backend_rel(root.func_map, r),
            },
{
    let fr = proc_frontend(build_option, main_file, externals);
    let root = match fr {
        Ok(root) => root,
        Err(e) => {
            proof { assert(frontend_rel(*main_file, externals@, Err::<ASTRoot, CompileFailure>(e))); }
            return Err(e);
        },
    };
    let ghost root0 = root;
    let mut func_map = root.func_map;
    let ghost fm0 = func_map;
    proof { fm0.lemma_values_len(); }
    match allocate_frame_phase(build_option, &mut func_map) {
        Ok(()) => {},
        Err(e) => {
            proof { assert(frontend_rel(*main_file, externals@, Ok::<ASTRoot, CompileFailure>(root0))); }
            return Err(e);
        },
    }
    let ghost fm2 = func_map;
    let r = match codegen(build_option, &func_map) {
        Ok(assembly) => Ok(assembly),
        Err(e) => Err(CompileFailure::Codegen(e)),
    };
    proof {
        assert(frames_rel(fm0, fm2));
        assert(codegen_rel(fm2, r));
        assert(frontend_rel(*main_file, externals@, Ok::<ASTRoot, CompileFailure>(root0)));
    }
    r
}

} // verus!
