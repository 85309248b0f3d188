use vstd::prelude::*;

use crate::ast::{stmts_view, StmtNodeV};
use crate::ident::strings_view;
use crate::parse_spec::{
    kind_of, live, lt, pos_of, pvar_v, sbudget, sp_compound, sp_eat, sp_expect, sp_land, sp_name, sp_progress,
    sp_ptype, sp_semicolon, sp_stop, AbortV, PVarV, PS,
};
use crate::error::CompileError;
use crate::parse_spec::abort_v;
use crate::parser::{skip_past, ParseAbort, Parser};
use crate::root::ASTRoot;
use crate::pfunction::PFunction;
use crate::position::Position;
use crate::ptype::{PType, PTypeV};
use crate::pvariable::{PVarKind, PVariable};
use crate::token::{Token, TokenKind};

verus! {

/// A function of a module, with its parts as values.
pub struct FnV {
    pub name: Seq<char>,
    pub stack_offset: usize,
    pub position: Position,
    pub stmts: Seq<StmtNodeV>,
    pub locals: Map<Seq<char>, PVarV>,
    pub strings: Map<Seq<char>, u64>,
    pub return_type: PTypeV,
    pub args: Seq<Seq<char>>,
    pub mod_path: Seq<char>,
    pub module_id: usize,
}

/// Variables, with their types as values.
pub open spec fn vars_v(m: Map<Seq<char>, PVariable>) -> Map<Seq<char>, PVarV> {
    m.map_values(|v: PVariable| pvar_v(v))
}

pub open spec fn fn_v(f: PFunction) -> FnV {
    FnV {
        name: f.name@,
        stack_offset: f.stack_offset,
        position: f.position,
        stmts: stmts_view(f.stmts@),
        locals: vars_v(f.locals@),
        strings: f.strings@,
        return_type: f.return_type@,
        args: strings_view(f.args@),
        mod_path: f.mod_path@,
        module_id: f.module_id,
    }
}

/// The functions of a module, as values.
pub open spec fn funcs_v(m: Map<Seq<char>, PFunction>) -> Map<Seq<char>, FnV> {
    m.map_values(|f: PFunction| fn_v(f))
}

/// The type aliases of a module, as values.
pub open spec fn types_v(m: Map<Seq<char>, PType>) -> Map<Seq<char>, PTypeV> {
    m.map_values(|ty: PType| ty@)
}

/// The state of a parse at the top of a module: where it stands and the errors
/// (with no function's variables), and the functions and type aliases read so far.
pub struct MS {
    pub s: PS,
    pub funcs: Map<Seq<char>, FnV>,
    pub types: Map<Seq<char>, PTypeV>,
}

/// The place, stop and errors of a state, without the variables and strings of a function.
pub open spec fn bare(s: PS) -> PS {
    PS { locals: Map::empty(), strings: Map::empty(), ..s }
}

pub open spec fn ms_of(p: Parser) -> MS {
    MS {
        s: bare(crate::parse_spec::ps_of(p, Seq::empty())),
        funcs: funcs_v(p.root.func_map@),
        types: types_v(p.root.type_map@),
    }
}

pub open spec fn with_s(m: MS, s: PS) -> MS {
    MS { s: bare(s), ..m }
}

/// Skips `require (...)` where it stands first.
pub open spec fn sp_skip_require(t: Seq<Token>, s: PS) -> PS {
    if !live(t, s) || kind_of(t, s) != TokenKind::REQUIRE@ {
        s
    } else {
        sp_land(s, skip_past(t, s.cur, TokenKind::RPAREN@))
    }
}

/// Adds a type alias; a second one of the same name stops the parse.
pub open spec fn sp_add_type(m: MS, n: Seq<char>, ty: PTypeV) -> MS {
    if m.s.aborted is Some {
        m
    } else if m.types.contains_key(n) {
        with_s(m, sp_stop(m.s, AbortV::DuplicateTypedef))
    } else {
        MS { types: m.types.insert(n, ty), ..m }
    }
}

/// `pubtype name = type;`.
pub open spec fn sp_type_alias(t: Seq<Token>, m: MS) -> MS {
    if !live(t, m.s) {
        m
    } else {
        let p = pos_of(t, m.s);
        let s1 = sp_progress(t, m.s);
        let (s2, nm) = sp_name(t, s1);
        match nm {
            None => with_s(m, s2),
            Some(n) => {
                let s3 = sp_expect(t, s2, TokenKind::ASSIGN@);
                let (s4, ty) = sp_ptype(t, s3);
                let s5 = sp_semicolon(t, s4, p);
                sp_add_type(with_s(m, s5), n, ty)
            },
        }
    }
}

/// The parameters of a function up to `)`: the state, the names in order, the
/// variables, and whether the function is given up (a name missing or used twice).
pub open spec fn sp_params(t: Seq<Token>, s: PS, args: Seq<Seq<char>>, vars: Map<Seq<char>, PVarV>) -> (
    PS,
    Seq<Seq<char>>,
    Map<Seq<char>, PVarV>,
    bool,
)
    decreases sbudget(t, s),
{
    if !live(t, s) {
        (s, args, vars, false)
    } else {
        let (s1, closed) = sp_eat(t, s, TokenKind::RPAREN@);
        if closed {
            (s1, args, vars, false)
        } else {
            let (s2, nm) = sp_name(t, s1);
            match nm {
                None => (s2, args, vars, true),
                Some(a) => {
                    let (s3, ty) = sp_ptype(t, s2);
                    if vars.contains_key(a) {
                        (sp_stop(s3, AbortV::DuplicateArgument), args, vars, true)
                    } else {
                        let s4 = sp_eat(t, s3, TokenKind::COMMA@).0;
                        let vars2 = vars.insert(a, PVarV { kind: PVarKind::LOCAL(0), ptype: ty, is_const: false });
                        if !lt(t, s, s4) {
                            (s4, args.push(a), vars2, false)
                        } else {
                            sp_params(t, s4, args.push(a), vars2)
                        }
                    }
                },
            }
        }
    }
}

/// `func name(parameter type, ...) type { ... }`: the function is added with its
/// parameters as variables, then its body is read; a second function of the same
/// name stops the parse.
pub open spec fn sp_function(t: Seq<Token>, m: MS, mp: Seq<char>, id: usize) -> MS {
    if !live(t, m.s) {
        m
    } else {
        let p = pos_of(t, m.s);
        let s1 = sp_progress(t, m.s);
        let (s2, nm) = sp_name(t, s1);
        match nm {
            None => with_s(m, s2),
            Some(n) => {
                let s3 = sp_expect(t, s2, TokenKind::LPAREN@);
                let (s4, args, vars, quit) = sp_params(t, s3, Seq::empty(), Map::empty());
                if quit || s4.aborted is Some {
                    with_s(m, s4)
                } else {
                    let (s5, ret) = sp_ptype(t, s4);
                    if s5.aborted is Some {
                        with_s(m, s5)
                    } else if m.funcs.contains_key(n) {
                        with_s(m, sp_stop(s5, AbortV::DuplicateFunction))
                    } else {
                        let (s6, sts) = sp_compound(t, PS { locals: vars, strings: Map::empty(), ..s5 }, true);
                        let f = FnV {
                            name: n,
                            stack_offset: 0,
                            position: p,
                            stmts: sts,
                            locals: s6.locals,
                            strings: s6.strings,
                            return_type: ret,
                            args: args,
                            mod_path: mp,
                            module_id: id,
                        };
                        MS { s: bare(s6), funcs: m.funcs.insert(n, f), types: m.types }
                    }
                }
            },
        }
    }
}

/// Functions and type aliases until another token stands.
pub open spec fn sp_top_rest(t: Seq<Token>, m: MS, mp: Seq<char>, id: usize) -> MS
    decreases sbudget(t, m.s),
{
    if !live(t, m.s) {
        m
    } else if kind_of(t, m.s) == TokenKind::FUNC@ {
        let m2 = sp_function(t, m, mp, id);
        if !lt(t, m.s, m2.s) {
            m2
        } else {
            sp_top_rest(t, m2, mp, id)
        }
    } else if kind_of(t, m.s) == TokenKind::PUBTYPE@ {
        let m2 = sp_type_alias(t, m);
        if !lt(t, m.s, m2.s) {
            m2
        } else {
            sp_top_rest(t, m2, mp, id)
        }
    } else {
        m
    }
}

/// A module: a leading `require (...)`, then functions and type aliases.
pub open spec fn sp_toplevel(t: Seq<Token>, m: MS, mp: Seq<char>, id: usize) -> MS {
    sp_top_rest(t, with_s(m, sp_skip_require(t, m.s)), mp, id)
}

/// The state at the first of the tokens `t`, with no module read yet.
pub open spec fn start_ms(t: Seq<Token>) -> MS {
    MS {
        s: PS {
            cur: 0,
            aborted: if t.len() == 0 { Some(AbortV::TokensExhausted) } else { None },
            errs: Seq::empty(),
            locals: Map::empty(),
            strings: Map::empty(),
        },
        funcs: Map::empty(),
        types: Map::empty(),
    }
}

/// The parse of the tokens `t` of the module `mp`, from the first token.
pub open spec fn sp_module(t: Seq<Token>, mp: Seq<char>, id: usize) -> MS {
    sp_toplevel(t, start_ms(t), mp, id)
}

/// A parse's result agrees with the state it ended in: the module and the errors
/// where it went through, or why it stopped.
pub open spec fn parse_outcome(r: Result<(ASTRoot, Vec<CompileError>), ParseAbort>, m: MS) -> bool {
    match r {
        Ok((root, errs)) => {
            &&& m.s.aborted is None
            &&& funcs_v(root.func_map@) == m.funcs
            &&& types_v(root.type_map@) == m.types
            &&& errs@ == m.s.errs
        },
        Err(why) => m.s.aborted == Some(abort_v(why)),
    }
}

/// The leaf steps do not look at a function's variables or strings.
pub proof fn lemma_bare_leaf(t: Seq<Token>, s: PS)
    ensures
        bare(bare(s)) == bare(s),
        sbudget(t, bare(s)) == sbudget(t, s),
        live(t, bare(s)) == live(t, s),
        kind_of(t, bare(s)) == kind_of(t, s),
        pos_of(t, bare(s)) == pos_of(t, s),
        bare(sp_progress(t, s)) == sp_progress(t, bare(s)),
        forall|k| #[trigger] bare(sp_eat(t, s, k).0) == sp_eat(t, bare(s), k).0,
        forall|k| #[trigger] sp_eat(t, s, k).1 == sp_eat(t, bare(s), k).1,
        forall|k| #[trigger] bare(sp_expect(t, s, k)) == sp_expect(t, bare(s), k),
        bare(sp_name(t, s).0) == sp_name(t, bare(s)).0,
        sp_name(t, s).1 == sp_name(t, bare(s)).1,
        forall|p| #[trigger] bare(sp_semicolon(t, s, p)) == sp_semicolon(t, bare(s), p),
        forall|w| #[trigger] bare(sp_stop(s, w)) == sp_stop(bare(s), w),
        bare(sp_skip_require(t, s)) == sp_skip_require(t, bare(s)),
{
}

/// Reading a type does not look at a function's variables or strings.
pub proof fn lemma_bare_ptype(t: Seq<Token>, s: PS)
    ensures
        bare(sp_ptype(t, s).0) == sp_ptype(t, bare(s)).0,
        sp_ptype(t, s).1 == sp_ptype(t, bare(s)).1,
    decreases sbudget(t, s),
{
    lemma_bare_leaf(t, s);
    if !(s.aborted is Some || s.cur < 0 || s.cur >= t.len()) && !(kind_of(t, s) is Ident) {
        let s1 = sp_progress(t, s);
        lemma_bare_leaf(t, s1);
        if s1.aborted is None && sbudget(t, s1) < sbudget(t, s) {
            lemma_bare_ptype(t, s1);
        }
    }
}

} // verus!
