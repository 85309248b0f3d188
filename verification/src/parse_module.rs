use vstd::prelude::*;

use crate::error::CompileError;
use crate::name_map::NameMap;
use crate::option::BuildOption;
use crate::parser::{
    consumed, grows, grows_module, kept, lemma_grows_progressed, lemma_grows_refl, lemma_leaf_module, lemma_step_fn,
    lemma_step_module, ParseAbort, Parser,
};
use crate::pfunction::PFunction;
use crate::pvariable::PVariable;
use crate::root::ASTRoot;
use crate::text::str_to_string;
use crate::module_spec::{
    bare, fn_v, funcs_v, lemma_bare_leaf, lemma_bare_ptype, ms_of, parse_outcome, sp_function, sp_module, sp_params,
    sp_skip_require, sp_top_rest, sp_toplevel, sp_type_alias, start_ms, types_v, vars_v, with_s, FnV, MS,
};
use crate::ptype::PTypeV;
use crate::ident::strings_view;
use crate::parse_spec::{abort_v, sbudget, sp_compound, sp_eat, PVarV, PS};
use crate::pvariable::PVarKind;
use crate::parse_spec::{ps_of, sp_progress, sp_name, sp_expect, sp_ptype, sp_semicolon, sp_stop, AbortV};
use crate::parser::lemma_ps_live;
use crate::token::{Token, TokenKind, TokenKindV};

verus! {

/// A leaf step (one that keeps the module) after a step at the top of the module.
proof fn lemma_then_leaf_module(a: Parser, b: Parser, c: Parser)
    requires
        a.wf(),
        grows_module(a, b),
        grows(b, c),
        c.root == b.root,
    ensures
        grows_module(a, c),
        a.aborted is None && (consumed(a, b) || consumed(b, c)) ==> consumed(a, c),
{
    lemma_leaf_module(b, c);
    lemma_step_module(a, b, c);
}

/// Why a module could not be parsed: the errors found, or where and why the parse
/// stopped for good.
#[derive(Debug, PartialEq, Eq)]
pub enum ParseFailure {
    Errors(Vec<CompileError>),
    Aborted(ParseAbort),
}

impl Parser {
    /// `pubtype name = type;`, which adds a type alias.
    pub fn type_alias(&mut self)
        requires
            old(self).wf(),
        ensures
            grows_module(*old(self), *final(self)),
            consumed(*old(self), *final(self)),
            ms_of(*final(self)) == sp_type_alias(old(self).tokens@, ms_of(*old(self))),
            old(self).aborted is None && final(self).aborted is None && old(self).cur_token + 1 < old(self).tokens@.len()
                ==> (old(self).kind_at(old(self).cur_token + 1) matches TokenKindV::Ident(n)
                ==> final(self).root.type_map@.contains_key(n)),
    {
        let ghost e = Seq::<char>::empty();
        let ghost t = self.tokens@;
        let ghost m0 = ms_of(*self);
        if self.aborted.is_some() {
            proof { lemma_ps_live(*self, e); lemma_bare_leaf(t, ps_of(*self, e)); }
            return;
        }
        let ghost p0 = *self;
        proof { lemma_ps_live(p0, e); lemma_bare_leaf(t, ps_of(p0, e)); }
        let def_pos = self.current_position();
        self.progress();
        proof {
            lemma_grows_progressed(p0);
            lemma_leaf_module(p0, *self);
        }
        let ghost p1 = *self;
        let ghost s1 = sp_progress(t, m0.s);
        proof { lemma_bare_leaf(t, ps_of(p0, e)); lemma_bare_leaf(t, ps_of(p1, e)); assert(ms_of(p1).s == s1); }
        let alias_name = match self.expect_name() {
            Some(n) => n,
            None => {
                proof {
                    lemma_then_leaf_module(p0, p1, *self);
                    lemma_bare_leaf(t, ps_of(p1, e));
                    lemma_bare_leaf(t, s1);
                    assert(ms_of(*self) == with_s(m0, sp_name(t, s1).0));
                }
                return;
            },
        };
        proof {
            lemma_grows_progressed(p1);
            lemma_then_leaf_module(p0, p1, *self);
        }
        let ghost p2 = *self;
        let ghost s2 = sp_name(t, s1).0;
        proof {
            lemma_bare_leaf(t, ps_of(p1, e));
            lemma_bare_leaf(t, s1);
            assert(ms_of(p2).s == s2);
            assert(sp_name(t, s1).1 == Some(alias_name@));
        }
        self.expect(TokenKind::ASSIGN);
        proof { lemma_then_leaf_module(p0, p2, *self); }
        let ghost p3 = *self;
        let ghost s3 = sp_expect(t, s2, TokenKind::ASSIGN@);
        proof { lemma_bare_leaf(t, ps_of(p2, e)); assert(ms_of(p3).s == s3); }
        let src_type = self.expect_ptype();
        proof { lemma_then_leaf_module(p0, p3, *self); }
        let ghost p4 = *self;
        let ghost s4 = sp_ptype(t, s3).0;
        proof {
            lemma_bare_ptype(t, ps_of(p3, e));
            assert(ms_of(p4).s == s4);
        }
        self.expect_semicolon(def_pos);
        proof { lemma_then_leaf_module(p0, p4, *self); }
        let ghost p5 = *self;
        let ghost s5 = sp_semicolon(t, s4, def_pos);
        proof { lemma_bare_leaf(t, ps_of(p4, e)); assert(ms_of(p5).s == s5); }
        self.add_typedef(alias_name, src_type);
        proof {
            lemma_step_module(p0, p5, *self);
            lemma_bare_leaf(t, s5);
            assert(ms_of(p5) == with_s(m0, s5));
            if p5.aborted is None {
                lemma_bare_ptype(t, ps_of(p3, e));
                assert(src_type@ == sp_ptype(t, s3).1);
                if p5.root.type_map@.contains_key(alias_name@) {
                    crate::parser::lemma_ps_stopped(p5, ParseAbort::DuplicateTypedef);
                    lemma_bare_leaf(t, ps_of(p5, e));
                    assert(ms_of(*self).s == sp_stop(s5, AbortV::DuplicateTypedef));
                } else {
                    assert(types_v(self.root.type_map@) =~= types_v(p5.root.type_map@).insert(alias_name@, src_type@));
                    assert(ms_of(*self).s == ms_of(p5).s);
                }
            }
        }
    }

    /// `func name(parameter type, ...) type { ... }`: adds the function, with its
    /// parameters as local variables, then reads its body.
    #[verifier::rlimit(60)]
    #[verifier::spinoff_prover]
    pub fn function(&mut self, mod_path: String, module_id: usize)
        requires
            old(self).wf(),
        ensures
            grows_module(*old(self), *final(self)),
            consumed(*old(self), *final(self)),
            ms_of(*final(self)).s == sp_function(old(self).tokens@, ms_of(*old(self)), mod_path@, module_id).s,
            final(self).aborted is None ==> ms_of(*final(self)) == sp_function(
                old(self).tokens@,
                ms_of(*old(self)),
                mod_path@,
                module_id,
            ),
            old(self).aborted is None && final(self).aborted is None && final(self).errors@.len() == old(self).errors@.len() ==> old(self).cur_token + 1 < old(self).tokens@.len() && (old(self).kind_at(old(self).cur_token + 1) matches TokenKindV::Ident(n) && final(self).root.func_map@.contains_key(n)),
    {
        let ghost e = Seq::<char>::empty();
        let ghost t = self.tokens@;
        let ghost m0 = ms_of(*self);
        let ghost mp = mod_path@;
        if self.aborted.is_some() {
            proof { lemma_ps_live(*self, e); lemma_bare_leaf(t, ps_of(*self, e)); }
            return;
        }
        let ghost p0 = *self;
        proof { lemma_ps_live(p0, e); lemma_bare_leaf(t, ps_of(p0, e)); }
        let def_func_pos = self.current_position();
        self.progress();
        proof {
            lemma_grows_progressed(p0);
            lemma_leaf_module(p0, *self);
        }
        let ghost p1 = *self;
        let ghost s1 = sp_progress(t, m0.s);
        proof { lemma_bare_leaf(t, ps_of(p0, e)); lemma_bare_leaf(t, ps_of(p1, e)); assert(ms_of(p1).s == s1); }
        let name = match self.expect_name() {
            Some(n) => n,
            None => {
                proof {
                    lemma_then_leaf_module(p0, p1, *self);
                    lemma_bare_leaf(t, ps_of(p1, e));
                    lemma_bare_leaf(t, s1);
                    assert(ms_of(*self) == with_s(m0, sp_name(t, s1).0));
                }
                return;
            },
        };
        proof {
            lemma_grows_progressed(p1);
            lemma_then_leaf_module(p0, p1, *self);
        }
        let ghost p2 = *self;
        let ghost s2 = sp_name(t, s1).0;
        proof {
            lemma_bare_leaf(t, ps_of(p1, e));
            lemma_bare_leaf(t, s1);
            assert(ms_of(p2).s == s2);
            assert(sp_name(t, s1).1 == Some(name@));
        }
        let mut args: Vec<String> = Vec::new();
        let mut arg_map: NameMap<PVariable> = NameMap::new();
        self.expect(TokenKind::LPAREN);
        proof { lemma_then_leaf_module(p0, p2, *self); }
        let ghost p3 = *self;
        let ghost s3 = sp_expect(t, s2, TokenKind::LPAREN@);
        let ghost target = sp_params(t, s3, Seq::empty(), Map::empty());
        proof {
            lemma_bare_leaf(t, ps_of(p2, e));
            assert(ms_of(p3).s == s3);
            assert(strings_view(args@) =~= Seq::<Seq<char>>::empty());
            assert(vars_v(arg_map@) =~= Map::<Seq<char>, PVarV>::empty());
            lemma_bare_leaf(t, ps_of(p0, e));
            assert(sp_name(t, s1) == (s2, Some(name@)));
        }
        proof {
            assert((target.3 || target.0.aborted is Some) ==> sp_function(t, m0, mp, module_id) == with_s(m0, target.0));
        }
        loop
            invariant_except_break
                self.aborted is None ==> sp_params(t, ms_of(*self).s, strings_view(args@), vars_v(arg_map@)) == target,
                self.aborted is Some ==> target.0 == ms_of(*self).s && !target.3,
            invariant
                p0 == *old(self),
                p0.wf(),
                p0.aborted is None,
                grows_module(p0, *self),
                consumed(p0, *self),
                self.root == p0.root,
                arg_map.wf(),
                self.tokens@ == t,
                m0 == ms_of(p0),
                mp == mod_path@,
                (target.3 || target.0.aborted is Some) ==> sp_function(t, m0, mp, module_id) == with_s(m0, target.0),
            ensures
                p0 == *old(self),
                p0.wf(),
                p0.aborted is None,
                grows_module(p0, *self),
                consumed(p0, *self),
                self.root == p0.root,
                arg_map.wf(),
                self.tokens@ == t,
                target.0 == ms_of(*self).s,
                !target.3,
                self.aborted is None ==> target == (ms_of(*self).s, strings_view(args@), vars_v(arg_map@), false),
            decreases self.budget(),
        {
            let ghost q0 = *self;
            let ghost a0 = strings_view(args@);
            let ghost v0 = vars_v(arg_map@);
            let ghost sq0 = ms_of(q0).s;
            proof { lemma_ps_live(q0, e); lemma_bare_leaf(t, ps_of(q0, e)); }
            if self.aborted.is_some() {
                break;
            }
            if self.eat_if_matched(&TokenKind::RPAREN) {
                proof {
                    lemma_then_leaf_module(p0, q0, *self);
                    assert(ms_of(*self).s == sp_eat(t, sq0, TokenKind::RPAREN@).0);
                    assert(sp_eat(t, sq0, TokenKind::RPAREN@).1);
                }
                break;
            }
            let ghost q1 = *self;
            proof { assert(ms_of(q1).s == sq0); }
            let arg_name = match self.expect_name() {
                Some(n) => n,
                None => {
                    proof {
                        lemma_then_leaf_module(p0, q0, *self);
                        lemma_bare_leaf(t, ps_of(q1, e));
                        lemma_bare_leaf(t, sq0);
                        assert(target == (sp_name(t, sq0).0, a0, v0, true));
                        assert(ms_of(*self) == with_s(m0, sp_name(t, sq0).0));
                    }
                    return;
                },
            };
            proof {
                lemma_grows_progressed(q1);
                lemma_then_leaf_module(p0, q0, *self);
            }
            let ghost q2 = *self;
            let ghost sq2 = sp_name(t, sq0).0;
            proof {
                lemma_bare_leaf(t, ps_of(q1, e));
                lemma_bare_leaf(t, sq0);
                assert(ms_of(q2).s == sq2);
                assert(sp_name(t, sq0).1 == Some(arg_name@));
            }
            let arg_type = self.expect_ptype();
            proof { lemma_then_leaf_module(p0, q2, *self); }
            let ghost q3 = *self;
            let ghost sq3 = sp_ptype(t, sq2).0;
            proof {
                lemma_bare_ptype(t, ps_of(q2, e));
                assert(ms_of(q3).s == sq3);
                if q3.aborted is None {
                    assert(arg_type@ == sp_ptype(t, sq2).1);
                }
            }
            let arg_var = PVariable::new_local(arg_type, false);
            if arg_map.contains_key(arg_name.as_str()) {
                let ghost q2b = *self;
                self.stop(ParseAbort::DuplicateArgument);
                proof {
                    lemma_then_leaf_module(p0, q2b, *self);
                    lemma_bare_leaf(t, ps_of(q3, e));
                    assert(v0.contains_key(arg_name@));
                    assert(target == (sp_stop(sq3, AbortV::DuplicateArgument), a0, v0, true));
                    assert(ms_of(*self).s == sp_stop(sq3, AbortV::DuplicateArgument));
                    lemma_bare_leaf(t, sq3);
                }
                return;
            }
            let _ = arg_map.insert(arg_name.clone(), arg_var);
            let ghost q3b = *self;
            let _ = self.eat_if_matched(&TokenKind::COMMA);
            proof { lemma_then_leaf_module(p0, q3b, *self); }
            args.push(arg_name);
            proof {
                let sq4 = sp_eat(t, sq3, TokenKind::COMMA@).0;
                lemma_bare_leaf(t, ps_of(q3, e));
                assert(ms_of(*self).s == sq4);
                assert(strings_view(args@) =~= a0.push(arg_name@));
                assert(!v0.contains_key(arg_name@));
                lemma_ps_live(q1, e);
                lemma_ps_live(q2, e);
                lemma_ps_live(q3, e);
                lemma_ps_live(*self, e);
                crate::parser::lemma_grows_budget(q2, q3);
                crate::parser::lemma_grows_budget(q3, *self);
                lemma_bare_leaf(t, ps_of(q2, e));
                lemma_bare_leaf(t, ps_of(q3, e));
                lemma_bare_leaf(t, ps_of(*self, e));
                assert(sbudget(t, sq4) < sbudget(t, sq0));
                let v2 = v0.insert(arg_name@, PVarV { kind: PVarKind::LOCAL(0), ptype: sp_ptype(t, sq2).1, is_const: false });
                assert(target == sp_params(t, sq4, a0.push(arg_name@), v2));
                if self.aborted is None {
                    assert(vars_v(arg_map@) =~= v2);
                }
            }
        }
        if self.aborted.is_some() {
            proof { assert(ms_of(*self) == with_s(m0, target.0)); }
            return;
        }
        let ghost p3b = *self;
        let ghost s4 = target.0;
        let return_type = self.expect_ptype();
        proof { lemma_then_leaf_module(p0, p3b, *self); }
        let ghost p4 = *self;
        let ghost s5 = sp_ptype(t, s4).0;
        proof {
            lemma_bare_ptype(t, ps_of(p3b, e));
            assert(ms_of(p4).s == s5);
            lemma_bare_leaf(t, s5);
        }
        let mut defined_func = PFunction::new(name.clone(), return_type, args, def_func_pos, mod_path, module_id);
        defined_func.set_locals(arg_map);
        let fresh = !self.root.func_map.contains_key(name.as_str());
        self.add_pfunction(name.clone(), defined_func);
        proof { lemma_step_module(p0, p4, *self); }
        let ghost p5 = *self;
        if !fresh {
            proof {
                if p4.aborted is None {
                    crate::parser::lemma_ps_stopped(p4, ParseAbort::DuplicateFunction);
                    lemma_bare_leaf(t, ps_of(p4, e));
                    assert(ms_of(*self) == with_s(m0, sp_stop(s5, AbortV::DuplicateFunction)));
                }
            }
            return;
        }
        let statements = self.compound_statement(name.as_str());
        proof { lemma_step_fn(p0, p5, *self, name@); }
        let ghost p6 = *self;
        self.replace_statements(name.as_str(), statements);
        proof {
            lemma_step_fn(p0, p6, *self, name@);
            if p4.aborted is Some {
                assert(*self == p4);
            } else {
                let vars = target.2;
                let cs = sp_compound(t, PS { locals: vars, strings: Map::empty(), ..s5 }, true);
                assert(ps_of(p5, name@).locals =~= vars);
                assert(ps_of(p5, name@).strings =~= Map::<Seq<char>, u64>::empty());
                assert(ps_of(p5, name@) == PS { locals: vars, strings: Map::empty(), ..s5 });
                assert(ps_of(p6, name@) == cs.0);
                assert(ms_of(*self).s == bare(cs.0));
                if self.aborted is None {
                    let f = p5.root.func_map@[name@];
                    let g = self.root.func_map@[name@];
                    assert(fn_v(g).stmts == cs.1);
                    assert(fn_v(g).locals == cs.0.locals);
                    assert(fn_v(g).strings == cs.0.strings);
                    assert(crate::pfunction::same_shape(f, g));
                    assert forall|k: Seq<char>| #[trigger] funcs_v(self.root.func_map@).contains_key(k) implies funcs_v(self.root.func_map@)[k] == funcs_v(p5.root.func_map@)[k] || k == name@ by {
                    }
                    assert(funcs_v(self.root.func_map@) =~= m0.funcs.insert(name@, fn_v(g)));
                }
            }
        }
    }

    /// Reads a module: a leading `require (...)`, then functions and type aliases
    /// until another token stands.
    pub fn toplevel(&mut self, mod_path: &str, module_id: usize)
        requires
            old(self).wf(),
        ensures
            grows_module(*old(self), *final(self)),
            final(self).aborted is None ==> final(self).cur_kind() != TokenKind::FUNC@ && final(self).cur_kind()
                != TokenKind::PUBTYPE@,
            ms_of(*final(self)).s == sp_toplevel(old(self).tokens@, ms_of(*old(self)), mod_path@, module_id).s,
            final(self).aborted is None ==> ms_of(*final(self)) == sp_toplevel(
                old(self).tokens@,
                ms_of(*old(self)),
                mod_path@,
                module_id,
            ),
    {
        let ghost e = Seq::<char>::empty();
        let ghost t = self.tokens@;
        let ghost p0 = *self;
        let ghost target = sp_toplevel(t, ms_of(p0), mod_path@, module_id);
        proof { lemma_ps_live(p0, e); lemma_bare_leaf(t, ps_of(p0, e)); }
        self.skip_require();
        proof {
            lemma_leaf_module(p0, *self);
            let sk = sp_skip_require(t, ms_of(p0).s);
            lemma_bare_leaf(t, sk);
            if p0.aborted is None && p0.cur_kind() == TokenKind::REQUIRE@ {
                assert(ms_of(*self).s == sk);
            } else {
                assert(*self == p0);
            }
            assert(ms_of(*self) == with_s(ms_of(p0), sk));
        }
        loop
            invariant
                p0 == *old(self),
                p0.wf(),
                grows_module(p0, *self),
                self.tokens@ == t,
                target == sp_toplevel(t, ms_of(p0), mod_path@, module_id),
                self.aborted is None ==> sp_top_rest(t, ms_of(*self), mod_path@, module_id) == target,
                self.aborted is Some ==> ms_of(*self).s == target.s,
            ensures
                grows_module(p0, *self),
                self.aborted is None ==> self.cur_kind() != TokenKind::FUNC@ && self.cur_kind() != TokenKind::PUBTYPE@,
                self.aborted is None ==> ms_of(*self) == target,
                ms_of(*self).s == target.s,
            decreases self.budget(),
        {
            let ghost q0 = *self;
            proof { lemma_ps_live(q0, e); lemma_bare_leaf(t, ps_of(q0, e)); }
            if self.aborted.is_some() {
                break;
            }
            let which: u8 = match self.current_token_kind() {
                TokenKind::FUNC => 1,
                TokenKind::PUBTYPE => 2,
                _ => 0,
            };
            if which == 1 {
                self.function(str_to_string(mod_path), module_id);
            } else if which == 2 {
                self.type_alias();
            } else {
                break;
            }
            proof {
                lemma_step_module(p0, q0, *self);
                lemma_ps_live(*self, e);
                lemma_bare_leaf(t, ps_of(*self, e));
                assert(sbudget(t, ms_of(*self).s) < sbudget(t, ms_of(q0).s));
                let m2 = if which == 1 {
                    sp_function(t, ms_of(q0), mod_path@, module_id)
                } else {
                    sp_type_alias(t, ms_of(q0))
                };
                assert(ms_of(*self).s == m2.s);
                assert(target == sp_top_rest(t, m2, mod_path@, module_id));
                if self.aborted is Some {
                    assert(!crate::parse_spec::live(t, m2.s));
                    assert(sp_top_rest(t, m2, mod_path@, module_id) == m2);
                }
            }
        }
    }
}

/// Parses the tokens of the module `mod_path`: the module and the errors found,
/// or why the parse stopped for good.
pub fn parse(
    opt: &BuildOption,
    mod_path: &str,
    module_id: usize,
    tokens: Vec<Token>,
) -> (r: Result<(ASTRoot, Vec<CompileError>), ParseAbort>)
    ensures
        r matches Ok((root, _)) ==> root.wf(),
        parse_outcome(r, sp_module(tokens@, mod_path@, module_id)),
{
    let ghost t = tokens@;
    let mut parser = Parser::new(opt, tokens);
    proof {
        let m = ms_of(parser);
        assert(funcs_v(parser.root.func_map@) =~= Map::<Seq<char>, FnV>::empty());
        assert(types_v(parser.root.type_map@) =~= Map::<Seq<char>, PTypeV>::empty());
        assert(parser.errors@ =~= Seq::<CompileError>::empty());
        assert(ms_of(parser).s == start_ms(t).s);
    }
    parser.toplevel(mod_path, module_id);
    let Parser { root, errors, aborted, .. } = parser;
    match aborted {
        Some(why) => Err(why),
        None => Ok((root, errors)),
    }
}

/// Parses a module that must come out without errors: the module, or the errors
/// found, or why the parse stopped for good.
pub fn parse_phase(
    build_option: &BuildOption,
    mod_path: &str,
    module_id: usize,
    tokens: Vec<Token>,
) -> (r: Result<ASTRoot, ParseFailure>)
    ensures
        r matches Ok(root) ==> root.wf(),
        r matches Err(ParseFailure::Errors(es)) ==> es@.len() > 0,
        ({
            let m = sp_module(tokens@, mod_path@, module_id);
            match r {
                Ok(root) => m.s.aborted is None && m.s.errs.len() == 0 && funcs_v(root.func_map@) == m.funcs
                    && types_v(root.type_map@) == m.types,
                Err(ParseFailure::Errors(es)) => m.s.aborted is None && es@ == m.s.errs,
                Err(ParseFailure::Aborted(why)) => m.s.aborted == Some(abort_v(why)),
            }
        }),
{
    match parse(build_option, mod_path, module_id, tokens) {
        Ok((root, errors)) => if errors.len() == 0 {
            Ok(root)
        } else {
            Err(ParseFailure::Errors(errors))
        },
        Err(why) => Err(ParseFailure::Aborted(why)),
    }
}

} // verus!
