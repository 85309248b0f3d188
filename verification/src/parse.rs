use vstd::prelude::*;

use crate::ast::{ExpressionNode, ExpressionNodeKind};
use crate::error::{CmpErrorKind, CompileError};
use crate::ident::IdentName;
use crate::parser::{
    consumed, grows, grows_module, kept, lemma_grows_if, lemma_grows_in_module, lemma_grows_progressed, lemma_grows_refl,
    lemma_same_root_kept, lemma_step, lemma_step_module, skip_past, ParseAbort, Parser,
};
use crate::parse_spec::{hf_of, sp_strlit, ps_of, sp_add_string, sp_ident, sp_name, sp_progress, sp_ptype, sp_semicolon, sbudget, path_fail, sp_stop, sp_land, PS};
use crate::position::Position;
use crate::ptype::{ptype_view, PType, PTypeKindV, PTypeV};
use crate::text::{str_hash, str_to_string, string_hash};
use crate::token::{kind_text, Token, TokenKind, TokenKindV};

verus! {

/// The names of a path `a::b::c` written from token `i`, and the token after it;
/// `None` where no name stands at `i` or the tokens run out.
pub open spec fn path_at(toks: Seq<Token>, i: int) -> Option<(Seq<Seq<char>>, int)>
    decreases toks.len() - i,
{
    if i < 0 || i >= toks.len() {
        None
    } else {
        match toks[i].kind@ {
            TokenKindV::Ident(n) => if i + 1 >= toks.len() {
                None
            } else if toks[i + 1].kind@ == TokenKind::DOUBLECOLON@ {
                if i + 2 >= toks.len() {
                    None
                } else {
                    match path_at(toks, i + 2) {
                        Some((ns, j)) => Some((seq![n] + ns, j)),
                        None => None,
                    }
                }
            } else {
                Some((seq![n], i + 1))
            },
            _ => None,
        }
    }
}

/// A path read from token `i` ends after it, and has at least one name.
pub proof fn lemma_path_at_advances(toks: Seq<Token>, i: int)
    ensures
        path_at(toks, i) matches Some((ns, j)) ==> i < j <= toks.len() && ns.len() >= 1,
    decreases toks.len() - i,
{
    if 0 <= i < toks.len() && toks[i].kind@ is Ident && i + 2 < toks.len() && toks[i + 1].kind@ == TokenKind::DOUBLECOLON@ {
        lemma_path_at_advances(toks, i + 2);
    }
}

/// The error recorded for a type that cannot be read at `p`.
pub open spec fn invalid_type_error(p: Position) -> CompileError {
    CompileError { kind: CmpErrorKind::GOTINVALIDPTYPE, position: p }
}

/// The error recorded for a statement or a name missing its end at `p`.
pub open spec fn semicolon_error(p: Position) -> CompileError {
    CompileError { kind: CmpErrorKind::STATEMENTMUSTBEENDEDWITHSEMICOLON, position: p }
}

/// A type of a fixed size written by one keyword.
pub open spec fn keyword_type(k: TokenKindV) -> Option<PTypeV> {
    if k == TokenKind::INT64@ {
        Some(PTypeV { kind: PTypeKindV::INT64, size: 8 })
    } else if k == TokenKind::UINT64@ {
        Some(PTypeV { kind: PTypeKindV::UINT64, size: 8 })
    } else if k == TokenKind::NORETURN@ {
        Some(PTypeV { kind: PTypeKindV::NORETURN, size: 0 })
    } else if k == TokenKind::STR@ {
        Some(PTypeV { kind: PTypeKindV::CONSTSTR, size: 8 })
    } else if k == TokenKind::BOOLEAN@ {
        Some(PTypeV { kind: PTypeKindV::BOOLEAN, size: 8 })
    } else {
        None
    }
}

/// The type written from token `i`, the token after it and the errors recorded on
/// the way; `None` where the parse stops. A path names a type not looked up yet,
/// `*` points to the type after it, and anything else is an invalid type: its
/// error is recorded and the parse goes on past the next `;`.
pub open spec fn ptype_at(toks: Seq<Token>, i: int) -> Option<(PTypeV, int, Seq<CompileError>)>
    decreases toks.len() - i,
{
    if i < 0 || i >= toks.len() {
        None
    } else if toks[i].kind@ is Ident {
        match path_at(toks, i) {
            Some((ns, j)) => Some((PTypeV { kind: PTypeKindV::UNRESOLVED(ns), size: 0 }, j, Seq::empty())),
            None => None,
        }
    } else if i + 1 >= toks.len() {
        None
    } else {
        match keyword_type(toks[i].kind@) {
            Some(t) => Some((t, i + 1, Seq::empty())),
            None => if toks[i].kind@ == TokenKind::ASTERISK@ {
                match ptype_at(toks, i + 1) {
                    Some((t, j, es)) => Some((PTypeV { kind: PTypeKindV::POINTER(Box::new(t), false), size: 8 }, j, es)),
                    None => None,
                }
            } else {
                match skip_past(toks, i + 1, TokenKind::SEMICOLON@) {
                    Some(j) => Some((PTypeV { kind: PTypeKindV::INVALID, size: 0 }, j, seq![invalid_type_error(toks[i].position)])),
                    None => None,
                }
            },
        }
    }
}

/// The type that a keyword names, where it names one.
fn keyword_ptype(k: &TokenKind) -> (r: Option<PType>)
    ensures
        match keyword_type(k@) {
            Some(t) => r matches Some(p) && ptype_view(p) == t,
            None => r is None,
        },
{
    match k {
        TokenKind::INT64 => Some(PType::new_int64()),
        TokenKind::UINT64 => Some(PType::new_uint64()),
        TokenKind::NORETURN => Some(PType::new_noreturn()),
        TokenKind::STR => Some(PType::new_conststr()),
        TokenKind::BOOLEAN => Some(PType::new_boolean()),
        _ => None,
    }
}

/// A stand-in expression, returned once the parse has stopped.
fn placeholder() -> (e: ExpressionNode) {
    ExpressionNode::new_false(Position::new(0, 0))
}

impl Parser {
    /// Reads a name: its text where the current token is one; else records that a
    /// statement misses its `;` and skips past the next `;`.
    pub fn expect_name(&mut self) -> (r: Option<String>)
        requires
            old(self).wf(),
        ensures
            grows(*old(self), *final(self)),
            final(self).root == old(self).root,
            final(self).wf(),
            old(self).aborted is Some ==> *final(self) == *old(self) && r is None,
            old(self).aborted is None ==> match old(self).cur_kind() {
                TokenKindV::Ident(n) => r matches Some(s) && s@ == n && *final(self) == old(self).progressed(),
                _ => r is None && if old(self).cur_token + 1 >= old(self).tokens@.len() {
                    final(self).aborted == Some(ParseAbort::TokensExhausted)
                } else {
                    &&& final(self).errors@ == old(self).errors@.push(semicolon_error(old(self).cur_pos()))
                    &&& final(self).tokens == old(self).tokens
                    &&& final(self).root == old(self).root
                    &&& final(self).build_option == old(self).build_option
                    &&& final(self).lands(skip_past(old(self).tokens@, old(self).cur_token + 1, TokenKind::SEMICOLON@))
                },
            },
            forall|f: Seq<char>| #[trigger] ps_of(*final(self), f) == sp_name(old(self).tokens@, ps_of(*old(self), f)).0,
            forall|f: Seq<char>| (#[trigger] sp_name(old(self).tokens@, ps_of(*old(self), f))).1 == match r {
                Some(x) => Some(x@),
                None => None::<Seq<char>>,
            },
    {
        proof { crate::parser::lemma_ps_progressed(*self); }
        if self.aborted.is_some() {
            return None;
        }
        let cur_pos = self.current_position();
        let cur_ident = self.current_token().get_ident_id();
        self.progress();
        match cur_ident {
            None => {
                self.detect_error(CompileError::new(CmpErrorKind::STATEMENTMUSTBEENDEDWITHSEMICOLON, cur_pos));
                None
            },
            Some(name) => Some(name),
        }
    }

    /// Reads the `;` that ends a statement begun at `stmt_pos`; where there is
    /// none, records the error and skips past the next `;`.
    pub fn expect_semicolon(&mut self, stmt_pos: Position)
        requires
            old(self).wf(),
        ensures
            grows(*old(self), *final(self)),
            final(self).root == old(self).root,
            final(self).wf(),
            old(self).aborted is Some ==> *final(self) == *old(self),
            old(self).aborted is None && old(self).cur_kind() == TokenKind::SEMICOLON@ ==> *final(self)
                == old(self).progressed(),
            old(self).aborted is None && old(self).cur_kind() != TokenKind::SEMICOLON@ ==> {
                &&& final(self).errors@ == old(self).errors@.push(semicolon_error(stmt_pos))
                &&& final(self).tokens == old(self).tokens
                &&& final(self).root == old(self).root
                &&& final(self).build_option == old(self).build_option
                &&& final(self).lands(skip_past(old(self).tokens@, old(self).cur_token as int, TokenKind::SEMICOLON@))
            },
            forall|f: Seq<char>| #[trigger] ps_of(*final(self), f) == sp_semicolon(old(self).tokens@, ps_of(*old(self), f), stmt_pos),
    {
        if !self.eat_if_matched(&TokenKind::SEMICOLON) {
            self.detect_error(CompileError::new(CmpErrorKind::STATEMENTMUSTBEENDEDWITHSEMICOLON, stmt_pos));
        }
    }

    /// Reads a path of names `a::b::c`; where no name stands, the parse stops.
    pub fn expect_identifier(&mut self) -> (r: IdentName)
        requires
            old(self).wf(),
        ensures
            consumed(*old(self), *final(self)),
            grows(*old(self), *final(self)),
            final(self).root == old(self).root,
            final(self).wf(),
            old(self).aborted is Some ==> *final(self) == *old(self),
            old(self).aborted is None ==> match path_at(old(self).tokens@, old(self).cur_token as int) {
                Some((ns, j)) => {
                    &&& r.names() == ns
                    &&& final(self).lands(Some(j))
                    &&& final(self).keeps(*old(self))
                },
                None => {
                    &&& final(self).aborted is Some
                    &&& final(self).keeps(*old(self))
                    &&& old(self).cur_token <= final(self).cur_token
                    &&& !(old(self).cur_kind() is Ident) ==> final(self).aborted == Some(
                        ParseAbort::ExpectedIdentifier { position: old(self).cur_pos() },
                    )
                },
            },
            forall|f: Seq<char>| #[trigger] ps_of(*final(self), f) == sp_ident(old(self).tokens@, ps_of(*old(self), f)).0,
            final(self).aborted is None ==> forall|f: Seq<char>| r.names() == (#[trigger] sp_ident(
                old(self).tokens@,
                ps_of(*old(self), f),
            )).1,
        decreases old(self).budget(),
    {
        proof { crate::parser::lemma_ps_progressed(*self); }
        if self.aborted.is_some() {
            return IdentName::new_terminated(String::new());
        }
        proof { lemma_path_at_advances(self.tokens@, self.cur_token as int); }
        let cur_pos = self.current_position();
        let cur_ident = match self.current_token().get_ident_id() {
            Some(n) => n,
            None => {
                let ghost p0 = *self;
                proof { crate::parser::lemma_ps_stopped(p0, ParseAbort::ExpectedIdentifier { position: cur_pos }); }
                self.aborted = Some(ParseAbort::ExpectedIdentifier { position: cur_pos });
                proof { lemma_grows_if(p0, *self, Seq::empty()); }
                return IdentName::new_terminated(String::new());
            },
        };
        let ghost p1 = *self;
        self.progress();
        let mut base = IdentName::new_terminated(cur_ident);
        if self.aborted.is_some() {
            return base;
        }
        if !self.cur_token_is(&TokenKind::DOUBLECOLON) {
            return base;
        }
        let ghost p2 = *self;
        self.progress();
        if self.aborted.is_some() {
            return base;
        }
        let ghost p3 = *self;
        let next = self.expect_identifier();
        base.append_next(next);
        proof {
            assert forall|f: Seq<char>| #[trigger] ps_of(*self, f) == sp_ident(p1.tokens@, ps_of(p1, f)).0 by {
                assert(ps_of(p3, f) == sp_progress(p1.tokens@, sp_progress(p1.tokens@, ps_of(p1, f))));
            }
        }
        base
    }

    /// Reads a type: a path, a keyword type, or `*` and a type; anything else is an
    /// invalid type, whose error is recorded.
    pub fn expect_ptype(&mut self) -> (r: PType)
        requires
            old(self).wf(),
        ensures
            grows(*old(self), *final(self)),
            final(self).root == old(self).root,
            final(self).wf(),
            old(self).aborted is Some ==> *final(self) == *old(self),
            old(self).aborted is None ==> match ptype_at(old(self).tokens@, old(self).cur_token as int) {
                Some((t, j, es)) => {
                    &&& ptype_view(r) == t
                    &&& final(self).lands(Some(j))
                    &&& final(self).errors@ == old(self).errors@ + es
                    &&& final(self).tokens == old(self).tokens
                    &&& final(self).root == old(self).root
                    &&& final(self).build_option == old(self).build_option
                },
                None => final(self).aborted is Some,
            },
            forall|f: Seq<char>| #[trigger] ps_of(*final(self), f) == sp_ptype(old(self).tokens@, ps_of(*old(self), f)).0,
            final(self).aborted is None ==> forall|f: Seq<char>| ptype_view(r) == (#[trigger] sp_ptype(
                old(self).tokens@,
                ps_of(*old(self), f),
            )).1,
        decreases old(self).budget(),
    {
        proof { crate::parser::lemma_ps_progressed(*self); }
        if self.aborted.is_some() {
            return PType::new_invalid();
        }
        let cur_pos = self.current_position();
        let ghost p0 = *self;
        if let TokenKind::IDENTIFIER(_) = self.current_token_kind() {
            let ident = self.expect_identifier();
            proof {
                if self.aborted is Some {
                    assert(self.errors@.subrange(0, p0.errors@.len() as int) =~= p0.errors@);
                }
            }
            return PType::new_unresolved(ident);
        }
        let ghost k = self.cur_kind();
        let ghost i = self.cur_token as int;
        let ptype_kind = self.current_token_kind().copy_kind();
        self.progress();
        proof {
            lemma_grows_progressed(p0);
            assert(p0.errors@ + Seq::<CompileError>::empty() =~= p0.errors@);
        }
        if self.aborted.is_some() {
            return PType::new_invalid();
        }
        proof {
            assert(!(k is Ident));
            assert(i + 1 < p0.tokens@.len());
            assert(ptype_at(p0.tokens@, i) == match keyword_type(k) {
                Some(t) => Some((t, i + 1, Seq::<CompileError>::empty())),
                None => if k == TokenKind::ASTERISK@ {
                    match ptype_at(p0.tokens@, i + 1) {
                        Some((t, j, es)) => Some((PTypeV { kind: PTypeKindV::POINTER(Box::new(t), false), size: 8 }, j, es)),
                        None => None,
                    }
                } else {
                    match skip_past(p0.tokens@, i + 1, TokenKind::SEMICOLON@) {
                        Some(j) => Some((PTypeV { kind: PTypeKindV::INVALID, size: 0 }, j, seq![invalid_type_error(p0.tokens@[i].position)])),
                        None => None,
                    }
                },
            });
        }
        match keyword_ptype(&ptype_kind) {
            Some(t) => {
                proof {
                    assert forall|f: Seq<char>| ptype_view(t) == (#[trigger] sp_ptype(p0.tokens@, ps_of(p0, f))).1 by {
                        assert(crate::parse_spec::kind_of(p0.tokens@, ps_of(p0, f)) == k);
                    }
                }
                t
            },
            None => if let TokenKind::ASTERISK = ptype_kind {
                let ghost mid = *self;
                let inner_type = self.expect_ptype();
                proof {
                    if self.aborted is None {
                        assert forall|f: Seq<char>| ptype_view(PType { kind: crate::ptype::PTypeKind::POINTER(Box::new(inner_type), false), size: 8 }) == (#[trigger] sp_ptype(
                            p0.tokens@,
                            ps_of(p0, f),
                        )).1 by {
                            assert(ps_of(mid, f) == sp_progress(p0.tokens@, ps_of(p0, f)));
                            assert(ptype_view(inner_type) == sp_ptype(p0.tokens@, ps_of(mid, f)).1);
                        }
                    }
                }
                PType::new_pointer(inner_type, false)
            } else {
                proof { assert(k != TokenKind::ASTERISK@); }
                self.detect_error(CompileError::new(CmpErrorKind::GOTINVALIDPTYPE, cur_pos));
                proof {
                    assert(self.errors@.subrange(0, p0.errors@.len() as int) =~= p0.errors@);
                }
                PType::new_invalid()
            },
        }
    }

    /// Skips a leading `require ( ... )`.
    pub fn skip_require(&mut self)
        requires
            old(self).wf(),
        ensures
            grows(*old(self), *final(self)),
            final(self).root == old(self).root,
            final(self).wf(),
            old(self).aborted is Some || old(self).cur_kind() != TokenKind::REQUIRE@ ==> *final(self) == *old(self),
            old(self).aborted is None && old(self).cur_kind() == TokenKind::REQUIRE@ ==> {
                &&& final(self).keeps(*old(self))
                &&& final(self).lands(skip_past(old(self).tokens@, old(self).cur_token as int, TokenKind::RPAREN@))
            },
    {
        if self.aborted.is_some() {
            return;
        }
        if self.cur_token_is(&TokenKind::REQUIRE) {
            let ghost start = self.cur_token as int;
            self.skip_past_kind(&TokenKind::RPAREN, Ghost(start));
        } else {
            proof { lemma_grows_refl(*self); }
        }
    }

    /// An integer literal; the current token must be one.
    pub fn integer_literal(&mut self) -> (e: ExpressionNode)
        requires
            old(self).wf(),
            old(self).aborted is None ==> old(self).cur_kind() is Int,
        ensures
            grows(*old(self), *final(self)),
            final(self).root == old(self).root,
            final(self).wf(),
            *final(self) == old(self).progressed(),
            old(self).aborted is None ==> (old(self).cur_kind() matches TokenKindV::Int(v)
                && e == (ExpressionNode { kind: ExpressionNodeKind::INTEGER(v), position: old(self).cur_pos() })),
    {
        if self.aborted.is_some() {
            return placeholder();
        }
        let cur_pos = self.current_position();
        let v = match self.current_token().get_int_value() {
            Some(v) => v,
            None => vstd::pervasive::unreached(),
        };
        self.progress();
        ExpressionNode::new_intlit(v, cur_pos)
    }

    /// An unsigned integer literal; the current token must be one.
    pub fn uint_literal(&mut self) -> (e: ExpressionNode)
        requires
            old(self).wf(),
            old(self).aborted is None ==> old(self).cur_kind() is UInt,
        ensures
            grows(*old(self), *final(self)),
            final(self).root == old(self).root,
            final(self).wf(),
            *final(self) == old(self).progressed(),
            old(self).aborted is None ==> (old(self).cur_kind() matches TokenKindV::UInt(v)
                && e == (ExpressionNode { kind: ExpressionNodeKind::UNSIGNEDINTEGER(v), position: old(self).cur_pos() })),
    {
        if self.aborted.is_some() {
            return placeholder();
        }
        let cur_pos = self.current_position();
        let v = match self.current_token().get_uint_value() {
            Some(v) => v,
            None => vstd::pervasive::unreached(),
        };
        self.progress();
        ExpressionNode::new_uintlit(v, cur_pos)
    }

    /// `true` or `false` at the current token.
    pub fn boolean_literal(&mut self, boolean: bool) -> (e: ExpressionNode)
        requires
            old(self).wf(),
        ensures
            grows(*old(self), *final(self)),
            final(self).root == old(self).root,
            final(self).wf(),
            *final(self) == old(self).progressed(),
            old(self).aborted is None ==> e == (ExpressionNode {
                kind: if boolean { ExpressionNodeKind::TRUE } else { ExpressionNodeKind::FALSE },
                position: old(self).cur_pos(),
            }),
    {
        if self.aborted.is_some() {
            return placeholder();
        }
        let cur_pos = self.current_position();
        self.progress();
        if boolean {
            ExpressionNode::new_true(cur_pos)
        } else {
            ExpressionNode::new_false(cur_pos)
        }
    }

    /// A string literal: its contents, their hash and its place; the current token
    /// must be one.
    pub fn parse_string_literal(&mut self) -> (r: (String, u64, Position))
        requires
            old(self).wf(),
            old(self).aborted is None ==> old(self).cur_kind() is Str,
        ensures
            grows(*old(self), *final(self)),
            final(self).root == old(self).root,
            final(self).wf(),
            *final(self) == old(self).progressed(),
            old(self).aborted is None ==> (old(self).cur_kind() matches TokenKindV::Str(s) && r.0@ == s
                && r.1 == str_hash(s) && r.2 == old(self).cur_pos()),
    {
        if self.aborted.is_some() {
            return (String::new(), 0, Position::new(0, 0));
        }
        let cur_pos = self.current_position();
        let contents = match self.current_token().get_str_id() {
            Some(c) => c,
            None => vstd::pervasive::unreached(),
        };
        self.progress();
        let hash = string_hash(&contents);
        (contents, hash, cur_pos)
    }

    /// A string literal, recorded with its hash among the strings of `func_name`.
    pub fn create_string_symbol(&mut self, func_name: &str) -> (e: ExpressionNode)
        requires
            old(self).wf(),
            old(self).aborted is None ==> old(self).cur_kind() is Str,
        ensures
            grows(*old(self), *final(self)),
            kept(*old(self), *final(self), func_name@),
            consumed(*old(self), *final(self)),
            final(self).cur_token == old(self).progressed().cur_token,
            final(self).aborted == old(self).progressed().aborted,
            final(self).errors == old(self).errors,
            old(self).aborted is None ==> (old(self).cur_kind() matches TokenKindV::Str(s) && (e.kind
                matches ExpressionNodeKind::STRLIT(c, h) && c@ == s && h == str_hash(s) && e.position
                == old(self).cur_pos())),
            old(self).progressed().aborted is None && old(self).root.func_map@.contains_key(func_name@)
                ==> (old(self).cur_kind() matches TokenKindV::Str(s) && final(self).root.func_map@[func_name@].strings@
                == old(self).root.func_map@[func_name@].strings@.insert(s, str_hash(s))),
            old(self).aborted is None ==> (old(self).cur_kind() matches TokenKindV::Str(c) && ps_of(
                *final(self),
                func_name@,
            ) == sp_strlit(old(self).tokens@, ps_of(*old(self), func_name@), hf_of(*old(self), func_name@), c)),
    {
        if self.aborted.is_some() {
            proof { lemma_grows_refl(*self); }
            return placeholder();
        }
        let ghost p0 = *self;
        proof { crate::parser::lemma_ps_progressed(p0); }
        let (contents, hash, cur_pos) = self.parse_string_literal();
        proof { lemma_grows_progressed(p0); }
        self.add_string_to(func_name, contents.clone(), hash);
        proof {
            assert(self.errors@.subrange(0, p0.errors@.len() as int) =~= p0.errors@);
        }
        ExpressionNode::new_strlit(contents, hash, cur_pos)
    }
}

} // verus!
