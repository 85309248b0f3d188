use vstd::prelude::*;

use crate::ast::{ExpressionNode, ExpressionNodeKind, StatementNode, StatementNodeKind};
use crate::parse::path_at;
use crate::parser::{
    consumed, grows, kept, lemma_grows_budget, lemma_grows_progressed, lemma_grows_refl, lemma_step,
    lemma_then_leaf, reads, ParseAbort, Parser,
};
use crate::parse_spec::{
    kind_of, live, lemma_args_rest_step, lemma_stmts_rest_step, lemma_add_rest_step, lemma_mul_rest_step, sp_post_rest, sp_add_rest, sp_mul_rest, sp_args_rest, sp_stmts_rest, sp_asm_rest, sp_name, sp_progress, sp_eat, PS, lt, mono,
    hf_of, lemma_exprs_view_push, lemma_stmts_view_push, ps_of, sp_additive, sp_asm, sp_assignment, sp_compound,
    sp_countup, sp_expr_stmt, sp_expression, sp_identifier, sp_if, sp_kw_name, sp_multiplicative, sp_postfix,
    sp_primary, sp_return, sp_statement, sp_stop, sp_unary, sp_var_ids, sp_vardecl, sp_varinit, abort_v,
};
use crate::ident::strings_view;
use crate::position::Position;
use crate::pvariable::PVariable;
use crate::text::str_to_string;
use crate::token::{kind_text, TokenKind, TokenKindV};

verus! {

/// A stand-in expression, returned once the parse has stopped.
fn placeholder_expr() -> (e: ExpressionNode) {
    ExpressionNode::new_false(Position::new(0, 0))
}

/// A stand-in statement, returned once the parse has stopped.
fn placeholder_stmt() -> (s: StatementNode) {
    StatementNode::new_vardecl(Position::new(0, 0))
}

impl Parser {
    /// An expression: an `if` expression, or an assignment.
    pub fn expression(&mut self, func_name: &str) -> (e: ExpressionNode)
        requires
            old(self).wf(),
        ensures
            reads(*old(self), *final(self), func_name@),
            ps_of(*final(self), func_name@) == sp_expression(old(self).tokens@, ps_of(*old(self), func_name@), hf_of(*old(self), func_name@)).0,
            final(self).aborted is None ==> e@ == sp_expression(old(self).tokens@, ps_of(*old(self), func_name@), hf_of(*old(self), func_name@)).1,
            old(self).aborted is None && old(self).cur_kind() == TokenKind::IF@ && final(self).aborted is None
                ==> (e.kind is IF || e.kind is IFELSE),
        decreases old(self).budget(), 10nat,
    {
        if self.aborted.is_some() {
            return placeholder_expr();
        }
        if self.cur_token_is(&TokenKind::IF) {
            return self.if_expression(func_name);
        }
        self.assignment(func_name)
    }

    /// `if (condition) { ... }`, with an `else { ... }` where one follows.
    pub fn if_expression(&mut self, func_name: &str) -> (e: ExpressionNode)
        requires
            old(self).wf(),
        ensures
            reads(*old(self), *final(self), func_name@),
            ps_of(*final(self), func_name@) == sp_if(old(self).tokens@, ps_of(*old(self), func_name@), hf_of(*old(self), func_name@)).0,
            final(self).aborted is None ==> e@ == sp_if(old(self).tokens@, ps_of(*old(self), func_name@), hf_of(*old(self), func_name@)).1,
            final(self).aborted is None ==> (e.kind is IF || e.kind is IFELSE) && e.position == old(self).cur_pos(),
        decreases old(self).budget(), 9nat,
    {
        if self.aborted.is_some() {
            return placeholder_expr();
        }
        let ghost f = func_name@;
        let ghost p0 = *self;
        let cur_pos = self.current_position();
        self.progress();
        proof { lemma_grows_progressed(p0); }
        let ghost p1 = *self;
        self.expect(TokenKind::LPAREN);
        proof { lemma_then_leaf(p0, p1, *self, f); }
        let ghost p2 = *self;
        let condition = self.expression(func_name);
        proof { lemma_step(p0, p2, *self, f); }
        let ghost p3 = *self;
        self.expect(TokenKind::RPAREN);
        proof { lemma_then_leaf(p0, p3, *self, f); }
        let ghost p4 = *self;
        let body = self.compound_statement(func_name);
        proof { lemma_step(p0, p4, *self, f); }
        if self.aborted.is_some() {
            return ExpressionNode::new_if(condition, body, cur_pos);
        }
        if !self.cur_token_is(&TokenKind::ELSE) {
            return ExpressionNode::new_if(condition, body, cur_pos);
        }
        let ghost p5 = *self;
        self.progress();
        proof {
            lemma_grows_progressed(p5);
            lemma_then_leaf(p0, p5, *self, f);
        }
        let ghost p6 = *self;
        let else_body = self.compound_statement(func_name);
        proof { lemma_step(p0, p6, *self, f); }
        ExpressionNode::new_ifelse(condition, body, else_body, cur_pos)
    }

    /// An additive expression, with `= expression` where one follows.
    #[verifier::rlimit(100)]
    #[verifier::spinoff_prover]
    pub fn assignment(&mut self, func_name: &str) -> (e: ExpressionNode)
        requires
            old(self).wf(),
        ensures
            reads(*old(self), *final(self), func_name@),
            ps_of(*final(self), func_name@) == sp_assignment(old(self).tokens@, ps_of(*old(self), func_name@), hf_of(*old(self), func_name@)).0,
            final(self).aborted is None ==> e@ == sp_assignment(old(self).tokens@, ps_of(*old(self), func_name@), hf_of(*old(self), func_name@)).1,
        decreases old(self).budget(), 9nat,
    {
        if self.aborted.is_some() {
            return placeholder_expr();
        }
        let ghost f = func_name@;
        let ghost p0 = *self;
        proof { crate::parser::lemma_ps_live(p0, f); }
        let lval = self.additive(func_name);
        proof { crate::parser::lemma_ps_live(*self, f); }
        if self.aborted.is_some() {
            proof { assert(sp_assignment(p0.tokens@, ps_of(p0, f), hf_of(p0, f)) == sp_additive(p0.tokens@, ps_of(p0, f), hf_of(p0, f))); }
            return lval;
        }
        if !self.cur_token_is(&TokenKind::ASSIGN) {
            proof { assert(sp_assignment(p0.tokens@, ps_of(p0, f), hf_of(p0, f)) == sp_additive(p0.tokens@, ps_of(p0, f), hf_of(p0, f))); }
            return lval;
        }
        let cur_pos = self.current_position();
        let ghost p1 = *self;
        self.progress();
        proof {
            lemma_grows_progressed(p1);
            lemma_then_leaf(p0, p1, *self, f);
            crate::parser::lemma_ps_lt(p0, *self, f);
        }
        let ghost p2 = *self;
        let rval = self.expression(func_name);
        proof {
            lemma_step(p0, p2, *self, f);
            let t = p0.tokens@;
            let hf = hf_of(p0, f);
            let s0 = ps_of(p0, f);
            let s1 = ps_of(p1, f);
            assert(sp_additive(t, s0, hf).0 == s1);
            assert(live(t, s1) && kind_of(t, s1) == TokenKind::ASSIGN@);
            assert(sp_progress(t, s1) == ps_of(p2, f));
            assert(sp_assignment(t, s0, hf).0 == sp_expression(t, ps_of(p2, f), hf).0);
        }
        ExpressionNode::new_binary_expr("=", lval, rval, cur_pos)
    }

    /// Multiplicative expressions joined by `+` and `-`, from the left.
    #[verifier::rlimit(60)]
    #[verifier::spinoff_prover]
    pub fn additive(&mut self, func_name: &str) -> (e: ExpressionNode)
        requires
            old(self).wf(),
        ensures
            reads(*old(self), *final(self), func_name@),
            ps_of(*final(self), func_name@) == sp_additive(old(self).tokens@, ps_of(*old(self), func_name@), hf_of(*old(self), func_name@)).0,
            final(self).aborted is None ==> e@ == sp_additive(old(self).tokens@, ps_of(*old(self), func_name@), hf_of(*old(self), func_name@)).1,
        decreases old(self).budget(), 8nat,
    {
        if self.aborted.is_some() {
            return placeholder_expr();
        }
        let ghost f = func_name@;
        let ghost p0 = *self;
        let ghost t = p0.tokens@;
        let ghost hf = hf_of(p0, f);
        let ghost r = sp_additive(t, ps_of(p0, f), hf);
        let mut lop = self.multiplicative(func_name);
        proof {
            crate::parser::lemma_ps_live(p0, f);
            crate::parser::lemma_ps_mono(p0, *self, f);
        }
        loop
            invariant
                p0 == *old(self),
                p0.wf(),
                p0.aborted is None,
                f == func_name@,
                reads(p0, *self, f),
                t == p0.tokens@,
                hf == hf_of(p0, f),
                r == sp_additive(t, ps_of(p0, f), hf),
                sp_add_rest(t, ps_of(*self, f), hf, lop@).0 == r.0,
                r.0.aborted is None ==> sp_add_rest(t, ps_of(*self, f), hf, lop@).1 == r.1,
            ensures
                sp_add_rest(t, ps_of(*self, f), hf, lop@) == (ps_of(*self, f), lop@),
            decreases self.budget(),
        {
            proof { crate::parser::lemma_ps_live(*self, f); }
            if self.aborted.is_some() {
                break;
            }
            let cur_pos = self.current_position();
            let ghost q0 = *self;
            if self.eat_if_matched(&TokenKind::PLUS) {
                proof {
                    lemma_grows_progressed(q0);
                    lemma_then_leaf(p0, q0, *self, f);
                }
                let ghost q1 = *self;
                let rop = self.multiplicative(func_name);
                proof {
                    lemma_step(p0, q1, *self, f);
                    lemma_step(q0, q1, *self, f);
                    crate::parser::lemma_ps_lt(q0, *self, f);
                    crate::parser::lemma_ps_live(q0, f);
                    lemma_add_rest_step(t, ps_of(q0, f), ps_of(*self, f), hf, lop@, rop@);
                }
                lop = ExpressionNode::new_binary_expr("+", lop, rop, cur_pos);
            } else if self.eat_if_matched(&TokenKind::MINUS) {
                proof {
                    lemma_grows_progressed(q0);
                    lemma_then_leaf(p0, q0, *self, f);
                }
                let ghost q1 = *self;
                let rop = self.multiplicative(func_name);
                proof {
                    lemma_step(p0, q1, *self, f);
                    lemma_step(q0, q1, *self, f);
                    crate::parser::lemma_ps_lt(q0, *self, f);
                    crate::parser::lemma_ps_live(q0, f);
                    lemma_add_rest_step(t, ps_of(q0, f), ps_of(*self, f), hf, lop@, rop@);
                }
                lop = ExpressionNode::new_binary_expr("-", lop, rop, cur_pos);
            } else {
                break;
            }
        }
        lop
    }

    /// Unary expressions joined by `*` and `/`, from the left.
    #[verifier::rlimit(60)]
    #[verifier::spinoff_prover]
    pub fn multiplicative(&mut self, func_name: &str) -> (e: ExpressionNode)
        requires
            old(self).wf(),
        ensures
            reads(*old(self), *final(self), func_name@),
            ps_of(*final(self), func_name@) == sp_multiplicative(old(self).tokens@, ps_of(*old(self), func_name@), hf_of(*old(self), func_name@)).0,
            final(self).aborted is None ==> e@ == sp_multiplicative(old(self).tokens@, ps_of(*old(self), func_name@), hf_of(*old(self), func_name@)).1,
        decreases old(self).budget(), 7nat,
    {
        if self.aborted.is_some() {
            return placeholder_expr();
        }
        let ghost f = func_name@;
        let ghost p0 = *self;
        let ghost t = p0.tokens@;
        let ghost hf = hf_of(p0, f);
        let ghost r = sp_multiplicative(t, ps_of(p0, f), hf);
        let mut lop = self.unary(func_name);
        proof {
            crate::parser::lemma_ps_live(p0, f);
            crate::parser::lemma_ps_mono(p0, *self, f);
        }
        loop
            invariant
                p0 == *old(self),
                p0.wf(),
                p0.aborted is None,
                f == func_name@,
                reads(p0, *self, f),
                t == p0.tokens@,
                hf == hf_of(p0, f),
                r == sp_multiplicative(t, ps_of(p0, f), hf),
                sp_mul_rest(t, ps_of(*self, f), hf, lop@).0 == r.0,
                r.0.aborted is None ==> sp_mul_rest(t, ps_of(*self, f), hf, lop@).1 == r.1,
            ensures
                sp_mul_rest(t, ps_of(*self, f), hf, lop@) == (ps_of(*self, f), lop@),
            decreases self.budget(),
        {
            proof { crate::parser::lemma_ps_live(*self, f); }
            if self.aborted.is_some() {
                break;
            }
            let cur_pos = self.current_position();
            let ghost q0 = *self;
            if self.eat_if_matched(&TokenKind::ASTERISK) {
                proof {
                    lemma_grows_progressed(q0);
                    lemma_then_leaf(p0, q0, *self, f);
                }
                let ghost q1 = *self;
                let rop = self.unary(func_name);
                proof {
                    lemma_step(p0, q1, *self, f);
                    lemma_step(q0, q1, *self, f);
                    crate::parser::lemma_ps_lt(q0, *self, f);
                    crate::parser::lemma_ps_live(q0, f);
                    lemma_mul_rest_step(t, ps_of(q0, f), ps_of(*self, f), hf, lop@, rop@);
                }
                lop = ExpressionNode::new_binary_expr("*", lop, rop, cur_pos);
            } else if self.eat_if_matched(&TokenKind::SLASH) {
                proof {
                    lemma_grows_progressed(q0);
                    lemma_then_leaf(p0, q0, *self, f);
                }
                let ghost q1 = *self;
                let rop = self.unary(func_name);
                proof {
                    lemma_step(p0, q1, *self, f);
                    lemma_step(q0, q1, *self, f);
                    crate::parser::lemma_ps_lt(q0, *self, f);
                    crate::parser::lemma_ps_live(q0, f);
                    lemma_mul_rest_step(t, ps_of(q0, f), ps_of(*self, f), hf, lop@, rop@);
                }
                lop = ExpressionNode::new_binary_expr("/", lop, rop, cur_pos);
            } else {
                break;
            }
        }
        lop
    }

    /// A postfix expression, after a `+`, `-`, `*` or `&` where one stands.
    pub fn unary(&mut self, func_name: &str) -> (e: ExpressionNode)
        requires
            old(self).wf(),
        ensures
            reads(*old(self), *final(self), func_name@),
            ps_of(*final(self), func_name@) == sp_unary(old(self).tokens@, ps_of(*old(self), func_name@), hf_of(*old(self), func_name@)).0,
            final(self).aborted is None ==> e@ == sp_unary(old(self).tokens@, ps_of(*old(self), func_name@), hf_of(*old(self), func_name@)).1,
            old(self).aborted is None && final(self).aborted is None ==> {
                &&& old(self).cur_kind() == TokenKind::MINUS@ ==> e.kind is NEG
                &&& old(self).cur_kind() == TokenKind::ASTERISK@ ==> e.kind is DEREF
                &&& old(self).cur_kind() == TokenKind::AMPERSAND@ ==> e.kind is ADDRESS
            },
        decreases old(self).budget(), 6nat,
    {
        if self.aborted.is_some() {
            return placeholder_expr();
        }
        let ghost f = func_name@;
        let ghost p0 = *self;
        let cur_pos = self.current_position();
        let op: u8 = match self.current_token_kind() {
            TokenKind::PLUS => 1,
            TokenKind::MINUS => 2,
            TokenKind::ASTERISK => 3,
            TokenKind::AMPERSAND => 4,
            _ => 0,
        };
        if op == 0 {
            return self.postfix(func_name);
        }
        self.progress();
        proof { lemma_grows_progressed(p0); }
        let ghost p1 = *self;
        let value = self.postfix(func_name);
        proof { lemma_step(p0, p1, *self, f); }
        if op == 1 {
            value
        } else if op == 2 {
            ExpressionNode::new_unary_expr("-", value, cur_pos)
        } else if op == 3 {
            ExpressionNode::new_unary_expr("*", value, cur_pos)
        } else {
            ExpressionNode::new_unary_expr("&", value, cur_pos)
        }
    }

    /// A primary expression followed by any number of `.member`.
    pub fn postfix(&mut self, func_name: &str) -> (e: ExpressionNode)
        requires
            old(self).wf(),
        ensures
            reads(*old(self), *final(self), func_name@),
            ps_of(*final(self), func_name@) == sp_postfix(old(self).tokens@, ps_of(*old(self), func_name@), hf_of(*old(self), func_name@)).0,
            final(self).aborted is None ==> e@ == sp_postfix(old(self).tokens@, ps_of(*old(self), func_name@), hf_of(*old(self), func_name@)).1,
        decreases old(self).budget(), 5nat,
    {
        if self.aborted.is_some() {
            return placeholder_expr();
        }
        let ghost f = func_name@;
        let ghost p0 = *self;
        let ghost t = p0.tokens@;
        let ghost hf = hf_of(p0, f);
        let ghost r = sp_postfix(t, ps_of(p0, f), hf);
        let mut n = self.primary(func_name);
        proof {
            crate::parser::lemma_ps_live(p0, f);
            crate::parser::lemma_ps_mono(p0, *self, f);
        }
        loop
            invariant
                p0 == *old(self),
                p0.wf(),
                p0.aborted is None,
                f == func_name@,
                reads(p0, *self, f),
                t == p0.tokens@,
                hf == hf_of(p0, f),
                r == sp_postfix(t, ps_of(p0, f), hf),
                sp_post_rest(t, ps_of(*self, f), hf, n@).0 == r.0,
                r.0.aborted is None ==> sp_post_rest(t, ps_of(*self, f), hf, n@).1 == r.1,
            ensures
                sp_post_rest(t, ps_of(*self, f), hf, n@) == (ps_of(*self, f), n@),
            decreases self.budget(),
        {
            proof { crate::parser::lemma_ps_live(*self, f); }
            if self.aborted.is_some() {
                break;
            }
            let cur_pos = self.current_position();
            let ghost q0 = *self;
            if self.eat_if_matched(&TokenKind::DOT) {
                proof {
                    lemma_grows_progressed(q0);
                    lemma_then_leaf(p0, q0, *self, f);
                }
                let ghost q1 = *self;
                match self.expect_name() {
                    Some(member) => {
                        proof {
                            lemma_then_leaf(p0, q1, *self, f);
                            lemma_then_leaf(q0, q1, *self, f);
                            crate::parser::lemma_ps_lt(q0, *self, f);
                        }
                        n = ExpressionNode::new_member(n, member, cur_pos);
                    },
                    None => {
                        proof { lemma_then_leaf(p0, q1, *self, f); }
                        let ghost q2 = *self;
                        self.stop(ParseAbort::NameMissing);
                        proof { lemma_then_leaf(p0, q2, *self, f); }
                        break;
                    },
                }
            } else {
                break;
            }
        }
        n
    }

    /// A literal, a string literal (recorded in `func_name`), or a name or call.
    pub fn primary(&mut self, func_name: &str) -> (e: ExpressionNode)
        requires
            old(self).wf(),
        ensures
            reads(*old(self), *final(self), func_name@),
            ps_of(*final(self), func_name@) == sp_primary(old(self).tokens@, ps_of(*old(self), func_name@), hf_of(*old(self), func_name@)).0,
            final(self).aborted is None ==> e@ == sp_primary(old(self).tokens@, ps_of(*old(self), func_name@), hf_of(*old(self), func_name@)).1,
            old(self).aborted is None ==> match old(self).cur_kind() {
                TokenKindV::Int(v) => *final(self) == old(self).progressed()
                    && e == (ExpressionNode { kind: ExpressionNodeKind::INTEGER(v), position: old(self).cur_pos() }),
                TokenKindV::UInt(v) => *final(self) == old(self).progressed()
                    && e == (ExpressionNode { kind: ExpressionNodeKind::UNSIGNEDINTEGER(v), position: old(self).cur_pos() }),
                TokenKindV::Str(s) => e.kind is STRLIT,
                TokenKindV::Ident(_) => e.kind is IDENT || e.kind is CALL,
                TokenKindV::Other(k) => if k == TokenKind::TRUE {
                    *final(self) == old(self).progressed()
                        && e == (ExpressionNode { kind: ExpressionNodeKind::TRUE, position: old(self).cur_pos() })
                } else if k == TokenKind::FALSE {
                    *final(self) == old(self).progressed()
                        && e == (ExpressionNode { kind: ExpressionNodeKind::FALSE, position: old(self).cur_pos() })
                } else {
                    &&& final(self).keeps(*old(self))
                    &&& final(self).cur_token == old(self).cur_token
                    &&& final(self).aborted matches Some(ParseAbort::UnexpectedInPrimary { got })
                        && got@ == kind_text(old(self).cur_kind())
                },
            },
        decreases old(self).budget(), 4nat,
    {
        if self.aborted.is_some() {
            return placeholder_expr();
        }
        let ghost p0 = *self;
        let which: u8 = match self.current_token_kind() {
            TokenKind::INTEGER(_) => 1,
            TokenKind::UNSIGNEDINTEGER(_) => 2,
            TokenKind::STRLIT(_) => 3,
            TokenKind::IDENTIFIER(_) => 4,
            TokenKind::TRUE => 5,
            TokenKind::FALSE => 6,
            _ => 0,
        };
        if which == 1 {
            let e = self.integer_literal();
            proof { lemma_grows_progressed(p0); }
            e
        } else if which == 2 {
            let e = self.uint_literal();
            proof { lemma_grows_progressed(p0); }
            e
        } else if which == 3 {
            self.create_string_symbol(func_name)
        } else if which == 4 {
            self.identifier(func_name)
        } else if which == 5 {
            let e = self.boolean_literal(true);
            proof { lemma_grows_progressed(p0); }
            e
        } else if which == 6 {
            let e = self.boolean_literal(false);
            proof { lemma_grows_progressed(p0); }
            e
        } else {
            let got = str_to_string(self.current_token_kind().to_str());
            self.stop(ParseAbort::UnexpectedInPrimary { got });
            placeholder_expr()
        }
    }

    /// A path of names, with `( arguments )` making it a call where they follow.
    pub fn identifier(&mut self, func_name: &str) -> (e: ExpressionNode)
        requires
            old(self).wf(),
        ensures
            reads(*old(self), *final(self), func_name@),
            ps_of(*final(self), func_name@) == sp_identifier(old(self).tokens@, ps_of(*old(self), func_name@), hf_of(*old(self), func_name@)).0,
            final(self).aborted is None ==> e@ == sp_identifier(old(self).tokens@, ps_of(*old(self), func_name@), hf_of(*old(self), func_name@)).1,
            old(self).aborted is None ==> (e.kind is IDENT || e.kind is CALL),
            old(self).aborted is None && final(self).aborted is None ==> match path_at(
                old(self).tokens@,
                old(self).cur_token as int,
            ) {
                Some((ns, j)) => e.position == old(self).cur_pos() && if old(self).kind_at(j) == TokenKind::LPAREN@ {
                    e.kind matches ExpressionNodeKind::CALL(id, _) && id.names() == ns
                } else {
                    &&& e.kind matches ExpressionNodeKind::IDENT(id) && id.names() == ns
                    &&& final(self).lands(Some(j))
                    &&& final(self).keeps(*old(self))
                },
                None => false,
            },
        decreases old(self).budget(), 3nat,
    {
        if self.aborted.is_some() {
            return placeholder_expr();
        }
        let ghost f = func_name@;
        let ghost p0 = *self;
        let ghost t = p0.tokens@;
        let ghost hf = hf_of(p0, f);
        proof { crate::parser::lemma_ps_live(p0, f); }
        let cur_pos = self.current_position();
        let cur_ident = self.expect_identifier();
        let ghost p1 = *self;
        if self.aborted.is_some() {
            return ExpressionNode::new_ident(cur_ident, cur_pos);
        }
        if !self.eat_if_matched(&TokenKind::LPAREN) {
            return ExpressionNode::new_ident(cur_ident, cur_pos);
        }
        proof {
            lemma_grows_progressed(p1);
            lemma_then_leaf(p0, p1, *self, f);
            crate::parser::lemma_ps_lt(p0, *self, f);
        }
        let ghost p2 = *self;
        let ghost r = sp_args_rest(t, ps_of(p2, f), hf, Seq::empty());
        let mut args: Vec<ExpressionNode> = Vec::new();
        proof { assert(crate::ast::exprs_view(args@) =~= Seq::<crate::ast::ExprNodeV>::empty()); }
        loop
            invariant_except_break
                sp_args_rest(t, ps_of(*self, f), hf, crate::ast::exprs_view(args@)).0 == r.0,
                r.0.aborted is None ==> sp_args_rest(t, ps_of(*self, f), hf, crate::ast::exprs_view(args@)).1 == r.1,
            invariant
                p0 == *old(self),
                p0.wf(),
                p0.aborted is None,
                f == func_name@,
                reads(p0, *self, f),
                t == p0.tokens@,
                hf == hf_of(p0, f),
                r == sp_args_rest(t, ps_of(p2, f), hf, Seq::empty()),
            ensures
                ps_of(*self, f) == r.0,
                r.0.aborted is None ==> crate::ast::exprs_view(args@) == r.1,
            decreases self.budget(),
        {
            proof { crate::parser::lemma_ps_live(*self, f); }
            if self.aborted.is_some() {
                break;
            }
            let ghost q0 = *self;
            if self.eat_if_matched(&TokenKind::RPAREN) {
                proof { lemma_then_leaf(p0, q0, *self, f); }
                break;
            }
            let arg = self.expression(func_name);
            proof { lemma_step(p0, q0, *self, f); }
            let ghost av = crate::ast::exprs_view(args@);
            let ghost a = arg@;
            proof { lemma_exprs_view_push(args@, arg); }
            args.push(arg);
            let ghost q1 = *self;
            let _ = self.eat_if_matched(&TokenKind::COMMA);
            proof {
                lemma_then_leaf(p0, q1, *self, f);
                lemma_then_leaf(q0, q1, *self, f);
                crate::parser::lemma_ps_lt(q0, *self, f);
                lemma_args_rest_step(t, ps_of(q0, f), ps_of(*self, f), hf, av, a);
            }
        }
        ExpressionNode::new_call(cur_ident, args, cur_pos)
    }

    /// `{ statements }`; where no `{` stands, the parse stops.
    pub fn compound_statement(&mut self, func_name: &str) -> (stmts: Vec<StatementNode>)
        requires
            old(self).wf(),
        ensures
            reads(*old(self), *final(self), func_name@),
            ps_of(*final(self), func_name@) == sp_compound(old(self).tokens@, ps_of(*old(self), func_name@), hf_of(*old(self), func_name@)).0,
            final(self).aborted is None ==> crate::ast::stmts_view(stmts@) == sp_compound(old(self).tokens@, ps_of(*old(self), func_name@), hf_of(*old(self), func_name@)).1,
            old(self).aborted is None && old(self).cur_kind() != TokenKind::LBRACE@ ==> {
                &&& final(self).keeps(*old(self))
                &&& final(self).cur_token == old(self).cur_token
                &&& final(self).aborted matches Some(ParseAbort::BlockStartMissing { position, got })
                    && position == old(self).cur_pos() && got@ == kind_text(old(self).cur_kind())
            },
        decreases old(self).budget(), 13nat,
    {
        if self.aborted.is_some() {
            return Vec::new();
        }
        let ghost f = func_name@;
        let ghost p0 = *self;
        let ghost t = p0.tokens@;
        let ghost hf = hf_of(p0, f);
        proof { crate::parser::lemma_ps_live(p0, f); }
        let cur_pos = self.current_position();
        if !self.eat_if_matched(&TokenKind::LBRACE) {
            let got = str_to_string(self.current_token_kind().to_str());
            self.stop(ParseAbort::BlockStartMissing { position: cur_pos, got });
            return Vec::new();
        }
        proof { lemma_grows_progressed(p0); }
        let ghost p1 = *self;
        let ghost r = sp_stmts_rest(t, ps_of(p1, f), hf, Seq::empty());
        let mut statements: Vec<StatementNode> = Vec::new();
        proof { assert(crate::ast::stmts_view(statements@) =~= Seq::<crate::ast::StmtNodeV>::empty()); }
        loop
            invariant_except_break
                sp_stmts_rest(t, ps_of(*self, f), hf, crate::ast::stmts_view(statements@)).0 == r.0,
                r.0.aborted is None ==> sp_stmts_rest(t, ps_of(*self, f), hf, crate::ast::stmts_view(statements@)).1
                    == r.1,
            invariant
                p0 == *old(self),
                p0.wf(),
                p0.aborted is None,
                f == func_name@,
                reads(p0, *self, f),
                t == p0.tokens@,
                hf == hf_of(p0, f),
                r == sp_stmts_rest(t, ps_of(p1, f), hf, Seq::empty()),
            ensures
                ps_of(*self, f) == r.0,
                r.0.aborted is None ==> crate::ast::stmts_view(statements@) == r.1,
            decreases self.budget(),
        {
            proof { crate::parser::lemma_ps_live(*self, f); }
            if self.aborted.is_some() {
                break;
            }
            let ghost q0 = *self;
            if self.eat_if_matched(&TokenKind::RBRACE) {
                proof {
                    lemma_grows_progressed(q0);
                    lemma_then_leaf(p0, q0, *self, f);
                }
                break;
            }
            let st = self.statement(func_name);
            proof {
                lemma_step(p0, q0, *self, f);
                crate::parser::lemma_ps_lt(q0, *self, f);
                lemma_stmts_rest_step(t, ps_of(q0, f), ps_of(*self, f), hf, crate::ast::stmts_view(statements@), st@);
                lemma_stmts_view_push(statements@, st);
            }
            statements.push(st);
        }
        statements
    }

    /// A statement, chosen by its first token; anything else is an expression statement.
    pub fn statement(&mut self, func_name: &str) -> (st: StatementNode)
        requires
            old(self).wf(),
        ensures
            reads(*old(self), *final(self), func_name@),
            ps_of(*final(self), func_name@) == sp_statement(old(self).tokens@, ps_of(*old(self), func_name@), hf_of(*old(self), func_name@)).0,
            final(self).aborted is None ==> st@ == sp_statement(old(self).tokens@, ps_of(*old(self), func_name@), hf_of(*old(self), func_name@)).1,
            old(self).aborted is None && final(self).aborted is None ==> {
                let k = old(self).cur_kind();
                &&& k == TokenKind::RETURN@ ==> st.kind is RETURN
                &&& k == TokenKind::IFRET@ ==> st.kind is IFRET
                &&& k == TokenKind::DECLARE@ ==> st.kind is VARDECL
                &&& k == TokenKind::COUNTUP@ ==> st.kind is COUNTUP
                &&& k == TokenKind::ASM@ ==> st.kind is ASM
                &&& k == TokenKind::VARINIT@ || k == TokenKind::CONST@ ==> st.kind is VARINIT
                &&& k != TokenKind::RETURN@ && k != TokenKind::IFRET@ && k != TokenKind::DECLARE@
                    && k != TokenKind::COUNTUP@ && k != TokenKind::ASM@ && k != TokenKind::VARINIT@
                    && k != TokenKind::CONST@ ==> st.kind is EXPR
            },
        decreases old(self).budget(), 12nat,
    {
        if self.aborted.is_some() {
            return placeholder_stmt();
        }
        let which: u8 = match self.current_token_kind() {
            TokenKind::RETURN => 1,
            TokenKind::IFRET => 2,
            TokenKind::DECLARE => 3,
            TokenKind::COUNTUP => 4,
            TokenKind::ASM => 5,
            TokenKind::VARINIT => 6,
            TokenKind::CONST => 7,
            _ => 0,
        };
        if which == 1 {
            self.return_statement(func_name)
        } else if which == 2 {
            self.ifret_statement(func_name)
        } else if which == 3 {
            self.vardecl_statement(func_name)
        } else if which == 4 {
            self.countup_statement(func_name)
        } else if which == 5 {
            let ghost p0 = *self;
            let st = self.asm_statement(Ghost(func_name@));
            proof { assert(kept(p0, *self, func_name@)); }
            st
        } else if which == 6 {
            self.varinit_statement(func_name, false)
        } else if which == 7 {
            self.varinit_statement(func_name, true)
        } else {
            self.expression_statement(func_name)
        }
    }

    /// `return expression;`
    fn return_statement(&mut self, func_name: &str) -> (st: StatementNode)
        requires
            old(self).wf(),
            old(self).aborted is None,
            old(self).cur_kind() == TokenKind::RETURN@,
        ensures
            reads(*old(self), *final(self), func_name@),
            ps_of(*final(self), func_name@) == sp_return(old(self).tokens@, ps_of(*old(self), func_name@), hf_of(*old(self), func_name@)).0,
            final(self).aborted is None ==> st@ == sp_return(old(self).tokens@, ps_of(*old(self), func_name@), hf_of(*old(self), func_name@)).1,
            st.kind is RETURN && st.position == old(self).cur_pos(),
        decreases old(self).budget(), 11nat,
    {
        let ghost f = func_name@;
        let ghost p0 = *self;
        let cur_pos = self.current_position();
        self.progress();
        proof { lemma_grows_progressed(p0); }
        let ghost p1 = *self;
        let expr = self.expression(func_name);
        proof { lemma_step(p0, p1, *self, f); }
        let ghost p2 = *self;
        self.expect_semicolon(cur_pos);
        proof { lemma_then_leaf(p0, p2, *self, f); }
        StatementNode::new_return(expr, cur_pos)
    }

    /// `ifret expression;`
    fn ifret_statement(&mut self, func_name: &str) -> (st: StatementNode)
        requires
            old(self).wf(),
            old(self).aborted is None,
            old(self).cur_kind() == TokenKind::IFRET@,
        ensures
            reads(*old(self), *final(self), func_name@),
            ps_of(*final(self), func_name@) == sp_return(old(self).tokens@, ps_of(*old(self), func_name@), hf_of(*old(self), func_name@)).0,
            final(self).aborted is None ==> st@ == sp_return(old(self).tokens@, ps_of(*old(self), func_name@), hf_of(*old(self), func_name@)).1,
            st.kind is IFRET && st.position == old(self).cur_pos(),
        decreases old(self).budget(), 11nat,
    {
        let ghost f = func_name@;
        let ghost p0 = *self;
        let cur_pos = self.current_position();
        self.progress();
        proof { lemma_grows_progressed(p0); }
        let ghost p1 = *self;
        let expr = self.expression(func_name);
        proof { lemma_step(p0, p1, *self, f); }
        let ghost p2 = *self;
        self.expect_semicolon(cur_pos);
        proof { lemma_then_leaf(p0, p2, *self, f); }
        StatementNode::new_ifret(expr, cur_pos)
    }

    /// Reads a keyword and the name after it; where no name follows, the parse stops.
    pub fn skip_keyword_and_ident(&mut self) -> (r: (Position, String))
        requires
            old(self).wf(),
        ensures
            grows(*old(self), *final(self)),
            final(self).root == old(self).root,
            consumed(*old(self), *final(self)),
            old(self).aborted is None ==> r.0 == old(self).cur_pos(),
            old(self).aborted is None && final(self).aborted is None ==> old(self).cur_token + 1 < old(self).tokens@.len()
                && (old(self).kind_at(old(self).cur_token + 1) matches TokenKindV::Ident(n) && r.1@ == n),
            forall|f: Seq<char>| #[trigger] ps_of(*final(self), f) == sp_kw_name(old(self).tokens@, ps_of(*old(self), f)).0,
            final(self).aborted is None ==> forall|f: Seq<char>| r.1@ == (#[trigger] sp_kw_name(
                old(self).tokens@,
                ps_of(*old(self), f),
            )).1,
    {
        if self.aborted.is_some() {
            return (Position::new(0, 0), String::new());
        }
        let ghost p0 = *self;
        let cur_pos = self.current_position();
        self.progress();
        proof { lemma_grows_progressed(p0); }
        let ghost p1 = *self;
        match self.expect_name() {
            Some(name) => {
                proof { lemma_grows_progressed(p1); lemma_then_leaf(p0, p1, *self, Seq::empty()); }
                (cur_pos, name)
            },
            None => {
                proof { lemma_then_leaf(p0, p1, *self, Seq::empty()); }
                let ghost p2 = *self;
                self.stop(ParseAbort::NameMissing);
                proof { lemma_then_leaf(p0, p2, *self, Seq::empty()); }
                (cur_pos, String::new())
            },
        }
    }

    /// `declare name type;`, which adds a local variable to `func_name`.
    fn vardecl_statement(&mut self, func_name: &str) -> (st: StatementNode)
        requires
            old(self).wf(),
            old(self).aborted is None,
        ensures
            reads(*old(self), *final(self), func_name@),
            ps_of(*final(self), func_name@) == sp_vardecl(old(self).tokens@, ps_of(*old(self), func_name@), hf_of(*old(self), func_name@)).0,
            final(self).aborted is None ==> st@ == sp_vardecl(old(self).tokens@, ps_of(*old(self), func_name@), hf_of(*old(self), func_name@)).1,
            st.kind is VARDECL,
        decreases old(self).budget(), 11nat,
    {
        let ghost f = func_name@;
        let ghost p0 = *self;
        let (vardecl_pos, var_name) = self.skip_keyword_and_ident();
        proof { lemma_grows_refl(p0); lemma_then_leaf(p0, p0, *self, f); }
        let ghost p1 = *self;
        let ptype = self.expect_ptype();
        proof { lemma_then_leaf(p0, p1, *self, f); }
        let ghost p2 = *self;
        let declared_var = PVariable::new_local(ptype, false);
        let mut ids: Vec<String> = Vec::new();
        ids.push(var_name);
        self.add_local_var_to(func_name, ids, declared_var);
        proof { lemma_step(p0, p2, *self, f); }
        let ghost p3 = *self;
        self.expect_semicolon(vardecl_pos);
        proof { lemma_then_leaf(p0, p3, *self, f); }
        StatementNode::new_vardecl(vardecl_pos)
    }

    /// The path of the variable `ident`; where it is no variable, the parse stops.
    fn variable_ids(&mut self, ident: &ExpressionNode) -> (ids: Vec<String>)
        requires
            old(self).wf(),
        ensures
            grows(*old(self), *final(self)),
            final(self).root == old(self).root,
            old(self).aborted is None && ident.kind is IDENT ==> *final(self) == *old(self),
            forall|f: Seq<char>| #[trigger] ps_of(*final(self), f) == sp_var_ids(ps_of(*old(self), f), ident@).0,
            final(self).aborted is None ==> forall|f: Seq<char>| strings_view(ids@) == (#[trigger] sp_var_ids(
                ps_of(*old(self), f),
                ident@,
            )).1,
    {
        if self.aborted.is_some() {
            return Vec::new();
        }
        if let ExpressionNodeKind::IDENT(_) = &ident.kind {
            proof { lemma_grows_refl(*self); }
            ident.get_ident_ids()
        } else {
            self.stop(ParseAbort::NotAVariable);
            Vec::new()
        }
    }

    /// `countup name type from start to end { ... };`, which adds the loop variable to `func_name`.
    #[verifier::rlimit(40)]
    fn countup_statement(&mut self, func_name: &str) -> (st: StatementNode)
        requires
            old(self).wf(),
            old(self).aborted is None,
        ensures
            reads(*old(self), *final(self), func_name@),
            ps_of(*final(self), func_name@) == sp_countup(old(self).tokens@, ps_of(*old(self), func_name@), hf_of(*old(self), func_name@)).0,
            final(self).aborted is None ==> st@ == sp_countup(old(self).tokens@, ps_of(*old(self), func_name@), hf_of(*old(self), func_name@)).1,
            st.kind is COUNTUP && st.position == old(self).cur_pos(),
        decreases old(self).budget(), 11nat,
    {
        let ghost f = func_name@;
        let ghost p0 = *self;
        proof { crate::parser::lemma_ps_live(p0, f); }
        let cur_pos = self.current_position();
        self.progress();
        proof { lemma_grows_progressed(p0); }
        let ghost p1 = *self;
        let ident = self.primary(func_name);
        proof { lemma_step(p0, p1, *self, f); }
        let ghost p2 = *self;
        let ptype = self.expect_ptype();
        proof { lemma_then_leaf(p0, p2, *self, f); }
        let ghost p3 = *self;
        let ids = self.variable_ids(&ident);
        proof { lemma_then_leaf(p0, p3, *self, f); }
        let ghost p4 = *self;
        let loop_var = PVariable::new_local(ptype, false);
        self.add_local_var_to(func_name, ids, loop_var);
        proof { lemma_step(p0, p4, *self, f); }
        let ghost p5 = *self;
        self.expect(TokenKind::FROM);
        proof {
            lemma_then_leaf(p0, p5, *self, f);
            crate::parser::lemma_ps_mono(p0, *self, f);
        }
        let ghost p6 = *self;
        let start_expr = self.expression(func_name);
        proof { lemma_step(p0, p6, *self, f); }
        let ghost p7 = *self;
        self.expect(TokenKind::TO);
        proof {
            lemma_then_leaf(p0, p7, *self, f);
            crate::parser::lemma_ps_mono(p0, *self, f);
        }
        let ghost p8 = *self;
        let end_expr = self.expression(func_name);
        proof {
            lemma_step(p0, p8, *self, f);
            crate::parser::lemma_ps_lt(p0, *self, f);
        }
        let ghost p9 = *self;
        let body = self.compound_statement(func_name);
        proof { lemma_step(p0, p9, *self, f); }
        let ghost p10 = *self;
        self.expect_semicolon(cur_pos);
        proof { lemma_then_leaf(p0, p10, *self, f); }
        StatementNode::new_countup(ident, start_expr, end_expr, body, cur_pos)
    }

    /// `expression;`
    fn expression_statement(&mut self, func_name: &str) -> (st: StatementNode)
        requires
            old(self).wf(),
            old(self).aborted is None,
        ensures
            reads(*old(self), *final(self), func_name@),
            ps_of(*final(self), func_name@) == sp_expr_stmt(old(self).tokens@, ps_of(*old(self), func_name@), hf_of(*old(self), func_name@)).0,
            final(self).aborted is None ==> st@ == sp_expr_stmt(old(self).tokens@, ps_of(*old(self), func_name@), hf_of(*old(self), func_name@)).1,
            st.kind is EXPR && st.position == old(self).cur_pos(),
        decreases old(self).budget(), 11nat,
    {
        let ghost f = func_name@;
        let ghost p0 = *self;
        let cur_pos = self.current_position();
        let expr = self.expression(func_name);
        let ghost p1 = *self;
        self.expect_semicolon(cur_pos);
        proof { lemma_then_leaf(p0, p1, *self, f); }
        StatementNode::new_expr(expr, cur_pos)
    }

    /// `asm { "line", ... };`: the lines of inline assembly.
    fn asm_statement(&mut self, Ghost(f): Ghost<Seq<char>>) -> (st: StatementNode)
        requires
            old(self).wf(),
            old(self).aborted is None,
        ensures
            grows(*old(self), *final(self)),
            final(self).root == old(self).root,
            consumed(*old(self), *final(self)),
            st.kind is ASM && st.position == old(self).cur_pos(),
            ps_of(*final(self), f) == sp_asm(old(self).tokens@, ps_of(*old(self), f)).0,
            final(self).aborted is None ==> st@ == sp_asm(old(self).tokens@, ps_of(*old(self), f)).1,
    {
        let ghost p0 = *self;
        let ghost t = p0.tokens@;
        proof { crate::parser::lemma_ps_live(p0, f); }
        let cur_pos = self.current_position();
        self.progress();
        proof { lemma_grows_progressed(p0); }
        let ghost p1 = *self;
        if !self.eat_if_matched(&TokenKind::LBRACE) {
            self.stop(ParseAbort::AsmStartMissing);
            let no_lines: Vec<String> = Vec::new();
            proof {
                lemma_then_leaf(p0, p1, *self, Seq::empty());
                assert(strings_view(no_lines@) =~= Seq::<Seq<char>>::empty());
            }
            return StatementNode::new_asm(no_lines, cur_pos);
        }
        proof { lemma_grows_progressed(p1); lemma_then_leaf(p0, p1, *self, Seq::empty()); }
        let ghost p2 = *self;
        let ghost r = sp_asm_rest(t, ps_of(p2, f), Seq::empty());
        let mut asms: Vec<String> = Vec::new();
        proof { assert(strings_view(asms@) =~= Seq::<Seq<char>>::empty()); }
        loop
            invariant_except_break
                sp_asm_rest(t, ps_of(*self, f), strings_view(asms@)).0 == r.0,
                r.0.aborted is None ==> sp_asm_rest(t, ps_of(*self, f), strings_view(asms@)).1 == r.1,
            invariant
                p0.wf(),
                p0.aborted is None,
                grows(p0, *self),
                self.root == p0.root,
                consumed(p0, *self),
                t == p0.tokens@,
                r == sp_asm_rest(t, ps_of(p2, f), Seq::empty()),
            ensures
                ps_of(*self, f) == r.0,
                r.0.aborted is None ==> strings_view(asms@) == r.1,
            decreases self.budget(),
        {
            proof { crate::parser::lemma_ps_live(*self, f); }
            if self.aborted.is_some() {
                break;
            }
            let ghost q0 = *self;
            if self.eat_if_matched(&TokenKind::RBRACE) {
                proof { lemma_grows_progressed(q0); lemma_then_leaf(p0, q0, *self, Seq::empty()); }
                break;
            }
            if let TokenKind::STRLIT(_) = self.current_token_kind() {
                let (contents, hash, str_pos) = self.parse_string_literal();
                proof { lemma_grows_progressed(q0); lemma_then_leaf(p0, q0, *self, Seq::empty()); }
                let node = ExpressionNode::new_strlit(contents, hash, str_pos);
                let ghost before = asms@;
                asms.push(node.get_str_id());
                proof { assert(strings_view(asms@) =~= strings_view(before).push(asms@.last()@)); }
                let ghost q1 = *self;
                let _ = self.eat_if_matched(&TokenKind::COMMA);
                proof { lemma_then_leaf(p0, q1, *self, Seq::empty()); lemma_then_leaf(q0, q1, *self, Seq::empty()); }
            } else {
                self.stop(ParseAbort::ExpectedStringLiteral);
                proof { lemma_then_leaf(p0, q0, *self, Seq::empty()); }
                break;
            }
        }
        let ghost p3 = *self;
        self.expect_semicolon(cur_pos);
        proof { lemma_then_leaf(p0, p3, *self, Seq::empty()); }
        StatementNode::new_asm(asms, cur_pos)
    }

    /// `varinit name type = expression;` or, where `is_const`, `const name type = expression;`:
    /// adds the variable to `func_name`.
    fn varinit_statement(&mut self, func_name: &str, is_const: bool) -> (st: StatementNode)
        requires
            old(self).wf(),
            old(self).aborted is None,
            is_const == (old(self).cur_kind() == TokenKind::CONST@),
        ensures
            reads(*old(self), *final(self), func_name@),
            ps_of(*final(self), func_name@) == sp_varinit(old(self).tokens@, ps_of(*old(self), func_name@), hf_of(*old(self), func_name@)).0,
            final(self).aborted is None ==> st@ == sp_varinit(old(self).tokens@, ps_of(*old(self), func_name@), hf_of(*old(self), func_name@)).1,
            st.kind is VARINIT && st.position == old(self).cur_pos(),
        decreases old(self).budget(), 11nat,
    {
        let ghost f = func_name@;
        let ghost p0 = *self;
        let st_pos = self.current_position();
        self.progress();
        proof { lemma_grows_progressed(p0); }
        let ghost p1 = *self;
        let ident = self.primary(func_name);
        proof { lemma_step(p0, p1, *self, f); }
        let ghost p2 = *self;
        let ptype = self.expect_ptype();
        proof { lemma_then_leaf(p0, p2, *self, f); }
        let ghost p3 = *self;
        let ids = self.variable_ids(&ident);
        proof { lemma_then_leaf(p0, p3, *self, f); }
        let ghost p4 = *self;
        let declared_var = PVariable::new_local(ptype, is_const);
        self.add_local_var_to(func_name, ids, declared_var);
        proof { lemma_step(p0, p4, *self, f); }
        let ghost p5 = *self;
        self.expect(TokenKind::ASSIGN);
        proof { lemma_then_leaf(p0, p5, *self, f); }
        let ghost p6 = *self;
        let init_expression = self.expression(func_name);
        proof { lemma_step(p0, p6, *self, f); }
        let ghost p7 = *self;
        self.expect_semicolon(st_pos);
        proof { lemma_then_leaf(p0, p7, *self, f); }
        StatementNode::new_varinit(ident, init_expression, st_pos)
    }

    /// Stops the parse for `why`.
    pub fn stop(&mut self, why: ParseAbort)
        requires
            old(self).wf(),
        ensures
            grows(*old(self), *final(self)),
            final(self).root == old(self).root,
            old(self).aborted is Some ==> *final(self) == *old(self),
            old(self).aborted is None ==> *final(self) == old(self).stopped(why),
            forall|f: Seq<char>| #[trigger] ps_of(*final(self), f) == sp_stop(ps_of(*old(self), f), abort_v(why)),
    {
        proof {
            if self.aborted is None {
                crate::parser::lemma_ps_stopped(*self, why);
            }
        }
        if self.aborted.is_some() {
            return;
        }
        proof { assert(self.errors@.subrange(0, self.errors@.len() as int) =~= self.errors@); }
        self.aborted = Some(why);
    }
}

} // verus!
