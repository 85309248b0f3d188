use vstd::prelude::*;

use crate::ast::{exprs_view, stmts_view, ExpressionNode, ExprNodeV, ExprV, StatementNode, StmtNodeV, StmtV};
use crate::error::CompileError;
use crate::parse::{keyword_type, path_at, semicolon_error, invalid_type_error};
use crate::parser::{skip_past, ParseAbort, Parser};
use crate::pfunction::path_key;
use crate::position::Position;
use crate::ptype::{PTypeKindV, PTypeV};
use crate::pvariable::{PVarKind, PVariable};
use crate::text::str_hash;
use crate::token::{kind_text, Token, TokenKind, TokenKindV};

verus! {

/// Why a parse stopped, with its texts as characters.
pub enum AbortV {
    ExpectedToken(Position, Seq<char>, Seq<char>),
    BlockStartMissing(Position, Seq<char>),
    AsmStartMissing,
    UnexpectedInPrimary(Seq<char>),
    ExpectedIdentifier(Position),
    NameMissing,
    NotAVariable,
    ExpectedStringLiteral,
    DuplicateVariable,
    DuplicateArgument,
    DuplicateTypedef,
    DuplicateFunction,
    TokensExhausted,
}

pub open spec fn abort_v(a: ParseAbort) -> AbortV {
    match a {
        ParseAbort::ExpectedToken { position, expected, got } => AbortV::ExpectedToken(position, expected@, got@),
        ParseAbort::BlockStartMissing { position, got } => AbortV::BlockStartMissing(position, got@),
        ParseAbort::AsmStartMissing => AbortV::AsmStartMissing,
        ParseAbort::UnexpectedInPrimary { got } => AbortV::UnexpectedInPrimary(got@),
        ParseAbort::ExpectedIdentifier { position } => AbortV::ExpectedIdentifier(position),
        ParseAbort::NameMissing => AbortV::NameMissing,
        ParseAbort::NotAVariable => AbortV::NotAVariable,
        ParseAbort::ExpectedStringLiteral => AbortV::ExpectedStringLiteral,
        ParseAbort::DuplicateVariable => AbortV::DuplicateVariable,
        ParseAbort::DuplicateArgument => AbortV::DuplicateArgument,
        ParseAbort::DuplicateTypedef => AbortV::DuplicateTypedef,
        ParseAbort::DuplicateFunction => AbortV::DuplicateFunction,
        ParseAbort::TokensExhausted => AbortV::TokensExhausted,
    }
}

/// A variable with its type as a value.
pub struct PVarV {
    pub kind: PVarKind,
    pub ptype: PTypeV,
    pub is_const: bool,
}

pub open spec fn pvar_v(v: PVariable) -> PVarV {
    PVarV { kind: v.kind, ptype: v.ptype@, is_const: v.is_const }
}

/// What a parse inside a function can change: the place (0 once stopped), why it
/// stopped, the errors, and the local variables and strings of the function.
pub struct PS {
    pub cur: int,
    pub aborted: Option<AbortV>,
    pub errs: Seq<CompileError>,
    pub locals: Map<Seq<char>, PVarV>,
    pub strings: Map<Seq<char>, u64>,
}

/// The state of a parser inside the function `f`.
pub open spec fn ps_of(p: Parser, f: Seq<char>) -> PS {
    PS {
        cur: if p.aborted is Some { 0 } else { p.cur_token as int },
        aborted: match p.aborted {
            Some(a) => Some(abort_v(a)),
            None => None,
        },
        errs: p.errors@,
        locals: if p.root.func_map@.contains_key(f) {
            p.root.func_map@[f].locals@.map_values(|v: PVariable| pvar_v(v))
        } else {
            Map::empty()
        },
        strings: if p.root.func_map@.contains_key(f) {
            p.root.func_map@[f].strings@
        } else {
            Map::empty()
        },
    }
}

/// How many tokens are left: none once stopped.
pub open spec fn sbudget(t: Seq<Token>, s: PS) -> nat {
    if s.aborted is Some || s.cur < 0 || s.cur >= t.len() {
        0
    } else {
        (t.len() - s.cur) as nat
    }
}

/// `b` has no more tokens left than `a`.
pub open spec fn mono(t: Seq<Token>, a: PS, b: PS) -> bool {
    sbudget(t, b) <= sbudget(t, a)
}

/// `b` has fewer tokens left than `a`.
pub open spec fn lt(t: Seq<Token>, a: PS, b: PS) -> bool {
    sbudget(t, b) < sbudget(t, a)
}

pub open spec fn kind_of(t: Seq<Token>, s: PS) -> TokenKindV {
    t[s.cur].kind@
}

pub open spec fn pos_of(t: Seq<Token>, s: PS) -> Position {
    t[s.cur].position
}

/// A stand-in value, for a parse that has stopped.
pub open spec fn no_expr() -> ExprNodeV {
    ExprNodeV { kind: ExprV::FALSE, position: Position { row: 0, col: 0 } }
}

pub open spec fn no_stmt() -> StmtNodeV {
    StmtNodeV { kind: StmtV::VARDECL, position: Position { row: 0, col: 0 } }
}

pub open spec fn sp_stop(s: PS, why: AbortV) -> PS {
    if s.aborted is Some {
        s
    } else {
        PS { cur: 0, aborted: Some(why), ..s }
    }
}

pub open spec fn sp_progress(t: Seq<Token>, s: PS) -> PS {
    if s.aborted is Some {
        s
    } else if s.cur + 1 < t.len() {
        PS { cur: s.cur + 1, ..s }
    } else {
        sp_stop(s, AbortV::TokensExhausted)
    }
}

/// At token `j`, or stopped where the tokens ran out.
pub open spec fn sp_land(s: PS, j: Option<int>) -> PS {
    match j {
        Some(j) => PS { cur: j, ..s },
        None => sp_stop(s, AbortV::TokensExhausted),
    }
}

/// Records `e` and skips past the first `;` from token `from`.
pub open spec fn sp_error_skip(t: Seq<Token>, s: PS, e: CompileError, from: int) -> PS {
    sp_land(PS { errs: s.errs.push(e), ..s }, skip_past(t, from, TokenKind::SEMICOLON@))
}

pub open spec fn sp_eat(t: Seq<Token>, s: PS, k: TokenKindV) -> (PS, bool) {
    if s.aborted is None && kind_of(t, s) == k {
        (sp_progress(t, s), true)
    } else {
        (s, false)
    }
}

pub open spec fn sp_expect(t: Seq<Token>, s: PS, k: TokenKindV) -> PS {
    if s.aborted is Some {
        s
    } else if kind_of(t, s) == k {
        sp_progress(t, s)
    } else {
        sp_stop(s, AbortV::ExpectedToken(pos_of(t, s), kind_text(k), kind_text(kind_of(t, s))))
    }
}

pub open spec fn sp_semicolon(t: Seq<Token>, s: PS, stmt_pos: Position) -> PS {
    if s.aborted is Some {
        s
    } else if kind_of(t, s) == TokenKind::SEMICOLON@ {
        sp_progress(t, s)
    } else {
        sp_error_skip(t, s, semicolon_error(stmt_pos), s.cur)
    }
}

/// A name: where none stands, a missing `;` is recorded.
pub open spec fn sp_name(t: Seq<Token>, s: PS) -> (PS, Option<Seq<char>>) {
    if s.aborted is Some {
        (s, None)
    } else {
        match kind_of(t, s) {
            TokenKindV::Ident(n) => (sp_progress(t, s), Some(n)),
            _ => if s.cur + 1 >= t.len() {
                (sp_stop(s, AbortV::TokensExhausted), None)
            } else {
                (sp_error_skip(t, s, semicolon_error(pos_of(t, s)), s.cur + 1), None)
            },
        }
    }
}

/// Why a path of names cannot be read from token `i`.
pub open spec fn path_fail(t: Seq<Token>, i: int) -> AbortV
    decreases t.len() - i,
{
    if i < 0 || i >= t.len() || !(t[i].kind@ is Ident) {
        AbortV::ExpectedIdentifier(if 0 <= i < t.len() { t[i].position } else { Position { row: 0, col: 0 } })
    } else if i + 1 >= t.len() {
        AbortV::TokensExhausted
    } else if t[i + 1].kind@ == TokenKind::DOUBLECOLON@ {
        if i + 2 >= t.len() {
            AbortV::TokensExhausted
        } else {
            path_fail(t, i + 2)
        }
    } else {
        AbortV::TokensExhausted
    }
}

/// A path of names.
pub open spec fn sp_ident(t: Seq<Token>, s: PS) -> (PS, Seq<Seq<char>>) {
    if s.aborted is Some {
        (s, Seq::empty())
    } else {
        match path_at(t, s.cur) {
            Some((ns, j)) => (sp_land(s, Some(j)), ns),
            None => (sp_stop(s, path_fail(t, s.cur)), Seq::empty()),
        }
    }
}

/// A type.
pub open spec fn sp_ptype(t: Seq<Token>, s: PS) -> (PS, PTypeV)
    decreases sbudget(t, s),
{
    let invalid = PTypeV { kind: PTypeKindV::INVALID, size: 0 };
    if s.aborted is Some || s.cur < 0 || s.cur >= t.len() {
        (s, invalid)
    } else if kind_of(t, s) is Ident {
        let (s1, ns) = sp_ident(t, s);
        (s1, PTypeV { kind: PTypeKindV::UNRESOLVED(ns), size: 0 })
    } else {
        let s1 = sp_progress(t, s);
        if s1.aborted is Some {
            (s1, invalid)
        } else {
            match keyword_type(kind_of(t, s)) {
                Some(ty) => (s1, ty),
                None => if kind_of(t, s) == TokenKind::ASTERISK@ {
                    let (s2, inner) = sp_ptype(t, s1);
                    (s2, PTypeV { kind: PTypeKindV::POINTER(Box::new(inner), false), size: 8 })
                } else {
                    (sp_error_skip(t, s1, invalid_type_error(pos_of(t, s)), s1.cur), invalid)
                },
            }
        }
    }
}

/// Adds a local variable of the path `ids`; a second one of the same path stops the parse.
pub open spec fn sp_add_local(s: PS, hf: bool, ids: Seq<Seq<char>>, v: PVarV) -> PS {
    if s.aborted is Some || !hf {
        s
    } else if s.locals.contains_key(path_key(ids)) {
        sp_stop(s, AbortV::DuplicateVariable)
    } else {
        PS { locals: s.locals.insert(path_key(ids), v), ..s }
    }
}

/// Records a string literal.
pub open spec fn sp_add_string(s: PS, hf: bool, c: Seq<char>, h: u64) -> PS {
    if s.aborted is Some || !hf {
        s
    } else {
        PS { strings: s.strings.insert(c, h), ..s }
    }
}

/// The parser stands on a token and has not stopped.
pub open spec fn live(t: Seq<Token>, s: PS) -> bool {
    s.aborted is None && 0 <= s.cur < t.len()
}

pub open spec fn at(k: ExprV, p: Position) -> ExprNodeV {
    ExprNodeV { kind: k, position: p }
}

pub open spec fn st_at(k: StmtV, p: Position) -> StmtNodeV {
    StmtNodeV { kind: k, position: p }
}

/// A string literal: read, and recorded with its hash in the function.
pub open spec fn sp_strlit(t: Seq<Token>, s: PS, hf: bool, c: Seq<char>) -> PS {
    sp_add_string(sp_progress(t, s), hf, c, str_hash(c))
}

/// A keyword and the name after it; where no name follows, the parse stops.
pub open spec fn sp_kw_name(t: Seq<Token>, s: PS) -> (PS, Seq<char>) {
    let s1 = sp_progress(t, s);
    let (s2, m) = sp_name(t, s1);
    match m {
        Some(n) => (s2, n),
        None => (sp_stop(s2, AbortV::NameMissing), Seq::empty()),
    }
}

/// The path of the variable that an expression names; anything else stops the parse.
pub open spec fn sp_var_ids(s: PS, e: ExprNodeV) -> (PS, Seq<Seq<char>>) {
    if s.aborted is Some {
        (s, Seq::empty())
    } else {
        match e.kind {
            ExprV::IDENT(ns) => (s, ns),
            _ => (sp_stop(s, AbortV::NotAVariable), Seq::empty()),
        }
    }
}

/// An expression: an `if` expression or an assignment.
pub open spec fn sp_expression(t: Seq<Token>, s: PS, hf: bool) -> (PS, ExprNodeV)
    decreases sbudget(t, s), 40nat,
{
    if !live(t, s) {
        (s, no_expr())
    } else if kind_of(t, s) == TokenKind::IF@ {
        sp_if(t, s, hf)
    } else {
        sp_assignment(t, s, hf)
    }
}

/// `if (condition) { ... }`, with `else { ... }` where it follows.
pub open spec fn sp_if(t: Seq<Token>, s: PS, hf: bool) -> (PS, ExprNodeV)
    decreases sbudget(t, s), 39nat,
{
    if !live(t, s) {
        (s, no_expr())
    } else {
        let p = pos_of(t, s);
        let s1 = sp_progress(t, s);
        let s2 = sp_expect(t, s1, TokenKind::LPAREN@);
        if !lt(t, s, s2) {
            (s2, no_expr())
        } else {
            let (s3, cond) = sp_expression(t, s2, hf);
            let s4 = sp_expect(t, s3, TokenKind::RPAREN@);
            if !lt(t, s, s4) {
                (s4, no_expr())
            } else {
                let (s5, body) = sp_compound(t, s4, hf);
                if s5.aborted is Some || kind_of(t, s5) != TokenKind::ELSE@ {
                    (s5, at(ExprV::IF(Box::new(cond), body), p))
                } else {
                    let s6 = sp_progress(t, s5);
                    if !lt(t, s, s6) {
                        (s6, no_expr())
                    } else {
                        let (s7, else_body) = sp_compound(t, s6, hf);
                        (s7, at(ExprV::IFELSE(Box::new(cond), body, else_body), p))
                    }
                }
            }
        }
    }
}

/// An additive expression, with `= expression` where it follows.
pub open spec fn sp_assignment(t: Seq<Token>, s: PS, hf: bool) -> (PS, ExprNodeV)
    decreases sbudget(t, s), 38nat,
{
    if !live(t, s) {
        (s, no_expr())
    } else {
        let (s1, l) = sp_additive(t, s, hf);
        if s1.aborted is Some || kind_of(t, s1) != TokenKind::ASSIGN@ {
            (s1, l)
        } else {
            let p = pos_of(t, s1);
            let s2 = sp_progress(t, s1);
            if !lt(t, s, s2) {
                (s2, l)
            } else {
                let (s3, r) = sp_expression(t, s2, hf);
                (s3, at(ExprV::ASSIGN(Box::new(l), Box::new(r)), p))
            }
        }
    }
}

pub open spec fn sp_additive(t: Seq<Token>, s: PS, hf: bool) -> (PS, ExprNodeV)
    decreases sbudget(t, s), 37nat,
{
    if !live(t, s) {
        (s, no_expr())
    } else {
        let (s1, l) = sp_multiplicative(t, s, hf);
        if !mono(t, s, s1) {
            (s1, l)
        } else {
            sp_add_rest(t, s1, hf, l)
        }
    }
}

/// `+ term` and `- term`, joined from the left onto `lop`.
pub open spec fn sp_add_rest(t: Seq<Token>, s: PS, hf: bool, lop: ExprNodeV) -> (PS, ExprNodeV)
    decreases sbudget(t, s), 36nat,
{
    if !live(t, s) {
        (s, lop)
    } else {
        let p = pos_of(t, s);
        if kind_of(t, s) == TokenKind::PLUS@ || kind_of(t, s) == TokenKind::MINUS@ {
            let s1 = sp_progress(t, s);
            let (s2, r) = sp_multiplicative(t, s1, hf);
            let joined = if kind_of(t, s) == TokenKind::PLUS@ {
                at(ExprV::ADD(Box::new(lop), Box::new(r)), p)
            } else {
                at(ExprV::SUB(Box::new(lop), Box::new(r)), p)
            };
            if !lt(t, s, s2) {
                (s2, joined)
            } else {
                sp_add_rest(t, s2, hf, joined)
            }
        } else {
            (s, lop)
        }
    }
}

pub open spec fn sp_multiplicative(t: Seq<Token>, s: PS, hf: bool) -> (PS, ExprNodeV)
    decreases sbudget(t, s), 35nat,
{
    if !live(t, s) {
        (s, no_expr())
    } else {
        let (s1, l) = sp_unary(t, s, hf);
        if !mono(t, s, s1) {
            (s1, l)
        } else {
            sp_mul_rest(t, s1, hf, l)
        }
    }
}

/// `* factor` and `/ factor`, joined from the left onto `lop`.
pub open spec fn sp_mul_rest(t: Seq<Token>, s: PS, hf: bool, lop: ExprNodeV) -> (PS, ExprNodeV)
    decreases sbudget(t, s), 34nat,
{
    if !live(t, s) {
        (s, lop)
    } else {
        let p = pos_of(t, s);
        if kind_of(t, s) == TokenKind::ASTERISK@ || kind_of(t, s) == TokenKind::SLASH@ {
            let s1 = sp_progress(t, s);
            let (s2, r) = sp_unary(t, s1, hf);
            let joined = if kind_of(t, s) == TokenKind::ASTERISK@ {
                at(ExprV::MUL(Box::new(lop), Box::new(r)), p)
            } else {
                at(ExprV::DIV(Box::new(lop), Box::new(r)), p)
            };
            if !lt(t, s, s2) {
                (s2, joined)
            } else {
                sp_mul_rest(t, s2, hf, joined)
            }
        } else {
            (s, lop)
        }
    }
}

/// A postfix expression after `+`, `-`, `*` or `&` where one stands.
pub open spec fn sp_unary(t: Seq<Token>, s: PS, hf: bool) -> (PS, ExprNodeV)
    decreases sbudget(t, s), 33nat,
{
    if !live(t, s) {
        (s, no_expr())
    } else {
        let p = pos_of(t, s);
        let k = kind_of(t, s);
        if k != TokenKind::PLUS@ && k != TokenKind::MINUS@ && k != TokenKind::ASTERISK@ && k != TokenKind::AMPERSAND@ {
            sp_postfix(t, s, hf)
        } else {
            let s1 = sp_progress(t, s);
            let (s2, v) = sp_postfix(t, s1, hf);
            (s2, if k == TokenKind::PLUS@ {
                v
            } else if k == TokenKind::MINUS@ {
                at(ExprV::NEG(Box::new(v)), p)
            } else if k == TokenKind::ASTERISK@ {
                at(ExprV::DEREF(Box::new(v)), p)
            } else {
                at(ExprV::ADDRESS(Box::new(v)), p)
            })
        }
    }
}

pub open spec fn sp_postfix(t: Seq<Token>, s: PS, hf: bool) -> (PS, ExprNodeV)
    decreases sbudget(t, s), 32nat,
{
    if !live(t, s) {
        (s, no_expr())
    } else {
        let (s1, n) = sp_primary(t, s, hf);
        if !mono(t, s, s1) {
            (s1, n)
        } else {
            sp_post_rest(t, s1, hf, n)
        }
    }
}

/// `.member` after `n`, any number of times.
pub open spec fn sp_post_rest(t: Seq<Token>, s: PS, hf: bool, n: ExprNodeV) -> (PS, ExprNodeV)
    decreases sbudget(t, s), 31nat,
{
    if !live(t, s) || kind_of(t, s) != TokenKind::DOT@ {
        (s, n)
    } else {
        let p = pos_of(t, s);
        let s1 = sp_progress(t, s);
        let (s2, m) = sp_name(t, s1);
        match m {
            Some(m) => if !lt(t, s, s2) {
                (s2, n)
            } else {
                sp_post_rest(t, s2, hf, at(ExprV::MEMBER(Box::new(n), m), p))
            },
            None => (sp_stop(s2, AbortV::NameMissing), n),
        }
    }
}

/// A literal, a string literal, or a name or call.
pub open spec fn sp_primary(t: Seq<Token>, s: PS, hf: bool) -> (PS, ExprNodeV)
    decreases sbudget(t, s), 30nat,
{
    if !live(t, s) {
        (s, no_expr())
    } else {
        let p = pos_of(t, s);
        match kind_of(t, s) {
            TokenKindV::Int(v) => (sp_progress(t, s), at(ExprV::INTEGER(v), p)),
            TokenKindV::UInt(v) => (sp_progress(t, s), at(ExprV::UNSIGNEDINTEGER(v), p)),
            TokenKindV::Str(c) => (sp_strlit(t, s, hf, c), at(ExprV::STRLIT(c, str_hash(c)), p)),
            TokenKindV::Ident(_) => sp_identifier(t, s, hf),
            TokenKindV::Other(k) => if k == TokenKind::TRUE {
                (sp_progress(t, s), at(ExprV::TRUE, p))
            } else if k == TokenKind::FALSE {
                (sp_progress(t, s), at(ExprV::FALSE, p))
            } else {
                (sp_stop(s, AbortV::UnexpectedInPrimary(kind_text(kind_of(t, s)))), no_expr())
            },
        }
    }
}

/// A path of names, a call where `(` follows.
pub open spec fn sp_identifier(t: Seq<Token>, s: PS, hf: bool) -> (PS, ExprNodeV)
    decreases sbudget(t, s), 29nat,
{
    if !live(t, s) {
        (s, no_expr())
    } else {
        let p = pos_of(t, s);
        let (s1, ns) = sp_ident(t, s);
        if s1.aborted is Some {
            (s1, at(ExprV::IDENT(ns), p))
        } else {
            let (s2, b) = sp_eat(t, s1, TokenKind::LPAREN@);
            if !b {
                (s1, at(ExprV::IDENT(ns), p))
            } else if !lt(t, s, s2) {
                (s2, at(ExprV::CALL(ns, Seq::empty()), p))
            } else {
                let (s3, args) = sp_args_rest(t, s2, hf, Seq::empty());
                (s3, at(ExprV::CALL(ns, args), p))
            }
        }
    }
}

/// Arguments up to `)`, each followed by a `,` where one stands.
pub open spec fn sp_args_rest(t: Seq<Token>, s: PS, hf: bool, args: Seq<ExprNodeV>) -> (PS, Seq<ExprNodeV>)
    decreases sbudget(t, s), 45nat,
{
    if !live(t, s) {
        (s, args)
    } else if kind_of(t, s) == TokenKind::RPAREN@ {
        (sp_progress(t, s), args)
    } else {
        let (s2, a) = sp_expression(t, s, hf);
        let s3 = sp_eat(t, s2, TokenKind::COMMA@).0;
        if !lt(t, s, s3) {
            (s3, args.push(a))
        } else {
            sp_args_rest(t, s3, hf, args.push(a))
        }
    }
}

/// `{ statements }`.
pub open spec fn sp_compound(t: Seq<Token>, s: PS, hf: bool) -> (PS, Seq<StmtNodeV>)
    decreases sbudget(t, s), 71nat,
{
    if !live(t, s) {
        (s, Seq::empty())
    } else if kind_of(t, s) != TokenKind::LBRACE@ {
        (sp_stop(s, AbortV::BlockStartMissing(pos_of(t, s), kind_text(kind_of(t, s)))), Seq::empty())
    } else {
        sp_stmts_rest(t, sp_progress(t, s), hf, Seq::empty())
    }
}

/// Statements up to `}`.
pub open spec fn sp_stmts_rest(t: Seq<Token>, s: PS, hf: bool, sts: Seq<StmtNodeV>) -> (PS, Seq<StmtNodeV>)
    decreases sbudget(t, s), 70nat,
{
    if !live(t, s) {
        (s, sts)
    } else if kind_of(t, s) == TokenKind::RBRACE@ {
        (sp_progress(t, s), sts)
    } else {
        let (s2, st) = sp_statement(t, s, hf);
        if !lt(t, s, s2) {
            (s2, sts.push(st))
        } else {
            sp_stmts_rest(t, s2, hf, sts.push(st))
        }
    }
}

/// A statement, chosen by its first token.
pub open spec fn sp_statement(t: Seq<Token>, s: PS, hf: bool) -> (PS, StmtNodeV)
    decreases sbudget(t, s), 58nat,
{
    if !live(t, s) {
        (s, no_stmt())
    } else {
        let k = kind_of(t, s);
        if k == TokenKind::RETURN@ || k == TokenKind::IFRET@ {
            sp_return(t, s, hf)
        } else if k == TokenKind::DECLARE@ {
            sp_vardecl(t, s, hf)
        } else if k == TokenKind::COUNTUP@ {
            sp_countup(t, s, hf)
        } else if k == TokenKind::ASM@ {
            sp_asm(t, s)
        } else if k == TokenKind::VARINIT@ || k == TokenKind::CONST@ {
            sp_varinit(t, s, hf)
        } else {
            sp_expr_stmt(t, s, hf)
        }
    }
}

/// `return expression;` or `ifret expression;`.
pub open spec fn sp_return(t: Seq<Token>, s: PS, hf: bool) -> (PS, StmtNodeV)
    decreases sbudget(t, s), 57nat,
{
    if !live(t, s) {
        (s, no_stmt())
    } else {
        let p = pos_of(t, s);
        let s1 = sp_progress(t, s);
        let (s2, e) = sp_expression(t, s1, hf);
        (sp_semicolon(t, s2, p), st_at(if kind_of(t, s) == TokenKind::RETURN@ { StmtV::RETURN(e) } else { StmtV::IFRET(e) }, p))
    }
}

/// `declare name type;`.
pub open spec fn sp_vardecl(t: Seq<Token>, s: PS, hf: bool) -> (PS, StmtNodeV)
    decreases sbudget(t, s), 57nat,
{
    if !live(t, s) {
        (s, no_stmt())
    } else {
        let p = pos_of(t, s);
        let (s1, name) = sp_kw_name(t, s);
        let (s2, ty) = sp_ptype(t, s1);
        let s3 = sp_add_local(s2, hf, seq![name], PVarV { kind: PVarKind::LOCAL(0), ptype: ty, is_const: false });
        (sp_semicolon(t, s3, p), st_at(StmtV::VARDECL, p))
    }
}

/// `countup name type from start to end { ... };`.
pub open spec fn sp_countup(t: Seq<Token>, s: PS, hf: bool) -> (PS, StmtNodeV)
    decreases sbudget(t, s), 57nat,
{
    if !live(t, s) {
        (s, no_stmt())
    } else {
        let p = pos_of(t, s);
        let s1 = sp_progress(t, s);
        let (s2, ident) = sp_primary(t, s1, hf);
        let (s3, ty) = sp_ptype(t, s2);
        let (s4, ids) = sp_var_ids(s3, ident);
        let s5 = sp_add_local(s4, hf, ids, PVarV { kind: PVarKind::LOCAL(0), ptype: ty, is_const: false });
        let s6 = sp_expect(t, s5, TokenKind::FROM@);
        if !mono(t, s, s6) {
            (s6, no_stmt())
        } else {
            let (s7, start) = sp_expression(t, s6, hf);
            let s8 = sp_expect(t, s7, TokenKind::TO@);
            if !mono(t, s, s8) {
                (s8, no_stmt())
            } else {
                let (s9, end) = sp_expression(t, s8, hf);
                if !lt(t, s, s9) {
                    (s9, no_stmt())
                } else {
                    let (s10, body) = sp_compound(t, s9, hf);
                    (sp_semicolon(t, s10, p), st_at(StmtV::COUNTUP(ident, start, end, body), p))
                }
            }
        }
    }
}

/// `varinit name type = expression;` or `const name type = expression;`.
pub open spec fn sp_varinit(t: Seq<Token>, s: PS, hf: bool) -> (PS, StmtNodeV)
    decreases sbudget(t, s), 57nat,
{
    if !live(t, s) {
        (s, no_stmt())
    } else {
        let p = pos_of(t, s);
        let is_const = kind_of(t, s) == TokenKind::CONST@;
        let s1 = sp_progress(t, s);
        let (s2, ident) = sp_primary(t, s1, hf);
        let (s3, ty) = sp_ptype(t, s2);
        let (s4, ids) = sp_var_ids(s3, ident);
        let s5 = sp_add_local(s4, hf, ids, PVarV { kind: PVarKind::LOCAL(0), ptype: ty, is_const });
        let s6 = sp_expect(t, s5, TokenKind::ASSIGN@);
        if !mono(t, s, s6) {
            (s6, no_stmt())
        } else {
            let (s7, init) = sp_expression(t, s6, hf);
            (sp_semicolon(t, s7, p), st_at(StmtV::VARINIT(ident, init), p))
        }
    }
}

/// `expression;`.
pub open spec fn sp_expr_stmt(t: Seq<Token>, s: PS, hf: bool) -> (PS, StmtNodeV)
    decreases sbudget(t, s), 57nat,
{
    if !live(t, s) {
        (s, no_stmt())
    } else {
        let p = pos_of(t, s);
        let (s1, e) = sp_expression(t, s, hf);
        (sp_semicolon(t, s1, p), st_at(StmtV::EXPR(e), p))
    }
}

/// `asm { "line", ... };`.
pub open spec fn sp_asm(t: Seq<Token>, s: PS) -> (PS, StmtNodeV) {
    if !live(t, s) {
        (s, no_stmt())
    } else {
        let p = pos_of(t, s);
        let s1 = sp_progress(t, s);
        let (s2, b) = sp_eat(t, s1, TokenKind::LBRACE@);
        if !b {
            (sp_stop(s2, AbortV::AsmStartMissing), st_at(StmtV::ASM(Seq::empty()), p))
        } else {
            let (s3, lines) = sp_asm_rest(t, s2, Seq::empty());
            (sp_semicolon(t, s3, p), st_at(StmtV::ASM(lines), p))
        }
    }
}

/// Lines of inline assembly up to `}`.
pub open spec fn sp_asm_rest(t: Seq<Token>, s: PS, lines: Seq<Seq<char>>) -> (PS, Seq<Seq<char>>)
    decreases sbudget(t, s),
{
    if !live(t, s) {
        (s, lines)
    } else if kind_of(t, s) == TokenKind::RBRACE@ {
        (sp_progress(t, s), lines)
    } else {
        match kind_of(t, s) {
            TokenKindV::Str(c) => {
                let s2 = sp_progress(t, s);
                let s3 = sp_eat(t, s2, TokenKind::COMMA@).0;
                sp_asm_rest(t, s3, lines.push(c))
            },
            _ => (sp_stop(s, AbortV::ExpectedStringLiteral), lines),
        }
    }
}

/// The value of a list with one more expression at its end.
pub proof fn lemma_exprs_view_push(s: Seq<ExpressionNode>, x: ExpressionNode)
    ensures
        exprs_view(s.push(x)) == exprs_view(s).push(x@),
    decreases s.len(),
{
    if s.len() == 0 {
        assert(s.push(x).drop_first() =~= Seq::<ExpressionNode>::empty());
        assert(exprs_view(Seq::<ExpressionNode>::empty()) =~= Seq::<ExprNodeV>::empty());
        assert(exprs_view(s) =~= Seq::<ExprNodeV>::empty());
        assert(exprs_view(s.push(x)) =~= exprs_view(s).push(x@));
    } else {
        assert(s.push(x).drop_first() =~= s.drop_first().push(x));
        lemma_exprs_view_push(s.drop_first(), x);
        assert(s.push(x)[0] == s[0]);
        assert(exprs_view(s.push(x)) =~= exprs_view(s).push(x@));
    }
}

/// The value of a list with one more statement at its end.
pub proof fn lemma_stmts_view_push(s: Seq<StatementNode>, x: StatementNode)
    ensures
        stmts_view(s.push(x)) == stmts_view(s).push(x@),
    decreases s.len(),
{
    if s.len() == 0 {
        assert(s.push(x).drop_first() =~= Seq::<StatementNode>::empty());
        assert(stmts_view(Seq::<StatementNode>::empty()) =~= Seq::<StmtNodeV>::empty());
        assert(stmts_view(s) =~= Seq::<StmtNodeV>::empty());
        assert(stmts_view(s.push(x)) =~= stmts_view(s).push(x@));
    } else {
        assert(s.push(x).drop_first() =~= s.drop_first().push(x));
        lemma_stmts_view_push(s.drop_first(), x);
        assert(s.push(x)[0] == s[0]);
        assert(stmts_view(s.push(x)) =~= stmts_view(s).push(x@));
    }
}

/// Whether the parser's module has the function `f`.
pub open spec fn hf_of(p: Parser, f: Seq<char>) -> bool {
    p.root.func_map@.contains_key(f)
}

/// One `+ term` or `- term` step of an additive expression.
pub proof fn lemma_add_rest_step(t: Seq<Token>, s0: PS, s2: PS, hf: bool, l0: ExprNodeV, r: ExprNodeV)
    requires
        live(t, s0),
        kind_of(t, s0) == TokenKind::PLUS@ || kind_of(t, s0) == TokenKind::MINUS@,
        sp_multiplicative(t, sp_progress(t, s0), hf).0 == s2,
        s2.aborted is None ==> sp_multiplicative(t, sp_progress(t, s0), hf).1 == r,
        lt(t, s0, s2),
    ensures
        ({
            let joined = if kind_of(t, s0) == TokenKind::PLUS@ {
                at(ExprV::ADD(Box::new(l0), Box::new(r)), pos_of(t, s0))
            } else {
                at(ExprV::SUB(Box::new(l0), Box::new(r)), pos_of(t, s0))
            };
            &&& sp_add_rest(t, s0, hf, l0).0 == sp_add_rest(t, s2, hf, joined).0
            &&& s2.aborted is None ==> sp_add_rest(t, s0, hf, l0) == sp_add_rest(t, s2, hf, joined)
        }),
{
    reveal_with_fuel(sp_add_rest, 2);
}

/// One `* factor` or `/ factor` step of a multiplicative expression.
pub proof fn lemma_mul_rest_step(t: Seq<Token>, s0: PS, s2: PS, hf: bool, l0: ExprNodeV, r: ExprNodeV)
    requires
        live(t, s0),
        kind_of(t, s0) == TokenKind::ASTERISK@ || kind_of(t, s0) == TokenKind::SLASH@,
        sp_unary(t, sp_progress(t, s0), hf).0 == s2,
        s2.aborted is None ==> sp_unary(t, sp_progress(t, s0), hf).1 == r,
        lt(t, s0, s2),
    ensures
        ({
            let joined = if kind_of(t, s0) == TokenKind::ASTERISK@ {
                at(ExprV::MUL(Box::new(l0), Box::new(r)), pos_of(t, s0))
            } else {
                at(ExprV::DIV(Box::new(l0), Box::new(r)), pos_of(t, s0))
            };
            &&& sp_mul_rest(t, s0, hf, l0).0 == sp_mul_rest(t, s2, hf, joined).0
            &&& s2.aborted is None ==> sp_mul_rest(t, s0, hf, l0) == sp_mul_rest(t, s2, hf, joined)
        }),
{
    reveal_with_fuel(sp_mul_rest, 2);
}

/// One argument step of a call.
pub proof fn lemma_args_rest_step(t: Seq<Token>, s0: PS, s3: PS, hf: bool, av: Seq<ExprNodeV>, a: ExprNodeV)
    requires
        live(t, s0),
        kind_of(t, s0) != TokenKind::RPAREN@,
        s3 == sp_eat(t, sp_expression(t, s0, hf).0, TokenKind::COMMA@).0,
        sp_expression(t, s0, hf).0.aborted is None ==> sp_expression(t, s0, hf).1 == a,
        lt(t, s0, s3),
    ensures
        sp_args_rest(t, s0, hf, av).0 == sp_args_rest(t, s3, hf, av.push(a)).0,
        s3.aborted is None ==> sp_args_rest(t, s0, hf, av) == sp_args_rest(t, s3, hf, av.push(a)),
{
    reveal_with_fuel(sp_args_rest, 2);
}

/// One statement step of a block.
pub proof fn lemma_stmts_rest_step(t: Seq<Token>, s0: PS, s2: PS, hf: bool, sv: Seq<StmtNodeV>, st: StmtNodeV)
    requires
        live(t, s0),
        kind_of(t, s0) != TokenKind::RBRACE@,
        s2 == sp_statement(t, s0, hf).0,
        s2.aborted is None ==> sp_statement(t, s0, hf).1 == st,
        lt(t, s0, s2),
    ensures
        sp_stmts_rest(t, s0, hf, sv).0 == sp_stmts_rest(t, s2, hf, sv.push(st)).0,
        s2.aborted is None ==> sp_stmts_rest(t, s0, hf, sv) == sp_stmts_rest(t, s2, hf, sv.push(st)),
{
    reveal_with_fuel(sp_stmts_rest, 2);
}

} // verus!
