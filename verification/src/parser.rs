use vstd::prelude::*;

use crate::ast::StatementNode;
use crate::error::CompileError;
use crate::ident::strings_view;
use crate::name_map::NameMap;
use crate::option::BuildOption;
use crate::pfunction::{join_path, path_key, PFunction};
use crate::position::Position;
use crate::ptype::PType;
use crate::pvariable::PVariable;
use crate::root::ASTRoot;
use crate::text::str_to_string;
use crate::token::{kind_text, Token, TokenKind, TokenKindV};
use crate::parse_spec::{
    abort_v, kind_of, live, lt, mono, pos_of, ps_of, pvar_v, sbudget, sp_add_local, sp_add_string, sp_eat, sp_error_skip, sp_expect, sp_progress, sp_stop, AbortV, PS,
};

verus! {

/// Why a parse stopped for good: the input cannot be parsed on from there.
#[derive(Debug, PartialEq, Eq)]
pub enum ParseAbort {
    /// A token that had to come did not: where, the token's text, and the text of the one found.
    ExpectedToken { position: Position, expected: String, got: String },
    /// A block did not begin with `{`: where, and the text of the token found.
    BlockStartMissing { position: Position, got: String },
    /// An `asm` statement did not go on with `{`.
    AsmStartMissing,
    /// A token that cannot begin a primary expression (its text).
    UnexpectedInPrimary { got: String },
    /// A name was expected where there was none.
    ExpectedIdentifier { position: Position },
    /// A name was expected after `.` or after `declare`.
    NameMissing,
    /// A variable was expected where another expression stands.
    NotAVariable,
    /// A line of inline assembly was expected where another token stands.
    ExpectedStringLiteral,
    /// A variable declared twice in one function.
    DuplicateVariable,
    /// A parameter name used twice in one function.
    DuplicateArgument,
    /// A type alias defined twice.
    DuplicateTypedef,
    /// A function defined twice.
    DuplicateFunction,
    /// The tokens ran out.
    TokensExhausted,
}

/// The state of a parse of one module's tokens.
pub struct Parser {
    pub build_option: BuildOption,
    pub cur_token: usize,
    pub next_token: usize,
    pub row: usize,
    pub col: usize,
    pub errors: Vec<CompileError>,
    pub tokens: Vec<Token>,
    pub root: ASTRoot,
    /// Where the parse stopped for good, and why; nothing changes after that.
    pub aborted: Option<ParseAbort>,
}

/// The first token past the first token of kind `k` at or after `i`, skipping one
/// token at a time; `None` where the tokens run out first.
pub open spec fn skip_past(toks: Seq<Token>, i: int, k: TokenKindV) -> Option<int>
    decreases toks.len() - i,
{
    if i < 0 || i + 1 >= toks.len() {
        None
    } else if toks[i].kind@ == k {
        Some(i + 1)
    } else {
        skip_past(toks, i + 1, k)
    }
}

/// `new` is what a parse can make of `old` inside a function: the same tokens and
/// options, the same type aliases, the same set of functions, errors only added,
/// the place never moved back, and nothing changed once the parse has stopped.
pub open spec fn grows(old: Parser, new: Parser) -> bool {
    &&& new.wf()
    &&& (old.aborted is Some ==> new == old)
    &&& old.aborted is None ==> {
        &&& new.tokens == old.tokens
        &&& new.build_option == old.build_option
        &&& old.cur_token <= new.cur_token
        &&& old.errors@.len() <= new.errors@.len()
        &&& new.errors@.subrange(0, old.errors@.len() as int) == old.errors@
        &&& new.root.type_map == old.root.type_map
        &&& new.root.func_map@.dom() == old.root.func_map@.dom()
    }
}

/// The functions other than `fname` are as they were, and `fname` has the same
/// name, place, type and parameters.
pub open spec fn kept(old: Parser, new: Parser, fname: Seq<char>) -> bool {
    &&& forall|k: Seq<char>| k != fname && #[trigger] old.root.func_map@.contains_key(k)
        ==> new.root.func_map@[k] == old.root.func_map@[k]
    &&& old.root.func_map@.contains_key(fname) ==> crate::pfunction::same_shape(
        old.root.func_map@[fname],
        new.root.func_map@[fname],
    )
}

/// `new` is what a parse can make of `old` at the top of a module: the same tokens
/// and options, type aliases and functions only added, errors only added, the
/// place never moved back, and nothing changed once the parse has stopped.
pub open spec fn grows_module(old: Parser, new: Parser) -> bool {
    &&& new.wf()
    &&& (old.aborted is Some ==> new == old)
    &&& old.aborted is None ==> {
        &&& new.tokens == old.tokens
        &&& new.build_option == old.build_option
        &&& old.cur_token <= new.cur_token
        &&& old.errors@.len() <= new.errors@.len()
        &&& new.errors@.subrange(0, old.errors@.len() as int) == old.errors@
        &&& forall|k: Seq<char>| #[trigger] old.root.type_map@.contains_key(k)
            ==> new.root.type_map@.contains_key(k) && new.root.type_map@[k] == old.root.type_map@[k]
        &&& forall|k: Seq<char>| #[trigger] old.root.func_map@.contains_key(k)
            ==> new.root.func_map@.contains_key(k) && new.root.func_map@[k] == old.root.func_map@[k]
    }
}

/// `new` has read at least one token of `old`, or the parse has stopped.
pub open spec fn consumed(old: Parser, new: Parser) -> bool {
    old.aborted is None ==> new.budget() < old.budget()
}

/// A step that keeps the tokens, options and module, adds `extra` to the errors,
/// and never moves back, grows the parser.
pub proof fn lemma_grows_if(a: Parser, b: Parser, extra: Seq<CompileError>)
    requires
        b.wf(),
        b.tokens == a.tokens,
        b.build_option == a.build_option,
        a.cur_token <= b.cur_token,
        b.errors@ =~= a.errors@ + extra,
        b.root == a.root,
        a.aborted is Some ==> b == a,
    ensures
        grows(a, b),
        forall|f: Seq<char>| kept(a, b, f),
{
    assert(b.errors@.subrange(0, a.errors@.len() as int) =~= a.errors@);
}

/// A parser grows into itself.
pub proof fn lemma_grows_refl(p: Parser)
    requires
        p.wf(),
    ensures
        grows(p, p),
        grows_module(p, p),
        forall|f: Seq<char>| kept(p, p, f),
{
    assert(p.errors@.subrange(0, p.errors@.len() as int) =~= p.errors@);
}

/// Growing never adds to what is left to read.
pub proof fn lemma_grows_budget(a: Parser, b: Parser)
    requires
        a.wf(),
        grows(a, b) || grows_module(a, b),
    ensures
        b.budget() <= a.budget(),
        a.aborted is None ==> a.budget() >= 1,
{
    if a.aborted is Some {
        assert(b == a);
    } else if b.aborted is None {
        assert(b.tokens@.len() == a.tokens@.len());
    }
}

/// Two steps of a parse inside function `f` make one, which has consumed input
/// where either step did.
pub proof fn lemma_step(a: Parser, b: Parser, c: Parser, f: Seq<char>)
    requires
        a.wf(),
        grows(a, b),
        kept(a, b, f),
        grows(b, c),
        kept(b, c, f),
    ensures
        grows(a, c),
        kept(a, c, f),
        a.aborted is None && (consumed(a, b) || consumed(b, c)) ==> consumed(a, c),
{
    assert(c.errors@.subrange(0, a.errors@.len() as int) =~= c.errors@.subrange(0, b.errors@.len() as int).subrange(
        0,
        a.errors@.len() as int,
    ));
    assert forall|k: Seq<char>| k != f && #[trigger] a.root.func_map@.contains_key(k) implies c.root.func_map@[k]
        == a.root.func_map@[k] by {
        assert(b.root.func_map@.contains_key(k));
    }
    lemma_grows_budget(a, b);
    lemma_grows_budget(b, c);
    if a.aborted is None && b.aborted is Some {
        assert(c == b);
    }
}

/// Two steps of a parse at the top of a module make one.
pub proof fn lemma_step_module(a: Parser, b: Parser, c: Parser)
    requires
        a.wf(),
        grows_module(a, b),
        grows_module(b, c),
    ensures
        grows_module(a, c),
        a.aborted is None && (consumed(a, b) || consumed(b, c)) ==> consumed(a, c),
{
    assert(c.errors@.subrange(0, a.errors@.len() as int) =~= c.errors@.subrange(0, b.errors@.len() as int).subrange(
        0,
        a.errors@.len() as int,
    ));
    lemma_grows_budget(a, b);
    lemma_grows_budget(b, c);
    if a.aborted is None && b.aborted is Some {
        assert(c == b);
    }
}

/// A step inside a function new to the module is a step at the top of the module.
pub proof fn lemma_grows_in_module(a: Parser, b: Parser, f: Seq<char>)
    requires
        grows(a, b),
        kept(a, b, f),
        !a.root.func_map@.contains_key(f),
    ensures
        grows_module(a, b),
{
}

/// A step that keeps the module is a step at its top.
pub proof fn lemma_leaf_module(b: Parser, c: Parser)
    requires
        grows(b, c),
        c.root == b.root,
    ensures
        grows_module(b, c),
{
}

/// A step at the top of the module, then a step inside the function `f`, which
/// the module did not have before the first: one step at the top.
pub proof fn lemma_step_fn(a: Parser, b: Parser, c: Parser, f: Seq<char>)
    requires
        a.wf(),
        grows_module(a, b),
        grows(b, c),
        kept(b, c, f),
        !a.root.func_map@.contains_key(f),
    ensures
        grows_module(a, c),
        a.aborted is None && (consumed(a, b) || consumed(b, c)) ==> consumed(a, c),
{
    assert(c.errors@.subrange(0, a.errors@.len() as int) =~= c.errors@.subrange(0, b.errors@.len() as int).subrange(
        0,
        a.errors@.len() as int,
    ));
    lemma_grows_budget(a, b);
    lemma_grows_budget(b, c);
    if a.aborted is None && b.aborted is Some {
        assert(c == b);
    }
}

/// A step that keeps the module keeps every function.
pub proof fn lemma_same_root_kept(a: Parser, b: Parser)
    requires
        a.root == b.root,
    ensures
        forall|f: Seq<char>| kept(a, b, f),
{
}

/// Reading one token grows a parser and consumes its input.
pub proof fn lemma_grows_progressed(p: Parser)
    requires
        p.wf(),
    ensures
        grows(p, p.progressed()),
        p.progressed().root == p.root,
        forall|f: Seq<char>| kept(p, p.progressed(), f),
        consumed(p, p.progressed()),
        p.progressed().wf(),
{
    let q = p.progressed();
    assert(p.errors@.subrange(0, p.errors@.len() as int) =~= p.errors@);
    if p.aborted is None {
        if p.cur_token + 1 < p.tokens@.len() {
            assert(q.cur_token == p.cur_token + 1);
            assert(q.next_token == q.cur_token + 1);
            assert(q.root == p.root && q.tokens == p.tokens && q.errors == p.errors);
            assert(q.aborted is None);
        } else {
            assert(q.root == p.root && q.tokens == p.tokens && q.errors == p.errors);
            assert(q.next_token == q.cur_token + 1);
        }
    }
}

/// `new` is `old` after reading inside the function `f`: grown, the other
/// functions kept, and at least one token read unless the parse has stopped.
pub open spec fn reads(old: Parser, new: Parser, f: Seq<char>) -> bool {
    &&& grows(old, new)
    &&& kept(old, new, f)
    &&& consumed(old, new)
}

/// A step inside `f` followed by a step that keeps the module.
pub proof fn lemma_then_leaf(a: Parser, b: Parser, c: Parser, f: Seq<char>)
    requires
        a.wf(),
        grows(a, b),
        kept(a, b, f),
        grows(b, c),
        c.root == b.root,
    ensures
        grows(a, c),
        kept(a, c, f),
        a.aborted is None && (consumed(a, b) || consumed(b, c)) ==> consumed(a, c),
{
    lemma_step(a, b, c, f);
}

/// A parser and its state agree on how much is left, on whether it has stopped,
/// and on the current token.
pub proof fn lemma_ps_live(p: Parser, f: Seq<char>)
    requires
        p.wf(),
    ensures
        sbudget(p.tokens@, ps_of(p, f)) == p.budget(),
        live(p.tokens@, ps_of(p, f)) <==> p.aborted is None,
        p.aborted is None ==> kind_of(p.tokens@, ps_of(p, f)) == p.cur_kind() && pos_of(p.tokens@, ps_of(p, f))
            == p.cur_pos(),
{
}

/// A step that grows the parser leaves no more tokens in its state.
pub proof fn lemma_ps_mono(a: Parser, b: Parser, f: Seq<char>)
    requires
        a.wf(),
        b.wf(),
        grows(a, b),
    ensures
        mono(a.tokens@, ps_of(a, f), ps_of(b, f)),
        b.tokens@ == a.tokens@,
{
    lemma_ps_live(a, f);
    lemma_ps_live(b, f);
    lemma_grows_budget(a, b);
}

/// A step that grows the parser and reads a token leaves fewer tokens in its state.
pub proof fn lemma_ps_lt(a: Parser, b: Parser, f: Seq<char>)
    requires
        a.wf(),
        b.wf(),
        grows(a, b),
        consumed(a, b),
        a.aborted is None,
    ensures
        lt(a.tokens@, ps_of(a, f), ps_of(b, f)),
        b.tokens@ == a.tokens@,
{
    lemma_ps_live(a, f);
    lemma_ps_live(b, f);
}

/// The state of a parser that reads one token, or stops, inside any function.
pub proof fn lemma_ps_progressed(p: Parser)
    requires
        p.wf(),
    ensures
        forall|f: Seq<char>| #[trigger] ps_of(p.progressed(), f) == sp_progress(p.tokens@, ps_of(p, f)),
{
    assert forall|f: Seq<char>| #[trigger] ps_of(p.progressed(), f) == sp_progress(p.tokens@, ps_of(p, f)) by {
        let a = ps_of(p.progressed(), f);
        let b = sp_progress(p.tokens@, ps_of(p, f));
        assert(a.locals =~= b.locals);
        assert(a.strings =~= b.strings);
    }
}

/// The state of a parser stopped for `why`, inside any function.
pub proof fn lemma_ps_stopped(p: Parser, why: ParseAbort)
    requires
        p.aborted is None,
    ensures
        forall|f: Seq<char>| #[trigger] ps_of(p.stopped(why), f) == sp_stop(ps_of(p, f), abort_v(why)),
{
    assert forall|f: Seq<char>| #[trigger] ps_of(p.stopped(why), f) == sp_stop(ps_of(p, f), abort_v(why)) by {
        let a = ps_of(p.stopped(why), f);
        let b = sp_stop(ps_of(p, f), abort_v(why));
        assert(a.locals =~= b.locals);
        assert(a.strings =~= b.strings);
    }
}

impl Parser {
    pub open spec fn wf(&self) -> bool {
        &&& self.root.wf()
        &&& self.next_token == self.cur_token + 1
        &&& self.tokens@.len() <= usize::MAX
        &&& (self.aborted is None ==> self.cur_token < self.tokens@.len())
    }

    /// The kind of the `i`-th token.
    pub open spec fn kind_at(&self, i: int) -> TokenKindV {
        self.tokens@[i].kind@
    }

    /// The kind of the current token.
    pub open spec fn cur_kind(&self) -> TokenKindV {
        self.kind_at(self.cur_token as int)
    }

    /// The place of the current token.
    pub open spec fn cur_pos(&self) -> Position {
        self.tokens@[self.cur_token as int].position
    }

    /// How many tokens are left to read: none once the parse has stopped.
    pub open spec fn budget(&self) -> nat {
        if self.aborted is Some {
            0
        } else {
            (self.tokens@.len() - self.cur_token) as nat
        }
    }

    /// The parser standing at token `j`, with its row and column; where `j` is
    /// `None`, stopped because the tokens ran out.
    pub open spec fn lands(&self, j: Option<int>) -> bool {
        match j {
            Some(j) => {
                &&& self.aborted is None
                &&& self.cur_token == j
                &&& self.next_token == j + 1
                &&& self.row == self.tokens@[j].position.row
                &&& self.col == self.tokens@[j].position.col
            },
            None => self.aborted == Some(ParseAbort::TokensExhausted),
        }
    }

    /// The same tokens, options, errors and module as `old`.
    pub open spec fn keeps(&self, old: Parser) -> bool {
        &&& self.tokens == old.tokens
        &&& self.build_option == old.build_option
        &&& self.errors == old.errors
        &&& self.root == old.root
    }

    /// The parser after reading one token: at the next token, or stopped where
    /// there is none.
    pub open spec fn progressed(self) -> Parser {
        if self.aborted is Some {
            self
        } else if self.cur_token + 1 < self.tokens@.len() {
            Parser {
                cur_token: (self.cur_token + 1) as usize,
                next_token: (self.next_token + 1) as usize,
                row: self.tokens@[self.cur_token + 1].position.row,
                col: self.tokens@[self.cur_token + 1].position.col,
                ..self
            }
        } else {
            Parser { aborted: Some(ParseAbort::TokensExhausted), ..self }
        }
    }

    /// The parser stopped for `why`, all else the same.
    pub open spec fn stopped(self, why: ParseAbort) -> Parser {
        Parser { aborted: Some(why), ..self }
    }

    /// A parser at the first of `tks`, with no module built yet; where there is no
    /// token, it has stopped.
    pub fn new(opt: &BuildOption, tks: Vec<Token>) -> (p: Self)
        ensures
            p.wf(),
            p.build_option == *opt,
            p.tokens == tks,
            p.cur_token == 0,
            p.row == 1 && p.col == 1,
            p.errors@.len() == 0,
            p.root.func_map@ == Map::<Seq<char>, PFunction>::empty(),
            p.root.type_map@ == Map::<Seq<char>, PType>::empty(),
            p.aborted == (if tks@.len() == 0 { Some(ParseAbort::TokensExhausted) } else { None::<ParseAbort> }),
    {
        let n = tks.len();
        let aborted = if n == 0 { Some(ParseAbort::TokensExhausted) } else { None };
        Parser {
            build_option: *opt,
            tokens: tks,
            cur_token: 0,
            next_token: 1,
            row: 1,
            col: 1,
            errors: Vec::new(),
            root: ASTRoot::default(),
            aborted,
        }
    }

    /// Hands over the module built and the errors found.
    pub fn give_root_and_errors(self) -> (r: (ASTRoot, Vec<CompileError>))
        ensures
            r.0 == self.root,
            r.1 == self.errors,
    {
        (self.root, self.errors)
    }

    /// Records an error, then skips past the next `;`.
    pub fn detect_error(&mut self, e: CompileError)
        requires
            old(self).wf(),
        ensures
            grows(*old(self), *final(self)),
            final(self).root == old(self).root,
            old(self).aborted is Some ==> *final(self) == *old(self),
            old(self).aborted is None ==> {
                &&& final(self).wf()
                &&& final(self).errors@ == old(self).errors@.push(e)
                &&& final(self).tokens == old(self).tokens
                &&& final(self).root == old(self).root
                &&& final(self).build_option == old(self).build_option
                &&& final(self).lands(skip_past(old(self).tokens@, old(self).cur_token as int, TokenKind::SEMICOLON@))
                &&& old(self).cur_token <= final(self).cur_token
            },
            old(self).aborted is None ==> forall|f: Seq<char>| #[trigger] ps_of(*final(self), f) == sp_error_skip(
                old(self).tokens@,
                ps_of(*old(self), f),
                e,
                old(self).cur_token as int,
            ),
    {
        if self.aborted.is_some() {
            return;
        }
        let ghost p0 = *self;
        self.errors.push(e);
        let ghost start = self.cur_token as int;
        self.skip_past_kind(&TokenKind::SEMICOLON, Ghost(start));
        proof {
            lemma_grows_if(p0, *self, seq![e]);
            assert forall|f: Seq<char>| #[trigger] ps_of(*self, f) == sp_error_skip(p0.tokens@, ps_of(p0, f), e, start) by {
                let a = ps_of(*self, f);
                let b = sp_error_skip(p0.tokens@, ps_of(p0, f), e, start);
                assert(a.locals =~= b.locals);
                assert(a.strings =~= b.strings);
            }
        }
    }

    /// Reads tokens up to and including the first of kind `tk`.
    pub(crate) fn skip_past_kind(&mut self, tk: &TokenKind, Ghost(start): Ghost<int>)
        requires
            old(self).wf(),
            old(self).aborted is None,
            start == old(self).cur_token,
        ensures
            grows(*old(self), *final(self)),
            final(self).wf(),
            final(self).errors == old(self).errors,
            final(self).tokens == old(self).tokens,
            final(self).root == old(self).root,
            final(self).build_option == old(self).build_option,
            final(self).lands(skip_past(old(self).tokens@, start, tk@)),
            start <= final(self).cur_token,
    {
        let ghost t = self.tokens@;
        let ghost p0 = *self;
        loop
            invariant_except_break
                self.aborted is None,
                skip_past(t, start, tk@) == skip_past(t, self.cur_token as int, tk@),
            invariant
                self.wf(),
                self.errors == old(self).errors,
                self.tokens@ == t,
                self.tokens == old(self).tokens,
                self.root == old(self).root,
                self.build_option == old(self).build_option,
                start <= self.cur_token,
            ensures
                self.wf(),
                self.errors == old(self).errors,
                self.tokens == old(self).tokens,
                self.root == old(self).root,
                self.build_option == old(self).build_option,
                self.lands(skip_past(t, start, tk@)),
                start <= self.cur_token,
            decreases self.budget(),
        {
            let ghost before = self.cur_token as int;
            if self.eat_if_matched(tk) {
                break;
            }
            self.progress();
            if self.aborted.is_some() {
                break;
            }
            assert(skip_past(t, before, tk@) == skip_past(t, before + 1, tk@));
        }
        proof { lemma_grows_if(p0, *self, Seq::empty()); }
    }

    pub fn get_typedefs(&self) -> (m: &NameMap<PType>)
        ensures
            *m == self.root.type_map,
    {
        self.root.get_typedefs()
    }

    /// Adds a type alias; a second alias of one name stops the parse.
    pub fn add_typedef(&mut self, alias_name: String, src_type: PType)
        requires
            old(self).wf(),
        ensures
            grows_module(*old(self), *final(self)),
            final(self).wf(),
            old(self).aborted is Some ==> *final(self) == *old(self),
            old(self).aborted is None && old(self).root.type_map@.contains_key(alias_name@) ==> *final(self)
                == old(self).stopped(ParseAbort::DuplicateTypedef),
            old(self).aborted is None && !old(self).root.type_map@.contains_key(alias_name@) ==> {
                &&& final(self).root.type_map@ == old(self).root.type_map@.insert(alias_name@, src_type)
                &&& final(self).root.func_map == old(self).root.func_map
                &&& final(self).aborted is None
                &&& final(self).tokens == old(self).tokens && final(self).errors == old(self).errors
                &&& final(self).cur_token == old(self).cur_token && final(self).row == old(self).row
                &&& final(self).col == old(self).col && final(self).next_token == old(self).next_token
                &&& final(self).build_option == old(self).build_option
            },
    {
        if self.aborted.is_some() {
            return;
        }
        if self.root.type_map.contains_key(alias_name.as_str()) {
            self.aborted = Some(ParseAbort::DuplicateTypedef);
            proof { assert(self.errors@.subrange(0, self.errors@.len() as int) =~= self.errors@); }
            return;
        }
        self.root.add_typedef(alias_name, src_type);
        proof { assert(self.errors@.subrange(0, self.errors@.len() as int) =~= self.errors@); }
    }

    /// Whether the function `func_name` already has a local variable of the path `ids`.
    pub fn has_local(&self, func_name: &str, ids: &Vec<String>) -> (b: bool)
        requires
            self.wf(),
        ensures
            b == (self.root.func_map@.contains_key(func_name@) && self.root.func_map@[func_name@].locals@.contains_key(
                path_key(strings_view(ids@)),
            )),
    {
        match self.root.func_map.get(func_name) {
            Some(f) => {
                let key = join_path(ids);
                f.locals.contains_key(key.as_str())
            },
            None => false,
        }
    }

    /// Adds a local variable to the function `func_name`; a second variable of one
    /// path in a function stops the parse.
    pub fn add_local_var_to(&mut self, func_name: &str, var_name_ids: Vec<String>, pvar: PVariable)
        requires
            old(self).wf(),
        ensures
            grows(*old(self), *final(self)),
            kept(*old(self), *final(self), func_name@),
            final(self).wf(),
            old(self).aborted is Some ==> *final(self) == *old(self),
            old(self).aborted is None && old(self).root.func_map@.contains_key(func_name@)
                && old(self).root.func_map@[func_name@].locals@.contains_key(path_key(strings_view(var_name_ids@)))
                ==> *final(self) == old(self).stopped(ParseAbort::DuplicateVariable),
            old(self).aborted is None && !(old(self).root.func_map@.contains_key(func_name@)
                && old(self).root.func_map@[func_name@].locals@.contains_key(path_key(strings_view(var_name_ids@))))
                ==> {
                &&& final(self).aborted is None
                &&& final(self).tokens == old(self).tokens && final(self).errors == old(self).errors
                &&& final(self).cur_token == old(self).cur_token && final(self).row == old(self).row
                &&& final(self).col == old(self).col && final(self).next_token == old(self).next_token
                &&& final(self).build_option == old(self).build_option
                &&& final(self).root.type_map == old(self).root.type_map
                &&& final(self).root.func_map@.dom() == old(self).root.func_map@.dom()
                &&& forall|k: Seq<char>| k != func_name@ && #[trigger] old(self).root.func_map@.contains_key(k)
                    ==> final(self).root.func_map@[k] == old(self).root.func_map@[k]
                &&& old(self).root.func_map@.contains_key(func_name@) ==> {
                    let (f0, f1) = (old(self).root.func_map@[func_name@], final(self).root.func_map@[func_name@]);
                    &&& f1.locals@ == f0.locals@.insert(path_key(strings_view(var_name_ids@)), pvar)
                    &&& f1.stmts == f0.stmts && f1.name == f0.name && f1.strings == f0.strings
                    &&& f1.return_type == f0.return_type && f1.args == f0.args
                }
            },
            ps_of(*final(self), func_name@) == sp_add_local(
                ps_of(*old(self), func_name@),
                old(self).root.func_map@.contains_key(func_name@),
                strings_view(var_name_ids@),
                pvar_v(pvar),
            ),
    {
        let ghost p0 = *self;
        let ghost key = path_key(strings_view(var_name_ids@));
        let ghost pv = pvar_v(pvar);
        if self.aborted.is_some() {
            return;
        }
        if self.has_local(func_name, &var_name_ids) {
            self.aborted = Some(ParseAbort::DuplicateVariable);
            proof {
                assert(self.errors@.subrange(0, self.errors@.len() as int) =~= self.errors@);
                assert(p0.root.func_map@[func_name@].locals@.map_values(|v: PVariable| pvar_v(v)).contains_key(key));
                assert(ps_of(*self, func_name@).locals =~= sp_add_local(ps_of(p0, func_name@), true, strings_view(var_name_ids@), pv).locals);
            }
            return;
        }
        self.root.add_local_var_to(func_name, var_name_ids, pvar);
        proof {
            assert(self.errors@.subrange(0, self.errors@.len() as int) =~= self.errors@);
            if p0.root.func_map@.contains_key(func_name@) {
                assert(ps_of(*self, func_name@).locals =~= ps_of(p0, func_name@).locals.insert(key, pv));
            } else {
                assert(ps_of(*self, func_name@).locals =~= Map::<Seq<char>, crate::parse_spec::PVarV>::empty());
            }
        }
    }

    /// Records a string literal and its hash in the function `func_name`.
    pub fn add_string_to(&mut self, func_name: &str, contents: String, hash: u64)
        requires
            old(self).wf(),
        ensures
            grows(*old(self), *final(self)),
            kept(*old(self), *final(self), func_name@),
            final(self).wf(),
            old(self).aborted is Some ==> *final(self) == *old(self),
            old(self).aborted is None ==> {
                &&& final(self).aborted is None
                &&& final(self).tokens == old(self).tokens && final(self).errors == old(self).errors
                &&& final(self).cur_token == old(self).cur_token && final(self).row == old(self).row
                &&& final(self).col == old(self).col && final(self).next_token == old(self).next_token
                &&& final(self).build_option == old(self).build_option
                &&& final(self).root.type_map == old(self).root.type_map
                &&& final(self).root.func_map@.dom() == old(self).root.func_map@.dom()
                &&& forall|k: Seq<char>| k != func_name@ && #[trigger] old(self).root.func_map@.contains_key(k)
                    ==> final(self).root.func_map@[k] == old(self).root.func_map@[k]
                &&& old(self).root.func_map@.contains_key(func_name@) ==> {
                    let (f0, f1) = (old(self).root.func_map@[func_name@], final(self).root.func_map@[func_name@]);
                    &&& f1.strings@ == f0.strings@.insert(contents@, hash)
                    &&& f1.stmts == f0.stmts && f1.name == f0.name && f1.locals == f0.locals
                    &&& f1.return_type == f0.return_type && f1.args == f0.args
                }
            },
            ps_of(*final(self), func_name@) == sp_add_string(
                ps_of(*old(self), func_name@),
                old(self).root.func_map@.contains_key(func_name@),
                contents@,
                hash,
            ),
    {
        let ghost p0 = *self;
        if self.aborted.is_some() {
            return;
        }
        let ghost c = contents@;
        self.root.add_string_to(func_name, contents, hash);
        proof {
            assert(self.errors@.subrange(0, self.errors@.len() as int) =~= self.errors@);
            if p0.root.func_map@.contains_key(func_name@) {
                assert(ps_of(*self, func_name@).locals =~= ps_of(p0, func_name@).locals);
            } else {
                assert(ps_of(*self, func_name@).strings =~= Map::<Seq<char>, u64>::empty());
                assert(ps_of(*self, func_name@).locals =~= Map::<Seq<char>, crate::parse_spec::PVarV>::empty());
            }
        }
    }

    /// Adds a function; a second function of one name stops the parse.
    pub fn add_pfunction(&mut self, name: String, func: PFunction)
        requires
            old(self).wf(),
            func.wf(),
        ensures
            grows_module(*old(self), *final(self)),
            final(self).wf(),
            old(self).aborted is Some ==> *final(self) == *old(self),
            old(self).aborted is None && old(self).root.func_map@.contains_key(name@) ==> *final(self)
                == old(self).stopped(ParseAbort::DuplicateFunction),
            old(self).aborted is None && !old(self).root.func_map@.contains_key(name@) ==> {
                &&& final(self).root.func_map@ == old(self).root.func_map@.insert(name@, func)
                &&& final(self).root.type_map == old(self).root.type_map
                &&& final(self).aborted is None
                &&& final(self).tokens == old(self).tokens && final(self).errors == old(self).errors
                &&& final(self).cur_token == old(self).cur_token && final(self).row == old(self).row
                &&& final(self).col == old(self).col && final(self).next_token == old(self).next_token
                &&& final(self).build_option == old(self).build_option
            },
    {
        if self.aborted.is_some() {
            return;
        }
        if self.root.func_map.contains_key(name.as_str()) {
            self.aborted = Some(ParseAbort::DuplicateFunction);
            proof { assert(self.errors@.subrange(0, self.errors@.len() as int) =~= self.errors@); }
            return;
        }
        self.root.add_pfunction(name, func);
        proof { assert(self.errors@.subrange(0, self.errors@.len() as int) =~= self.errors@); }
    }

    /// Puts `stmts` as the body of the function `name`.
    pub fn replace_statements(&mut self, name: &str, stmts: Vec<StatementNode>)
        requires
            old(self).wf(),
        ensures
            grows(*old(self), *final(self)),
            kept(*old(self), *final(self), name@),
            final(self).wf(),
            old(self).aborted is Some ==> *final(self) == *old(self),
            old(self).aborted is None ==> {
                &&& final(self).aborted is None
                &&& final(self).tokens == old(self).tokens && final(self).errors == old(self).errors
                &&& final(self).cur_token == old(self).cur_token && final(self).row == old(self).row
                &&& final(self).col == old(self).col && final(self).next_token == old(self).next_token
                &&& final(self).build_option == old(self).build_option
                &&& final(self).root.type_map == old(self).root.type_map
                &&& final(self).root.func_map@.dom() == old(self).root.func_map@.dom()
                &&& forall|k: Seq<char>| k != name@ && #[trigger] old(self).root.func_map@.contains_key(k)
                    ==> final(self).root.func_map@[k] == old(self).root.func_map@[k]
                &&& old(self).root.func_map@.contains_key(name@) ==> final(self).root.func_map@[name@].stmts == stmts
                &&& old(self).root.func_map@.contains_key(name@) ==> final(self).root.func_map@[name@].locals
                    == old(self).root.func_map@[name@].locals
                &&& old(self).root.func_map@.contains_key(name@) ==> final(self).root.func_map@[name@].strings
                    == old(self).root.func_map@[name@].strings
            },
    {
        if self.aborted.is_some() {
            return;
        }
        self.root.replace_statement(name, stmts);
        proof { assert(self.errors@.subrange(0, self.errors@.len() as int) =~= self.errors@); }
    }

    /// Whether the current token is of kind `tk`.
    pub fn cur_token_is(&self, tk: &TokenKind) -> (b: bool)
        requires
            self.cur_token < self.tokens@.len(),
        ensures
            b == (self.cur_kind() == tk@),
    {
        self.current_token_kind().same_kind(tk)
    }

    pub fn current_token_kind(&self) -> (k: &TokenKind)
        requires
            self.cur_token < self.tokens@.len(),
        ensures
            *k == self.tokens@[self.cur_token as int].kind,
    {
        &self.tokens[self.cur_token].kind
    }

    pub fn get_specified_token(&self, offset: usize) -> (k: &TokenKind)
        requires
            offset < self.tokens@.len(),
        ensures
            *k == self.tokens@[offset as int].kind,
    {
        &self.tokens[offset].kind
    }

    pub fn save_current_offset(&self) -> (o: usize)
        ensures
            o == self.cur_token,
    {
        self.cur_token
    }

    pub fn current_token(&self) -> (t: &Token)
        requires
            self.cur_token < self.tokens@.len(),
        ensures
            *t == self.tokens@[self.cur_token as int],
    {
        &self.tokens[self.cur_token]
    }

    /// Reads the current token where it is of kind `tk`, and tells whether it was.
    pub fn eat_if_matched(&mut self, tk: &TokenKind) -> (b: bool)
        requires
            old(self).wf(),
        ensures
            grows(*old(self), *final(self)),
            final(self).root == old(self).root,
            final(self).wf(),
            b == (old(self).aborted is None && old(self).cur_kind() == tk@),
            b ==> *final(self) == old(self).progressed(),
            !b ==> *final(self) == *old(self),
            forall|f: Seq<char>| #[trigger] ps_of(*final(self), f) == sp_eat(old(self).tokens@, ps_of(*old(self), f), tk@).0,
            forall|f: Seq<char>| b == sp_eat(old(self).tokens@, #[trigger] ps_of(*old(self), f), tk@).1,
    {
        proof { lemma_ps_progressed(*self); }
        if self.aborted.is_some() {
            return false;
        }
        if !self.cur_token_is(tk) {
            proof { lemma_grows_refl(*self); }
            return false;
        }
        self.progress();
        true
    }

    /// Reads the current token, which must be of kind `tk`; where it is not, the
    /// parse stops.
    pub fn expect(&mut self, tk: TokenKind)
        requires
            old(self).wf(),
        ensures
            grows(*old(self), *final(self)),
            final(self).root == old(self).root,
            final(self).wf(),
            old(self).aborted is Some ==> *final(self) == *old(self),
            old(self).aborted is None && old(self).cur_kind() == tk@ ==> *final(self) == old(self).progressed(),
            old(self).aborted is None && old(self).cur_kind() != tk@ ==> {
                &&& final(self).keeps(*old(self))
                &&& final(self).cur_token == old(self).cur_token
                &&& final(self).aborted matches Some(ParseAbort::ExpectedToken { position, expected, got })
                    && position == old(self).cur_pos() && expected@ == kind_text(tk@)
                    && got@ == kind_text(old(self).cur_kind())
            },
            forall|f: Seq<char>| #[trigger] ps_of(*final(self), f) == sp_expect(old(self).tokens@, ps_of(*old(self), f), tk@),
    {
        proof { lemma_ps_progressed(*self); }
        if self.aborted.is_some() {
            return;
        }
        let cur_pos = self.current_position();
        let tk_str = str_to_string(tk.to_str());
        if !self.eat_if_matched(&tk) {
            let got = str_to_string(self.current_token_kind().to_str());
            self.aborted = Some(ParseAbort::ExpectedToken { position: cur_pos, expected: tk_str, got });
        }
    }

    /// Moves to the next token; past the last one, the parse stops.
    pub fn progress(&mut self)
        requires
            old(self).wf(),
        ensures
            grows(*old(self), *final(self)),
            final(self).root == old(self).root,
            final(self).wf(),
            *final(self) == old(self).progressed(),
            forall|f: Seq<char>| #[trigger] ps_of(*final(self), f) == sp_progress(old(self).tokens@, ps_of(*old(self), f)),
    {
        proof { lemma_ps_progressed(*self); }
        if self.aborted.is_some() {
            return;
        }
        proof { lemma_grows_progressed(*self); }
        if self.cur_token + 1 < self.tokens.len() {
            self.cur_token = self.cur_token + 1;
            self.next_token = self.next_token + 1;
            let (row, col) = self.current_position().get_pos();
            self.row = row;
            self.col = col;
        } else {
            self.aborted = Some(ParseAbort::TokensExhausted);
        }
    }

    /// The place of the current token.
    pub fn current_position(&self) -> (p: Position)
        requires
            self.cur_token < self.tokens@.len(),
        ensures
            p == self.cur_pos(),
    {
        let (r, c) = self.current_token().get_pos().get_pos();
        Position::new(r, c)
    }
}

} // verus!
