use vstd::prelude::*;

use crate::chars::{
    char_width, exec_in_class, in_class, lemma_span_is, lemma_span_props, lemma_utf8_len_bound,
    span, utf8_len, utf8_width, CharClass,
};
use crate::const_value::{ConstAllocator, PStringId};
use crate::error::{CmpErrorKind, CompileError};
use crate::lexer_spec::{
    ignored, reserved_kind, skip_rest, skip_width, spec_lex, spec_scan, LexOutcome, ScanStep, SpecToken,
};
use crate::name_map::NameMap;
use crate::option::BuildOption;
use crate::position::Position;
use crate::text::{
    chars_to_string, collect_chars, decimal_value, exec_is_ascii_letter, exec_is_digit, is_digit,
    digit_value,
};
use crate::token::{Token, TokenKind, TokenKindV, symbol_kind};
use crate::name_map::compare_strings;

verus! {

/// The longest input that the lexer takes, in characters: columns count UTF-8 bytes,
/// up to four a character, and rows, columns and offsets must fit in `usize`.
pub const MAX_PROGRAM_CHARS: usize = usize::MAX / 8;

/// The lexer: reads a program and makes its tokens.
pub struct Lexer<'a> {
    build_option: &'a BuildOption,
    col: usize,
    row: usize,
    contents: Vec<char>,
    offset: usize,
    tokens: Vec<Token>,
    errors: Vec<CompileError>,
    const_pool: ConstAllocator,
    buffer_cache: NameMap<PStringId>,
}

/// Whether `s` holds a double quote.
pub open spec fn has_quote(s: Seq<char>) -> bool {
    exists|i: int| 0 <= i < s.len() && s[i] == '"'
}

/// The pool of strings and the cache of their identifiers agree: every cached
/// name is stored in the pool under its identifier.
pub open spec fn cache_agrees(pool: Seq<Seq<char>>, cache: Map<Seq<char>, PStringId>) -> bool {
    forall|k: Seq<char>| #[trigger] cache.contains_key(k) ==> cache[k] < pool.len() && pool[cache[k] as int] == k
}

/// The spec view of a token.
pub open spec fn token_view(t: Token) -> SpecToken {
    (t.kind@, t.pos().row as int, t.pos().col as int)
}

pub open spec fn tokens_view(ts: Seq<Token>) -> Seq<SpecToken> {
    ts.map_values(|t: Token| token_view(t))
}

impl<'a> Lexer<'a> {
    /// The unread input.
    pub closed spec fn rest(&self) -> Seq<char> {
        self.contents@.skip(self.offset as int)
    }

    pub closed spec fn spec_offset(&self) -> int {
        self.offset as int
    }

    pub closed spec fn spec_contents(&self) -> Seq<char> {
        self.contents@
    }

    pub closed spec fn cache_wf(&self) -> bool {
        self.buffer_cache.wf()
    }

    /// The cache is well formed and agrees with the pool.
    pub closed spec fn pool_ok(&self) -> bool {
        self.buffer_cache.wf() && cache_agrees(self.const_pool@, self.buffer_cache@)
    }

    pub closed spec fn spec_row(&self) -> int {
        self.row as int
    }

    pub closed spec fn spec_col(&self) -> int {
        self.col as int
    }

    pub closed spec fn spec_tokens(&self) -> Seq<Token> {
        self.tokens@
    }

    pub closed spec fn spec_errors(&self) -> Seq<CompileError> {
        self.errors@
    }

    pub closed spec fn pool(&self) -> Seq<Seq<char>> {
        self.const_pool@
    }

    pub closed spec fn cache(&self) -> Map<Seq<char>, PStringId> {
        self.buffer_cache@
    }

    /// The lexer's state is consistent: the offset lies in the input, the row and
    /// column fit in `usize`, and the pool and cache agree.
    pub closed spec fn wf(&self) -> bool {
        &&& self.offset <= self.contents.len()
        &&& self.contents.len() <= MAX_PROGRAM_CHARS
        &&& 1 <= self.row <= self.offset + 1
        &&& 1 <= self.col
        &&& self.col <= 1 + 4 * self.offset + (if has_quote(self.rest()) {
            0
        } else {
            4 * self.contents.len() + 2
        })
        &&& self.const_pool@.len() + self.rest().len() < usize::MAX
        &&& self.buffer_cache.wf()
        &&& cache_agrees(self.const_pool@, self.buffer_cache@)
    }

    pub fn new(
        opt: &'a BuildOption,
        program: String,
        pool: ConstAllocator,
        buffer_cache: NameMap<PStringId>,
    ) -> (l: Self)
        requires
            program@.len() <= MAX_PROGRAM_CHARS,
            pool@.len() + program@.len() < usize::MAX,
            buffer_cache.wf(),
            cache_agrees(pool@, buffer_cache@),
        ensures
            l.wf(),
            l.rest() == program@,
            l.spec_row() == 1,
            l.spec_col() == 1,
            l.spec_tokens().len() == 0,
            l.spec_errors().len() == 0,
            l.pool() == pool@,
            l.cache() == buffer_cache@,
    {
        let contents = collect_chars(program.as_str());
        let l = Self {
            build_option: opt,
            col: 1,
            row: 1,
            contents,
            offset: 0,
            tokens: Vec::new(),
            errors: Vec::new(),
            const_pool: pool,
            buffer_cache,
        };
        assert(l.rest() =~= program@);
        l
    }

    /// Whether the string `st` already has an identifier.
    pub fn check_already_alloced(&self, st: &str) -> (b: bool)
        requires
            self.pool_ok(),
        ensures
            b == self.cache().contains_key(st@),
    {
        self.buffer_cache.contains_key(st)
    }

    /// The identifier of an already stored string.
    pub fn get_cached_id(&self, st: &str) -> (id: PStringId)
        requires
            self.pool_ok(),
            self.cache().contains_key(st@),
        ensures
            id == self.cache()[st@],
            id < self.pool().len(),
            self.pool()[id as int] == st@,
    {
        *self.buffer_cache.get(st).unwrap()
    }

    /// Stores a new string in the pool and remembers its identifier.
    pub fn insert_new_buffer(&mut self, st: String) -> (id: PStringId)
        requires
            old(self).pool_ok(),
            old(self).pool().len() + 1 < usize::MAX,
        ensures
            id == old(self).pool().len(),
            final(self).pool() == old(self).pool().push(st@),
            final(self).cache() == old(self).cache().insert(st@, id),
            final(self).pool_ok(),
            final(self).rest() == old(self).rest(),
            final(self).spec_offset() == old(self).spec_offset(),
            final(self).spec_contents() == old(self).spec_contents(),
            final(self).spec_row() == old(self).spec_row(),
            final(self).spec_col() == old(self).spec_col(),
            final(self).spec_tokens() == old(self).spec_tokens(),
            final(self).spec_errors() == old(self).spec_errors(),
    {
        let key = st.clone();
        let id = self.alloc_string(st);
        self.buffer_cache.insert(key, id);
        proof {
            let pool = self.const_pool@;
            let cache = self.buffer_cache@;
            assert forall|k: Seq<char>| #[trigger] cache.contains_key(k) implies cache[k] < pool.len()
                && pool[cache[k] as int] == k by {
                if k != key@ {
                    assert(old(self).buffer_cache@.contains_key(k));
                }
            }
        }
        id
    }

    /// The tokens made, and the pool of strings.
    pub fn give_token_and_const_arena(self) -> (r: (Vec<Token>, ConstAllocator))
        ensures
            r.0@ == self.spec_tokens(),
            r.1@ == self.pool(),
    {
        (self.tokens, self.const_pool)
    }

    fn alloc_string(&mut self, v: String) -> (id: PStringId)
        requires
            old(self).const_pool@.len() < usize::MAX,
        ensures
            id == old(self).const_pool@.len(),
            final(self).const_pool@ == old(self).const_pool@.push(v@),
            final(self).buffer_cache == old(self).buffer_cache,
            final(self).offset == old(self).offset,
            final(self).contents == old(self).contents,
            final(self).row == old(self).row,
            final(self).col == old(self).col,
            final(self).tokens == old(self).tokens,
            final(self).errors == old(self).errors,
    {
        self.const_pool.alloc_string(v)
    }

    /// A copy of the errors found so far.
    pub fn copy_errors(&self) -> (es: Vec<CompileError>)
        ensures
            es@ == self.spec_errors(),
    {
        let mut es: Vec<CompileError> = Vec::new();
        let mut i: usize = 0;
        while i < self.errors.len()
            invariant
                0 <= i <= self.errors.len(),
                es@ == self.errors@.take(i as int),
            decreases self.errors.len() - i,
        {
            es.push(self.errors[i].copy_error());
            i = i + 1;
            assert(es@ =~= self.errors@.take(i as int));
        }
        assert(self.errors@.take(i as int) =~= self.errors@);
        es
    }

    pub fn detect_error(&mut self, e: CompileError)
        ensures
            final(self).spec_errors() == old(self).spec_errors().push(e),
            final(self).spec_tokens() == old(self).spec_tokens(),
            final(self).spec_offset() == old(self).spec_offset(),
            final(self).spec_contents() == old(self).spec_contents(),
            final(self).spec_row() == old(self).spec_row(),
            final(self).spec_col() == old(self).spec_col(),
            final(self).pool() == old(self).pool(),
            final(self).cache() == old(self).cache(),
            final(self).cache_wf() == old(self).cache_wf(),
    {
        self.errors.push(e);
    }

    pub fn add_token(&mut self, t: Token)
        ensures
            final(self).spec_tokens() == old(self).spec_tokens().push(t),
            final(self).spec_errors() == old(self).spec_errors(),
            final(self).spec_offset() == old(self).spec_offset(),
            final(self).spec_contents() == old(self).spec_contents(),
            final(self).spec_row() == old(self).spec_row(),
            final(self).spec_col() == old(self).spec_col(),
            final(self).pool() == old(self).pool(),
            final(self).cache() == old(self).cache(),
            final(self).cache_wf() == old(self).cache_wf(),
    {
        self.tokens.push(t);
    }

    /// Whether all of the input has been read.
    pub fn offset_overruns_contents_length(&self) -> (b: bool)
        requires
            self.wf(),
        ensures
            b == (self.rest().len() == 0),
    {
        self.offset >= self.contents.len()
    }

    pub fn cur_position(&self) -> (p: Position)
        ensures
            p.row == self.spec_row(),
            p.col == self.spec_col(),
    {
        Position::new(self.row, self.col)
    }

    pub fn set_position(&mut self, pos: Position)
        ensures
            final(self).spec_row() == pos.row,
            final(self).spec_col() == pos.col,
            final(self).spec_offset() == old(self).spec_offset(),
            final(self).spec_contents() == old(self).spec_contents(),
            final(self).spec_tokens() == old(self).spec_tokens(),
            final(self).spec_errors() == old(self).spec_errors(),
            final(self).pool() == old(self).pool(),
            final(self).cache() == old(self).cache(),
            final(self).cache_wf() == old(self).cache_wf(),
    {
        let (row, col) = pos.get_pos();
        self.row = row;
        self.col = col;
    }
}

/// A suffix of a sequence with a quote in it comes from a sequence with a quote in it.
proof fn lemma_suffix_quote(s: Seq<char>, k: int)
    requires
        0 <= k <= s.len(),
        has_quote(s.skip(k)),
    ensures
        has_quote(s),
{
    let i = choose|i: int| 0 <= i < s.skip(k).len() && s.skip(k)[i] == '"';
    assert(s[k + i] == '"');
}

proof fn lemma_skip_width_bound(rest: Seq<char>, n: int)
    requires
        0 <= n,
    ensures
        0 <= skip_width(rest, n) <= 4 * n,
{
    if n <= rest.len() {
        lemma_utf8_len_bound(rest.take(n));
    } else {
        lemma_utf8_len_bound(rest);
    }
}

proof fn lemma_utf8_len_push(s: Seq<char>, i: int)
    requires
        0 <= i < s.len(),
    ensures
        utf8_len(s.take(i + 1)) == utf8_len(s.take(i)) + utf8_width(s[i]),
{
    assert(s.take(i + 1).drop_last() =~= s.take(i));
}

proof fn lemma_decimal_push(s: Seq<char>, i: int)
    requires
        0 <= i < s.len(),
    ensures
        decimal_value(s.take(i + 1)) == decimal_value(s.take(i)) * 10 + digit_value(s[i]),
{
    assert(s.take(i + 1).drop_last() =~= s.take(i));
}

/// The value of a prefix of a digit sequence is at most the value of the whole.
proof fn lemma_decimal_prefix(s: Seq<char>, i: int)
    requires
        0 <= i <= s.len(),
    ensures
        decimal_value(s.take(i)) <= decimal_value(s),
    decreases s.len() - i,
{
    if i < s.len() {
        lemma_decimal_push(s, i);
        lemma_decimal_prefix(s, i + 1);
    } else {
        assert(s.take(i) =~= s);
    }
}

/// The value of a sequence of digits if it fits in an `i64`.
fn parse_i64_digits(d: &Vec<char>) -> (r: Option<i64>)
    requires
        forall|j: int| 0 <= j < d@.len() ==> is_digit(#[trigger] d@[j]),
    ensures
        decimal_value(d@) <= i64::MAX ==> r == Some(decimal_value(d@) as i64),
        decimal_value(d@) > i64::MAX ==> r is None,
{
    let mut acc: u128 = 0;
    let mut i: usize = 0;
    while i < d.len()
        invariant
            0 <= i <= d.len(),
            forall|j: int| 0 <= j < d@.len() ==> is_digit(#[trigger] d@[j]),
            acc == decimal_value(d@.take(i as int)),
            acc <= i64::MAX,
        decreases d.len() - i,
    {
        let c = d[i];
        assert(is_digit(d@[i as int]));
        let dv = (c as u32 - '0' as u32) as u128;
        proof { lemma_decimal_push(d@, i as int); }
        acc = acc * 10 + dv;
        i = i + 1;
        if acc > 0x7fff_ffff_ffff_ffff {
            proof { lemma_decimal_prefix(d@, i as int); }
            return None;
        }
    }
    assert(d@.take(i as int) =~= d@);
    Some(acc as i64)
}

/// The token kind of a reserved word, if `s` is one.
fn reserved_word(s: &str) -> (k: Option<TokenKind>)
    ensures
        k == reserved_kind(s@),
{
    if compare_strings(s, "true") == 0 {
        Some(TokenKind::TRUE)
    } else if compare_strings(s, "false") == 0 {
        Some(TokenKind::FALSE)
    } else if compare_strings(s, "Boolean") == 0 || compare_strings(s, "boolean") == 0 {
        Some(TokenKind::BOOLEAN)
    } else if compare_strings(s, "ifret") == 0 {
        Some(TokenKind::IFRET)
    } else if compare_strings(s, "if") == 0 {
        Some(TokenKind::IF)
    } else if compare_strings(s, "else") == 0 {
        Some(TokenKind::ELSE)
    } else if compare_strings(s, "Int64") == 0 || compare_strings(s, "int64") == 0 {
        Some(TokenKind::INT64)
    } else if compare_strings(s, "func") == 0 {
        Some(TokenKind::FUNC)
    } else if compare_strings(s, "return") == 0 {
        Some(TokenKind::RETURN)
    } else if compare_strings(s, "declare") == 0 {
        Some(TokenKind::DECLARE)
    } else if compare_strings(s, "countup") == 0 {
        Some(TokenKind::COUNTUP)
    } else if compare_strings(s, "from") == 0 {
        Some(TokenKind::FROM)
    } else if compare_strings(s, "to") == 0 {
        Some(TokenKind::TO)
    } else if compare_strings(s, "require") == 0 {
        Some(TokenKind::REQUIRE)
    } else if compare_strings(s, "asm") == 0 {
        Some(TokenKind::ASM)
    } else if compare_strings(s, "Noreturn") == 0 || compare_strings(s, "noreturn") == 0 {
        Some(TokenKind::NORETURN)
    } else if compare_strings(s, "ConstStr") == 0 {
        Some(TokenKind::CONSTSTR)
    } else if compare_strings(s, "str") == 0 {
        Some(TokenKind::STR)
    } else if compare_strings(s, "pubtype") == 0 {
        Some(TokenKind::PUBTYPE)
    } else if compare_strings(s, "Uint64") == 0 || compare_strings(s, "uint64") == 0 {
        Some(TokenKind::UINT64)
    } else if compare_strings(s, "varinit") == 0 {
        Some(TokenKind::VARINIT)
    } else if compare_strings(s, "const") == 0 {
        Some(TokenKind::CONST)
    } else {
        None
    }
}

impl<'a> Lexer<'a> {
    pub closed spec fn offset_ok(&self) -> bool {
        self.offset <= self.contents.len() && self.contents.len() <= MAX_PROGRAM_CHARS
    }

    /// Skips `len` characters (all that are left if fewer) and moves the column on
    /// by their width in bytes (one for each character beyond the end).
    pub fn skip_offset(&mut self, len: usize)
        requires
            old(self).offset_ok(),
            old(self).spec_col() + skip_width(old(self).rest(), len as int) <= usize::MAX,
        ensures
            final(self).offset_ok(),
            final(self).rest() == skip_rest(old(self).rest(), len as int),
            final(self).spec_col() == old(self).spec_col() + skip_width(old(self).rest(), len as int),
            final(self).spec_offset() == old(self).spec_offset() + (if len <= old(self).rest().len() {
                len as int
            } else {
                0
            }),
            final(self).spec_row() == old(self).spec_row(),
            final(self).spec_contents() == old(self).spec_contents(),
            final(self).spec_tokens() == old(self).spec_tokens(),
            final(self).spec_errors() == old(self).spec_errors(),
            final(self).pool() == old(self).pool(),
            final(self).cache() == old(self).cache(),
            final(self).cache_wf() == old(self).cache_wf(),
    {
        let ghost rest = self.rest();
        let avail = self.contents.len() - self.offset;
        let k = if len <= avail { len } else { avail };
        let mut w: usize = 0;
        let mut i: usize = 0;
        while i < k
            invariant
                0 <= i <= k,
                k <= avail,
                avail == self.contents.len() - self.offset,
                self.offset <= self.contents.len(),
                self.contents.len() <= MAX_PROGRAM_CHARS,
                rest == self.contents@.skip(self.offset as int),
                w == utf8_len(rest.take(i as int)),
                w <= 4 * i,
            decreases k - i,
        {
            proof {
                lemma_utf8_len_push(rest, i as int);
            }
            w = w + char_width(self.contents[self.offset + i]);
            i = i + 1;
        }
        proof {
            lemma_utf8_len_bound(rest.take(k as int));
            if len as int > rest.len() {
                assert(rest.take(k as int) =~= rest);
            }
        }
        self.col = self.col + w + (len - k);
        self.consume_contents(len);
    }

    /// Drops the next `len` characters, if there are that many.
    pub fn consume_contents(&mut self, len: usize)
        requires
            old(self).offset_ok(),
        ensures
            final(self).offset_ok(),
            final(self).rest() == skip_rest(old(self).rest(), len as int),
            final(self).spec_offset() == old(self).spec_offset() + (if len <= old(self).rest().len() {
                len as int
            } else {
                0
            }),
            final(self).spec_col() == old(self).spec_col(),
            final(self).spec_row() == old(self).spec_row(),
            final(self).spec_contents() == old(self).spec_contents(),
            final(self).spec_tokens() == old(self).spec_tokens(),
            final(self).spec_errors() == old(self).spec_errors(),
            final(self).pool() == old(self).pool(),
            final(self).cache() == old(self).cache(),
            final(self).cache_wf() == old(self).cache_wf(),
    {
        if self.contents.len() - self.offset < len {
            return;
        }
        let ghost rest = self.rest();
        self.offset = self.offset + len;
        assert(self.rest() =~= rest.skip(len as int));
    }

    /// Skips a newline: the next row, first column.
    pub fn skip_crlf(&mut self)
        requires
            old(self).offset_ok(),
            old(self).rest().len() > 0,
            old(self).spec_row() < usize::MAX,
        ensures
            final(self).offset_ok(),
            final(self).rest() == old(self).rest().skip(1),
            final(self).spec_offset() == old(self).spec_offset() + 1,
            final(self).spec_col() == 1,
            final(self).spec_row() == old(self).spec_row() + 1,
            final(self).spec_contents() == old(self).spec_contents(),
            final(self).spec_tokens() == old(self).spec_tokens(),
            final(self).spec_errors() == old(self).spec_errors(),
            final(self).pool() == old(self).pool(),
            final(self).cache() == old(self).cache(),
            final(self).cache_wf() == old(self).cache_wf(),
    {
        self.col = 1;
        self.row = self.row + 1;
        self.consume_contents(1);
    }

    /// The longest run of unread characters of class `k`.
    fn cut_run(&self, k: CharClass) -> (v: Vec<char>)
        requires
            self.offset_ok(),
        ensures
            v@ == self.rest().take(span(self.rest(), k) as int),
            span(self.rest(), k) <= self.rest().len(),
            forall|j: int| 0 <= j < v@.len() ==> in_class(#[trigger] v@[j], k),
    {
        let ghost rest = self.rest();
        let mut v: Vec<char> = Vec::new();
        let mut i: usize = self.offset;
        while i < self.contents.len() && exec_in_class(self.contents[i], k)
            invariant
                self.offset <= i <= self.contents.len(),
                rest == self.contents@.skip(self.offset as int),
                v@ == rest.take(i - self.offset),
                forall|j: int| 0 <= j < v@.len() ==> in_class(#[trigger] v@[j], k),
            decreases self.contents.len() - i,
        {
            v.push(self.contents[i]);
            i = i + 1;
            assert(v@ =~= rest.take(i - self.offset));
        }
        proof {
            assert forall|j: int| 0 <= j < i - self.offset implies in_class(#[trigger] rest[j], k) by {
                assert(rest[j] == v@[j]);
            }
            lemma_span_is(rest, k, i - self.offset);
        }
        v
    }

    /// The longest run of unread characters of class `k`, as a string.
    pub fn cut_contents(&self, k: CharClass) -> (s: String)
        requires
            self.offset_ok(),
        ensures
            s@ == self.rest().take(span(self.rest(), k) as int),
    {
        let v = self.cut_run(k);
        chars_to_string(v.as_slice())
    }

    /// Whether the unread input starts with `s`.
    pub fn contents_starts_with(&self, s: &str) -> (b: bool)
        requires
            self.offset_ok(),
        ensures
            b == (s@.len() <= self.rest().len() && self.rest().take(s@.len() as int) == s@),
    {
        let ghost rest = self.rest();
        let sv = collect_chars(s);
        if sv.len() > self.contents.len() - self.offset {
            return false;
        }
        let mut i: usize = 0;
        while i < sv.len()
            invariant
                0 <= i <= sv.len(),
                sv.len() <= self.contents.len() - self.offset,
                rest == self.contents@.skip(self.offset as int),
                sv@ == s@,
                rest.take(i as int) == sv@.take(i as int),
            decreases sv.len() - i,
        {
            if self.contents[self.offset + i] != sv[i] {
                assert(rest.take(sv.len() as int)[i as int] != sv@[i as int]);
                return false;
            }
            i = i + 1;
            assert(rest.take(i as int) =~= sv@.take(i as int));
        }
        assert(sv@.take(i as int) =~= sv@);
        true
    }

    /// The last token made.
    pub fn last_token(&self) -> (t: &Token)
        requires
            self.spec_tokens().len() > 0,
        ensures
            *t == self.spec_tokens().last(),
    {
        &self.tokens[self.tokens.len() - 1]
    }

    /// The next unread character.
    pub fn cur_offset_char(&self) -> (c: char)
        requires
            self.offset_ok(),
            self.rest().len() > 0,
        ensures
            c == self.rest()[0],
    {
        self.contents[self.offset]
    }
}

/// All the characters of `s` are ASCII, so its UTF-8 width is its length.
proof fn lemma_ascii_width(s: Seq<char>)
    requires
        forall|j: int| 0 <= j < s.len() ==> (#[trigger] s[j] as u32) < 0x80,
    ensures
        utf8_len(s) == s.len(),
    decreases s.len(),
{
    if s.len() > 0 {
        assert forall|j: int| 0 <= j < s.drop_last().len() implies (#[trigger] s.drop_last()[j] as u32) < 0x80 by {
            assert(s.drop_last()[j] == s[j]);
        }
        lemma_ascii_width(s.drop_last());
        assert((s.last() as u32) < 0x80);
    }
}

/// The kind of a one-character symbol.
fn single_symbol(c: char) -> (k: Option<TokenKind>)
    ensures
        k == symbol_kind(seq![c]),
{
    if c == '+' {
        Some(TokenKind::PLUS)
    } else if c == '-' {
        Some(TokenKind::MINUS)
    } else if c == '*' {
        Some(TokenKind::ASTERISK)
    } else if c == '/' {
        Some(TokenKind::SLASH)
    } else if c == ';' {
        Some(TokenKind::SEMICOLON)
    } else if c == '(' {
        Some(TokenKind::LPAREN)
    } else if c == ')' {
        Some(TokenKind::RPAREN)
    } else if c == '{' {
        Some(TokenKind::LBRACE)
    } else if c == '}' {
        Some(TokenKind::RBRACE)
    } else if c == '=' {
        Some(TokenKind::ASSIGN)
    } else if c == ',' {
        Some(TokenKind::COMMA)
    } else if c == '&' {
        Some(TokenKind::AMPERSAND)
    } else if c == ':' {
        Some(TokenKind::COLON)
    } else if c == '.' {
        Some(TokenKind::DOT)
    } else {
        None
    }
}

impl<'a> Lexer<'a> {
    /// A step of the lexer from `pre` to `self`, making `t`, is the step that the
    /// specification takes.
    pub closed spec fn scanned(self, pre: Self, t: Option<Token>) -> bool {
        &&& self.wf()
        &&& self.contents@ == pre.contents@
        &&& self.tokens@ == pre.tokens@
        &&& pre.const_pool@.is_prefix_of(self.const_pool@)
        &&& match spec_scan(pre.rest(), pre.row as int, pre.col as int) {
            ScanStep::Stop => t is None && self.errors@ == pre.errors@ && self.rest() == pre.rest(),
            ScanStep::TooLarge { digits, row, col } => {
                &&& t is None
                &&& self.errors@.len() == pre.errors@.len() + 1
                &&& self.errors@.drop_last() == pre.errors@
                &&& self.errors@.last().position.row == row
                &&& self.errors@.last().position.col == col
                &&& (match self.errors@.last().kind {
                    CmpErrorKind::OUTOF64BITSINTRANGE(d) => d@ == digits,
                    _ => false,
                })
            },
            ScanStep::Emit { kind, row, col, rest, next_row, next_col } => {
                &&& t is Some
                &&& token_view(t.unwrap()) == (kind, row, col)
                &&& self.rest() == rest
                &&& self.row == next_row
                &&& self.col == next_col
                &&& self.errors@ == pre.errors@
            },
        }
    }

    /// A well-formed state after advancing over `k` characters on the same row,
    /// with the column moved on by at most four per character.
    proof fn lemma_advance(pre: Self, post: Self, k: int)
        requires
            pre.wf(),
            0 <= k,
            post.contents@ == pre.contents@,
            post.offset == pre.offset + k,
            post.offset <= post.contents.len(),
            post.row == pre.row,
            1 <= post.col <= pre.col + 4 * k,
            post.pool_ok(),
            post.const_pool@.len() + post.rest().len() < usize::MAX,
        ensures
            post.wf(),
    {
        assert(post.rest() =~= pre.rest().skip(k));
        if has_quote(post.rest()) {
            lemma_suffix_quote(pre.rest(), k);
        }
    }

    fn scan_number(&mut self) -> (t: Option<Token>)
        requires
            old(self).wf(),
            old(self).rest().len() > 0,
            is_digit(old(self).rest()[0]),
        ensures
            final(self).scanned(*old(self), t),
    {
        let ghost pre = *self;
        let ghost rest = self.rest();
        let cur_pos = self.cur_position();
        let digits = self.cut_run(CharClass::Digit);
        let length = digits.len();
        proof {
            lemma_span_props(rest, CharClass::Digit);
        }
        let decimal_value = parse_i64_digits(&digits);
        match decimal_value {
            None => {
                let err = CompileError::out_of_64bit_sint_range(
                    chars_to_string(digits.as_slice()),
                    cur_pos,
                );
                self.detect_error(err);
                proof {
                    assert(self.errors@.drop_last() =~= pre.errors@);
                }
                None
            },
            Some(v) => {
                proof {
                    assert forall|j: int| 0 <= j < digits@.len() implies (#[trigger] digits@[j] as u32) < 0x80 by {
                        assert(is_digit(digits@[j]));
                    }
                    lemma_ascii_width(digits@);
                    assert(rest.take(length as int) == digits@);
                }
                self.skip_offset(length);
                let ghost mid = *self;
                if !self.offset_overruns_contents_length() && self.cur_offset_char() == 'u' {
                    proof {
                        assert(self.rest() == rest.skip(length as int));
                        assert(self.rest().take(1) =~= seq!['u']);
                        lemma_ascii_width(seq!['u']);
                    }
                    self.skip_offset(1);
                    proof {
                        Self::lemma_advance(pre, *self, length + 1);
                        assert(self.rest() =~= rest.skip(length as int).skip(1));
                    }
                    return Some(Token::new_uint(cur_pos, v as u64));
                }
                proof {
                    Self::lemma_advance(pre, *self, length as int);
                }
                Some(Token::new_int(cur_pos, v))
            },
        }
    }
}

impl<'a> Lexer<'a> {
    fn scan_strlit(&mut self) -> (t: Option<Token>)
        requires
            old(self).wf(),
            old(self).rest().len() > 0,
            old(self).rest()[0] == '"',
        ensures
            final(self).scanned(*old(self), t),
    {
        let ghost pre = *self;
        let ghost rest = self.rest();
        let cur_pos = self.cur_position();
        proof {
            lemma_ascii_width(rest.take(1));
            assert(rest.take(1) =~= seq!['"']);
        }
        self.skip_offset(1);
        let ghost a1 = self.rest();
        assert(a1 == rest.skip(1));
        let contents = self.cut_contents(CharClass::NotQuote);
        proof {
            lemma_span_props(a1, CharClass::NotQuote);
        }
        let n = contents.as_str().unicode_len();
        let cached = self.check_already_alloced(contents.as_str());
        proof {
            lemma_skip_width_bound(a1, n + 1);
            lemma_utf8_len_bound(a1);
        }
        self.skip_offset(n + 1);
        let _string_lit_id = if cached {
            self.get_cached_id(contents.as_str())
        } else {
            self.insert_new_buffer(contents.clone())
        };
        proof {
            // the column bound: an unterminated literal leaves no quote in the rest
            if n + 1 <= a1.len() {
                Self::lemma_advance(pre, *self, n + 2);
            } else {
                assert(self.rest() == a1);
                assert(!has_quote(a1)) by {
                    if has_quote(a1) {
                        let i = choose|i: int| 0 <= i < a1.len() && a1[i] == '"';
                        assert(!crate::chars::in_class(a1[i], CharClass::NotQuote));
                    }
                }
                assert(has_quote(rest)) by {
                    assert(rest[0] == '"');
                }
            }
        }
        Some(Token::new(cur_pos, TokenKind::STRLIT(contents)))
    }

    fn scan_word(&mut self) -> (t: Option<Token>)
        requires
            old(self).wf(),
            old(self).rest().len() > 0,
            crate::text::is_ascii_letter(old(self).rest()[0]) || old(self).rest()[0] == '_',
        ensures
            final(self).scanned(*old(self), t),
    {
        let ghost pre = *self;
        let ghost rest = self.rest();
        let cur_pos = self.cur_position();
        let word = self.cut_contents(CharClass::Word);
        proof {
            lemma_span_props(rest, CharClass::Word);
            assert(crate::chars::in_class(rest[0], CharClass::Word));
        }
        let n = word.as_str().unicode_len();
        let cached = self.check_already_alloced(word.as_str());
        proof {
            lemma_skip_width_bound(rest, n as int);
        }
        self.skip_offset(n);
        if let Some(t_kind) = Self::check_reserved(word.as_str()) {
            proof {
                Self::lemma_advance(pre, *self, n as int);
            }
            return Some(Token::new(cur_pos, t_kind));
        }
        let _ident_id = if cached {
            self.get_cached_id(word.as_str())
        } else {
            self.insert_new_buffer(word.clone())
        };
        proof {
            Self::lemma_advance(pre, *self, n as int);
        }
        Some(Token::new(cur_pos, TokenKind::IDENTIFIER(word)))
    }

    fn skip_whitespace(&mut self) -> (t: Option<Token>)
        requires
            old(self).wf(),
            old(self).rest().len() > 0,
            old(self).rest()[0] == ' ' || old(self).rest()[0] == '\t',
        ensures
            final(self).scanned(*old(self), t),
    {
        let ghost pre = *self;
        let ghost rest = self.rest();
        let cur_pos = self.cur_position();
        let ws = self.cut_run(CharClass::Space);
        proof {
            lemma_span_props(rest, CharClass::Space);
            assert(crate::chars::in_class(rest[0], CharClass::Space));
            lemma_skip_width_bound(rest, ws@.len() as int);
        }
        self.skip_offset(ws.len());
        proof {
            Self::lemma_advance(pre, *self, ws@.len() as int);
        }
        Some(Token::new(cur_pos, TokenKind::BLANK))
    }

    /// Reads a comment after its `//`: skips to the end of the line and the newline.
    fn skip_comment(&mut self) -> (t: Option<Token>)
        requires
            old(self).wf(),
            old(self).spec_row() < old(self).spec_offset(),
        ensures
            final(self).wf(),
            final(self).spec_contents() == old(self).spec_contents(),
            final(self).spec_tokens() == old(self).spec_tokens(),
            final(self).spec_errors() == old(self).spec_errors(),
            final(self).rest() == skip_rest(
                old(self).rest().skip(span(old(self).rest(), CharClass::NotNewline) as int),
                1,
            ),
            final(self).spec_row() == old(self).spec_row() + 1,
            final(self).spec_col() == 1,
            final(self).pool() == old(self).pool(),
            t is Some,
            token_view(t.unwrap()) == (
                TokenKindV::Other(TokenKind::BLANK),
                old(self).spec_row(),
                old(self).spec_col(),
            ),
    {
        let ghost pre = *self;
        let ghost rest = self.rest();
        let cur_pos = self.cur_position();
        let ws = self.cut_run(CharClass::NotNewline);
        proof {
            lemma_span_props(rest, CharClass::NotNewline);
            lemma_skip_width_bound(rest, ws@.len() as int);
        }
        self.skip_offset(ws.len());
        let mut newline_pos = self.cur_position();
        newline_pos.add_row(1);
        newline_pos.set_col(1);
        self.set_position(newline_pos);
        self.consume_contents(1);
        proof {
            let k = self.offset - pre.offset;
            assert(self.rest() =~= rest.skip(k));
            if has_quote(self.rest()) {
                lemma_suffix_quote(rest, k);
            }
        }
        Some(Token::new(cur_pos, TokenKind::BLANK))
    }

    fn scan_symbol(&mut self) -> (t: Option<Token>)
        requires
            old(self).wf(),
            old(self).rest().len() > 0,
            !is_digit(old(self).rest()[0]),
            old(self).rest()[0] != '"',
            !crate::text::is_ascii_letter(old(self).rest()[0]),
            old(self).rest()[0] != '_',
            old(self).rest()[0] != ' ',
            old(self).rest()[0] != '\t',
            old(self).rest()[0] != '\n',
        ensures
            final(self).scanned(*old(self), t),
    {
        let ghost pre = *self;
        let ghost rest = self.rest();
        let cur_pos = self.cur_position();
        proof {
            reveal_strlit("::");
            reveal_strlit("//");
        }
        if self.contents_starts_with("::") {
            proof {
                assert(rest.take(2) =~= seq![':', ':']);
                lemma_ascii_width(rest.take(2));
                assert(rest[0] == ':' && rest[1] == ':') by {
                    assert(rest.take(2)[0] == rest[0] && rest.take(2)[1] == rest[1]);
                }
            }
            self.skip_offset(2);
            proof {
                Self::lemma_advance(pre, *self, 2);
            }
            return Some(Token::new(cur_pos, TokenKind::DOUBLECOLON));
        }
        if self.contents_starts_with("//") {
            proof {
                assert(rest.take(2) =~= seq!['/', '/']);
                lemma_ascii_width(rest.take(2));
                assert(rest[0] == '/' && rest[1] == '/') by {
                    assert(rest.take(2)[0] == rest[0] && rest.take(2)[1] == rest[1]);
                }
                assert(!(rest[0] == ':' && rest[1] == ':'));
            }
            self.skip_offset(2);
            proof {
                Self::lemma_advance(pre, *self, 2);
                assert(self.rest() == rest.skip(2));
            }
            return self.skip_comment();
        }
        proof {
            if rest.len() >= 2 {
                assert(!(rest[0] == ':' && rest[1] == ':')) by {
                    if rest[0] == ':' && rest[1] == ':' {
                        assert(rest.take(2) =~= "::"@);
                    }
                }
                assert(!(rest[0] == '/' && rest[1] == '/')) by {
                    if rest[0] == '/' && rest[1] == '/' {
                        assert(rest.take(2) =~= "//"@);
                    }
                }
            }
        }
        let c = self.cur_offset_char();
        match single_symbol(c) {
            Some(k) => {
                proof {
                    lemma_ascii_width(rest.take(1));
                }
                self.skip_offset(1);
                proof {
                    Self::lemma_advance(pre, *self, 1);
                }
                Some(Token::new(cur_pos, k))
            },
            None => None,
        }
    }

    /// Reads the next token, if one can start here (an EOF token at the end of input).
    fn scan(&mut self) -> (t: Option<Token>)
        requires
            old(self).wf(),
        ensures
            final(self).scanned(*old(self), t),
    {
        if self.offset_overruns_contents_length() {
            let cur_pos = self.cur_position();
            return Some(Token::new(cur_pos, TokenKind::EOF));
        }
        let look_char = self.cur_offset_char();
        if exec_is_digit(look_char) {
            self.scan_number()
        } else if look_char == '"' {
            self.scan_strlit()
        } else if exec_is_ascii_letter(look_char) || look_char == '_' {
            self.scan_word()
        } else if look_char == ' ' || look_char == '\t' {
            self.skip_whitespace()
        } else if look_char == '\n' {
            let ghost pre = *self;
            let cur_pos = self.cur_position();
            self.skip_crlf();
            proof {
                assert(self.rest() =~= pre.rest().skip(1));
                if has_quote(self.rest()) {
                    lemma_suffix_quote(pre.rest(), 1);
                }
            }
            Some(Token::new(cur_pos, TokenKind::NEWLINE))
        } else {
            self.scan_symbol()
        }
    }

    /// The reserved word that `s` spells, if any.
    pub fn check_reserved(s: &str) -> (k: Option<TokenKind>)
        ensures
            k == reserved_kind(s@),
    {
        reserved_word(s)
    }
}

/// Every step that makes a token other than EOF reads at least one character.
proof fn lemma_scan_progress(rest: Seq<char>, row: int, col: int)
    ensures
        match spec_scan(rest, row, col) {
            ScanStep::Emit { kind, rest: rest2, .. } => kind != TokenKindV::Other(TokenKind::EOF)
                ==> rest2.len() < rest.len(),
            _ => true,
        },
{
    if rest.len() > 0 {
        let c = rest[0];
        if crate::text::is_digit(c) {
            crate::chars::lemma_span_props(rest, CharClass::Digit);
        } else if c == '"' {
        } else if crate::text::is_ascii_letter(c) || c == '_' {
            crate::chars::lemma_span_props(rest, CharClass::Word);
        } else if c == ' ' || c == '\t' {
            crate::chars::lemma_span_props(rest, CharClass::Space);
        } else if rest.len() >= 2 && rest[0] == '/' && rest[1] == '/' {
            crate::chars::lemma_span_props(rest.skip(2), CharClass::NotNewline);
        }
    }
}

/// What the lexer reports of an integer literal that is too large: nothing when
/// there is none, else one error with its digits and position.
pub open spec fn errors_match(errors: Seq<CompileError>, too_large: Option<(Seq<char>, int, int)>) -> bool {
    match too_large {
        None => errors.len() == 0,
        Some((digits, row, col)) => {
            &&& errors.len() == 1
            &&& errors[0].position.row == row
            &&& errors[0].position.col == col
            &&& match errors[0].kind {
                CmpErrorKind::OUTOF64BITSINTRANGE(d) => d@ == digits,
                _ => false,
            }
        },
    }
}

impl<'a> Lexer<'a> {
    /// Reads tokens until the end of input, or until no token can start.
    fn construct_tokens(&mut self)
        requires
            old(self).wf(),
            old(self).spec_errors().len() == 0,
        ensures
            final(self).wf(),
            tokens_view(final(self).spec_tokens()) == tokens_view(old(self).spec_tokens()) + spec_lex(
                old(self).rest(),
                old(self).spec_row(),
                old(self).spec_col(),
            ).tokens,
            errors_match(
                final(self).spec_errors(),
                spec_lex(old(self).rest(), old(self).spec_row(), old(self).spec_col()).too_large,
            ),
            final(self).pool_ok(),
            old(self).pool().is_prefix_of(final(self).pool()),
    {
        let ghost target = spec_lex(self.rest(), self.row as int, self.col as int);
        let ghost t0 = tokens_view(self.tokens@);
        let ghost p0 = self.const_pool@;
        loop
            invariant_except_break
                self.wf(),
                p0.is_prefix_of(self.const_pool@),
                self.errors@.len() == 0,
                t0 + target.tokens == tokens_view(self.tokens@) + spec_lex(
                    self.rest(),
                    self.row as int,
                    self.col as int,
                ).tokens,
                spec_lex(self.rest(), self.row as int, self.col as int).too_large == target.too_large,
            ensures
                self.wf(),
                p0.is_prefix_of(self.const_pool@),
                tokens_view(self.tokens@) == t0 + target.tokens,
                errors_match(self.errors@, target.too_large),
            decreases self.rest().len(),
        {
            let ghost pre = *self;
            proof {
                lemma_scan_progress(pre.rest(), pre.row as int, pre.col as int);
            }
            match self.scan() {
                None => {
                    proof {
                        assert(tokens_view(self.tokens@) + Seq::<SpecToken>::empty() =~= tokens_view(self.tokens@));
                    }
                    break;
                },
                Some(t) => {
                    if t.should_ignore() {
                        continue;
                    }
                    let is_eof = match t.kind {
                        TokenKind::EOF => true,
                        _ => false,
                    };
                    self.add_token(t);
                    proof {
                        assert(tokens_view(self.tokens@) =~= tokens_view(pre.tokens@).push(token_view(t)));
                        let after = spec_lex(self.rest(), self.row as int, self.col as int);
                        if !is_eof {
                            assert(seq![token_view(t)] + after.tokens =~= seq![token_view(t)].add(after.tokens));
                            assert(tokens_view(pre.tokens@) + (seq![token_view(t)] + after.tokens)
                                =~= tokens_view(self.tokens@) + after.tokens);
                        }
                    }
                    if is_eof {
                        break;
                    }
                },
            }
        }
    }
}

/// Makes the tokens of a program, storing its identifiers and string literals in
/// `const_pool` (with `buffer_cache` for the strings already stored); gives back the
/// tokens, the pool and the errors.
pub fn tokenize_into_pool(
    opt: &BuildOption,
    contents: String,
    const_pool: ConstAllocator,
    buffer_cache: NameMap<PStringId>,
) -> (r: ((Vec<Token>, ConstAllocator), Vec<CompileError>))
    requires
        contents@.len() <= MAX_PROGRAM_CHARS,
        const_pool@.len() + contents@.len() < usize::MAX,
        buffer_cache.wf(),
        cache_agrees(const_pool@, buffer_cache@),
    ensures
        tokens_view(r.0.0@) == spec_lex(contents@, 1, 1).tokens,
        errors_match(r.1@, spec_lex(contents@, 1, 1).too_large),
        const_pool@.is_prefix_of(r.0.1@),
{
    let mut lexer = Lexer::new(opt, contents, const_pool, buffer_cache);
    proof {
        assert(tokens_view(lexer.tokens@) =~= Seq::<SpecToken>::empty());
    }
    lexer.construct_tokens();
    let errors = lexer.copy_errors();
    proof {
        assert(tokens_view(lexer.tokens@) =~= spec_lex(contents@, 1, 1).tokens);
    }
    (lexer.give_token_and_const_arena(), errors)
}

/// Makes the tokens of a program; gives back the tokens and the errors.
///
/// The tokens are those of [`spec_lex`] from the first row and column: blanks,
/// newlines and comments are dropped, and an EOF token ends them unless lexing
/// stopped early (on a character that starts no token, or on an integer literal
/// that is too large, which is then the one error).
pub fn tokenize(opt: &BuildOption, contents: String) -> (r: (Vec<Token>, Vec<CompileError>))
    requires
        contents@.len() <= MAX_PROGRAM_CHARS,
    ensures
        tokens_view(r.0@) == spec_lex(contents@, 1, 1).tokens,
        errors_match(r.1@, spec_lex(contents@, 1, 1).too_large),
{
    let pool = ConstAllocator::default();
    let cache: NameMap<PStringId> = NameMap::new();
    let ((tokens, _pool), errors) = tokenize_into_pool(opt, contents, pool, cache);
    (tokens, errors)
}

} // verus!
