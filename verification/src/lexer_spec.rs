use vstd::prelude::*;

use crate::chars::{span, utf8_len, CharClass};
use crate::text::{decimal_value, is_ascii_letter, is_digit};
use crate::token::{symbol_kind, TokenKind, TokenKindV};

verus! {

/// The reserved word that `w` spells, if any.
pub open spec fn reserved_kind(w: Seq<char>) -> Option<TokenKind> {
    if w == "true"@ {
        Some(TokenKind::TRUE)
    } else if w == "false"@ {
        Some(TokenKind::FALSE)
    } else if w == "Boolean"@ || w == "boolean"@ {
        Some(TokenKind::BOOLEAN)
    } else if w == "ifret"@ {
        Some(TokenKind::IFRET)
    } else if w == "if"@ {
        Some(TokenKind::IF)
    } else if w == "else"@ {
        Some(TokenKind::ELSE)
    } else if w == "Int64"@ || w == "int64"@ {
        Some(TokenKind::INT64)
    } else if w == "func"@ {
        Some(TokenKind::FUNC)
    } else if w == "return"@ {
        Some(TokenKind::RETURN)
    } else if w == "declare"@ {
        Some(TokenKind::DECLARE)
    } else if w == "countup"@ {
        Some(TokenKind::COUNTUP)
    } else if w == "from"@ {
        Some(TokenKind::FROM)
    } else if w == "to"@ {
        Some(TokenKind::TO)
    } else if w == "require"@ {
        Some(TokenKind::REQUIRE)
    } else if w == "asm"@ {
        Some(TokenKind::ASM)
    } else if w == "Noreturn"@ || w == "noreturn"@ {
        Some(TokenKind::NORETURN)
    } else if w == "ConstStr"@ {
        Some(TokenKind::CONSTSTR)
    } else if w == "str"@ {
        Some(TokenKind::STR)
    } else if w == "pubtype"@ {
        Some(TokenKind::PUBTYPE)
    } else if w == "Uint64"@ || w == "uint64"@ {
        Some(TokenKind::UINT64)
    } else if w == "varinit"@ {
        Some(TokenKind::VARINIT)
    } else if w == "const"@ {
        Some(TokenKind::CONST)
    } else {
        None
    }
}

/// The column advance of skipping `n` characters of `rest`: the UTF-8 width of
/// what is there, and one for each character asked for beyond the end.
pub open spec fn skip_width(rest: Seq<char>, n: int) -> int {
    if n <= rest.len() {
        utf8_len(rest.take(n)) as int
    } else {
        utf8_len(rest) + (n - rest.len())
    }
}

/// What skipping `n` characters leaves: the characters after them, or all of
/// `rest` when there are fewer than `n`.
pub open spec fn skip_rest(rest: Seq<char>, n: int) -> Seq<char> {
    if n <= rest.len() {
        rest.skip(n)
    } else {
        rest
    }
}

/// One step of the lexer on the unread input `rest` at row `row`, column `col`.
pub enum ScanStep {
    /// A token of kind `kind` at (`row`, `col`); the unread input and position after it.
    Emit { kind: TokenKindV, row: int, col: int, rest: Seq<char>, next_row: int, next_col: int },
    /// No token can start here: lexing ends.
    Stop,
    /// An integer literal out of the range of `i64`: its digits and where it starts.
    TooLarge { digits: Seq<char>, row: int, col: int },
}

pub open spec fn spec_scan(rest: Seq<char>, row: int, col: int) -> ScanStep {
    if rest.len() == 0 {
        ScanStep::Emit {
            kind: TokenKindV::Other(TokenKind::EOF),
            row,
            col,
            rest,
            next_row: row,
            next_col: col,
        }
    } else {
        let c = rest[0];
        if is_digit(c) {
            let n = span(rest, CharClass::Digit) as int;
            let digits = rest.take(n);
            let v = decimal_value(digits);
            if v > i64::MAX {
                ScanStep::TooLarge { digits, row, col }
            } else {
                let after = rest.skip(n);
                if after.len() > 0 && after[0] == 'u' {
                    ScanStep::Emit {
                        kind: TokenKindV::UInt(v as u64),
                        row,
                        col,
                        rest: after.skip(1),
                        next_row: row,
                        next_col: col + n + 1,
                    }
                } else {
                    ScanStep::Emit {
                        kind: TokenKindV::Int(v as i64),
                        row,
                        col,
                        rest: after,
                        next_row: row,
                        next_col: col + n,
                    }
                }
            }
        } else if c == '"' {
            let a1 = rest.skip(1);
            let m = span(a1, CharClass::NotQuote) as int;
            let contents = a1.take(m);
            ScanStep::Emit {
                kind: TokenKindV::Str(contents),
                row,
                col,
                rest: skip_rest(a1, m + 1),
                next_row: row,
                next_col: col + 1 + skip_width(a1, m + 1),
            }
        } else if is_ascii_letter(c) || c == '_' {
            let m = span(rest, CharClass::Word) as int;
            let w = rest.take(m);
            ScanStep::Emit {
                kind: match reserved_kind(w) {
                    Some(k) => TokenKindV::Other(k),
                    None => TokenKindV::Ident(w),
                },
                row,
                col,
                rest: rest.skip(m),
                next_row: row,
                next_col: col + utf8_len(w),
            }
        } else if c == ' ' || c == '\t' {
            let m = span(rest, CharClass::Space) as int;
            ScanStep::Emit {
                kind: TokenKindV::Other(TokenKind::BLANK),
                row,
                col,
                rest: rest.skip(m),
                next_row: row,
                next_col: col + utf8_len(rest.take(m)),
            }
        } else if c == '\n' {
            ScanStep::Emit {
                kind: TokenKindV::Other(TokenKind::NEWLINE),
                row,
                col,
                rest: rest.skip(1),
                next_row: row + 1,
                next_col: 1,
            }
        } else if rest.len() >= 2 && rest[0] == ':' && rest[1] == ':' {
            ScanStep::Emit {
                kind: TokenKindV::Other(TokenKind::DOUBLECOLON),
                row,
                col,
                rest: rest.skip(2),
                next_row: row,
                next_col: col + 2,
            }
        } else if rest.len() >= 2 && rest[0] == '/' && rest[1] == '/' {
            // a comment: up to the end of the line, and the newline itself
            let a2 = rest.skip(2);
            let m = span(a2, CharClass::NotNewline) as int;
            ScanStep::Emit {
                kind: TokenKindV::Other(TokenKind::BLANK),
                row,
                col: col + 2,
                rest: skip_rest(a2.skip(m), 1),
                next_row: row + 1,
                next_col: 1,
            }
        } else if symbol_kind(seq![c]) is Some {
            ScanStep::Emit {
                kind: TokenKindV::Other(symbol_kind(seq![c]).unwrap()),
                row,
                col,
                rest: rest.skip(1),
                next_row: row,
                next_col: col + 1,
            }
        } else {
            ScanStep::Stop
        }
    }
}

/// A token as the specification sees it: its kind and its (row, column).
pub type SpecToken = (TokenKindV, int, int);

/// The outcome of lexing a whole input.
pub struct LexOutcome {
    /// The tokens that are kept (blanks and newlines are dropped); an EOF token ends them unless lexing stopped early.
    pub tokens: Seq<SpecToken>,
    /// An integer literal that is too large, if lexing ended on one: its digits and position.
    pub too_large: Option<(Seq<char>, int, int)>,
}

/// Whether a token kind is left out of the token list.
pub open spec fn ignored(k: TokenKindV) -> bool {
    k == TokenKindV::Other(TokenKind::BLANK) || k == TokenKindV::Other(TokenKind::NEWLINE)
}

/// Lexing the unread input `rest` from row `row`, column `col`.
pub open spec fn spec_lex(rest: Seq<char>, row: int, col: int) -> LexOutcome
    decreases rest.len(),
{
    match spec_scan(rest, row, col) {
        ScanStep::Stop => LexOutcome { tokens: Seq::empty(), too_large: None },
        ScanStep::TooLarge { digits, row, col } => LexOutcome {
            tokens: Seq::empty(),
            too_large: Some((digits, row, col)),
        },
        ScanStep::Emit { kind, row: tr, col: tc, rest: rest2, next_row, next_col } => {
            if kind == TokenKindV::Other(TokenKind::EOF) {
                LexOutcome { tokens: seq![(kind, tr, tc)], too_large: None }
            } else if rest2.len() < rest.len() {
                let after = spec_lex(rest2, next_row, next_col);
                if ignored(kind) {
                    after
                } else {
                    LexOutcome { tokens: seq![(kind, tr, tc)] + after.tokens, too_large: after.too_large }
                }
            } else {
                LexOutcome { tokens: Seq::empty(), too_large: None }
            }
        },
    }
}

} // verus!
