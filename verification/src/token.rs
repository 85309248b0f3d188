use vstd::prelude::*;

use crate::ast::{debug_chars, debug_text};
use crate::position::Position;
use crate::text::{decimal_text, i64_to_decimal, push_all, push_str, signed_decimal_text, u64_to_decimal};

verus! {

/// The kinds of token of the Peachili language.
#[derive(PartialEq, Eq, Debug, Clone)]
pub enum TokenKind {
    INTEGER(i64),
    UNSIGNEDINTEGER(u64),
    STRLIT(String),
    IDENTIFIER(String),
    // symbols
    PLUS,
    MINUS,
    ASTERISK,
    SLASH,
    DOUBLESLASH,
    LPAREN,
    RPAREN,
    LBRACE,
    RBRACE,
    COLON,
    DOUBLECOLON,
    SEMICOLON,
    ASSIGN,
    BLANK,
    NEWLINE,
    COMMA,
    EOF,
    AMPERSAND,
    DOT,
    // reserved words
    ASM,
    BOOLEAN,
    CONST,
    CONSTSTR,
    COUNTUP,
    DECLARE,
    ELSE,
    FALSE,
    FROM,
    FUNC,
    IF,
    IFRET,
    INT64,
    NORETURN,
    PUBTYPE,
    RETURN,
    REQUIRE,
    STR,
    STRUCT,
    TO,
    TRUE,
    UINT64,
    VARINIT,
}

/// The mathematical value of a token kind: the payload of a string literal or
/// an identifier is taken as its characters; every other kind is itself.
pub enum TokenKindV {
    Int(i64),
    UInt(u64),
    Str(Seq<char>),
    Ident(Seq<char>),
    Other(TokenKind),
}

/// Whether a token kind carries no payload.
pub open spec fn is_plain_kind(k: TokenKind) -> bool {
    match k {
        TokenKind::INTEGER(_) | TokenKind::UNSIGNEDINTEGER(_) | TokenKind::STRLIT(_)
        | TokenKind::IDENTIFIER(_) => false,
        _ => true,
    }
}

impl View for TokenKind {
    type V = TokenKindV;

    open spec fn view(&self) -> TokenKindV {
        match self {
            TokenKind::INTEGER(v) => TokenKindV::Int(*v),
            TokenKind::UNSIGNEDINTEGER(v) => TokenKindV::UInt(*v),
            TokenKind::STRLIT(s) => TokenKindV::Str(s@),
            TokenKind::IDENTIFIER(s) => TokenKindV::Ident(s@),
            _ => TokenKindV::Other(*self),
        }
    }
}

/// The fixed text of each kind of token (a category name for the kinds with a payload).
pub open spec fn kind_text(k: TokenKindV) -> Seq<char> {
    match k {
        TokenKindV::Int(_) => "integer"@,
        TokenKindV::UInt(_) => "unsigned-integer"@,
        TokenKindV::Str(_) => "string-lit"@,
        TokenKindV::Ident(_) => "identifier"@,
        TokenKindV::Other(k) => match k {
            TokenKind::PLUS => "+"@,
            TokenKind::MINUS => "-"@,
            TokenKind::ASTERISK => "*"@,
            TokenKind::SLASH => "/"@,
            TokenKind::DOUBLESLASH => "//"@,
            TokenKind::LPAREN => "("@,
            TokenKind::RPAREN => ")"@,
            TokenKind::LBRACE => "{"@,
            TokenKind::RBRACE => "}"@,
            TokenKind::COLON => ":"@,
            TokenKind::DOUBLECOLON => "::"@,
            TokenKind::SEMICOLON => ";"@,
            TokenKind::ASSIGN => "="@,
            TokenKind::BLANK => "blank"@,
            TokenKind::NEWLINE => "newline"@,
            TokenKind::COMMA => ","@,
            TokenKind::EOF => "eof"@,
            TokenKind::AMPERSAND => "&"@,
            TokenKind::DOT => "."@,
            TokenKind::STRUCT => "strct"@,
            TokenKind::BOOLEAN => "boolean"@,
            TokenKind::TRUE => "true"@,
            TokenKind::FALSE => "false"@,
            TokenKind::REQUIRE => "require"@,
            TokenKind::IF => "if"@,
            TokenKind::ELSE => "else"@,
            TokenKind::IFRET => "ifret"@,
            TokenKind::FUNC => "func"@,
            TokenKind::DECLARE => "declare"@,
            TokenKind::COUNTUP => "countup"@,
            TokenKind::FROM => "from"@,
            TokenKind::TO => "to"@,
            TokenKind::ASM => "asm"@,
            TokenKind::RETURN => "return"@,
            TokenKind::NORETURN => "Noreturn"@,
            TokenKind::INT64 => "Int64"@,
            TokenKind::UINT64 => "Uint64"@,
            TokenKind::CONSTSTR => "ConstStr"@,
            TokenKind::STR => "str"@,
            TokenKind::PUBTYPE => "pubtype"@,
            TokenKind::VARINIT => "varinit"@,
            TokenKind::CONST => "const"@,
            _ => "integer"@,
        },
    }
}

/// The symbol that one character denotes, if any.
pub open spec fn char_symbol(c: char) -> Option<TokenKind> {
    if c == '+' {
        Some(TokenKind::PLUS)
    } else if c == '-' {
        Some(TokenKind::MINUS)
    } else if c == '*' {
        Some(TokenKind::ASTERISK)
    } else if c == '/' {
        Some(TokenKind::SLASH)
    } else if c == '(' {
        Some(TokenKind::LPAREN)
    } else if c == ')' {
        Some(TokenKind::RPAREN)
    } else if c == '{' {
        Some(TokenKind::LBRACE)
    } else if c == '}' {
        Some(TokenKind::RBRACE)
    } else if c == ':' {
        Some(TokenKind::COLON)
    } else if c == '=' {
        Some(TokenKind::ASSIGN)
    } else if c == ',' {
        Some(TokenKind::COMMA)
    } else if c == ';' {
        Some(TokenKind::SEMICOLON)
    } else if c == '&' {
        Some(TokenKind::AMPERSAND)
    } else if c == '.' {
        Some(TokenKind::DOT)
    } else {
        None
    }
}

/// The symbol that a one- or two-character string denotes, if any.
pub open spec fn symbol_kind(s: Seq<char>) -> Option<TokenKind> {
    if s.len() == 1 {
        char_symbol(s[0])
    } else if s.len() == 2 && s[0] == '/' && s[1] == '/' {
        Some(TokenKind::DOUBLESLASH)
    } else if s.len() == 2 && s[0] == ':' && s[1] == ':' {
        Some(TokenKind::DOUBLECOLON)
    } else {
        None
    }
}

impl TokenKind {
    /// Makes a copy of a token kind.
    pub fn copy_kind(&self) -> (k: TokenKind)
        ensures
            k@ == self@,
    {
        match self {
            TokenKind::INTEGER(v) => TokenKind::INTEGER(*v),
            TokenKind::UNSIGNEDINTEGER(v) => TokenKind::UNSIGNEDINTEGER(*v),
            TokenKind::STRLIT(s) => TokenKind::STRLIT(s.clone()),
            TokenKind::IDENTIFIER(s) => TokenKind::IDENTIFIER(s.clone()),
            TokenKind::PLUS => TokenKind::PLUS,
            TokenKind::MINUS => TokenKind::MINUS,
            TokenKind::ASTERISK => TokenKind::ASTERISK,
            TokenKind::SLASH => TokenKind::SLASH,
            TokenKind::DOUBLESLASH => TokenKind::DOUBLESLASH,
            TokenKind::LPAREN => TokenKind::LPAREN,
            TokenKind::RPAREN => TokenKind::RPAREN,
            TokenKind::LBRACE => TokenKind::LBRACE,
            TokenKind::RBRACE => TokenKind::RBRACE,
            TokenKind::COLON => TokenKind::COLON,
            TokenKind::DOUBLECOLON => TokenKind::DOUBLECOLON,
            TokenKind::SEMICOLON => TokenKind::SEMICOLON,
            TokenKind::ASSIGN => TokenKind::ASSIGN,
            TokenKind::BLANK => TokenKind::BLANK,
            TokenKind::NEWLINE => TokenKind::NEWLINE,
            TokenKind::COMMA => TokenKind::COMMA,
            TokenKind::EOF => TokenKind::EOF,
            TokenKind::AMPERSAND => TokenKind::AMPERSAND,
            TokenKind::DOT => TokenKind::DOT,
            TokenKind::ASM => TokenKind::ASM,
            TokenKind::BOOLEAN => TokenKind::BOOLEAN,
            TokenKind::CONST => TokenKind::CONST,
            TokenKind::CONSTSTR => TokenKind::CONSTSTR,
            TokenKind::COUNTUP => TokenKind::COUNTUP,
            TokenKind::DECLARE => TokenKind::DECLARE,
            TokenKind::ELSE => TokenKind::ELSE,
            TokenKind::FALSE => TokenKind::FALSE,
            TokenKind::FROM => TokenKind::FROM,
            TokenKind::FUNC => TokenKind::FUNC,
            TokenKind::IF => TokenKind::IF,
            TokenKind::IFRET => TokenKind::IFRET,
            TokenKind::INT64 => TokenKind::INT64,
            TokenKind::NORETURN => TokenKind::NORETURN,
            TokenKind::PUBTYPE => TokenKind::PUBTYPE,
            TokenKind::RETURN => TokenKind::RETURN,
            TokenKind::REQUIRE => TokenKind::REQUIRE,
            TokenKind::STR => TokenKind::STR,
            TokenKind::STRUCT => TokenKind::STRUCT,
            TokenKind::TO => TokenKind::TO,
            TokenKind::TRUE => TokenKind::TRUE,
            TokenKind::UINT64 => TokenKind::UINT64,
            TokenKind::VARINIT => TokenKind::VARINIT,
        }
    }

    /// Whether two token kinds are equal (payloads compared by value).
    pub fn same_kind(&self, other: &TokenKind) -> (b: bool)
        ensures
            b == (self@ == other@),
    {
        match (self, other) {
            (TokenKind::INTEGER(a), TokenKind::INTEGER(b)) => *a == *b,
            (TokenKind::UNSIGNEDINTEGER(a), TokenKind::UNSIGNEDINTEGER(b)) => *a == *b,
            (TokenKind::STRLIT(a), TokenKind::STRLIT(b)) => *a == *b,
            (TokenKind::IDENTIFIER(a), TokenKind::IDENTIFIER(b)) => *a == *b,
            (TokenKind::INTEGER(_), _) | (TokenKind::UNSIGNEDINTEGER(_), _) | (
                TokenKind::STRLIT(_),
                _,
            ) | (TokenKind::IDENTIFIER(_), _) => false,
            (_, TokenKind::INTEGER(_)) | (_, TokenKind::UNSIGNEDINTEGER(_)) | (
                _,
                TokenKind::STRLIT(_),
            ) | (_, TokenKind::IDENTIFIER(_)) => false,
            _ => self.plain_tag() == other.plain_tag(),
        }
    }

    /// A number for each kind of token, distinct for distinct plain kinds.
    pub fn plain_tag(&self) -> (t: u8)
        ensures
            forall|o: TokenKind| #![trigger o.spec_plain_tag()]
                is_plain_kind(*self) && is_plain_kind(o) ==> (t == o.spec_plain_tag() <==> *self == o),
            t == self.spec_plain_tag(),
    {
        match self {
            TokenKind::INTEGER(_) => 0,
            TokenKind::UNSIGNEDINTEGER(_) => 1,
            TokenKind::STRLIT(_) => 2,
            TokenKind::IDENTIFIER(_) => 3,
            TokenKind::PLUS => 4,
            TokenKind::MINUS => 5,
            TokenKind::ASTERISK => 6,
            TokenKind::SLASH => 7,
            TokenKind::DOUBLESLASH => 8,
            TokenKind::LPAREN => 9,
            TokenKind::RPAREN => 10,
            TokenKind::LBRACE => 11,
            TokenKind::RBRACE => 12,
            TokenKind::COLON => 13,
            TokenKind::DOUBLECOLON => 14,
            TokenKind::SEMICOLON => 15,
            TokenKind::ASSIGN => 16,
            TokenKind::BLANK => 17,
            TokenKind::NEWLINE => 18,
            TokenKind::COMMA => 19,
            TokenKind::EOF => 20,
            TokenKind::AMPERSAND => 21,
            TokenKind::DOT => 22,
            TokenKind::ASM => 23,
            TokenKind::BOOLEAN => 24,
            TokenKind::CONST => 25,
            TokenKind::CONSTSTR => 26,
            TokenKind::COUNTUP => 27,
            TokenKind::DECLARE => 28,
            TokenKind::ELSE => 29,
            TokenKind::FALSE => 30,
            TokenKind::FROM => 31,
            TokenKind::FUNC => 32,
            TokenKind::IF => 33,
            TokenKind::IFRET => 34,
            TokenKind::INT64 => 35,
            TokenKind::NORETURN => 36,
            TokenKind::PUBTYPE => 37,
            TokenKind::RETURN => 38,
            TokenKind::REQUIRE => 39,
            TokenKind::STR => 40,
            TokenKind::STRUCT => 41,
            TokenKind::TO => 42,
            TokenKind::TRUE => 43,
            TokenKind::UINT64 => 44,
            TokenKind::VARINIT => 45,
        }
    }

    pub open spec fn spec_plain_tag(&self) -> u8 {
        match self {
            TokenKind::INTEGER(_) => 0,
            TokenKind::UNSIGNEDINTEGER(_) => 1,
            TokenKind::STRLIT(_) => 2,
            TokenKind::IDENTIFIER(_) => 3,
            TokenKind::PLUS => 4,
            TokenKind::MINUS => 5,
            TokenKind::ASTERISK => 6,
            TokenKind::SLASH => 7,
            TokenKind::DOUBLESLASH => 8,
            TokenKind::LPAREN => 9,
            TokenKind::RPAREN => 10,
            TokenKind::LBRACE => 11,
            TokenKind::RBRACE => 12,
            TokenKind::COLON => 13,
            TokenKind::DOUBLECOLON => 14,
            TokenKind::SEMICOLON => 15,
            TokenKind::ASSIGN => 16,
            TokenKind::BLANK => 17,
            TokenKind::NEWLINE => 18,
            TokenKind::COMMA => 19,
            TokenKind::EOF => 20,
            TokenKind::AMPERSAND => 21,
            TokenKind::DOT => 22,
            TokenKind::ASM => 23,
            TokenKind::BOOLEAN => 24,
            TokenKind::CONST => 25,
            TokenKind::CONSTSTR => 26,
            TokenKind::COUNTUP => 27,
            TokenKind::DECLARE => 28,
            TokenKind::ELSE => 29,
            TokenKind::FALSE => 30,
            TokenKind::FROM => 31,
            TokenKind::FUNC => 32,
            TokenKind::IF => 33,
            TokenKind::IFRET => 34,
            TokenKind::INT64 => 35,
            TokenKind::NORETURN => 36,
            TokenKind::PUBTYPE => 37,
            TokenKind::RETURN => 38,
            TokenKind::REQUIRE => 39,
            TokenKind::STR => 40,
            TokenKind::STRUCT => 41,
            TokenKind::TO => 42,
            TokenKind::TRUE => 43,
            TokenKind::UINT64 => 44,
            TokenKind::VARINIT => 45,
        }
    }
}

impl TokenKind {
    /// The fixed text of this kind of token (a category name for the kinds with a payload).
    pub fn to_str(&self) -> (s: &'static str)
        ensures
            s@ == kind_text(self@),
    {
        match self {
            TokenKind::INTEGER(_val) => "integer",
            TokenKind::UNSIGNEDINTEGER(_val) => "unsigned-integer",
            TokenKind::STRLIT(_val) => "string-lit",
            TokenKind::IDENTIFIER(_val) => "identifier",
            TokenKind::PLUS => "+",
            TokenKind::MINUS => "-",
            TokenKind::ASTERISK => "*",
            TokenKind::SLASH => "/",
            TokenKind::DOUBLESLASH => "//",
            TokenKind::LPAREN => "(",
            TokenKind::RPAREN => ")",
            TokenKind::LBRACE => "{",
            TokenKind::RBRACE => "}",
            TokenKind::COLON => ":",
            TokenKind::DOUBLECOLON => "::",
            TokenKind::SEMICOLON => ";",
            TokenKind::ASSIGN => "=",
            TokenKind::BLANK => "blank",
            TokenKind::NEWLINE => "newline",
            TokenKind::COMMA => ",",
            TokenKind::EOF => "eof",
            TokenKind::AMPERSAND => "&",
            TokenKind::DOT => ".",
            TokenKind::STRUCT => "strct",
            TokenKind::BOOLEAN => "boolean",
            TokenKind::TRUE => "true",
            TokenKind::FALSE => "false",
            TokenKind::REQUIRE => "require",
            TokenKind::IF => "if",
            TokenKind::ELSE => "else",
            TokenKind::IFRET => "ifret",
            TokenKind::FUNC => "func",
            TokenKind::DECLARE => "declare",
            TokenKind::COUNTUP => "countup",
            TokenKind::FROM => "from",
            TokenKind::TO => "to",
            TokenKind::ASM => "asm",
            TokenKind::RETURN => "return",
            TokenKind::NORETURN => "Noreturn",
            TokenKind::INT64 => "Int64",
            TokenKind::UINT64 => "Uint64",
            TokenKind::CONSTSTR => "ConstStr",
            TokenKind::STR => "str",
            TokenKind::PUBTYPE => "pubtype",
            TokenKind::VARINIT => "varinit",
            TokenKind::CONST => "const",
        }
    }
}

impl TokenKind {
    /// The symbol kind that `s` names.
    ///
    /// Only the symbols `+ - * / // ( ) { } : :: = , ; & .` have a kind; any
    /// other string is not a symbol, and the caller must not pass one.
    pub fn new_from_string(s: &str) -> (k: Self)
        requires
            symbol_kind(s@) is Some,
        ensures
            k == symbol_kind(s@).unwrap(),
    {
        let n = s.unicode_len();
        let c0 = s.get_char(0);
        if n == 1 {
            if c0 == '+' {
                TokenKind::PLUS
            } else if c0 == '-' {
                TokenKind::MINUS
            } else if c0 == '*' {
                TokenKind::ASTERISK
            } else if c0 == '/' {
                TokenKind::SLASH
            } else if c0 == '(' {
                TokenKind::LPAREN
            } else if c0 == ')' {
                TokenKind::RPAREN
            } else if c0 == '{' {
                TokenKind::LBRACE
            } else if c0 == '}' {
                TokenKind::RBRACE
            } else if c0 == ':' {
                TokenKind::COLON
            } else if c0 == '=' {
                TokenKind::ASSIGN
            } else if c0 == ',' {
                TokenKind::COMMA
            } else if c0 == ';' {
                TokenKind::SEMICOLON
            } else if c0 == '&' {
                TokenKind::AMPERSAND
            } else {
                TokenKind::DOT
            }
        } else if c0 == '/' {
            TokenKind::DOUBLESLASH
        } else {
            TokenKind::DOUBLECOLON
        }
    }
}

/// A token: its kind and where it starts.
#[derive(PartialEq, Eq, Debug, Clone)]
pub struct Token {
    pub kind: TokenKind,
    pub position: Position,
}

impl Token {
    /// Where the token starts.
    pub open spec fn pos(&self) -> Position {
        self.position
    }

    pub fn new(cur_pos: Position, token_kind: TokenKind) -> (t: Self)
        ensures
            t.kind == token_kind,
            t.pos() == cur_pos,
    {
        Token { kind: token_kind, position: cur_pos }
    }

    /// Whether the token is left out of the token list (blanks and newlines).
    pub fn should_ignore(&self) -> (b: bool)
        ensures
            b == (self.kind is BLANK || self.kind is NEWLINE),
    {
        match self.kind {
            TokenKind::BLANK | TokenKind::NEWLINE => true,
            _ => false,
        }
    }

    pub fn new_int(cur_pos: Position, int_value: i64) -> (t: Self)
        ensures
            t.kind == TokenKind::INTEGER(int_value),
            t.pos() == cur_pos,
    {
        Self::new(cur_pos, TokenKind::INTEGER(int_value))
    }

    pub fn new_uint(cur_pos: Position, int_value: u64) -> (t: Self)
        ensures
            t.kind == TokenKind::UNSIGNEDINTEGER(int_value),
            t.pos() == cur_pos,
    {
        Self::new(cur_pos, TokenKind::UNSIGNEDINTEGER(int_value))
    }

    pub fn get_pos(&self) -> (p: Position)
        ensures
            p == self.pos(),
    {
        let (row, column) = self.position.get_pos();
        Position::new(row, column)
    }

    pub fn get_int_value(&self) -> (v: Option<i64>)
        ensures
            v == (match self.kind {
                TokenKind::INTEGER(x) => Some(x),
                _ => None,
            }),
    {
        match self.kind {
            TokenKind::INTEGER(v) => Some(v),
            _ => None,
        }
    }

    pub fn get_uint_value(&self) -> (v: Option<u64>)
        ensures
            v == (match self.kind {
                TokenKind::UNSIGNEDINTEGER(x) => Some(x),
                _ => None,
            }),
    {
        match self.kind {
            TokenKind::UNSIGNEDINTEGER(v) => Some(v),
            _ => None,
        }
    }

    /// The name of an identifier token.
    pub fn get_ident_id(&self) -> (name: Option<String>)
        ensures
            match self.kind {
                TokenKind::IDENTIFIER(x) => name is Some && name.unwrap()@ == x@,
                _ => name is None,
            },
    {
        match &self.kind {
            TokenKind::IDENTIFIER(name) => Some(name.clone()),
            _ => None,
        }
    }

    /// The contents of a string-literal token.
    pub fn get_str_id(&self) -> (contents: Option<String>)
        ensures
            match self.kind {
                TokenKind::STRLIT(x) => contents is Some && contents.unwrap()@ == x@,
                _ => contents is None,
            },
    {
        match &self.kind {
            TokenKind::STRLIT(contents) => Some(contents.clone()),
            _ => None,
        }
    }

    /// A copy of the token.
    pub fn copy_token(&self) -> (t: Token)
        ensures
            t.kind@ == self.kind@,
            t.pos() == self.pos(),
    {
        Token { kind: self.kind.copy_kind(), position: self.position }
    }
}

/// How a token kind is displayed: a number as its digits (an unsigned one followed by
/// `u`), a string literal as `str-` and its quoted contents, a name as `ident-` and
/// the quoted name, and the other kinds by their fixed text.
pub open spec fn display_text(k: TokenKindV) -> Seq<char> {
    match k {
        TokenKindV::Int(v) => signed_decimal_text(v as int),
        TokenKindV::UInt(v) => decimal_text(v as nat) + "u"@,
        TokenKindV::Str(s) => "str-"@ + debug_text(s),
        TokenKindV::Ident(s) => "ident-"@ + debug_text(s),
        TokenKindV::Other(TokenKind::BLANK) => "BLANK"@,
        TokenKindV::Other(TokenKind::NEWLINE) => "NEWLINE"@,
        TokenKindV::Other(TokenKind::STRUCT) => "struct"@,
        TokenKindV::Other(TokenKind::BOOLEAN) => "Boolean"@,
        _ => kind_text(k),
    }
}

impl TokenKind {
    /// How the token kind is displayed.
    pub fn to_string(&self) -> (s: String)
        ensures
            s@ == display_text(self@),
    {
        let mut out: Vec<char> = Vec::new();
        match self {
            TokenKind::INTEGER(v) => {
                let d = i64_to_decimal(*v);
                push_all(&mut out, d.as_slice());
            },
            TokenKind::UNSIGNEDINTEGER(v) => {
                let d = u64_to_decimal(*v);
                push_all(&mut out, d.as_slice());
                push_str(&mut out, "u");
            },
            TokenKind::STRLIT(c) => {
                push_str(&mut out, "str-");
                let d = debug_chars(c);
                push_all(&mut out, d.as_slice());
            },
            TokenKind::IDENTIFIER(n) => {
                push_str(&mut out, "ident-");
                let d = debug_chars(n);
                push_all(&mut out, d.as_slice());
            },
            TokenKind::BLANK => push_str(&mut out, "BLANK"),
            TokenKind::NEWLINE => push_str(&mut out, "NEWLINE"),
            TokenKind::STRUCT => push_str(&mut out, "struct"),
            TokenKind::BOOLEAN => push_str(&mut out, "Boolean"),
            _ => push_str(&mut out, self.to_str()),
        }
        proof {
            assert(Seq::<char>::empty() + display_text(self@) =~= display_text(self@));
        }
        crate::text::chars_to_string(out.as_slice())
    }
}

} // verus!
