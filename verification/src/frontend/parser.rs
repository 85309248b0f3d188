use vstd::prelude::*;

use crate::chars::{char_is_alphabetic, char_is_numeric, is_alphabetic, is_numeric};
use crate::frontend::ast::{
    decl_wf, root_wf, expr_v, exprs_v, stmt_v, stmts_v, tld_v, tlds_v, ASTRoot, Expr, ExprKind, ExprV, Stmt, StmtKind,
    StmtV, TopLevelDecl, TopLevelDeclKind, TopLevelDeclV,
};
use crate::name_map::NameMap;
use crate::ident::strings_view;
use crate::text::{decimal_value, digit_value, exec_is_digit, is_digit};

verus! {

/// The outcome of a parser at a place of the input: a value and the place after it;
/// or no match (another alternative may be tried); or a hard failure, which ends
/// the whole parse (an integer literal too large for its type).
pub enum PR<T> {
    Done(T, int),
    NoMatch,
    Abort,
}

/// The executable counterpart of `PR`.
#[derive(Debug, PartialEq, Eq)]
pub enum ParseResult<T> {
    Done(T, usize),
    NoMatch,
    Abort,
}

/// Whether `nom`'s `multispace0` skips a character: space, tab, carriage return, newline.
pub open spec fn is_ws(c: char) -> bool {
    c == ' ' || c == '\t' || c == '\r' || c == '\n'
}

/// The place after the white space that starts at `i`.
pub open spec fn skip_ws(s: Seq<char>, i: int) -> int
    decreases s.len() - i,
{
    if 0 <= i < s.len() && is_ws(s[i]) {
        skip_ws(s, i + 1)
    } else {
        i
    }
}

/// `p` stands at `i`.
pub open spec fn tag_at(s: Seq<char>, i: int, p: Seq<char>) -> bool {
    0 <= i && i + p.len() <= s.len() && s.subrange(i, i + p.len()) == p
}

/// `q` lies past `i` and within the input.
pub open spec fn advanced(s: Seq<char>, q: int, i: int) -> bool {
    i < q <= s.len()
}

/// A fixed text with white space around it (`keyword` and `symbol`).
pub open spec fn sym(s: Seq<char>, i: int, p: Seq<char>) -> Option<int> {
    let j = skip_ws(s, i);
    if tag_at(s, j, p) {
        Some(skip_ws(s, j + p.len()))
    } else {
        None
    }
}

/// A character that may follow the first letter of a name.
pub open spec fn ident_char(c: char) -> bool {
    char_is_alphabetic(c) || char_is_numeric(c) || c == '_'
}

/// The end of the run of alphabetic characters from `j`.
pub open spec fn alpha_end(s: Seq<char>, j: int) -> int
    decreases s.len() - j,
{
    if 0 <= j < s.len() && char_is_alphabetic(s[j]) {
        alpha_end(s, j + 1)
    } else {
        j
    }
}

/// The end of the run of name characters from `j`.
pub open spec fn ident_end(s: Seq<char>, j: int) -> int
    decreases s.len() - j,
{
    if 0 <= j < s.len() && ident_char(s[j]) {
        ident_end(s, j + 1)
    } else {
        j
    }
}

/// The end of the run of ASCII digits from `j`.
pub open spec fn digits_end(s: Seq<char>, j: int) -> int
    decreases s.len() - j,
{
    if 0 <= j < s.len() && is_digit(s[j]) {
        digits_end(s, j + 1)
    } else {
        j
    }
}

/// The place of the first character from `j` that is `c`, or the end.
pub open spec fn until_char(s: Seq<char>, j: int, c: char) -> int
    decreases s.len() - j,
{
    if 0 <= j < s.len() && s[j] != c {
        until_char(s, j + 1, c)
    } else {
        j
    }
}

/// A name: a letter, then letters, digits and underscores, with white space around it.
pub open spec fn ident(s: Seq<char>, i: int) -> Option<(Seq<char>, int)> {
    let j = skip_ws(s, i);
    if 0 <= j < s.len() && char_is_alphabetic(s[j]) {
        let k = ident_end(s, alpha_end(s, j));
        Some((s.subrange(j, k), skip_ws(s, k)))
    } else {
        None
    }
}

/// The further names of a path, each after "::", from `p`.
pub open spec fn ident_list_tail(s: Seq<char>, p: int, acc: Seq<Seq<char>>) -> (Seq<Seq<char>>, int)
    decreases s.len() - p,
{
    match sym(s, p, "::"@) {
        Some(q) => match ident(s, q) {
            Some((n, r)) => if advanced(s, r, p) {
                ident_list_tail(s, r, acc.push(n))
            } else {
                (acc, p)
            },
            None => (acc, p),
        },
        None => (acc, p),
    }
}

/// A path of names separated by "::".
pub open spec fn ident_list(s: Seq<char>, i: int) -> Option<(Seq<Seq<char>>, int)> {
    match ident(s, i) {
        Some((n, p)) => Some(ident_list_tail(s, p, seq![n])),
        None => None,
    }
}

/// A string literal: the characters between double quotes, with white space
/// skipped after the opening quote and around the literal.
pub open spec fn str_lit(s: Seq<char>, i: int) -> Option<(Seq<char>, int)> {
    let j = skip_ws(s, i);
    match sym(s, j, "\""@) {
        Some(k) => {
            let m = until_char(s, k, '"');
            match sym(s, m, "\""@) {
                Some(q) => Some((s.subrange(k, m), skip_ws(s, q))),
                None => None,
            }
        },
        None => None,
    }
}

/// An integer literal: ASCII digits, with white space around them.
pub open spec fn int_lit(s: Seq<char>, i: int) -> PR<ExprV> {
    let j = skip_ws(s, i);
    let d = digits_end(s, j);
    if d == j {
        PR::NoMatch
    } else if decimal_value(s.subrange(j, d)) > i128::MAX {
        PR::Abort
    } else {
        PR::Done(ExprV::Integer(decimal_value(s.subrange(j, d)) as i128), skip_ws(s, d))
    }
}

/// An unsigned integer literal: `u` and ASCII digits, with white space around them.
pub open spec fn uint_lit(s: Seq<char>, i: int) -> PR<ExprV> {
    let j = skip_ws(s, i);
    if 0 <= j < s.len() && s[j] == 'u' {
        let d = digits_end(s, j + 1);
        if d == j + 1 {
            PR::NoMatch
        } else if decimal_value(s.subrange(j + 1, d)) > u128::MAX {
            PR::Abort
        } else {
            PR::Done(ExprV::UnsignedInteger(decimal_value(s.subrange(j + 1, d)) as u128), skip_ws(s, d))
        }
    } else {
        PR::NoMatch
    }
}

/// `true` or `false`.
pub open spec fn bool_lit(s: Seq<char>, i: int) -> PR<ExprV> {
    match sym(s, i, "true"@) {
        Some(q) => PR::Done(ExprV::True, q),
        None => match sym(s, i, "false"@) {
            Some(q) => PR::Done(ExprV::False, q),
            None => PR::NoMatch,
        },
    }
}

/// The closing ")" of an argument list.
pub open spec fn plist_close(s: Seq<char>, p: int, acc: Seq<ExprV>) -> PR<Seq<ExprV>> {
    match sym(s, p, ")"@) {
        Some(r) => PR::Done(acc, r),
        None => PR::NoMatch,
    }
}

/// The further arguments of a call, each after ",", from `p`.
pub open spec fn plist_tail(s: Seq<char>, p: int, acc: Seq<ExprV>) -> PR<Seq<ExprV>>
    decreases s.len() - p, 10int,
{
    match sym(s, p, ","@) {
        Some(q) => if !advanced(s, q, p) {
            PR::NoMatch
        } else {
            match spec_expression(s, q) {
                PR::Done(e, r) => if !advanced(s, r, p) {
                    PR::NoMatch
                } else {
                    plist_tail(s, r, acc.push(e))
                },
                PR::NoMatch => plist_close(s, p, acc),
                PR::Abort => PR::Abort,
            }
        },
        None => plist_close(s, p, acc),
    }
}

/// `( expression, ... )`
pub open spec fn spec_parameter_list(s: Seq<char>, i: int) -> PR<Seq<ExprV>>
    decreases s.len() - i, 11int,
{
    match sym(s, i, "("@) {
        Some(q) => if !advanced(s, q, i) {
            PR::NoMatch
        } else {
            match spec_expression(s, q) {
                PR::Done(e, r) => if !advanced(s, r, i) {
                    PR::NoMatch
                } else {
                    plist_tail(s, r, seq![e])
                },
                PR::NoMatch => plist_close(s, q, Seq::empty()),
                PR::Abort => PR::Abort,
            }
        },
        None => PR::NoMatch,
    }
}

/// A path, and, where an argument list follows, a call of it.
pub open spec fn spec_identifier_expr(s: Seq<char>, i: int) -> PR<ExprV>
    decreases s.len() - i, 2int,
{
    match ident_list(s, i) {
        Some((l, p)) => if !advanced(s, p, i) {
            PR::NoMatch
        } else {
            match spec_parameter_list(s, p) {
                PR::Done(params, r) => PR::Done(ExprV::Call(Box::new(ExprV::Identifier(l)), params), r),
                _ => PR::Done(ExprV::Identifier(l), p),
            }
        },
        None => PR::NoMatch,
    }
}

/// string literal | unsigned integer | integer | boolean | path or call
pub open spec fn spec_primary(s: Seq<char>, i: int) -> PR<ExprV>
    decreases s.len() - i, 3int,
{
    match str_lit(s, i) {
        Some((c, p)) => PR::Done(ExprV::StringLiteral(c), p),
        None => match uint_lit(s, i) {
            PR::NoMatch => match int_lit(s, i) {
                PR::NoMatch => match bool_lit(s, i) {
                    PR::NoMatch => spec_identifier_expr(s, i),
                    r => r,
                },
                r => r,
            },
            r => r,
        },
    }
}

/// "+" primary
pub open spec fn spec_unary_plus(s: Seq<char>, i: int) -> PR<ExprV>
    decreases s.len() - i, 4int,
{
    match sym(s, i, "+"@) {
        Some(q) => if !advanced(s, q, i) {
            PR::NoMatch
        } else {
            spec_primary(s, q)
        },
        None => PR::NoMatch,
    }
}

/// "-" primary
pub open spec fn spec_unary_minus(s: Seq<char>, i: int) -> PR<ExprV>
    decreases s.len() - i, 4int,
{
    match sym(s, i, "-"@) {
        Some(q) => if !advanced(s, q, i) {
            PR::NoMatch
        } else {
            match spec_primary(s, q) {
                PR::Done(c, r) => PR::Done(ExprV::Negative(Box::new(c)), r),
                PR::NoMatch => PR::NoMatch,
                PR::Abort => PR::Abort,
            }
        },
        None => PR::NoMatch,
    }
}

/// unary_plus | unary_minus | primary
pub open spec fn spec_prefix(s: Seq<char>, i: int) -> PR<ExprV>
    decreases s.len() - i, 5int,
{
    match spec_unary_plus(s, i) {
        PR::NoMatch => match spec_unary_minus(s, i) {
            PR::NoMatch => spec_primary(s, i),
            r => r,
        },
        r => r,
    }
}

/// The operators "*" and "/" with their right operands, folded to the left onto `head`.
pub open spec fn mul_tail(s: Seq<char>, p: int, head: ExprV) -> PR<ExprV>
    decreases s.len() - p, 6int,
{
    let op = match sym(s, p, "*"@) {
        Some(q) => Some((true, q)),
        None => match sym(s, p, "/"@) {
            Some(q) => Some((false, q)),
            None => None,
        },
    };
    match op {
        Some((is_mul, q)) => if !advanced(s, q, p) {
            PR::NoMatch
        } else {
            match spec_prefix(s, q) {
                PR::Done(rhs, r) => if !advanced(s, r, p) {
                    PR::NoMatch
                } else {
                    mul_tail(
                        s,
                        r,
                        if is_mul {
                            ExprV::Multiplication(Box::new(head), Box::new(rhs))
                        } else {
                            ExprV::Division(Box::new(head), Box::new(rhs))
                        },
                    )
                },
                PR::NoMatch => PR::Done(head, p),
                PR::Abort => PR::Abort,
            }
        },
        None => PR::Done(head, p),
    }
}

/// prefix ("*" prefix | "/" prefix)*
pub open spec fn spec_multiplication(s: Seq<char>, i: int) -> PR<ExprV>
    decreases s.len() - i, 7int,
{
    match spec_prefix(s, i) {
        PR::Done(h, p) => if !advanced(s, p, i) {
            PR::NoMatch
        } else {
            mul_tail(s, p, h)
        },
        PR::NoMatch => PR::NoMatch,
        PR::Abort => PR::Abort,
    }
}

/// The operators "+" and "-" with their right operands, folded to the left onto `head`.
pub open spec fn add_tail(s: Seq<char>, p: int, head: ExprV) -> PR<ExprV>
    decreases s.len() - p, 8int,
{
    let op = match sym(s, p, "+"@) {
        Some(q) => Some((true, q)),
        None => match sym(s, p, "-"@) {
            Some(q) => Some((false, q)),
            None => None,
        },
    };
    match op {
        Some((is_add, q)) => if !advanced(s, q, p) {
            PR::NoMatch
        } else {
            match spec_multiplication(s, q) {
                PR::Done(rhs, r) => if !advanced(s, r, p) {
                    PR::NoMatch
                } else {
                    add_tail(
                        s,
                        r,
                        if is_add {
                            ExprV::Addition(Box::new(head), Box::new(rhs))
                        } else {
                            ExprV::Subtraction(Box::new(head), Box::new(rhs))
                        },
                    )
                },
                PR::NoMatch => PR::Done(head, p),
                PR::Abort => PR::Abort,
            }
        },
        None => PR::Done(head, p),
    }
}

/// multiplication ("+" multiplication | "-" multiplication)*
pub open spec fn spec_addition(s: Seq<char>, i: int) -> PR<ExprV>
    decreases s.len() - i, 9int,
{
    match spec_multiplication(s, i) {
        PR::Done(h, p) => if !advanced(s, p, i) {
            PR::NoMatch
        } else {
            add_tail(s, p, h)
        },
        PR::NoMatch => PR::NoMatch,
        PR::Abort => PR::Abort,
    }
}

/// name "=" addition
pub open spec fn spec_assignment(s: Seq<char>, i: int) -> PR<ExprV>
    decreases s.len() - i, 9int,
{
    match ident(s, i) {
        Some((n, p)) => match sym(s, p, "="@) {
            Some(q) => if !advanced(s, q, i) {
                PR::NoMatch
            } else {
                match spec_addition(s, q) {
                    PR::Done(v, r) => PR::Done(ExprV::Assignment(n, Box::new(v)), r),
                    PR::NoMatch => PR::NoMatch,
                    PR::Abort => PR::Abort,
                }
            },
            None => PR::NoMatch,
        },
        None => PR::NoMatch,
    }
}

/// assignment | addition
pub open spec fn spec_expression(s: Seq<char>, i: int) -> PR<ExprV>
    decreases s.len() - i, 10int,
{
    match spec_assignment(s, i) {
        PR::NoMatch => spec_addition(s, i),
        r => r,
    }
}

/// The closing "}" of a list of assembly lines.
pub open spec fn asm_close(s: Seq<char>, p: int, acc: Seq<Seq<char>>) -> Option<(Seq<Seq<char>>, int)> {
    match sym(s, p, "}"@) {
        Some(r) => Some((acc, r)),
        None => None,
    }
}

/// The further assembly lines, each after ";".
pub open spec fn asm_tail(s: Seq<char>, p: int, acc: Seq<Seq<char>>) -> Option<(Seq<Seq<char>>, int)>
    decreases s.len() - p,
{
    match sym(s, p, ";"@) {
        Some(q) => match str_lit(s, q) {
            Some((c, r)) => if !advanced(s, r, p) {
                None
            } else {
                asm_tail(s, r, acc.push(c))
            },
            None => asm_close(s, p, acc),
        },
        None => asm_close(s, p, acc),
    }
}

/// `{ "line"; ... }`
pub open spec fn asm_lines(s: Seq<char>, i: int) -> Option<(Seq<Seq<char>>, int)> {
    match sym(s, i, "{"@) {
        Some(q) => match str_lit(s, q) {
            Some((c, r)) => asm_tail(s, r, seq![c]),
            None => asm_close(s, q, Seq::empty()),
        },
        None => None,
    }
}

/// "asm" { "line"; ... } ";"
pub open spec fn spec_asm_statement(s: Seq<char>, i: int) -> PR<StmtV> {
    match sym(s, i, "asm"@) {
        Some(q) => match asm_lines(s, q) {
            Some((lines, p)) => match sym(s, p, ";"@) {
                Some(r) => PR::Done(StmtV::Asm(lines), r),
                None => PR::NoMatch,
            },
            None => PR::NoMatch,
        },
        None => PR::NoMatch,
    }
}

/// "declare" name path ";"
pub open spec fn spec_declaration_statement(s: Seq<char>, i: int) -> PR<StmtV> {
    match sym(s, i, "declare"@) {
        Some(q) => match ident(s, q) {
            Some((v, p)) => match ident_list(s, p) {
                Some((t, p2)) => match sym(s, p2, ";"@) {
                    Some(r) => PR::Done(StmtV::Declare(v, t), r),
                    None => PR::NoMatch,
                },
                None => PR::NoMatch,
            },
            None => PR::NoMatch,
        },
        None => PR::NoMatch,
    }
}

/// expression ";"
pub open spec fn spec_expression_statement(s: Seq<char>, i: int) -> PR<StmtV> {
    match spec_expression(s, i) {
        PR::Done(e, p) => match sym(s, p, ";"@) {
            Some(r) => PR::Done(StmtV::Expr(e), r),
            None => PR::NoMatch,
        },
        PR::NoMatch => PR::NoMatch,
        PR::Abort => PR::Abort,
    }
}

/// Statements, one after another, from `p`, until one does not match.
pub open spec fn stmts_many(s: Seq<char>, p: int, acc: Seq<StmtV>) -> PR<Seq<StmtV>>
    decreases s.len() - p, 6int,
{
    match spec_statement(s, p) {
        PR::Done(st, r) => if !advanced(s, r, p) {
            PR::NoMatch
        } else {
            stmts_many(s, r, acc.push(st))
        },
        PR::NoMatch => PR::Done(acc, p),
        PR::Abort => PR::Abort,
    }
}

/// "{" statement* "}"
pub open spec fn spec_compound_statement(s: Seq<char>, i: int) -> PR<Seq<StmtV>>
    decreases s.len() - i, 3int,
{
    match sym(s, i, "{"@) {
        Some(q) => if !advanced(s, q, i) {
            PR::NoMatch
        } else {
            match stmts_many(s, q, Seq::empty()) {
                PR::Done(acc, p) => match sym(s, p, "}"@) {
                    Some(r) => PR::Done(acc, r),
                    None => PR::NoMatch,
                },
                PR::NoMatch => PR::NoMatch,
                PR::Abort => PR::Abort,
            }
        },
        None => PR::NoMatch,
    }
}

/// "{" statement* "}" as a block statement
pub open spec fn spec_block_statement(s: Seq<char>, i: int) -> PR<StmtV>
    decreases s.len() - i, 4int,
{
    match spec_compound_statement(s, i) {
        PR::Done(b, r) => PR::Done(StmtV::Block(b), r),
        PR::NoMatch => PR::NoMatch,
        PR::Abort => PR::Abort,
    }
}

/// The rest of a countup statement after its first value: ("lessthan" | "to") expression block.
pub open spec fn countup_tail(s: Seq<char>, i: int, id: Seq<char>, f: ExprV, r: int) -> PR<StmtV>
    decreases s.len() - i, 3int,
{
    let end = match sym(s, r, "lessthan"@) {
        Some(q3) => Some((true, q3)),
        None => match sym(s, r, "to"@) {
            Some(q3) => Some((false, q3)),
            None => None,
        },
    };
    match end {
        Some((half_open, q3)) => match spec_expression(s, q3) {
            PR::Done(t, r2) => if !advanced(s, r2, i) {
                PR::NoMatch
            } else {
                match spec_compound_statement(s, r2) {
                    PR::Done(b, r3) => PR::Done(
                        if half_open {
                            StmtV::HalfOpenCountup(b, id, f, t)
                        } else {
                            StmtV::ClosedCountup(b, id, f, t)
                        },
                        r3,
                    ),
                    PR::NoMatch => PR::NoMatch,
                    PR::Abort => PR::Abort,
                }
            },
            PR::NoMatch => PR::NoMatch,
            PR::Abort => PR::Abort,
        },
        None => PR::NoMatch,
    }
}

/// "countup" name "from" expression ("lessthan" | "to") expression block
pub open spec fn spec_countup_statement(s: Seq<char>, i: int) -> PR<StmtV>
    decreases s.len() - i, 4int,
{
    match sym(s, i, "countup"@) {
        Some(q) => match ident(s, q) {
            Some((id, p)) => match sym(s, p, "from"@) {
                Some(q2) => match spec_expression(s, q2) {
                    PR::Done(f, r) => countup_tail(s, i, id, f, r),
                    PR::NoMatch => PR::NoMatch,
                    PR::Abort => PR::Abort,
                },
                None => PR::NoMatch,
            },
            None => PR::NoMatch,
        },
        None => PR::NoMatch,
    }
}

/// countup | block | declaration | asm | expression statement
pub open spec fn spec_statement(s: Seq<char>, i: int) -> PR<StmtV>
    decreases s.len() - i, 5int,
{
    match spec_countup_statement(s, i) {
        PR::NoMatch => match spec_block_statement(s, i) {
            PR::NoMatch => match spec_declaration_statement(s, i) {
                PR::NoMatch => match spec_asm_statement(s, i) {
                    PR::NoMatch => spec_expression_statement(s, i),
                    r => r,
                },
                r => r,
            },
            r => r,
        },
        r => r,
    }
}

/// A name prefixed by a module's name and "::".
pub open spec fn qualified(module: Seq<char>, n: Seq<char>) -> Seq<char> {
    module + "::"@ + n
}

/// The map of parameter names to type names; a later parameter of the same name wins.
pub open spec fn params_map(ps: Seq<(Seq<char>, Seq<char>)>) -> Map<Seq<char>, Seq<char>>
    decreases ps.len(),
{
    if ps.len() == 0 {
        Map::empty()
    } else {
        params_map(ps.drop_last()).insert(ps.last().0, ps.last().1)
    }
}

/// A parameter: its name and its type's name.
pub open spec fn param_pair(s: Seq<char>, i: int) -> Option<((Seq<char>, Seq<char>), int)> {
    match ident(s, i) {
        Some((n, p)) => match ident(s, p) {
            Some((t, q)) => Some(((n, t), q)),
            None => None,
        },
        None => None,
    }
}

/// The closing ")" of a parameter list.
pub open spec fn param_close(s: Seq<char>, p: int, acc: Seq<(Seq<char>, Seq<char>)>) -> Option<(Seq<(Seq<char>, Seq<char>)>, int)> {
    match sym(s, p, ")"@) {
        Some(r) => Some((acc, r)),
        None => None,
    }
}

/// The further parameters, each after ",".
pub open spec fn param_tail(s: Seq<char>, p: int, acc: Seq<(Seq<char>, Seq<char>)>) -> Option<(Seq<(Seq<char>, Seq<char>)>, int)>
    decreases s.len() - p,
{
    match sym(s, p, ","@) {
        Some(q) => match param_pair(s, q) {
            Some((pr, r)) => if !advanced(s, r, p) {
                None
            } else {
                param_tail(s, r, acc.push(pr))
            },
            None => param_close(s, p, acc),
        },
        None => param_close(s, p, acc),
    }
}

/// `( name Type, ... )`
pub open spec fn param_list(s: Seq<char>, i: int) -> Option<(Seq<(Seq<char>, Seq<char>)>, int)> {
    match sym(s, i, "("@) {
        Some(q) => match param_pair(s, q) {
            Some((pr, r)) => param_tail(s, r, seq![pr]),
            None => param_close(s, q, Seq::empty()),
        },
        None => None,
    }
}

/// "import" characters up to ";" ";"
pub open spec fn spec_import_directive(s: Seq<char>, i: int) -> PR<TopLevelDeclV> {
    match sym(s, i, "import"@) {
        Some(q) => {
            let e = until_char(s, q, ';');
            if e == q {
                PR::NoMatch
            } else {
                match sym(s, e, ";"@) {
                    Some(r) => PR::Done(TopLevelDeclV::Import(s.subrange(q, e)), r),
                    None => PR::NoMatch,
                }
            }
        },
        None => PR::NoMatch,
    }
}

/// "pubtype" name "=" name ";"
pub open spec fn spec_pubtype_declaration(module: Seq<char>, s: Seq<char>, i: int) -> PR<TopLevelDeclV> {
    match sym(s, i, "pubtype"@) {
        Some(q) => match ident(s, q) {
            Some((n, p)) => match sym(s, p, "="@) {
                Some(q2) => match ident(s, q2) {
                    Some((to, p2)) => match sym(s, p2, ";"@) {
                        Some(r) => PR::Done(TopLevelDeclV::PubType(qualified(module, n), to), r),
                        None => PR::NoMatch,
                    },
                    None => PR::NoMatch,
                },
                None => PR::NoMatch,
            },
            None => PR::NoMatch,
        },
        None => PR::NoMatch,
    }
}

/// "pubconst" name ":" name "=" expression ";"
pub open spec fn spec_pubconst_declaration(module: Seq<char>, s: Seq<char>, i: int) -> PR<TopLevelDeclV> {
    match sym(s, i, "pubconst"@) {
        Some(q) => match ident(s, q) {
            Some((n, p)) => match sym(s, p, ":"@) {
                Some(q2) => match ident(s, q2) {
                    Some((ty, p2)) => match sym(s, p2, "="@) {
                        Some(q3) => match spec_expression(s, q3) {
                            PR::Done(e, p3) => match sym(s, p3, ";"@) {
                                Some(r) => PR::Done(TopLevelDeclV::PubConst(qualified(module, n), ty, e), r),
                                None => PR::NoMatch,
                            },
                            PR::NoMatch => PR::NoMatch,
                            PR::Abort => PR::Abort,
                        },
                        None => PR::NoMatch,
                    },
                    None => PR::NoMatch,
                },
                None => PR::NoMatch,
            },
            None => PR::NoMatch,
        },
        None => PR::NoMatch,
    }
}

/// "func" name parameters type "{" statement* "}"
pub open spec fn spec_function_declaration(module: Seq<char>, s: Seq<char>, i: int) -> PR<TopLevelDeclV> {
    match sym(s, i, "func"@) {
        Some(q) => match ident(s, q) {
            Some((n, p)) => match param_list(s, p) {
                Some((ps, p2)) => match ident(s, p2) {
                    Some((ret, p3)) => match sym(s, p3, "{"@) {
                        Some(q4) => match stmts_many(s, q4, Seq::empty()) {
                            PR::Done(body, p5) => match sym(s, p5, "}"@) {
                                Some(r) => PR::Done(TopLevelDeclV::Function(qualified(module, n), ret, params_map(ps), body), r),
                                None => PR::NoMatch,
                            },
                            PR::NoMatch => PR::NoMatch,
                            PR::Abort => PR::Abort,
                        },
                        None => PR::NoMatch,
                    },
                    None => PR::NoMatch,
                },
                None => PR::NoMatch,
            },
            None => PR::NoMatch,
        },
        None => PR::NoMatch,
    }
}

/// pubtype | import | pubconst | function
pub open spec fn spec_top_decl(module: Seq<char>, s: Seq<char>, i: int) -> PR<TopLevelDeclV> {
    match spec_pubtype_declaration(module, s, i) {
        PR::NoMatch => match spec_import_directive(s, i) {
            PR::NoMatch => match spec_pubconst_declaration(module, s, i) {
                PR::NoMatch => spec_function_declaration(module, s, i),
                r => r,
            },
            r => r,
        },
        r => r,
    }
}

/// Declarations, one after another, from `p`, until one does not match.
pub open spec fn decls_many(module: Seq<char>, s: Seq<char>, p: int, acc: Seq<TopLevelDeclV>) -> PR<Seq<TopLevelDeclV>>
    decreases s.len() - p,
{
    match spec_top_decl(module, s, p) {
        PR::Done(d, r) => if !advanced(s, r, p) {
            PR::NoMatch
        } else {
            decls_many(module, s, r, acc.push(d))
        },
        PR::NoMatch => PR::Done(acc, p),
        PR::Abort => PR::Abort,
    }
}

/// A parse of an expression and its value agree.
pub open spec fn expr_res(r: ParseResult<Expr>, p: PR<ExprV>) -> bool {
    match (r, p) {
        (ParseResult::Done(e, k), PR::Done(v, j)) => expr_v(e) == v && k == j,
        (ParseResult::NoMatch, PR::NoMatch) => true,
        (ParseResult::Abort, PR::Abort) => true,
        _ => false,
    }
}

/// A parse of a list of expressions and its value agree.
pub open spec fn exprs_res(r: ParseResult<Vec<Expr>>, p: PR<Seq<ExprV>>) -> bool {
    match (r, p) {
        (ParseResult::Done(e, k), PR::Done(v, j)) => exprs_v(e@) == v && k == j,
        (ParseResult::NoMatch, PR::NoMatch) => true,
        (ParseResult::Abort, PR::Abort) => true,
        _ => false,
    }
}

/// A successful parse from `i` ends past `i` and within the input.
pub open spec fn consumes<T>(r: ParseResult<T>, s: Seq<char>, i: int) -> bool {
    match r {
        ParseResult::Done(_, k) => i < k <= s.len(),
        _ => true,
    }
}

proof fn lemma_skip_ws_bound(s: Seq<char>, i: int)
    requires
        0 <= i <= s.len(),
    ensures
        i <= skip_ws(s, i) <= s.len(),
    decreases s.len() - i,
{
    if i < s.len() && is_ws(s[i]) {
        lemma_skip_ws_bound(s, i + 1);
    }
}

fn skip_ws_exec(s: &Vec<char>, i: usize) -> (j: usize)
    requires
        i <= s.len(),
    ensures
        j == skip_ws(s@, i as int),
        i <= j <= s.len(),
{
    let mut j = i;
    while j < s.len() && (s[j] == ' ' || s[j] == '\t' || s[j] == '\r' || s[j] == '\n')
        invariant
            i <= j <= s.len(),
            skip_ws(s@, i as int) == skip_ws(s@, j as int),
        decreases s.len() - j,
    {
        j = j + 1;
    }
    j
}

/// Whether the characters of `p` stand at `j`.
fn tag_at_exec(s: &Vec<char>, j: usize, p: &Vec<char>) -> (b: bool)
    ensures
        b == tag_at(s@, j as int, p@),
{
    if j > s.len() || p.len() > s.len() - j {
        return false;
    }
    let mut k: usize = 0;
    while k < p.len()
        invariant
            j + p.len() <= s.len(),
            k <= p.len(),
            forall|m: int| 0 <= m < k ==> s@[j + m] == p@[m],
        decreases p.len() - k,
    {
        if s[j + k] != p[k] {
            assert(s@.subrange(j as int, j + p.len())[k as int] != p@[k as int]);
            return false;
        }
        k = k + 1;
    }
    assert(s@.subrange(j as int, j + p.len()) =~= p@);
    true
}

/// A fixed text with white space around it; the place after it.
fn sym_exec(s: &Vec<char>, i: usize, p: &str) -> (r: Option<usize>)
    requires
        i <= s.len(),
        p@.len() > 0,
    ensures
        match r {
            Some(q) => sym(s@, i as int, p@) == Some(q as int) && i < q <= s.len(),
            None => sym(s@, i as int, p@) is None,
        },
{
    let j = skip_ws_exec(s, i);
    let pv = crate::text::collect_chars(p);
    if tag_at_exec(s, j, &pv) {
        let q = skip_ws_exec(s, j + pv.len());
        Some(q)
    } else {
        None
    }
}

/// The characters from `j` to `k` as a string.
fn sub_string(s: &Vec<char>, j: usize, k: usize) -> (r: String)
    requires
        j <= k <= s.len(),
    ensures
        r@ == s@.subrange(j as int, k as int),
{
    let mut v: Vec<char> = Vec::new();
    let mut m = j;
    while m < k
        invariant
            j <= m <= k <= s.len(),
            v@ == s@.subrange(j as int, m as int),
        decreases k - m,
    {
        v.push(s[m]);
        m = m + 1;
        assert(v@ =~= s@.subrange(j as int, m as int));
    }
    crate::text::chars_to_string(v.as_slice())
}

/// A name with white space around it: the name and the place after.
pub fn ident_exec(s: &Vec<char>, i: usize) -> (r: Option<(String, usize)>)
    requires
        i <= s.len(),
    ensures
        match r {
            Some((n, q)) => ident(s@, i as int) == Some((n@, q as int)) && i < q <= s.len(),
            None => ident(s@, i as int) is None,
        },
{
    let j = skip_ws_exec(s, i);
    if j < s.len() && is_alphabetic(s[j]) {
        let mut a = j;
        while a < s.len() && is_alphabetic(s[a])
            invariant
                j <= a <= s.len(),
                alpha_end(s@, j as int) == alpha_end(s@, a as int),
            decreases s.len() - a,
        {
            a = a + 1;
        }
        let mut k = a;
        while k < s.len() && (is_alphabetic(s[k]) || is_numeric(s[k]) || s[k] == '_')
            invariant
                a <= k <= s.len(),
                ident_end(s@, a as int) == ident_end(s@, k as int),
            decreases s.len() - k,
        {
            k = k + 1;
        }
        let name = sub_string(s, j, k);
        let q = skip_ws_exec(s, k);
        Some((name, q))
    } else {
        None
    }
}

/// A path of names separated by "::": the names and the place after.
pub fn ident_list_exec(s: &Vec<char>, i: usize) -> (r: Option<(Vec<String>, usize)>)
    requires
        i <= s.len(),
    ensures
        match r {
            Some((l, q)) => ident_list(s@, i as int) == Some((strings_view(l@), q as int)) && i < q <= s.len(),
            None => ident_list(s@, i as int) is None,
        },
{
    match ident_exec(s, i) {
        None => None,
        Some((n, p0)) => {
            let mut names: Vec<String> = Vec::new();
            names.push(n);
            let mut p = p0;
            assert(strings_view(names@) =~= seq![names@[0]@]);
            proof { reveal_strlit("::"); }
            loop
                invariant
                    i < p <= s.len(),
                    ident_list(s@, i as int) == Some(ident_list_tail(s@, p as int, strings_view(names@))),
                ensures
                    i < p <= s.len(),
                    ident_list(s@, i as int) == Some((strings_view(names@), p as int)),
                decreases s.len() - p,
            {
                proof { reveal_strlit("::"); }
                match sym_exec(s, p, "::") {
                    None => break,
                    Some(q) => match ident_exec(s, q) {
                        None => break,
                        Some((n2, r)) => {
                            let ghost before = strings_view(names@);
                            names.push(n2);
                            assert(strings_view(names@) =~= before.push(n2@));
                            p = r;
                        },
                    },
                }
            }
            Some((names, p))
        },
    }
}

/// A string literal: its contents and the place after.
pub fn str_lit_exec(s: &Vec<char>, i: usize) -> (r: Option<(String, usize)>)
    requires
        i <= s.len(),
    ensures
        match r {
            Some((c, q)) => str_lit(s@, i as int) == Some((c@, q as int)) && i < q <= s.len(),
            None => str_lit(s@, i as int) is None,
        },
{
    proof { reveal_strlit("\""); }
    let j = skip_ws_exec(s, i);
    match sym_exec(s, j, "\"") {
        None => None,
        Some(k) => {
            let mut m = k;
            while m < s.len() && s[m] != '"'
                invariant
                    k <= m <= s.len(),
                    until_char(s@, k as int, '"') == until_char(s@, m as int, '"'),
                decreases s.len() - m,
            {
                m = m + 1;
            }
            match sym_exec(s, m, "\"") {
                None => None,
                Some(q) => {
                    let contents = sub_string(s, k, m);
                    let q2 = skip_ws_exec(s, q);
                    Some((contents, q2))
                },
            }
        },
    }
}

/// The value of a digit sequence does not shrink as digits are added.
proof fn lemma_decimal_prefix(s: Seq<char>, n: int)
    requires
        0 <= n <= s.len(),
    ensures
        decimal_value(s.take(n)) <= decimal_value(s),
    decreases s.len() - n,
{
    if n < s.len() {
        lemma_decimal_prefix(s, n + 1);
        assert(s.take(n + 1).drop_last() == s.take(n));
    } else {
        assert(s.take(n) == s);
    }
}

/// The decimal value of the ASCII digits from `j` to `d`, where it fits in a `u128`.
fn digits_value(s: &Vec<char>, j: usize, d: usize) -> (r: Option<u128>)
    requires
        j <= d <= s.len(),
        forall|m: int| j <= m < d ==> is_digit(#[trigger] s@[m]),
    ensures
        match r {
            Some(v) => v == decimal_value(s@.subrange(j as int, d as int)),
            None => decimal_value(s@.subrange(j as int, d as int)) > u128::MAX,
        },
{
    let ghost ds = s@.subrange(j as int, d as int);
    let mut v: u128 = 0;
    let mut m = j;
    assert(ds.take(0) =~= Seq::<char>::empty());
    while m < d
        invariant
            j <= m <= d <= s.len(),
            ds == s@.subrange(j as int, d as int),
            forall|x: int| j <= x < d ==> is_digit(#[trigger] s@[x]),
            v == decimal_value(ds.take(m - j)),
        decreases d - m,
    {
        assert(is_digit(s@[m as int]));
        let dv = (s[m] as u32 - '0' as u32) as u128;
        proof {
            assert(ds.take(m - j + 1).drop_last() == ds.take(m - j));
            assert(ds.take(m - j + 1).last() == s@[m as int]);
        }
        match v.checked_mul(10) {
            None => {
                proof { lemma_decimal_prefix(ds, m - j + 1); }
                return None;
            },
            Some(t) => match t.checked_add(dv) {
                None => {
                    proof { lemma_decimal_prefix(ds, m - j + 1); }
                    return None;
                },
                Some(u) => {
                    v = u;
                },
            },
        }
        m = m + 1;
    }
    assert(ds.take(d - j) == ds);
    Some(v)
}

/// The end of the run of ASCII digits from `j`.
fn digits_end_exec(s: &Vec<char>, j: usize) -> (d: usize)
    requires
        j <= s.len(),
    ensures
        d == digits_end(s@, j as int),
        j <= d <= s.len(),
        forall|m: int| j <= m < d ==> is_digit(#[trigger] s@[m]),
{
    let mut d = j;
    while d < s.len() && exec_is_digit(s[d])
        invariant
            j <= d <= s.len(),
            digits_end(s@, j as int) == digits_end(s@, d as int),
            forall|m: int| j <= m < d ==> is_digit(#[trigger] s@[m]),
        decreases s.len() - d,
    {
        d = d + 1;
    }
    d
}

/// An integer literal.
fn int_lit_exec(s: &Vec<char>, i: usize) -> (r: ParseResult<Expr>)
    requires
        i <= s.len(),
    ensures
        expr_res(r, int_lit(s@, i as int)),
        consumes(r, s@, i as int),
{
    let j = skip_ws_exec(s, i);
    let d = digits_end_exec(s, j);
    if d == j {
        return ParseResult::NoMatch;
    }
    match digits_value(s, j, d) {
        None => ParseResult::Abort,
        Some(v) => {
            if v > 170141183460469231731687303715884105727u128 {
                ParseResult::Abort
            } else {
                let q = skip_ws_exec(s, d);
                ParseResult::Done(Expr { kind: ExprKind::Integer { value: v as i128 } }, q)
            }
        },
    }
}

/// An unsigned integer literal.
fn uint_lit_exec(s: &Vec<char>, i: usize) -> (r: ParseResult<Expr>)
    requires
        i <= s.len(),
    ensures
        expr_res(r, uint_lit(s@, i as int)),
        consumes(r, s@, i as int),
{
    let j = skip_ws_exec(s, i);
    if j < s.len() && s[j] == 'u' {
        let d = digits_end_exec(s, j + 1);
        if d == j + 1 {
            return ParseResult::NoMatch;
        }
        match digits_value(s, j + 1, d) {
            None => ParseResult::Abort,
            Some(v) => {
                let q = skip_ws_exec(s, d);
                ParseResult::Done(Expr { kind: ExprKind::UnsignedInteger { value: v } }, q)
            },
        }
    } else {
        ParseResult::NoMatch
    }
}

/// `true` or `false`.
fn bool_lit_exec(s: &Vec<char>, i: usize) -> (r: ParseResult<Expr>)
    requires
        i <= s.len(),
    ensures
        expr_res(r, bool_lit(s@, i as int)),
        consumes(r, s@, i as int),
{
    proof {
        reveal_strlit("true");
        reveal_strlit("false");
    }
    match sym_exec(s, i, "true") {
        Some(q) => ParseResult::Done(Expr { kind: ExprKind::True }, q),
        None => match sym_exec(s, i, "false") {
            Some(q) => ParseResult::Done(Expr { kind: ExprKind::False }, q),
            None => ParseResult::NoMatch,
        },
    }
}

/// The closing ")" of an argument list.
fn plist_close_exec(s: &Vec<char>, p: usize, acc: Vec<Expr>) -> (r: ParseResult<Vec<Expr>>)
    requires
        p <= s.len(),
    ensures
        exprs_res(r, plist_close(s@, p as int, exprs_v(acc@))),
        consumes(r, s@, p as int),
{
    proof { reveal_strlit(")"); }
    match sym_exec(s, p, ")") {
        Some(r) => ParseResult::Done(acc, r),
        None => ParseResult::NoMatch,
    }
}

/// The further arguments of a call.
fn plist_tail_exec(s: &Vec<char>, p: usize, acc: Vec<Expr>) -> (r: ParseResult<Vec<Expr>>)
    requires
        p <= s.len(),
    ensures
        exprs_res(r, plist_tail(s@, p as int, exprs_v(acc@))),
        consumes(r, s@, p as int),
    decreases s.len() - p, 10int,
{
    proof { reveal_strlit(","); }
    match sym_exec(s, p, ",") {
        Some(q) => match expression_exec(s, q) {
            ParseResult::Done(e, r) => {
                let mut acc = acc;
                let ghost before = acc@;
                acc.push(e);
                assert(acc@.drop_last() == before);
                assert(exprs_v(acc@) == exprs_v(before).push(expr_v(e)));
                plist_tail_exec(s, r, acc)
            },
            ParseResult::NoMatch => plist_close_exec(s, p, acc),
            ParseResult::Abort => ParseResult::Abort,
        },
        None => plist_close_exec(s, p, acc),
    }
}

/// `( expression, ... )`
fn parameter_list_exec(s: &Vec<char>, i: usize) -> (r: ParseResult<Vec<Expr>>)
    requires
        i <= s.len(),
    ensures
        exprs_res(r, spec_parameter_list(s@, i as int)),
        consumes(r, s@, i as int),
    decreases s.len() - i, 11int,
{
    proof { reveal_strlit("("); }
    match sym_exec(s, i, "(") {
        Some(q) => match expression_exec(s, q) {
            ParseResult::Done(e, r) => {
                let mut acc: Vec<Expr> = Vec::new();
                acc.push(e);
                assert(acc@.drop_last() == Seq::<Expr>::empty());
                assert(exprs_v(acc@.drop_last()) == Seq::<ExprV>::empty());
                assert(exprs_v(acc@) == seq![expr_v(e)]);
                plist_tail_exec(s, r, acc)
            },
            ParseResult::NoMatch => {
                let acc: Vec<Expr> = Vec::new();
                assert(exprs_v(acc@) == Seq::<ExprV>::empty());
                plist_close_exec(s, q, acc)
            },
            ParseResult::Abort => ParseResult::Abort,
        },
        None => ParseResult::NoMatch,
    }
}

/// A path, or a call of it.
fn identifier_expr_exec(s: &Vec<char>, i: usize) -> (r: ParseResult<Expr>)
    requires
        i <= s.len(),
    ensures
        expr_res(r, spec_identifier_expr(s@, i as int)),
        consumes(r, s@, i as int),
    decreases s.len() - i, 2int,
{
    match ident_list_exec(s, i) {
        None => ParseResult::NoMatch,
        Some((l, p)) => match parameter_list_exec(s, p) {
            ParseResult::Done(params, r) => {
                let inner = Expr { kind: ExprKind::Identifier { list: l } };
                assert(expr_v(inner) == ExprV::Identifier(strings_view(inner.kind->list@)));
                ParseResult::Done(Expr { kind: ExprKind::Call { ident: Box::new(inner), params } }, r)
            },
            _ => ParseResult::Done(Expr { kind: ExprKind::Identifier { list: l } }, p),
        },
    }
}

/// string literal | unsigned integer | integer | boolean | path or call
fn primary_exec(s: &Vec<char>, i: usize) -> (r: ParseResult<Expr>)
    requires
        i <= s.len(),
    ensures
        expr_res(r, spec_primary(s@, i as int)),
        consumes(r, s@, i as int),
    decreases s.len() - i, 3int,
{
    match str_lit_exec(s, i) {
        Some((c, p)) => ParseResult::Done(Expr { kind: ExprKind::StringLiteral { contents: c } }, p),
        None => match uint_lit_exec(s, i) {
            ParseResult::NoMatch => match int_lit_exec(s, i) {
                ParseResult::NoMatch => match bool_lit_exec(s, i) {
                    ParseResult::NoMatch => identifier_expr_exec(s, i),
                    r => r,
                },
                r => r,
            },
            r => r,
        },
    }
}

fn unary_plus_exec(s: &Vec<char>, i: usize) -> (r: ParseResult<Expr>)
    requires
        i <= s.len(),
    ensures
        expr_res(r, spec_unary_plus(s@, i as int)),
        consumes(r, s@, i as int),
    decreases s.len() - i, 4int,
{
    proof { reveal_strlit("+"); }
    match sym_exec(s, i, "+") {
        Some(q) => primary_exec(s, q),
        None => ParseResult::NoMatch,
    }
}

fn unary_minus_exec(s: &Vec<char>, i: usize) -> (r: ParseResult<Expr>)
    requires
        i <= s.len(),
    ensures
        expr_res(r, spec_unary_minus(s@, i as int)),
        consumes(r, s@, i as int),
    decreases s.len() - i, 4int,
{
    proof { reveal_strlit("-"); }
    match sym_exec(s, i, "-") {
        Some(q) => match primary_exec(s, q) {
            ParseResult::Done(c, r) => ParseResult::Done(Expr { kind: ExprKind::Negative { child: Box::new(c) } }, r),
            ParseResult::NoMatch => ParseResult::NoMatch,
            ParseResult::Abort => ParseResult::Abort,
        },
        None => ParseResult::NoMatch,
    }
}

fn prefix_exec(s: &Vec<char>, i: usize) -> (r: ParseResult<Expr>)
    requires
        i <= s.len(),
    ensures
        expr_res(r, spec_prefix(s@, i as int)),
        consumes(r, s@, i as int),
    decreases s.len() - i, 5int,
{
    match unary_plus_exec(s, i) {
        ParseResult::NoMatch => match unary_minus_exec(s, i) {
            ParseResult::NoMatch => primary_exec(s, i),
            r => r,
        },
        r => r,
    }
}

fn mul_tail_exec(s: &Vec<char>, p: usize, head: Expr) -> (r: ParseResult<Expr>)
    requires
        p <= s.len(),
    ensures
        expr_res(r, mul_tail(s@, p as int, expr_v(head))),
        match r {
            ParseResult::Done(_, k) => p <= k <= s.len(),
            _ => true,
        },
    decreases s.len() - p, 6int,
{
    proof {
        reveal_strlit("*");
        reveal_strlit("/");
    }
    let op = match sym_exec(s, p, "*") {
        Some(q) => Some((true, q)),
        None => match sym_exec(s, p, "/") {
            Some(q) => Some((false, q)),
            None => None,
        },
    };
    match op {
        Some((is_mul, q)) => match prefix_exec(s, q) {
            ParseResult::Done(rhs, r) => {
                let e = if is_mul {
                    Expr { kind: ExprKind::Multiplication { lhs: Box::new(head), rhs: Box::new(rhs) } }
                } else {
                    Expr { kind: ExprKind::Division { lhs: Box::new(head), rhs: Box::new(rhs) } }
                };
                mul_tail_exec(s, r, e)
            },
            ParseResult::NoMatch => ParseResult::Done(head, p),
            ParseResult::Abort => ParseResult::Abort,
        },
        None => ParseResult::Done(head, p),
    }
}

fn multiplication_exec(s: &Vec<char>, i: usize) -> (r: ParseResult<Expr>)
    requires
        i <= s.len(),
    ensures
        expr_res(r, spec_multiplication(s@, i as int)),
        consumes(r, s@, i as int),
    decreases s.len() - i, 7int,
{
    match prefix_exec(s, i) {
        ParseResult::Done(h, p) => mul_tail_exec(s, p, h),
        ParseResult::NoMatch => ParseResult::NoMatch,
        ParseResult::Abort => ParseResult::Abort,
    }
}

fn add_tail_exec(s: &Vec<char>, p: usize, head: Expr) -> (r: ParseResult<Expr>)
    requires
        p <= s.len(),
    ensures
        expr_res(r, add_tail(s@, p as int, expr_v(head))),
        match r {
            ParseResult::Done(_, k) => p <= k <= s.len(),
            _ => true,
        },
    decreases s.len() - p, 8int,
{
    proof {
        reveal_strlit("+");
        reveal_strlit("-");
    }
    let op = match sym_exec(s, p, "+") {
        Some(q) => Some((true, q)),
        None => match sym_exec(s, p, "-") {
            Some(q) => Some((false, q)),
            None => None,
        },
    };
    match op {
        Some((is_add, q)) => match multiplication_exec(s, q) {
            ParseResult::Done(rhs, r) => {
                let e = if is_add {
                    Expr { kind: ExprKind::Addition { lhs: Box::new(head), rhs: Box::new(rhs) } }
                } else {
                    Expr { kind: ExprKind::Subtraction { lhs: Box::new(head), rhs: Box::new(rhs) } }
                };
                add_tail_exec(s, r, e)
            },
            ParseResult::NoMatch => ParseResult::Done(head, p),
            ParseResult::Abort => ParseResult::Abort,
        },
        None => ParseResult::Done(head, p),
    }
}

fn addition_exec(s: &Vec<char>, i: usize) -> (r: ParseResult<Expr>)
    requires
        i <= s.len(),
    ensures
        expr_res(r, spec_addition(s@, i as int)),
        consumes(r, s@, i as int),
    decreases s.len() - i, 9int,
{
    match multiplication_exec(s, i) {
        ParseResult::Done(h, p) => add_tail_exec(s, p, h),
        ParseResult::NoMatch => ParseResult::NoMatch,
        ParseResult::Abort => ParseResult::Abort,
    }
}

fn assignment_exec(s: &Vec<char>, i: usize) -> (r: ParseResult<Expr>)
    requires
        i <= s.len(),
    ensures
        expr_res(r, spec_assignment(s@, i as int)),
        consumes(r, s@, i as int),
    decreases s.len() - i, 9int,
{
    proof { reveal_strlit("="); }
    match ident_exec(s, i) {
        Some((n, p)) => match sym_exec(s, p, "=") {
            Some(q) => match addition_exec(s, q) {
                ParseResult::Done(v, r) => ParseResult::Done(
                    Expr { kind: ExprKind::Assignment { var_name: n, expr: Box::new(v) } },
                    r,
                ),
                ParseResult::NoMatch => ParseResult::NoMatch,
                ParseResult::Abort => ParseResult::Abort,
            },
            None => ParseResult::NoMatch,
        },
        None => ParseResult::NoMatch,
    }
}

/// assignment | addition
pub fn expression_exec(s: &Vec<char>, i: usize) -> (r: ParseResult<Expr>)
    requires
        i <= s.len(),
    ensures
        expr_res(r, spec_expression(s@, i as int)),
        consumes(r, s@, i as int),
    decreases s.len() - i, 10int,
{
    match assignment_exec(s, i) {
        ParseResult::NoMatch => addition_exec(s, i),
        r => r,
    }
}

/// A parse of a statement and its value agree.
pub open spec fn stmt_res(r: ParseResult<Stmt>, p: PR<StmtV>) -> bool {
    match (r, p) {
        (ParseResult::Done(e, k), PR::Done(v, j)) => stmt_v(e) == v && k == j,
        (ParseResult::NoMatch, PR::NoMatch) => true,
        (ParseResult::Abort, PR::Abort) => true,
        _ => false,
    }
}

/// A parse of a list of statements and its value agree.
pub open spec fn stmts_res(r: ParseResult<Vec<Stmt>>, p: PR<Seq<StmtV>>) -> bool {
    match (r, p) {
        (ParseResult::Done(e, k), PR::Done(v, j)) => stmts_v(e@) == v && k == j,
        (ParseResult::NoMatch, PR::NoMatch) => true,
        (ParseResult::Abort, PR::Abort) => true,
        _ => false,
    }
}

fn asm_close_exec(s: &Vec<char>, p: usize, acc: Vec<String>) -> (r: Option<(Vec<String>, usize)>)
    requires
        p <= s.len(),
    ensures
        match r {
            Some((l, q)) => asm_close(s@, p as int, strings_view(acc@)) == Some((strings_view(l@), q as int)) && p < q <= s.len(),
            None => asm_close(s@, p as int, strings_view(acc@)) is None,
        },
{
    proof { reveal_strlit("}"); }
    match sym_exec(s, p, "}") {
        Some(r) => Some((acc, r)),
        None => None,
    }
}

fn asm_lines_exec(s: &Vec<char>, i: usize) -> (r: Option<(Vec<String>, usize)>)
    requires
        i <= s.len(),
    ensures
        match r {
            Some((l, q)) => asm_lines(s@, i as int) == Some((strings_view(l@), q as int)) && i < q <= s.len(),
            None => asm_lines(s@, i as int) is None,
        },
{
    proof {
        reveal_strlit("{");
        reveal_strlit(";");
    }
    match sym_exec(s, i, "{") {
        None => None,
        Some(q) => match str_lit_exec(s, q) {
            None => {
                let acc: Vec<String> = Vec::new();
                assert(strings_view(acc@) =~= Seq::<Seq<char>>::empty());
                asm_close_exec(s, q, acc)
            },
            Some((c, r0)) => {
                let mut acc: Vec<String> = Vec::new();
                acc.push(c);
                assert(strings_view(acc@) =~= seq![c@]);
                let mut p = r0;
                loop
                    invariant
                        i < p <= s.len(),
                        asm_lines(s@, i as int) == asm_tail(s@, p as int, strings_view(acc@)),
                    ensures
                        i < p <= s.len(),
                        asm_lines(s@, i as int) == asm_close(s@, p as int, strings_view(acc@)),
                    decreases s.len() - p,
                {
                    proof { reveal_strlit(";"); }
                    match sym_exec(s, p, ";") {
                        None => break,
                        Some(q2) => match str_lit_exec(s, q2) {
                            None => break,
                            Some((c2, r2)) => {
                                let ghost before = strings_view(acc@);
                                acc.push(c2);
                                assert(strings_view(acc@) =~= before.push(c2@));
                                p = r2;
                            },
                        },
                    }
                }
                asm_close_exec(s, p, acc)
            },
        },
    }
}

fn asm_statement_exec(s: &Vec<char>, i: usize) -> (r: ParseResult<Stmt>)
    requires
        i <= s.len(),
    ensures
        stmt_res(r, spec_asm_statement(s@, i as int)),
        consumes(r, s@, i as int),
{
    proof {
        reveal_strlit("asm");
        reveal_strlit(";");
    }
    match sym_exec(s, i, "asm") {
        None => ParseResult::NoMatch,
        Some(q) => match asm_lines_exec(s, q) {
            None => ParseResult::NoMatch,
            Some((lines, p)) => match sym_exec(s, p, ";") {
                Some(r) => ParseResult::Done(Stmt { kind: StmtKind::Asm { insts: lines } }, r),
                None => ParseResult::NoMatch,
            },
        },
    }
}

fn declaration_statement_exec(s: &Vec<char>, i: usize) -> (r: ParseResult<Stmt>)
    requires
        i <= s.len(),
    ensures
        stmt_res(r, spec_declaration_statement(s@, i as int)),
        consumes(r, s@, i as int),
{
    proof {
        reveal_strlit("declare");
        reveal_strlit(";");
    }
    match sym_exec(s, i, "declare") {
        None => ParseResult::NoMatch,
        Some(q) => match ident_exec(s, q) {
            None => ParseResult::NoMatch,
            Some((v, p)) => match ident_list_exec(s, p) {
                None => ParseResult::NoMatch,
                Some((t, p2)) => match sym_exec(s, p2, ";") {
                    Some(r) => ParseResult::Done(Stmt { kind: StmtKind::Declare { var_name: v, type_names: t } }, r),
                    None => ParseResult::NoMatch,
                },
            },
        },
    }
}

fn expression_statement_exec(s: &Vec<char>, i: usize) -> (r: ParseResult<Stmt>)
    requires
        i <= s.len(),
    ensures
        stmt_res(r, spec_expression_statement(s@, i as int)),
        consumes(r, s@, i as int),
{
    proof { reveal_strlit(";"); }
    match expression_exec(s, i) {
        ParseResult::Done(e, p) => match sym_exec(s, p, ";") {
            Some(r) => ParseResult::Done(Stmt { kind: StmtKind::Expr { expr: e } }, r),
            None => ParseResult::NoMatch,
        },
        ParseResult::NoMatch => ParseResult::NoMatch,
        ParseResult::Abort => ParseResult::Abort,
    }
}

fn stmts_many_exec(s: &Vec<char>, p: usize, acc: Vec<Stmt>) -> (r: ParseResult<Vec<Stmt>>)
    requires
        p <= s.len(),
    ensures
        stmts_res(r, stmts_many(s@, p as int, stmts_v(acc@))),
        match r {
            ParseResult::Done(_, k) => p <= k <= s.len(),
            _ => true,
        },
    decreases s.len() - p, 6int,
{
    match statement_exec(s, p) {
        ParseResult::Done(st, r) => {
            let mut acc = acc;
            let ghost before = acc@;
            acc.push(st);
            assert(acc@.drop_last() == before);
            assert(stmts_v(acc@) == stmts_v(before).push(stmt_v(st)));
            stmts_many_exec(s, r, acc)
        },
        ParseResult::NoMatch => ParseResult::Done(acc, p),
        ParseResult::Abort => ParseResult::Abort,
    }
}

fn compound_statement_exec(s: &Vec<char>, i: usize) -> (r: ParseResult<Vec<Stmt>>)
    requires
        i <= s.len(),
    ensures
        stmts_res(r, spec_compound_statement(s@, i as int)),
        consumes(r, s@, i as int),
    decreases s.len() - i, 3int,
{
    proof {
        reveal_strlit("{");
        reveal_strlit("}");
    }
    match sym_exec(s, i, "{") {
        None => ParseResult::NoMatch,
        Some(q) => {
            let acc: Vec<Stmt> = Vec::new();
            assert(stmts_v(acc@) == Seq::<StmtV>::empty());
            match stmts_many_exec(s, q, acc) {
                ParseResult::Done(stmts, p) => match sym_exec(s, p, "}") {
                    Some(r) => ParseResult::Done(stmts, r),
                    None => ParseResult::NoMatch,
                },
                ParseResult::NoMatch => ParseResult::NoMatch,
                ParseResult::Abort => ParseResult::Abort,
            }
        },
    }
}

fn block_statement_exec(s: &Vec<char>, i: usize) -> (r: ParseResult<Stmt>)
    requires
        i <= s.len(),
    ensures
        stmt_res(r, spec_block_statement(s@, i as int)),
        consumes(r, s@, i as int),
    decreases s.len() - i, 4int,
{
    match compound_statement_exec(s, i) {
        ParseResult::Done(b, r) => ParseResult::Done(Stmt { kind: StmtKind::Block { stmts: b } }, r),
        ParseResult::NoMatch => ParseResult::NoMatch,
        ParseResult::Abort => ParseResult::Abort,
    }
}

fn countup_tail_exec(s: &Vec<char>, i: usize, id: String, f: Expr, r: usize) -> (res: ParseResult<Stmt>)
    requires
        i < r <= s.len(),
    ensures
        stmt_res(res, countup_tail(s@, i as int, id@, expr_v(f), r as int)),
        consumes(res, s@, i as int),
    decreases s.len() - i, 3int,
{
    proof {
        reveal_strlit("lessthan");
        reveal_strlit("to");
    }
    let end = match sym_exec(s, r, "lessthan") {
        Some(q3) => Some((true, q3)),
        None => match sym_exec(s, r, "to") {
            Some(q3) => Some((false, q3)),
            None => None,
        },
    };
    let (half_open, q3) = match end {
        Some(x) => x,
        None => return ParseResult::NoMatch,
    };
    let (t, r2) = match expression_exec(s, q3) {
        ParseResult::Done(t, r2) => (t, r2),
        ParseResult::NoMatch => return ParseResult::NoMatch,
        ParseResult::Abort => return ParseResult::Abort,
    };
    match compound_statement_exec(s, r2) {
        ParseResult::Done(b, r3) => {
            let st = if half_open {
                Stmt { kind: StmtKind::HalfOpenCountup { block: b, id, from: f, lessthan: t } }
            } else {
                Stmt { kind: StmtKind::ClosedCountup { block: b, id, from: f, to: t } }
            };
            ParseResult::Done(st, r3)
        },
        ParseResult::NoMatch => ParseResult::NoMatch,
        ParseResult::Abort => ParseResult::Abort,
    }
}

fn countup_statement_exec(s: &Vec<char>, i: usize) -> (r: ParseResult<Stmt>)
    requires
        i <= s.len(),
    ensures
        stmt_res(r, spec_countup_statement(s@, i as int)),
        consumes(r, s@, i as int),
    decreases s.len() - i, 4int,
{
    proof {
        reveal_strlit("countup");
        reveal_strlit("from");
    }
    let q = match sym_exec(s, i, "countup") {
        Some(q) => q,
        None => return ParseResult::NoMatch,
    };
    let (id, p) = match ident_exec(s, q) {
        Some(x) => x,
        None => return ParseResult::NoMatch,
    };
    let q2 = match sym_exec(s, p, "from") {
        Some(q2) => q2,
        None => return ParseResult::NoMatch,
    };
    match expression_exec(s, q2) {
        ParseResult::Done(f, r) => countup_tail_exec(s, i, id, f, r),
        ParseResult::NoMatch => ParseResult::NoMatch,
        ParseResult::Abort => ParseResult::Abort,
    }
}

/// countup | block | declaration | asm | expression statement
fn statement_exec(s: &Vec<char>, i: usize) -> (r: ParseResult<Stmt>)
    requires
        i <= s.len(),
    ensures
        stmt_res(r, spec_statement(s@, i as int)),
        consumes(r, s@, i as int),
    decreases s.len() - i, 5int,
{
    match countup_statement_exec(s, i) {
        ParseResult::NoMatch => match block_statement_exec(s, i) {
            ParseResult::NoMatch => match declaration_statement_exec(s, i) {
                ParseResult::NoMatch => match asm_statement_exec(s, i) {
                    ParseResult::NoMatch => expression_statement_exec(s, i),
                    r => r,
                },
                r => r,
            },
            r => r,
        },
        r => r,
    }
}

/// The names and type names of a list of parameters.
pub open spec fn pairs_view(v: Seq<(String, String)>) -> Seq<(Seq<char>, Seq<char>)> {
    v.map_values(|p: (String, String)| (p.0@, p.1@))
}

/// A parse of a declaration and its value agree.
pub open spec fn tld_res(r: ParseResult<TopLevelDecl>, p: PR<TopLevelDeclV>) -> bool {
    match (r, p) {
        (ParseResult::Done(e, k), PR::Done(v, j)) => tld_v(e) == v && k == j,
        (ParseResult::NoMatch, PR::NoMatch) => true,
        (ParseResult::Abort, PR::Abort) => true,
        _ => false,
    }
}

fn param_pair_exec(s: &Vec<char>, i: usize) -> (r: Option<((String, String), usize)>)
    requires
        i <= s.len(),
    ensures
        match r {
            Some((pr, q)) => param_pair(s@, i as int) == Some(((pr.0@, pr.1@), q as int)) && i < q <= s.len(),
            None => param_pair(s@, i as int) is None,
        },
{
    match ident_exec(s, i) {
        None => None,
        Some((n, p)) => match ident_exec(s, p) {
            None => None,
            Some((t, q)) => Some(((n, t), q)),
        },
    }
}

fn param_close_exec(s: &Vec<char>, p: usize, acc: Vec<(String, String)>) -> (r: Option<(Vec<(String, String)>, usize)>)
    requires
        p <= s.len(),
    ensures
        match r {
            Some((l, q)) => param_close(s@, p as int, pairs_view(acc@)) == Some((pairs_view(l@), q as int)) && p < q <= s.len(),
            None => param_close(s@, p as int, pairs_view(acc@)) is None,
        },
{
    proof { reveal_strlit(")"); }
    match sym_exec(s, p, ")") {
        Some(r) => Some((acc, r)),
        None => None,
    }
}

fn param_list_exec(s: &Vec<char>, i: usize) -> (r: Option<(Vec<(String, String)>, usize)>)
    requires
        i <= s.len(),
    ensures
        match r {
            Some((l, q)) => param_list(s@, i as int) == Some((pairs_view(l@), q as int)) && i < q <= s.len(),
            None => param_list(s@, i as int) is None,
        },
{
    proof { reveal_strlit("("); }
    match sym_exec(s, i, "(") {
        None => None,
        Some(q) => match param_pair_exec(s, q) {
            None => {
                let acc: Vec<(String, String)> = Vec::new();
                assert(pairs_view(acc@) =~= Seq::<(Seq<char>, Seq<char>)>::empty());
                param_close_exec(s, q, acc)
            },
            Some((pr, r0)) => {
                let ghost first = (pr.0@, pr.1@);
                let mut acc: Vec<(String, String)> = Vec::new();
                acc.push(pr);
                assert(pairs_view(acc@) =~= seq![first]);
                let mut p = r0;
                loop
                    invariant
                        i < p <= s.len(),
                        param_list(s@, i as int) == param_tail(s@, p as int, pairs_view(acc@)),
                    ensures
                        i < p <= s.len(),
                        param_list(s@, i as int) == param_close(s@, p as int, pairs_view(acc@)),
                    decreases s.len() - p,
                {
                    proof { reveal_strlit(","); }
                    match sym_exec(s, p, ",") {
                        None => break,
                        Some(q2) => match param_pair_exec(s, q2) {
                            None => break,
                            Some((pr2, r2)) => {
                                let ghost before = pairs_view(acc@);
                                let ghost v2 = (pr2.0@, pr2.1@);
                                acc.push(pr2);
                                assert(pairs_view(acc@) =~= before.push(v2));
                                p = r2;
                            },
                        },
                    }
                }
                param_close_exec(s, p, acc)
            },
        },
    }
}

/// The map of parameter names to type names, a later parameter of the same name winning.
fn build_params(ps: Vec<(String, String)>) -> (m: NameMap<String>)
    ensures
        m.wf(),
        m@.map_values(|t: String| t@) == params_map(pairs_view(ps@)),
{
    let mut m: NameMap<String> = NameMap::new();
    assert(m@.map_values(|t: String| t@) =~= Map::<Seq<char>, Seq<char>>::empty());
    let mut k: usize = 0;
    while k < ps.len()
        invariant
            k <= ps.len(),
            m.wf(),
            m@.map_values(|t: String| t@) == params_map(pairs_view(ps@.take(k as int))),
        decreases ps.len() - k,
    {
        let name = ps[k].0.clone();
        let ty = ps[k].1.clone();
        proof {
            assert(pairs_view(ps@.take(k + 1)).drop_last() =~= pairs_view(ps@.take(k as int)));
            assert(pairs_view(ps@.take(k + 1)).last() == (name@, ty@));
        }
        let ghost before = m@;
        let _ = m.insert(name, ty);
        proof {
            assert(m@.map_values(|t: String| t@) =~= before.map_values(|t: String| t@).insert(name@, ty@));
        }
        k = k + 1;
    }
    assert(ps@.take(ps.len() as int) == ps@);
    m
}

/// A name prefixed by a module's name and "::".
fn qualified_name(module: &str, n: &String) -> (r: String)
    ensures
        r@ == qualified(module@, n@),
{
    let mut v = crate::text::collect_chars(module);
    crate::text::push_str(&mut v, "::");
    crate::text::push_str(&mut v, n.as_str());
    crate::text::chars_to_string(v.as_slice())
}

fn import_directive_exec(s: &Vec<char>, i: usize) -> (r: ParseResult<TopLevelDecl>)
    requires
        i <= s.len(),
    ensures
        tld_res(r, spec_import_directive(s@, i as int)),
        consumes(r, s@, i as int),
        r matches ParseResult::Done(d, _) ==> decl_wf(d),
{
    proof {
        reveal_strlit("import");
        reveal_strlit(";");
    }
    match sym_exec(s, i, "import") {
        None => ParseResult::NoMatch,
        Some(q) => {
            let mut e = q;
            while e < s.len() && s[e] != ';'
                invariant
                    q <= e <= s.len(),
                    until_char(s@, q as int, ';') == until_char(s@, e as int, ';'),
                decreases s.len() - e,
            {
                e = e + 1;
            }
            if e == q {
                return ParseResult::NoMatch;
            }
            match sym_exec(s, e, ";") {
                Some(r) => {
                    let name = sub_string(s, q, e);
                    ParseResult::Done(TopLevelDecl { kind: TopLevelDeclKind::Import { module_name: name } }, r)
                },
                None => ParseResult::NoMatch,
            }
        },
    }
}

fn pubtype_declaration_exec(module: &str, s: &Vec<char>, i: usize) -> (r: ParseResult<TopLevelDecl>)
    requires
        i <= s.len(),
    ensures
        tld_res(r, spec_pubtype_declaration(module@, s@, i as int)),
        consumes(r, s@, i as int),
        r matches ParseResult::Done(d, _) ==> decl_wf(d),
{
    proof {
        reveal_strlit("pubtype");
        reveal_strlit("=");
        reveal_strlit(";");
    }
    let q = match sym_exec(s, i, "pubtype") {
        Some(q) => q,
        None => return ParseResult::NoMatch,
    };
    let (n, p) = match ident_exec(s, q) {
        Some(x) => x,
        None => return ParseResult::NoMatch,
    };
    let q2 = match sym_exec(s, p, "=") {
        Some(x) => x,
        None => return ParseResult::NoMatch,
    };
    let (to, p2) = match ident_exec(s, q2) {
        Some(x) => x,
        None => return ParseResult::NoMatch,
    };
    match sym_exec(s, p2, ";") {
        Some(r) => {
            let alias = qualified_name(module, &n);
            ParseResult::Done(TopLevelDecl { kind: TopLevelDeclKind::PubType { alias, to } }, r)
        },
        None => ParseResult::NoMatch,
    }
}

fn pubconst_declaration_exec(module: &str, s: &Vec<char>, i: usize) -> (r: ParseResult<TopLevelDecl>)
    requires
        i <= s.len(),
    ensures
        tld_res(r, spec_pubconst_declaration(module@, s@, i as int)),
        consumes(r, s@, i as int),
        r matches ParseResult::Done(d, _) ==> decl_wf(d),
{
    proof {
        reveal_strlit("pubconst");
        reveal_strlit(":");
        reveal_strlit("=");
        reveal_strlit(";");
    }
    let q = match sym_exec(s, i, "pubconst") {
        Some(q) => q,
        None => return ParseResult::NoMatch,
    };
    let (n, p) = match ident_exec(s, q) {
        Some(x) => x,
        None => return ParseResult::NoMatch,
    };
    let q2 = match sym_exec(s, p, ":") {
        Some(x) => x,
        None => return ParseResult::NoMatch,
    };
    let (ty, p2) = match ident_exec(s, q2) {
        Some(x) => x,
        None => return ParseResult::NoMatch,
    };
    let q3 = match sym_exec(s, p2, "=") {
        Some(x) => x,
        None => return ParseResult::NoMatch,
    };
    let (e, p3) = match expression_exec(s, q3) {
        ParseResult::Done(e, p3) => (e, p3),
        ParseResult::NoMatch => return ParseResult::NoMatch,
        ParseResult::Abort => return ParseResult::Abort,
    };
    match sym_exec(s, p3, ";") {
        Some(r) => {
            let const_name = qualified_name(module, &n);
            ParseResult::Done(
                TopLevelDecl { kind: TopLevelDeclKind::PubConst { const_name, const_type: ty, expr: e } },
                r,
            )
        },
        None => ParseResult::NoMatch,
    }
}

fn function_declaration_exec(module: &str, s: &Vec<char>, i: usize) -> (r: ParseResult<TopLevelDecl>)
    requires
        i <= s.len(),
    ensures
        tld_res(r, spec_function_declaration(module@, s@, i as int)),
        consumes(r, s@, i as int),
        r matches ParseResult::Done(d, _) ==> decl_wf(d),
{
    proof {
        reveal_strlit("func");
        reveal_strlit("{");
        reveal_strlit("}");
    }
    let q = match sym_exec(s, i, "func") {
        Some(q) => q,
        None => return ParseResult::NoMatch,
    };
    let (n, p) = match ident_exec(s, q) {
        Some(x) => x,
        None => return ParseResult::NoMatch,
    };
    let (ps, p2) = match param_list_exec(s, p) {
        Some(x) => x,
        None => return ParseResult::NoMatch,
    };
    let (ret, p3) = match ident_exec(s, p2) {
        Some(x) => x,
        None => return ParseResult::NoMatch,
    };
    let q4 = match sym_exec(s, p3, "{") {
        Some(x) => x,
        None => return ParseResult::NoMatch,
    };
    let acc: Vec<Stmt> = Vec::new();
    assert(stmts_v(acc@) == Seq::<StmtV>::empty());
    let (body, p5) = match stmts_many_exec(s, q4, acc) {
        ParseResult::Done(b, p5) => (b, p5),
        ParseResult::NoMatch => return ParseResult::NoMatch,
        ParseResult::Abort => return ParseResult::Abort,
    };
    match sym_exec(s, p5, "}") {
        Some(r) => {
            let func_name = qualified_name(module, &n);
            let parameters = build_params(ps);
            ParseResult::Done(
                TopLevelDecl { kind: TopLevelDeclKind::Function { func_name, return_type: ret, parameters, stmts: body } },
                r,
            )
        },
        None => ParseResult::NoMatch,
    }
}

fn top_decl_exec(module: &str, s: &Vec<char>, i: usize) -> (r: ParseResult<TopLevelDecl>)
    requires
        i <= s.len(),
    ensures
        tld_res(r, spec_top_decl(module@, s@, i as int)),
        consumes(r, s@, i as int),
        r matches ParseResult::Done(d, _) ==> decl_wf(d),
{
    match pubtype_declaration_exec(module, s, i) {
        ParseResult::NoMatch => match import_directive_exec(s, i) {
            ParseResult::NoMatch => match pubconst_declaration_exec(module, s, i) {
                ParseResult::NoMatch => function_declaration_exec(module, s, i),
                r => r,
            },
            r => r,
        },
        r => r,
    }
}

fn decls_many_exec(module: &str, s: &Vec<char>, p: usize, acc: Vec<TopLevelDecl>) -> (r: ParseResult<Vec<TopLevelDecl>>)
    requires
        p <= s.len(),
        forall|k: int| 0 <= k < acc@.len() ==> #[trigger] decl_wf(acc@[k]),
    ensures
        r matches ParseResult::Done(ds, _) ==> forall|k: int| 0 <= k < ds@.len() ==> #[trigger] decl_wf(ds@[k]),
        match (r, decls_many(module@, s@, p as int, tlds_v(acc@))) {
            (ParseResult::Done(ds, k), PR::Done(v, j)) => tlds_v(ds@) == v && k == j,
            (ParseResult::NoMatch, PR::NoMatch) => true,
            (ParseResult::Abort, PR::Abort) => true,
            _ => false,
        },
    decreases s.len() - p,
{
    match top_decl_exec(module, s, p) {
        ParseResult::Done(d, r) => {
            let mut acc = acc;
            let ghost before = acc@;
            acc.push(d);
            assert(tlds_v(acc@) =~= tlds_v(before).push(tld_v(d)));
            decls_many_exec(module, s, r, acc)
        },
        ParseResult::NoMatch => ParseResult::Done(acc, p),
        ParseResult::Abort => ParseResult::Abort,
    }
}

/// Why a parse gave nothing back: the input does not match, or it holds an
/// integer literal too large for its type (which ends the whole parse).
#[derive(Debug, PartialEq, Eq, Clone, Copy)]
pub enum ParseError {
    NoMatch,
    TooLargeInteger,
}

/// A string literal expression.
pub open spec fn spec_string_literal(s: Seq<char>, i: int) -> PR<ExprV> {
    match str_lit(s, i) {
        Some((c, p)) => PR::Done(ExprV::StringLiteral(c), p),
        None => PR::NoMatch,
    }
}

/// A path of names as an expression.
pub open spec fn spec_identifier_sequence(s: Seq<char>, i: int) -> PR<ExprV> {
    match ident_list(s, i) {
        Some((l, p)) => PR::Done(ExprV::Identifier(l), p),
        None => PR::NoMatch,
    }
}

/// The outcome of parsing a whole input: the value and the rest of the input.
pub open spec fn expr_outcome(r: Result<(String, Expr), ParseError>, p: PR<ExprV>, s: Seq<char>) -> bool {
    match p {
        PR::Done(v, k) => r matches Ok((rest, e)) && rest@ == s.subrange(k, s.len() as int) && expr_v(e) == v,
        PR::NoMatch => r == Err::<(String, Expr), ParseError>(ParseError::NoMatch),
        PR::Abort => r == Err::<(String, Expr), ParseError>(ParseError::TooLargeInteger),
    }
}

/// The outcome of parsing a whole input into a statement.
pub open spec fn stmt_outcome(r: Result<(String, Stmt), ParseError>, p: PR<StmtV>, s: Seq<char>) -> bool {
    match p {
        PR::Done(v, k) => r matches Ok((rest, e)) && rest@ == s.subrange(k, s.len() as int) && stmt_v(e) == v,
        PR::NoMatch => r == Err::<(String, Stmt), ParseError>(ParseError::NoMatch),
        PR::Abort => r == Err::<(String, Stmt), ParseError>(ParseError::TooLargeInteger),
    }
}

/// The outcome of parsing a whole input into a declaration.
pub open spec fn tld_outcome(r: Result<(String, TopLevelDecl), ParseError>, p: PR<TopLevelDeclV>, s: Seq<char>) -> bool {
    match p {
        PR::Done(v, k) => r matches Ok((rest, e)) && rest@ == s.subrange(k, s.len() as int) && tld_v(e) == v,
        PR::NoMatch => r == Err::<(String, TopLevelDecl), ParseError>(ParseError::NoMatch),
        PR::Abort => r == Err::<(String, TopLevelDecl), ParseError>(ParseError::TooLargeInteger),
    }
}

/// The outcome of parsing a whole input into a list of expressions.
pub open spec fn exprs_outcome(r: Result<(String, Vec<Expr>), ParseError>, p: PR<Seq<ExprV>>, s: Seq<char>) -> bool {
    match p {
        PR::Done(v, k) => r matches Ok((rest, e)) && rest@ == s.subrange(k, s.len() as int) && exprs_v(e@) == v,
        PR::NoMatch => r == Err::<(String, Vec<Expr>), ParseError>(ParseError::NoMatch),
        PR::Abort => r == Err::<(String, Vec<Expr>), ParseError>(ParseError::TooLargeInteger),
    }
}

fn finish_expr(s: &Vec<char>, res: ParseResult<Expr>) -> (r: Result<(String, Expr), ParseError>)
    requires
        consumes(res, s@, 0),
    ensures
        forall|p: PR<ExprV>| expr_res(res, p) ==> #[trigger] expr_outcome(r, p, s@),
{
    match res {
        ParseResult::Done(e, k) => Ok((sub_string(s, k, s.len()), e)),
        ParseResult::NoMatch => Err(ParseError::NoMatch),
        ParseResult::Abort => Err(ParseError::TooLargeInteger),
    }
}

fn finish_stmt(s: &Vec<char>, res: ParseResult<Stmt>) -> (r: Result<(String, Stmt), ParseError>)
    requires
        consumes(res, s@, 0),
    ensures
        forall|p: PR<StmtV>| stmt_res(res, p) ==> #[trigger] stmt_outcome(r, p, s@),
{
    match res {
        ParseResult::Done(e, k) => Ok((sub_string(s, k, s.len()), e)),
        ParseResult::NoMatch => Err(ParseError::NoMatch),
        ParseResult::Abort => Err(ParseError::TooLargeInteger),
    }
}

fn finish_tld(s: &Vec<char>, res: ParseResult<TopLevelDecl>) -> (r: Result<(String, TopLevelDecl), ParseError>)
    requires
        consumes(res, s@, 0),
    ensures
        forall|p: PR<TopLevelDeclV>| tld_res(res, p) ==> #[trigger] tld_outcome(r, p, s@),
{
    match res {
        ParseResult::Done(e, k) => Ok((sub_string(s, k, s.len()), e)),
        ParseResult::NoMatch => Err(ParseError::NoMatch),
        ParseResult::Abort => Err(ParseError::TooLargeInteger),
    }
}

fn string_literal_exec(s: &Vec<char>, i: usize) -> (r: ParseResult<Expr>)
    requires
        i <= s.len(),
    ensures
        expr_res(r, spec_string_literal(s@, i as int)),
        consumes(r, s@, i as int),
{
    match str_lit_exec(s, i) {
        Some((c, p)) => ParseResult::Done(Expr { kind: ExprKind::StringLiteral { contents: c } }, p),
        None => ParseResult::NoMatch,
    }
}

fn identifier_sequence_exec(s: &Vec<char>, i: usize) -> (r: ParseResult<Expr>)
    requires
        i <= s.len(),
    ensures
        expr_res(r, spec_identifier_sequence(s@, i as int)),
        consumes(r, s@, i as int),
{
    match ident_list_exec(s, i) {
        Some((l, p)) => ParseResult::Done(Expr { kind: ExprKind::Identifier { list: l } }, p),
        None => ParseResult::NoMatch,
    }
}

/// Parses assignment | addition from the start of `input`; gives the rest of the input and the expression.
pub fn expression(input: &str) -> (r: Result<(String, Expr), ParseError>)
    ensures
        expr_outcome(r, spec_expression(input@, 0), input@),
{
    let s = crate::text::collect_chars(input);
    let res = expression_exec(&s, 0);
    finish_expr(&s, res)
}

/// Parses name "=" addition from the start of `input`; gives the rest of the input and the expression.
pub fn assignment(input: &str) -> (r: Result<(String, Expr), ParseError>)
    ensures
        expr_outcome(r, spec_assignment(input@, 0), input@),
{
    let s = crate::text::collect_chars(input);
    let res = assignment_exec(&s, 0);
    finish_expr(&s, res)
}

/// Parses multiplication ("+" multiplication | "-" multiplication)*, folded to the left from the start of `input`; gives the rest of the input and the expression.
pub fn addition(input: &str) -> (r: Result<(String, Expr), ParseError>)
    ensures
        expr_outcome(r, spec_addition(input@, 0), input@),
{
    let s = crate::text::collect_chars(input);
    let res = addition_exec(&s, 0);
    finish_expr(&s, res)
}

/// Parses prefix ("*" prefix | "/" prefix)*, folded to the left from the start of `input`; gives the rest of the input and the expression.
pub fn multiplication(input: &str) -> (r: Result<(String, Expr), ParseError>)
    ensures
        expr_outcome(r, spec_multiplication(input@, 0), input@),
{
    let s = crate::text::collect_chars(input);
    let res = multiplication_exec(&s, 0);
    finish_expr(&s, res)
}

/// Parses unary_plus | unary_minus | primary from the start of `input`; gives the rest of the input and the expression.
pub fn prefix(input: &str) -> (r: Result<(String, Expr), ParseError>)
    ensures
        expr_outcome(r, spec_prefix(input@, 0), input@),
{
    let s = crate::text::collect_chars(input);
    let res = prefix_exec(&s, 0);
    finish_expr(&s, res)
}

/// Parses "+" primary: the primary itself from the start of `input`; gives the rest of the input and the expression.
pub fn unary_plus(input: &str) -> (r: Result<(String, Expr), ParseError>)
    ensures
        expr_outcome(r, spec_unary_plus(input@, 0), input@),
{
    let s = crate::text::collect_chars(input);
    let res = unary_plus_exec(&s, 0);
    finish_expr(&s, res)
}

/// Parses "-" primary: its negation from the start of `input`; gives the rest of the input and the expression.
pub fn unary_minus(input: &str) -> (r: Result<(String, Expr), ParseError>)
    ensures
        expr_outcome(r, spec_unary_minus(input@, 0), input@),
{
    let s = crate::text::collect_chars(input);
    let res = unary_minus_exec(&s, 0);
    finish_expr(&s, res)
}

/// Parses string literal | unsigned integer | integer | boolean | path or call from the start of `input`; gives the rest of the input and the expression.
pub fn primary(input: &str) -> (r: Result<(String, Expr), ParseError>)
    ensures
        expr_outcome(r, spec_primary(input@, 0), input@),
{
    let s = crate::text::collect_chars(input);
    let res = primary_exec(&s, 0);
    finish_expr(&s, res)
}

/// Parses a string literal from the start of `input`; gives the rest of the input and the expression.
pub fn string_literal(input: &str) -> (r: Result<(String, Expr), ParseError>)
    ensures
        expr_outcome(r, spec_string_literal(input@, 0), input@),
{
    let s = crate::text::collect_chars(input);
    let res = string_literal_exec(&s, 0);
    finish_expr(&s, res)
}

/// Parses `true` or `false` from the start of `input`; gives the rest of the input and the expression.
pub fn boolean_literal(input: &str) -> (r: Result<(String, Expr), ParseError>)
    ensures
        expr_outcome(r, bool_lit(input@, 0), input@),
{
    let s = crate::text::collect_chars(input);
    let res = bool_lit_exec(&s, 0);
    finish_expr(&s, res)
}

/// Parses ASCII digits: an `i128` from the start of `input`; gives the rest of the input and the expression.
pub fn integer_literal(input: &str) -> (r: Result<(String, Expr), ParseError>)
    ensures
        expr_outcome(r, int_lit(input@, 0), input@),
{
    let s = crate::text::collect_chars(input);
    let res = int_lit_exec(&s, 0);
    finish_expr(&s, res)
}

/// Parses `u` and ASCII digits: a `u128` from the start of `input`; gives the rest of the input and the expression.
pub fn unsigned_integer_literal(input: &str) -> (r: Result<(String, Expr), ParseError>)
    ensures
        expr_outcome(r, uint_lit(input@, 0), input@),
{
    let s = crate::text::collect_chars(input);
    let res = uint_lit_exec(&s, 0);
    finish_expr(&s, res)
}

/// Parses a path of names separated by "::" from the start of `input`; gives the rest of the input and the expression.
pub fn identifier_sequence(input: &str) -> (r: Result<(String, Expr), ParseError>)
    ensures
        expr_outcome(r, spec_identifier_sequence(input@, 0), input@),
{
    let s = crate::text::collect_chars(input);
    let res = identifier_sequence_exec(&s, 0);
    finish_expr(&s, res)
}

/// Parses a path, or a call of it where an argument list follows from the start of `input`; gives the rest of the input and the expression.
pub fn identifier_expr(input: &str) -> (r: Result<(String, Expr), ParseError>)
    ensures
        expr_outcome(r, spec_identifier_expr(input@, 0), input@),
{
    let s = crate::text::collect_chars(input);
    let res = identifier_expr_exec(&s, 0);
    finish_expr(&s, res)
}

/// Parses countup | block | declaration | asm | expression statement from the start of `input`; gives the rest of the input and the statement.
pub fn statement(input: &str) -> (r: Result<(String, Stmt), ParseError>)
    ensures
        stmt_outcome(r, spec_statement(input@, 0), input@),
{
    let s = crate::text::collect_chars(input);
    let res = statement_exec(&s, 0);
    finish_stmt(&s, res)
}

/// Parses "countup" name "from" expression ("lessthan" | "to") expression block from the start of `input`; gives the rest of the input and the statement.
pub fn countup_statement(input: &str) -> (r: Result<(String, Stmt), ParseError>)
    ensures
        stmt_outcome(r, spec_countup_statement(input@, 0), input@),
{
    let s = crate::text::collect_chars(input);
    let res = countup_statement_exec(&s, 0);
    finish_stmt(&s, res)
}

/// Parses "{" statement* "}" from the start of `input`; gives the rest of the input and the statement.
pub fn block_statement(input: &str) -> (r: Result<(String, Stmt), ParseError>)
    ensures
        stmt_outcome(r, spec_block_statement(input@, 0), input@),
{
    let s = crate::text::collect_chars(input);
    let res = block_statement_exec(&s, 0);
    finish_stmt(&s, res)
}

/// Parses "declare" name path ";" from the start of `input`; gives the rest of the input and the statement.
pub fn declaration_statement(input: &str) -> (r: Result<(String, Stmt), ParseError>)
    ensures
        stmt_outcome(r, spec_declaration_statement(input@, 0), input@),
{
    let s = crate::text::collect_chars(input);
    let res = declaration_statement_exec(&s, 0);
    finish_stmt(&s, res)
}

/// Parses expression ";" from the start of `input`; gives the rest of the input and the statement.
pub fn expression_statement(input: &str) -> (r: Result<(String, Stmt), ParseError>)
    ensures
        stmt_outcome(r, spec_expression_statement(input@, 0), input@),
{
    let s = crate::text::collect_chars(input);
    let res = expression_statement_exec(&s, 0);
    finish_stmt(&s, res)
}

/// Parses "asm" "{" string literals separated by ";" "}" ";" from the start of `input`; gives the rest of the input and the statement.
pub fn asm_statement(input: &str) -> (r: Result<(String, Stmt), ParseError>)
    ensures
        stmt_outcome(r, spec_asm_statement(input@, 0), input@),
{
    let s = crate::text::collect_chars(input);
    let res = asm_statement_exec(&s, 0);
    finish_stmt(&s, res)
}

/// Parses an import directive from the start of `input`.
pub fn import_directive(input: &str) -> (r: Result<(String, TopLevelDecl), ParseError>)
    ensures
        tld_outcome(r, spec_import_directive(input@, 0), input@),
{
    let s = crate::text::collect_chars(input);
    let res = import_directive_exec(&s, 0);
    finish_tld(&s, res)
}

/// Parses a type alias of the module `module_name` from the start of `input`.
pub fn pubtype_declaration(module_name: &str, input: &str) -> (r: Result<(String, TopLevelDecl), ParseError>)
    ensures
        tld_outcome(r, spec_pubtype_declaration(module_name@, input@, 0), input@),
{
    let s = crate::text::collect_chars(input);
    let res = pubtype_declaration_exec(module_name, &s, 0);
    finish_tld(&s, res)
}

/// Parses a constant of the module `module_name` from the start of `input`.
pub fn pubconst_declaration(module_name: &str, input: &str) -> (r: Result<(String, TopLevelDecl), ParseError>)
    ensures
        tld_outcome(r, spec_pubconst_declaration(module_name@, input@, 0), input@),
{
    let s = crate::text::collect_chars(input);
    let res = pubconst_declaration_exec(module_name, &s, 0);
    finish_tld(&s, res)
}

/// Parses a function of the module `module_name` from the start of `input`.
pub fn function_declaration(module_name: &str, input: &str) -> (r: Result<(String, TopLevelDecl), ParseError>)
    ensures
        tld_outcome(r, spec_function_declaration(module_name@, input@, 0), input@),
{
    let s = crate::text::collect_chars(input);
    let res = function_declaration_exec(module_name, &s, 0);
    finish_tld(&s, res)
}

/// Parses an argument list `( expression, ... )` from the start of `input`.
pub fn parameter_list(input: &str) -> (r: Result<(String, Vec<Expr>), ParseError>)
    ensures
        exprs_outcome(r, spec_parameter_list(input@, 0), input@),
{
    let s = crate::text::collect_chars(input);
    match parameter_list_exec(&s, 0) {
        ParseResult::Done(e, k) => Ok((sub_string(&s, k, s.len()), e)),
        ParseResult::NoMatch => Err(ParseError::NoMatch),
        ParseResult::Abort => Err(ParseError::TooLargeInteger),
    }
}

/// A fixed text with white space around it: the rest of the input after it, and the text.
pub fn keyword(pattern: &str, input: &str) -> (r: Result<(String, String), ParseError>)
    requires
        pattern@.len() > 0,
    ensures
        match sym(input@, 0, pattern@) {
            Some(k) => r matches Ok((rest, t)) && rest@ == input@.subrange(k, input@.len() as int) && t@ == pattern@,
            None => r == Err::<(String, String), ParseError>(ParseError::NoMatch),
        },
{
    let s = crate::text::collect_chars(input);
    match sym_exec(&s, 0, pattern) {
        Some(k) => Ok((sub_string(&s, k, s.len()), crate::text::str_to_string(pattern))),
        None => Err(ParseError::NoMatch),
    }
}

/// A fixed text with white space around it; the same as `keyword`.
pub fn symbol(pattern: &str, input: &str) -> (r: Result<(String, String), ParseError>)
    requires
        pattern@.len() > 0,
    ensures
        match sym(input@, 0, pattern@) {
            Some(k) => r matches Ok((rest, t)) && rest@ == input@.subrange(k, input@.len() as int) && t@ == pattern@,
            None => r == Err::<(String, String), ParseError>(ParseError::NoMatch),
        },
{
    keyword(pattern, input)
}

/// A name with white space around it: the rest of the input and the name.
pub fn identifier_string(input: &str) -> (r: Result<(String, String), ParseError>)
    ensures
        match ident(input@, 0) {
            Some((n, k)) => r matches Ok((rest, t)) && rest@ == input@.subrange(k, input@.len() as int) && t@ == n,
            None => r == Err::<(String, String), ParseError>(ParseError::NoMatch),
        },
{
    let s = crate::text::collect_chars(input);
    match ident_exec(&s, 0) {
        Some((n, k)) => Ok((sub_string(&s, k, s.len()), n)),
        None => Err(ParseError::NoMatch),
    }
}

/// A string literal: the rest of the input and the literal's contents.
pub fn string_literal_str(input: &str) -> (r: Result<(String, String), ParseError>)
    ensures
        match str_lit(input@, 0) {
            Some((c, k)) => r matches Ok((rest, t)) && rest@ == input@.subrange(k, input@.len() as int) && t@ == c,
            None => r == Err::<(String, String), ParseError>(ParseError::NoMatch),
        },
{
    let s = crate::text::collect_chars(input);
    match str_lit_exec(&s, 0) {
        Some((c, k)) => Ok((sub_string(&s, k, s.len()), c)),
        None => Err(ParseError::NoMatch),
    }
}

/// The brackets around a list: `( ... )` or `{ ... }`.
#[derive(Debug, Clone, Copy, PartialEq, Eq, Structural)]
pub enum Delimiter {
    Paren,
    Bracket,
}

impl Delimiter {
    /// The opening and the closing symbol.
    pub fn symbols(&self) -> (r: (&'static str, &'static str))
        ensures
            *self == Delimiter::Paren ==> r.0@ == "("@ && r.1@ == ")"@,
            *self == Delimiter::Bracket ==> r.0@ == "{"@ && r.1@ == "}"@,
    {
        match self {
            Delimiter::Paren => ("(", ")"),
            Delimiter::Bracket => ("{", "}"),
        }
    }
}

/// Reads the text of the module `module_name` into its declarations: as many as
/// stand one after another from the start (the rest of the text is ignored).
pub fn main(module_name: &str, file_contents: &str) -> (r: Result<ASTRoot, ParseError>)
    ensures
        match decls_many(module_name@, file_contents@, 0, Seq::empty()) {
            PR::Done(ds, _) => r matches Ok(root) && tlds_v(root.decls@) == ds && root.module_name@ == module_name@
                && root_wf(root),
            PR::NoMatch => r == Err::<ASTRoot, ParseError>(ParseError::NoMatch),
            PR::Abort => r == Err::<ASTRoot, ParseError>(ParseError::TooLargeInteger),
        },
{
    let s = crate::text::collect_chars(file_contents);
    let acc: Vec<TopLevelDecl> = Vec::new();
    assert(tlds_v(acc@) =~= Seq::<TopLevelDeclV>::empty());
    match decls_many_exec(module_name, &s, 0, acc) {
        ParseResult::Done(decls, _) => {
            let mut ast_root = ASTRoot::default();
            ast_root.module_name = crate::text::str_to_string(module_name);
            ast_root.decls = decls;
            Ok(ast_root)
        },
        ParseResult::NoMatch => Err(ParseError::NoMatch),
        ParseResult::Abort => Err(ParseError::TooLargeInteger),
    }
}

} // verus!
