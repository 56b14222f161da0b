//! Expressions: primaries, calls, variable references with `++`/`--`, and the
//! precedence-climbing pass over prefix and infix operators.
use crate::lexer::{
    at1, at2, byte_at, byte_at2, digit, ident_token, is_digit, is_sigil, lex_ident, lex_number,
    lemma_len_fits, lex_string, lex_variable, number_token, skip, skip_trivia, string_token, variable_token,
};
use crate::syntax::{BinaryExpr, Call, Expr, Identifier, IntegerLiteral, NodeList, Span, StringLiteral, UnaryExpr};
use vstd::prelude::*;

verus! {

pub open spec fn lift<T>(r: Option<(T, usize)>) -> Option<(T, int)> {
    match r {
        Some((x, e)) => Some((x, e as int)),
        None => None,
    }
}

/// The position after the trivia at `i`.
pub open spec fn next(s: Seq<u8>, i: int) -> int {
    let k = skip_trivia(s, i);
    if i <= k <= s.len() {
        k
    } else {
        i
    }
}

pub open spec fn mk_span(a: int, b: int) -> Span {
    Span { start: a as usize, end: b as usize }
}

pub open spec fn ident_expr(a: int, b: int) -> Expr {
    Expr::Identifier(Box::new(Identifier { span: mk_span(a, b) }))
}

pub open spec fn unary_expr(e: Expr, a: int, b: int) -> Expr {
    Expr::UnaryExpr(Box::new(UnaryExpr { expr: Box::new(e), span: mk_span(a, b) }))
}

/// An infix node spans from the start of its left operand to the end of its right one.
pub open spec fn binary_expr(l: Expr, r: Expr) -> Expr {
    Expr::BinaryExpr(
        Box::new(
            BinaryExpr {
                lhs: Box::new(l),
                rhs: Box::new(r),
                span: Span { start: l.spec_span().start, end: r.spec_span().end },
            },
        ),
    )
}

/// An infix operator at `i`: its precedence tier and its end.
///
/// `&& ||` form the loosest tier, then comparisons, then `+ -`, then `* /`.
pub open spec fn infix_op(s: Seq<u8>, i: int) -> Option<(int, int)> {
    if at2(s, i, 38, 38) || at2(s, i, 124, 124) {
        Some((0, i + 2))
    } else if at2(s, i, 61, 61) || at2(s, i, 33, 61) || at2(s, i, 60, 61) || at2(s, i, 62, 61) {
        Some((1, i + 2))
    } else if at1(s, i, 60) || at1(s, i, 62) {
        Some((1, i + 1))
    } else if at1(s, i, 43) || at1(s, i, 45) {
        Some((2, i + 1))
    } else if at1(s, i, 42) || at1(s, i, 47) {
        Some((3, i + 1))
    } else {
        None
    }
}

/// `++` or `--` at `i`.
pub open spec fn incdec(s: Seq<u8>, i: int) -> bool {
    at2(s, i, 43, 43) || at2(s, i, 45, 45)
}

/// A prefix `!`, `-` or `+` at `i` that does not start `++` or `--`.
pub open spec fn prefix_op(s: Seq<u8>, i: int) -> bool {
    (at1(s, i, 33) || at1(s, i, 45) || at1(s, i, 43)) && !incdec(s, i)
}

/// Postfix `++`/`--` after the variable expression `e`, which ends at `end`.
pub open spec fn postfix(s: Seq<u8>, e: Expr, end: int) -> (Expr, int)
    decreases s.len() - end,
{
    let j = next(s, end);
    if incdec(s, j) && end <= j {
        postfix(s, unary_expr(e, e.spec_span().start as int, j + 2), j + 2)
    } else {
        (e, end)
    }
}

/// A variable with its prefix and postfix increments; prefix binds looser than postfix.
pub open spec fn var_expr(s: Seq<u8>, i: int) -> Option<(Expr, int)>
    decreases s.len() - i, 1int,
{
    if incdec(s, i) {
        let k = next(s, i + 2);
        match var_expr(s, k) {
            Some((e, end)) => Some((unary_expr(e, i, e.spec_span().end as int), end)),
            None => None,
        }
    } else {
        match variable_token(s, i) {
            Some(e) => if i < e <= s.len() {
                Some(postfix(s, ident_expr(i, e), e))
            } else {
                None
            },
            None => None,
        }
    }
}

/// The arguments of a call from `j`, the first one's start, through the closing `)`.
pub open spec fn call_args(s: Seq<u8>, j: int) -> Option<(NodeList<Expr>, int)>
    decreases s.len() - j, 6int,
{
    match expr(s, j) {
        Some((a, e)) => if j < e <= s.len() {
            let k = next(s, e);
            if at1(s, k, 44) {
                match call_args(s, next(s, k + 1)) {
                    Some((rest, e2)) => Some((NodeList::Cons(a, Box::new(rest)), e2)),
                    None => None,
                }
            } else if at1(s, k, 41) {
                Some((NodeList::Cons(a, Box::new(NodeList::Nil)), k + 1))
            } else {
                None
            }
        } else {
            None
        },
        None => None,
    }
}

pub open spec fn call_expr(f: int, fe: int, args: NodeList<Expr>, end: int) -> Expr {
    Expr::Call(Box::new(Call { func: Identifier { span: mk_span(f, fe) }, args, span: mk_span(f, end) }))
}

/// A literal, a variable expression, a call, a bare identifier or a parenthesized expression.
pub open spec fn primary(s: Seq<u8>, i: int) -> Option<(Expr, int)>
    decreases s.len() - i, 2int,
{
    if at1(s, i, 40) {
        let k = next(s, i + 1);
        match expr(s, k) {
            Some((e, end)) => if k < end <= s.len() && at1(s, next(s, end), 41) {
                Some((e, next(s, end) + 1))
            } else {
                None
            },
            None => None,
        }
    } else if at1(s, i, 34) {
        match string_token(s, i) {
            Some(e) => Some((Expr::String(Box::new(StringLiteral { span: mk_span(i, e) })), e)),
            None => None,
        }
    } else if 0 <= i < s.len() && is_digit(s[i]) {
        match number_token(s, i) {
            Some((v, e)) => Some(
                (Expr::Integer(Box::new(IntegerLiteral { value: v, span: mk_span(i, e) })), e),
            ),
            None => None,
        }
    } else if incdec(s, i) || (0 <= i < s.len() && is_sigil(s[i])) {
        var_expr(s, i)
    } else {
        match ident_token(s, i) {
            Some(e) => {
                let k = next(s, e);
                if at1(s, k, 40) && i < e <= k {
                    let a = next(s, k + 1);
                    if at1(s, a, 41) {
                        Some((call_expr(i, e, NodeList::Nil, a + 1), a + 1))
                    } else {
                        match call_args(s, a) {
                            Some((args, e2)) => Some((call_expr(i, e, args, e2), e2)),
                            None => None,
                        }
                    }
                } else {
                    Some((ident_expr(i, e), e))
                }
            },
            None => None,
        }
    }
}

/// A primary under any number of prefix operators, which bind tighter than every infix one.
pub open spec fn unary(s: Seq<u8>, i: int) -> Option<(Expr, int)>
    decreases s.len() - i, 3int,
{
    if prefix_op(s, i) {
        match unary(s, next(s, i + 1)) {
            Some((e, end)) => Some((unary_expr(e, i, e.spec_span().end as int), end)),
            None => None,
        }
    } else {
        primary(s, i)
    }
}

/// An operand followed by infix operators of tier `min` or tighter.
pub open spec fn binary(s: Seq<u8>, i: int, min: int) -> Option<(Expr, int)>
    decreases s.len() - i, 4int,
{
    match unary(s, i) {
        Some((l, e)) => if i < e <= s.len() {
            Some(climb(s, l, e, min))
        } else {
            None
        },
        None => None,
    }
}

/// Extends `lhs`, which ends at `end`, by infix operators of tier `min` or tighter,
/// each left-associative. An operator whose right operand does not parse is left out.
pub open spec fn climb(s: Seq<u8>, lhs: Expr, end: int, min: int) -> (Expr, int)
    decreases s.len() - end, 4int,
{
    let j = next(s, end);
    match infix_op(s, j) {
        Some((tier, k)) => if tier >= min && end <= j && k <= s.len() {
            match binary(s, next(s, k), tier + 1) {
                Some((r, e2)) => if end < e2 <= s.len() {
                    climb(s, binary_expr(lhs, r), e2, min)
                } else {
                    (lhs, end)
                },
                None => (lhs, end),
            }
        } else {
            (lhs, end)
        },
        None => (lhs, end),
    }
}

/// An expression starting at `i`: its tree and its end.
pub open spec fn expr(s: Seq<u8>, i: int) -> Option<(Expr, int)>
    decreases s.len() - i, 5int,
{
    binary(s, i, 0)
}

pub fn next_pos(s: &[u8], i: usize) -> (r: usize)
    requires
        i <= s@.len(),
    ensures
        r == next(s@, i as int),
        i <= r <= s@.len(),
{
    skip(s, i)
}

fn parse_infix_op(s: &[u8], i: usize) -> (r: Option<(usize, usize)>)
    requires
        i <= s@.len(),
    ensures
        match r {
            Some((t, k)) => infix_op(s@, i as int) == Some((t as int, k as int)) && t <= 3 && i < k
                <= s@.len(),
            None => infix_op(s@, i as int) is None,
        },
{
    proof {
        lemma_len_fits(s);
    }
    if byte_at2(s, i, 38, 38) || byte_at2(s, i, 124, 124) {
        Some((0, i + 2))
    } else if byte_at2(s, i, 61, 61) || byte_at2(s, i, 33, 61) || byte_at2(s, i, 60, 61)
        || byte_at2(s, i, 62, 61) {
        Some((1, i + 2))
    } else if byte_at(s, i, 60) || byte_at(s, i, 62) {
        Some((1, i + 1))
    } else if byte_at(s, i, 43) || byte_at(s, i, 45) {
        Some((2, i + 1))
    } else if byte_at(s, i, 42) || byte_at(s, i, 47) {
        Some((3, i + 1))
    } else {
        None
    }
}

fn at_incdec(s: &[u8], i: usize) -> (r: bool)
    ensures
        r == incdec(s@, i as int),
{
    byte_at2(s, i, 43, 43) || byte_at2(s, i, 45, 45)
}

fn parse_postfix(s: &[u8], e: Expr, end: usize) -> (r: (Expr, usize))
    requires
        end <= s@.len(),
    ensures
        (r.0, r.1 as int) == postfix(s@, e, end as int),
        end <= r.1 <= s@.len(),
    decreases s@.len() - end,
{
    proof {
        lemma_len_fits(s);
    }
    let j = next_pos(s, end);
    if at_incdec(s, j) {
        let start = e.span().start;
        let u = Expr::UnaryExpr(Box::new(UnaryExpr { expr: Box::new(e), span: Span { start, end: j + 2 } }));
        parse_postfix(s, u, j + 2)
    } else {
        (e, end)
    }
}

fn parse_var_expr(s: &[u8], i: usize) -> (r: Option<(Expr, usize)>)
    requires
        i <= s@.len(),
    ensures
        lift(r) == var_expr(s@, i as int),
        r matches Some((_, e)) ==> i < e <= s@.len(),
    decreases s@.len() - i, 1int,
{
    proof {
        lemma_len_fits(s);
    }
    if at_incdec(s, i) {
        let k = next_pos(s, i + 2);
        match parse_var_expr(s, k) {
            Some((e, end)) => {
                let e_end = e.span().end;
                Some((Expr::UnaryExpr(Box::new(UnaryExpr { expr: Box::new(e), span: Span { start: i, end: e_end } })), end))
            },
            None => None,
        }
    } else {
        match lex_variable(s, i) {
            Some(e) => {
                let id = Expr::Identifier(Box::new(Identifier { span: Span { start: i, end: e } }));
                Some(parse_postfix(s, id, e))
            },
            None => None,
        }
    }
}

fn parse_call_args(s: &[u8], j: usize) -> (r: Option<(NodeList<Expr>, usize)>)
    requires
        j <= s@.len(),
    ensures
        lift(r) == call_args(s@, j as int),
        r matches Some((_, e)) ==> j < e <= s@.len(),
    decreases s@.len() - j, 6int,
{
    proof {
        lemma_len_fits(s);
    }
    match parse_expr(s, j) {
        Some((a, e)) => {
            let k = next_pos(s, e);
            if byte_at(s, k, 44) {
                let n = next_pos(s, k + 1);
                match parse_call_args(s, n) {
                    Some((rest, e2)) => Some((NodeList::Cons(a, Box::new(rest)), e2)),
                    None => None,
                }
            } else if byte_at(s, k, 41) {
                Some((NodeList::Cons(a, Box::new(NodeList::Nil)), k + 1))
            } else {
                None
            }
        },
        None => None,
    }
}

fn parse_primary(s: &[u8], i: usize) -> (r: Option<(Expr, usize)>)
    requires
        i <= s@.len(),
    ensures
        lift(r) == primary(s@, i as int),
        r matches Some((_, e)) ==> i < e <= s@.len(),
    decreases s@.len() - i, 2int,
{
    proof {
        lemma_len_fits(s);
    }
    if byte_at(s, i, 40) {
        let k = next_pos(s, i + 1);
        match parse_expr(s, k) {
            Some((e, end)) => {
                let c = next_pos(s, end);
                if byte_at(s, c, 41) {
                    Some((e, c + 1))
                } else {
                    None
                }
            },
            None => None,
        }
    } else if byte_at(s, i, 34) {
        match lex_string(s, i) {
            Some(e) => Some((Expr::String(Box::new(StringLiteral { span: Span { start: i, end: e } })), e)),
            None => None,
        }
    } else if i < s.len() && digit(s[i]) {
        match lex_number(s, i) {
            Some((v, e)) => Some(
                (Expr::Integer(Box::new(IntegerLiteral { value: v, span: Span { start: i, end: e } })), e),
            ),
            None => None,
        }
    } else if at_incdec(s, i) || (i < s.len() && (s[i] == 36 || s[i] == 64)) {
        parse_var_expr(s, i)
    } else {
        match lex_ident(s, i) {
            Some(e) => {
                let k = next_pos(s, e);
                if byte_at(s, k, 40) {
                    let a = next_pos(s, k + 1);
                    let func = Identifier { span: Span { start: i, end: e } };
                    if byte_at(s, a, 41) {
                        let call = Call { func, args: NodeList::Nil, span: Span { start: i, end: a + 1 } };
                        Some((Expr::Call(Box::new(call)), a + 1))
                    } else {
                        match parse_call_args(s, a) {
                            Some((args, e2)) => {
                                let call = Call { func, args, span: Span { start: i, end: e2 } };
                                Some((Expr::Call(Box::new(call)), e2))
                            },
                            None => None,
                        }
                    }
                } else {
                    Some((Expr::Identifier(Box::new(Identifier { span: Span { start: i, end: e } })), e))
                }
            },
            None => None,
        }
    }
}

fn parse_unary(s: &[u8], i: usize) -> (r: Option<(Expr, usize)>)
    requires
        i <= s@.len(),
    ensures
        lift(r) == unary(s@, i as int),
        r matches Some((_, e)) ==> i < e <= s@.len(),
    decreases s@.len() - i, 3int,
{
    proof {
        lemma_len_fits(s);
    }
    if (byte_at(s, i, 33) || byte_at(s, i, 45) || byte_at(s, i, 43)) && !at_incdec(s, i) {
        match parse_unary(s, next_pos(s, i + 1)) {
            Some((e, end)) => {
                let e_end = e.span().end;
                Some((Expr::UnaryExpr(Box::new(UnaryExpr { expr: Box::new(e), span: Span { start: i, end: e_end } })), end))
            },
            None => None,
        }
    } else {
        parse_primary(s, i)
    }
}

fn parse_binary(s: &[u8], i: usize, min: usize) -> (r: Option<(Expr, usize)>)
    requires
        i <= s@.len(),
        min <= 4,
    ensures
        lift(r) == binary(s@, i as int, min as int),
        r matches Some((_, e)) ==> i < e <= s@.len(),
    decreases s@.len() - i, 4int,
{
    match parse_unary(s, i) {
        Some((l, e)) => Some(parse_climb(s, l, e, min)),
        None => None,
    }
}

fn parse_climb(s: &[u8], lhs: Expr, end: usize, min: usize) -> (r: (Expr, usize))
    requires
        end <= s@.len(),
        min <= 4,
    ensures
        (r.0, r.1 as int) == climb(s@, lhs, end as int, min as int),
        end <= r.1 <= s@.len(),
    decreases s@.len() - end, 4int,
{
    let j = next_pos(s, end);
    match parse_infix_op(s, j) {
        Some((tier, k)) => {
            if tier >= min {
                match parse_binary(s, next_pos(s, k), tier + 1) {
                    Some((r, e2)) => {
                        let span = Span { start: lhs.span().start, end: r.span().end };
                        let b = Expr::BinaryExpr(Box::new(BinaryExpr { lhs: Box::new(lhs), rhs: Box::new(r), span }));
                        parse_climb(s, b, e2, min)
                    },
                    None => (lhs, end),
                }
            } else {
                (lhs, end)
            }
        },
        None => (lhs, end),
    }
}

/// Parses the expression that starts at `i`.
pub fn parse_expr(s: &[u8], i: usize) -> (r: Option<(Expr, usize)>)
    requires
        i <= s@.len(),
    ensures
        lift(r) == expr(s@, i as int),
        r matches Some((_, e)) ==> i < e <= s@.len(),
    decreases s@.len() - i, 5int,
{
    parse_binary(s, i, 0)
}

} // verus!
