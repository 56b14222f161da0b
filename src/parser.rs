//! Statements, blocks, probes and whole programs, with error recovery: text that no
//! rule matches becomes an error node in the place where a statement or a probe
//! would have stood, and parsing goes on after it.
use crate::expr_parser::{expr, lift, mk_span, next, next_pos, parse_expr};
use crate::lexer::{
    at1, at2, attach_token, byte_at, byte_at2, error_end, ident_token, lemma_len_fits, lex_attach,
    lex_error, lex_ident, lex_variable, variable_token,
};
use crate::syntax::{
    AssignOp, Assignment, Block, ErrorPreamble, ErrorStatement, Expr, For, Identifier, If, Loop,
    Lvalue, NodeList, Preamble, Probe, Program, Span, Statement, UnknownPreamble,
    UnknownStatement, UnmatchedBrace, While,
};
use vstd::prelude::*;
use vstd::string::StringSliceAdditionalSpecFns;

verus! {

/// The parser never gives up on its input; this error is kept for callers that treat
/// parsing as fallible.
#[derive(Debug, Clone, Copy, PartialEq, Eq, Structural)]
pub enum ParseError {
    NoProgress,
}

/// The keyword `if` at `i`, not followed by further identifier bytes.
pub open spec fn if_kw(s: Seq<u8>, i: int) -> bool {
    at2(s, i, 105, 102) && ident_token(s, i) == Some(i + 2)
}

/// The keyword `while` at `i`.
pub open spec fn while_kw(s: Seq<u8>, i: int) -> bool {
    at2(s, i, 119, 104) && at2(s, i + 2, 105, 108) && at1(s, i + 4, 101) && ident_token(s, i)
        == Some(i + 5)
}

/// The keyword `for` at `i`.
pub open spec fn for_kw(s: Seq<u8>, i: int) -> bool {
    at2(s, i, 102, 111) && at1(s, i + 2, 114) && ident_token(s, i) == Some(i + 3)
}

/// A simple statement ending at `e` must be followed by `;` or by the `}` of its block.
pub open spec fn terminated(s: Seq<u8>, e: int) -> bool {
    at1(s, next(s, e), 59) || at1(s, next(s, e), 125)
}

/// `=`, `+=` or `-=` at `k`.
pub open spec fn assign_op(s: Seq<u8>, k: int) -> Option<(AssignOp, int)> {
    if at2(s, k, 43, 61) {
        Some((AssignOp::AddAssign, k + 2))
    } else if at2(s, k, 45, 61) {
        Some((AssignOp::SubAssign, k + 2))
    } else if at1(s, k, 61) && !at2(s, k, 61, 61) {
        Some((AssignOp::Assign, k + 1))
    } else {
        None
    }
}

/// `$x = e`, `$x += e` or `$x -= e`: spans from the variable to the end of `e`.
pub open spec fn assignment(s: Seq<u8>, i: int) -> Option<(Assignment, int)> {
    match variable_token(s, i) {
        Some(ve) => match assign_op(s, next(s, ve)) {
            Some((op, ke)) => match expr(s, next(s, ke)) {
                Some((rv, re)) => Some(
                    (
                        Assignment {
                            lvalue: Lvalue::Identifier(Box::new(Identifier { span: mk_span(i, ve) })),
                            op,
                            rvalue: Box::new(rv),
                            span: mk_span(i, re),
                        },
                        re,
                    ),
                ),
                None => None,
            },
            None => None,
        },
        None => None,
    }
}

/// An assignment or an expression, followed by its terminator.
pub open spec fn simple_stmt(s: Seq<u8>, i: int) -> Option<(Statement, int)> {
    match assignment(s, i) {
        Some((a, e)) => if terminated(s, e) {
            Some((Statement::Assignment(Box::new(a)), e))
        } else {
            None
        },
        None => match expr(s, i) {
            Some((x, e)) => if terminated(s, e) {
                Some((Statement::Expr(Box::new(x)), e))
            } else {
                None
            },
            None => None,
        },
    }
}

/// `( condition ) { ... }` from the `(` at `i`.
pub open spec fn cond_block(s: Seq<u8>, i: int) -> Option<(Expr, Block, int)>
    decreases s.len() - i, 1int,
{
    if at1(s, i, 40) {
        let k = next(s, i + 1);
        match expr(s, k) {
            Some((c, e)) => if k < e <= s.len() && at1(s, next(s, e), 41) {
                match block(s, next(s, next(s, e) + 1)) {
                    Some((b, be)) => Some((c, b, be)),
                    None => None,
                }
            } else {
                None
            },
            None => None,
        }
    } else {
        None
    }
}

/// `for ( lhs : rhs ) { ... }` from the `(` at `k`.
pub open spec fn for_parts(s: Seq<u8>, k: int) -> Option<(Expr, Expr, Block, int)>
    decreases s.len() - k, 1int,
{
    if at1(s, k, 40) {
        let a = next(s, k + 1);
        match expr(s, a) {
            Some((l, le)) => if a < le <= s.len() && at1(s, next(s, le), 58) {
                let b0 = next(s, next(s, le) + 1);
                match expr(s, b0) {
                    Some((r, re)) => if b0 < re <= s.len() && at1(s, next(s, re), 41) {
                        match block(s, next(s, next(s, re) + 1)) {
                            Some((b, be)) => Some((l, r, b, be)),
                            None => None,
                        }
                    } else {
                        None
                    },
                    None => None,
                }
            } else {
                None
            },
            None => None,
        }
    } else {
        None
    }
}

/// One statement starting at `i`.
pub open spec fn stmt(s: Seq<u8>, i: int) -> Option<(Statement, int)>
    decreases s.len() - i, 2int,
{
    if if_kw(s, i) {
        match cond_block(s, next(s, i + 2)) {
            Some((c, b, e)) => Some(
                (
                    Statement::IfCond(
                        Box::new(If { condition: Box::new(c), block: b, span: mk_span(i, e) }),
                    ),
                    e,
                ),
            ),
            None => None,
        }
    } else if while_kw(s, i) {
        match cond_block(s, next(s, i + 5)) {
            Some((c, b, e)) => Some(
                (
                    Statement::Loop(
                        Box::new(
                            Loop::While(
                                Box::new(
                                    While { condition: Box::new(c), block: b, span: mk_span(i, e) },
                                ),
                            ),
                        ),
                    ),
                    e,
                ),
            ),
            None => None,
        }
    } else if for_kw(s, i) {
        match for_parts(s, next(s, i + 3)) {
            Some((l, r, b, e)) => Some(
                (
                    Statement::Loop(
                        Box::new(
                            Loop::For(
                                Box::new(
                                    For {
                                        lhs: Box::new(l),
                                        rhs: Box::new(r),
                                        block: b,
                                        span: mk_span(i, e),
                                    },
                                ),
                            ),
                        ),
                    ),
                    e,
                ),
            ),
            None => None,
        }
    } else {
        simple_stmt(s, i)
    }
}

pub open spec fn unknown_stmt(a: int, b: int) -> Statement {
    Statement::Error(
        Box::new(ErrorStatement::UnknownStatement(Box::new(UnknownStatement { span: mk_span(a, b) }))),
    )
}

/// A block from its `{` at `i` through the matching `}`.
pub open spec fn block(s: Seq<u8>, i: int) -> Option<(Block, int)>
    decreases s.len() - i, 0int,
{
    if at1(s, i, 123) {
        match items(s, next(s, i + 1)) {
            Some((l, e)) => Some((Block { statements: l, span: mk_span(i, e) }, e)),
            None => None,
        }
    } else {
        None
    }
}

/// The statements of a block from `j` through its closing `}`. Stray `;` are skipped;
/// text that is no statement becomes an unknown-statement node.
pub open spec fn items(s: Seq<u8>, j: int) -> Option<(NodeList<Statement>, int)>
    decreases s.len() - j, 3int,
{
    if !(0 <= j < s.len()) {
        None
    } else if s[j] == 125 {
        Some((NodeList::Nil, j + 1))
    } else if s[j] == 59 {
        items(s, next(s, j + 1))
    } else {
        match stmt(s, j) {
            Some((st, e)) => if j < e <= s.len() {
                match items(s, next(s, e)) {
                    Some((rest, e2)) => Some((NodeList::Cons(st, Box::new(rest)), e2)),
                    None => None,
                }
            } else {
                None
            },
            None => {
                let e = error_end(s, j);
                if j < e <= s.len() {
                    match items(s, next(s, e)) {
                        Some((rest, e2)) => Some(
                            (NodeList::Cons(unknown_stmt(j, e), Box::new(rest)), e2),
                        ),
                        None => None,
                    }
                } else {
                    None
                }
            },
        }
    }
}

/// A comma-separated list of attach points from `i`.
pub open spec fn attach_points(s: Seq<u8>, i: int) -> Option<(NodeList<Span>, int)>
    decreases s.len() - i,
{
    match attach_token(s, i) {
        Some(e) => if i < e <= s.len() {
            if at1(s, next(s, e), 44) {
                match attach_points(s, next(s, next(s, e) + 1)) {
                    Some((rest, e2)) => Some((NodeList::Cons(mk_span(i, e), Box::new(rest)), e2)),
                    None => None,
                }
            } else {
                Some((NodeList::Cons(mk_span(i, e), Box::new(NodeList::Nil)), e))
            }
        } else {
            None
        },
        None => None,
    }
}

/// Attach points, an optional `/ predicate /`, and a block.
pub open spec fn probe(s: Seq<u8>, i: int) -> Option<(Probe, int)> {
    match attach_points(s, i) {
        Some((aps, e)) => {
            let k = next(s, e);
            if at1(s, k, 47) {
                match expr(s, next(s, k + 1)) {
                    Some((c, ce)) => if at1(s, next(s, ce), 47) {
                        match block(s, next(s, next(s, ce) + 1)) {
                            Some((b, be)) => Some(
                                (
                                    Probe {
                                        attach_points: aps,
                                        condition: Some(c),
                                        block: b,
                                        span: mk_span(i, be),
                                    },
                                    be,
                                ),
                            ),
                            None => None,
                        }
                    } else {
                        None
                    },
                    None => None,
                }
            } else {
                match block(s, k) {
                    Some((b, be)) => Some(
                        (
                            Probe { attach_points: aps, condition: None, block: b, span: mk_span(i, be) },
                            be,
                        ),
                    ),
                    None => None,
                }
            }
        },
        None => None,
    }
}

pub open spec fn unmatched_brace(a: int) -> Preamble {
    Preamble::Error(
        Box::new(ErrorPreamble::UnmatchedBrace(Box::new(UnmatchedBrace { span: mk_span(a, a + 1) }))),
    )
}

pub open spec fn unknown_preamble(a: int, b: int) -> Preamble {
    Preamble::Error(
        Box::new(ErrorPreamble::UnknownPreamble(Box::new(UnknownPreamble { span: mk_span(a, b) }))),
    )
}

/// The top-level units from `i` to the end of the input: probes, stray `}`, and runs
/// of text that are no probe.
pub open spec fn preambles(s: Seq<u8>, i: int) -> NodeList<Preamble>
    decreases s.len() - i,
{
    if !(0 <= i < s.len()) {
        NodeList::Nil
    } else if s[i] == 125 {
        NodeList::Cons(unmatched_brace(i), Box::new(preambles(s, next(s, i + 1))))
    } else {
        match probe(s, i) {
            Some((p, e)) => if i < e <= s.len() {
                NodeList::Cons(Preamble::Probe(p), Box::new(preambles(s, next(s, e))))
            } else {
                NodeList::Nil
            },
            None => {
                let e = error_end(s, i);
                if i < e <= s.len() {
                    NodeList::Cons(unknown_preamble(i, e), Box::new(preambles(s, next(s, e))))
                } else {
                    NodeList::Nil
                }
            },
        }
    }
}

/// The tree of a whole document.
pub open spec fn program(s: Seq<u8>) -> Program {
    Program { preambles: preambles(s, next(s, 0)), span: mk_span(0, s.len() as int) }
}

fn is_if_kw(s: &[u8], i: usize) -> (r: bool)
    requires
        i <= s@.len(),
    ensures
        r == if_kw(s@, i as int),
{
    proof {
        lemma_len_fits(s);
    }
    byte_at2(s, i, 105, 102) && lex_ident(s, i) == Some(i + 2)
}

fn is_while_kw(s: &[u8], i: usize) -> (r: bool)
    requires
        i <= s@.len(),
    ensures
        r == while_kw(s@, i as int),
{
    proof {
        lemma_len_fits(s);
    }
    byte_at2(s, i, 119, 104) && byte_at2(s, i + 2, 105, 108) && byte_at(s, i + 4, 101) && lex_ident(
        s,
        i,
    ) == Some(i + 5)
}

fn is_for_kw(s: &[u8], i: usize) -> (r: bool)
    requires
        i <= s@.len(),
    ensures
        r == for_kw(s@, i as int),
{
    proof {
        lemma_len_fits(s);
    }
    byte_at2(s, i, 102, 111) && byte_at(s, i + 2, 114) && lex_ident(s, i) == Some(i + 3)
}

fn is_terminated(s: &[u8], e: usize) -> (r: bool)
    requires
        e <= s@.len(),
    ensures
        r == terminated(s@, e as int),
{
    let j = next_pos(s, e);
    byte_at(s, j, 59) || byte_at(s, j, 125)
}

fn parse_assign_op(s: &[u8], k: usize) -> (r: Option<(AssignOp, usize)>)
    requires
        k <= s@.len(),
    ensures
        lift(r) == assign_op(s@, k as int),
        r matches Some((_, e)) ==> k < e <= s@.len(),
{
    proof {
        lemma_len_fits(s);
    }
    if byte_at2(s, k, 43, 61) {
        Some((AssignOp::AddAssign, k + 2))
    } else if byte_at2(s, k, 45, 61) {
        Some((AssignOp::SubAssign, k + 2))
    } else if byte_at(s, k, 61) && !byte_at2(s, k, 61, 61) {
        Some((AssignOp::Assign, k + 1))
    } else {
        None
    }
}

fn parse_assignment(s: &[u8], i: usize) -> (r: Option<(Assignment, usize)>)
    requires
        i <= s@.len(),
    ensures
        lift(r) == assignment(s@, i as int),
        r matches Some((_, e)) ==> i < e <= s@.len(),
{
    match lex_variable(s, i) {
        Some(ve) => match parse_assign_op(s, next_pos(s, ve)) {
            Some((op, ke)) => match parse_expr(s, next_pos(s, ke)) {
                Some((rv, re)) => {
                    let lvalue = Lvalue::Identifier(Box::new(Identifier { span: Span { start: i, end: ve } }));
                    Some((Assignment { lvalue, op, rvalue: Box::new(rv), span: Span { start: i, end: re } }, re))
                },
                None => None,
            },
            None => None,
        },
        None => None,
    }
}

fn parse_simple_stmt(s: &[u8], i: usize) -> (r: Option<(Statement, usize)>)
    requires
        i <= s@.len(),
    ensures
        lift(r) == simple_stmt(s@, i as int),
        r matches Some((_, e)) ==> i < e <= s@.len(),
{
    match parse_assignment(s, i) {
        Some((a, e)) => if is_terminated(s, e) {
            Some((Statement::Assignment(Box::new(a)), e))
        } else {
            None
        },
        None => match parse_expr(s, i) {
            Some((x, e)) => if is_terminated(s, e) {
                Some((Statement::Expr(Box::new(x)), e))
            } else {
                None
            },
            None => None,
        },
    }
}

fn parse_cond_block(s: &[u8], i: usize) -> (r: Option<(Expr, Block, usize)>)
    requires
        i <= s@.len(),
    ensures
        match r {
            Some((c, b, e)) => cond_block(s@, i as int) == Some((c, b, e as int)) && i < e
                <= s@.len(),
            None => cond_block(s@, i as int) is None,
        },
    decreases s@.len() - i, 1int,
{
    proof {
        lemma_len_fits(s);
    }
    if byte_at(s, i, 40) {
        let k = next_pos(s, i + 1);
        match parse_expr(s, k) {
            Some((c, e)) => {
                let p = next_pos(s, e);
                if byte_at(s, p, 41) {
                    match parse_block(s, next_pos(s, p + 1)) {
                        Some((b, be)) => Some((c, b, be)),
                        None => None,
                    }
                } else {
                    None
                }
            },
            None => None,
        }
    } else {
        None
    }
}

fn parse_for_parts(s: &[u8], k: usize) -> (r: Option<(Expr, Expr, Block, usize)>)
    requires
        k <= s@.len(),
    ensures
        match r {
            Some((l, x, b, e)) => for_parts(s@, k as int) == Some((l, x, b, e as int)) && k < e
                <= s@.len(),
            None => for_parts(s@, k as int) is None,
        },
    decreases s@.len() - k, 1int,
{
    proof {
        lemma_len_fits(s);
    }
    if !byte_at(s, k, 40) {
        return None;
    }
    let a = next_pos(s, k + 1);
    let (l, le) = match parse_expr(s, a) {
        Some(x) => x,
        None => {
            return None;
        },
    };
    let c = next_pos(s, le);
    if !byte_at(s, c, 58) {
        return None;
    }
    let b0 = next_pos(s, c + 1);
    let (x, re) = match parse_expr(s, b0) {
        Some(x) => x,
        None => {
            return None;
        },
    };
    let p = next_pos(s, re);
    if !byte_at(s, p, 41) {
        return None;
    }
    match parse_block(s, next_pos(s, p + 1)) {
        Some((b, be)) => Some((l, x, b, be)),
        None => None,
    }
}

fn parse_stmt(s: &[u8], i: usize) -> (r: Option<(Statement, usize)>)
    requires
        i <= s@.len(),
    ensures
        lift(r) == stmt(s@, i as int),
        r matches Some((_, e)) ==> i < e <= s@.len(),
    decreases s@.len() - i, 2int,
{
    proof {
        lemma_len_fits(s);
    }
    if is_if_kw(s, i) {
        match parse_cond_block(s, next_pos(s, i + 2)) {
            Some((c, b, e)) => Some(
                (Statement::IfCond(Box::new(If { condition: Box::new(c), block: b, span: Span { start: i, end: e } })), e),
            ),
            None => None,
        }
    } else if is_while_kw(s, i) {
        match parse_cond_block(s, next_pos(s, i + 5)) {
            Some((c, b, e)) => {
                let w = While { condition: Box::new(c), block: b, span: Span { start: i, end: e } };
                Some((Statement::Loop(Box::new(Loop::While(Box::new(w)))), e))
            },
            None => None,
        }
    } else if is_for_kw(s, i) {
        match parse_for_parts(s, next_pos(s, i + 3)) {
            Some((l, x, b, e)) => {
                let f = For { lhs: Box::new(l), rhs: Box::new(x), block: b, span: Span { start: i, end: e } };
                Some((Statement::Loop(Box::new(Loop::For(Box::new(f)))), e))
            },
            None => None,
        }
    } else {
        parse_simple_stmt(s, i)
    }
}

fn parse_block(s: &[u8], i: usize) -> (r: Option<(Block, usize)>)
    requires
        i <= s@.len(),
    ensures
        lift(r) == block(s@, i as int),
        r matches Some((_, e)) ==> i < e <= s@.len(),
    decreases s@.len() - i, 0int,
{
    proof {
        lemma_len_fits(s);
    }
    if byte_at(s, i, 123) {
        match parse_items(s, next_pos(s, i + 1)) {
            Some((l, e)) => Some((Block { statements: l, span: Span { start: i, end: e } }, e)),
            None => None,
        }
    } else {
        None
    }
}

fn parse_items(s: &[u8], j: usize) -> (r: Option<(NodeList<Statement>, usize)>)
    requires
        j <= s@.len(),
    ensures
        lift(r) == items(s@, j as int),
        r matches Some((_, e)) ==> j < e <= s@.len(),
    decreases s@.len() - j, 3int,
{
    proof {
        lemma_len_fits(s);
    }
    if j >= s.len() {
        None
    } else if s[j] == 125 {
        Some((NodeList::Nil, j + 1))
    } else if s[j] == 59 {
        parse_items(s, next_pos(s, j + 1))
    } else {
        match parse_stmt(s, j) {
            Some((st, e)) => match parse_items(s, next_pos(s, e)) {
                Some((rest, e2)) => Some((NodeList::Cons(st, Box::new(rest)), e2)),
                None => None,
            },
            None => {
                let e = lex_error(s, j);
                match parse_items(s, next_pos(s, e)) {
                    Some((rest, e2)) => {
                        let u = UnknownStatement { span: Span { start: j, end: e } };
                        let st = Statement::Error(Box::new(ErrorStatement::UnknownStatement(Box::new(u))));
                        Some((NodeList::Cons(st, Box::new(rest)), e2))
                    },
                    None => None,
                }
            },
        }
    }
}

fn parse_attach_points(s: &[u8], i: usize) -> (r: Option<(NodeList<Span>, usize)>)
    requires
        i <= s@.len(),
    ensures
        lift(r) == attach_points(s@, i as int),
        r matches Some((_, e)) ==> i < e <= s@.len(),
    decreases s@.len() - i,
{
    proof {
        lemma_len_fits(s);
    }
    match lex_attach(s, i) {
        Some(e) => {
            let k = next_pos(s, e);
            if byte_at(s, k, 44) {
                match parse_attach_points(s, next_pos(s, k + 1)) {
                    Some((rest, e2)) => Some((NodeList::Cons(Span { start: i, end: e }, Box::new(rest)), e2)),
                    None => None,
                }
            } else {
                Some((NodeList::Cons(Span { start: i, end: e }, Box::new(NodeList::Nil)), e))
            }
        },
        None => None,
    }
}

fn parse_probe(s: &[u8], i: usize) -> (r: Option<(Probe, usize)>)
    requires
        i <= s@.len(),
    ensures
        lift(r) == probe(s@, i as int),
        r matches Some((_, e)) ==> i < e <= s@.len(),
{
    proof {
        lemma_len_fits(s);
    }
    let (aps, e) = match parse_attach_points(s, i) {
        Some(x) => x,
        None => {
            return None;
        },
    };
    let k = next_pos(s, e);
    if byte_at(s, k, 47) {
        let (c, ce) = match parse_expr(s, next_pos(s, k + 1)) {
            Some(x) => x,
            None => {
                return None;
            },
        };
        let p = next_pos(s, ce);
        if !byte_at(s, p, 47) {
            return None;
        }
        match parse_block(s, next_pos(s, p + 1)) {
            Some((b, be)) => Some(
                (Probe { attach_points: aps, condition: Some(c), block: b, span: Span { start: i, end: be } }, be),
            ),
            None => None,
        }
    } else {
        match parse_block(s, k) {
            Some((b, be)) => Some(
                (Probe { attach_points: aps, condition: None, block: b, span: Span { start: i, end: be } }, be),
            ),
            None => None,
        }
    }
}

fn parse_preambles(s: &[u8], i: usize) -> (r: NodeList<Preamble>)
    requires
        i <= s@.len(),
    ensures
        r == preambles(s@, i as int),
    decreases s@.len() - i,
{
    proof {
        lemma_len_fits(s);
    }
    if i >= s.len() {
        NodeList::Nil
    } else if s[i] == 125 {
        let rest = parse_preambles(s, next_pos(s, i + 1));
        let u = UnmatchedBrace { span: Span { start: i, end: i + 1 } };
        NodeList::Cons(Preamble::Error(Box::new(ErrorPreamble::UnmatchedBrace(Box::new(u)))), Box::new(rest))
    } else {
        match parse_probe(s, i) {
            Some((p, e)) => NodeList::Cons(Preamble::Probe(p), Box::new(parse_preambles(s, next_pos(s, e)))),
            None => {
                let e = lex_error(s, i);
                let rest = parse_preambles(s, next_pos(s, e));
                let u = UnknownPreamble { span: Span { start: i, end: e } };
                NodeList::Cons(Preamble::Error(Box::new(ErrorPreamble::UnknownPreamble(Box::new(u)))), Box::new(rest))
            },
        }
    }
}

/// Parses the bytes of a document into its tree.
pub fn parse_bytes(s: &[u8]) -> (r: Program)
    ensures
        r == program(s@),
{
    let start = next_pos(s, 0);
    Program { preambles: parse_preambles(s, start), span: Span { start: 0, end: s.len() } }
}

/// Parses a document. Every run of text that matches no rule becomes an error node,
/// and each step consumes input, so the result is always `Ok`.
pub fn parse(input: &str) -> (r: Result<Program, ParseError>)
    ensures
        r == Ok::<Program, ParseError>(program(input.spec_bytes())),
{
    Ok(parse_bytes(input.as_bytes()))
}

} // verus!
