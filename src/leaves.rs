//! The leaves of a parsed program are tokens of the source: each identifier, integer
//! and string node, and each attach point, covers exactly one token of its kind, and
//! the nodes under any node lie in source order, without overlap, inside that node's
//! span. Read in pre-order, the leaves are the source's tokens in order.
use crate::expr_parser::{
    mk_span, binary, binary_expr, call_args, call_expr, climb, expr, ident_expr, incdec, infix_op, next,
    postfix, prefix_op, primary, unary, unary_expr, var_expr,
};
use crate::lexer::{
    at1, ident_token, is_digit, is_sigil, lemma_digits_end_bounds,
    lemma_ident_end_bounds, number_token, string_rest, string_token, variable_token,
};
use crate::parser::{
    assign_op, assignment, attach_points, block, cond_block, for_kw, for_parts, if_kw, items,
    preambles, probe, program, simple_stmt, stmt, unknown_preamble, unknown_stmt, unmatched_brace,
    while_kw,
};
use crate::lexer::{attach_token, error_end, lemma_attach_end_bounds};
use crate::syntax::{
    Assignment, Block, Expr, Loop, Lvalue, NodeList, Preamble, Probe, Span, Statement,
};
use crate::walk::NodeRef;
use vstd::prelude::*;

verus! {

/// Every leaf under `e` is a token of its kind at its place in `s`, and the children of
/// every node lie in order inside the node's span.
pub open spec fn expr_ok(s: Seq<u8>, e: Expr) -> bool
    decreases e,
{
    &&& e.spec_span().start <= e.spec_span().end
    &&& match e {
        Expr::Identifier(id) => ident_token(s, id.span.start as int) == Some(id.span.end as int)
            || variable_token(s, id.span.start as int) == Some(id.span.end as int),
        Expr::Integer(n) => number_token(s, n.span.start as int) == Some((n.value, n.span.end as int)),
        Expr::String(t) => string_token(s, t.span.start as int) == Some(t.span.end as int),
        Expr::Call(c) => {
            &&& ident_token(s, c.func.span.start as int) == Some(c.func.span.end as int)
            &&& c.span.start == c.func.span.start
            &&& args_ok(s, c.args, c.func.span.end as int, c.span.end as int)
        },
        Expr::BinaryExpr(b) => {
            &&& expr_ok(s, *b.lhs)
            &&& expr_ok(s, *b.rhs)
            &&& b.span.start == b.lhs.spec_span().start
            &&& b.lhs.spec_span().end <= b.rhs.spec_span().start
            &&& b.rhs.spec_span().end == b.span.end
        },
        Expr::UnaryExpr(u) => {
            &&& expr_ok(s, *u.expr)
            &&& u.span.start <= u.expr.spec_span().start
            &&& u.expr.spec_span().end <= u.span.end
        },
    }
}

/// The arguments `l` are well formed and lie in order within `lo..hi`.
pub open spec fn args_ok(s: Seq<u8>, l: NodeList<Expr>, lo: int, hi: int) -> bool
    decreases l,
{
    match l {
        NodeList::Nil => lo <= hi,
        NodeList::Cons(h, rest) => {
            &&& expr_ok(s, h)
            &&& lo <= h.spec_span().start
            &&& args_ok(s, *rest, h.spec_span().end as int, hi)
        },
    }
}

/// An expression read from `i` that ends at `end`.
pub open spec fn read_ok(s: Seq<u8>, i: int, r: Option<(Expr, int)>) -> bool {
    r matches Some((e, end)) ==> {
        &&& expr_ok(s, e)
        &&& i <= e.spec_span().start <= e.spec_span().end <= end <= s.len()
        &&& i < end
    }
}

proof fn lemma_args_ok_weaken(s: Seq<u8>, l: NodeList<Expr>, lo: int, lo2: int, hi: int)
    requires
        args_ok(s, l, lo, hi),
        lo2 <= lo,
    ensures
        args_ok(s, l, lo2, hi),
{
}

proof fn lemma_string_rest_bounds(s: Seq<u8>, j: int)
    requires
        0 <= j,
    ensures
        string_rest(s, j) matches Some(e) ==> j < e <= s.len(),
    decreases s.len() - j,
{
    if j < s.len() && s[j] != 10 && s[j] != 34 {
        if s[j] == 92 && j + 1 < s.len() && s[j + 1] != 10 {
            lemma_string_rest_bounds(s, j + 2);
        } else {
            lemma_string_rest_bounds(s, j + 1);
        }
    }
}

proof fn lemma_postfix(s: Seq<u8>, e: Expr, end: int)
    requires
        expr_ok(s, e),
        e.spec_span().end <= end <= s.len() <= usize::MAX,
    ensures
        expr_ok(s, postfix(s, e, end).0),
        postfix(s, e, end).0.spec_span().start == e.spec_span().start,
        postfix(s, e, end).0.spec_span().end <= postfix(s, e, end).1 <= s.len(),
        end <= postfix(s, e, end).1,
    decreases s.len() - end,
{
    let j = next(s, end);
    if incdec(s, j) && end <= j {
        let u = unary_expr(e, e.spec_span().start as int, j + 2);
        lemma_postfix(s, u, j + 2);
    }
}

proof fn lemma_var_expr(s: Seq<u8>, i: int)
    requires
        0 <= i <= s.len() <= usize::MAX,
    ensures
        read_ok(s, i, var_expr(s, i)),
    decreases s.len() - i, 1int,
{
    if incdec(s, i) {
        lemma_var_expr(s, next(s, i + 2));
    } else {
        if let Some(e) = variable_token(s, i) {
            lemma_ident_end_bounds(s, i + 2);
            if i < e <= s.len() {
                lemma_postfix(s, ident_expr(i, e), e);
            }
        }
    }
}

proof fn lemma_call_args(s: Seq<u8>, j: int)
    requires
        0 <= j <= s.len() <= usize::MAX,
    ensures
        call_args(s, j) matches Some((l, end)) ==> args_ok(s, l, j, end) && j < end <= s.len(),
    decreases s.len() - j, 6int,
{
    lemma_expr(s, j);
    if let Some((a, e)) = expr(s, j) {
        if j < e <= s.len() {
            let k = next(s, e);
            if at1(s, k, 44) {
                lemma_call_args(s, next(s, k + 1));
                if let Some((rest, e2)) = call_args(s, next(s, k + 1)) {
                    lemma_args_ok_weaken(s, rest, next(s, k + 1), a.spec_span().end as int, e2);
                    assert(args_ok(s, NodeList::Cons(a, Box::new(rest)), j, e2));
                }
            } else if at1(s, k, 41) {
                assert(args_ok(s, NodeList::Nil, a.spec_span().end as int, k + 1));
                assert(args_ok(s, NodeList::Cons(a, Box::new(NodeList::Nil)), j, k + 1));
            }
        }
    }
}

proof fn lemma_primary(s: Seq<u8>, i: int)
    requires
        0 <= i <= s.len() <= usize::MAX,
    ensures
        read_ok(s, i, primary(s, i)),
    decreases s.len() - i, 2int,
{
    if at1(s, i, 40) {
        lemma_expr(s, next(s, i + 1));
    } else if at1(s, i, 34) {
        lemma_string_rest_bounds(s, i + 1);
    } else if 0 <= i < s.len() && is_digit(s[i]) {
        lemma_digits_end_bounds(s, i + 1);
    } else if incdec(s, i) || (0 <= i < s.len() && is_sigil(s[i])) {
        lemma_var_expr(s, i);
    } else {
        if let Some(e) = ident_token(s, i) {
            lemma_ident_end_bounds(s, i + 1);
            let k = next(s, e);
            if at1(s, k, 40) && i < e <= k {
                let a = next(s, k + 1);
                if !at1(s, a, 41) {
                    lemma_call_args(s, a);
                    if let Some((args, e2)) = call_args(s, a) {
                        lemma_args_ok_weaken(s, args, a, e, e2);
                        assert(expr_ok(s, call_expr(i, e, args, e2)));
                    }
                } else {
                    assert(args_ok(s, NodeList::Nil, e, a + 1));
                    assert(expr_ok(s, call_expr(i, e, NodeList::Nil, a + 1)));
                }
            }
        }
    }
}

proof fn lemma_unary(s: Seq<u8>, i: int)
    requires
        0 <= i <= s.len() <= usize::MAX,
    ensures
        read_ok(s, i, unary(s, i)),
    decreases s.len() - i, 3int,
{
    if prefix_op(s, i) {
        lemma_unary(s, next(s, i + 1));
    } else {
        lemma_primary(s, i);
    }
}

proof fn lemma_binary(s: Seq<u8>, i: int, min: int)
    requires
        0 <= i <= s.len() <= usize::MAX,
    ensures
        read_ok(s, i, binary(s, i, min)),
    decreases s.len() - i, 4int,
{
    lemma_unary(s, i);
    if let Some((l, e)) = unary(s, i) {
        lemma_climb(s, l, e, min);
    }
}

proof fn lemma_climb(s: Seq<u8>, lhs: Expr, end: int, min: int)
    requires
        expr_ok(s, lhs),
        0 <= lhs.spec_span().start <= lhs.spec_span().end <= end <= s.len() <= usize::MAX,
    ensures
        expr_ok(s, climb(s, lhs, end, min).0),
        climb(s, lhs, end, min).0.spec_span().start == lhs.spec_span().start,
        climb(s, lhs, end, min).0.spec_span().end <= climb(s, lhs, end, min).1 <= s.len(),
        end <= climb(s, lhs, end, min).1,
    decreases s.len() - end, 4int,
{
    let j = next(s, end);
    if let Some((tier, k)) = infix_op(s, j) {
        if tier >= min && end <= j && k <= s.len() {
            lemma_binary(s, next(s, k), tier + 1);
            if let Some((r, e2)) = binary(s, next(s, k), tier + 1) {
                if end < e2 <= s.len() {
                    lemma_climb(s, binary_expr(lhs, r), e2, min);
                }
            }
        }
    }
}

/// Every expression that the parser reads from `i` has tokens for leaves, in order,
/// within the text it was read from.
pub proof fn lemma_expr(s: Seq<u8>, i: int)
    requires
        0 <= i <= s.len() <= usize::MAX,
    ensures
        read_ok(s, i, expr(s, i)),
    decreases s.len() - i, 5int,
{
    lemma_binary(s, i, 0);
}

pub open spec fn stmt_span(st: Statement) -> Span {
    NodeRef::Statement(&st).spec_span()
}

pub open spec fn preamble_span(p: Preamble) -> Span {
    NodeRef::Preamble(&p).spec_span()
}

/// The node of an assignment: a variable token, then its value.
pub open spec fn assignment_ok(s: Seq<u8>, a: Assignment) -> bool {
    match a.lvalue {
        Lvalue::Identifier(id) => {
            &&& variable_token(s, id.span.start as int) == Some(id.span.end as int)
            &&& a.span.start == id.span.start
            &&& expr_ok(s, *a.rvalue)
            &&& id.span.end <= a.rvalue.spec_span().start
            &&& a.rvalue.spec_span().end <= a.span.end
        },
    }
}

/// A condition, then a block, inside `lo..hi`.
pub open spec fn cond_block_ok(s: Seq<u8>, c: Expr, b: Block, lo: int, hi: int) -> bool
    decreases b, 1int,
{
    &&& expr_ok(s, c)
    &&& block_ok(s, b)
    &&& lo <= c.spec_span().start
    &&& c.spec_span().end <= b.span.start
    &&& b.span.end == hi
}

pub open spec fn stmt_ok(s: Seq<u8>, st: Statement) -> bool
    decreases st, 0int,
{
    &&& stmt_span(st).start <= stmt_span(st).end
    &&& match st {
        Statement::Error(_) => true,
        Statement::Assignment(a) => assignment_ok(s, *a),
        Statement::IfCond(i) => cond_block_ok(s, *i.condition, i.block, i.span.start as int, i.span.end as int),
        Statement::Loop(l) => match *l {
            Loop::While(w) => cond_block_ok(s, *w.condition, w.block, w.span.start as int, w.span.end as int),
            Loop::For(f) => {
                &&& expr_ok(s, *f.lhs)
                &&& f.span.start <= f.lhs.spec_span().start
                &&& f.lhs.spec_span().end <= f.rhs.spec_span().start
                &&& cond_block_ok(s, *f.rhs, f.block, f.rhs.spec_span().start as int, f.span.end as int)
            },
        },
        Statement::Expr(e) => expr_ok(s, *e),
    }
}

/// The statements `l` are well formed and lie in order within `lo..hi`.
pub open spec fn stmts_ok(s: Seq<u8>, l: NodeList<Statement>, lo: int, hi: int) -> bool
    decreases l, 0int,
{
    match l {
        NodeList::Nil => lo <= hi,
        NodeList::Cons(h, rest) => {
            &&& stmt_ok(s, h)
            &&& lo <= stmt_span(h).start
            &&& stmts_ok(s, *rest, stmt_span(h).end as int, hi)
        },
    }
}

pub open spec fn block_ok(s: Seq<u8>, b: Block) -> bool
    decreases b, 0int,
{
    b.span.start < b.span.end && stmts_ok(s, b.statements, b.span.start as int, b.span.end as int)
}

/// The attach points `l` are attach-point tokens in order within `lo..hi`.
pub open spec fn attach_ok(s: Seq<u8>, l: NodeList<Span>, lo: int, hi: int) -> bool
    decreases l,
{
    match l {
        NodeList::Nil => lo <= hi,
        NodeList::Cons(h, rest) => {
            &&& attach_token(s, h.start as int) == Some(h.end as int)
            &&& lo <= h.start
            &&& attach_ok(s, *rest, h.end as int, hi)
        },
    }
}

/// Attach points, the predicate if any, and the block, in order within the probe.
pub open spec fn probe_ok(s: Seq<u8>, p: Probe) -> bool {
    &&& block_ok(s, p.block)
    &&& p.block.span.end == p.span.end
    &&& match p.condition {
        Some(c) => attach_ok(s, p.attach_points, p.span.start as int, c.spec_span().start as int)
            && expr_ok(s, c) && c.spec_span().end <= p.block.span.start,
        None => attach_ok(s, p.attach_points, p.span.start as int, p.block.span.start as int),
    }
}

pub open spec fn preambles_ok(s: Seq<u8>, l: NodeList<Preamble>, lo: int, hi: int) -> bool
    decreases l,
{
    match l {
        NodeList::Nil => lo <= hi,
        NodeList::Cons(h, rest) => {
            &&& preamble_span(h).start <= preamble_span(h).end
            &&& (h matches Preamble::Probe(p) ==> probe_ok(s, p))
            &&& lo <= preamble_span(h).start
            &&& preambles_ok(s, *rest, preamble_span(h).end as int, hi)
        },
    }
}

proof fn lemma_stmts_ok_weaken(s: Seq<u8>, l: NodeList<Statement>, lo: int, lo2: int, hi: int)
    requires
        stmts_ok(s, l, lo, hi),
        lo2 <= lo,
    ensures
        stmts_ok(s, l, lo2, hi),
{
}

proof fn lemma_attach_ok_weaken(s: Seq<u8>, l: NodeList<Span>, lo: int, lo2: int, hi: int)
    requires
        attach_ok(s, l, lo, hi),
        lo2 <= lo,
    ensures
        attach_ok(s, l, lo2, hi),
{
}

proof fn lemma_preambles_ok_weaken(s: Seq<u8>, l: NodeList<Preamble>, lo: int, lo2: int, hi: int)
    requires
        preambles_ok(s, l, lo, hi),
        lo2 <= lo,
    ensures
        preambles_ok(s, l, lo2, hi),
{
}

proof fn lemma_assignment(s: Seq<u8>, i: int)
    requires
        0 <= i <= s.len() <= usize::MAX,
    ensures
        assignment(s, i) matches Some((a, e)) ==> assignment_ok(s, a) && i == a.span.start
            && a.span.end <= e <= s.len() && i < e,
{
    if let Some(ve) = variable_token(s, i) {
        lemma_ident_end_bounds(s, i + 2);
        if let Some((_, ke)) = assign_op(s, next(s, ve)) {
            lemma_expr(s, next(s, ke));
        }
    }
}

proof fn lemma_simple_stmt(s: Seq<u8>, i: int)
    requires
        0 <= i <= s.len() <= usize::MAX,
    ensures
        simple_stmt(s, i) matches Some((st, e)) ==> stmt_ok(s, st) && i <= stmt_span(st).start
            && stmt_span(st).end <= e <= s.len() && i < e,
{
    lemma_assignment(s, i);
    lemma_expr(s, i);
}

proof fn lemma_cond_block(s: Seq<u8>, i: int)
    requires
        0 <= i <= s.len() <= usize::MAX,
    ensures
        cond_block(s, i) matches Some((c, b, e)) ==> cond_block_ok(s, c, b, i, e) && e <= s.len()
            && i < e,
    decreases s.len() - i, 1int,
{
    if at1(s, i, 40) {
        let k = next(s, i + 1);
        lemma_expr(s, k);
        if let Some((_, e)) = expr(s, k) {
            if k < e <= s.len() && at1(s, next(s, e), 41) {
                lemma_block(s, next(s, next(s, e) + 1));
            }
        }
    }
}

proof fn lemma_for_parts(s: Seq<u8>, k: int)
    requires
        0 <= k <= s.len() <= usize::MAX,
    ensures
        for_parts(s, k) matches Some((l, r, b, e)) ==> {
            &&& expr_ok(s, l)
            &&& k <= l.spec_span().start
            &&& l.spec_span().end <= r.spec_span().start
            &&& cond_block_ok(s, r, b, r.spec_span().start as int, e)
            &&& e <= s.len()
            &&& k < e
        },
    decreases s.len() - k, 1int,
{
    if at1(s, k, 40) {
        let a = next(s, k + 1);
        lemma_expr(s, a);
        if let Some((_, le)) = expr(s, a) {
            if a < le <= s.len() && at1(s, next(s, le), 58) {
                let b0 = next(s, next(s, le) + 1);
                lemma_expr(s, b0);
                if let Some((_, re)) = expr(s, b0) {
                    if b0 < re <= s.len() && at1(s, next(s, re), 41) {
                        lemma_block(s, next(s, next(s, re) + 1));
                    }
                }
            }
        }
    }
}

proof fn lemma_stmt(s: Seq<u8>, i: int)
    requires
        0 <= i <= s.len() <= usize::MAX,
    ensures
        stmt(s, i) matches Some((st, e)) ==> stmt_ok(s, st) && i <= stmt_span(st).start
            && stmt_span(st).end <= e <= s.len() && i < e,
    decreases s.len() - i, 2int,
{
    if if_kw(s, i) {
        lemma_cond_block(s, next(s, i + 2));
    } else if while_kw(s, i) {
        lemma_cond_block(s, next(s, i + 5));
    } else if for_kw(s, i) {
        lemma_for_parts(s, next(s, i + 3));
    } else {
        lemma_simple_stmt(s, i);
    }
}

proof fn lemma_block(s: Seq<u8>, i: int)
    requires
        0 <= i <= s.len() <= usize::MAX,
    ensures
        block(s, i) matches Some((b, e)) ==> block_ok(s, b) && b.span.start == i && b.span.end
            == e && e <= s.len() && i < e,
    decreases s.len() - i, 0int,
{
    if at1(s, i, 123) {
        lemma_items(s, next(s, i + 1));
        if let Some((l, e)) = items(s, next(s, i + 1)) {
            lemma_stmts_ok_weaken(s, l, next(s, i + 1), i, e);
        }
    }
}

proof fn lemma_items(s: Seq<u8>, j: int)
    requires
        0 <= j <= s.len() <= usize::MAX,
    ensures
        items(s, j) matches Some((l, e)) ==> stmts_ok(s, l, j, e) && e <= s.len() && j < e,
    decreases s.len() - j, 3int,
{
    if 0 <= j < s.len() {
        if s[j] == 125 {
            assert(stmts_ok(s, NodeList::Nil, j, j + 1));
        } else if s[j] == 59 {
            lemma_items(s, next(s, j + 1));
            if let Some((l, e)) = items(s, next(s, j + 1)) {
                lemma_stmts_ok_weaken(s, l, next(s, j + 1), j, e);
            }
        } else {
            lemma_stmt(s, j);
            match stmt(s, j) {
                Some((st, e)) => {
                    if j < e <= s.len() {
                        lemma_items(s, next(s, e));
                        if let Some((rest, e2)) = items(s, next(s, e)) {
                            lemma_stmts_ok_weaken(s, rest, next(s, e), stmt_span(st).end as int, e2);
                            assert(stmts_ok(s, NodeList::Cons(st, Box::new(rest)), j, e2));
                        }
                    }
                },
                None => {
                    let e = error_end(s, j);
                    if j < e <= s.len() {
                        lemma_items(s, next(s, e));
                        if let Some((rest, e2)) = items(s, next(s, e)) {
                            let u = unknown_stmt(j, e);
                            assert(stmt_span(u).start == j && stmt_span(u).end == e);
                            assert(stmt_ok(s, u));
                            lemma_stmts_ok_weaken(s, rest, next(s, e), e, e2);
                            assert(stmts_ok(s, NodeList::Cons(u, Box::new(rest)), j, e2));
                        }
                    }
                },
            }
        }
    }
}

proof fn lemma_attach_points(s: Seq<u8>, i: int)
    requires
        0 <= i <= s.len() <= usize::MAX,
    ensures
        attach_points(s, i) matches Some((l, e)) ==> attach_ok(s, l, i, e) && e <= s.len() && i < e,
    decreases s.len() - i,
{
    if let Some(e) = attach_token(s, i) {
        lemma_attach_end_bounds(s, i + 1);
        if i < e <= s.len() {
            if at1(s, next(s, e), 44) {
                lemma_attach_points(s, next(s, next(s, e) + 1));
                if let Some((rest, e2)) = attach_points(s, next(s, next(s, e) + 1)) {
                    lemma_attach_ok_weaken(s, rest, next(s, next(s, e) + 1), e, e2);
                    assert(attach_ok(s, NodeList::Cons(mk_span(i, e), Box::new(rest)), i, e2));
                }
            } else {
                assert(attach_ok(s, NodeList::Nil, e, e));
                assert(attach_ok(s, NodeList::Cons(mk_span(i, e), Box::new(NodeList::Nil)), i, e));
            }
        }
    }
}

proof fn lemma_probe(s: Seq<u8>, i: int)
    requires
        0 <= i <= s.len() <= usize::MAX,
    ensures
        probe(s, i) matches Some((p, e)) ==> probe_ok(s, p) && p.span.start == i && p.span.end == e
            && e <= s.len() && i < e,
{
    lemma_attach_points(s, i);
    if let Some((aps, e)) = attach_points(s, i) {
        let k = next(s, e);
        if at1(s, k, 47) {
            lemma_probe_predicate(s, i, aps, e);
        } else {
            lemma_block(s, k);
            if let Some((b, _)) = block(s, k) {
                lemma_attach_widen(s, aps, i, e, b.span.start as int);
            }
        }
    }
}

proof fn lemma_attach_widen(s: Seq<u8>, l: NodeList<Span>, lo: int, hi: int, hi2: int)
    requires
        attach_ok(s, l, lo, hi),
        hi <= hi2,
    ensures
        attach_ok(s, l, lo, hi2),
    decreases l,
{
    match l {
        NodeList::Nil => {},
        NodeList::Cons(h, rest) => {
            lemma_attach_widen(s, *rest, h.end as int, hi, hi2);
        },
    }
}

proof fn lemma_probe_predicate(s: Seq<u8>, i: int, aps: NodeList<Span>, e: int)
    requires
        0 <= i <= s.len() <= usize::MAX,
        attach_points(s, i) == Some((aps, e)),
        attach_ok(s, aps, i, e),
        i < e <= s.len(),
        at1(s, next(s, e), 47),
    ensures
        probe(s, i) matches Some((p, pe)) ==> probe_ok(s, p) && p.span.start == i && p.span.end
            == pe && pe <= s.len() && i < pe,
{
    let k = next(s, e);
    let c0 = next(s, k + 1);
    lemma_expr(s, c0);
    if let Some((c, ce)) = expr(s, c0) {
        if at1(s, next(s, ce), 47) {
            lemma_block(s, next(s, next(s, ce) + 1));
            lemma_attach_widen(s, aps, i, e, c.spec_span().start as int);
        }
    }
}

proof fn lemma_preambles(s: Seq<u8>, i: int)
    requires
        0 <= i <= s.len() <= usize::MAX,
    ensures
        preambles_ok(s, preambles(s, i), i, s.len() as int),
    decreases s.len() - i,
{
    if 0 <= i < s.len() {
        if s[i] == 125 {
            lemma_preambles(s, next(s, i + 1));
            lemma_preambles_ok_weaken(s, preambles(s, next(s, i + 1)), next(s, i + 1), i + 1, s.len() as int);
            assert(preamble_span(unmatched_brace(i)).end == i + 1);
        } else {
            lemma_probe(s, i);
            match probe(s, i) {
                Some((p, e)) => {
                    if i < e <= s.len() {
                        lemma_preambles(s, next(s, e));
                        lemma_preambles_ok_weaken(s, preambles(s, next(s, e)), next(s, e), e, s.len() as int);
                    }
                },
                None => {
                    let e = error_end(s, i);
                    if i < e <= s.len() {
                        lemma_preambles(s, next(s, e));
                        lemma_preambles_ok_weaken(s, preambles(s, next(s, e)), next(s, e), e, s.len() as int);
                        assert(preamble_span(unknown_preamble(i, e)).end == e);
                    }
                },
            }
        }
    }
}

/// Every tree the parser builds has tokens of the source for leaves: each identifier,
/// integer, string and attach point covers one token of its kind, and the nodes under
/// any node lie in source order, without overlap, within the node's span and the text.
pub proof fn law_leaves_are_tokens(s: Seq<u8>)
    requires
        s.len() <= usize::MAX,
    ensures
        preambles_ok(s, program(s).preambles, 0, s.len() as int),
{
    lemma_preambles(s, next(s, 0));
    lemma_preambles_ok_weaken(s, program(s).preambles, next(s, 0), 0, s.len() as int);
}

} // verus!
