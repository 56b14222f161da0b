//! The scope-aware pass: it walks the tree in source order with one growing list of
//! declared names, and adds an error statement for each reference to a name that is
//! neither declared so far nor builtin, and for each call of a function that is not
//! builtin. Each error goes to the end of the block in which its statement stands.
//! Declared names keep their sigil (`$x`, `@m`); a reference is looked up by its name
//! without the sigil, so `$pid` is the builtin `pid` and a bare `x` is the variable `$x`.
use crate::builtins::BuiltinSymbols;
use crate::syntax::{
    lemma_list_append, list_append, Assignment, Block, Call, ErrorStatement, Expr, For, If, Loop, Lvalue, NodeList,
    Identifier, Preamble, Probe, Program, Span, Statement, UndefinedFunc, UndefinedIdent, While,
};
use crate::lexer::is_sigil;
use vstd::prelude::*;

verus! {

/// The texts of declared spans.
pub open spec fn names(s: Seq<u8>, v: Seq<Span>) -> Seq<Seq<u8>> {
    v.map_values(|sp: Span| sp.text(s))
}

/// The name that a variable or identifier span stands for: a leading sigil (`$` or `@`)
/// is not part of it.
pub open spec fn name_span(s: Seq<u8>, sp: Span) -> Span {
    if sp.start < sp.end <= s.len() && is_sigil(s[sp.start as int]) {
        Span { start: (sp.start + 1) as usize, end: sp.end }
    } else {
        sp
    }
}

/// The names of declared spans, without their sigils.
pub open spec fn bare_names(s: Seq<u8>, v: Seq<Span>) -> Seq<Seq<u8>> {
    v.map_values(|sp: Span| name_span(s, sp).text(s))
}

/// Whether a referenced name (without sigil) is known: the name of a variable declared so
/// far, whatever its sigil, or a builtin keyword.
pub open spec fn known(s: Seq<u8>, name: Seq<u8>, decl: Seq<Span>, t: BuiltinSymbols) -> bool {
    bare_names(s, decl).contains(name) || t.keyword_names().contains(name)
}

/// Adds the name at `sp` to the declared names, unless a name with its text is there.
pub open spec fn declare(s: Seq<u8>, decl: Seq<Span>, sp: Span) -> Seq<Span> {
    if names(s, decl).contains(sp.text(s)) {
        decl
    } else {
        decl.push(sp)
    }
}

pub open spec fn undefined_ident(sp: Span) -> Statement {
    Statement::Error(Box::new(ErrorStatement::UndefinedIdent(Box::new(UndefinedIdent { span: sp }))))
}

pub open spec fn undefined_func(name: Span, sp: Span) -> Statement {
    Statement::Error(
        Box::new(ErrorStatement::UndefinedFunc(Box::new(UndefinedFunc { name, span: sp }))),
    )
}

pub open spec fn one(st: Statement) -> NodeList<Statement> {
    NodeList::Cons(st, Box::new(NodeList::Nil))
}

/// The errors of an expression, in source order.
pub open spec fn expr_errors(s: Seq<u8>, e: Expr, decl: Seq<Span>, t: BuiltinSymbols) -> NodeList<
    Statement,
>
    decreases e,
{
    match e {
        Expr::Identifier(id) => if known(s, name_span(s, id.span).text(s), decl, t) {
            NodeList::Nil
        } else {
            one(undefined_ident(name_span(s, id.span)))
        },
        Expr::Integer(_) => NodeList::Nil,
        Expr::String(_) => NodeList::Nil,
        Expr::Call(c) => list_append(
            if t.function_names().contains(c.func.span.text(s)) {
                NodeList::Nil
            } else {
                one(undefined_func(c.func.span, c.span))
            },
            args_errors(s, c.args, decl, t),
        ),
        Expr::BinaryExpr(b) => list_append(
            expr_errors(s, *b.lhs, decl, t),
            expr_errors(s, *b.rhs, decl, t),
        ),
        Expr::UnaryExpr(u) => expr_errors(s, *u.expr, decl, t),
    }
}

pub open spec fn args_errors(s: Seq<u8>, l: NodeList<Expr>, decl: Seq<Span>, t: BuiltinSymbols) -> NodeList<
    Statement,
>
    decreases l,
{
    match l {
        NodeList::Nil => NodeList::Nil,
        NodeList::Cons(h, rest) => list_append(
            expr_errors(s, h, decl, t),
            args_errors(s, *rest, decl, t),
        ),
    }
}

pub open spec fn lvalue_span(a: Assignment) -> Span {
    match a.lvalue {
        Lvalue::Identifier(id) => id.span,
    }
}

/// One statement: the statement with its nested blocks analysed, the errors that go
/// to the block around it, and the declared names after it.
pub open spec fn stmt_pass(s: Seq<u8>, st: Statement, decl: Seq<Span>, t: BuiltinSymbols) -> (
    Statement,
    NodeList<Statement>,
    Seq<Span>,
)
    decreases st,
{
    match st {
        Statement::Error(_) => (st, NodeList::Nil, decl),
        Statement::Assignment(a) => {
            let d = declare(s, decl, lvalue_span(*a));
            (st, expr_errors(s, *a.rvalue, d, t), d)
        },
        Statement::Expr(x) => (st, expr_errors(s, *x, decl, t), decl),
        Statement::IfCond(i) => {
            let (b, d) = block_pass(s, i.block, decl, t);
            (
                Statement::IfCond(Box::new(If { condition: i.condition, block: b, span: i.span })),
                expr_errors(s, *i.condition, decl, t),
                d,
            )
        },
        Statement::Loop(l) => match *l {
            Loop::While(w) => {
                let (b, d) = block_pass(s, w.block, decl, t);
                (
                    Statement::Loop(
                        Box::new(
                            Loop::While(
                                Box::new(While { condition: w.condition, block: b, span: w.span }),
                            ),
                        ),
                    ),
                    expr_errors(s, *w.condition, decl, t),
                    d,
                )
            },
            Loop::For(f) => {
                let (b, d) = block_pass(s, f.block, decl, t);
                (
                    Statement::Loop(
                        Box::new(
                            Loop::For(
                                Box::new(For { lhs: f.lhs, rhs: f.rhs, block: b, span: f.span }),
                            ),
                        ),
                    ),
                    list_append(expr_errors(s, *f.lhs, decl, t), expr_errors(s, *f.rhs, decl, t)),
                    d,
                )
            },
        },
    }
}

/// A run of statements: each analysed in turn, the errors of all of them in order,
/// and the declared names after the last.
pub open spec fn stmts_pass(
    s: Seq<u8>,
    l: NodeList<Statement>,
    decl: Seq<Span>,
    t: BuiltinSymbols,
) -> (NodeList<Statement>, NodeList<Statement>, Seq<Span>)
    decreases l,
{
    match l {
        NodeList::Nil => (NodeList::Nil, NodeList::Nil, decl),
        NodeList::Cons(h, rest) => {
            let (h2, e1, d1) = stmt_pass(s, h, decl, t);
            let (r2, e2, d2) = stmts_pass(s, *rest, d1, t);
            (NodeList::Cons(h2, Box::new(r2)), list_append(e1, e2), d2)
        },
    }
}

/// A block: its statements analysed, followed by the errors found in them.
pub open spec fn block_pass(s: Seq<u8>, b: Block, decl: Seq<Span>, t: BuiltinSymbols) -> (
    Block,
    Seq<Span>,
)
    decreases b,
{
    let (st, errs, d) = stmts_pass(s, b.statements, decl, t);
    (Block { statements: list_append(st, errs), span: b.span }, d)
}

pub open spec fn condition_errors(s: Seq<u8>, c: Option<Expr>, decl: Seq<Span>, t: BuiltinSymbols) -> NodeList<
    Statement,
> {
    match c {
        Some(e) => expr_errors(s, e, decl, t),
        None => NodeList::Nil,
    }
}

/// A probe: the errors of its predicate come first among those added to its block.
pub open spec fn probe_pass(s: Seq<u8>, p: Probe, decl: Seq<Span>, t: BuiltinSymbols) -> (
    Probe,
    Seq<Span>,
) {
    let (st, errs, d) = stmts_pass(s, p.block.statements, decl, t);
    (
        Probe {
            attach_points: p.attach_points,
            condition: p.condition,
            block: Block {
                statements: list_append(st, list_append(condition_errors(s, p.condition, decl, t), errs)),
                span: p.block.span,
            },
            span: p.span,
        },
        d,
    )
}

pub open spec fn preambles_pass(
    s: Seq<u8>,
    l: NodeList<Preamble>,
    decl: Seq<Span>,
    t: BuiltinSymbols,
) -> (NodeList<Preamble>, Seq<Span>)
    decreases l,
{
    match l {
        NodeList::Nil => (NodeList::Nil, decl),
        NodeList::Cons(h, rest) => match h {
            Preamble::Probe(p) => {
                let (p2, d1) = probe_pass(s, p, decl, t);
                let (r2, d2) = preambles_pass(s, *rest, d1, t);
                (NodeList::Cons(Preamble::Probe(p2), Box::new(r2)), d2)
            },
            Preamble::Error(_) => {
                let (r2, d2) = preambles_pass(s, *rest, decl, t);
                (NodeList::Cons(h, Box::new(r2)), d2)
            },
        },
    }
}

/// The analysed program and the names it declares, in order of first assignment.
pub open spec fn analysis(s: Seq<u8>, p: Program, t: BuiltinSymbols) -> (Program, Seq<Span>) {
    let (l, d) = preambles_pass(s, p.preambles, Seq::empty(), t);
    (Program { preambles: l, span: p.span }, d)
}

/// Declared names are looked up in source order, never ahead: a statement that refers
/// to a name that is neither declared before it nor builtin is flagged, whatever the
/// statements after it assign.
pub proof fn law_reference_before_assignment(
    s: Seq<u8>,
    id: Identifier,
    rest: NodeList<Statement>,
    decl: Seq<Span>,
    t: BuiltinSymbols,
)
    requires
        !known(s, name_span(s, id.span).text(s), decl, t),
    ensures
        ({
            let st = Statement::Expr(Box::new(Expr::Identifier(Box::new(id))));
            let errs = stmts_pass(s, NodeList::Cons(st, Box::new(rest)), decl, t).1;
            errs@.len() >= 1 && errs@[0] == undefined_ident(name_span(s, id.span))
        }),
{
    let st = Statement::Expr(Box::new(Expr::Identifier(Box::new(id))));
    let (_, e1, d1) = stmt_pass(s, st, decl, t);
    let (_, e2, _) = stmts_pass(s, rest, d1, t);
    assert(e1 == one(undefined_ident(name_span(s, id.span))));
    lemma_list_append(e1, e2);
    assert(NodeList::<Statement>::Nil@ == Seq::<Statement>::empty());
    assert(e1@ =~= seq![undefined_ident(name_span(s, id.span))]);
}

/// No hoisting within a block: the analysis of a run of statements, its errors
/// included, is the same whatever statements follow it; those are analysed afterwards,
/// with the names declared so far.
pub proof fn law_later_statements_change_nothing_before(
    s: Seq<u8>,
    l: NodeList<Statement>,
    rest: NodeList<Statement>,
    decl: Seq<Span>,
    t: BuiltinSymbols,
)
    ensures
        ({
            let (a, ea, da) = stmts_pass(s, l, decl, t);
            let (b, eb, db) = stmts_pass(s, rest, da, t);
            let (c, ec, dc) = stmts_pass(s, list_append(l, rest), decl, t);
            c == list_append(a, b) && ec@ == ea@ + eb@ && dc == db
        }),
    decreases l,
{
    match l {
        NodeList::Nil => {
            let (b, eb, _) = stmts_pass(s, rest, decl, t);
            lemma_list_append(NodeList::<Statement>::Nil, eb);
            assert(eb@ =~= Seq::<Statement>::empty() + eb@);
        },
        NodeList::Cons(h, tail) => {
            let (h2, e1, d1) = stmt_pass(s, h, decl, t);
            law_later_statements_change_nothing_before(s, *tail, rest, d1, t);
            let (a2, ea2, da2) = stmts_pass(s, *tail, d1, t);
            let (b, eb, _) = stmts_pass(s, rest, da2, t);
            let (c2, ec2, _) = stmts_pass(s, list_append(*tail, rest), d1, t);
            lemma_list_append(e1, ec2);
            lemma_list_append(e1, ea2);
            assert(e1@ + ec2@ =~= (e1@ + ea2@) + eb@);
        },
    }
}

/// No hoisting across probes: the analysis of the top-level units before a point is
/// the same whatever follows them; those are analysed afterwards, with the names declared
/// so far.
pub proof fn law_later_preambles_change_nothing_before(
    s: Seq<u8>,
    l: NodeList<Preamble>,
    rest: NodeList<Preamble>,
    decl: Seq<Span>,
    t: BuiltinSymbols,
)
    ensures
        ({
            let (a, da) = preambles_pass(s, l, decl, t);
            let (b, db) = preambles_pass(s, rest, da, t);
            preambles_pass(s, list_append(l, rest), decl, t) == (list_append(a, b), db)
        }),
    decreases l,
{
    match l {
        NodeList::Nil => {},
        NodeList::Cons(h, tail) => match h {
            Preamble::Probe(p) => {
                let d1 = probe_pass(s, p, decl, t).1;
                law_later_preambles_change_nothing_before(s, *tail, rest, d1, t);
            },
            Preamble::Error(_) => {
                law_later_preambles_change_nothing_before(s, *tail, rest, decl, t);
            },
        },
    }
}

/// A reference in a program is checked against what the program declares before it,
/// never after: in a probe without predicate, a statement naming a variable that neither
/// the earlier probes nor the earlier statements of its block declare, and that is no
/// builtin, is flagged in the analysed probe's block, whatever comes after it.
pub proof fn law_reference_before_assignment_in_program(
    s: Seq<u8>,
    before: NodeList<Preamble>,
    p: Probe,
    earlier: NodeList<Statement>,
    id: Identifier,
    later: NodeList<Statement>,
    after: NodeList<Preamble>,
    span: Span,
    t: BuiltinSymbols,
)
    requires
        p.condition is None,
        p.block.statements == list_append(
            earlier,
            NodeList::Cons(
                Statement::Expr(Box::new(Expr::Identifier(Box::new(id)))),
                Box::new(later),
            ),
        ),
        !known(
            s,
            name_span(s, id.span).text(s),
            stmts_pass(s, earlier, preambles_pass(s, before, Seq::empty(), t).1, t).2,
            t,
        ),
    ensures
        ({
            let prog = Program {
                preambles: list_append(before, NodeList::Cons(Preamble::Probe(p), Box::new(after))),
                span,
            };
            exists|q: Probe|
                #![trigger analysis(s, prog, t).0.preambles@.contains(Preamble::Probe(q))]
                analysis(s, prog, t).0.preambles@.contains(Preamble::Probe(q)) && q.span == p.span
                    && q.block.statements@.contains(undefined_ident(name_span(s, id.span)))
        }),
{
    let st = Statement::Expr(Box::new(Expr::Identifier(Box::new(id))));
    let tail = NodeList::Cons(st, Box::new(later));
    let rest_pre = NodeList::Cons(Preamble::Probe(p), Box::new(after));
    let (a, da) = preambles_pass(s, before, Seq::empty(), t);
    law_later_preambles_change_nothing_before(s, before, rest_pre, Seq::empty(), t);
    let (q, dq) = probe_pass(s, p, da, t);
    let (r2, _) = preambles_pass(s, after, dq, t);
    let b = NodeList::Cons(Preamble::Probe(q), Box::new(r2));
    lemma_list_append(a, b);
    assert((a@ + b@)[a@.len() as int] == Preamble::Probe(q));
    // the errors of the probe's block
    let (e_st, ea, de) = stmts_pass(s, earlier, da, t);
    law_later_statements_change_nothing_before(s, earlier, tail, da, t);
    law_reference_before_assignment(s, id, later, de, t);
    let (st2, errs, _) = stmts_pass(s, p.block.statements, da, t);
    let eb = stmts_pass(s, tail, de, t).1;
    assert(errs@ == ea@ + eb@);
    let u = undefined_ident(name_span(s, id.span));
    assert(errs@[ea@.len() as int] == u);
    lemma_list_append(NodeList::<Statement>::Nil, errs);
    lemma_list_append(st2, list_append(NodeList::Nil, errs));
    assert(q.block.statements@ == st2@ + (NodeList::<Statement>::Nil@ + errs@));
    assert(q.block.statements@[(st2@.len() + ea@.len()) as int] == u);
    assert(q.block.statements@.contains(u));
    let prog = Program { preambles: list_append(before, rest_pre), span };
    assert(analysis(s, prog, t).0.preambles == list_append(a, b));
    assert(analysis(s, prog, t).0.preambles@[a@.len() as int] == Preamble::Probe(q));
    assert(analysis(s, prog, t).0.preambles@.contains(Preamble::Probe(q)));
}

/// Whether the text of `a` is exactly the bytes `b`.
pub fn text_eq(s: &[u8], a: Span, b: &[u8]) -> (r: bool)
    ensures
        r == (a.text(s@) == b@),
{
    if !(a.start <= a.end && a.end <= s.len()) {
        assert(b@.len() == 0 ==> b@ =~= a.text(s@));
        return b.len() == 0;
    }
    if a.end - a.start != b.len() {
        return false;
    }
    let mut k: usize = 0;
    while k < b.len()
        invariant
            a.start <= a.end <= s@.len(),
            a.end - a.start == b@.len(),
            k <= b@.len(),
            forall|m: int| 0 <= m < k ==> s@[a.start + m] == b@[m],
        decreases b@.len() - k,
    {
        if s[a.start + k] != b[k] {
            assert(a.text(s@)[k as int] != b@[k as int]);
            return false;
        }
        k = k + 1;
    }
    assert(a.text(s@) =~= b@);
    true
}

/// Whether the texts of two spans are equal.
pub fn spans_eq(s: &[u8], a: Span, b: Span) -> (r: bool)
    ensures
        r == (a.text(s@) == b.text(s@)),
{
    if b.start <= b.end && b.end <= s.len() {
        let t = &s[b.start..b.end];
        assert(t@ =~= b.text(s@));
        text_eq(s, a, t)
    } else {
        let t = &s[0..0];
        assert(t@ =~= b.text(s@));
        text_eq(s, a, t)
    }
}

fn in_table(s: &[u8], a: Span, table: &Vec<crate::builtins::BuiltinSymbol>) -> (r: bool)
    ensures
        r == crate::builtins::names_of(table@).contains(a.text(s@)),
{
    let ghost names = crate::builtins::names_of(table@);
    let mut i: usize = 0;
    while i < table.len()
        invariant
            i <= table@.len(),
            names == crate::builtins::names_of(table@),
            forall|k: int| 0 <= k < i ==> names[k] != a.text(s@),
        decreases table@.len() - i,
    {
        if text_eq(s, a, table[i].name.as_bytes()) {
            assert(names[i as int] == a.text(s@));
            return true;
        }
        i = i + 1;
    }
    false
}

/// The span of the name without its sigil.
fn bare(s: &[u8], sp: Span) -> (r: Span)
    ensures
        r == name_span(s@, sp),
{
    if sp.start < sp.end && sp.end <= s.len() && (s[sp.start] == 36 || s[sp.start] == 64) {
        Span { start: sp.start + 1, end: sp.end }
    } else {
        sp
    }
}

fn declared_bare(s: &[u8], a: Span, decl: &Vec<Span>) -> (r: bool)
    ensures
        r == bare_names(s@, decl@).contains(a.text(s@)),
{
    let ghost ns = bare_names(s@, decl@);
    let mut i: usize = 0;
    while i < decl.len()
        invariant
            i <= decl@.len(),
            ns == bare_names(s@, decl@),
            forall|k: int| 0 <= k < i ==> ns[k] != a.text(s@),
        decreases decl@.len() - i,
    {
        if spans_eq(s, bare(s, decl[i]), a) {
            assert(ns[i as int] == a.text(s@));
            return true;
        }
        i = i + 1;
    }
    false
}

fn declared(s: &[u8], a: Span, decl: &Vec<Span>) -> (r: bool)
    ensures
        r == names(s@, decl@).contains(a.text(s@)),
{
    let ghost ns = names(s@, decl@);
    let mut i: usize = 0;
    while i < decl.len()
        invariant
            i <= decl@.len(),
            ns == names(s@, decl@),
            forall|k: int| 0 <= k < i ==> ns[k] != a.text(s@),
        decreases decl@.len() - i,
    {
        if spans_eq(s, decl[i], a) {
            assert(ns[i as int] == a.text(s@));
            return true;
        }
        i = i + 1;
    }
    false
}

fn check_expr(s: &[u8], e: &Expr, decl: &Vec<Span>, t: &BuiltinSymbols) -> (r: NodeList<Statement>)
    ensures
        r == expr_errors(s@, *e, decl@, *t),
    decreases e,
{
    match e {
        Expr::Identifier(id) => {
            let n = bare(s, id.span);
            if declared_bare(s, n, decl) || in_table(s, n, &t.keywords) {
                NodeList::Nil
            } else {
                NodeList::Cons(UndefinedIdent::new(n), Box::new(NodeList::Nil))
            }
        },
        Expr::Integer(_) => NodeList::Nil,
        Expr::String(_) => NodeList::Nil,
        Expr::Call(c) => {
            let head = if in_table(s, c.func.span, &t.functions) {
                NodeList::Nil
            } else {
                NodeList::Cons(UndefinedFunc::new(c.func.span, c.span), Box::new(NodeList::Nil))
            };
            head.append(check_args(s, &c.args, decl, t))
        },
        Expr::BinaryExpr(b) => check_expr(s, &b.lhs, decl, t).append(check_expr(s, &b.rhs, decl, t)),
        Expr::UnaryExpr(u) => check_expr(s, &u.expr, decl, t),
    }
}

fn check_args(s: &[u8], l: &NodeList<Expr>, decl: &Vec<Span>, t: &BuiltinSymbols) -> (r: NodeList<Statement>)
    ensures
        r == args_errors(s@, *l, decl@, *t),
    decreases l,
{
    match l {
        NodeList::Nil => NodeList::Nil,
        NodeList::Cons(h, rest) => check_expr(s, h, decl, t).append(check_args(s, rest, decl, t)),
    }
}

fn declare_span(s: &[u8], decl: Vec<Span>, a: Span) -> (r: Vec<Span>)
    ensures
        r@ == declare(s@, decl@, a),
{
    if declared(s, a, &decl) {
        decl
    } else {
        let mut d = decl;
        d.push(a);
        d
    }
}

fn analyze_stmt(s: &[u8], st: Statement, decl: Vec<Span>, t: &BuiltinSymbols) -> (r: (
    Statement,
    NodeList<Statement>,
    Vec<Span>,
))
    ensures
        (r.0, r.1, r.2@) == stmt_pass(s@, st, decl@, *t),
    decreases st,
{
    match st {
        Statement::Error(_) => (st, NodeList::Nil, decl),
        Statement::Assignment(a) => {
            let name = match &a.lvalue {
                Lvalue::Identifier(id) => id.span,
            };
            let d = declare_span(s, decl, name);
            let errs = check_expr(s, &a.rvalue, &d, t);
            (Statement::Assignment(a), errs, d)
        },
        Statement::Expr(x) => {
            let errs = check_expr(s, &x, &decl, t);
            (Statement::Expr(x), errs, decl)
        },
        Statement::IfCond(i) => {
            let If { condition, block, span } = *i;
            let errs = check_expr(s, &condition, &decl, t);
            let (b, d) = analyze_block(s, block, decl, t);
            (Statement::IfCond(Box::new(If { condition, block: b, span })), errs, d)
        },
        Statement::Loop(l) => match *l {
            Loop::While(w) => {
                let While { condition, block, span } = *w;
                let errs = check_expr(s, &condition, &decl, t);
                let (b, d) = analyze_block(s, block, decl, t);
                let w2 = While { condition, block: b, span };
                (Statement::Loop(Box::new(Loop::While(Box::new(w2)))), errs, d)
            },
            Loop::For(f) => {
                let For { lhs, rhs, block, span } = *f;
                let errs = check_expr(s, &lhs, &decl, t).append(check_expr(s, &rhs, &decl, t));
                let (b, d) = analyze_block(s, block, decl, t);
                let f2 = For { lhs, rhs, block: b, span };
                (Statement::Loop(Box::new(Loop::For(Box::new(f2)))), errs, d)
            },
        },
    }
}

fn analyze_stmts(s: &[u8], l: NodeList<Statement>, decl: Vec<Span>, t: &BuiltinSymbols) -> (r: (
    NodeList<Statement>,
    NodeList<Statement>,
    Vec<Span>,
))
    ensures
        (r.0, r.1, r.2@) == stmts_pass(s@, l, decl@, *t),
    decreases l,
{
    match l {
        NodeList::Nil => (NodeList::Nil, NodeList::Nil, decl),
        NodeList::Cons(h, rest) => {
            let (h2, e1, d1) = analyze_stmt(s, h, decl, t);
            let (r2, e2, d2) = analyze_stmts(s, *rest, d1, t);
            (NodeList::Cons(h2, Box::new(r2)), e1.append(e2), d2)
        },
    }
}

fn analyze_block(s: &[u8], b: Block, decl: Vec<Span>, t: &BuiltinSymbols) -> (r: (Block, Vec<Span>))
    ensures
        (r.0, r.1@) == block_pass(s@, b, decl@, *t),
    decreases b,
{
    let Block { statements, span } = b;
    let (st, errs, d) = analyze_stmts(s, statements, decl, t);
    (Block { statements: st.append(errs), span }, d)
}

fn analyze_probe(s: &[u8], p: Probe, decl: Vec<Span>, t: &BuiltinSymbols) -> (r: (Probe, Vec<Span>))
    ensures
        (r.0, r.1@) == probe_pass(s@, p, decl@, *t),
{
    let Probe { attach_points, condition, block, span } = p;
    let cerrs = match &condition {
        Some(c) => check_expr(s, c, &decl, t),
        None => NodeList::Nil,
    };
    let Block { statements, span: bspan } = block;
    let (st, errs, d) = analyze_stmts(s, statements, decl, t);
    let b = Block { statements: st.append(cerrs.append(errs)), span: bspan };
    (Probe { attach_points, condition, block: b, span }, d)
}

fn analyze_preambles(s: &[u8], l: NodeList<Preamble>, decl: Vec<Span>, t: &BuiltinSymbols) -> (r: (
    NodeList<Preamble>,
    Vec<Span>,
))
    ensures
        (r.0, r.1@) == preambles_pass(s@, l, decl@, *t),
    decreases l,
{
    match l {
        NodeList::Nil => (NodeList::Nil, decl),
        NodeList::Cons(h, rest) => match h {
            Preamble::Probe(p) => {
                let (p2, d1) = analyze_probe(s, p, decl, t);
                let (r2, d2) = analyze_preambles(s, *rest, d1, t);
                (NodeList::Cons(Preamble::Probe(p2), Box::new(r2)), d2)
            },
            Preamble::Error(e) => {
                let (r2, d2) = analyze_preambles(s, *rest, decl, t);
                (NodeList::Cons(Preamble::Error(e), Box::new(r2)), d2)
            },
        },
    }
}

/// Analyses a parsed program over the source bytes `s`: returns the program with its
/// error statements added, and the spans of the declared names, first assignments first.
pub fn analyze_program(s: &[u8], p: Program, t: &BuiltinSymbols) -> (r: (Program, Vec<Span>))
    ensures
        (r.0, r.1@) == analysis(s@, p, *t),
{
    let Program { preambles, span } = p;
    let d: Vec<Span> = Vec::new();
    assert(d@ =~= Seq::<Span>::empty());
    let (l, d2) = analyze_preambles(s, preambles, d, t);
    (Program { preambles: l, span }, d2)
}

} // verus!
