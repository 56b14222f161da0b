//! Walking a tree: a reference to any node, its children in source order, its span,
//! and narrowing views; a depth-first pre-order walk over all nodes; and the collection
//! of the error nodes of a tree, wherever they stand, in source order.
use crate::syntax::{
    Block, ErrorPreamble, ErrorStatement, Expr, Identifier, Lvalue, Loop, NodeList, Preamble,
    Program, Span, Statement,
};
use vstd::prelude::*;

verus! {

/// A view of an error node of either tier.
#[derive(Clone, Copy, Debug)]
pub enum ErrorRef<'a> {
    Statement(&'a ErrorStatement),
    Preamble(&'a ErrorPreamble),
}

/// The error nodes of a statement in pre-order.
pub open spec fn stmt_error_refs<'a>(st: &'a Statement) -> Seq<ErrorRef<'a>>
    decreases st,
{
    match st {
        Statement::Error(e) => seq![ErrorRef::Statement(&**e)],
        Statement::Assignment(_) => Seq::empty(),
        Statement::Expr(_) => Seq::empty(),
        Statement::IfCond(i) => list_error_refs(&i.block.statements),
        Statement::Loop(l) => match &**l {
            Loop::While(w) => list_error_refs(&w.block.statements),
            Loop::For(f) => list_error_refs(&f.block.statements),
        },
    }
}

pub open spec fn list_error_refs<'a>(l: &'a NodeList<Statement>) -> Seq<ErrorRef<'a>>
    decreases l,
{
    match l {
        NodeList::Nil => Seq::empty(),
        NodeList::Cons(h, rest) => stmt_error_refs(h) + list_error_refs(&**rest),
    }
}

pub open spec fn preamble_refs<'a>(p: &'a Preamble) -> Seq<ErrorRef<'a>> {
    match p {
        Preamble::Probe(p) => list_error_refs(&p.block.statements),
        Preamble::Error(e) => seq![ErrorRef::Preamble(&**e)],
    }
}

pub open spec fn preamble_error_refs<'a>(l: &'a NodeList<Preamble>) -> Seq<ErrorRef<'a>>
    decreases l,
{
    match l {
        NodeList::Nil => Seq::empty(),
        NodeList::Cons(h, rest) => preamble_refs(h) + preamble_error_refs(&**rest),
    }
}

fn collect_stmt<'a>(st: &'a Statement, out: &mut Vec<ErrorRef<'a>>)
    ensures
        final(out)@ == old(out)@ + stmt_error_refs(st),
    decreases st,
{
    match st {
        Statement::Error(e) => {
            out.push(ErrorRef::Statement(&**e));
        },
        Statement::Assignment(_) => {
            assert(old(out)@ + stmt_error_refs(st) =~= old(out)@);
        },
        Statement::Expr(_) => {
            assert(old(out)@ + stmt_error_refs(st) =~= old(out)@);
        },
        Statement::IfCond(i) => collect_list(&i.block.statements, out),
        Statement::Loop(l) => match &**l {
            Loop::While(w) => collect_list(&w.block.statements, out),
            Loop::For(f) => collect_list(&f.block.statements, out),
        },
    }
}

fn collect_list<'a>(l: &'a NodeList<Statement>, out: &mut Vec<ErrorRef<'a>>)
    ensures
        final(out)@ == old(out)@ + list_error_refs(l),
    decreases l,
{
    match l {
        NodeList::Nil => {
            assert(old(out)@ + list_error_refs(l) =~= old(out)@);
        },
        NodeList::Cons(h, rest) => {
            let ghost before = out@;
            collect_stmt(h, out);
            collect_list(&**rest, out);
            assert(out@ =~= before + list_error_refs(l));
        },
    }
}

fn collect_preambles<'a>(l: &'a NodeList<Preamble>, out: &mut Vec<ErrorRef<'a>>)
    ensures
        final(out)@ == old(out)@ + preamble_error_refs(l),
    decreases l,
{
    match l {
        NodeList::Nil => {
            assert(old(out)@ + preamble_error_refs(l) =~= old(out)@);
        },
        NodeList::Cons(h, rest) => {
            let ghost before = out@;
            match h {
                Preamble::Probe(p) => collect_list(&p.block.statements, out),
                Preamble::Error(e) => out.push(ErrorRef::Preamble(&**e)),
            }
            collect_preambles(&**rest, out);
            assert(out@ =~= before + preamble_error_refs(l));
        },
    }
}

impl Program {
    pub fn as_node<'a>(&'a self) -> (r: NodeRef<'a>)
        ensures
            r == NodeRef::Program(self),
    {
        NodeRef::Program(self)
    }

    /// The error nodes of the whole tree, syntactic and semantic, in pre-order.
    pub open spec fn spec_errors<'a>(&'a self) -> Seq<ErrorRef<'a>> {
        preamble_error_refs(&self.preambles)
    }

    /// Collects every error node of the tree, in pre-order.
    pub fn errors<'a>(&'a self) -> (r: Vec<ErrorRef<'a>>)
        ensures
            r@ == self.spec_errors(),
    {
        let mut out: Vec<ErrorRef<'a>> = Vec::new();
        collect_preambles(&self.preambles, &mut out);
        assert(out@ =~= self.spec_errors());
        out
    }
}

impl Block {
    /// The error nodes under this block, in pre-order.
    pub fn errors<'a>(&'a self) -> (r: Vec<ErrorRef<'a>>)
        ensures
            r@ == list_error_refs(&self.statements),
    {
        let mut out: Vec<ErrorRef<'a>> = Vec::new();
        collect_list(&self.statements, &mut out);
        assert(out@ =~= list_error_refs(&self.statements));
        out
    }
}

impl ErrorStatement {
    pub open spec fn spec_span(&self) -> Span {
        match self {
            ErrorStatement::UnknownStatement(e) => e.span,
            ErrorStatement::UndefinedIdent(e) => e.span,
            ErrorStatement::UndefinedFunc(e) => e.span,
        }
    }

    /// The span that a diagnostic for this error covers.
    #[verifier::when_used_as_spec(spec_span)]
    pub fn span(&self) -> (r: Span)
        ensures
            r == self.spec_span(),
    {
        match self {
            ErrorStatement::UnknownStatement(e) => e.span,
            ErrorStatement::UndefinedIdent(e) => e.span,
            ErrorStatement::UndefinedFunc(e) => e.span,
        }
    }
}

impl ErrorPreamble {
    pub open spec fn spec_span(&self) -> Span {
        match self {
            ErrorPreamble::UnknownPreamble(e) => e.span,
            ErrorPreamble::UnmatchedBrace(e) => e.span,
        }
    }

    #[verifier::when_used_as_spec(spec_span)]
    pub fn span(&self) -> (r: Span)
        ensures
            r == self.spec_span(),
    {
        match self {
            ErrorPreamble::UnknownPreamble(e) => e.span,
            ErrorPreamble::UnmatchedBrace(e) => e.span,
        }
    }
}

impl<'a> ErrorRef<'a> {
    pub open spec fn spec_span(&self) -> Span {
        match self {
            ErrorRef::Statement(e) => e.spec_span(),
            ErrorRef::Preamble(e) => e.spec_span(),
        }
    }

    #[verifier::when_used_as_spec(spec_span)]
    pub fn span(&self) -> (r: Span)
        ensures
            r == self.spec_span(),
    {
        match self {
            ErrorRef::Statement(e) => e.span(),
            ErrorRef::Preamble(e) => e.span(),
        }
    }
}

/// A reference to a node of any category.
#[derive(Clone, Copy, Debug)]
pub enum NodeRef<'a> {
    Program(&'a Program),
    Preamble(&'a Preamble),
    Block(&'a Block),
    Statement(&'a Statement),
    Expr(&'a Expr),
    Identifier(&'a Identifier),
    ErrorStatement(&'a ErrorStatement),
    ErrorPreamble(&'a ErrorPreamble),
}

pub open spec fn stmt_refs<'a>(l: &'a NodeList<Statement>) -> Seq<NodeRef<'a>>
    decreases l,
{
    match l {
        NodeList::Nil => Seq::empty(),
        NodeList::Cons(h, rest) => seq![NodeRef::Statement(h)] + stmt_refs(&**rest),
    }
}

pub open spec fn expr_refs<'a>(l: &'a NodeList<Expr>) -> Seq<NodeRef<'a>>
    decreases l,
{
    match l {
        NodeList::Nil => Seq::empty(),
        NodeList::Cons(h, rest) => seq![NodeRef::Expr(h)] + expr_refs(&**rest),
    }
}

pub open spec fn preamble_refs_of<'a>(l: &'a NodeList<Preamble>) -> Seq<NodeRef<'a>>
    decreases l,
{
    match l {
        NodeList::Nil => Seq::empty(),
        NodeList::Cons(h, rest) => seq![NodeRef::Preamble(h)] + preamble_refs_of(&**rest),
    }
}

pub open spec fn lvalue_ident<'a>(l: &'a Lvalue) -> &'a Identifier {
    match l {
        Lvalue::Identifier(id) => &**id,
    }
}

impl<'a> NodeRef<'a> {
    /// The children of a node, in source order.
    pub open spec fn spec_children(self) -> Seq<NodeRef<'a>> {
        match self {
            NodeRef::Program(p) => preamble_refs_of(&p.preambles),
            NodeRef::Preamble(Preamble::Probe(p)) => match &p.condition {
                Some(c) => seq![NodeRef::Expr(c), NodeRef::Block(&p.block)],
                None => seq![NodeRef::Block(&p.block)],
            },
            NodeRef::Preamble(Preamble::Error(e)) => seq![NodeRef::ErrorPreamble(&**e)],
            NodeRef::Block(b) => stmt_refs(&b.statements),
            NodeRef::Statement(Statement::Error(e)) => seq![NodeRef::ErrorStatement(&**e)],
            NodeRef::Statement(Statement::Assignment(a)) => seq![
                NodeRef::Identifier(lvalue_ident(&a.lvalue)),
                NodeRef::Expr(&*a.rvalue),
            ],
            NodeRef::Statement(Statement::IfCond(i)) => seq![
                NodeRef::Expr(&*i.condition),
                NodeRef::Block(&i.block),
            ],
            NodeRef::Statement(Statement::Loop(l)) => match &**l {
                Loop::While(w) => seq![NodeRef::Expr(&*w.condition), NodeRef::Block(&w.block)],
                Loop::For(f) => seq![
                    NodeRef::Expr(&*f.lhs),
                    NodeRef::Expr(&*f.rhs),
                    NodeRef::Block(&f.block),
                ],
            },
            NodeRef::Statement(Statement::Expr(e)) => seq![NodeRef::Expr(&**e)],
            NodeRef::Expr(Expr::Call(c)) => seq![NodeRef::Identifier(&c.func)] + expr_refs(&c.args),
            NodeRef::Expr(Expr::BinaryExpr(b)) => seq![NodeRef::Expr(&*b.lhs), NodeRef::Expr(&*b.rhs)],
            NodeRef::Expr(Expr::UnaryExpr(u)) => seq![NodeRef::Expr(&*u.expr)],
            _ => Seq::empty(),
        }
    }

    /// The children of this node, in source order.
    pub fn children(&self) -> (r: Vec<NodeRef<'a>>)
        ensures
            r@ == self.spec_children(),
    {
        let mut v: Vec<NodeRef<'a>> = Vec::new();
        match *self {
            NodeRef::Program(p) => {
                let mut cur = &p.preambles;
                loop
                    invariant
                        v@ + preamble_refs_of(cur) == preamble_refs_of(&p.preambles),
                    ensures
                        v@ == preamble_refs_of(&p.preambles),
                    decreases cur,
                {
                    match cur {
                        NodeList::Nil => {
                            assert(v@ + preamble_refs_of(cur) =~= v@);
                            break;
                        },
                        NodeList::Cons(h, rest) => {
                            let ghost old_v = v@;
                            v.push(NodeRef::Preamble(h));
                            assert(v@ + preamble_refs_of(&**rest) =~= old_v + preamble_refs_of(cur));
                            cur = &**rest;
                        },
                    }
                }
            },
            NodeRef::Preamble(Preamble::Probe(p)) => {
                match &p.condition {
                    Some(c) => v.push(NodeRef::Expr(c)),
                    None => {},
                }
                v.push(NodeRef::Block(&p.block));
            },
            NodeRef::Preamble(Preamble::Error(e)) => v.push(NodeRef::ErrorPreamble(&**e)),
            NodeRef::Block(b) => {
                let mut cur = &b.statements;
                loop
                    invariant
                        v@ + stmt_refs(cur) == stmt_refs(&b.statements),
                    ensures
                        v@ == stmt_refs(&b.statements),
                    decreases cur,
                {
                    match cur {
                        NodeList::Nil => {
                            assert(v@ + stmt_refs(cur) =~= v@);
                            break;
                        },
                        NodeList::Cons(h, rest) => {
                            let ghost old_v = v@;
                            v.push(NodeRef::Statement(h));
                            assert(v@ + stmt_refs(&**rest) =~= old_v + stmt_refs(cur));
                            cur = &**rest;
                        },
                    }
                }
            },
            NodeRef::Statement(Statement::Error(e)) => v.push(NodeRef::ErrorStatement(&**e)),
            NodeRef::Statement(Statement::Assignment(a)) => {
                match &a.lvalue {
                    Lvalue::Identifier(id) => v.push(NodeRef::Identifier(&**id)),
                }
                v.push(NodeRef::Expr(&*a.rvalue));
            },
            NodeRef::Statement(Statement::IfCond(i)) => {
                v.push(NodeRef::Expr(&*i.condition));
                v.push(NodeRef::Block(&i.block));
            },
            NodeRef::Statement(Statement::Loop(l)) => match &**l {
                Loop::While(w) => {
                    v.push(NodeRef::Expr(&*w.condition));
                    v.push(NodeRef::Block(&w.block));
                },
                Loop::For(f) => {
                    v.push(NodeRef::Expr(&*f.lhs));
                    v.push(NodeRef::Expr(&*f.rhs));
                    v.push(NodeRef::Block(&f.block));
                },
            },
            NodeRef::Statement(Statement::Expr(e)) => v.push(NodeRef::Expr(&**e)),
            NodeRef::Expr(Expr::Call(c)) => {
                v.push(NodeRef::Identifier(&c.func));
                let mut cur = &c.args;
                loop
                    invariant
                        v@ + expr_refs(cur) == seq![NodeRef::Identifier(&c.func)] + expr_refs(
                            &c.args,
                        ),
                    ensures
                        v@ == seq![NodeRef::Identifier(&c.func)] + expr_refs(&c.args),
                    decreases cur,
                {
                    match cur {
                        NodeList::Nil => {
                            assert(v@ + expr_refs(cur) =~= v@);
                            break;
                        },
                        NodeList::Cons(h, rest) => {
                            let ghost old_v = v@;
                            v.push(NodeRef::Expr(h));
                            assert(v@ + expr_refs(&**rest) =~= old_v + expr_refs(cur));
                            cur = &**rest;
                        },
                    }
                }
            },
            NodeRef::Expr(Expr::BinaryExpr(b)) => {
                v.push(NodeRef::Expr(&*b.lhs));
                v.push(NodeRef::Expr(&*b.rhs));
            },
            NodeRef::Expr(Expr::UnaryExpr(u)) => v.push(NodeRef::Expr(&*u.expr)),
            _ => {},
        }
        assert(v@ =~= self.spec_children());
        v
    }

    pub open spec fn spec_span(self) -> Span {
        match self {
            NodeRef::Program(p) => p.span,
            NodeRef::Preamble(Preamble::Probe(p)) => p.span,
            NodeRef::Preamble(Preamble::Error(e)) => e.spec_span(),
            NodeRef::Block(b) => b.span,
            NodeRef::Statement(Statement::Error(e)) => e.spec_span(),
            NodeRef::Statement(Statement::Assignment(a)) => a.span,
            NodeRef::Statement(Statement::IfCond(i)) => i.span,
            NodeRef::Statement(Statement::Loop(l)) => match &**l {
                Loop::While(w) => w.span,
                Loop::For(f) => f.span,
            },
            NodeRef::Statement(Statement::Expr(e)) => e.spec_span(),
            NodeRef::Expr(e) => e.spec_span(),
            NodeRef::Identifier(id) => id.span,
            NodeRef::ErrorStatement(e) => e.spec_span(),
            NodeRef::ErrorPreamble(e) => e.spec_span(),
        }
    }

    /// The source range of the node.
    #[verifier::when_used_as_spec(spec_span)]
    pub fn span(self) -> (r: Span)
        ensures
            r == self.spec_span(),
    {
        match self {
            NodeRef::Program(p) => p.span,
            NodeRef::Preamble(Preamble::Probe(p)) => p.span,
            NodeRef::Preamble(Preamble::Error(e)) => e.span(),
            NodeRef::Block(b) => b.span,
            NodeRef::Statement(Statement::Error(e)) => e.span(),
            NodeRef::Statement(Statement::Assignment(a)) => a.span,
            NodeRef::Statement(Statement::IfCond(i)) => i.span,
            NodeRef::Statement(Statement::Loop(l)) => match &**l {
                Loop::While(w) => w.span,
                Loop::For(f) => f.span,
            },
            NodeRef::Statement(Statement::Expr(e)) => e.span(),
            NodeRef::Expr(e) => e.span(),
            NodeRef::Identifier(id) => id.span,
            NodeRef::ErrorStatement(e) => e.span(),
            NodeRef::ErrorPreamble(e) => e.span(),
        }
    }

    /// The node as an error, when it is one.
    pub fn as_error(&self) -> (r: Option<ErrorRef<'a>>)
        ensures
            r == match *self {
                NodeRef::ErrorStatement(e) => Some(ErrorRef::Statement(e)),
                NodeRef::ErrorPreamble(e) => Some(ErrorRef::Preamble(e)),
                _ => None::<ErrorRef<'a>>,
            },
    {
        match *self {
            NodeRef::ErrorStatement(e) => Some(ErrorRef::Statement(e)),
            NodeRef::ErrorPreamble(e) => Some(ErrorRef::Preamble(e)),
            _ => None,
        }
    }

    /// The node as a statement, when it is one.
    pub fn as_statement(&self) -> (r: Option<&'a Statement>)
        ensures
            r == match *self {
                NodeRef::Statement(s) => Some(s),
                _ => None::<&'a Statement>,
            },
    {
        match *self {
            NodeRef::Statement(s) => Some(s),
            _ => None,
        }
    }

    /// The node as an expression, when it is one.
    pub fn as_expr(&self) -> (r: Option<&'a Expr>)
        ensures
            r == match *self {
                NodeRef::Expr(e) => Some(e),
                _ => None::<&'a Expr>,
            },
    {
        match *self {
            NodeRef::Expr(e) => Some(e),
            _ => None,
        }
    }
}

pub open spec fn pre_preambles<'a>(l: &'a NodeList<Preamble>) -> Seq<NodeRef<'a>>
    decreases l,
{
    match l {
        NodeList::Nil => Seq::empty(),
        NodeList::Cons(h, rest) => pre_preamble(h) + pre_preambles(&**rest),
    }
}

pub open spec fn pre_preamble<'a>(pr: &'a Preamble) -> Seq<NodeRef<'a>>
    decreases pr,
{
    seq![NodeRef::Preamble(pr)] + match pr {
        Preamble::Probe(p) => match &p.condition {
            Some(c) => pre_expr(c) + pre_block(&p.block),
            None => pre_block(&p.block),
        },
        Preamble::Error(e) => seq![NodeRef::ErrorPreamble(&**e)],
    }
}

pub open spec fn pre_block<'a>(b: &'a Block) -> Seq<NodeRef<'a>>
    decreases b,
{
    seq![NodeRef::Block(b)] + pre_stmts(&b.statements)
}

pub open spec fn pre_stmts<'a>(l: &'a NodeList<Statement>) -> Seq<NodeRef<'a>>
    decreases l,
{
    match l {
        NodeList::Nil => Seq::empty(),
        NodeList::Cons(h, rest) => pre_stmt(h) + pre_stmts(&**rest),
    }
}

pub open spec fn pre_stmt<'a>(st: &'a Statement) -> Seq<NodeRef<'a>>
    decreases st,
{
    seq![NodeRef::Statement(st)] + match st {
        Statement::Error(e) => seq![NodeRef::ErrorStatement(&**e)],
        Statement::Assignment(a) => seq![NodeRef::Identifier(lvalue_ident(&a.lvalue))] + pre_expr(
            &*a.rvalue,
        ),
        Statement::IfCond(i) => pre_expr(&*i.condition) + pre_block(&i.block),
        Statement::Loop(l) => match &**l {
            Loop::While(w) => pre_expr(&*w.condition) + pre_block(&w.block),
            Loop::For(f) => pre_expr(&*f.lhs) + pre_expr(&*f.rhs) + pre_block(&f.block),
        },
        Statement::Expr(e) => pre_expr(&**e),
    }
}

pub open spec fn pre_expr<'a>(e: &'a Expr) -> Seq<NodeRef<'a>>
    decreases e,
{
    seq![NodeRef::Expr(e)] + match e {
        Expr::Call(c) => seq![NodeRef::Identifier(&c.func)] + pre_args(&c.args),
        Expr::BinaryExpr(b) => pre_expr(&*b.lhs) + pre_expr(&*b.rhs),
        Expr::UnaryExpr(u) => pre_expr(&*u.expr),
        _ => Seq::empty(),
    }
}

pub open spec fn pre_args<'a>(l: &'a NodeList<Expr>) -> Seq<NodeRef<'a>>
    decreases l,
{
    match l {
        NodeList::Nil => Seq::empty(),
        NodeList::Cons(h, rest) => pre_expr(h) + pre_args(&**rest),
    }
}

/// The pre-order sequence of a node and everything under it.
pub open spec fn preorder<'a>(n: NodeRef<'a>) -> Seq<NodeRef<'a>> {
    match n {
        NodeRef::Program(p) => seq![n] + pre_preambles(&p.preambles),
        NodeRef::Preamble(pr) => pre_preamble(pr),
        NodeRef::Block(b) => pre_block(b),
        NodeRef::Statement(st) => pre_stmt(st),
        NodeRef::Expr(e) => pre_expr(e),
        _ => seq![n],
    }
}

/// The pre-order sequences of the nodes `cs`, one after another.
pub open spec fn flatten<'a>(cs: Seq<NodeRef<'a>>) -> Seq<NodeRef<'a>>
    decreases cs.len(),
{
    if cs.len() == 0 {
        Seq::empty()
    } else {
        preorder(cs[0]) + flatten(cs.drop_first())
    }
}

proof fn lemma_flatten_concat<'a>(a: Seq<NodeRef<'a>>, b: Seq<NodeRef<'a>>)
    ensures
        flatten(a + b) == flatten(a) + flatten(b),
    decreases a.len(),
{
    if a.len() == 0 {
        assert(a + b =~= b);
        assert(flatten(a) + flatten(b) =~= flatten(b));
    } else {
        assert((a + b).drop_first() =~= a.drop_first() + b);
        lemma_flatten_concat(a.drop_first(), b);
        assert((a + b)[0] == a[0]);
        assert(preorder(a[0]) + (flatten(a.drop_first()) + flatten(b)) =~= flatten(a) + flatten(b));
    }
}

proof fn lemma_flatten_one<'a>(x: NodeRef<'a>)
    ensures
        flatten(seq![x]) == preorder(x),
{
    assert(seq![x].drop_first() =~= Seq::<NodeRef<'a>>::empty());
    assert(seq![x][0] == x);
    assert(flatten(Seq::<NodeRef<'a>>::empty()) == Seq::<NodeRef<'a>>::empty());
    assert(preorder(x) + Seq::<NodeRef<'a>>::empty() =~= preorder(x));
}

proof fn lemma_flatten_stmts<'a>(l: &'a NodeList<Statement>)
    ensures
        flatten(stmt_refs(l)) == pre_stmts(l),
    decreases l,
{
    match l {
        NodeList::Nil => {},
        NodeList::Cons(h, rest) => {
            lemma_flatten_stmts(&**rest);
            lemma_flatten_concat(seq![NodeRef::Statement(h)], stmt_refs(&**rest));
            lemma_flatten_one(NodeRef::Statement(h));
        },
    }
}

proof fn lemma_flatten_args<'a>(l: &'a NodeList<Expr>)
    ensures
        flatten(expr_refs(l)) == pre_args(l),
    decreases l,
{
    match l {
        NodeList::Nil => {},
        NodeList::Cons(h, rest) => {
            lemma_flatten_args(&**rest);
            lemma_flatten_concat(seq![NodeRef::Expr(h)], expr_refs(&**rest));
            lemma_flatten_one(NodeRef::Expr(h));
        },
    }
}

proof fn lemma_flatten_preambles<'a>(l: &'a NodeList<Preamble>)
    ensures
        flatten(preamble_refs_of(l)) == pre_preambles(l),
    decreases l,
{
    match l {
        NodeList::Nil => {},
        NodeList::Cons(h, rest) => {
            lemma_flatten_preambles(&**rest);
            lemma_flatten_concat(seq![NodeRef::Preamble(h)], preamble_refs_of(&**rest));
            lemma_flatten_one(NodeRef::Preamble(h));
        },
    }
}

proof fn lemma_flatten_two<'a>(x: NodeRef<'a>, y: NodeRef<'a>)
    ensures
        flatten(seq![x, y]) == preorder(x) + preorder(y),
{
    assert(seq![x, y] =~= seq![x] + seq![y]);
    lemma_flatten_concat(seq![x], seq![y]);
    lemma_flatten_one(x);
    lemma_flatten_one(y);
}

/// A node's pre-order sequence is the node followed by those of its children.
pub proof fn lemma_preorder_unfold<'a>(n: NodeRef<'a>)
    ensures
        preorder(n) == seq![n] + flatten(n.spec_children()),
{
    match n {
        NodeRef::Program(p) => {
            lemma_flatten_preambles(&p.preambles);
        },
        NodeRef::Preamble(pr) => match pr {
            Preamble::Probe(p) => match &p.condition {
                Some(c) => {
                    lemma_flatten_two(NodeRef::Expr(c), NodeRef::Block(&p.block));
                },
                None => {
                    lemma_flatten_one(NodeRef::Block(&p.block));
                },
            },
            Preamble::Error(e) => {
                lemma_flatten_one(NodeRef::ErrorPreamble(&**e));
            },
        },
        NodeRef::Block(b) => {
            lemma_flatten_stmts(&b.statements);
        },
        NodeRef::Statement(st) => match st {
            Statement::Error(e) => {
                lemma_flatten_one(NodeRef::ErrorStatement(&**e));
            },
            Statement::Assignment(a) => {
                lemma_flatten_two(NodeRef::Identifier(lvalue_ident(&a.lvalue)), NodeRef::Expr(&*a.rvalue));
            },
            Statement::IfCond(i) => {
                lemma_flatten_two(NodeRef::Expr(&*i.condition), NodeRef::Block(&i.block));
            },
            Statement::Loop(l) => match &**l {
                Loop::While(w) => {
                    lemma_flatten_two(NodeRef::Expr(&*w.condition), NodeRef::Block(&w.block));
                },
                Loop::For(f) => {
                    let a = NodeRef::Expr(&*f.lhs);
                    let b = NodeRef::Expr(&*f.rhs);
                    let c = NodeRef::Block(&f.block);
                    assert(seq![a, b, c] =~= seq![a, b] + seq![c]);
                    lemma_flatten_concat(seq![a, b], seq![c]);
                    lemma_flatten_two(a, b);
                    lemma_flatten_one(c);
                },
            },
            Statement::Expr(e) => {
                lemma_flatten_one(NodeRef::Expr(&**e));
            },
        },
        NodeRef::Expr(e) => match e {
            Expr::Call(c) => {
                lemma_flatten_args(&c.args);
                lemma_flatten_concat(seq![NodeRef::Identifier(&c.func)], expr_refs(&c.args));
                lemma_flatten_one(NodeRef::Identifier(&c.func));
            },
            Expr::BinaryExpr(b) => {
                lemma_flatten_two(NodeRef::Expr(&*b.lhs), NodeRef::Expr(&*b.rhs));
            },
            Expr::UnaryExpr(u) => {
                lemma_flatten_one(NodeRef::Expr(&*u.expr));
            },
            _ => {},
        },
        _ => {},
    }
}

/// The nodes still to be visited for a stack whose top is its last element.
pub open spec fn pending<'a>(stack: Seq<NodeRef<'a>>) -> Seq<NodeRef<'a>>
    decreases stack.len(),
{
    if stack.len() == 0 {
        Seq::empty()
    } else {
        preorder(stack.last()) + pending(stack.drop_last())
    }
}

/// A depth-first pre-order walk over a tree, driven by an explicit stack.
pub struct Walk<'a> {
    stack: Vec<NodeRef<'a>>,
}

impl<'a> Walk<'a> {
    /// The nodes that the walk has still to visit, in order.
    pub closed spec fn remaining(&self) -> Seq<NodeRef<'a>> {
        pending(self.stack@)
    }

    pub fn new(node: NodeRef<'a>) -> (r: Walk<'a>)
        ensures
            r.remaining() == preorder(node),
    {
        let r = Walk { stack: vec![node] };
        proof {
            assert(r.stack@ =~= seq![node]);
            assert(r.stack@.last() == node);
            assert(r.stack@.drop_last() =~= Seq::<NodeRef<'a>>::empty());
            assert(pending(Seq::<NodeRef<'a>>::empty()) == Seq::<NodeRef<'a>>::empty());
            assert(preorder(node) + Seq::<NodeRef<'a>>::empty() =~= preorder(node));
        }
        r
    }

    /// The next node in pre-order.
    pub fn next(&mut self) -> (r: Option<NodeRef<'a>>)
        ensures
            match r {
                Some(n) => old(self).remaining() == seq![n] + final(self).remaining(),
                None => old(self).remaining().len() == 0 && final(self).remaining() == old(
                    self,
                ).remaining(),
            },
    {
        let n = match self.stack.pop() {
            Some(n) => n,
            None => {
                return None;
            },
        };
        let ghost base = self.stack@;
        let cs = n.children();
        proof {
            lemma_preorder_unfold(n);
        }
        let mut k = cs.len();
        while k > 0
            invariant
                k <= cs@.len(),
                cs@ == n.spec_children(),
                pending(self.stack@) == flatten(cs@.subrange(k as int, cs@.len() as int)) + pending(
                    base,
                ),
            decreases k,
        {
            k = k - 1;
            let ghost before = self.stack@;
            self.stack.push(cs[k]);
            proof {
                let sub = cs@.subrange(k as int, cs@.len() as int);
                assert(self.stack@.drop_last() =~= before);
                assert(sub.drop_first() =~= cs@.subrange(k + 1, cs@.len() as int));
                assert(sub[0] == cs@[k as int]);
                assert(pending(self.stack@) =~= flatten(sub) + pending(base));
            }
        }
        proof {
            assert(cs@.subrange(0, cs@.len() as int) =~= cs@);
            assert(seq![n] + (flatten(cs@) + pending(base)) =~= (seq![n] + flatten(cs@)) + pending(
                base,
            ));
        }
        Some(n)
    }
}

pub open spec fn error_view<'a>(n: NodeRef<'a>) -> Seq<ErrorRef<'a>> {
    match n {
        NodeRef::ErrorStatement(e) => seq![ErrorRef::Statement(e)],
        NodeRef::ErrorPreamble(e) => seq![ErrorRef::Preamble(e)],
        _ => Seq::empty(),
    }
}

/// The error views of the nodes `s`, in order.
pub open spec fn errors_in<'a>(s: Seq<NodeRef<'a>>) -> Seq<ErrorRef<'a>>
    decreases s.len(),
{
    if s.len() == 0 {
        Seq::empty()
    } else {
        error_view(s[0]) + errors_in(s.drop_first())
    }
}

/// A walk that yields only the error nodes, from anywhere in the tree.
pub struct FilterWalk<'a> {
    inner: Walk<'a>,
}

impl<'a> FilterWalk<'a> {
    /// The errors that the walk has still to yield, in order.
    pub closed spec fn remaining(&self) -> Seq<ErrorRef<'a>> {
        errors_in(self.inner.remaining())
    }

    pub fn new(node: NodeRef<'a>) -> (r: FilterWalk<'a>)
        ensures
            r.remaining() == errors_in(preorder(node)),
    {
        FilterWalk { inner: Walk::new(node) }
    }

    /// The next error node in pre-order.
    pub fn next(&mut self) -> (r: Option<ErrorRef<'a>>)
        ensures
            match r {
                Some(e) => old(self).remaining() == seq![e] + final(self).remaining(),
                None => old(self).remaining().len() == 0,
            },
    {
        let ghost start = self.remaining();
        loop
            invariant
                self.remaining() == start,
                start == old(self).remaining(),
            decreases self.inner.remaining().len(),
        {
            let ghost before = self.inner.remaining();
            match self.inner.next() {
                Some(n) => {
                    proof {
                        assert((seq![n] + self.inner.remaining()).drop_first() =~= self.inner.remaining());
                        assert((seq![n] + self.inner.remaining())[0] == n);
                    }
                    match n.as_error() {
                        Some(e) => {
                            assert(errors_in(before) == error_view(n) + errors_in(self.inner.remaining()));
                            assert(error_view(n) == seq![e]);
                            return Some(e);
                        },
                        None => {
                            assert(errors_in(before) =~= errors_in(self.inner.remaining()));
                        },
                    }
                },
                None => {
                    assert(before =~= Seq::<NodeRef<'a>>::empty());
                    return None;
                },
            }
        }
    }
}

proof fn lemma_errors_in_concat<'a>(a: Seq<NodeRef<'a>>, b: Seq<NodeRef<'a>>)
    ensures
        errors_in(a + b) == errors_in(a) + errors_in(b),
    decreases a.len(),
{
    if a.len() == 0 {
        assert(a + b =~= b);
        assert(errors_in(a) + errors_in(b) =~= errors_in(b));
    } else {
        assert((a + b).drop_first() =~= a.drop_first() + b);
        assert((a + b)[0] == a[0]);
        lemma_errors_in_concat(a.drop_first(), b);
        assert(error_view(a[0]) + (errors_in(a.drop_first()) + errors_in(b)) =~= errors_in(a)
            + errors_in(b));
    }
}

proof fn lemma_errors_in_one<'a>(n: NodeRef<'a>)
    ensures
        errors_in(seq![n]) == error_view(n),
{
    assert(seq![n].drop_first() =~= Seq::<NodeRef<'a>>::empty());
    assert(seq![n][0] == n);
    assert(errors_in(Seq::<NodeRef<'a>>::empty()) == Seq::<ErrorRef<'a>>::empty());
    assert(error_view(n) + Seq::<ErrorRef<'a>>::empty() =~= error_view(n));
}

/// Adds `n` in front of a sequence whose errors are known.
proof fn lemma_errors_in_cons<'a>(n: NodeRef<'a>, rest: Seq<NodeRef<'a>>)
    ensures
        errors_in(seq![n] + rest) == error_view(n) + errors_in(rest),
{
    lemma_errors_in_concat(seq![n], rest);
    lemma_errors_in_one(n);
}

proof fn lemma_expr_errors_in<'a>(e: &'a Expr)
    ensures
        errors_in(pre_expr(e)) == Seq::<ErrorRef<'a>>::empty(),
    decreases e,
{
    let rest = match e {
        Expr::Call(c) => seq![NodeRef::Identifier(&c.func)] + pre_args(&c.args),
        Expr::BinaryExpr(b) => pre_expr(&*b.lhs) + pre_expr(&*b.rhs),
        Expr::UnaryExpr(u) => pre_expr(&*u.expr),
        _ => Seq::empty(),
    };
    lemma_errors_in_cons(NodeRef::Expr(e), rest);
    match e {
        Expr::Call(c) => {
            lemma_args_errors_in(&c.args);
            lemma_errors_in_cons(NodeRef::Identifier(&c.func), pre_args(&c.args));
        },
        Expr::BinaryExpr(b) => {
            lemma_expr_errors_in(&*b.lhs);
            lemma_expr_errors_in(&*b.rhs);
            lemma_errors_in_concat(pre_expr(&*b.lhs), pre_expr(&*b.rhs));
        },
        Expr::UnaryExpr(u) => {
            lemma_expr_errors_in(&*u.expr);
        },
        _ => {},
    }
    assert(errors_in(pre_expr(e)) =~= Seq::<ErrorRef<'a>>::empty());
}

proof fn lemma_args_errors_in<'a>(l: &'a NodeList<Expr>)
    ensures
        errors_in(pre_args(l)) == Seq::<ErrorRef<'a>>::empty(),
    decreases l,
{
    match l {
        NodeList::Nil => {},
        NodeList::Cons(h, rest) => {
            lemma_expr_errors_in(h);
            lemma_args_errors_in(&**rest);
            lemma_errors_in_concat(pre_expr(h), pre_args(&**rest));
            assert(errors_in(pre_args(l)) =~= Seq::<ErrorRef<'a>>::empty());
        },
    }
}

proof fn lemma_stmt_errors_in<'a>(st: &'a Statement)
    ensures
        errors_in(pre_stmt(st)) == stmt_error_refs(st),
    decreases st,
{
    let rest = match st {
        Statement::Error(e) => seq![NodeRef::ErrorStatement(&**e)],
        Statement::Assignment(a) => seq![NodeRef::Identifier(lvalue_ident(&a.lvalue))] + pre_expr(
            &*a.rvalue,
        ),
        Statement::IfCond(i) => pre_expr(&*i.condition) + pre_block(&i.block),
        Statement::Loop(l) => match &**l {
            Loop::While(w) => pre_expr(&*w.condition) + pre_block(&w.block),
            Loop::For(f) => pre_expr(&*f.lhs) + pre_expr(&*f.rhs) + pre_block(&f.block),
        },
        Statement::Expr(e) => pre_expr(&**e),
    };
    lemma_errors_in_cons(NodeRef::Statement(st), rest);
    match st {
        Statement::Error(e) => {
            lemma_errors_in_one(NodeRef::ErrorStatement(&**e));
        },
        Statement::Assignment(a) => {
            lemma_expr_errors_in(&*a.rvalue);
            lemma_errors_in_cons(NodeRef::Identifier(lvalue_ident(&a.lvalue)), pre_expr(&*a.rvalue));
        },
        Statement::IfCond(i) => {
            lemma_expr_errors_in(&*i.condition);
            lemma_block_errors_in(&i.block);
            lemma_errors_in_concat(pre_expr(&*i.condition), pre_block(&i.block));
        },
        Statement::Loop(l) => match &**l {
            Loop::While(w) => {
                lemma_expr_errors_in(&*w.condition);
                lemma_block_errors_in(&w.block);
                lemma_errors_in_concat(pre_expr(&*w.condition), pre_block(&w.block));
            },
            Loop::For(f) => {
                lemma_expr_errors_in(&*f.lhs);
                lemma_expr_errors_in(&*f.rhs);
                lemma_block_errors_in(&f.block);
                lemma_errors_in_concat(pre_expr(&*f.lhs), pre_expr(&*f.rhs));
                lemma_errors_in_concat(pre_expr(&*f.lhs) + pre_expr(&*f.rhs), pre_block(&f.block));
            },
        },
        Statement::Expr(e) => {
            lemma_expr_errors_in(&**e);
        },
    }
    assert(errors_in(pre_stmt(st)) =~= stmt_error_refs(st));
}

proof fn lemma_stmts_errors_in<'a>(l: &'a NodeList<Statement>)
    ensures
        errors_in(pre_stmts(l)) == list_error_refs(l),
    decreases l,
{
    match l {
        NodeList::Nil => {},
        NodeList::Cons(h, rest) => {
            lemma_stmt_errors_in(h);
            lemma_stmts_errors_in(&**rest);
            lemma_errors_in_concat(pre_stmt(h), pre_stmts(&**rest));
        },
    }
}

proof fn lemma_block_errors_in<'a>(b: &'a Block)
    ensures
        errors_in(pre_block(b)) == list_error_refs(&b.statements),
    decreases b,
{
    lemma_stmts_errors_in(&b.statements);
    lemma_errors_in_cons(NodeRef::Block(b), pre_stmts(&b.statements));
    assert(errors_in(pre_block(b)) =~= list_error_refs(&b.statements));
}

proof fn lemma_preamble_errors_in<'a>(pr: &'a Preamble)
    ensures
        errors_in(pre_preamble(pr)) == preamble_refs(pr),
{
    match pr {
        Preamble::Probe(p) => {
            lemma_block_errors_in(&p.block);
            match &p.condition {
                Some(c) => {
                    lemma_expr_errors_in(c);
                    lemma_errors_in_concat(pre_expr(c), pre_block(&p.block));
                    lemma_errors_in_cons(NodeRef::Preamble(pr), pre_expr(c) + pre_block(&p.block));
                },
                None => {
                    lemma_errors_in_cons(NodeRef::Preamble(pr), pre_block(&p.block));
                },
            }
        },
        Preamble::Error(e) => {
            lemma_errors_in_one(NodeRef::ErrorPreamble(&**e));
            lemma_errors_in_cons(NodeRef::Preamble(pr), seq![NodeRef::ErrorPreamble(&**e)]);
        },
    }
    assert(errors_in(pre_preamble(pr)) =~= preamble_refs(pr));
}

proof fn lemma_preambles_errors_in<'a>(l: &'a NodeList<Preamble>)
    ensures
        errors_in(pre_preambles(l)) == preamble_error_refs(l),
    decreases l,
{
    match l {
        NodeList::Nil => {},
        NodeList::Cons(h, rest) => {
            lemma_preamble_errors_in(h);
            lemma_preambles_errors_in(&**rest);
            lemma_errors_in_concat(pre_preamble(h), pre_preambles(&**rest));
        },
    }
}

/// The errors of a program, as `Program::errors` collects them, are exactly what the
/// error-filtering walk yields over the pre-order of the whole tree.
pub proof fn law_errors_are_the_filtered_walk<'a>(p: &'a Program)
    ensures
        errors_in(preorder(NodeRef::Program(p))) == p.spec_errors(),
{
    lemma_preambles_errors_in(&p.preambles);
    lemma_errors_in_cons(NodeRef::Program(p), pre_preambles(&p.preambles));
    assert(errors_in(preorder(NodeRef::Program(p))) =~= p.spec_errors());
}

} // verus!
