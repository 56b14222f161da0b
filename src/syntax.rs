use vstd::prelude::*;

verus! {

/// A half-open byte range `start..end` into the source text of one document.
#[derive(Clone, Copy, Debug, PartialEq, Eq, Structural)]
pub struct Span {
    pub start: usize,
    pub end: usize,
}

impl Span {
    pub open spec fn wf(self, len: nat) -> bool {
        self.start <= self.end <= len
    }

    /// The bytes of `src` that this span covers; nothing when it does not lie within `src`.
    pub open spec fn text(self, src: Seq<u8>) -> Seq<u8> {
        if self.wf(src.len()) {
            src.subrange(self.start as int, self.end as int)
        } else {
            Seq::empty()
        }
    }
}

/// An ordered, singly linked sequence of syntax nodes.
#[derive(Debug)]
pub enum NodeList<T> {
    Nil,
    Cons(T, Box<NodeList<T>>),
}

impl<T> View for NodeList<T> {
    type V = Seq<T>;

    open spec fn view(&self) -> Seq<T> {
        list_items(*self)
    }
}

pub open spec fn list_items<T>(l: NodeList<T>) -> Seq<T>
    decreases l,
{
    match l {
        NodeList::Nil => Seq::empty(),
        NodeList::Cons(head, tail) => seq![head] + list_items(*tail),
    }
}

impl<T> NodeList<T> {
    /// Number of nodes in the list.
    pub fn len(&self) -> (r: usize)
        requires
            self@.len() <= usize::MAX,
        ensures
            r == self@.len(),
    {
        let mut cur = self;
        let mut n: usize = 0;
        loop
            invariant
                n + cur@.len() == self@.len(),
                self@.len() <= usize::MAX,
            decreases cur@.len(),
        {
            match cur {
                NodeList::Nil => {
                    return n;
                },
                NodeList::Cons(_, tail) => {
                    cur = &**tail;
                    n = n + 1;
                },
            }
        }
    }

    pub fn is_empty(&self) -> (r: bool)
        ensures
            r == (self@.len() == 0),
    {
        match self {
            NodeList::Nil => true,
            NodeList::Cons(..) => false,
        }
    }

    /// The node at position `i`, if there is one.
    pub fn get(&self, i: usize) -> (r: Option<&T>)
        ensures
            i < self@.len() ==> r == Some(&self@[i as int]),
            i >= self@.len() ==> r is None,
    {
        let mut cur = self;
        let mut k: usize = i;
        loop
            invariant
                k <= i,
                i - k <= self@.len(),
                cur@ == self@.subrange((i - k) as int, self@.len() as int),
            decreases cur@.len(),
        {
            match cur {
                NodeList::Nil => {
                    return None;
                },
                NodeList::Cons(head, tail) => {
                    assert(cur@ == seq![*head] + tail@);
                    assert(cur@[0] == *head);
                    if k == 0 {
                        return Some(head);
                    }
                    assert(tail@ =~= cur@.subrange(1, cur@.len() as int));
                    assert(tail@ =~= self@.subrange((i - k + 1) as int, self@.len() as int));
                    cur = &**tail;
                    k = k - 1;
                },
            }
        }
    }

    /// The list holding the nodes of `self` followed by those of `other`.
    pub fn append(self, other: NodeList<T>) -> (r: NodeList<T>)
        ensures
            r == list_append(self, other),
            r@ == self@ + other@,
        decreases self,
    {
        proof {
            lemma_list_append(self, other);
        }
        match self {
            NodeList::Nil => other,
            NodeList::Cons(head, tail) => {
                let rest = (*tail).append(other);
                NodeList::Cons(head, Box::new(rest))
            },
        }
    }
}

pub open spec fn list_append<T>(a: NodeList<T>, b: NodeList<T>) -> NodeList<T>
    decreases a,
{
    match a {
        NodeList::Nil => b,
        NodeList::Cons(head, tail) => NodeList::Cons(head, Box::new(list_append(*tail, b))),
    }
}

pub proof fn lemma_list_append<T>(a: NodeList<T>, b: NodeList<T>)
    ensures
        list_append(a, b)@ == a@ + b@,
    decreases a,
{
    match a {
        NodeList::Nil => {
            assert(b@ =~= Seq::<T>::empty() + b@);
        },
        NodeList::Cons(head, tail) => {
            lemma_list_append(*tail, b);
            assert(seq![head] + (tail@ + b@) =~= a@ + b@);
        },
    }
}

#[derive(Debug)]
pub struct Identifier {
    pub span: Span,
}

#[derive(Debug)]
pub struct IntegerLiteral {
    pub value: i64,
    pub span: Span,
}

#[derive(Debug)]
pub struct StringLiteral {
    pub span: Span,
}

#[derive(Debug)]
pub enum Lvalue {
    Identifier(Box<Identifier>),
}

/// An infix operation; the operator itself is not kept.
#[derive(Debug)]
pub struct BinaryExpr {
    pub lhs: Box<Expr>,
    pub rhs: Box<Expr>,
    pub span: Span,
}

/// A prefix or postfix operation; the operator itself is not kept.
#[derive(Debug)]
pub struct UnaryExpr {
    pub expr: Box<Expr>,
    pub span: Span,
}

#[derive(Debug)]
pub struct Call {
    pub func: Identifier,
    pub args: NodeList<Expr>,
    pub span: Span,
}

#[derive(Debug)]
pub enum Expr {
    Identifier(Box<Identifier>),
    Integer(Box<IntegerLiteral>),
    String(Box<StringLiteral>),
    Call(Box<Call>),
    BinaryExpr(Box<BinaryExpr>),
    UnaryExpr(Box<UnaryExpr>),
}

#[derive(Debug, Clone, Copy, PartialEq, Eq, Structural)]
pub enum AssignOp {
    Assign,
    AddAssign,
    SubAssign,
}

#[derive(Debug)]
pub struct Assignment {
    pub lvalue: Lvalue,
    pub op: AssignOp,
    pub rvalue: Box<Expr>,
    pub span: Span,
}

#[derive(Debug)]
pub struct While {
    pub condition: Box<Expr>,
    pub block: Block,
    pub span: Span,
}

#[derive(Debug)]
pub struct For {
    pub lhs: Box<Expr>,
    pub rhs: Box<Expr>,
    pub block: Block,
    pub span: Span,
}

#[derive(Debug)]
pub enum Loop {
    While(Box<While>),
    For(Box<For>),
}

#[derive(Debug)]
pub struct If {
    pub condition: Box<Expr>,
    pub block: Block,
    pub span: Span,
}

/// Text inside a block that no statement rule matches.
#[derive(Debug)]
pub struct UnknownStatement {
    pub span: Span,
}

/// A reference to a name that is neither declared before it nor builtin; its span covers
/// the name without a sigil.
#[derive(Debug)]
pub struct UndefinedIdent {
    pub span: Span,
}

/// A call of a function that is not builtin; `name` covers the callee, `span` the call.
#[derive(Debug)]
pub struct UndefinedFunc {
    pub name: Span,
    pub span: Span,
}

impl UndefinedIdent {
    /// The error statement for an undefined reference at `span`.
    pub fn new(span: Span) -> (r: Statement)
        ensures
            r == Statement::Error(Box::new(ErrorStatement::UndefinedIdent(Box::new(UndefinedIdent { span })))),
    {
        Statement::Error(Box::new(ErrorStatement::UndefinedIdent(Box::new(UndefinedIdent { span }))))
    }
}

impl UndefinedFunc {
    /// The error statement for a call at `span` of the undefined function at `name`.
    pub fn new(name: Span, span: Span) -> (r: Statement)
        ensures
            r == Statement::Error(
                Box::new(ErrorStatement::UndefinedFunc(Box::new(UndefinedFunc { name, span }))),
            ),
    {
        Statement::Error(Box::new(ErrorStatement::UndefinedFunc(Box::new(UndefinedFunc { name, span }))))
    }
}

#[derive(Debug)]
pub enum ErrorStatement {
    UnknownStatement(Box<UnknownStatement>),
    UndefinedIdent(Box<UndefinedIdent>),
    UndefinedFunc(Box<UndefinedFunc>),
}

#[derive(Debug)]
pub enum Statement {
    Error(Box<ErrorStatement>),
    Assignment(Box<Assignment>),
    IfCond(Box<If>),
    Loop(Box<Loop>),
    Expr(Box<Expr>),
}

#[derive(Debug)]
pub struct Block {
    pub statements: NodeList<Statement>,
    pub span: Span,
}

/// A `}` at the top level that closes nothing.
#[derive(Debug)]
pub struct UnmatchedBrace {
    pub span: Span,
}

/// Top-level text that is not a probe.
#[derive(Debug)]
pub struct UnknownPreamble {
    pub span: Span,
}

#[derive(Debug)]
pub enum ErrorPreamble {
    UnknownPreamble(Box<UnknownPreamble>),
    UnmatchedBrace(Box<UnmatchedBrace>),
}

#[derive(Debug)]
pub struct Probe {
    pub attach_points: NodeList<Span>,
    pub condition: Option<Expr>,
    pub block: Block,
    pub span: Span,
}

#[derive(Debug)]
pub enum Preamble {
    Probe(Probe),
    Error(Box<ErrorPreamble>),
}

/// One parsed document.
#[derive(Debug)]
pub struct Program {
    pub preambles: NodeList<Preamble>,
    pub span: Span,
}

impl Expr {
    pub open spec fn spec_span(&self) -> Span {
        match self {
            Expr::Identifier(x) => x.span,
            Expr::Integer(x) => x.span,
            Expr::String(x) => x.span,
            Expr::Call(x) => x.span,
            Expr::BinaryExpr(x) => x.span,
            Expr::UnaryExpr(x) => x.span,
        }
    }

    #[verifier::when_used_as_spec(spec_span)]
    pub fn span(&self) -> (r: Span)
        ensures
            r == self.spec_span(),
    {
        match self {
            Expr::Identifier(x) => x.span,
            Expr::Integer(x) => x.span,
            Expr::String(x) => x.span,
            Expr::Call(x) => x.span,
            Expr::BinaryExpr(x) => x.span,
            Expr::UnaryExpr(x) => x.span,
        }
    }
}

} // verus!
