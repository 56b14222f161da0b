//! The analyzer that editor requests share: it parses a document, runs the scope-aware
//! pass over it, and keeps the text and the declared names of the last analysis.
use crate::builtins::{builtin_functions, builtin_keywords, symbol_names, BuiltinSymbols};
use crate::lexer::lemma_len_fits;
use crate::parser::{parse, program, ParseError};
use crate::expr_parser::mk_span;
use crate::leaves::{
    assignment_ok, block_ok, law_leaves_are_tokens, preambles_ok, probe_ok, stmt_ok, stmts_ok,
};
use crate::lexer::{is_ident_char, lemma_ident_end_bounds, variable_token};
use crate::semantics::{
    analysis, analyze_program, block_pass, declare, lvalue_span, preambles_pass, probe_pass,
    stmt_pass, stmts_pass,
};
use crate::syntax::{Block, Loop, NodeList, Preamble, Probe, Statement};
use crate::syntax::{
    ErrorPreamble, ErrorStatement, Program, Span, UndefinedFunc, UndefinedIdent, UnknownPreamble,
    UnknownStatement, UnmatchedBrace,
};
use crate::walk::ErrorRef;
use vstd::prelude::*;
use vstd::string::{StringExecFns, StringSliceAdditionalSpecFns};
use vstd::utf8::{
    decode_utf8, is_char_boundary, is_char_boundary_iff_not_is_continuation_byte,
    is_char_boundary_start_end_of_seq, is_continuation_byte, length_of_first_scalar,
    pop_first_scalar, valid_utf8, valid_utf8_split,
};

verus! {

/// The bytes of `src` that `sp` covers, when `sp` lies within `src` and both of its ends
/// fall on character boundaries; nothing otherwise.
pub open spec fn piece(src: Seq<u8>, sp: Span) -> Seq<u8> {
    if sp.wf(src.len()) && is_char_boundary(src, sp.end as int) && is_char_boundary(
        src.subrange(0, sp.end as int),
        sp.start as int,
    ) {
        sp.text(src)
    } else {
        Seq::empty()
    }
}

/// In valid UTF-8, the byte after an ASCII byte starts a character.
proof fn lemma_after_ascii(b: Seq<u8>, i: int)
    requires
        valid_utf8(b),
        0 < i < b.len(),
        b[i - 1] < 0x80,
    ensures
        !is_continuation_byte(b[i]),
    decreases b.len(),
{
    let n = length_of_first_scalar(b);
    let tail = pop_first_scalar(b);
    if i < n {
        assert(false);
    } else if i == n {
        assert(tail[0] == b[i]);
        assert(tail.len() > 0);
    } else {
        assert(tail[i - n - 1] == b[i - 1]);
        assert(tail[i - n] == b[i]);
        lemma_after_ascii(tail, i - n);
    }
}

/// A run of ASCII bytes in valid UTF-8 starts and ends on character boundaries.
proof fn lemma_ascii_piece(s: Seq<u8>, i: int, e: int)
    requires
        valid_utf8(s),
        0 <= i < e <= s.len() <= usize::MAX,
        forall|k: int| i <= k < e ==> #[trigger] s[k] < 0x80,
    ensures
        piece(s, mk_span(i, e)) == s.subrange(i, e),
{
    if e == s.len() {
        is_char_boundary_start_end_of_seq(s);
    } else {
        lemma_after_ascii(s, e);
        is_char_boundary_iff_not_is_continuation_byte(s, e);
    }
    valid_utf8_split(s, e);
    let p = s.subrange(0, e);
    assert(p[i] == s[i]);
    is_char_boundary_iff_not_is_continuation_byte(p, i);
}

/// Every declared span is a variable token.
pub open spec fn decl_ok(s: Seq<u8>, d: Seq<Span>) -> bool {
    forall|k: int|
        0 <= k < d.len() ==> variable_token(s, (#[trigger] d[k]).start as int) == Some(
            d[k].end as int,
        )
}

proof fn lemma_declare(s: Seq<u8>, decl: Seq<Span>, sp: Span)
    requires
        decl_ok(s, decl),
        variable_token(s, sp.start as int) == Some(sp.end as int),
    ensures
        decl_ok(s, declare(s, decl, sp)),
{
    let d = declare(s, decl, sp);
    assert forall|k: int| 0 <= k < d.len() implies variable_token(s, (#[trigger] d[k]).start as int)
        == Some(d[k].end as int) by {
        if k < decl.len() {
            assert(d[k] == decl[k]);
        }
    }
}

proof fn lemma_stmt_decl(s: Seq<u8>, st: Statement, decl: Seq<Span>, t: BuiltinSymbols)
    requires
        stmt_ok(s, st),
        decl_ok(s, decl),
    ensures
        decl_ok(s, stmt_pass(s, st, decl, t).2),
    decreases st, 1int,
{
    match st {
        Statement::Assignment(a) => {
            assert(assignment_ok(s, *a));
            lemma_declare(s, decl, lvalue_span(*a));
        },
        Statement::IfCond(i) => {
            lemma_block_decl(s, i.block, decl, t);
        },
        Statement::Loop(l) => match *l {
            Loop::While(w) => {
                lemma_block_decl(s, w.block, decl, t);
            },
            Loop::For(f) => {
                lemma_block_decl(s, f.block, decl, t);
            },
        },
        _ => {},
    }
}

proof fn lemma_stmts_decl(
    s: Seq<u8>,
    l: NodeList<Statement>,
    decl: Seq<Span>,
    t: BuiltinSymbols,
    lo: int,
    hi: int,
)
    requires
        stmts_ok(s, l, lo, hi),
        decl_ok(s, decl),
    ensures
        decl_ok(s, stmts_pass(s, l, decl, t).2),
    decreases l, 0int,
{
    match l {
        NodeList::Nil => {},
        NodeList::Cons(h, rest) => {
            lemma_stmt_decl(s, h, decl, t);
            let d1 = stmt_pass(s, h, decl, t).2;
            lemma_stmts_decl(s, *rest, d1, t, crate::leaves::stmt_span(h).end as int, hi);
        },
    }
}

proof fn lemma_block_decl(s: Seq<u8>, b: Block, decl: Seq<Span>, t: BuiltinSymbols)
    requires
        block_ok(s, b),
        decl_ok(s, decl),
    ensures
        decl_ok(s, block_pass(s, b, decl, t).1),
    decreases b, 2int,
{
    lemma_stmts_decl(s, b.statements, decl, t, b.span.start as int, b.span.end as int);
}

proof fn lemma_preambles_decl(
    s: Seq<u8>,
    l: NodeList<Preamble>,
    decl: Seq<Span>,
    t: BuiltinSymbols,
    lo: int,
    hi: int,
)
    requires
        preambles_ok(s, l, lo, hi),
        decl_ok(s, decl),
    ensures
        decl_ok(s, preambles_pass(s, l, decl, t).1),
    decreases l,
{
    match l {
        NodeList::Nil => {},
        NodeList::Cons(h, rest) => {
            let end = crate::leaves::preamble_span(h).end as int;
            match h {
                Preamble::Probe(p) => {
                    assert(probe_ok(s, p));
                    lemma_block_decl(s, p.block, decl, t);
                    let d1 = probe_pass(s, p, decl, t).1;
                    lemma_preambles_decl(s, *rest, d1, t, end, hi);
                },
                Preamble::Error(_) => {
                    lemma_preambles_decl(s, *rest, decl, t, end, hi);
                },
            }
        },
    }
}

/// The names that the analysis of a parsed document declares are variable tokens.
proof fn lemma_analysis_decl(s: Seq<u8>, t: BuiltinSymbols)
    requires
        s.len() <= usize::MAX,
    ensures
        decl_ok(s, analysis(s, program(s), t).1),
{
    law_leaves_are_tokens(s);
    lemma_preambles_decl(s, program(s).preambles, Seq::empty(), t, 0, s.len() as int);
}

/// A variable token is ASCII, so it starts and ends on character boundaries.
proof fn lemma_variable_piece(s: Seq<u8>, sp: Span)
    requires
        valid_utf8(s),
        s.len() <= usize::MAX,
        variable_token(s, sp.start as int) == Some(sp.end as int),
    ensures
        piece(s, sp) == sp.text(s),
{
    let i = sp.start as int;
    lemma_ident_end_bounds(s, i + 2);
    assert forall|k: int| i <= k < sp.end as int implies #[trigger] s[k] < 0x80 by {
        if k >= i + 2 {
            assert(is_ident_char(s[k]));
        }
    }
    lemma_ascii_piece(s, i, sp.end as int);
    assert(mk_span(i, sp.end as int) == sp);
}

/// The text that a span covers, as characters.
pub open spec fn piece_chars(src: &str, sp: Span) -> Seq<char> {
    decode_utf8(piece(src.spec_bytes(), sp))
}

/// The text of `src` that `sp` covers (see `piece`).
pub fn span_str<'a>(src: &'a str, sp: Span) -> (r: &'a str)
    ensures
        r.spec_bytes() == piece(src.spec_bytes(), sp),
        r@ == piece_chars(src, sp),
{
    proof {
        vstd::utf8::encode_utf8_valid_utf8(src@);
    }
    let ghost b = src.spec_bytes();
    let len = src.as_bytes().len();
    if sp.start <= sp.end && sp.end <= len && src.is_char_boundary(sp.end) {
        let (head, _) = src.split_at(sp.end);
        proof {
            vstd::utf8::encode_utf8_valid_utf8(head@);
            assert(head.spec_bytes() =~= b.subrange(0, sp.end as int));
        }
        if head.is_char_boundary(sp.start) {
            let (_, t) = head.split_at(sp.start);
            proof {
                vstd::utf8::encode_utf8_decode_utf8(t@);
                assert(t.spec_bytes() =~= piece(b, sp));
            }
            t
        } else {
            empty_str(src)
        }
    } else {
        empty_str(src)
    }
}

fn empty_str<'a>(src: &'a str) -> (r: &'a str)
    ensures
        r.spec_bytes() == Seq::<u8>::empty(),
        r@ == decode_utf8(Seq::<u8>::empty()),
{
    proof {
        vstd::utf8::encode_utf8_valid_utf8(src@);
    }
    let (e, _) = src.split_at(0);
    proof {
        vstd::utf8::encode_utf8_decode_utf8(e@);
        assert(e.spec_bytes() =~= Seq::<u8>::empty());
    }
    e
}

/// One analysed document: its tree with the semantic errors added, and the names it
/// declares, first assignments first.
pub struct AnalyzedFile {
    pub variables: Vec<String>,
    pub ast: Program,
}

/// The declared names as strings: each holds the text of the span at the same place.
pub open spec fn strings_match(src: Seq<u8>, v: Seq<String>, spans: Seq<Span>) -> bool {
    &&& v.len() == spans.len()
    &&& forall|i: int| 0 <= i < v.len() ==> (#[trigger] v[i])@ == decode_utf8(spans[i].text(src))
}

/// `f` is the analysis of `text` with the builtin table `t`: the parsed tree with its
/// semantic errors added, and the declared names as strings.
pub open spec fn analysis_result(text: &str, t: BuiltinSymbols, f: AnalyzedFile) -> bool {
    let s = text.spec_bytes();
    let (p, d) = analysis(s, program(s), t);
    f.ast == p && strings_match(s, f.variables@, d)
}

/// Analysis is repeatable: the result depends on the text and the builtin table alone,
/// not on what an analyzer analysed before, so the same text gives the same tree, the
/// same errors in the same order, and the same declared names.
pub proof fn law_analysis_repeatable(text: &str, t: BuiltinSymbols, f: AnalyzedFile, g: AnalyzedFile)
    requires
        analysis_result(text, t, f),
        analysis_result(text, t, g),
    ensures
        f.ast == g.ast,
        f.ast.spec_errors() == g.ast.spec_errors(),
        f.variables@.map_values(|v: String| v@) == g.variables@.map_values(|v: String| v@),
{
    assert(f.variables@.map_values(|v: String| v@) =~= g.variables@.map_values(|v: String| v@));
}

pub struct SemanticAnalyzer {
    /// The text of the document analysed last.
    pub content: String,
    /// The names that the last analysis found declared.
    pub variables: Vec<String>,
    pub builtins: BuiltinSymbols,
}

impl SemanticAnalyzer {
    pub fn new() -> (r: SemanticAnalyzer)
        ensures
            r.content@.len() == 0,
            r.variables@.len() == 0,
            symbol_names(r.builtins.keywords@) == builtin_keywords(),
            symbol_names(r.builtins.functions@) == builtin_functions(),
            r.builtins.keyword_names() == builtin_keywords().map_values(|n: &str| n.spec_bytes()),
            r.builtins.function_names() == builtin_functions().map_values(|n: &str| n.spec_bytes()),
    {
        SemanticAnalyzer { content: String::new(), variables: Vec::new(), builtins: BuiltinSymbols::new() }
    }

    /// Adds a name to the declared names.
    pub fn insert(&mut self, name: String)
        ensures
            final(self).variables@ == old(self).variables@.push(name),
            final(self).content == old(self).content,
            final(self).builtins == old(self).builtins,
    {
        self.variables.push(name);
    }

    /// Parses and analyses `text`. The result holds the analysed tree and the declared
    /// names; the analyzer keeps the text and a copy of those names.
    pub fn analyze(&mut self, text: &str) -> (r: Result<AnalyzedFile, ParseError>)
        ensures
            final(self).content@ == text@,
            final(self).builtins == old(self).builtins,
            r is Ok,
            r matches Ok(f) ==> {
                &&& analysis_result(text, old(self).builtins, f)
                &&& final(self).variables@.map_values(|v: String| v@) == f.variables@.map_values(
                    |v: String| v@,
                )
            },
    {
        let ast = match parse(text) {
            Ok(p) => p,
            Err(e) => {
                return Err(e);
            },
        };
        let s = text.as_bytes();
        let (ast, spans) = analyze_program(s, ast, &self.builtins);
        proof {
            lemma_len_fits(s);
            lemma_analysis_decl(s@, self.builtins);
            vstd::utf8::encode_utf8_valid_utf8(text@);
        }
        let mut variables: Vec<String> = Vec::new();
        let mut copy: Vec<String> = Vec::new();
        let mut i: usize = 0;
        while i < spans.len()
            invariant
                i <= spans@.len(),
                s@ == text.spec_bytes(),
                s@.len() <= usize::MAX,
                valid_utf8(s@),
                decl_ok(s@, spans@),
                copy@.len() == variables@.len(),
                forall|k: int| 0 <= k < copy@.len() ==> #[trigger] copy@[k]@ == variables@[k]@,
                strings_match(s@, variables@, spans@.subrange(0, i as int)),
            decreases spans@.len() - i,
        {
            let t = span_str(text, spans[i]);
            proof {
                lemma_variable_piece(s@, spans@[i as int]);
            }
            let ghost before = variables@;
            variables.push(String::from_str(t));
            copy.push(String::from_str(t));
            proof {
                assert(variables@[i as int]@ == t@);
                let prev = spans@.subrange(0, i as int);
                let cur = spans@.subrange(0, i + 1);
                assert forall|k: int| 0 <= k < variables@.len() implies (
                #[trigger] variables@[k])@ == decode_utf8(cur[k].text(s@)) by {
                    if k < i {
                        assert(cur[k] == prev[k]);
                        assert(variables@[k] == before[k]);
                    } else {
                        assert(cur[k] == spans@[k]);
                    }
                }
                assert(strings_match(s@, variables@, cur));
            }
            i = i + 1;
        }
        assert(spans@.subrange(0, spans@.len() as int) =~= spans@);
        assert(copy@.map_values(|v: String| v@) =~= variables@.map_values(|v: String| v@));
        self.content = String::from_str(text);
        self.variables = copy;
        Ok(AnalyzedFile { variables, ast })
    }
}

/// What the diagnostic of `e` says (see `ErrorRef::diagnosis`).
pub open spec fn message_of(src: &str, e: ErrorRef) -> Seq<char> {
    match e {
        ErrorRef::Statement(ErrorStatement::UnknownStatement(x)) => "Unknown statement \""@
            + piece_chars(src, x.span) + "\""@,
        ErrorRef::Statement(ErrorStatement::UndefinedIdent(x)) => "Undefined Identifier \""@
            + piece_chars(src, x.span) + "\""@,
        ErrorRef::Statement(ErrorStatement::UndefinedFunc(x)) => "Undefined function \""@
            + piece_chars(src, x.name) + "\""@,
        ErrorRef::Preamble(ErrorPreamble::UnknownPreamble(x)) => "Unknown preamble \""@
            + piece_chars(src, x.span) + "\""@,
        ErrorRef::Preamble(ErrorPreamble::UnmatchedBrace(_)) => "Unmatched brace"@,
    }
}

impl UnknownStatement {
    pub fn diagnosis(&self, src: &str) -> (r: String)
        ensures
            r@ == "Unknown statement \""@ + piece_chars(src, self.span) + "\""@,
    {
        quoted("Unknown statement \"", span_str(src, self.span))
    }
}

impl UndefinedIdent {
    pub fn diagnosis(&self, src: &str) -> (r: String)
        ensures
            r@ == "Undefined Identifier \""@ + piece_chars(src, self.span) + "\""@,
    {
        quoted("Undefined Identifier \"", span_str(src, self.span))
    }
}

impl UndefinedFunc {
    pub fn diagnosis(&self, src: &str) -> (r: String)
        ensures
            r@ == "Undefined function \""@ + piece_chars(src, self.name) + "\""@,
    {
        quoted("Undefined function \"", span_str(src, self.name))
    }
}

impl UnknownPreamble {
    pub fn diagnosis(&self, src: &str) -> (r: String)
        ensures
            r@ == "Unknown preamble \""@ + piece_chars(src, self.span) + "\""@,
    {
        quoted("Unknown preamble \"", span_str(src, self.span))
    }
}

impl UnmatchedBrace {
    pub fn diagnosis(&self) -> (r: String)
        ensures
            r@ == "Unmatched brace"@,
    {
        String::from_str("Unmatched brace")
    }
}

impl ErrorStatement {
    pub fn diagnosis(&self, src: &str) -> (r: String)
        ensures
            r@ == message_of(src, ErrorRef::Statement(self)),
    {
        match self {
            ErrorStatement::UnknownStatement(e) => e.diagnosis(src),
            ErrorStatement::UndefinedIdent(e) => e.diagnosis(src),
            ErrorStatement::UndefinedFunc(e) => e.diagnosis(src),
        }
    }
}

impl ErrorPreamble {
    pub fn diagnosis(&self, src: &str) -> (r: String)
        ensures
            r@ == message_of(src, ErrorRef::Preamble(self)),
    {
        match self {
            ErrorPreamble::UnknownPreamble(e) => e.diagnosis(src),
            ErrorPreamble::UnmatchedBrace(e) => e.diagnosis(),
        }
    }
}

impl<'a> ErrorRef<'a> {
    /// What a diagnostic says of this error; names and unknown text are quoted.
    pub fn diagnosis(&self, src: &str) -> (r: String)
        ensures
            r@ == message_of(src, *self),
    {
        match self {
            ErrorRef::Statement(e) => e.diagnosis(src),
            ErrorRef::Preamble(e) => e.diagnosis(src),
        }
    }
}

fn quoted(head: &str, text: &str) -> (r: String)
    ensures
        r@ == head@ + text@ + "\""@,
{
    let mut m = String::from_str(head);
    m.append(text);
    m.append("\"");
    m
}

} // verus!
